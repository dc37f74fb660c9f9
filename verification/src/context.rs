//! Browser contexts: one identity's cookies, storage and network settings.
use crate::cookies::{
    cookie_index, cookie_put, cookies_put, cookies_view, lemma_cookie_index, unique_cookies,
    CookieInfo, CookieJar, CookieView,
};
use crate::origin::opt_text;
use crate::storage::{load_entries, persisted_view, JarView, PersistedOrigin, StorageJar};
use std::path::PathBuf;
use vstd::prelude::*;

verus! {

/// `std::path::PathBuf`, carried through untouched.
#[verifier::external_type_specification]
#[verifier::external_body]
pub struct ExPathBuf(std::path::PathBuf);

/// The clone of a `std::path::PathBuf`. Claimed: it is the same path.
pub assume_specification[ <std::path::PathBuf as Clone>::clone ](p: &std::path::PathBuf) -> (r:
    std::path::PathBuf)
    ensures
        r == *p,
;

/// The browser that a context presents itself as.
#[derive(Debug)]
pub struct Profile {
    pub user_agent: String,
    pub platform: String,
    pub ua_platform: String,
    pub ua_platform_version: String,
}

#[verifier::ext_equal]
pub struct ProfileView {
    pub user_agent: Seq<char>,
    pub platform: Seq<char>,
    pub ua_platform: Seq<char>,
    pub ua_platform_version: Seq<char>,
}

impl View for Profile {
    type V = ProfileView;

    open spec fn view(&self) -> ProfileView {
        ProfileView {
            user_agent: self.user_agent@,
            platform: self.platform@,
            ua_platform: self.ua_platform@,
            ua_platform_version: self.ua_platform_version@,
        }
    }
}

/// What a storage directory held: the cookie file and the storage file.
#[derive(Debug)]
pub struct SavedState {
    pub cookies: Vec<CookieInfo>,
    pub storage: Vec<PersistedOrigin>,
}

impl SavedState {
    /// An empty directory.
    pub fn none() -> (r: Self)
        ensures
            r.cookies@ == Seq::<CookieInfo>::empty(),
            r.storage@ == Seq::<PersistedOrigin>::empty(),
    {
        SavedState { cookies: Vec::new(), storage: Vec::new() }
    }
}

/// The settings of a context's HTTP client.
#[derive(Debug)]
pub struct HttpSettings {
    pub proxy_url: Option<String>,
    /// Whether localhost and private addresses may be fetched.
    pub allow_private_network: bool,
    pub block_trackers: bool,
    pub user_agent: String,
}

#[verifier::ext_equal]
pub struct HttpView {
    pub proxy_url: Option<Seq<char>>,
    pub allow_private_network: bool,
    pub block_trackers: bool,
    pub user_agent: Seq<char>,
}

impl View for HttpSettings {
    type V = HttpView;

    open spec fn view(&self) -> HttpView {
        HttpView {
            proxy_url: opt_text(self.proxy_url),
            allow_private_network: self.allow_private_network,
            block_trackers: self.block_trackers,
            user_agent: self.user_agent@,
        }
    }
}

impl HttpSettings {
    /// Changes the user agent of later requests.
    pub fn set_user_agent(&mut self, user_agent: &str)
        ensures
            final(self)@ == (HttpView { user_agent: user_agent@, ..old(self)@ }),
    {
        self.user_agent = user_agent.to_owned();
    }
}

/// One identity: its cookies, its Web Storage and how it talks to the network.
pub struct BrowserContext {
    pub id: String,
    pub cookie_jar: CookieJar,
    /// `localStorage` and `sessionStorage`, shared by every page of the
    /// context. Only `localStorage` ever reaches the storage directory.
    pub storage: StorageJar,
    pub http_client: HttpSettings,
    pub user_agent: String,
    pub platform: String,
    pub ua_platform: String,
    pub ua_platform_version: String,
    pub proxy_url: Option<String>,
    pub obey_robots: bool,
    pub stealth: bool,
    /// Whether a protocol client may navigate to `file://` URLs. Off unless
    /// asked for: a remote client must not read local files.
    pub allow_file_access: bool,
    pub storage_dir: Option<PathBuf>,
    /// Whether localhost and private addresses may be fetched.
    pub allow_private_network: bool,
}

#[verifier::ext_equal]
pub struct ContextView {
    pub id: Seq<char>,
    pub cookies: Seq<CookieView>,
    pub storage: JarView,
    pub http: HttpView,
    pub user_agent: Seq<char>,
    pub platform: Seq<char>,
    pub ua_platform: Seq<char>,
    pub ua_platform_version: Seq<char>,
    pub proxy_url: Option<Seq<char>>,
    pub obey_robots: bool,
    pub stealth: bool,
    pub allow_file_access: bool,
    pub storage_dir: Option<PathBuf>,
    pub allow_private_network: bool,
}

impl View for BrowserContext {
    type V = ContextView;

    open spec fn view(&self) -> ContextView {
        ContextView {
            id: self.id@,
            cookies: self.cookie_jar@,
            storage: self.storage@,
            http: self.http_client@,
            user_agent: self.user_agent@,
            platform: self.platform@,
            ua_platform: self.ua_platform@,
            ua_platform_version: self.ua_platform_version@,
            proxy_url: opt_text(self.proxy_url),
            obey_robots: self.obey_robots,
            stealth: self.stealth,
            allow_file_access: self.allow_file_access,
            storage_dir: self.storage_dir,
            allow_private_network: self.allow_private_network,
        }
    }
}

/// The HTTP settings of a context with these options. A stealth context also
/// blocks trackers.
pub open spec fn http_view(
    proxy_url: Option<Seq<char>>,
    allow_private_network: bool,
    stealth: bool,
    user_agent: Seq<char>,
) -> HttpView {
    HttpView { proxy_url, allow_private_network, block_trackers: stealth, user_agent }
}

/// A new context: what was saved in its directory if it has one, else no
/// cookies and no storage; the given user agent or else the profile's.
pub open spec fn new_context(
    id: Seq<char>,
    proxy_url: Option<Seq<char>>,
    stealth: bool,
    user_agent: Option<Seq<char>>,
    storage_dir: Option<PathBuf>,
    allow_private_network: bool,
    profile: ProfileView,
    saved_cookies: Seq<CookieView>,
    saved_storage: Seq<(Seq<char>, crate::items::Items)>,
) -> ContextView {
    let agent = match user_agent {
        Some(a) => a,
        None => profile.user_agent,
    };
    ContextView {
        id,
        cookies: if storage_dir is Some {
            cookies_put(Seq::empty(), saved_cookies)
        } else {
            Seq::empty()
        },
        storage: if storage_dir is Some {
            load_entries(Map::empty(), saved_storage).0
        } else {
            Map::empty()
        },
        http: http_view(proxy_url, allow_private_network, stealth, agent),
        user_agent: agent,
        platform: profile.platform,
        ua_platform: profile.ua_platform,
        ua_platform_version: profile.ua_platform_version,
        proxy_url,
        obey_robots: false,
        stealth,
        allow_file_access: false,
        storage_dir,
        allow_private_network,
    }
}

/// A new context without a directory.
pub open spec fn memory_context(
    id: Seq<char>,
    proxy_url: Option<Seq<char>>,
    stealth: bool,
    user_agent: Option<Seq<char>>,
    profile: ProfileView,
) -> ContextView {
    new_context(
        id,
        proxy_url,
        stealth,
        user_agent,
        None,
        false,
        profile,
        Seq::empty(),
        Seq::empty(),
    )
}

/// The copy of a context under another id. A persistent one starts with the
/// cookies and the storage and writes to the same directory; any other starts
/// empty and writes nowhere.
pub open spec fn copied_context(c: ContextView, id: Seq<char>, persistent: bool) -> ContextView {
    ContextView {
        id,
        cookies: if persistent {
            c.cookies
        } else {
            Seq::empty()
        },
        storage: if persistent {
            c.storage
        } else {
            Map::empty()
        },
        http: http_view(c.proxy_url, c.allow_private_network, c.stealth, c.user_agent),
        storage_dir: if persistent {
            c.storage_dir
        } else {
            None
        },
        ..c
    }
}

/// Putting cookies without duplicates into an empty jar gives just these.
pub proof fn lemma_put_into_empty(cs: Seq<CookieView>)
    requires
        unique_cookies(cs),
    ensures
        cookies_put(Seq::empty(), cs) == cs,
    decreases cs.len(),
{
    if cs.len() > 0 {
        let front = cs.drop_last();
        assert forall|i: int, j: int| 0 <= i < j < front.len() implies !crate::cookies::same_cookie(
            #[trigger] front[i],
            #[trigger] front[j],
        ) by {
            assert(!crate::cookies::same_cookie(cs[i], cs[j]));
        }
        lemma_put_into_empty(front);
        lemma_cookie_index(front, cs.last());
        match cookie_index(front, cs.last()) {
            Some(i) => {
                assert(!crate::cookies::same_cookie(cs[i], cs[cs.len() - 1]));
            },
            None => {},
        }
        assert(cookie_put(front, cs.last()) =~= cs);
    } else {
        assert(cs =~= Seq::empty());
    }
}

fn copy_opt(s: &Option<String>) -> (r: Option<String>)
    ensures
        opt_text(r) == opt_text(*s),
{
    match s {
        Some(s) => Some(s.clone()),
        None => None,
    }
}

impl BrowserContext {
    /// A context without a proxy, without a directory, with the profile's user
    /// agent.
    pub fn new(id: String, profile: &Profile) -> (r: Self)
        ensures
            r@ == memory_context(id@, None, false, None, profile@),
    {
        Self::with_full_options(id, None, false, None, profile)
    }

    /// A context with an optional storage directory, and what was saved there.
    pub fn with_storage(
        id: String,
        storage_dir: Option<PathBuf>,
        profile: &Profile,
        saved: SavedState,
    ) -> (r: Self)
        ensures
            r@ == new_context(
                id@,
                None,
                false,
                None,
                storage_dir,
                false,
                profile@,
                cookies_view(saved.cookies@),
                persisted_view(saved.storage@),
            ),
    {
        Self::_new_inner(id, None, false, None, storage_dir, false, profile, saved)
    }

    /// A context with all options but the private network.
    pub fn with_storage_full(
        id: String,
        proxy_url: Option<String>,
        stealth: bool,
        user_agent: Option<String>,
        storage_dir: Option<PathBuf>,
        profile: &Profile,
        saved: SavedState,
    ) -> (r: Self)
        ensures
            r@ == new_context(
                id@,
                opt_text(proxy_url),
                stealth,
                opt_text(user_agent),
                storage_dir,
                false,
                profile@,
                cookies_view(saved.cookies@),
                persisted_view(saved.storage@),
            ),
    {
        Self::_new_inner(id, proxy_url, stealth, user_agent, storage_dir, false, profile, saved)
    }

    /// A context with all options. Every other constructor keeps the private
    /// network closed.
    pub fn with_storage_and_network(
        id: String,
        proxy_url: Option<String>,
        stealth: bool,
        user_agent: Option<String>,
        storage_dir: Option<PathBuf>,
        allow_private_network: bool,
        profile: &Profile,
        saved: SavedState,
    ) -> (r: Self)
        ensures
            r@ == new_context(
                id@,
                opt_text(proxy_url),
                stealth,
                opt_text(user_agent),
                storage_dir,
                allow_private_network,
                profile@,
                cookies_view(saved.cookies@),
                persisted_view(saved.storage@),
            ),
    {
        Self::_new_inner(
            id,
            proxy_url,
            stealth,
            user_agent,
            storage_dir,
            allow_private_network,
            profile,
            saved,
        )
    }

    fn _new_inner(
        id: String,
        proxy_url: Option<String>,
        stealth: bool,
        user_agent: Option<String>,
        storage_dir: Option<PathBuf>,
        allow_private_network: bool,
        profile: &Profile,
        saved: SavedState,
    ) -> (r: Self)
        ensures
            r@ == new_context(
                id@,
                opt_text(proxy_url),
                stealth,
                opt_text(user_agent),
                storage_dir,
                allow_private_network,
                profile@,
                cookies_view(saved.cookies@),
                persisted_view(saved.storage@),
            ),
    {
        let mut cookie_jar = CookieJar::new();
        let mut storage = StorageJar::new();
        match &storage_dir {
            Some(_) => {
                cookie_jar.set_cookies_from_cdp(saved.cookies);
                let _ = storage.load_persisted(&saved.storage);
            },
            None => {},
        }
        let resolved: String = match user_agent {
            Some(agent) => agent,
            None => profile.user_agent.clone(),
        };
        let http_client = HttpSettings {
            proxy_url: copy_opt(&proxy_url),
            allow_private_network,
            block_trackers: stealth,
            user_agent: resolved.clone(),
        };
        BrowserContext {
            id,
            cookie_jar,
            storage,
            http_client,
            user_agent: resolved,
            platform: profile.platform.clone(),
            ua_platform: profile.ua_platform.clone(),
            ua_platform_version: profile.ua_platform_version.clone(),
            proxy_url,
            obey_robots: false,
            stealth,
            allow_file_access: false,
            storage_dir,
            allow_private_network,
        }
    }

    /// A context in memory with the profile's user agent.
    pub fn with_options(
        id: String,
        proxy_url: Option<String>,
        stealth: bool,
        profile: &Profile,
    ) -> (r: Self)
        ensures
            r@ == memory_context(id@, opt_text(proxy_url), stealth, None, profile@),
    {
        Self::with_full_options(id, proxy_url, stealth, None, profile)
    }

    /// A context in memory.
    pub fn with_full_options(
        id: String,
        proxy_url: Option<String>,
        stealth: bool,
        user_agent: Option<String>,
        profile: &Profile,
    ) -> (r: Self)
        ensures
            r@ == memory_context(
                id@,
                opt_text(proxy_url),
                stealth,
                opt_text(user_agent),
                profile@,
            ),
    {
        Self::_new_inner(
            id,
            proxy_url,
            stealth,
            user_agent,
            None,
            false,
            profile,
            SavedState::none(),
        )
    }

    /// A context in memory behind a proxy.
    pub fn with_proxy(id: String, proxy_url: Option<String>, profile: &Profile) -> (r: Self)
        ensures
            r@ == memory_context(id@, opt_text(proxy_url), false, None, profile@),
    {
        Self::with_options(id, proxy_url, false, profile)
    }

    /// A context with the same configuration but mutable state of its own.
    /// Persistent copies start with the current cookies and storage; incognito
    /// copies start empty and never write to the storage directory.
    pub fn isolated_copy(&self, id: String, persistent: bool) -> (r: Self)
        ensures
            r@ == copied_context(self@, id@, persistent),
    {
        let mut cookie_jar = CookieJar::new();
        let mut storage = StorageJar::new();
        let mut storage_dir: Option<PathBuf> = None;
        if persistent {
            let all: Vec<CookieInfo> = self.cookie_jar.get_all_cookies();
            proof {
                lemma_put_into_empty(self.cookie_jar@);
            }
            cookie_jar.set_cookies_from_cdp(all);
            storage.copy_from(&self.storage);
            match &self.storage_dir {
                Some(dir) => {
                    storage_dir = Some(dir.clone());
                },
                None => {},
            }
            assert(storage@ =~= self.storage@);
        }
        let http_client = HttpSettings {
            proxy_url: copy_opt(&self.proxy_url),
            allow_private_network: self.allow_private_network,
            block_trackers: self.stealth,
            user_agent: self.user_agent.clone(),
        };
        BrowserContext {
            id,
            cookie_jar,
            storage,
            http_client,
            user_agent: self.user_agent.clone(),
            platform: self.platform.clone(),
            ua_platform: self.ua_platform.clone(),
            ua_platform_version: self.ua_platform_version.clone(),
            proxy_url: copy_opt(&self.proxy_url),
            obey_robots: self.obey_robots,
            stealth: self.stealth,
            allow_file_access: self.allow_file_access,
            storage_dir,
            allow_private_network: self.allow_private_network,
        }
    }
}

} // verus!
