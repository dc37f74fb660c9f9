//! Laws of browser contexts.
use crate::cdp::CdpView;
use crate::context::{
    copied_context, http_view, lemma_put_into_empty, memory_context, new_context, ContextView,
    ProfileView,
};
use crate::cookies::{cookies_put, unique_cookies, CookieView};
use crate::items::{items_bytes, tidy, Items};
use crate::laws::storage::law_saved_storage_comes_back;
use crate::storage::{jar_items, jar_persisted, load_entries, AreasView, StorageArea};
use std::path::PathBuf;
use vstd::prelude::*;

verus! {

/// A context that is opened on a directory takes up what was saved there under
/// every choice of proxy, stealth, user agent and private network: its cookies
/// are the saved ones, its `localStorage` the saved items, and its
/// `sessionStorage` is empty.
pub proof fn law_directory_is_taken_up(
    c: ContextView,
    id: Seq<char>,
    proxy_url: Option<Seq<char>>,
    stealth: bool,
    user_agent: Option<Seq<char>>,
    dir: PathBuf,
    allow_private_network: bool,
    profile: ProfileView,
)
    requires
        forall|a: int, b: int|
            0 <= a < b < c.cookies.len() ==> (#[trigger] c.cookies[a]).name != (
            #[trigger] c.cookies[b]).name || c.cookies[a].domain != c.cookies[b].domain
                || c.cookies[a].path != c.cookies[b].path,
        c.storage.dom().finite(),
        forall|o: Seq<char>, i: int, j: int|
            c.storage.contains_key(o) && 0 <= i < j < c.storage[o].local.len() ==> (
            #[trigger] c.storage[o].local[i]).0 != (#[trigger] c.storage[o].local[j]).0,
        forall|o: Seq<char>| #[trigger]
            c.storage.contains_key(o) ==> items_bytes(c.storage[o].local) <= 5_242_880,
    ensures
        ({
            let reopened = new_context(
                id,
                proxy_url,
                stealth,
                user_agent,
                Some(dir),
                allow_private_network,
                profile,
                c.cookies,
                jar_persisted(c.storage),
            );
            &&& reopened.cookies == c.cookies
            &&& forall|o: Seq<char>|
                #[trigger] jar_items(reopened.storage, o, StorageArea::Local) == (
                if c.storage.contains_key(o) {
                    c.storage[o].local
                } else {
                    Seq::empty()
                })
            &&& forall|o: Seq<char>|
                #[trigger] jar_items(reopened.storage, o, StorageArea::Session).len() == 0
        }),
{
    assert(unique_cookies(c.cookies));
    lemma_put_into_empty(c.cookies);
    assert forall|o: Seq<char>| #[trigger] c.storage.contains_key(o) implies tidy(
        c.storage[o].local,
    ) by {
        let items = c.storage[o].local;
        assert forall|i: int, j: int| 0 <= i < j < items.len() implies (#[trigger] items[i]).0 != (
        #[trigger] items[j]).0 by {
            assert(c.storage[o].local[i].0 != c.storage[o].local[j].0);
        }
    }
    law_saved_storage_comes_back(c.storage);
    assert forall|o: Seq<char>| !c.storage.contains_key(o) implies #[trigger] jar_items(
        c.storage,
        o,
        StorageArea::Local,
    ) == Seq::<(Seq<char>, Seq<char>)>::empty() by {}
}

/// Whatever a directory held is put into the new context as it would be put
/// into one without cookies and storage; no other option has a say in it.
pub proof fn law_options_do_not_touch_the_session(
    id: Seq<char>,
    proxy_url: Option<Seq<char>>,
    stealth: bool,
    user_agent: Option<Seq<char>>,
    storage_dir: Option<PathBuf>,
    allow_private_network: bool,
    profile: ProfileView,
    cookies: Seq<CookieView>,
    storage: Seq<(Seq<char>, Items)>,
)
    ensures
        ({
            let c = new_context(
                id,
                proxy_url,
                stealth,
                user_agent,
                storage_dir,
                allow_private_network,
                profile,
                cookies,
                storage,
            );
            &&& storage_dir is Some ==> c.cookies == cookies_put(Seq::empty(), cookies)
            &&& storage_dir is Some ==> c.storage == load_entries(Map::empty(), storage).0
            &&& storage_dir is None ==> c.cookies == Seq::<CookieView>::empty()
            &&& storage_dir is None ==> c.storage == Map::<Seq<char>, AreasView>::empty()
        }),
{
}

/// A new context is what was asked for: id, proxy, stealth, directory and
/// private network are the given ones, the user agent is the given one or else
/// the profile's, the platform is the profile's; the HTTP client has the same
/// settings and blocks trackers just for stealth; robots rules are not obeyed
/// and local files not read unless that is asked for later.
pub proof fn law_new_context_has_its_options(
    id: Seq<char>,
    proxy_url: Option<Seq<char>>,
    stealth: bool,
    user_agent: Option<Seq<char>>,
    storage_dir: Option<PathBuf>,
    allow_private_network: bool,
    profile: ProfileView,
    cookies: Seq<CookieView>,
    storage: Seq<(Seq<char>, Items)>,
)
    ensures
        ({
            let c = new_context(
                id,
                proxy_url,
                stealth,
                user_agent,
                storage_dir,
                allow_private_network,
                profile,
                cookies,
                storage,
            );
            &&& c.id == id
            &&& c.proxy_url == proxy_url && c.http.proxy_url == proxy_url
            &&& c.stealth == stealth && c.http.block_trackers == stealth
            &&& c.storage_dir == storage_dir
            &&& c.allow_private_network == allow_private_network
            &&& c.http.allow_private_network == allow_private_network
            &&& user_agent is Some ==> Some(c.user_agent) == user_agent
            &&& user_agent is None ==> c.user_agent == profile.user_agent
            &&& c.http.user_agent == c.user_agent
            &&& c.platform == profile.platform
            &&& c.ua_platform == profile.ua_platform
            &&& c.ua_platform_version == profile.ua_platform_version
            &&& !c.obey_robots && !c.allow_file_access
        }),
{
}

/// A context in memory has no directory, no access to the private network, no
/// cookies and no storage, and otherwise what was asked for.
pub proof fn law_memory_context_has_its_options(
    id: Seq<char>,
    proxy_url: Option<Seq<char>>,
    stealth: bool,
    user_agent: Option<Seq<char>>,
    profile: ProfileView,
)
    ensures
        ({
            let c = memory_context(id, proxy_url, stealth, user_agent, profile);
            &&& c.id == id
            &&& c.cookies.len() == 0 && c.storage == Map::<Seq<char>, AreasView>::empty()
            &&& c.storage_dir is None
            &&& !c.allow_private_network && !c.http.allow_private_network
            &&& !c.obey_robots && !c.allow_file_access
            &&& c.proxy_url == proxy_url && c.http.proxy_url == proxy_url
            &&& c.stealth == stealth && c.http.block_trackers == stealth
            &&& c.user_agent == c.http.user_agent && c.user_agent == (match user_agent {
                Some(agent) => agent,
                None => profile.user_agent,
            })
            &&& c.platform == profile.platform && c.ua_platform == profile.ua_platform
            &&& c.ua_platform_version == profile.ua_platform_version
        }),
{
}

/// A copy differs from its source in nothing but its id and, unless it is
/// persistent, in starting without cookies, storage and directory. Its HTTP
/// client is set up anew from the source's configuration.
pub proof fn law_copy_keeps_the_configuration(c: ContextView, id: Seq<char>, persistent: bool)
    ensures
        ({
            let copy = copied_context(c, id, persistent);
            &&& copy.id == id
            &&& persistent ==> copy.cookies == c.cookies && copy.storage == c.storage
                && copy.storage_dir == c.storage_dir
            &&& !persistent ==> copy.cookies == Seq::<CookieView>::empty() && copy.storage
                == Map::<Seq<char>, AreasView>::empty() && copy.storage_dir is None
            &&& copy.user_agent == c.user_agent && copy.platform == c.platform
            &&& copy.ua_platform == c.ua_platform
            &&& copy.ua_platform_version == c.ua_platform_version
            &&& copy.proxy_url == c.proxy_url && copy.stealth == c.stealth
            &&& copy.obey_robots == c.obey_robots
            &&& copy.allow_file_access == c.allow_file_access
            &&& copy.allow_private_network == c.allow_private_network
            &&& copy.http.user_agent == c.user_agent && copy.http.proxy_url == c.proxy_url
            &&& copy.http.allow_private_network == c.allow_private_network
            &&& copy.http.block_trackers == c.stealth
        }),
{
}

/// A persistent copy of a persistent copy is a copy of the first source, and a
/// copy of an incognito copy starts empty.
pub proof fn law_copies_of_copies(
    c: ContextView,
    id: Seq<char>,
    other: Seq<char>,
    persistent: bool,
)
    ensures
        copied_context(copied_context(c, other, true), id, persistent) == copied_context(
            c,
            id,
            persistent,
        ),
        copied_context(copied_context(c, other, false), id, persistent).cookies.len() == 0,
        copied_context(copied_context(c, other, false), id, persistent).storage_dir is None,
{
    assert(copied_context(copied_context(c, other, true), id, persistent) =~= copied_context(
        c,
        id,
        persistent,
    ));
}

/// The HTTP settings of a context are those of its options.
pub proof fn law_http_settings(
    proxy_url: Option<Seq<char>>,
    allow_private_network: bool,
    stealth: bool,
    user_agent: Seq<char>,
)
    ensures
        ({
            let http = http_view(proxy_url, allow_private_network, stealth, user_agent);
            &&& http.proxy_url == proxy_url
            &&& http.allow_private_network == allow_private_network
            &&& http.block_trackers == stealth
            &&& http.user_agent == user_agent
        }),
{
}

/// A new connection has a context of its own that holds nothing, no page, no
/// session, and renders at 1280x720 with a device pixel ratio of 1, whose
/// `f32` has the bits `0x3f80_0000`.
pub proof fn law_new_connection(profile: ProfileView)
    ensures
        ({
            let c = CdpView::fresh(profile);
            &&& c.default_context == memory_context("default"@, None, false, None, profile)
            &&& c.default_context.id == "default"@
            &&& c.default_context.cookies.len() == 0
            &&& c.default_context.storage == Map::<Seq<char>, AreasView>::empty()
            &&& c.default_context.storage_dir is None && c.default_context.proxy_url is None
            &&& !c.default_context.stealth && !c.default_context.allow_private_network
            &&& !c.default_context.allow_file_access
            &&& c.default_context.user_agent == profile.user_agent
            &&& c.browser_contexts.len() == 0 && c.pages.len() == 0 && c.sessions.len() == 0
            &&& c.viewport.width == 1280 && c.viewport.height == 720
            &&& c.viewport.scale_bits == 0x3f80_0000
        }),
{
}

} // verus!
