//! Portable sessions: a context's cookies and storage as one JSON value.
//!
//! The shape is the one that Playwright's `storageState` has, so a session
//! captured there is imported here and the other way round:
//! `{cookies: [..], origins: [{origin, localStorage: [{name, value}]}]}`, with
//! `sessionStorage` beside `localStorage` where an origin has any.
use crate::context::{BrowserContext, ContextView};
use crate::cookies::{cookies_put, cookies_view, CookieInfo, CookieView};
use crate::items::{items_view, Items};
use crate::json::{array_view, int_number, members_view, Json, JsonView};
use crate::origin::{opt_text, origin_of, url_origin};
use crate::storage::{
    jar_origins, lemma_jar_origins, jar_with, texts_view, AreasView, JarView, StorageArea,
    StorageJar,
};
use crate::text::{ascii_lower, ascii_lower_eq};
use vstd::prelude::*;

verus! {

/// The one of `Strict`, `Lax` and `None` that a cookie's attribute means.
pub open spec fn same_site_name(raw: Seq<char>) -> Seq<char> {
    if ascii_lower(raw) == "strict"@ {
        "Strict"@
    } else if ascii_lower(raw) == "none"@ {
        "None"@
    } else {
        "Lax"@
    }
}

/// A cookie in a session. A cookie that ends with the session expires at -1.
pub open spec fn cookie_json(c: CookieView) -> JsonView {
    JsonView::Object(
        seq![
            ("name"@, JsonView::Text(c.name)),
            ("value"@, JsonView::Text(c.value)),
            ("domain"@, JsonView::Text(c.domain)),
            ("path"@, JsonView::Text(c.path)),
            (
                "expires"@,
                JsonView::Number(
                    int_number(
                        match c.expires {
                            Some(e) => e,
                            None => (-1) as i64,
                        },
                    ),
                ),
            ),
            ("httpOnly"@, JsonView::Bool(c.http_only)),
            ("secure"@, JsonView::Bool(c.secure)),
            ("sameSite"@, JsonView::Text(same_site_name(c.same_site))),
        ],
    )
}

/// A storage item in a session.
pub open spec fn item_json(item: (Seq<char>, Seq<char>)) -> JsonView {
    JsonView::Object(seq![("name"@, JsonView::Text(item.0)), ("value"@, JsonView::Text(item.1))])
}

/// An area in a session.
pub open spec fn items_json(items: Items) -> JsonView {
    JsonView::Array(items.map_values(|i: (Seq<char>, Seq<char>)| item_json(i)))
}

/// An origin in a session.
pub open spec fn origin_json(origin: Seq<char>, areas: AreasView) -> JsonView {
    let always = seq![
        ("origin"@, JsonView::Text(origin)),
        ("localStorage"@, items_json(areas.local)),
    ];
    JsonView::Object(
        if areas.session.len() > 0 {
            always.push(("sessionStorage"@, items_json(areas.session)))
        } else {
            always
        },
    )
}

/// The cookies of a session, in the order of the jar.
pub open spec fn cookies_json(cookies: Seq<CookieView>) -> Seq<JsonView> {
    cookies.map_values(|c: CookieView| cookie_json(c))
}

/// The origins of a session: all that hold an item, in byte order.
pub open spec fn origins_json(jar: JarView) -> Seq<JsonView> {
    jar_origins(jar).map_values(|o: Seq<char>| origin_json(o, jar[o]))
}

/// A session.
pub open spec fn state_json(cookies: Seq<CookieView>, jar: JarView) -> JsonView {
    JsonView::Object(
        seq![
            ("cookies"@, JsonView::Array(cookies_json(cookies))),
            ("origins"@, JsonView::Array(origins_json(jar))),
        ],
    )
}

/// The cookie that a session's entry describes, if it names one: a name, a
/// value and a domain it must have. Playwright writes the expiry as a double;
/// its whole seconds count, and one that is not after the epoch is none.
pub open spec fn cookie_of(j: JsonView) -> Option<CookieView> {
    match (j.get_text("name"@), j.get_text("value"@), j.get_text("domain"@)) {
        (Some(name), Some(value), Some(domain)) => Some(
            CookieView {
                name,
                value,
                domain,
                path: match j.get_text("path"@) {
                    Some(p) => p,
                    None => "/"@,
                },
                secure: j.get_bool("secure"@) == Some(true),
                http_only: match j.get_either("httpOnly"@, "http_only"@) {
                    Some(v) => v.as_bool() == Some(true),
                    None => false,
                },
                same_site: match j.get_either("sameSite"@, "same_site"@) {
                    Some(v) => match v.as_text() {
                        Some(s) => s,
                        None => ""@,
                    },
                    None => ""@,
                },
                expires: match j.get("expires"@) {
                    Some(v) => match v.seconds() {
                        Some(e) => if e > 0 {
                            Some(e)
                        } else {
                            None
                        },
                        None => None,
                    },
                    None => None,
                },
            },
        ),
        _ => None,
    }
}

/// The cookies that a session's entries describe.
pub open spec fn cookies_of(v: Seq<JsonView>) -> Seq<CookieView> {
    v.filter_map(|j: JsonView| cookie_of(j))
}

/// The storage item that an entry describes, if it does: an object with a
/// name and a value, or a pair of texts.
pub open spec fn item_of(j: JsonView) -> Option<(Seq<char>, Seq<char>)> {
    let (name, value) = match j.as_array() {
        Some(pair) => (
            if pair.len() > 0 {
                pair[0].as_text()
            } else {
                None
            },
            if pair.len() > 1 {
                pair[1].as_text()
            } else {
                None
            },
        ),
        None => (j.get_text("name"@), j.get_text("value"@)),
    };
    match (name, value) {
        (Some(n), Some(v)) => Some((n, v)),
        _ => None,
    }
}

/// The storage items that the entries describe.
pub open spec fn items_of(v: Seq<JsonView>) -> Items {
    v.filter_map(|j: JsonView| item_of(j))
}

/// `jar` after one area of an entry was imported, and how many items that
/// were. The area is replaced where the entry has it and kept where it has
/// not.
pub open spec fn import_area(
    jar: JarView,
    origin: Seq<char>,
    area: StorageArea,
    listed: Option<Seq<JsonView>>,
) -> (JarView, nat) {
    match listed {
        Some(v) => (jar_with(jar, origin, area, items_of(v)), items_of(v).len()),
        None => (jar, 0),
    }
}

/// The storage key that an entry's origin stands for.
pub open spec fn entry_origin(entry: JsonView) -> Option<Seq<char>> {
    match entry.get_text("origin"@) {
        Some(raw) => url_origin(raw),
        None => None,
    }
}

/// `jar` after an origin entry was imported, and how many items that were.
pub open spec fn import_entry(jar: JarView, entry: JsonView) -> (JarView, nat) {
    match entry_origin(entry) {
        Some(origin) => {
            let (first, n) = import_area(
                jar,
                origin,
                StorageArea::Local,
                entry.get_array("localStorage"@),
            );
            let (second, m) = import_area(
                first,
                origin,
                StorageArea::Session,
                entry.get_array("sessionStorage"@),
            );
            (second, n + m)
        },
        None => (jar, 0),
    }
}

/// `jar` after the origin entries were imported in turn, and how many items
/// that were.
pub open spec fn import_origins(jar: JarView, entries: Seq<JsonView>) -> (JarView, nat)
    decreases entries.len(),
{
    if entries.len() == 0 {
        (jar, 0)
    } else {
        let (before, n) = import_origins(jar, entries.drop_last());
        let (after, m) = import_entry(before, entries.last());
        (after, n + m)
    }
}

/// The entries of a session under `key`; none where it has no such list.
pub open spec fn listed(state: JsonView, key: Seq<char>) -> Seq<JsonView> {
    match state.get_array(key) {
        Some(v) => v,
        None => Seq::empty(),
    }
}

/// `c` after a session was imported: its cookies are put into the jar, its
/// areas take the place of those of the same origins, nothing else changes.
pub open spec fn imported(c: ContextView, state: JsonView) -> ContextView {
    ContextView {
        cookies: cookies_put(c.cookies, cookies_of(listed(state, "cookies"@))),
        storage: import_origins(c.storage, listed(state, "origins"@)).0,
        ..c
    }
}

/// A count as a `usize` can show it.
pub open spec fn shown(n: nat) -> nat {
    if n <= usize::MAX {
        n
    } else {
        usize::MAX as nat
    }
}

/// Playwright writes sameSite as `Strict`, `Lax` or `None`.
pub fn normalize_same_site(raw: &str) -> (r: &'static str)
    ensures
        r@ == same_site_name(raw@),
{
    if ascii_lower_eq(raw, "strict") {
        "Strict"
    } else if ascii_lower_eq(raw, "none") {
        "None"
    } else {
        "Lax"
    }
}

fn export_cookie(c: &CookieInfo) -> (r: Json)
    ensures
        r@ == cookie_json(c@),
{
    let expires: i64 = match c.expires {
        Some(e) => e,
        None => -1,
    };
    let mut m: Vec<(String, Json)> = Vec::new();
    m.push(("name".to_owned(), Json::text(c.name.as_str())));
    m.push(("value".to_owned(), Json::text(c.value.as_str())));
    m.push(("domain".to_owned(), Json::text(c.domain.as_str())));
    m.push(("path".to_owned(), Json::text(c.path.as_str())));
    m.push(("expires".to_owned(), Json::integer(expires)));
    m.push(("httpOnly".to_owned(), Json::Bool(c.http_only)));
    m.push(("secure".to_owned(), Json::Bool(c.secure)));
    m.push(("sameSite".to_owned(), Json::text(normalize_same_site(c.same_site.as_str()))));
    assert(members_view(m@) =~= cookie_json(c@)->Object_0);
    Json::object(m)
}

fn export_items(items: &Vec<(String, String)>) -> (r: Json)
    ensures
        r@ == items_json(items_view(items@)),
{
    let ghost all = items_view(items@).map_values(|i: (Seq<char>, Seq<char>)| item_json(i));
    let mut out: Vec<Json> = Vec::new();
    let mut i: usize = 0;
    while i < items.len()
        invariant
            i <= items@.len(),
            all == items_view(items@).map_values(|i: (Seq<char>, Seq<char>)| item_json(i)),
            array_view(out@) =~= all.take(i as int),
        decreases items@.len() - i,
    {
        let ghost before = out@;
        let mut m: Vec<(String, Json)> = Vec::new();
        m.push(("name".to_owned(), Json::text(items[i].0.as_str())));
        m.push(("value".to_owned(), Json::text(items[i].1.as_str())));
        assert(members_view(m@) =~= item_json(items_view(items@)[i as int])->Object_0);
        let entry: Json = Json::object(m);
        assert(entry@ == all[i as int]);
        out.push(entry);
        assert(array_view(out@) =~= array_view(before).push(all[i as int]));
        i = i + 1;
    }
    assert(all.take(i as int) =~= all);
    Json::array(out)
}

fn export_origin(
    origin: &str,
    local: &Vec<(String, String)>,
    session: &Vec<(String, String)>,
) -> (r: Json)
    ensures
        r@ == origin_json(
            origin@,
            AreasView { local: items_view(local@), session: items_view(session@) },
        ),
{
    let mut m: Vec<(String, Json)> = Vec::new();
    m.push(("origin".to_owned(), Json::text(origin)));
    m.push(("localStorage".to_owned(), export_items(local)));
    if session.len() > 0 {
        m.push(("sessionStorage".to_owned(), export_items(session)));
    }
    assert(members_view(m@) =~= origin_json(
        origin@,
        AreasView { local: items_view(local@), session: items_view(session@) },
    )->Object_0);
    Json::object(m)
}

/// Accepts `{name, value}` objects and `[key, value]` pairs; entries of any
/// other shape are passed over.
pub fn parse_storage_items(arr: &Vec<Json>) -> (r: Vec<(String, String)>)
    ensures
        items_view(r@) == items_of(array_view(arr@)),
{
    let ghost f = |j: JsonView| item_of(j);
    let ghost all = array_view(arr@);
    let mut out: Vec<(String, String)> = Vec::new();
    let mut i: usize = 0;
    assert(items_view(out@) =~= all.take(0).filter_map(f));
    while i < arr.len()
        invariant
            i <= arr@.len(),
            all == array_view(arr@),
            f == |j: JsonView| item_of(j),
            items_view(out@) == all.take(i as int).filter_map(f),
        decreases arr@.len() - i,
    {
        let ghost before = out@;
        let item: &Json = &arr[i];
        assert(all[i as int] == item@);
        assert(all.take(i + 1).drop_last() =~= all.take(i as int));
        match parse_item(item) {
            Some(pair) => {
                out.push(pair);
                assert(items_view(out@) =~= items_view(before) + seq![(pair.0@, pair.1@)]);
            },
            None => {},
        }
        i = i + 1;
    }
    assert(all.take(i as int) =~= all);
    out
}

fn parse_item(item: &Json) -> (r: Option<(String, String)>)
    ensures
        match r {
            Some(p) => item_of(item@) == Some((p.0@, p.1@)),
            None => item_of(item@) is None,
        },
{
    let (name, value): (Option<&str>, Option<&str>) = match item.as_array() {
        Some(pair) => (
            if pair.len() > 0 {
                pair[0].as_str()
            } else {
                None
            },
            if pair.len() > 1 {
                pair[1].as_str()
            } else {
                None
            },
        ),
        None => (item.get_str("name"), item.get_str("value")),
    };
    match (name, value) {
        (Some(n), Some(v)) => Some((n.to_owned(), v.to_owned())),
        _ => None,
    }
}

fn parse_cookie(c: &Json) -> (r: Option<CookieInfo>)
    ensures
        match r {
            Some(k) => cookie_of(c@) == Some(k@),
            None => cookie_of(c@) is None,
        },
{
    let name: Option<&str> = c.get_str("name");
    let value: Option<&str> = c.get_str("value");
    let domain: Option<&str> = c.get_str("domain");
    match (name, value, domain) {
        (Some(name), Some(value), Some(domain)) => {
            let path: &str = match c.get_str("path") {
                Some(p) => p,
                None => "/",
            };
            let secure: bool = match c.get_bool("secure") {
                Some(b) => b,
                None => false,
            };
            let http_only: bool = match c.get_either("httpOnly", "http_only") {
                Some(v) => match v.as_bool() {
                    Some(b) => b,
                    None => false,
                },
                None => false,
            };
            let same_site: &str = match c.get_either("sameSite", "same_site") {
                Some(v) => match v.as_str() {
                    Some(s) => s,
                    None => "",
                },
                None => "",
            };
            let expires: Option<i64> = match c.get("expires") {
                Some(v) => match v.seconds() {
                    Some(e) => if e > 0 {
                        Some(e)
                    } else {
                        None
                    },
                    None => None,
                },
                None => None,
            };
            Some(
                CookieInfo {
                    name: name.to_owned(),
                    value: value.to_owned(),
                    domain: domain.to_owned(),
                    path: path.to_owned(),
                    secure,
                    http_only,
                    same_site: same_site.to_owned(),
                    expires,
                },
            )
        },
        _ => None,
    }
}

fn parse_cookies(arr: &Vec<Json>) -> (r: Vec<CookieInfo>)
    ensures
        cookies_view(r@) == cookies_of(array_view(arr@)),
{
    let ghost f = |j: JsonView| cookie_of(j);
    let ghost all = array_view(arr@);
    let mut out: Vec<CookieInfo> = Vec::new();
    let mut i: usize = 0;
    assert(cookies_view(out@) =~= all.take(0).filter_map(f));
    while i < arr.len()
        invariant
            i <= arr@.len(),
            all == array_view(arr@),
            f == |j: JsonView| cookie_of(j),
            cookies_view(out@) == all.take(i as int).filter_map(f),
        decreases arr@.len() - i,
    {
        let ghost before = out@;
        let item: &Json = &arr[i];
        assert(all[i as int] == item@);
        assert(all.take(i + 1).drop_last() =~= all.take(i as int));
        match parse_cookie(item) {
            Some(c) => {
                out.push(c);
                assert(cookies_view(out@) =~= cookies_view(before) + seq![c@]);
            },
            None => {},
        }
        i = i + 1;
    }
    assert(all.take(i as int) =~= all);
    out
}

fn import_one_area(
    storage: &mut StorageJar,
    origin: &str,
    area: StorageArea,
    found: Option<&Vec<Json>>,
) -> (n: usize)
    ensures
        (final(storage)@, n as nat) == import_area(
            old(storage)@,
            origin@,
            area,
            match found {
                Some(v) => Some(array_view(v@)),
                None => None,
            },
        ),
{
    match found {
        Some(arr) => {
            let items: Vec<(String, String)> = parse_storage_items(arr);
            let n: usize = items.len();
            storage.replace(origin, area, items);
            n
        },
        None => 0,
    }
}

impl BrowserContext {
    /// Exports the session: every cookie, and every origin that holds an item.
    pub fn storage_state(&self) -> (r: Json)
        ensures
            r@ == state_json(self@.cookies, self@.storage),
            self@.storage.dom().finite(),
    {
        let cookies: Vec<CookieInfo> = self.cookie_jar.get_all_cookies();
        let ghost wanted = cookies_json(self@.cookies);
        let mut cookie_list: Vec<Json> = Vec::new();
        let mut i: usize = 0;
        while i < cookies.len()
            invariant
                i <= cookies@.len(),
                wanted == cookies_json(cookies_view(cookies@)),
                array_view(cookie_list@) =~= wanted.take(i as int),
            decreases cookies@.len() - i,
        {
            let ghost before = cookie_list@;
            cookie_list.push(export_cookie(&cookies[i]));
            assert(array_view(cookie_list@) =~= array_view(before).push(wanted[i as int]));
            i = i + 1;
        }
        assert(wanted.take(i as int) =~= wanted);

        let origins: Vec<String> = self.storage.origins();
        let ghost jar = self@.storage;
        let ghost entries = origins_json(jar);
        let mut origin_list: Vec<Json> = Vec::new();
        let mut k: usize = 0;
        proof {
            lemma_jar_origins(jar);
            assert forall|j: int| 0 <= j < origins@.len() implies jar.contains_key(
                (#[trigger] origins@[j])@,
            ) by {
                assert(texts_view(origins@)[j] == origins@[j]@);
            }
        }
        while k < origins.len()
            invariant
                k <= origins@.len(),
                jar == self.storage@,
                texts_view(origins@) == jar_origins(jar),
                entries == origins_json(jar),
                array_view(origin_list@) =~= entries.take(k as int),
                forall|j: int|
                    0 <= j < origins@.len() ==> jar.contains_key((#[trigger] origins@[j])@),
            decreases origins@.len() - k,
        {
            let ghost before = origin_list@;
            let origin: &str = origins[k].as_str();
            let local: Vec<(String, String)> = self.storage.items(origin, StorageArea::Local);
            let session: Vec<(String, String)> = self.storage.items(origin, StorageArea::Session);
            assert(texts_view(origins@)[k as int] == origin@);
            assert(AreasView { local: items_view(local@), session: items_view(session@) }
                == jar[origin@]);
            origin_list.push(export_origin(origin, &local, &session));
            assert(array_view(origin_list@) =~= array_view(before).push(entries[k as int]));
            k = k + 1;
        }
        assert(entries.take(k as int) =~= entries);

        let mut m: Vec<(String, Json)> = Vec::new();
        m.push(("cookies".to_owned(), Json::array(cookie_list)));
        m.push(("origins".to_owned(), Json::array(origin_list)));
        assert(members_view(m@) =~= state_json(self@.cookies, self@.storage)->Object_0);
        Json::object(m)
    }

    /// Imports a session; gives how many cookies and how many storage items
    /// were applied. Origins are normalized as page URLs are, so an entry for
    /// `https://x.com/` lands on the key that a page at `https://x.com/path`
    /// reads.
    pub fn set_storage_state(&mut self, state: &Json) -> (r: (usize, usize))
        ensures
            final(self)@ == imported(old(self)@, state@),
            r.0 == cookies_of(listed(state@, "cookies"@)).len(),
            r.1 == shown(import_origins(old(self)@.storage, listed(state@, "origins"@)).1),
    {
        let mut cookies_applied: usize = 0;
        let mut items_applied: usize = 0;
        match state.get_array("cookies") {
            Some(arr) => {
                let parsed: Vec<CookieInfo> = parse_cookies(arr);
                cookies_applied = parsed.len();
                assert(cookies_view(parsed@).len() == cookies_applied);
                self.cookie_jar.set_cookies_from_cdp(parsed);
            },
            None => {},
        }
        match state.get_array("origins") {
            Some(arr) => {
                let ghost first = self.storage@;
                let ghost all = array_view(arr@);
                let ghost others = *self;
                let mut i: usize = 0;
                while i < arr.len()
                    invariant
                        i <= arr@.len(),
                        all == array_view(arr@),
                        self@ == (ContextView {
                            storage: import_origins(first, all.take(i as int)).0,
                            ..others@
                        }),
                        items_applied == shown(import_origins(first, all.take(i as int)).1),
                    decreases arr@.len() - i,
                {
                    let entry: &Json = &arr[i];
                    assert(all[i as int] == entry@);
                    assert(all.take(i + 1).drop_last() =~= all.take(i as int));
                    let key: Option<String> = match entry.get_str("origin") {
                        Some(raw) => origin_of(raw),
                        None => None,
                    };
                    assert(opt_text(key) == entry_origin(entry@));
                    match key {
                        Some(origin) => {
                            let n: usize = import_one_area(
                                &mut self.storage,
                                origin.as_str(),
                                StorageArea::Local,
                                entry.get_array("localStorage"),
                            );
                            let m: usize = import_one_area(
                                &mut self.storage,
                                origin.as_str(),
                                StorageArea::Session,
                                entry.get_array("sessionStorage"),
                            );
                            items_applied = items_applied.saturating_add(n).saturating_add(m);
                        },
                        None => {},
                    }
                    i = i + 1;
                }
                assert(all.take(i as int) =~= all);
            },
            None => {},
        }
        (cookies_applied, items_applied)
    }
}

} // verus!
