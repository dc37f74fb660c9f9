//! Laws of cookies, contexts and portable sessions.
use crate::context::{copied_context, lemma_put_into_empty, new_context, ContextView, ProfileView};
use crate::cookies::{
    cookie_index, cookie_put, cookies_without, cookies_without_domain, lemma_cookie_index,
    same_cookie, unique_cookies, CookieView,
};
use crate::items::Items;
use crate::json::{lemma_member_at, JsonView};
use crate::laws::storage::law_saved_storage_comes_back;
use crate::origin::url_origin;
use crate::state::{
    cookie_json, cookie_of, cookies_json, cookies_of, entry_origin, import_entry, import_origins,
    imported, item_json, item_of, items_json, items_of, listed, origin_json, origins_json,
    same_site_name, state_json,
};
use crate::storage::{
    jar_areas, jar_items, jar_origins, jar_persisted, jar_with, lemma_jar_origins, AreasView,
    JarView, StorageArea,
};
use crate::text::{ascii_lower, lemma_text_order, text_before};
use std::path::PathBuf;
use vstd::prelude::*;

verus! {

/// The attribute of an exported cookie is one of three, and exporting it again
/// does not change it.
pub proof fn law_same_site_is_settled(raw: Seq<char>)
    ensures
        same_site_name(raw) == "Strict"@ || same_site_name(raw) == "Lax"@ || same_site_name(raw)
            == "None"@,
        same_site_name(same_site_name(raw)) == same_site_name(raw),
{
    reveal_strlit("Strict");
    reveal_strlit("None");
    reveal_strlit("Lax");
    reveal_strlit("strict");
    reveal_strlit("none");
    assert(ascii_lower("Strict"@) =~= "strict"@);
    assert(ascii_lower("None"@) =~= "none"@);
    assert("none"@.len() == 4 && "strict"@.len() == 6);
    assert(ascii_lower("Lax"@).len() == 3);
}

/// A cookie after export and import: its attribute is settled, and an expiry
/// that is not after the epoch is none.
pub open spec fn carried(c: CookieView) -> CookieView {
    CookieView {
        same_site: same_site_name(c.same_site),
        expires: match c.expires {
            Some(e) => if e > 0 {
                Some(e)
            } else {
                None
            },
            None => None,
        },
        ..c
    }
}

/// An exported cookie is read back as the cookie it was.
pub proof fn law_cookie_round_trip(c: CookieView)
    ensures
        cookie_of(cookie_json(c)) == Some(carried(c)),
{
    reveal_strlit("name");
    reveal_strlit("value");
    reveal_strlit("domain");
    reveal_strlit("path");
    reveal_strlit("expires");
    reveal_strlit("httpOnly");
    reveal_strlit("secure");
    reveal_strlit("sameSite");
    assert("name"@.len() == 4 && "value"@.len() == 5 && "domain"@.len() == 6 && "path"@.len() == 4
        && "expires"@.len() == 7 && "httpOnly"@.len() == 8 && "secure"@.len() == 6
        && "sameSite"@.len() == 8);
    assert("name"@[0] == 'n' && "path"@[0] == 'p');
    assert("domain"@[0] == 'd' && "secure"@[0] == 's');
    assert("httpOnly"@[0] == 'h' && "sameSite"@[0] == 's');
    let m = cookie_json(c)->Object_0;
    lemma_member_at(m, "name"@, 0);
    lemma_member_at(m, "value"@, 1);
    lemma_member_at(m, "domain"@, 2);
    lemma_member_at(m, "path"@, 3);
    lemma_member_at(m, "expires"@, 4);
    lemma_member_at(m, "httpOnly"@, 5);
    lemma_member_at(m, "secure"@, 6);
    lemma_member_at(m, "sameSite"@, 7);
}

/// Both shapes of a storage item, the object and the pair, are read alike.
pub proof fn law_both_item_shapes_read_alike(name: Seq<char>, value: Seq<char>)
    ensures
        item_of(item_json((name, value))) == Some((name, value)),
        item_of(JsonView::Array(seq![JsonView::Text(name), JsonView::Text(value)])) == Some(
            (name, value),
        ),
{
    reveal_strlit("name");
    reveal_strlit("value");
    assert("name"@.len() == 4 && "value"@.len() == 5);
    let m = item_json((name, value))->Object_0;
    lemma_member_at(m, "name"@, 0);
    lemma_member_at(m, "value"@, 1);
}

/// An exported area is read back item for item.
pub proof fn law_items_round_trip(items: Items)
    ensures
        items_json(items).as_array() is Some,
        items_of(items_json(items)->Array_0) == items,
    decreases items.len(),
{
    let f = |j: JsonView| item_of(j);
    let v = items_json(items)->Array_0;
    if items.len() == 0 {
        assert(v =~= Seq::empty());
        assert(items_of(v) =~= items);
    } else {
        let front = items.drop_last();
        law_items_round_trip(front);
        assert(v.drop_last() =~= items_json(front)->Array_0);
        law_both_item_shapes_read_alike(items.last().0, items.last().1);
        assert(v.last() == item_json(items.last()));
        assert(items_of(v) =~= front + seq![items.last()]);
        assert(front + seq![items.last()] =~= items);
    }
}

proof fn lemma_cookies_round_trip(cs: Seq<CookieView>)
    ensures
        cookies_of(cookies_json(cs)) == cs.map_values(|c: CookieView| carried(c)),
    decreases cs.len(),
{
    let v = cookies_json(cs);
    let all = cs.map_values(|c: CookieView| carried(c));
    if cs.len() == 0 {
        assert(cookies_of(v) =~= all);
    } else {
        let front = cs.drop_last();
        lemma_cookies_round_trip(front);
        assert(v.drop_last() =~= cookies_json(front));
        law_cookie_round_trip(cs.last());
        assert(v.last() == cookie_json(cs.last()));
        assert(cookies_of(v) =~= cookies_of(v.drop_last()) + seq![carried(cs.last())]);
        assert(cookies_of(v) =~= all);
    }
}

proof fn lemma_entry_read(origin: Seq<char>, areas: AreasView)
    ensures
        ({
            let e = origin_json(origin, areas);
            &&& e.get_text("origin"@) == Some(origin)
            &&& e.get_array("localStorage"@) == Some(items_json(areas.local)->Array_0)
            &&& e.get_array("sessionStorage"@) == (if areas.session.len() > 0 {
                Some(items_json(areas.session)->Array_0)
            } else {
                None
            })
        }),
{
    reveal_strlit("origin");
    reveal_strlit("localStorage");
    reveal_strlit("sessionStorage");
    assert("origin"@.len() == 6 && "localStorage"@.len() == 12 && "sessionStorage"@.len() == 14);
    let m = origin_json(origin, areas)->Object_0;
    lemma_member_at(m, "origin"@, 0);
    lemma_member_at(m, "localStorage"@, 1);
    if areas.session.len() > 0 {
        lemma_member_at(m, "sessionStorage"@, 2);
    } else {
        lemma_member_at(m, "sessionStorage"@, m.len() as int);
    }
}

proof fn lemma_entry_imported(jar: JarView, origin: Seq<char>, areas: AreasView)
    requires
        url_origin(origin) == Some(origin),
        !jar.contains_key(origin),
    ensures
        import_entry(jar, origin_json(origin, areas)).0 == jar.insert(origin, areas),
        import_entry(jar, origin_json(origin, areas)).1 == areas.local.len() + areas.session.len(),
{
    lemma_entry_read(origin, areas);
    law_items_round_trip(areas.local);
    law_items_round_trip(areas.session);
    let first = jar_with(jar, origin, StorageArea::Local, areas.local);
    if areas.session.len() > 0 {
        assert(jar_with(first, origin, StorageArea::Session, areas.session) =~= jar.insert(
            origin,
            areas,
        ));
    } else {
        assert(areas.session =~= Seq::empty());
        assert(first =~= jar.insert(origin, areas));
    }
}

/// How many items these origins hold.
pub open spec fn items_held(jar: JarView, origins: Seq<Seq<char>>) -> nat
    decreases origins.len(),
{
    if origins.len() == 0 {
        0
    } else {
        let areas = jar[origins.last()];
        items_held(jar, origins.drop_last()) + areas.local.len() + areas.session.len()
    }
}

proof fn lemma_origins_imported(jar: JarView, keys: Seq<Seq<char>>)
    requires
        forall|i: int| 0 <= i < keys.len() ==> url_origin(#[trigger] keys[i]) == Some(keys[i]),
        forall|i: int, j: int|
            0 <= i < j < keys.len() ==> #[trigger] keys[i] != #[trigger] keys[j],
    ensures
        ({
            let entries = keys.map_values(|o: Seq<char>| origin_json(o, jar[o]));
            let (now, count) = import_origins(Map::empty(), entries);
            &&& forall|o: Seq<char>| #[trigger] now.contains_key(o) <==> keys.contains(o)
            &&& forall|o: Seq<char>| #[trigger] now.contains_key(o) ==> now[o] == jar[o]
            &&& count == items_held(jar, keys)
        }),
    decreases keys.len(),
{
    let f = |o: Seq<char>| origin_json(o, jar[o]);
    let entries = keys.map_values(f);
    if keys.len() > 0 {
        let front = keys.drop_last();
        let last = keys.last();
        assert forall|i: int| 0 <= i < front.len() implies url_origin(#[trigger] front[i]) == Some(
            front[i],
        ) by {
            assert(url_origin(keys[i]) == Some(keys[i]));
        }
        assert forall|i: int, j: int| 0 <= i < j < front.len() implies #[trigger] front[i]
            != #[trigger] front[j] by {
            assert(keys[i] != keys[j]);
        }
        lemma_origins_imported(jar, front);
        assert(entries.drop_last() =~= front.map_values(f));
        let before = import_origins(Map::empty(), front.map_values(f)).0;
        if front.contains(last) {
            assert(keys[front.index_of(last)] != keys[keys.len() - 1]);
        }
        assert(url_origin(keys[keys.len() - 1]) == Some(last));
        assert(entries.last() == origin_json(last, jar[last]));
        lemma_entry_imported(before, last, jar[last]);
        let now = import_origins(Map::empty(), entries).0;
        assert(now == before.insert(last, jar[last]));
        assert forall|o: Seq<char>| #[trigger] now.contains_key(o) <==> keys.contains(o) by {
            if keys.contains(o) && o != last {
                let i = keys.index_of(o);
                assert(front[i] == o);
            }
            if front.contains(o) {
                assert(keys[front.index_of(o)] == o);
            }
            assert(keys[keys.len() - 1] == last);
            assert(before.contains_key(o) <==> front.contains(o));
        }
        assert forall|o: Seq<char>| #[trigger] now.contains_key(o) implies now[o] == jar[o] by {
            if o != last {
                assert(before.contains_key(o));
            }
        }
    }
}

/// A session as a context holds it: no cookie twice, and the keys under which
/// items are stored are origins as [`url_origin`] writes them. These are the
/// keys that page URLs come to; any other key would be normalized on import.
pub open spec fn portable(c: ContextView) -> bool {
    &&& unique_cookies(c.cookies)
    &&& c.storage.dom().finite()
    &&& forall|o: Seq<char>|
        #[trigger] c.storage.contains_key(o) && !c.storage[o].is_empty() ==> url_origin(o) == Some(
            o,
        )
}

/// A session that is exported and imported into a context without cookies and
/// storage arrives whole: every cookie, and every item of both areas of every
/// origin, in order, and the counts say so.
pub proof fn law_session_round_trip(source: ContextView, target: ContextView)
    requires
        portable(source),
        target.cookies.len() == 0,
        target.storage == Map::<Seq<char>, AreasView>::empty(),
    ensures
        ({
            let state = state_json(source.cookies, source.storage);
            let after = imported(target, state);
            &&& after.cookies == source.cookies.map_values(|c: CookieView| carried(c))
            &&& forall|o: Seq<char>, a: StorageArea|
                #[trigger] jar_items(after.storage, o, a) == jar_items(source.storage, o, a)
            &&& cookies_of(listed(state, "cookies"@)).len() == source.cookies.len()
            &&& import_origins(target.storage, listed(state, "origins"@)).1 == items_held(
                source.storage,
                jar_origins(source.storage),
            )
        }),
{
    let jar = source.storage;
    let state = state_json(source.cookies, jar);
    let after = imported(target, state);
    lemma_state_read(source.cookies, jar);
    lemma_cookies_round_trip(source.cookies);
    let cs = source.cookies.map_values(|c: CookieView| carried(c));
    assert(unique_cookies(cs)) by {
        assert forall|i: int, j: int| 0 <= i < j < cs.len() implies !same_cookie(
            #[trigger] cs[i],
            #[trigger] cs[j],
        ) by {
            assert(!same_cookie(source.cookies[i], source.cookies[j]));
        }
    }
    assert(target.cookies =~= Seq::empty());
    lemma_put_into_empty(cs);
    lemma_jar_origins(jar);
    let keys = jar_origins(jar);
    assert forall|i: int| 0 <= i < keys.len() implies url_origin(#[trigger] keys[i]) == Some(
        keys[i],
    ) by {
        assert(jar.contains_key(keys[i]));
    }
    assert forall|i: int, j: int| 0 <= i < j < keys.len() implies #[trigger] keys[i]
        != #[trigger] keys[j] by {
        assert(text_before(keys[i], keys[j]));
        lemma_text_order(keys[i], keys[j], keys[i]);
    }
    lemma_origins_imported(jar, keys);
    let now = after.storage;
    assert forall|o: Seq<char>, a: StorageArea|
        #[trigger] jar_items(now, o, a) == jar_items(jar, o, a) by {
        assert(now.contains_key(o) <==> keys.contains(o));
        if !now.contains_key(o) {
            assert(jar_items(jar, o, a) =~= Seq::empty());
        }
    }
}

proof fn lemma_state_read(cookies: Seq<CookieView>, jar: JarView)
    ensures
        listed(state_json(cookies, jar), "cookies"@) == cookies_json(cookies),
        listed(state_json(cookies, jar), "origins"@) == origins_json(jar),
{
    reveal_strlit("cookies");
    reveal_strlit("origins");
    assert("cookies"@[0] == 'c' && "origins"@[0] == 'o');
    let m = state_json(cookies, jar)->Object_0;
    lemma_member_at(m, "cookies"@, 0);
    lemma_member_at(m, "origins"@, 1);
}

/// Exporting what was imported gives the session that was exported, for
/// sessions whose cookies either end with them or expire after the epoch.
pub proof fn law_export_is_stable(source: ContextView, target: ContextView)
    requires
        portable(source),
        target.cookies.len() == 0,
        target.storage == Map::<Seq<char>, AreasView>::empty(),
        forall|i: int|
            0 <= i < source.cookies.len() ==> ((#[trigger] source.cookies[i]).expires matches Some(
                e,
            ) ==> e > 0),
    ensures
        ({
            let state = state_json(source.cookies, source.storage);
            let after = imported(target, state);
            state_json(after.cookies, after.storage) == state
        }),
{
    let jar = source.storage;
    let state = state_json(source.cookies, jar);
    let after = imported(target, state);
    law_session_round_trip(source, target);
    assert forall|i: int| 0 <= i < source.cookies.len() implies #[trigger] cookies_json(
        after.cookies,
    )[i] == cookies_json(source.cookies)[i] by {
        let c = source.cookies[i];
        law_same_site_is_settled(c.same_site);
        assert(after.cookies[i] == carried(c));
    }
    assert(cookies_json(after.cookies) =~= cookies_json(source.cookies));
    let now = after.storage;
    let a = jar.dom().filter(|o: Seq<char>| !jar[o].is_empty());
    let b = now.dom().filter(|o: Seq<char>| !now[o].is_empty());
    assert forall|o: Seq<char>| jar_areas(jar, o) == #[trigger] jar_areas(now, o) by {
        assert(jar_items(now, o, StorageArea::Local) == jar_items(jar, o, StorageArea::Local));
        assert(jar_items(now, o, StorageArea::Session) == jar_items(jar, o, StorageArea::Session));
    }
    assert forall|o: Seq<char>| a.contains(o) <==> #[trigger] b.contains(o) by {
        assert(jar_areas(jar, o) == jar_areas(now, o));
    }
    assert(a =~= b);
    lemma_jar_origins(jar);
    let keys = jar_origins(jar);
    assert forall|i: int| 0 <= i < keys.len() implies #[trigger] origins_json(now)[i]
        == origins_json(jar)[i] by {
        assert(keys.contains(keys[i]));
        assert(b.contains(keys[i]));
        assert(jar_areas(jar, keys[i]) == jar_areas(now, keys[i]));
    }
    assert(origins_json(now) =~= origins_json(jar));
}

/// An import leaves every origin alone that its session has no entry for, and
/// all settings of the context.
pub proof fn law_import_leaves_the_rest(c: ContextView, state: JsonView, origin: Seq<char>)
    requires
        forall|i: int|
            0 <= i < listed(state, "origins"@).len() ==> entry_origin(
                #[trigger] listed(state, "origins"@)[i],
            ) != Some(origin),
    ensures
        jar_areas(imported(c, state).storage, origin) == jar_areas(c.storage, origin),
        imported(c, state) == (ContextView {
            cookies: imported(c, state).cookies,
            storage: imported(c, state).storage,
            ..c
        }),
{
    lemma_import_isolated(c.storage, listed(state, "origins"@), origin);
}

proof fn lemma_import_isolated(jar: JarView, entries: Seq<JsonView>, origin: Seq<char>)
    requires
        forall|i: int|
            0 <= i < entries.len() ==> entry_origin(#[trigger] entries[i]) != Some(origin),
    ensures
        jar_areas(import_origins(jar, entries).0, origin) == jar_areas(jar, origin),
    decreases entries.len(),
{
    if entries.len() > 0 {
        let front = entries.drop_last();
        assert forall|i: int| 0 <= i < front.len() implies entry_origin(#[trigger] front[i])
            != Some(origin) by {
            assert(entry_origin(entries[i]) != Some(origin));
        }
        lemma_import_isolated(jar, front, origin);
        assert(entry_origin(entries[entries.len() - 1]) != Some(origin));
    }
}

proof fn lemma_put(jar: Seq<CookieView>, c: CookieView, other: CookieView)
    ensures
        cookie_put(jar, c).contains(c),
        !same_cookie(other, c) ==> (jar.contains(other) <==> cookie_put(jar, c).contains(other)),
{
    lemma_cookie_index(jar, c);
    let after = cookie_put(jar, c);
    match cookie_index(jar, c) {
        Some(i) => {
            assert(after[i] == c);
            if !same_cookie(other, c) {
                if jar.contains(other) {
                    let k = jar.index_of(other);
                    assert(after[k] == other);
                }
                if after.contains(other) {
                    let k = after.index_of(other);
                    assert(jar[k] == other);
                }
            }
        },
        None => {
            assert(after[jar.len() as int] == c);
            if jar.contains(other) {
                assert(after[jar.index_of(other)] == other);
            }
            if !same_cookie(other, c) && after.contains(other) {
                let k = after.index_of(other);
                assert(jar[k] == other);
            }
        },
    }
}

/// A cookie that is put into a jar is there, in place of the one with its name,
/// domain and path; every other cookie stays.
pub proof fn law_put_cookie(jar: Seq<CookieView>, c: CookieView, other: CookieView)
    requires
        unique_cookies(jar),
    ensures
        cookie_put(jar, c).contains(c),
        unique_cookies(cookie_put(jar, c)),
        !same_cookie(other, c) ==> (jar.contains(other) <==> cookie_put(jar, c).contains(other)),
{
    lemma_put(jar, c, other);
    lemma_cookie_index(jar, c);
}

/// A delete request removes what it addresses and nothing else, and clearing a
/// domain removes its cookies and no others.
pub proof fn law_deleted_cookies_are_gone(
    jar: Seq<CookieView>,
    name: Seq<char>,
    domain: Seq<char>,
    path: Option<Seq<char>>,
    c: CookieView,
)
    ensures
        cookies_without(jar, name, domain, path).contains(c) <==> jar.contains(c) && !(c.name
            == name && c.domain == domain && (path is Some ==> c.path == path->0)),
        cookies_without_domain(jar, domain).contains(c) <==> jar.contains(c) && c.domain != domain,
{
    lemma_kept(jar, |k: CookieView| !crate::cookies::addressed(k, name, domain, path), c);
    lemma_kept(jar, |k: CookieView| k.domain != domain, c);
}

proof fn lemma_kept(jar: Seq<CookieView>, keep: spec_fn(CookieView) -> bool, c: CookieView)
    ensures
        jar.filter(keep).contains(c) <==> jar.contains(c) && keep(c),
{
    broadcast use vstd::seq_lib::group_filter_ensures;

    if jar.filter(keep).contains(c) {
        let i = jar.filter(keep).index_of(c);
        assert(keep(jar.filter(keep)[i]));
        jar.lemma_filter_contains_rev(keep, c);
    }
    if jar.contains(c) && keep(c) {
        let i = jar.index_of(c);
        assert(jar.filter(keep).contains(jar[i]));
    }
}

/// A session survives a restart: a context that is opened on the directory of
/// another one, with what that one saved, has its cookies and its
/// `localStorage` and none of its `sessionStorage`.
pub proof fn law_session_survives_restart(
    c: ContextView,
    id: Seq<char>,
    dir: PathBuf,
    profile: ProfileView,
)
    requires
        unique_cookies(c.cookies),
        c.storage.dom().finite(),
        forall|o: Seq<char>|
            #[trigger] c.storage.contains_key(o) ==> crate::items::tidy(c.storage[o].local),
    ensures
        ({
            let reopened = new_context(
                id,
                None,
                false,
                None,
                Some(dir),
                false,
                profile,
                c.cookies,
                jar_persisted(c.storage),
            );
            &&& reopened.cookies == c.cookies
            &&& forall|o: Seq<char>|
                #[trigger] jar_items(reopened.storage, o, StorageArea::Local) == jar_items(
                    c.storage,
                    o,
                    StorageArea::Local,
                )
            &&& forall|o: Seq<char>|
                #[trigger] jar_items(reopened.storage, o, StorageArea::Session).len() == 0
        }),
{
    lemma_put_into_empty(c.cookies);
    law_saved_storage_comes_back(c.storage);
}

/// Without a directory nothing that was saved is taken up.
pub proof fn law_memory_context_starts_empty(
    id: Seq<char>,
    proxy_url: Option<Seq<char>>,
    stealth: bool,
    user_agent: Option<Seq<char>>,
    allow_private_network: bool,
    profile: ProfileView,
    cookies: Seq<CookieView>,
    storage: Seq<(Seq<char>, Items)>,
)
    ensures
        ({
            let c = new_context(
                id,
                proxy_url,
                stealth,
                user_agent,
                None,
                allow_private_network,
                profile,
                cookies,
                storage,
            );
            c.cookies.len() == 0 && c.storage == Map::<Seq<char>, AreasView>::empty()
        }),
{
}

/// Every request goes out under the user agent that page script sees, and a
/// context never reads local files unless it is told to later.
pub proof fn law_new_context_is_consistent(
    id: Seq<char>,
    proxy_url: Option<Seq<char>>,
    stealth: bool,
    user_agent: Option<Seq<char>>,
    storage_dir: Option<PathBuf>,
    allow_private_network: bool,
    profile: ProfileView,
    cookies: Seq<CookieView>,
    storage: Seq<(Seq<char>, Items)>,
)
    ensures
        ({
            let c = new_context(
                id,
                proxy_url,
                stealth,
                user_agent,
                storage_dir,
                allow_private_network,
                profile,
                cookies,
                storage,
            );
            &&& c.http.user_agent == c.user_agent
            &&& user_agent is Some ==> c.user_agent == user_agent->0
            &&& c.http.proxy_url == c.proxy_url
            &&& c.http.allow_private_network == c.allow_private_network
            &&& c.http.block_trackers == c.stealth
            &&& !c.allow_file_access
        }),
{
}

/// An incognito copy starts without cookies and storage and has nowhere to
/// write to; a persistent one exports the session of its source. Either has
/// the configuration of its source.
pub proof fn law_isolated_copy(c: ContextView, id: Seq<char>)
    ensures
        ({
            let incognito = copied_context(c, id, false);
            let persistent = copied_context(c, id, true);
            &&& incognito.cookies.len() == 0
            &&& incognito.storage == Map::<Seq<char>, AreasView>::empty()
            &&& incognito.storage_dir is None
            &&& state_json(persistent.cookies, persistent.storage) == state_json(
                c.cookies,
                c.storage,
            )
            &&& persistent.storage_dir == c.storage_dir
            &&& incognito.user_agent == c.user_agent && persistent.user_agent == c.user_agent
            &&& incognito.proxy_url == c.proxy_url && persistent.proxy_url == c.proxy_url
            &&& incognito.stealth == c.stealth && persistent.stealth == c.stealth
            &&& incognito.http == persistent.http && incognito.http.user_agent == c.user_agent
        }),
{
}

} // verus!
