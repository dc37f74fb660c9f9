//! Laws of what a session's JSON says and of what importing it does.
use crate::context::ContextView;
use crate::cookies::{cookie_put, cookies_put, same_cookie, CookieView};
use crate::items::Items;
use crate::json::{lemma_member_at, whole_part, JsonNumber, JsonView};
use crate::laws::cookies::lemma_put_one;
use crate::origin::url_origin;
use crate::state::{
    cookie_json, cookie_of, cookies_json, cookies_of, import_entry, import_origins, imported,
    item_json, item_of, items_json, items_of, listed, origin_json, origins_json, same_site_name,
    shown, state_json,
};
use crate::storage::{jar_items, jar_origins, JarView, StorageArea};
use crate::text::ascii_lower;
use vstd::prelude::*;

verus! {

/// The list that an entry of a session gives for an origin and area, if it is
/// an entry of that origin and gives one.
pub open spec fn listed_for(entry: JsonView, origin: Seq<char>, area: StorageArea) -> Option<
    Seq<JsonView>,
> {
    match entry.get_text("origin"@) {
        Some(raw) => if url_origin(raw) == Some(origin) {
            match area {
                StorageArea::Local => entry.get_array("localStorage"@),
                StorageArea::Session => entry.get_array("sessionStorage"@),
            }
        } else {
            None
        },
        None => None,
    }
}

proof fn lemma_entry_for(jar: JarView, entry: JsonView, origin: Seq<char>, area: StorageArea)
    ensures
        jar_items(import_entry(jar, entry).0, origin, area) == match listed_for(
            entry,
            origin,
            area,
        ) {
            Some(v) => items_of(v),
            None => jar_items(jar, origin, area),
        },
{
}

proof fn lemma_unlisted(
    jar: JarView,
    entries: Seq<JsonView>,
    from: int,
    origin: Seq<char>,
    area: StorageArea,
)
    requires
        0 <= from <= entries.len(),
        forall|j: int|
            from <= j < entries.len() ==> listed_for(#[trigger] entries[j], origin, area) is None,
    ensures
        jar_items(import_origins(jar, entries).0, origin, area) == jar_items(
            import_origins(jar, entries.take(from)).0,
            origin,
            area,
        ),
    decreases entries.len(),
{
    if from == entries.len() {
        assert(entries.take(from) =~= entries);
    } else {
        let front = entries.drop_last();
        assert forall|j: int| from <= j < front.len() implies listed_for(
            #[trigger] front[j],
            origin,
            area,
        ) is None by {
            assert(listed_for(entries[j], origin, area) is None);
        }
        lemma_unlisted(jar, front, from, origin, area);
        assert(front.take(from) =~= entries.take(from));
        assert(listed_for(entries[entries.len() - 1], origin, area) is None);
        lemma_entry_for(import_origins(jar, front).0, entries.last(), origin, area);
    }
}

/// An import replaces what it lists: the items of an origin and area are just
/// those that the last entry which lists them gives, in their order, whatever
/// the area held before.
pub proof fn law_import_replaces_the_area(
    c: ContextView,
    state: JsonView,
    entries: Seq<JsonView>,
    i: int,
    origin: Seq<char>,
    area: StorageArea,
    given: Seq<JsonView>,
)
    requires
        state.get_array("origins"@) == Some(entries),
        0 <= i < entries.len(),
        listed_for(entries[i], origin, area) == Some(given),
        forall|j: int|
            i < j < entries.len() ==> listed_for(#[trigger] entries[j], origin, area) is None,
    ensures
        jar_items(imported(c, state).storage, origin, area) == items_of(given),
{
    lemma_unlisted(c.storage, entries, i + 1, origin, area);
    let part = entries.take(i + 1);
    assert(part.last() == entries[i]);
    lemma_entry_for(import_origins(c.storage, part.drop_last()).0, part.last(), origin, area);
}

/// An area that no entry of a session lists stays as it is.
pub proof fn law_import_keeps_unlisted_areas(
    c: ContextView,
    state: JsonView,
    origin: Seq<char>,
    area: StorageArea,
)
    requires
        state.get_array("origins"@) matches Some(entries) ==> forall|j: int|
            0 <= j < entries.len() ==> listed_for(#[trigger] entries[j], origin, area) is None,
    ensures
        jar_items(imported(c, state).storage, origin, area) == jar_items(c.storage, origin, area),
{
    match state.get_array("origins"@) {
        Some(entries) => {
            lemma_unlisted(c.storage, entries, 0, origin, area);
            assert(entries.take(0) =~= Seq::empty());
        },
        None => {},
    }
}

/// Importing the same session once more changes no item.
pub proof fn law_import_again_changes_no_item(
    c: ContextView,
    state: JsonView,
    origin: Seq<char>,
    area: StorageArea,
)
    ensures
        jar_items(imported(imported(c, state), state).storage, origin, area) == jar_items(
            imported(c, state).storage,
            origin,
            area,
        ),
{
    let entries = listed(state, "origins"@);
    lemma_last_listing(c.storage, imported(c, state).storage, entries, origin, area);
}

proof fn lemma_last_listing(
    jar: JarView,
    other: JarView,
    entries: Seq<JsonView>,
    origin: Seq<char>,
    area: StorageArea,
)
    ensures
        jar_items(import_origins(jar, entries).0, origin, area) == jar_items(
            import_origins(other, entries).0,
            origin,
            area,
        ) || (jar_items(import_origins(jar, entries).0, origin, area) == jar_items(
            jar,
            origin,
            area,
        ) && jar_items(import_origins(other, entries).0, origin, area) == jar_items(
            other,
            origin,
            area,
        )),
    decreases entries.len(),
{
    if entries.len() > 0 {
        let front = entries.drop_last();
        lemma_last_listing(jar, other, front, origin, area);
        lemma_entry_for(import_origins(jar, front).0, entries.last(), origin, area);
        lemma_entry_for(import_origins(other, front).0, entries.last(), origin, area);
    }
}

/// Storage items are read one after the other: a pair of texts and an object
/// with the texts `name` and `value` are items, everything else is passed over.
pub proof fn law_items_are_read_in_order(v: Seq<JsonView>, j: JsonView)
    ensures
        items_of(Seq::empty()) == Seq::<(Seq<char>, Seq<char>)>::empty(),
        j matches JsonView::Array(pair) ==> items_of(v.push(j)) == if pair.len() >= 2 && pair[0]
            is Text && pair[1] is Text {
            items_of(v).push((pair[0]->Text_0, pair[1]->Text_0))
        } else {
            items_of(v)
        },
        j !is Array ==> items_of(v.push(j)) == match (j.get("name"@), j.get("value"@)) {
            (Some(JsonView::Text(name)), Some(JsonView::Text(value))) => items_of(v).push(
                (name, value),
            ),
            _ => items_of(v),
        },
{
    assert(v.push(j).drop_last() =~= v);
    match item_of(j) {
        Some(item) => {
            assert(items_of(v) + seq![item] =~= items_of(v).push(item));
        },
        None => {},
    }
}

/// A cookie is read from every object that has the texts `name`, `value` and
/// `domain`, and from nothing else. Its path is `/` unless it is given; flags
/// are off unless they are true; the snake case keys of older sessions count
/// where the others are missing.
pub proof fn law_cookie_is_read_field_by_field(j: JsonView)
    ensures
        cookie_of(j) is Some <==> j.get_text("name"@) is Some && j.get_text("value"@) is Some
            && j.get_text("domain"@) is Some,
        cookie_of(j) matches Some(c) ==> {
            &&& j.get_text("name"@) == Some(c.name)
            &&& j.get_text("value"@) == Some(c.value)
            &&& j.get_text("domain"@) == Some(c.domain)
            &&& j.get_text("path"@) is Some ==> j.get_text("path"@) == Some(c.path)
            &&& j.get_text("path"@) is None ==> c.path == "/"@
            &&& c.secure <==> j.get("secure"@) == Some(JsonView::Bool(true))
            &&& c.http_only <==> (j.get("httpOnly"@) == Some(JsonView::Bool(true)) || j.get(
                "httpOnly"@,
            ) is None && j.get("http_only"@) == Some(JsonView::Bool(true)))
            &&& c.same_site == (match (j.get("sameSite"@), j.get("same_site"@)) {
                (Some(JsonView::Text(s)), _) => s,
                (None, Some(JsonView::Text(s))) => s,
                _ => ""@,
            })
        },
{
}

/// A cookie expires at the whole second that is given, be it an integer or a
/// double, if that is after the epoch; otherwise it ends with the session.
pub proof fn law_cookie_expiry_is_read(j: JsonView)
    requires
        cookie_of(j) is Some,
    ensures
        cookie_of(j)->0.expires == (match j.get("expires"@) {
            Some(JsonView::Number(JsonNumber::PosInt(n))) => if 1 <= n <= i64::MAX {
                Some(n as i64)
            } else {
                None
            },
            Some(JsonView::Number(JsonNumber::Double(bits))) => match whole_part(bits) {
                Some(n) => if n >= 1 {
                    Some(n)
                } else {
                    None
                },
                None => None,
            },
            Some(JsonView::Number(JsonNumber::NegInt(n))) => if n >= 1 {
                Some(n)
            } else {
                None
            },
            _ => None,
        }),
{
}

/// Cookies are read one after the other; what describes none is passed over.
pub proof fn law_cookies_are_read_in_order(v: Seq<JsonView>, j: JsonView)
    ensures
        cookies_of(Seq::empty()) == Seq::<CookieView>::empty(),
        cookies_of(v.push(j)) == match cookie_of(j) {
            Some(c) => cookies_of(v).push(c),
            None => cookies_of(v),
        },
{
    assert(v.push(j).drop_last() =~= v);
    match cookie_of(j) {
        Some(c) => {
            assert(cookies_of(v) + seq![c] =~= cookies_of(v).push(c));
        },
        None => {},
    }
}

proof fn lemma_described_is_put(
    jar: Seq<CookieView>,
    v: Seq<JsonView>,
    i: int,
    c: CookieView,
)
    requires
        0 <= i < v.len(),
        cookie_of(v[i]) == Some(c),
        forall|j: int|
            i < j < v.len() ==> (cookie_of(#[trigger] v[j]) matches Some(d) ==> !same_cookie(d, c)),
    ensures
        cookies_put(jar, cookies_of(v)).contains(c),
    decreases v.len(),
{
    let front = v.drop_last();
    assert(front.push(v.last()) =~= v);
    law_cookies_are_read_in_order(front, v.last());
    match cookie_of(v.last()) {
        Some(d) => {
            let before = cookies_put(jar, cookies_of(front));
            assert(cookies_of(v).drop_last() =~= cookies_of(front));
            assert(cookies_put(jar, cookies_of(v)) == cookie_put(before, d));
            lemma_put_one(before, d, c);
            if i < v.len() - 1 {
                assert(cookie_of(v[v.len() - 1]) == Some(d));
            }
        },
        None => {},
    }
    if i < v.len() - 1 {
        assert forall|j: int| i < j < front.len() implies (
        cookie_of(#[trigger] front[j]) matches Some(d) ==> !same_cookie(d, c)) by {
            assert(front[j] == v[j]);
        }
        lemma_described_is_put(jar, front, i, c);
    }
}

/// Every cookie that a session describes is in the jar after the import,
/// whatever the jar held, unless a later one of the session has its name,
/// domain and path; and the jar is what putting the described cookies into it
/// gives.
pub proof fn law_imported_cookies_are_there(
    c: ContextView,
    state: JsonView,
    v: Seq<JsonView>,
    i: int,
    k: CookieView,
)
    requires
        state.get_array("cookies"@) == Some(v),
        0 <= i < v.len(),
        cookie_of(v[i]) == Some(k),
        forall|j: int|
            i < j < v.len() ==> (cookie_of(#[trigger] v[j]) matches Some(d) ==> d.name != k.name
                || d.domain != k.domain || d.path != k.path),
    ensures
        imported(c, state).cookies.contains(k),
        imported(c, state).cookies == cookies_put(c.cookies, cookies_of(v)),
{
    lemma_described_is_put(c.cookies, v, i, k);
}

/// A session without a list of cookies changes no cookie, one without a list of
/// origins no storage, and nothing but these two ever changes.
pub proof fn law_import_changes_only_what_is_listed(c: ContextView, state: JsonView)
    ensures
        ({
            let after = imported(c, state);
            &&& state.get_array("cookies"@) is None ==> after.cookies == c.cookies
            &&& state.get_array("origins"@) is None ==> after.storage == c.storage
            &&& after.id == c.id && after.http == c.http && after.user_agent == c.user_agent
            &&& after.platform == c.platform && after.ua_platform == c.ua_platform
            &&& after.ua_platform_version == c.ua_platform_version
            &&& after.proxy_url == c.proxy_url && after.obey_robots == c.obey_robots
            &&& after.stealth == c.stealth && after.allow_file_access == c.allow_file_access
            &&& after.storage_dir == c.storage_dir
            &&& after.allow_private_network == c.allow_private_network
        }),
{
    assert(cookies_of(Seq::empty()) =~= Seq::empty());
}

/// The count of an import is that of the items that its entries list, entry by
/// entry and area by area; entries without an origin that has storage count
/// for nothing and change nothing, and an origin is known once an area of it
/// was listed.
pub proof fn law_import_counts_every_item(jar: JarView, entries: Seq<JsonView>, entry: JsonView)
    ensures
        import_origins(jar, Seq::empty()) == (jar, 0nat),
        ({
            let (before, n) = import_origins(jar, entries);
            let (after, m) = import_origins(jar, entries.push(entry));
            let origin = match entry.get_text("origin"@) {
                Some(raw) => url_origin(raw),
                None => None,
            };
            let local = match entry.get_array("localStorage"@) {
                Some(v) => items_of(v).len(),
                None => 0,
            };
            let session = match entry.get_array("sessionStorage"@) {
                Some(v) => items_of(v).len(),
                None => 0,
            };
            &&& origin is Some ==> m == n + local + session
            &&& origin is None ==> m == n && after == before
            &&& origin matches Some(o) ==> after.dom() == (if entry.get_array(
                "localStorage"@,
            ) is Some || entry.get_array("sessionStorage"@) is Some {
                before.dom().insert(o)
            } else {
                before.dom()
            })
        }),
{
    assert(entries.push(entry).drop_last() =~= entries);
    let before = import_origins(jar, entries).0;
    let after = import_origins(jar, entries.push(entry)).0;
    match entry.get_text("origin"@) {
        Some(raw) => match url_origin(raw) {
            Some(o) => {
                if entry.get_array("localStorage"@) is Some || entry.get_array(
                    "sessionStorage"@,
                ) is Some {
                    assert(after.dom() =~= before.dom().insert(o));
                }
            },
            None => {},
        },
        None => {},
    }
}

/// A count is shown as it is, or as the largest `usize` where it is larger.
pub proof fn law_counts_are_shown(n: nat)
    ensures
        n <= usize::MAX ==> shown(n) == n,
        n > usize::MAX ==> shown(n) == usize::MAX,
{
}

/// The attribute of an exported cookie is `Strict` or `None` where it was that,
/// in whatever case, and `Lax` otherwise.
pub proof fn law_same_site_names(raw: Seq<char>)
    ensures
        ascii_lower(raw) == "strict"@ ==> same_site_name(raw) == "Strict"@,
        ascii_lower(raw) == "none"@ ==> same_site_name(raw) == "None"@,
        ascii_lower(raw) != "strict"@ && ascii_lower(raw) != "none"@ ==> same_site_name(raw)
            == "Lax"@,
{
    reveal_strlit("strict");
    reveal_strlit("none");
    assert("none"@.len() == 4 && "strict"@.len() == 6);
}

/// An export lists every cookie of the jar in order, each with its eight
/// members; one that ends with the session expires at -1.
pub proof fn law_export_lists_every_cookie(cookies: Seq<CookieView>, jar: JarView, i: int)
    requires
        0 <= i < cookies.len(),
    ensures
        ({
            let list = state_json(cookies, jar).get_array("cookies"@);
            let j = list->0[i];
            let c = cookies[i];
            &&& list is Some && list->0.len() == cookies.len()
            &&& state_json(cookies, jar) is Object && state_json(cookies, jar)->Object_0.len() == 2
            &&& j is Object && j->Object_0.len() == 8
            &&& j.get("name"@) == Some(JsonView::Text(c.name))
            &&& j.get("value"@) == Some(JsonView::Text(c.value))
            &&& j.get("domain"@) == Some(JsonView::Text(c.domain))
            &&& j.get("path"@) == Some(JsonView::Text(c.path))
            &&& j.get("httpOnly"@) == Some(JsonView::Bool(c.http_only))
            &&& j.get("secure"@) == Some(JsonView::Bool(c.secure))
            &&& j.get("sameSite"@) == Some(JsonView::Text(same_site_name(c.same_site)))
            &&& c.expires is None ==> j.get("expires"@) == Some(
                JsonView::Number(JsonNumber::NegInt((-1) as i64)),
            )
            &&& c.expires matches Some(e) ==> (e >= 0 ==> j.get("expires"@) == Some(
                JsonView::Number(JsonNumber::PosInt(e as u64)),
            )) && (e < 0 ==> j.get("expires"@) == Some(JsonView::Number(JsonNumber::NegInt(e))))
        }),
{
    reveal_strlit("cookies");
    reveal_strlit("name");
    reveal_strlit("value");
    reveal_strlit("domain");
    reveal_strlit("path");
    reveal_strlit("expires");
    reveal_strlit("httpOnly");
    reveal_strlit("secure");
    reveal_strlit("sameSite");
    assert("name"@.len() == 4 && "value"@.len() == 5 && "domain"@.len() == 6 && "path"@.len() == 4
        && "expires"@.len() == 7 && "httpOnly"@.len() == 8 && "secure"@.len() == 6
        && "sameSite"@.len() == 8);
    assert("name"@[0] == 'n' && "path"@[0] == 'p');
    assert("domain"@[0] == 'd' && "secure"@[0] == 's');
    assert("httpOnly"@[0] == 'h' && "sameSite"@[0] == 's');
    let c = cookies[i];
    lemma_member_at(state_json(cookies, jar)->Object_0, "cookies"@, 0);
    assert(cookies_json(cookies)[i] == cookie_json(c));
    let m = cookie_json(c)->Object_0;
    lemma_member_at(m, "name"@, 0);
    lemma_member_at(m, "value"@, 1);
    lemma_member_at(m, "domain"@, 2);
    lemma_member_at(m, "path"@, 3);
    lemma_member_at(m, "expires"@, 4);
    lemma_member_at(m, "httpOnly"@, 5);
    lemma_member_at(m, "secure"@, 6);
    lemma_member_at(m, "sameSite"@, 7);
}

/// An export lists every origin with an item, in byte order, with the items of
/// both areas; `sessionStorage` is left out where it is empty.
pub proof fn law_export_lists_every_origin(cookies: Seq<CookieView>, jar: JarView, i: int)
    requires
        0 <= i < jar_origins(jar).len(),
    ensures
        ({
            let list = state_json(cookies, jar).get_array("origins"@);
            let j = list->0[i];
            let o = jar_origins(jar)[i];
            &&& list is Some && list->0.len() == jar_origins(jar).len()
            &&& j is Object && j->Object_0.len() == (if jar[o].session.len() > 0 {
                3int
            } else {
                2int
            })
            &&& j.get("origin"@) == Some(JsonView::Text(o))
            &&& j.get("localStorage"@) == Some(items_json(jar[o].local))
            &&& jar[o].session.len() > 0 ==> j.get("sessionStorage"@) == Some(
                items_json(jar[o].session),
            )
            &&& jar[o].session.len() == 0 ==> j.get("sessionStorage"@) is None
        }),
{
    reveal_strlit("cookies");
    reveal_strlit("origins");
    reveal_strlit("origin");
    reveal_strlit("localStorage");
    reveal_strlit("sessionStorage");
    assert("cookies"@[0] == 'c' && "origins"@[0] == 'o');
    assert("origin"@.len() == 6 && "localStorage"@.len() == 12 && "sessionStorage"@.len() == 14);
    let o = jar_origins(jar)[i];
    lemma_member_at(state_json(cookies, jar)->Object_0, "origins"@, 1);
    assert(origins_json(jar)[i] == origin_json(o, jar[o]));
    let m = origin_json(o, jar[o])->Object_0;
    lemma_member_at(m, "origin"@, 0);
    lemma_member_at(m, "localStorage"@, 1);
    if jar[o].session.len() > 0 {
        lemma_member_at(m, "sessionStorage"@, 2);
    } else {
        lemma_member_at(m, "sessionStorage"@, m.len() as int);
    }
}

/// An exported area lists every item in order, with its name and its value.
pub proof fn law_export_lists_every_item(items: Items, i: int)
    requires
        0 <= i < items.len(),
    ensures
        ({
            let list = items_json(items).as_array();
            &&& list is Some && list->0.len() == items.len()
            &&& list->0[i] is Object && list->0[i]->Object_0.len() == 2
            &&& list->0[i].get("name"@) == Some(JsonView::Text(items[i].0))
            &&& list->0[i].get("value"@) == Some(JsonView::Text(items[i].1))
        }),
{
    reveal_strlit("name");
    reveal_strlit("value");
    assert("name"@.len() == 4 && "value"@.len() == 5);
    let m = item_json(items[i])->Object_0;
    assert(items_json(items)->Array_0[i] == item_json(items[i]));
    lemma_member_at(m, "name"@, 0);
    lemma_member_at(m, "value"@, 1);
}

/// The entries of a session under a key are those of its list; there are none
/// where it has no list.
pub proof fn law_listed_entries(state: JsonView, key: Seq<char>)
    ensures
        state.get_array(key) matches Some(v) ==> listed(state, key) == v,
        state.get_array(key) is None ==> listed(state, key).len() == 0,
{
}

/// An export without cookies and origins still has both lists, empty ones.
pub proof fn law_empty_export(cookies: Seq<CookieView>, jar: JarView)
    ensures
        cookies.len() == 0 ==> state_json(cookies, jar).get("cookies"@) == Some(
            JsonView::Array(Seq::empty()),
        ),
        jar_origins(jar).len() == 0 ==> state_json(cookies, jar).get("origins"@) == Some(
            JsonView::Array(Seq::empty()),
        ),
        items_json(Seq::empty()) == JsonView::Array(Seq::empty()),
{
    reveal_strlit("cookies");
    reveal_strlit("origins");
    assert("cookies"@[0] == 'c' && "origins"@[0] == 'o');
    let m = state_json(cookies, jar)->Object_0;
    lemma_member_at(m, "cookies"@, 0);
    lemma_member_at(m, "origins"@, 1);
    if cookies.len() == 0 {
        assert(cookies_json(cookies) =~= Seq::empty());
    }
    if jar_origins(jar).len() == 0 {
        assert(origins_json(jar) =~= Seq::empty());
    }
    assert(items_json(Seq::empty())->Array_0 =~= Seq::empty());
}

} // verus!
