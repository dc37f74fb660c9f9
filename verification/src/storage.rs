//! Web Storage (`localStorage` / `sessionStorage`), keyed by origin.
//!
//! A large share of web apps keep their login token in `localStorage`, so
//! storage is the other half of a durable session beside the cookies.
//!
//! * Insertion order is preserved: pages index into `key(i)`.
//! * Origins come out in byte order, so exports are the same run after run.
//! * `sessionStorage` is tab-scoped and never part of what is persisted.
use crate::items::{
    copy_items, find_key, first_index, item_value, items_remove, items_set, items_view,
    remove_from_area, set_fits, set_in_area, Items,
};
use crate::text::{
    lemma_sorted_texts, lemma_sorted_texts_of, lemma_text_order, sorted_texts, strictly_sorted,
    text_before, text_eq, text_order, TextOrder,
};
use vstd::prelude::*;

verus! {

/// Which Web Storage area a call addresses.
#[derive(Debug, Clone, Copy, PartialEq, Eq, PartialOrd, Ord, Hash, Structural)]
pub enum StorageArea {
    Local,
    Session,
}

/// The area that a name stands for.
pub open spec fn area_named(s: Seq<char>) -> Option<StorageArea> {
    if s == "local"@ || s == "localStorage"@ {
        Some(StorageArea::Local)
    } else if s == "session"@ || s == "sessionStorage"@ {
        Some(StorageArea::Session)
    } else {
        None
    }
}

impl StorageArea {
    /// Reads an area name, in its short or its script form.
    pub fn from_str_area(s: &str) -> (r: Option<Self>)
        ensures
            r == area_named(s@),
    {
        if text_eq(s, "local") || text_eq(s, "localStorage") {
            Some(StorageArea::Local)
        } else if text_eq(s, "session") || text_eq(s, "sessionStorage") {
            Some(StorageArea::Session)
        } else {
            None
        }
    }
}

/// Given back when an item would push an area past the quota; script sees it
/// as `QuotaExceededError`.
#[derive(Debug)]
pub struct QuotaExceeded;

/// Both areas of one origin.
#[verifier::ext_equal]
pub struct AreasView {
    pub local: Items,
    pub session: Items,
}

impl AreasView {
    pub open spec fn empty() -> AreasView {
        AreasView { local: Seq::empty(), session: Seq::empty() }
    }

    pub open spec fn of(self, area: StorageArea) -> Items {
        match area {
            StorageArea::Local => self.local,
            StorageArea::Session => self.session,
        }
    }

    pub open spec fn with(self, area: StorageArea, items: Items) -> AreasView {
        match area {
            StorageArea::Local => AreasView { local: items, ..self },
            StorageArea::Session => AreasView { session: items, ..self },
        }
    }

    /// Neither area holds an item.
    pub open spec fn is_empty(self) -> bool {
        self.local.len() == 0 && self.session.len() == 0
    }
}

/// A jar: the areas of every origin that was written to.
pub type JarView = Map<Seq<char>, AreasView>;

/// The areas of an origin; empty ones where it was never written to.
pub open spec fn jar_areas(jar: JarView, origin: Seq<char>) -> AreasView {
    if jar.contains_key(origin) {
        jar[origin]
    } else {
        AreasView::empty()
    }
}

/// The items of one origin and area.
pub open spec fn jar_items(jar: JarView, origin: Seq<char>, area: StorageArea) -> Items {
    jar_areas(jar, origin).of(area)
}

/// `jar` with the items of one origin and area replaced.
pub open spec fn jar_with(
    jar: JarView,
    origin: Seq<char>,
    area: StorageArea,
    items: Items,
) -> JarView {
    jar.insert(origin, jar_areas(jar, origin).with(area, items))
}

/// `jar` after one attempt to set an item. A write over the quota leaves the
/// items as they were; either way the origin is known from then on.
pub open spec fn jar_set(
    jar: JarView,
    origin: Seq<char>,
    area: StorageArea,
    key: Seq<char>,
    value: Seq<char>,
) -> JarView {
    let items = jar_items(jar, origin, area);
    jar_with(
        jar,
        origin,
        area,
        if set_fits(items, key, value) {
            items_set(items, key, value)
        } else {
            items
        },
    )
}

/// The origins with an item in either area, in byte order.
pub open spec fn jar_origins(jar: JarView) -> Seq<Seq<char>> {
    sorted_texts(jar.dom().filter(|o: Seq<char>| !jar[o].is_empty()))
}

/// The origins with an item are just those that the list names.
pub proof fn lemma_jar_origins(jar: JarView)
    requires
        jar.dom().finite(),
    ensures
        strictly_sorted(jar_origins(jar)),
        forall|o: Seq<char>|
            #[trigger] jar_origins(jar).contains(o) <==> jar.contains_key(o)
                && !jar[o].is_empty(),
        forall|i: int|
            0 <= i < jar_origins(jar).len() ==> jar.contains_key(#[trigger] jar_origins(jar)[i])
                && !jar[jar_origins(jar)[i]].is_empty(),
{
    let set = jar.dom().filter(|o: Seq<char>| !jar[o].is_empty());
    lemma_sorted_texts_of(set);
    assert forall|i: int| 0 <= i < jar_origins(jar).len() implies jar.contains_key(
        #[trigger] jar_origins(jar)[i],
    ) && !jar[jar_origins(jar)[i]].is_empty() by {
        assert(jar_origins(jar).contains(jar_origins(jar)[i]));
    }
}

/// The `localStorage` of every known origin, in byte order of the origins.
pub open spec fn jar_local(jar: JarView) -> Seq<(Seq<char>, Items)> {
    sorted_texts(jar.dom()).map_values(|o: Seq<char>| (o, jar[o].local))
}

/// An item as it stands in the storage file.
#[derive(Debug)]
pub struct PersistedItem {
    pub name: String,
    pub value: String,
}

/// An origin as it stands in the storage file. Only `localStorage` is kept.
#[derive(Debug)]
pub struct PersistedOrigin {
    pub origin: String,
    pub local_storage: Vec<PersistedItem>,
}

pub open spec fn persisted_items_view(v: Seq<PersistedItem>) -> Items {
    v.map_values(|p: PersistedItem| (p.name@, p.value@))
}

impl View for PersistedOrigin {
    type V = (Seq<char>, Items);

    open spec fn view(&self) -> (Seq<char>, Items) {
        (self.origin@, persisted_items_view(self.local_storage@))
    }
}

pub open spec fn persisted_view(v: Seq<PersistedOrigin>) -> Seq<(Seq<char>, Items)> {
    v.map_values(|p: PersistedOrigin| p@)
}

/// What the storage file holds of `jar`: the origins with `localStorage`
/// items, in byte order, each with these items in insertion order.
pub open spec fn jar_persisted(jar: JarView) -> Seq<(Seq<char>, Items)> {
    sorted_texts(jar.dom().filter(|o: Seq<char>| jar[o].local.len() > 0)).map_values(
        |o: Seq<char>| (o, jar[o].local),
    )
}

/// `jar` after the items of one file entry were set one by one, and how many
/// of them the quota let through.
pub open spec fn load_items(jar: JarView, origin: Seq<char>, items: Items) -> (JarView, nat)
    decreases items.len(),
{
    if items.len() == 0 {
        (jar, 0)
    } else {
        let (before, count) = load_items(jar, origin, items.drop_last());
        let item = items.last();
        let now = jar_items(before, origin, StorageArea::Local);
        (
            jar_set(before, origin, StorageArea::Local, item.0, item.1),
            if set_fits(now, item.0, item.1) {
                count + 1
            } else {
                count
            },
        )
    }
}

/// `jar` after all entries of a storage file were merged into it, and how
/// many items were taken.
pub open spec fn load_entries(jar: JarView, entries: Seq<(Seq<char>, Items)>) -> (JarView, nat)
    decreases entries.len(),
{
    if entries.len() == 0 {
        (jar, 0)
    } else {
        let (before, count) = load_entries(jar, entries.drop_last());
        let (after, more) = load_items(before, entries.last().0, entries.last().1);
        (after, count + more)
    }
}

struct OriginEntry {
    origin: String,
    local: Vec<(String, String)>,
    session: Vec<(String, String)>,
}

impl View for OriginEntry {
    type V = AreasView;

    closed spec fn view(&self) -> AreasView {
        AreasView { local: items_view(self.local@), session: items_view(self.session@) }
    }
}

spec fn entry_origins(e: Seq<OriginEntry>) -> Seq<Seq<char>> {
    e.map_values(|x: OriginEntry| x.origin@)
}

spec fn entries_sorted(e: Seq<OriginEntry>) -> bool {
    strictly_sorted(entry_origins(e))
}

spec fn entries_map(e: Seq<OriginEntry>) -> JarView {
    Map::new(
        |o: Seq<char>| entry_origins(e).contains(o),
        |o: Seq<char>| e[entry_origins(e).index_of(o)]@,
    )
}

proof fn lemma_entry(e: Seq<OriginEntry>, i: int)
    requires
        entries_sorted(e),
        0 <= i < e.len(),
    ensures
        entries_map(e).contains_key(e[i].origin@),
        entries_map(e)[e[i].origin@] == e[i]@,
{
    let keys = entry_origins(e);
    assert(keys[i] == e[i].origin@);
    assert(keys.contains(e[i].origin@));
    let j = keys.index_of(e[i].origin@);
    if j < i {
        assert(text_before(keys[j], keys[i]));
        lemma_text_order(keys[j], keys[i], keys[j]);
    } else if i < j {
        assert(text_before(keys[i], keys[j]));
        lemma_text_order(keys[i], keys[j], keys[i]);
    }
}

proof fn lemma_entry_changed(e: Seq<OriginEntry>, i: int, x: OriginEntry)
    requires
        entries_sorted(e),
        0 <= i < e.len(),
        x.origin@ == e[i].origin@,
    ensures
        entries_sorted(e.update(i, x)),
        entries_map(e.update(i, x)) == entries_map(e).insert(x.origin@, x@),
{
    let f = e.update(i, x);
    assert(entry_origins(f) =~= entry_origins(e));
    assert forall|o: Seq<char>| #[trigger] entries_map(f).contains_key(o) implies entries_map(f)[o]
        == entries_map(e).insert(x.origin@, x@)[o] by {
        let j = entry_origins(f).index_of(o);
        lemma_entry(f, j);
        lemma_entry(e, j);
        lemma_entry(f, i);
    }
    lemma_entry(e, i);
    assert(entries_map(f) =~= entries_map(e).insert(x.origin@, x@));
}

proof fn lemma_entry_added(e: Seq<OriginEntry>, i: int, x: OriginEntry)
    requires
        entries_sorted(e),
        0 <= i <= e.len(),
        forall|j: int| 0 <= j < i ==> text_before((#[trigger] e[j]).origin@, x.origin@),
        forall|j: int| i <= j < e.len() ==> text_before(x.origin@, (#[trigger] e[j]).origin@),
    ensures
        entries_sorted(e.insert(i, x)),
        entries_map(e.insert(i, x)) == entries_map(e).insert(x.origin@, x@),
        !entries_map(e).contains_key(x.origin@),
{
    let f = e.insert(i, x);
    let keys = entry_origins(e);
    let fkeys = entry_origins(f);
    assert forall|a: int, b: int| 0 <= a < b < fkeys.len() implies #[trigger] text_before(
        fkeys[a],
        fkeys[b],
    ) by {
        if a < i && b > i {
            assert(text_before(keys[a], keys[b - 1]));
        } else if b < i {
            assert(text_before(keys[a], keys[b]));
        } else if a > i {
            assert(text_before(keys[a - 1], keys[b - 1]));
        } else if a == i {
            assert(fkeys[b] == e[b - 1].origin@);
        } else {
            assert(fkeys[a] == e[a].origin@);
        }
    }
    if keys.contains(x.origin@) {
        let j = keys.index_of(x.origin@);
        assert(e[j].origin@ == x.origin@);
        lemma_text_order(x.origin@, x.origin@, x.origin@);
    }
    assert(fkeys[i] == x.origin@);
    assert forall|o: Seq<char>| entries_map(f).contains_key(o) == entries_map(e).insert(
        x.origin@,
        x@,
    ).contains_key(o) by {
        if keys.contains(o) {
            let j = keys.index_of(o);
            assert(fkeys[if j < i {
                j
            } else {
                j + 1
            }] == o);
        }
        if fkeys.contains(o) && o != x.origin@ {
            let j = fkeys.index_of(o);
            assert(keys[if j < i {
                j
            } else {
                j - 1
            }] == o);
        }
    }
    assert forall|o: Seq<char>| #[trigger] entries_map(f).contains_key(o) implies entries_map(f)[o]
        == entries_map(e).insert(x.origin@, x@)[o] by {
        let j = fkeys.index_of(o);
        lemma_entry(f, j);
        lemma_entry(f, i);
        if j < i {
            lemma_entry(e, j);
        } else if j > i {
            lemma_entry(e, j - 1);
        }
    }
    assert(entries_map(f) =~= entries_map(e).insert(x.origin@, x@));
}

proof fn lemma_entry_removed(e: Seq<OriginEntry>, i: int)
    requires
        entries_sorted(e),
        0 <= i < e.len(),
    ensures
        entries_sorted(e.remove(i)),
        entries_map(e.remove(i)) == entries_map(e).remove(e[i].origin@),
{
    let f = e.remove(i);
    let keys = entry_origins(e);
    let fkeys = entry_origins(f);
    assert forall|a: int, b: int| 0 <= a < b < fkeys.len() implies #[trigger] text_before(
        fkeys[a],
        fkeys[b],
    ) by {
        let a1 = if a < i {
            a
        } else {
            a + 1
        };
        let b1 = if b < i {
            b
        } else {
            b + 1
        };
        assert(text_before(keys[a1], keys[b1]));
    }
    assert forall|o: Seq<char>| entries_map(f).contains_key(o) == entries_map(e).remove(
        e[i].origin@,
    ).contains_key(o) by {
        if fkeys.contains(o) {
            let j = fkeys.index_of(o);
            let j1 = if j < i {
                j
            } else {
                j + 1
            };
            assert(keys[j1] == o);
            if j1 < i {
                assert(text_before(keys[j1], keys[i]));
            } else {
                assert(text_before(keys[i], keys[j1]));
            }
            lemma_text_order(keys[j1], keys[i], keys[j1]);
            lemma_text_order(keys[i], keys[j1], keys[i]);
        }
        if keys.contains(o) && o != e[i].origin@ {
            let j = keys.index_of(o);
            assert(fkeys[if j < i {
                j
            } else {
                j - 1
            }] == o);
        }
    }
    assert forall|o: Seq<char>| #[trigger] entries_map(f).contains_key(o) implies entries_map(f)[o]
        == entries_map(e).remove(e[i].origin@)[o] by {
        let j = fkeys.index_of(o);
        lemma_entry(f, j);
        if j < i {
            lemma_entry(e, j);
        } else {
            lemma_entry(e, j + 1);
        }
    }
    assert(entries_map(f) =~= entries_map(e).remove(e[i].origin@));
}

/// The first entry that does not come before `origin`, and whether it is the
/// one of `origin`.
fn locate(e: &Vec<OriginEntry>, origin: &str) -> (r: (usize, bool))
    requires
        entries_sorted(e@),
    ensures
        r.0 <= e@.len(),
        r.1 ==> r.0 < e@.len() && e@[r.0 as int].origin@ == origin@,
        r.1 == entries_map(e@).contains_key(origin@),
        forall|j: int| 0 <= j < r.0 ==> text_before((#[trigger] e@[j]).origin@, origin@),
        !r.1 ==> forall|j: int|
            r.0 <= j < e@.len() ==> text_before(origin@, (#[trigger] e@[j]).origin@),
{
    let mut i: usize = 0;
    while i < e.len()
        invariant
            i <= e@.len(),
            entries_sorted(e@),
            forall|j: int| 0 <= j < i ==> text_before((#[trigger] e@[j]).origin@, origin@),
        decreases e@.len() - i,
    {
        match text_order(e[i].origin.as_str(), origin) {
            TextOrder::Before => {},
            TextOrder::Same => {
                proof {
                    lemma_entry(e@, i as int);
                }
                return (i, true);
            },
            TextOrder::After => {
                proof {
                    lemma_absent(e@, i as int, origin@);
                }
                return (i, false);
            },
        }
        i = i + 1;
    }
    proof {
        lemma_absent(e@, i as int, origin@);
    }
    (i, false)
}

proof fn lemma_absent(e: Seq<OriginEntry>, i: int, origin: Seq<char>)
    requires
        entries_sorted(e),
        0 <= i <= e.len(),
        i < e.len() ==> text_before(origin, e[i].origin@),
        forall|j: int| 0 <= j < i ==> text_before((#[trigger] e[j]).origin@, origin),
    ensures
        forall|j: int| i <= j < e.len() ==> text_before(origin, (#[trigger] e[j]).origin@),
        !entries_map(e).contains_key(origin),
{
    let keys = entry_origins(e);
    assert forall|j: int| i <= j < e.len() implies text_before(
        origin,
        (#[trigger] e[j]).origin@,
    ) by {
        if j > i {
            assert(text_before(keys[i], keys[j]));
            lemma_text_order(origin, keys[i], keys[j]);
        }
    }
    if keys.contains(origin) {
        let j = keys.index_of(origin);
        assert(e[j].origin@ == origin);
        lemma_text_order(origin, origin, origin);
    }
}

/// Makes sure that `origin` has an entry, and gives its position.
fn entry_for(e: &mut Vec<OriginEntry>, origin: &str) -> (i: usize)
    requires
        entries_sorted(old(e)@),
    ensures
        entries_sorted(final(e)@),
        i < final(e)@.len(),
        final(e)@[i as int].origin@ == origin@,
        final(e)@[i as int]@ == jar_areas(entries_map(old(e)@), origin@),
        entries_map(final(e)@) == entries_map(old(e)@).insert(
            origin@,
            jar_areas(entries_map(old(e)@), origin@),
        ),
{
    let (i, found) = locate(e, origin);
    if found {
        proof {
            lemma_entry(e@, i as int);
            assert(entries_map(e@) =~= entries_map(e@).insert(origin@, e@[i as int]@));
        }
    } else {
        let x = OriginEntry {
            origin: origin.to_owned(),
            local: Vec::new(),
            session: Vec::new(),
        };
        proof {
            assert(x@ =~= AreasView::empty());
            lemma_entry_added(e@, i as int, x);
        }
        e.insert(i, x);
    }
    i
}

/// The texts of a list of strings.
pub open spec fn texts_view(v: Seq<String>) -> Seq<Seq<char>> {
    v.map_values(|s: String| s@)
}

/// A snapshot as texts.
pub open spec fn snapshot_view(
    v: Seq<(String, Vec<(String, String)>)>,
) -> Seq<(Seq<char>, Items)> {
    v.map_values(|p: (String, Vec<(String, String)>)| (p.0@, items_view(p.1@)))
}

spec fn selected(e: Seq<OriginEntry>, p: spec_fn(AreasView) -> bool) -> Seq<OriginEntry> {
    e.filter(|x: OriginEntry| p(x@))
}

proof fn lemma_taken_next(e: Seq<OriginEntry>, i: int)
    requires
        entries_sorted(e),
        0 <= i < e.len(),
    ensures
        entries_sorted(e.take(i)),
        entries_sorted(e.take(i + 1)),
        entries_map(e.take(i + 1)) == entries_map(e.take(i)).insert(e[i].origin@, e[i]@),
{
    let keys = entry_origins(e);
    assert forall|n: int| 0 <= n <= e.len() implies #[trigger] entries_sorted(e.take(n)) by {
        let part = entry_origins(e.take(n));
        assert forall|a: int, b: int| 0 <= a < b < part.len() implies #[trigger] text_before(
            part[a],
            part[b],
        ) by {
            assert(text_before(keys[a], keys[b]));
        }
    }
    assert forall|j: int| 0 <= j < i implies text_before(
        (#[trigger] e.take(i)[j]).origin@,
        e[i].origin@,
    ) by {
        assert(text_before(keys[j], keys[i]));
    }
    lemma_entry_added(e.take(i), i, e[i]);
    assert(e.take(i).insert(i, e[i]) =~= e.take(i + 1));
}

proof fn lemma_selected_next(e: Seq<OriginEntry>, i: int, p: spec_fn(AreasView) -> bool)
    requires
        0 <= i < e.len(),
    ensures
        selected(e.take(i + 1), p) == if p(e[i]@) {
            selected(e.take(i), p).push(e[i])
        } else {
            selected(e.take(i), p)
        },
        entry_origins(selected(e.take(i + 1), p)) == if p(e[i]@) {
            entry_origins(selected(e.take(i), p)).push(e[i].origin@)
        } else {
            entry_origins(selected(e.take(i), p))
        },
{
    reveal(Seq::filter);
    assert(e.take(i + 1).drop_last() =~= e.take(i));
    let kept = selected(e.take(i), p);
    assert(entry_origins(kept.push(e[i])) =~= entry_origins(kept).push(e[i].origin@));
}

proof fn lemma_selected(e: Seq<OriginEntry>, p: spec_fn(AreasView) -> bool)
    requires
        entries_sorted(e),
    ensures
        entry_origins(selected(e, p)) == sorted_texts(
            entries_map(e).dom().filter(|o: Seq<char>| p(entries_map(e)[o])),
        ),
        forall|k: int|
            0 <= k < selected(e, p).len() ==> entries_map(e)[(#[trigger] selected(
                e,
                p,
            )[k]).origin@] == selected(e, p)[k]@,
{
    lemma_selected_part(e, e.len() as int, p);
    assert(e.take(e.len() as int) =~= e);
    let kept = selected(e, p);
    let names = entry_origins(kept);
    lemma_sorted_texts(names);
    let wanted = entries_map(e).dom().filter(|o: Seq<char>| p(entries_map(e)[o]));
    assert forall|o: Seq<char>| names.to_set().contains(o) implies wanted.contains(o) by {
        let k = names.index_of(o);
        assert(kept[k].origin@ == o);
        let j = choose|j: int| 0 <= j < e.len() && e[j] == kept[k];
        lemma_entry(e, j);
    }
    assert forall|o: Seq<char>| wanted.contains(o) implies names.to_set().contains(o) by {
        let j = entry_origins(e).index_of(o);
        lemma_entry(e, j);
        assert(p(e[j]@));
        let k = choose|k: int| 0 <= k < kept.len() && kept[k] == e[j];
        assert(names[k] == o);
    }
    assert(names.to_set() =~= wanted);
    assert forall|k: int| 0 <= k < kept.len() implies entries_map(e)[(#[trigger] kept[k]).origin@]
        == kept[k]@ by {
        let j = choose|j: int| 0 <= j < e.len() && e[j] == kept[k];
        lemma_entry(e, j);
    }
}

proof fn lemma_selected_part(e: Seq<OriginEntry>, n: int, p: spec_fn(AreasView) -> bool)
    requires
        entries_sorted(e),
        0 <= n <= e.len(),
    ensures
        strictly_sorted(entry_origins(selected(e.take(n), p))),
        forall|k: int|
            0 <= k < selected(e.take(n), p).len() ==> exists|j: int|
                0 <= j < n && e[j] == #[trigger] selected(e.take(n), p)[k],
        forall|k: int|
            0 <= k < selected(e.take(n), p).len() ==> p((#[trigger] selected(e.take(n), p)[k])@),
        forall|j: int|
            0 <= j < n && p((#[trigger] e[j])@) ==> exists|k: int|
                0 <= k < selected(e.take(n), p).len() && selected(e.take(n), p)[k] == e[j],
    decreases n,
{
    reveal(Seq::filter);
    let now = selected(e.take(n), p);
    if n > 0 {
        lemma_selected_part(e, n - 1, p);
        lemma_selected_next(e, n - 1, p);
        let past = selected(e.take(n - 1), p);
        let keys = entry_origins(e);
        let names = entry_origins(now);
        assert forall|a: int, b: int| 0 <= a < b < names.len() implies #[trigger] text_before(
            names[a],
            names[b],
        ) by {
            if b < past.len() {
                assert(text_before(entry_origins(past)[a], entry_origins(past)[b]));
            } else {
                assert(now[a] == past[a]);
                let j = choose|j: int| 0 <= j < n - 1 && e[j] == past[a];
                assert(text_before(keys[j], keys[n - 1]));
            }
        }
        assert forall|k: int| 0 <= k < now.len() implies exists|j: int|
            0 <= j < n && e[j] == #[trigger] now[k] by {
            if k < past.len() {
                let j = choose|j: int| 0 <= j < n - 1 && e[j] == past[k];
                assert(e[j] == now[k]);
            } else {
                assert(e[n - 1] == now[k]);
            }
        }
        assert forall|k: int| 0 <= k < now.len() implies p((#[trigger] now[k])@) by {
            if k < past.len() {
                assert(now[k] == past[k]);
            }
        }
        assert forall|j: int| 0 <= j < n && p((#[trigger] e[j])@) implies exists|k: int|
            0 <= k < now.len() && now[k] == e[j] by {
            if j < n - 1 {
                let k = choose|k: int| 0 <= k < past.len() && past[k] == e[j];
                assert(now[k] == e[j]);
            } else {
                assert(now[now.len() - 1] == e[j]);
            }
        }
    }
}

fn persist_items(a: &Vec<(String, String)>) -> (r: Vec<PersistedItem>)
    ensures
        persisted_items_view(r@) == items_view(a@),
{
    let mut out: Vec<PersistedItem> = Vec::new();
    let mut i: usize = 0;
    while i < a.len()
        invariant
            i <= a@.len(),
            persisted_items_view(out@) =~= items_view(a@).take(i as int),
        decreases a@.len() - i,
    {
        let ghost before = out@;
        out.push(PersistedItem { name: a[i].0.clone(), value: a[i].1.clone() });
        assert(persisted_items_view(out@) =~= persisted_items_view(before).push(
            items_view(a@)[i as int],
        ));
        i = i + 1;
    }
    assert(items_view(a@).take(i as int) =~= items_view(a@));
    out
}

/// Origin-keyed Web Storage, shared by every page of a context.
pub struct StorageJar {
    entries: Vec<OriginEntry>,
}

impl View for StorageJar {
    type V = JarView;

    closed spec fn view(&self) -> JarView {
        entries_map(self.entries@)
    }
}

impl StorageJar {
    #[verifier::type_invariant]
    closed spec fn in_order(self) -> bool {
        entries_sorted(self.entries@)
    }

    /// A jar that knows no origin.
    pub fn new() -> (r: Self)
        ensures
            r@ == Map::<Seq<char>, AreasView>::empty(),
    {
        let r = StorageJar { entries: Vec::new() };
        assert(r@ =~= Map::<Seq<char>, AreasView>::empty());
        r
    }

    /// Insert or update. Existing keys keep their position (Chrome behaviour);
    /// new keys append.
    pub fn set_item(
        &mut self,
        origin: &str,
        area: StorageArea,
        key: &str,
        value: &str,
    ) -> (r: Result<(), QuotaExceeded>)
        ensures
            r is Ok <==> set_fits(jar_items(old(self)@, origin@, area), key@, value@),
            final(self)@ == jar_set(old(self)@, origin@, area, key@, value@),
    {
        proof {
            use_type_invariant(&*self);
        }
        let mut entries: Vec<OriginEntry> = Vec::new();
        std::mem::swap(&mut entries, &mut self.entries);
        let i = entry_for(&mut entries, origin);
        let ghost before = entries@;
        let done: bool = match area {
            StorageArea::Local => set_in_area(&mut entries[i].local, key, value),
            StorageArea::Session => set_in_area(&mut entries[i].session, key, value),
        };
        proof {
            lemma_entry_changed(before, i as int, entries@[i as int]);
            assert(entries@ =~= before.update(i as int, entries@[i as int]));
        }
        self.entries = entries;
        proof {
            assert(self@ =~= jar_set(old(self)@, origin@, area, key@, value@));
        }
        if done {
            Ok(())
        } else {
            Err(QuotaExceeded)
        }
    }

    /// The items of one origin and area, if the origin is known.
    fn area(&self, origin: &str, area: StorageArea) -> (r: Option<&Vec<(String, String)>>)
        ensures
            match r {
                Some(a) => jar_items(self@, origin@, area) == items_view(a@),
                None => jar_items(self@, origin@, area) == Seq::<(Seq<char>, Seq<char>)>::empty(),
            },
    {
        proof {
            use_type_invariant(&*self);
        }
        let (i, found) = locate(&self.entries, origin);
        if !found {
            return None;
        }
        proof {
            lemma_entry(self.entries@, i as int);
        }
        match area {
            StorageArea::Local => Some(&self.entries[i].local),
            StorageArea::Session => Some(&self.entries[i].session),
        }
    }

    /// All items of one origin and area, in insertion order.
    pub fn items(&self, origin: &str, area: StorageArea) -> (r: Vec<(String, String)>)
        ensures
            items_view(r@) == jar_items(self@, origin@, area),
    {
        match self.area(origin, area) {
            Some(a) => copy_items(a),
            None => {
                let r: Vec<(String, String)> = Vec::new();
                assert(items_view(r@) =~= Seq::<(Seq<char>, Seq<char>)>::empty());
                r
            },
        }
    }

    /// The value under `key`, if it is there.
    pub fn get_item(&self, origin: &str, area: StorageArea, key: &str) -> (r: Option<String>)
        ensures
            r is Some <==> item_value(jar_items(self@, origin@, area), key@) is Some,
            r is Some ==> item_value(jar_items(self@, origin@, area), key@) == Some(r->0@),
    {
        match self.area(origin, area) {
            Some(a) => match find_key(a, key) {
                Some(i) => Some(a[i].1.clone()),
                None => None,
            },
            None => {
                assert(first_index(Seq::<(Seq<char>, Seq<char>)>::empty(), key@) is None);
                None
            },
        }
    }

    /// Removes every item under `key`.
    pub fn remove_item(&mut self, origin: &str, area: StorageArea, key: &str)
        ensures
            final(self)@ == jar_with(
                old(self)@,
                origin@,
                area,
                items_remove(jar_items(old(self)@, origin@, area), key@),
            ),
    {
        let items: Vec<(String, String)> = match self.area(origin, area) {
            Some(a) => remove_from_area(a, key),
            None => {
                let none: Vec<(String, String)> = Vec::new();
                proof {
                    reveal(Seq::filter);
                    assert(items_view(none@) =~= Seq::<(Seq<char>, Seq<char>)>::empty());
                }
                none
            },
        };
        self.replace(origin, area, items);
    }

    /// Drops all items of one origin and area.
    pub fn clear(&mut self, origin: &str, area: StorageArea)
        ensures
            final(self)@ == jar_with(old(self)@, origin@, area, Seq::empty()),
    {
        let none: Vec<(String, String)> = Vec::new();
        assert(items_view(none@) =~= Seq::<(Seq<char>, Seq<char>)>::empty());
        self.replace(origin, area, none);
    }

    /// Replaces an origin and area wholesale (import path).
    pub fn replace(&mut self, origin: &str, area: StorageArea, items: Vec<(String, String)>)
        ensures
            final(self)@ == jar_with(old(self)@, origin@, area, items_view(items@)),
    {
        proof {
            use_type_invariant(&*self);
        }
        let mut entries: Vec<OriginEntry> = Vec::new();
        std::mem::swap(&mut entries, &mut self.entries);
        let i = entry_for(&mut entries, origin);
        let ghost before = entries@;
        match area {
            StorageArea::Local => {
                entries[i].local = items;
            },
            StorageArea::Session => {
                entries[i].session = items;
            },
        }
        proof {
            lemma_entry_changed(before, i as int, entries@[i as int]);
            assert(entries@ =~= before.update(i as int, entries@[i as int]));
        }
        self.entries = entries;
        proof {
            assert(self@ =~= jar_with(old(self)@, origin@, area, items_view(items@)));
        }
    }

    /// Every origin that holds at least one item in either area.
    pub fn origins(&self) -> (r: Vec<String>)
        ensures
            texts_view(r@) == jar_origins(self@),
            self@.dom().finite(),
    {
        proof {
            use_type_invariant(&*self);
        }
        let ghost p = |a: AreasView| !a.is_empty();
        let mut out: Vec<String> = Vec::new();
        let mut i: usize = 0;
        proof {
            reveal(Seq::filter);
            assert(self.entries@.take(0) =~= Seq::empty());
            assert(texts_view(out@) =~= entry_origins(selected(self.entries@.take(0), p)));
        }
        while i < self.entries.len()
            invariant
                i <= self.entries@.len(),
                p == |a: AreasView| !a.is_empty(),
                texts_view(out@) == entry_origins(selected(self.entries@.take(i as int), p)),
            decreases self.entries@.len() - i,
        {
            let ghost before = out@;
            proof {
                lemma_selected_next(self.entries@, i as int, p);
            }
            if !self.entries[i].local.is_empty() || !self.entries[i].session.is_empty() {
                out.push(self.entries[i].origin.clone());
                assert(texts_view(out@) =~= texts_view(before).push(
                    self.entries@[i as int].origin@,
                ));
            }
            i = i + 1;
        }
        proof {
            assert(self.entries@.take(i as int) =~= self.entries@);
            lemma_selected(self.entries@, p);
            assert(self@.dom() =~= entry_origins(self.entries@).to_set());
            vstd::seq_lib::seq_to_set_is_finite(entry_origins(self.entries@));
            assert(self@.dom().filter(|o: Seq<char>| p(self@[o])) =~= self@.dom().filter(
                |o: Seq<char>| !self@[o].is_empty(),
            ));
        }
        out
    }

    /// Snapshot of every origin's `localStorage`, in byte order of the origins.
    pub fn snapshot_local(&self) -> (r: Vec<(String, Vec<(String, String)>)>)
        ensures
            snapshot_view(r@) == jar_local(self@),
            self@.dom().finite(),
    {
        proof {
            use_type_invariant(&*self);
        }
        let mut out: Vec<(String, Vec<(String, String)>)> = Vec::new();
        let mut i: usize = 0;
        while i < self.entries.len()
            invariant
                i <= self.entries@.len(),
                snapshot_view(out@) =~= self.entries@.take(i as int).map_values(
                    |x: OriginEntry| (x.origin@, x@.local),
                ),
            decreases self.entries@.len() - i,
        {
            let ghost before = out@;
            let local: Vec<(String, String)> = copy_items(&self.entries[i].local);
            out.push((self.entries[i].origin.clone(), local));
            assert(snapshot_view(out@) =~= snapshot_view(before).push(
                (self.entries@[i as int].origin@, self.entries@[i as int]@.local),
            ));
            i = i + 1;
        }
        proof {
            let e = self.entries@;
            assert(e.take(i as int) =~= e);
            lemma_sorted_texts(entry_origins(e));
            assert(entry_origins(e).to_set() =~= self@.dom());
            vstd::seq_lib::seq_to_set_is_finite(entry_origins(e));
            assert forall|k: int| 0 <= k < e.len() implies self@[(#[trigger] e[k]).origin@]
                == e[k]@ by {
                lemma_entry(e, k);
            }
            assert(snapshot_view(out@) =~= jar_local(self@));
        }
        out
    }

    /// Drops everything of one origin, both areas.
    pub fn clear_origin(&mut self, origin: &str)
        ensures
            final(self)@ == old(self)@.remove(origin@),
    {
        proof {
            use_type_invariant(&*self);
        }
        let mut entries: Vec<OriginEntry> = Vec::new();
        std::mem::swap(&mut entries, &mut self.entries);
        let (i, found) = locate(&entries, origin);
        if found {
            proof {
                lemma_entry_removed(entries@, i as int);
            }
            entries.remove(i);
        } else {
            assert(entries_map(entries@) =~= entries_map(entries@).remove(origin@));
        }
        self.entries = entries;
    }

    /// Drops everything.
    pub fn clear_all(&mut self)
        ensures
            final(self)@ == Map::<Seq<char>, AreasView>::empty(),
    {
        self.entries = Vec::new();
        assert(self@ =~= Map::<Seq<char>, AreasView>::empty());
    }

    /// Copies every area of `other` into this jar (used when forking a
    /// context). An origin that both know takes the areas of `other`.
    pub fn copy_from(&mut self, other: &StorageJar)
        ensures
            final(self)@ == old(self)@.union_prefer_right(other@),
    {
        proof {
            use_type_invariant(&*self);
            use_type_invariant(&*other);
        }
        let mut entries: Vec<OriginEntry> = Vec::new();
        std::mem::swap(&mut entries, &mut self.entries);
        let ghost first = entries_map(entries@);
        let mut k: usize = 0;
        assert(first.union_prefer_right(entries_map(other.entries@.take(0))) =~= first);
        while k < other.entries.len()
            invariant
                k <= other.entries@.len(),
                entries_sorted(other.entries@),
                entries_sorted(entries@),
                entries_map(entries@) == first.union_prefer_right(
                    entries_map(other.entries@.take(k as int)),
                ),
            decreases other.entries@.len() - k,
        {
            let ghost src = other.entries@;
            let i = entry_for(&mut entries, other.entries[k].origin.as_str());
            let ghost before = entries@;
            let local: Vec<(String, String)> = copy_items(&other.entries[k].local);
            let session: Vec<(String, String)> = copy_items(&other.entries[k].session);
            entries[i].local = local;
            entries[i].session = session;
            proof {
                lemma_entry_changed(before, i as int, entries@[i as int]);
                assert(entries@ =~= before.update(i as int, entries@[i as int]));
                lemma_taken_next(src, k as int);
                assert(entries@[i as int]@ =~= src[k as int]@);
                assert(entries_map(entries@) =~= first.union_prefer_right(
                    entries_map(src.take(k + 1)),
                ));
            }
            k = k + 1;
        }
        assert(other.entries@.take(k as int) =~= other.entries@);
        self.entries = entries;
    }

    /// What the storage file is to hold: `localStorage` only.
    pub fn persisted_origins(&self) -> (r: Vec<PersistedOrigin>)
        ensures
            persisted_view(r@) == jar_persisted(self@),
            self@.dom().finite(),
    {
        proof {
            use_type_invariant(&*self);
        }
        let ghost p = |a: AreasView| a.local.len() > 0;
        let ghost line = |x: OriginEntry| (x.origin@, x@.local);
        let mut out: Vec<PersistedOrigin> = Vec::new();
        let mut i: usize = 0;
        proof {
            reveal(Seq::filter);
            assert(self.entries@.take(0) =~= Seq::empty());
            assert(persisted_view(out@) =~= selected(self.entries@.take(0), p).map_values(line));
        }
        while i < self.entries.len()
            invariant
                i <= self.entries@.len(),
                p == |a: AreasView| a.local.len() > 0,
                line == |x: OriginEntry| (x.origin@, x@.local),
                persisted_view(out@) == selected(self.entries@.take(i as int), p).map_values(line),
            decreases self.entries@.len() - i,
        {
            let ghost before = out@;
            let ghost kept = selected(self.entries@.take(i as int), p);
            proof {
                lemma_selected_next(self.entries@, i as int, p);
            }
            if !self.entries[i].local.is_empty() {
                let local_storage: Vec<PersistedItem> = persist_items(&self.entries[i].local);
                let origin: String = self.entries[i].origin.clone();
                out.push(PersistedOrigin { origin, local_storage });
                assert(persisted_view(out@) =~= persisted_view(before).push(
                    line(self.entries@[i as int]),
                ));
                assert(kept.push(self.entries@[i as int]).map_values(line) =~= kept.map_values(
                    line,
                ).push(line(self.entries@[i as int])));
            }
            i = i + 1;
        }
        proof {
            let e = self.entries@;
            assert(e.take(i as int) =~= e);
            lemma_selected(e, p);
            assert(self@.dom() =~= entry_origins(e).to_set());
            vstd::seq_lib::seq_to_set_is_finite(entry_origins(e));
            assert(self@.dom().filter(|o: Seq<char>| p(self@[o])) =~= self@.dom().filter(
                |o: Seq<char>| self@[o].local.len() > 0,
            ));
            let kept = selected(e, p);
            let names = sorted_texts(self@.dom().filter(|o: Seq<char>| self@[o].local.len() > 0));
            assert(names =~= entry_origins(kept));
            assert forall|k: int| 0 <= k < kept.len() implies self@[(#[trigger] kept[k]).origin@]
                == kept[k]@ by {}
            assert(persisted_view(out@) =~= jar_persisted(self@));
        }
        out
    }

    /// Merges the entries of a storage file into whatever is already held.
    /// Returns the number of items taken, as far as a `usize` can tell.
    pub fn load_persisted(&mut self, saved: &Vec<PersistedOrigin>) -> (count: usize)
        ensures
            final(self)@ == load_entries(old(self)@, persisted_view(saved@)).0,
            count == if load_entries(old(self)@, persisted_view(saved@)).1 <= usize::MAX {
                load_entries(old(self)@, persisted_view(saved@)).1 as int
            } else {
                usize::MAX as int
            },
    {
        let ghost entries = persisted_view(saved@);
        let ghost first = self@;
        let mut count: usize = 0;
        let mut i: usize = 0;
        while i < saved.len()
            invariant
                i <= saved@.len(),
                entries == persisted_view(saved@),
                self@ == load_entries(first, entries.take(i as int)).0,
                count == if load_entries(first, entries.take(i as int)).1 <= usize::MAX {
                    load_entries(first, entries.take(i as int)).1 as int
                } else {
                    usize::MAX as int
                },
            decreases saved@.len() - i,
        {
            let more: usize = self.load_origin(&saved[i]);
            proof {
                assert(entries.take(i + 1).drop_last() =~= entries.take(i as int));
                assert(entries.take(i + 1).last() == saved@[i as int]@);
            }
            count = count.saturating_add(more);
            i = i + 1;
        }
        assert(entries.take(i as int) =~= entries);
        count
    }

    fn load_origin(&mut self, saved: &PersistedOrigin) -> (count: usize)
        ensures
            final(self)@ == load_items(old(self)@, saved@.0, saved@.1).0,
            count == if load_items(old(self)@, saved@.0, saved@.1).1 <= usize::MAX {
                load_items(old(self)@, saved@.0, saved@.1).1 as int
            } else {
                usize::MAX as int
            },
    {
        let ghost items = saved@.1;
        let ghost first = self@;
        let mut count: usize = 0;
        let mut i: usize = 0;
        while i < saved.local_storage.len()
            invariant
                i <= saved.local_storage@.len(),
                items == persisted_items_view(saved.local_storage@),
                self@ == load_items(first, saved.origin@, items.take(i as int)).0,
                count == if load_items(first, saved.origin@, items.take(i as int)).1
                    <= usize::MAX {
                    load_items(first, saved.origin@, items.take(i as int)).1 as int
                } else {
                    usize::MAX as int
                },
            decreases saved.local_storage@.len() - i,
        {
            proof {
                assert(items.take(i + 1).drop_last() =~= items.take(i as int));
                assert(items.take(i + 1).last() == items[i as int]);
            }
            let item: &PersistedItem = &saved.local_storage[i];
            match self.set_item(
                saved.origin.as_str(),
                StorageArea::Local,
                item.name.as_str(),
                item.value.as_str(),
            ) {
                Ok(_) => {
                    count = count.saturating_add(1);
                },
                Err(_) => {},
            }
            i = i + 1;
        }
        assert(items.take(i as int) =~= items);
        count
    }
}

} // verus!
