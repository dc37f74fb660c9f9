//! Laws of Web Storage.
use crate::items::{
    first_index, item_bytes, item_value, items_bytes, items_remove, items_set, lemma_first_index,
    lemma_first_index_is, lemma_items_bytes_push, lemma_items_bytes_remove,
    lemma_items_bytes_update, set_fits, tidy, unique_keys, Items, QUOTA_BYTES,
};
use crate::storage::{
    jar_items, jar_origins, jar_persisted, jar_set, jar_with, lemma_jar_origins, load_entries,
    load_items, JarView, StorageArea,
};
use crate::text::{lemma_sorted_texts_of, lemma_text_order, sorted_texts, text_before};
use vstd::prelude::*;

verus! {

/// Where `key` stands in an area is the same before and after `key` is set,
/// and every other key keeps its place and value.
pub(crate) proof fn lemma_set(items: Items, key: Seq<char>, value: Seq<char>, other: Seq<char>)
    ensures
        item_value(items_set(items, key, value), key) == Some(value),
        other != key ==> first_index(items_set(items, key, value), other) == first_index(
            items,
            other,
        ),
        other != key ==> item_value(items_set(items, key, value), other) == item_value(
            items,
            other,
        ),
{
    let after = items_set(items, key, value);
    lemma_first_index(items, key);
    lemma_first_index(items, other);
    lemma_first_index(after, other);
    match first_index(items, key) {
        Some(i) => {
            lemma_first_index_is(after, key, i);
        },
        None => {
            lemma_first_index_is(after, key, items.len() as int);
        },
    }
    if other != key {
        match first_index(items, other) {
            Some(j) => {
                assert(after[j] == items[j]);
                assert forall|k: int| 0 <= k < j implies (#[trigger] after[k]).0 != other by {
                    assert(items[k].0 != other);
                }
                lemma_first_index_is(after, other, j);
            },
            None => {
                match first_index(after, other) {
                    Some(j) => {
                        if j < items.len() {
                            assert(items[j].0 != other);
                        }
                        assert(after[j].0 == key || after[j] == items[j]);
                    },
                    None => {},
                }
            },
        }
    }
}

/// What was set is what is read: once a write passes the quota, reading its key
/// gives its value.
pub proof fn law_set_then_get(
    jar: JarView,
    origin: Seq<char>,
    area: StorageArea,
    key: Seq<char>,
    value: Seq<char>,
)
    requires
        set_fits(jar_items(jar, origin, area), key, value),
    ensures
        item_value(jar_items(jar_set(jar, origin, area, key, value), origin, area), key) == Some(
            value,
        ),
{
    lemma_set(jar_items(jar, origin, area), key, value, key);
}

/// A write is seen under its own key, area and origin and nowhere else,
/// whether it passes or not.
pub proof fn law_set_is_isolated(
    jar: JarView,
    origin: Seq<char>,
    area: StorageArea,
    key: Seq<char>,
    value: Seq<char>,
    other_origin: Seq<char>,
    other_area: StorageArea,
    other_key: Seq<char>,
)
    requires
        (other_origin, other_area, other_key) != (origin, area, key),
    ensures
        item_value(
            jar_items(jar_set(jar, origin, area, key, value), other_origin, other_area),
            other_key,
        ) == item_value(jar_items(jar, other_origin, other_area), other_key),
        (other_origin, other_area) != (origin, area) ==> jar_items(
            jar_set(jar, origin, area, key, value),
            other_origin,
            other_area,
        ) == jar_items(jar, other_origin, other_area),
{
    lemma_set(jar_items(jar, origin, area), key, value, other_key);
}

/// Key order is insertion order: setting a key that is there keeps every key in
/// its position, setting a new one puts it behind all others.
pub proof fn law_order_is_stable(items: Items, key: Seq<char>, value: Seq<char>)
    ensures
        ({
            let keys = items.map_values(|i: (Seq<char>, Seq<char>)| i.0);
            let after = items_set(items, key, value).map_values(|i: (Seq<char>, Seq<char>)| i.0);
            if keys.contains(key) {
                after == keys
            } else {
                after == keys.push(key)
            }
        }),
{
    let keys = items.map_values(|i: (Seq<char>, Seq<char>)| i.0);
    let after = items_set(items, key, value).map_values(|i: (Seq<char>, Seq<char>)| i.0);
    lemma_first_index(items, key);
    match first_index(items, key) {
        Some(i) => {
            assert(keys[i] == key);
            assert(after =~= keys);
        },
        None => {
            if keys.contains(key) {
                assert(items[keys.index_of(key)].0 == key);
            }
            assert(after =~= keys.push(key));
        },
    }
}

/// The quota is enforced: no write takes an area past the budget, or further
/// past it than it was.
pub proof fn law_quota_is_enforced(
    jar: JarView,
    origin: Seq<char>,
    area: StorageArea,
    key: Seq<char>,
    value: Seq<char>,
)
    ensures
        ({
            let before = items_bytes(jar_items(jar, origin, area));
            let after = items_bytes(
                jar_items(jar_set(jar, origin, area, key, value), origin, area),
            );
            after <= QUOTA_BYTES || after <= before
        }),
{
    let items = jar_items(jar, origin, area);
    if set_fits(items, key, value) {
        lemma_set_bytes(items, key, value);
    }
}

proof fn lemma_set_bytes(items: Items, key: Seq<char>, value: Seq<char>)
    ensures
        items_bytes(items_set(items, key, value)) == items_bytes(items) + item_bytes((key, value))
            - match first_index(items, key) {
            Some(i) => item_bytes(items[i]) as int,
            None => 0,
        },
{
    lemma_first_index(items, key);
    match first_index(items, key) {
        Some(i) => {
            lemma_items_bytes_update(items, i, (key, value));
        },
        None => {
            lemma_items_bytes_push(items, (key, value));
        },
    }
}

/// Writes that do not grow the area always pass, even in a full one.
pub proof fn law_shrinking_writes_pass(items: Items, key: Seq<char>, value: Seq<char>)
    requires
        first_index(items, key) is Some,
        item_bytes((key, value)) <= item_bytes(items[first_index(items, key)->0]),
    ensures
        set_fits(items, key, value),
{
}

/// A write is refused just when it grows the area and would leave it over the
/// budget.
pub proof fn law_refused_just_over_budget(items: Items, key: Seq<char>, value: Seq<char>)
    ensures
        !set_fits(items, key, value) <==> (items_bytes(items_set(items, key, value))
            > items_bytes(items) && items_bytes(items_set(items, key, value)) > QUOTA_BYTES),
{
    lemma_set_bytes(items, key, value);
}

/// A refused write changes no item anywhere.
pub proof fn law_refused_write_changes_nothing(
    jar: JarView,
    origin: Seq<char>,
    area: StorageArea,
    key: Seq<char>,
    value: Seq<char>,
    any_origin: Seq<char>,
    any_area: StorageArea,
)
    requires
        !set_fits(jar_items(jar, origin, area), key, value),
    ensures
        jar_items(jar_set(jar, origin, area, key, value), any_origin, any_area) == jar_items(
            jar,
            any_origin,
            any_area,
        ),
{
}

proof fn lemma_remove(items: Items, key: Seq<char>, other: Seq<char>)
    ensures
        item_value(items_remove(items, key), key) is None,
        other != key ==> item_value(items_remove(items, key), other) == item_value(items, other),
    decreases items.len(),
{
    reveal(Seq::filter);
    if items.len() > 0 {
        let front = items.drop_last();
        let kept = items_remove(front, key);
        lemma_remove(front, key, other);
        lemma_first_index(front, other);
        lemma_first_index(kept, other);
        lemma_first_index(kept, key);
        if items.last().0 != key {
            let after = items_remove(items, key);
            assert(after == kept.push(items.last()));
            assert(after.drop_last() =~= kept);
        }
    }
}

/// What was removed is gone, and only that.
pub proof fn law_remove_then_get(items: Items, key: Seq<char>, other: Seq<char>)
    ensures
        item_value(items_remove(items, key), key) is None,
        other != key ==> item_value(items_remove(items, key), other) == item_value(items, other),
{
    lemma_remove(items, key, other);
}

/// Replacing an area, and with it removing from it or clearing it, is seen in
/// that area and nowhere else.
pub proof fn law_areas_are_isolated(
    jar: JarView,
    origin: Seq<char>,
    area: StorageArea,
    items: Items,
    other_origin: Seq<char>,
    other_area: StorageArea,
)
    ensures
        jar_items(jar_with(jar, origin, area, items), origin, area) == items,
        (other_origin, other_area) != (origin, area) ==> jar_items(
            jar_with(jar, origin, area, items),
            other_origin,
            other_area,
        ) == jar_items(jar, other_origin, other_area),
{
}

/// Dropping an origin leaves it without items in both areas and out of the
/// list of origins; every other origin keeps its items.
pub proof fn law_clear_origin(jar: JarView, origin: Seq<char>, other: Seq<char>, area: StorageArea)
    requires
        jar.dom().finite(),
    ensures
        jar_items(jar.remove(origin), origin, StorageArea::Local).len() == 0,
        jar_items(jar.remove(origin), origin, StorageArea::Session).len() == 0,
        !jar_origins(jar.remove(origin)).contains(origin),
        other != origin ==> jar_items(jar.remove(origin), other, area) == jar_items(
            jar,
            other,
            area,
        ),
{
    lemma_jar_origins(jar.remove(origin));
}

proof fn lemma_set_unique(items: Items, key: Seq<char>, value: Seq<char>)
    requires
        unique_keys(items),
    ensures
        unique_keys(items_set(items, key, value)),
{
    lemma_first_index(items, key);
}

proof fn lemma_remove_unique(items: Items, key: Seq<char>)
    requires
        unique_keys(items),
    ensures
        unique_keys(items_remove(items, key)),
        forall|k: int|
            0 <= k < items_remove(items, key).len() ==> exists|j: int|
                0 <= j < items.len() && items[j] == #[trigger] items_remove(items, key)[k],
    decreases items.len(),
{
    reveal(Seq::filter);
    if items.len() > 0 {
        let front = items.drop_last();
        assert forall|i: int, j: int| 0 <= i < j < front.len() implies (#[trigger] front[i]).0 != (
        #[trigger] front[j]).0 by {
            assert(items[i].0 != items[j].0);
        }
        lemma_remove_unique(front, key);
        let past = items_remove(front, key);
        let now = items_remove(items, key);
        assert forall|k: int| 0 <= k < now.len() implies exists|j: int|
            0 <= j < items.len() && items[j] == #[trigger] now[k] by {
            if k < past.len() {
                let j = choose|j: int| 0 <= j < front.len() && front[j] == past[k];
                assert(items[j] == now[k]);
            } else {
                assert(items[items.len() - 1] == now[k]);
            }
        }
        assert forall|i: int, j: int| 0 <= i < j < now.len() implies (#[trigger] now[i]).0 != (
        #[trigger] now[j]).0 by {
            assert(now[i] == past[i]);
            if j < past.len() {
                assert(now[j] == past[j]);
            } else {
                let k = choose|k: int| 0 <= k < front.len() && front[k] == past[i];
                assert(items[k].0 != items[items.len() - 1].0);
            }
        }
    }
}

/// Areas that page script can make stay so: no key twice and within the
/// budget, whatever is set, removed or cleared.
pub proof fn law_areas_stay_tidy(items: Items, key: Seq<char>, value: Seq<char>)
    requires
        tidy(items),
    ensures
        set_fits(items, key, value) ==> tidy(items_set(items, key, value)),
        tidy(items_remove(items, key)),
        tidy(Seq::<(Seq<char>, Seq<char>)>::empty()),
{
    if set_fits(items, key, value) {
        lemma_set_unique(items, key, value);
        lemma_set_bytes(items, key, value);
    }
    lemma_remove_unique(items, key);
    lemma_items_bytes_remove(items, key);
}

/// Every area of a jar is such as page script can make it.
pub open spec fn tidy_jar(jar: JarView) -> bool {
    forall|o: Seq<char>, a: StorageArea| tidy(#[trigger] jar_items(jar, o, a))
}

/// Jars stay tidy under every write, removal, clearing and loading; only a
/// wholesale replacement can make one untidy.
pub proof fn law_jars_stay_tidy(
    jar: JarView,
    origin: Seq<char>,
    area: StorageArea,
    key: Seq<char>,
    value: Seq<char>,
    entries: Seq<(Seq<char>, Items)>,
)
    requires
        tidy_jar(jar),
    ensures
        tidy_jar(Map::empty()),
        tidy_jar(jar_set(jar, origin, area, key, value)),
        tidy_jar(
            jar_with(jar, origin, area, items_remove(jar_items(jar, origin, area), key)),
        ),
        tidy_jar(jar_with(jar, origin, area, Seq::empty())),
        tidy_jar(jar.remove(origin)),
        tidy_jar(load_entries(jar, entries).0),
{
    let items = jar_items(jar, origin, area);
    law_areas_stay_tidy(items, key, value);
    lemma_set_tidy(jar, origin, area, key, value);
    lemma_with_tidy(jar, origin, area, items_remove(items, key));
    lemma_with_tidy(jar, origin, area, Seq::empty());
    lemma_load_tidy(jar, entries);
    let without = jar.remove(origin);
    assert forall|o: Seq<char>, a: StorageArea| tidy(#[trigger] jar_items(without, o, a)) by {
        assert(tidy(jar_items(jar, o, a)));
    }
}

proof fn lemma_with_tidy(jar: JarView, origin: Seq<char>, area: StorageArea, items: Items)
    requires
        tidy_jar(jar),
        tidy(items),
    ensures
        tidy_jar(jar_with(jar, origin, area, items)),
{
    let after = jar_with(jar, origin, area, items);
    assert forall|o: Seq<char>, a: StorageArea| tidy(#[trigger] jar_items(after, o, a)) by {
        assert(tidy(jar_items(jar, o, a)));
    }
}

proof fn lemma_set_tidy(
    jar: JarView,
    origin: Seq<char>,
    area: StorageArea,
    key: Seq<char>,
    value: Seq<char>,
)
    requires
        tidy_jar(jar),
    ensures
        tidy_jar(jar_set(jar, origin, area, key, value)),
{
    let items = jar_items(jar, origin, area);
    law_areas_stay_tidy(items, key, value);
    if set_fits(items, key, value) {
        lemma_with_tidy(jar, origin, area, items_set(items, key, value));
    } else {
        lemma_with_tidy(jar, origin, area, items);
    }
}

proof fn lemma_load_tidy(jar: JarView, entries: Seq<(Seq<char>, Items)>)
    requires
        tidy_jar(jar),
    ensures
        tidy_jar(load_entries(jar, entries).0),
    decreases entries.len(),
{
    if entries.len() > 0 {
        lemma_load_tidy(jar, entries.drop_last());
        lemma_load_items_tidy(
            load_entries(jar, entries.drop_last()).0,
            entries.last().0,
            entries.last().1,
        );
    }
}

proof fn lemma_load_items_tidy(jar: JarView, origin: Seq<char>, items: Items)
    requires
        tidy_jar(jar),
    ensures
        tidy_jar(load_items(jar, origin, items).0),
    decreases items.len(),
{
    if items.len() > 0 {
        lemma_load_items_tidy(jar, origin, items.drop_last());
        lemma_set_tidy(
            load_items(jar, origin, items.drop_last()).0,
            origin,
            StorageArea::Local,
            items.last().0,
            items.last().1,
        );
    }
}

/// How many items the entries of a storage file list.
pub open spec fn listed_items(entries: Seq<(Seq<char>, Items)>) -> nat
    decreases entries.len(),
{
    if entries.len() == 0 {
        0
    } else {
        listed_items(entries.drop_last()) + entries.last().1.len()
    }
}

proof fn lemma_load_items(jar: JarView, origin: Seq<char>, items: Items)
    requires
        tidy(items),
        jar_items(jar, origin, StorageArea::Local).len() == 0,
    ensures
        jar_items(load_items(jar, origin, items).0, origin, StorageArea::Local) == items,
        forall|o: Seq<char>, a: StorageArea|
            (o, a) != (origin, StorageArea::Local) ==> #[trigger] jar_items(
                load_items(jar, origin, items).0,
                o,
                a,
            ) == jar_items(jar, o, a),
        load_items(jar, origin, items).1 == items.len(),
    decreases items.len(),
{
    if items.len() == 0 {
        assert(jar_items(jar, origin, StorageArea::Local) =~= items);
    } else {
        let front = items.drop_last();
        let last = items.last();
        assert forall|i: int, j: int| 0 <= i < j < front.len() implies (#[trigger] front[i]).0 != (
        #[trigger] front[j]).0 by {
            assert(items[i].0 != items[j].0);
        }
        lemma_load_items(jar, origin, front);
        let before = load_items(jar, origin, front).0;
        lemma_first_index(front, last.0);
        match first_index(front, last.0) {
            Some(i) => {
                assert(items[i].0 != items[items.len() - 1].0);
            },
            None => {},
        }
        assert(set_fits(front, last.0, last.1));
        assert(items_set(front, last.0, last.1) =~= items);
        let after = load_items(jar, origin, items).0;
        assert(after == jar_with(before, origin, StorageArea::Local, items));
        assert forall|o: Seq<char>, a: StorageArea|
            (o, a) != (origin, StorageArea::Local) implies #[trigger] jar_items(after, o, a)
            == jar_items(jar, o, a) by {
            assert(jar_items(before, o, a) == jar_items(jar, o, a));
        }
    }
}

proof fn lemma_load_entries(entries: Seq<(Seq<char>, Items)>)
    requires
        forall|i: int| 0 <= i < entries.len() ==> tidy((#[trigger] entries[i]).1),
        forall|i: int, j: int|
            0 <= i < j < entries.len() ==> (#[trigger] entries[i]).0 != (#[trigger] entries[j]).0,
    ensures
        forall|i: int|
            0 <= i < entries.len() ==> jar_items(
                load_entries(Map::empty(), entries).0,
                (#[trigger] entries[i]).0,
                StorageArea::Local,
            ) == entries[i].1,
        forall|o: Seq<char>|
            (forall|i: int| 0 <= i < entries.len() ==> (#[trigger] entries[i]).0 != o)
                ==> #[trigger] jar_items(
                load_entries(Map::empty(), entries).0,
                o,
                StorageArea::Local,
            ).len() == 0,
        forall|o: Seq<char>|
            #[trigger] jar_items(
                load_entries(Map::empty(), entries).0,
                o,
                StorageArea::Session,
            ).len() == 0,
        load_entries(Map::empty(), entries).1 == listed_items(entries),
    decreases entries.len(),
{
    if entries.len() > 0 {
        let front = entries.drop_last();
        let (origin, items) = entries.last();
        assert forall|i: int| 0 <= i < front.len() implies tidy((#[trigger] front[i]).1) by {
            assert(entries[i] == front[i]);
        }
        assert forall|i: int, j: int| 0 <= i < j < front.len() implies (#[trigger] front[i]).0 != (
        #[trigger] front[j]).0 by {
            assert(entries[i].0 != entries[j].0);
        }
        lemma_load_entries(front);
        let before = load_entries(Map::empty(), front).0;
        assert forall|i: int| 0 <= i < front.len() implies (#[trigger] front[i]).0 != origin by {
            assert(entries[i].0 != entries[entries.len() - 1].0);
        }
        assert(jar_items(before, origin, StorageArea::Local).len() == 0);
        assert(tidy(entries[entries.len() - 1].1));
        lemma_load_items(before, origin, items);
        let after = load_entries(Map::empty(), entries).0;
        assert(after == load_items(before, origin, items).0);
        assert forall|i: int| 0 <= i < entries.len() implies jar_items(
            after,
            (#[trigger] entries[i]).0,
            StorageArea::Local,
        ) == entries[i].1 by {
            if i < front.len() {
                assert(front[i].0 != origin);
            }
        }
        assert forall|o: Seq<char>|
            (forall|i: int| 0 <= i < entries.len() ==> (#[trigger] entries[i]).0
                != o) implies #[trigger] jar_items(after, o, StorageArea::Local).len() == 0 by {
            assert(entries[entries.len() - 1].0 != o);
            assert forall|i: int| 0 <= i < front.len() implies (#[trigger] front[i]).0 != o by {
                assert(entries[i].0 != o);
            }
            assert(jar_items(before, o, StorageArea::Local).len() == 0);
        }
        assert forall|o: Seq<char>|
            #[trigger] jar_items(after, o, StorageArea::Session).len() == 0 by {
            assert(jar_items(before, o, StorageArea::Session).len() == 0);
        }
    }
}

/// What is saved comes back: a jar that is loaded from what another one saved
/// has its `localStorage`, item for item and in order, and none of its
/// `sessionStorage`; every saved item is counted. The areas are such as page
/// script can make; items beyond the quota or under a key that stands twice can
/// only come from a wholesale replacement.
pub proof fn law_saved_storage_comes_back(jar: JarView)
    requires
        jar.dom().finite(),
        forall|o: Seq<char>| #[trigger] jar.contains_key(o) ==> tidy(jar[o].local),
    ensures
        ({
            let (loaded, count) = load_entries(Map::empty(), jar_persisted(jar));
            &&& forall|o: Seq<char>|
                #[trigger] jar_items(loaded, o, StorageArea::Local) == jar_items(
                    jar,
                    o,
                    StorageArea::Local,
                )
            &&& forall|o: Seq<char>|
                #[trigger] jar_items(loaded, o, StorageArea::Session).len() == 0
            &&& count == listed_items(jar_persisted(jar))
        }),
{
    let set = jar.dom().filter(|o: Seq<char>| jar[o].local.len() > 0);
    let keys = sorted_texts(set);
    let entries = jar_persisted(jar);
    lemma_sorted_texts_of(set);
    assert forall|i: int| 0 <= i < entries.len() implies tidy((#[trigger] entries[i]).1) by {
        assert(keys.contains(keys[i]));
    }
    assert forall|i: int, j: int| 0 <= i < j < entries.len() implies (#[trigger] entries[i]).0 != (
    #[trigger] entries[j]).0 by {
        assert(text_before(keys[i], keys[j]));
        lemma_text_order(keys[i], keys[j], keys[i]);
    }
    lemma_load_entries(entries);
    let loaded = load_entries(Map::empty(), entries).0;
    assert forall|o: Seq<char>|
        #[trigger] jar_items(loaded, o, StorageArea::Local) == jar_items(
            jar,
            o,
            StorageArea::Local,
        ) by {
        if set.contains(o) {
            assert(keys.contains(o));
            let i = keys.index_of(o);
            assert(entries[i] == (o, jar[o].local));
        } else {
            assert forall|i: int| 0 <= i < entries.len() implies (#[trigger] entries[i]).0 != o by {
                assert(keys.contains(keys[i]));
            }
            assert(jar_items(loaded, o, StorageArea::Local) =~= Seq::empty());
            assert(jar_items(jar, o, StorageArea::Local) =~= Seq::empty());
        }
    }
}

/// `sessionStorage` never reaches the storage file: jars that differ in it
/// alone save the same.
pub proof fn law_session_storage_is_not_saved(jar: JarView, other: JarView)
    requires
        jar.dom().finite(),
        jar.dom() == other.dom(),
        forall|o: Seq<char>| #[trigger] jar.contains_key(o) ==> jar[o].local == other[o].local,
    ensures
        jar_persisted(jar) == jar_persisted(other),
{
    let set = jar.dom().filter(|o: Seq<char>| jar[o].local.len() > 0);
    let others = other.dom().filter(|o: Seq<char>| other[o].local.len() > 0);
    assert(set =~= others);
    lemma_sorted_texts_of(set);
    let keys = sorted_texts(set);
    assert forall|i: int| 0 <= i < keys.len() implies #[trigger] jar_persisted(jar)[i]
        == jar_persisted(other)[i] by {
        assert(keys.contains(keys[i]));
    }
    assert(jar_persisted(jar) =~= jar_persisted(other));
}

/// A forked jar has the areas of its source, and an origin that the source does
/// not know keeps its own.
pub proof fn law_copy_takes_every_area(
    jar: JarView,
    source: JarView,
    origin: Seq<char>,
    area: StorageArea,
)
    ensures
        jar_items(jar.union_prefer_right(source), origin, area) == (if source.contains_key(origin) {
            jar_items(source, origin, area)
        } else {
            jar_items(jar, origin, area)
        }),
{
}

/// Loading merges: `sessionStorage` and the origins that the file does not
/// list stay as they are.
pub proof fn law_load_keeps_the_rest(
    jar: JarView,
    entries: Seq<(Seq<char>, Items)>,
    origin: Seq<char>,
)
    ensures
        jar_items(load_entries(jar, entries).0, origin, StorageArea::Session) == jar_items(
            jar,
            origin,
            StorageArea::Session,
        ),
        (forall|i: int| 0 <= i < entries.len() ==> (#[trigger] entries[i]).0 != origin)
            ==> jar_items(load_entries(jar, entries).0, origin, StorageArea::Local) == jar_items(
            jar,
            origin,
            StorageArea::Local,
        ),
    decreases entries.len(),
{
    if entries.len() > 0 {
        let front = entries.drop_last();
        law_load_keeps_the_rest(jar, front, origin);
        lemma_load_items_isolated(
            load_entries(jar, front).0,
            entries.last().0,
            entries.last().1,
            origin,
        );
        if forall|i: int| 0 <= i < entries.len() ==> (#[trigger] entries[i]).0 != origin {
            assert(entries[entries.len() - 1].0 != origin);
            assert forall|i: int| 0 <= i < front.len() implies (#[trigger] front[i]).0
                != origin by {
                assert(entries[i].0 != origin);
            }
        }
    }
}

proof fn lemma_load_items_isolated(
    jar: JarView,
    origin: Seq<char>,
    items: Items,
    other: Seq<char>,
)
    ensures
        jar_items(load_items(jar, origin, items).0, other, StorageArea::Session) == jar_items(
            jar,
            other,
            StorageArea::Session,
        ),
        other != origin ==> jar_items(
            load_items(jar, origin, items).0,
            other,
            StorageArea::Local,
        ) == jar_items(jar, other, StorageArea::Local),
    decreases items.len(),
{
    if items.len() > 0 {
        lemma_load_items_isolated(jar, origin, items.drop_last(), other);
    }
}

} // verus!
