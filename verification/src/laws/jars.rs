//! Laws of Web Storage jars, item by item and entry by entry.
use crate::items::{
    item_value, items_bytes, items_remove, items_set, lemma_first_index,
    lemma_first_index_is, lemma_items_bytes_push, set_fits, Items,
};
use crate::laws::storage::law_refused_just_over_budget;
use crate::storage::{
    area_named, jar_items, jar_local, jar_origins, jar_persisted, jar_set, jar_with,
    lemma_jar_origins, load_entries, load_items, JarView, StorageArea,
};
use crate::text::{lemma_sorted_texts_of, sorted_texts, text_before};
use vstd::prelude::*;
use vstd::utf8::encode_utf8;

verus! {

/// The items of an area are those that the jar holds for its origin; an origin
/// that was never written to has none.
pub proof fn law_items_are_those_of_the_origin(jar: JarView, origin: Seq<char>)
    ensures
        jar.contains_key(origin) ==> jar_items(jar, origin, StorageArea::Local)
            == jar[origin].local,
        jar.contains_key(origin) ==> jar_items(jar, origin, StorageArea::Session)
            == jar[origin].session,
        !jar.contains_key(origin) ==> jar_items(jar, origin, StorageArea::Local).len() == 0,
        !jar.contains_key(origin) ==> jar_items(jar, origin, StorageArea::Session).len() == 0,
{
}

/// Reading a key gives the value of the first item under it, and nothing where
/// there is none.
pub proof fn law_first_item_is_read(items: Items, key: Seq<char>, i: int)
    requires
        0 <= i <= items.len(),
        forall|j: int| 0 <= j < i ==> (#[trigger] items[j]).0 != key,
    ensures
        i < items.len() && items[i].0 == key ==> item_value(items, key) == Some(items[i].1),
        i == items.len() ==> item_value(items, key) is None,
{
    lemma_first_index(items, key);
    if i < items.len() && items[i].0 == key {
        lemma_first_index_is(items, key, i);
    }
}

/// Setting a key changes the first item under it and no other; where there is
/// none, the new item goes to the end.
pub proof fn law_set_changes_one_item(items: Items, key: Seq<char>, value: Seq<char>, i: int)
    requires
        0 <= i <= items.len(),
        forall|j: int| 0 <= j < i ==> (#[trigger] items[j]).0 != key,
    ensures
        i < items.len() && items[i].0 == key ==> items_set(items, key, value) == items.take(i).push(
            (key, value),
        ) + items.skip(i + 1),
        i == items.len() ==> items_set(items, key, value) == items.push((key, value)),
{
    lemma_first_index(items, key);
    if i < items.len() && items[i].0 == key {
        lemma_first_index_is(items, key, i);
        assert(items_set(items, key, value) =~= items.take(i).push((key, value)) + items.skip(
            i + 1,
        ));
    }
}

/// The bytes of an area are those of its keys and values in UTF-8.
pub proof fn law_bytes_are_counted(items: Items, item: (Seq<char>, Seq<char>))
    ensures
        items_bytes(Seq::empty()) == 0,
        items_bytes(items.push(item)) == items_bytes(items) + encode_utf8(item.0).len()
            + encode_utf8(item.1).len(),
{
    lemma_items_bytes_push(items, item);
}

/// A write is refused just when it would leave the area larger than it was and
/// larger than 5 MiB.
pub proof fn law_five_mebibytes(items: Items, key: Seq<char>, value: Seq<char>)
    ensures
        set_fits(items, key, value) <==> items_bytes(items_set(items, key, value)) <= items_bytes(
            items,
        ) || items_bytes(items_set(items, key, value)) <= 5 * 1024 * 1024,
{
    law_refused_just_over_budget(items, key, value);
}

/// A write changes its area alone: the item is set there if the quota lets it,
/// the origin is known from then on, and everything else stays.
pub proof fn law_write_changes_its_area(
    jar: JarView,
    origin: Seq<char>,
    area: StorageArea,
    key: Seq<char>,
    value: Seq<char>,
    other: Seq<char>,
)
    ensures
        ({
            let items = jar_items(jar, origin, area);
            let after = jar_set(jar, origin, area, key, value);
            &&& after.dom() == jar.dom().insert(origin)
            &&& set_fits(items, key, value) ==> jar_items(after, origin, area) == items_set(
                items,
                key,
                value,
            )
            &&& !set_fits(items, key, value) ==> jar_items(after, origin, area) == items
            &&& area is Local ==> jar_items(after, origin, StorageArea::Session) == jar_items(
                jar,
                origin,
                StorageArea::Session,
            )
            &&& area is Session ==> jar_items(after, origin, StorageArea::Local) == jar_items(
                jar,
                origin,
                StorageArea::Local,
            )
            &&& other != origin && jar.contains_key(other) ==> after[other] == jar[other]
        }),
{
    assert(jar_set(jar, origin, area, key, value).dom() =~= jar.dom().insert(origin));
}

/// Replacing an area gives it just these items and leaves everything else as it
/// was.
pub proof fn law_replaced_area_has_just_these_items(
    jar: JarView,
    origin: Seq<char>,
    area: StorageArea,
    items: Items,
    other: Seq<char>,
)
    ensures
        ({
            let after = jar_with(jar, origin, area, items);
            &&& after.dom() == jar.dom().insert(origin)
            &&& area is Local ==> after[origin].local == items && after[origin].session
                == jar_items(jar, origin, StorageArea::Session)
            &&& area is Session ==> after[origin].session == items && after[origin].local
                == jar_items(jar, origin, StorageArea::Local)
            &&& other != origin && jar.contains_key(other) ==> after[other] == jar[other]
        }),
{
    assert(jar_with(jar, origin, area, items).dom() =~= jar.dom().insert(origin));
}

/// Removing a key looks at one item after the other: those under the key go,
/// each of the others keeps its place among them.
pub proof fn law_removing_keeps_the_order(
    items: Items,
    item: (Seq<char>, Seq<char>),
    key: Seq<char>,
)
    ensures
        items_remove(Seq::empty(), key).len() == 0,
        items_remove(items.push(item), key) == if item.0 == key {
            items_remove(items, key)
        } else {
            items_remove(items, key).push(item)
        },
{
    reveal(Seq::filter);
    assert(items.push(item).drop_last() =~= items);
}

/// The list of origins names just those with an item in either area, each once,
/// in byte order.
pub proof fn law_origins_with_items_are_listed(jar: JarView, origin: Seq<char>, i: int, j: int)
    requires
        jar.dom().finite(),
    ensures
        jar_origins(jar).contains(origin) <==> jar_items(jar, origin, StorageArea::Local).len() > 0
            || jar_items(jar, origin, StorageArea::Session).len() > 0,
        0 <= i < j < jar_origins(jar).len() ==> text_before(
            jar_origins(jar)[i],
            jar_origins(jar)[j],
        ),
{
    lemma_jar_origins(jar);
}

/// What the storage file holds: one entry for each origin with `localStorage`
/// items, in byte order, with just these items; a snapshot lists every known
/// origin in the same way.
pub proof fn law_saved_entries_are_the_local_items(
    jar: JarView,
    origin: Seq<char>,
    items: Items,
    i: int,
    j: int,
)
    requires
        jar.dom().finite(),
    ensures
        jar_persisted(jar).contains((origin, items)) <==> jar.contains_key(origin)
            && jar[origin].local == items && items.len() > 0,
        0 <= i < j < jar_persisted(jar).len() ==> text_before(
            jar_persisted(jar)[i].0,
            jar_persisted(jar)[j].0,
        ),
        jar_local(jar).contains((origin, items)) <==> jar.contains_key(origin)
            && jar[origin].local == items,
        0 <= i < j < jar_local(jar).len() ==> text_before(jar_local(jar)[i].0, jar_local(jar)[j].0),
{
    let set = jar.dom().filter(|o: Seq<char>| jar[o].local.len() > 0);
    lemma_sorted_texts_of(set);
    lemma_sorted_texts_of(jar.dom());
    lemma_listed(jar, sorted_texts(set), origin, items);
    lemma_listed(jar, sorted_texts(jar.dom()), origin, items);
}

proof fn lemma_listed(jar: JarView, keys: Seq<Seq<char>>, origin: Seq<char>, items: Items)
    ensures
        keys.map_values(|o: Seq<char>| (o, jar[o].local)).contains((origin, items))
            <==> keys.contains(origin) && jar[origin].local == items,
{
    let list = keys.map_values(|o: Seq<char>| (o, jar[o].local));
    if list.contains((origin, items)) {
        let k = list.index_of((origin, items));
        assert(keys[k] == origin);
    }
    if keys.contains(origin) && jar[origin].local == items {
        assert(list[keys.index_of(origin)] == (origin, items));
    }
}

/// A storage file is loaded entry by entry and item by item, each as script
/// would set it in `localStorage`; every item that the quota lets through is
/// counted.
pub proof fn law_loading_sets_item_by_item(
    jar: JarView,
    entries: Seq<(Seq<char>, Items)>,
    origin: Seq<char>,
    items: Items,
    key: Seq<char>,
    value: Seq<char>,
)
    ensures
        load_entries(jar, Seq::empty()) == (jar, 0nat),
        load_items(jar, origin, Seq::empty()) == (jar, 0nat),
        ({
            let (before, n) = load_entries(jar, entries);
            let (after, m) = load_items(before, origin, items);
            load_entries(jar, entries.push((origin, items))) == (after, n + m)
        }),
        ({
            let (before, n) = load_items(jar, origin, items);
            let fits = set_fits(jar_items(before, origin, StorageArea::Local), key, value);
            load_items(jar, origin, items.push((key, value))) == (
                jar_set(before, origin, StorageArea::Local, key, value),
                if fits {
                    n + 1
                } else {
                    n
                },
            )
        }),
{
    assert(entries.push((origin, items)).drop_last() =~= entries);
    assert(items.push((key, value)).drop_last() =~= items);
}

/// The names of the areas, in their short and their script form; nothing else
/// names one.
pub proof fn law_area_names(s: Seq<char>)
    ensures
        area_named(s) == Some(StorageArea::Local) <==> s == "local"@ || s == "localStorage"@,
        area_named(s) == Some(StorageArea::Session) <==> s == "session"@ || s == "sessionStorage"@,
{
    reveal_strlit("local");
    reveal_strlit("localStorage");
    reveal_strlit("session");
    reveal_strlit("sessionStorage");
    assert("local"@.len() == 5 && "localStorage"@.len() == 12);
    assert("session"@.len() == 7 && "sessionStorage"@.len() == 14);
}

} // verus!
