//! One Web Storage area: an ordered list of key/value items.
use crate::text::text_eq;
use vstd::prelude::*;
use vstd::utf8::encode_utf8;

verus! {

/// Per-origin, per-area byte budget. Chrome enforces about 5 MiB, so a page
/// that probes its quota sees a browser-shaped answer.
pub const QUOTA_BYTES: usize = 5_242_880;

/// The items of an area as texts, in insertion order.
pub type Items = Seq<(Seq<char>, Seq<char>)>;

/// The texts that a list of string pairs holds.
pub open spec fn items_view(v: Seq<(String, String)>) -> Items {
    v.map_values(|p: (String, String)| (p.0@, p.1@))
}

/// Where `key` first stands in `items`.
pub open spec fn first_index(items: Items, key: Seq<char>) -> Option<int>
    decreases items.len(),
{
    if items.len() == 0 {
        None
    } else {
        match first_index(items.drop_last(), key) {
            Some(i) => Some(i),
            None => if items.last().0 == key {
                Some(items.len() - 1)
            } else {
                None
            },
        }
    }
}

/// The value that reading `key` gives: that of its first item.
pub open spec fn item_value(items: Items, key: Seq<char>) -> Option<Seq<char>> {
    match first_index(items, key) {
        Some(i) => Some(items[i].1),
        None => None,
    }
}

/// Bytes of a text in UTF-8.
pub open spec fn text_bytes(s: Seq<char>) -> nat {
    encode_utf8(s).len()
}

/// Bytes that an item counts against the quota.
pub open spec fn item_bytes(item: (Seq<char>, Seq<char>)) -> nat {
    text_bytes(item.0) + text_bytes(item.1)
}

/// Bytes that an area counts against the quota.
pub open spec fn items_bytes(items: Items) -> nat
    decreases items.len(),
{
    if items.len() == 0 {
        0
    } else {
        items_bytes(items.drop_last()) + item_bytes(items.last())
    }
}

/// Whether the quota lets `key` be set to `value`: a write that does not grow
/// the area always passes, one that does must leave it within the budget.
pub open spec fn set_fits(items: Items, key: Seq<char>, value: Seq<char>) -> bool {
    let new = item_bytes((key, value)) as int;
    let old = match first_index(items, key) {
        Some(i) => item_bytes(items[i]) as int,
        None => 0,
    };
    new <= old || items_bytes(items) + (new - old) <= QUOTA_BYTES
}

/// `items` after `key` is set to `value`: a known key keeps its position, a
/// new one goes to the end.
pub open spec fn items_set(items: Items, key: Seq<char>, value: Seq<char>) -> Items {
    match first_index(items, key) {
        Some(i) => items.update(i, (key, value)),
        None => items.push((key, value)),
    }
}

/// `items` without every item under `key`.
pub open spec fn items_remove(items: Items, key: Seq<char>) -> Items {
    items.filter(|p: (Seq<char>, Seq<char>)| p.0 != key)
}

/// No key stands twice.
pub open spec fn unique_keys(items: Items) -> bool {
    forall|i: int, j: int|
        0 <= i < j < items.len() ==> (#[trigger] items[i]).0 != (#[trigger] items[j]).0
}

/// An area as page script can make it: no key twice, and within the budget.
pub open spec fn tidy(items: Items) -> bool {
    unique_keys(items) && items_bytes(items) <= QUOTA_BYTES
}

/// What [`first_index`] finds is the first item under the key, and it finds
/// one wherever there is one.
pub proof fn lemma_first_index(items: Items, key: Seq<char>)
    ensures
        match first_index(items, key) {
            Some(i) => 0 <= i < items.len() && items[i].0 == key && forall|j: int|
                0 <= j < i ==> (#[trigger] items[j]).0 != key,
            None => forall|j: int| 0 <= j < items.len() ==> (#[trigger] items[j]).0 != key,
        },
    decreases items.len(),
{
    if items.len() > 0 {
        let front = items.drop_last();
        lemma_first_index(front, key);
        assert forall|j: int| 0 <= j < front.len() implies front[j] == #[trigger] items[j] by {}
    }
}

/// Only one position is the first under a key.
pub proof fn lemma_first_index_is(items: Items, key: Seq<char>, i: int)
    requires
        0 <= i < items.len(),
        items[i].0 == key,
        forall|j: int| 0 <= j < i ==> (#[trigger] items[j]).0 != key,
    ensures
        first_index(items, key) == Some(i),
{
    lemma_first_index(items, key);
}

pub proof fn lemma_items_bytes_push(items: Items, item: (Seq<char>, Seq<char>))
    ensures
        items_bytes(items.push(item)) == items_bytes(items) + item_bytes(item),
{
    assert(items.push(item).drop_last() =~= items);
}

pub proof fn lemma_items_bytes_update(items: Items, i: int, item: (Seq<char>, Seq<char>))
    requires
        0 <= i < items.len(),
    ensures
        items_bytes(items.update(i, item)) == items_bytes(items) - item_bytes(items[i])
            + item_bytes(item),
        item_bytes(items[i]) <= items_bytes(items),
    decreases items.len(),
{
    let changed = items.update(i, item);
    if i == items.len() - 1 {
        assert(changed.drop_last() =~= items.drop_last());
    } else {
        assert(changed.drop_last() =~= items.drop_last().update(i, item));
        lemma_items_bytes_update(items.drop_last(), i, item);
    }
}

pub proof fn lemma_items_bytes_remove(items: Items, key: Seq<char>)
    ensures
        items_bytes(items_remove(items, key)) <= items_bytes(items),
    decreases items.len(),
{
    reveal(Seq::filter);
    if items.len() > 0 {
        lemma_items_bytes_remove(items.drop_last(), key);
        let rest = items_remove(items.drop_last(), key);
        lemma_items_bytes_push(rest, items.last());
    }
}

/// Where `key` first stands in `a`.
pub fn find_key(a: &Vec<(String, String)>, key: &str) -> (r: Option<usize>)
    ensures
        match r {
            Some(i) => i < a@.len() && first_index(items_view(a@), key@) == Some(i as int),
            None => first_index(items_view(a@), key@) is None,
        },
{
    let ghost items = items_view(a@);
    let mut i: usize = 0;
    while i < a.len()
        invariant
            i <= a@.len(),
            items == items_view(a@),
            forall|j: int| 0 <= j < i ==> (#[trigger] items[j]).0 != key@,
        decreases a@.len() - i,
    {
        if text_eq(a[i].0.as_str(), key) {
            proof {
                lemma_first_index_is(items, key@, i as int);
            }
            return Some(i);
        }
        i = i + 1;
    }
    proof {
        lemma_first_index(items, key@);
    }
    None
}

/// Bytes of a string in UTF-8.
fn byte_len(s: &str) -> (r: usize)
    ensures
        r == text_bytes(s@),
{
    s.as_bytes().len()
}

/// Bytes that an area counts against the quota, as far as a `usize` can tell.
pub fn area_bytes(a: &Vec<(String, String)>) -> (r: usize)
    ensures
        r == if items_bytes(items_view(a@)) <= usize::MAX {
            items_bytes(items_view(a@)) as int
        } else {
            usize::MAX as int
        },
{
    let ghost items = items_view(a@);
    let mut total: usize = 0;
    let mut i: usize = 0;
    while i < a.len()
        invariant
            i <= a@.len(),
            items == items_view(a@),
            total == if items_bytes(items.take(i as int)) <= usize::MAX {
                items_bytes(items.take(i as int)) as int
            } else {
                usize::MAX as int
            },
        decreases a@.len() - i,
    {
        proof {
            assert(items.take(i + 1) =~= items.take(i as int).push(items[i as int]));
            lemma_items_bytes_push(items.take(i as int), items[i as int]);
        }
        total = total.saturating_add(byte_len(a[i].0.as_str())).saturating_add(
            byte_len(a[i].1.as_str()),
        );
        i = i + 1;
    }
    assert(items.take(i as int) =~= items);
    total
}

/// Sets `key` to `value` if the quota allows it; says whether it did. A write
/// over the quota leaves the items as they were.
pub fn set_in_area(a: &mut Vec<(String, String)>, key: &str, value: &str) -> (r: bool)
    ensures
        r == set_fits(items_view(old(a)@), key@, value@),
        items_view(final(a)@) == if r {
            items_set(items_view(old(a)@), key@, value@)
        } else {
            items_view(old(a)@)
        },
{
    let ghost items = items_view(a@);
    let key_len: usize = byte_len(key);
    let value_len: usize = byte_len(value);
    match find_key(a, key) {
        Some(i) => {
            proof {
                lemma_first_index(items, key@);
                lemma_items_bytes_update(items, i as int, (key@, value@));
            }
            let old_len: usize = byte_len(a[i].1.as_str());
            if value_len > old_len && area_bytes(a).saturating_add(value_len - old_len)
                > QUOTA_BYTES {
                return false;
            }
            let name: String = a[i].0.clone();
            a.set(i, (name, value.to_owned()));
            assert(items_view(a@) =~= items.update(i as int, (key@, value@)));
            true
        },
        None => {
            if (key_len > 0 || value_len > 0) && area_bytes(a).saturating_add(
                key_len,
            ).saturating_add(value_len) > QUOTA_BYTES {
                return false;
            }
            a.push((key.to_owned(), value.to_owned()));
            assert(items_view(a@) =~= items.push((key@, value@)));
            true
        },
    }
}

/// Removes every item under `key`.
pub fn remove_from_area(a: &Vec<(String, String)>, key: &str) -> (r: Vec<(String, String)>)
    ensures
        items_view(r@) == items_remove(items_view(a@), key@),
{
    let ghost items = items_view(a@);
    let ghost keep = |p: (Seq<char>, Seq<char>)| p.0 != key@;
    let mut out: Vec<(String, String)> = Vec::new();
    let mut i: usize = 0;
    assert(items.take(0) =~= Seq::empty());
    assert(items_view(out@) =~= Seq::empty());
    proof {
        reveal(Seq::filter);
    }
    while i < a.len()
        invariant
            i <= a@.len(),
            items == items_view(a@),
            keep == |p: (Seq<char>, Seq<char>)| p.0 != key@,
            items_view(out@) == items.take(i as int).filter(keep),
        decreases a@.len() - i,
    {
        let ghost before = out@;
        proof {
            reveal(Seq::filter);
            assert(items.take(i + 1).drop_last() =~= items.take(i as int));
        }
        if !text_eq(a[i].0.as_str(), key) {
            out.push((a[i].0.clone(), a[i].1.clone()));
            assert(items_view(out@) =~= items_view(before).push(items[i as int]));
        }
        i = i + 1;
    }
    assert(items.take(i as int) =~= items);
    out
}

/// A copy of an area.
pub fn copy_items(a: &Vec<(String, String)>) -> (r: Vec<(String, String)>)
    ensures
        items_view(r@) == items_view(a@),
{
    let mut out: Vec<(String, String)> = Vec::new();
    let mut i: usize = 0;
    while i < a.len()
        invariant
            i <= a@.len(),
            items_view(out@) == items_view(a@).take(i as int),
        decreases a@.len() - i,
    {
        let ghost before = out@;
        out.push((a[i].0.clone(), a[i].1.clone()));
        assert(items_view(out@) =~= items_view(before).push(items_view(a@)[i as int]));
        assert(items_view(a@).take(i + 1) =~= items_view(a@).take(i as int).push(
            items_view(a@)[i as int],
        ));
        i = i + 1;
    }
    assert(items_view(a@).take(i as int) =~= items_view(a@));
    out
}

} // verus!
