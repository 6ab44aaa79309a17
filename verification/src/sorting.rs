//! Stable ordering of records by a text or a number, as a list of places.

use crate::text::{chars_of, lemma_text_le_total, text_le, text_precedes};
use vstd::prelude::*;

verus! {

pub open spec fn texts(items: Seq<String>) -> Seq<Seq<char>> {
    Seq::new(items.len(), |i: int| items[i]@)
}

/// Where the record with key `key` goes among the records listed in
/// `order`: behind every record whose key does not come after `key`.
pub open spec fn text_place(keys: Seq<Seq<char>>, order: Seq<int>, key: Seq<char>, i: int) -> int
    decreases order.len() - i,
{
    if 0 <= i < order.len() && 0 <= order[i] < keys.len() && text_le(keys[order[i]], key) {
        text_place(keys, order, key, i + 1)
    } else {
        i
    }
}

/// The places of the first `n` records in the order of their keys: the
/// record at `result[0]` comes first. Records with one key stay in the
/// order in which they came.
pub open spec fn text_order(keys: Seq<Seq<char>>, n: nat) -> Seq<int>
    decreases n,
{
    if n == 0 || n > keys.len() {
        seq![]
    } else {
        let before = text_order(keys, (n - 1) as nat);
        before.insert(text_place(keys, before, keys[n - 1], 0), n - 1)
    }
}

pub open spec fn places(v: Seq<usize>) -> Seq<int> {
    Seq::new(v.len(), |i: int| v[i] as int)
}

/// The order of records by their text keys.
pub fn order_by_text(keys: &Vec<String>) -> (order: Vec<usize>)
    ensures
        places(order@) == text_order(texts(keys@), keys@.len()),
        order.len() == keys.len(),
        forall|i: int| 0 <= i < order.len() ==> order@[i] < keys.len(),
{
    let mut order: Vec<usize> = Vec::new();
    let mut n: usize = 0;
    assert(places(order@) =~= text_order(texts(keys@), 0));
    while n < keys.len()
        invariant
            n <= keys.len(),
            places(order@) == text_order(texts(keys@), n as nat),
            order.len() == n,
            forall|i: int| 0 <= i < order.len() ==> order@[i] < n,
        decreases keys.len() - n,
    {
        let key = chars_of(keys[n].as_str());
        assert(texts(keys@)[n as int] == key@);
        let ghost before = places(order@);
        let mut p: usize = 0;
        while p < order.len() && key_not_after(keys, order[p], key.as_slice())
            invariant
                p <= order.len(),
                order.len() == n,
                n < keys.len(),
                before == places(order@),
                forall|i: int| 0 <= i < order.len() ==> order@[i] < n,
                text_place(texts(keys@), before, key@, 0) == text_place(
                    texts(keys@),
                    before,
                    key@,
                    p as int,
                ),
            decreases order.len() - p,
        {
            assert(before[p as int] == order@[p as int]);
            p += 1;
        }
        assert(p < order.len() ==> before[p as int] == order@[p as int]);
        order.insert(p, n);
        assert(places(order@) =~= before.insert(p as int, n as int));
        n += 1;
    }
    order
}

fn key_not_after(keys: &Vec<String>, place: usize, key: &[char]) -> (r: bool)
    requires
        place < keys.len(),
    ensures
        r == text_le(texts(keys@)[place as int], key@),
{
    let other = chars_of(keys[place].as_str());
    text_precedes(other.as_slice(), key)
}

/// Where the record with value `value` goes among the records listed in
/// `order`, largest first: behind every record whose value is not smaller.
pub open spec fn desc_place(values: Seq<i64>, order: Seq<int>, value: i64, i: int) -> int
    decreases order.len() - i,
{
    if 0 <= i < order.len() && 0 <= order[i] < values.len() && values[order[i]] >= value {
        desc_place(values, order, value, i + 1)
    } else {
        i
    }
}

/// The places of the first `n` records, largest value first. Records with
/// one value stay in the order in which they came.
pub open spec fn desc_order(values: Seq<i64>, n: nat) -> Seq<int>
    decreases n,
{
    if n == 0 || n > values.len() {
        seq![]
    } else {
        let before = desc_order(values, (n - 1) as nat);
        before.insert(desc_place(values, before, values[n - 1], 0), n - 1)
    }
}

/// The order of records by their values, largest first.
pub fn order_descending(values: &Vec<i64>) -> (order: Vec<usize>)
    ensures
        places(order@) == desc_order(values@, values@.len()),
        order.len() == values.len(),
        forall|i: int| 0 <= i < order.len() ==> order@[i] < values.len(),
{
    let mut order: Vec<usize> = Vec::new();
    let mut n: usize = 0;
    assert(places(order@) =~= desc_order(values@, 0));
    while n < values.len()
        invariant
            n <= values.len(),
            places(order@) == desc_order(values@, n as nat),
            order.len() == n,
            forall|i: int| 0 <= i < order.len() ==> order@[i] < n,
        decreases values.len() - n,
    {
        let value = values[n];
        let ghost before = places(order@);
        let mut p: usize = 0;
        while p < order.len() && values[order[p]] >= value
            invariant
                p <= order.len(),
                order.len() == n,
                n < values.len(),
                value == values@[n as int],
                before == places(order@),
                forall|i: int| 0 <= i < order.len() ==> order@[i] < n,
                desc_place(values@, before, value, 0) == desc_place(
                    values@,
                    before,
                    value,
                    p as int,
                ),
            decreases order.len() - p,
        {
            assert(before[p as int] == order@[p as int]);
            p += 1;
        }
        assert(p < order.len() ==> before[p as int] == order@[p as int]);
        order.insert(p, n);
        assert(places(order@) =~= before.insert(p as int, n as int));
        n += 1;
    }
    order
}

/// The texts in the order of `str`, each once.
pub open spec fn sorted_unique(items: Seq<Seq<char>>) -> Seq<Seq<char>> {
    without_repeats(in_order(items, text_order(items, items.len())))
}

/// The records at the places that an order lists.
pub open spec fn in_order(items: Seq<Seq<char>>, order: Seq<int>) -> Seq<Seq<char>> {
    Seq::new(order.len(), |i: int| items[order[i]])
}

/// A list without the items that repeat the item before them.
pub open spec fn without_repeats(items: Seq<Seq<char>>) -> Seq<Seq<char>>
    decreases items.len(),
{
    if items.len() == 0 {
        items
    } else {
        let head = without_repeats(items.drop_last());
        if items.len() >= 2 && items[items.len() - 2] == items.last() {
            head
        } else {
            head.push(items.last())
        }
    }
}

/// Sorts texts and drops the repeats.
pub fn sort_and_dedup(items: &Vec<String>) -> (out: Vec<String>)
    ensures
        texts(out@) == sorted_unique(texts(items@)),
{
    let order = order_by_text(items);
    let ghost sorted = in_order(texts(items@), places(order@));
    let mut out: Vec<String> = Vec::new();
    let mut i: usize = 0;
    assert(texts(out@) =~= without_repeats(sorted.subrange(0, 0)));
    while i < order.len()
        invariant
            i <= order.len(),
            order.len() == items.len(),
            forall|k: int| 0 <= k < order.len() ==> order@[k] < items.len(),
            sorted == in_order(texts(items@), places(order@)),
            texts(out@) == without_repeats(sorted.subrange(0, i as int)),
        decreases order.len() - i,
    {
        let ghost after = sorted.subrange(0, i + 1);
        assert(after.drop_last() =~= sorted.subrange(0, i as int));
        let current = &items[order[i]];
        assert(after.last() == current@);
        let repeats = if i > 0 {
            let previous = &items[order[i - 1]];
            assert(after[i - 1] == previous@);
            crate::text::str_eq(previous.as_str(), current.as_str())
        } else {
            false
        };
        if !repeats {
            let ghost old_out = texts(out@);
            out.push(crate::text::text_of(current.as_str()));
            assert(texts(out@) =~= old_out.push(current@));
        }
        i += 1;
    }
    assert(sorted.subrange(0, sorted.len() as int) =~= sorted);
    out
}

/// Whether the records at the places that `order` lists stand in the order
/// of their keys.
pub open spec fn in_text_order(keys: Seq<Seq<char>>, order: Seq<int>) -> bool {
    forall|i: int|
        0 <= i && i + 1 < order.len() ==> text_le(
            #[trigger] keys[order[i]],
            keys[order[i + 1]],
        )
}

proof fn lemma_text_place(keys: Seq<Seq<char>>, order: Seq<int>, key: Seq<char>, i: int)
    requires
        0 <= i <= order.len(),
        forall|k: int| 0 <= k < order.len() ==> 0 <= #[trigger] order[k] < keys.len(),
    ensures
        i <= text_place(keys, order, key, i) <= order.len(),
        forall|k: int|
            i <= k < text_place(keys, order, key, i) ==> text_le(#[trigger] keys[order[k]], key),
        text_place(keys, order, key, i) < order.len() ==> !text_le(
            keys[order[text_place(keys, order, key, i)]],
            key,
        ),
    decreases order.len() - i,
{
    if i < order.len() && text_le(keys[order[i]], key) {
        lemma_text_place(keys, order, key, i + 1);
    }
}

proof fn lemma_insert_keeps_order(keys: Seq<Seq<char>>, before: Seq<int>, x: int)
    requires
        0 <= x < keys.len(),
        forall|k: int| 0 <= k < before.len() ==> 0 <= #[trigger] before[k] < keys.len(),
        in_text_order(keys, before),
    ensures
        in_text_order(keys, before.insert(text_place(keys, before, keys[x], 0), x)),
{
    let key = keys[x];
    let p = text_place(keys, before, key, 0);
    lemma_text_place(keys, before, key, 0);
    let after = before.insert(p, x);
    before.insert_ensures(p, x);
    assert forall|i: int| 0 <= i && i + 1 < after.len() implies text_le(
        #[trigger] keys[after[i]],
        keys[after[i + 1]],
    ) by {
        if i + 1 < p {
            assert(after[i] == before[i]);
            assert(after[i + 1] == before[i + 1]);
            assert(text_le(keys[before[i]], keys[before[i + 1]]));
        } else if i + 1 == p {
            assert(after[i] == before[i]);
            assert(after[p] == x);
            assert(text_le(keys[before[i]], key));
        } else if i == p {
            assert(after[p] == x);
            assert(after[p + 1] == before[p]);
            lemma_text_le_total(key, keys[before[p]]);
        } else {
            assert(after[(i - 1) + 1] == before[i - 1]);
            assert(after[i + 1] == before[i]);
            assert(text_le(keys[before[i - 1]], keys[before[(i - 1) + 1]]));
        }
    }
}

proof fn lemma_insert_keeps_members(before: Seq<int>, p: int, x: int, k: int)
    requires
        0 <= p <= before.len(),
        before.contains(k) || k == x,
    ensures
        before.insert(p, x).contains(k),
{
    let after = before.insert(p, x);
    before.insert_ensures(p, x);
    if k == x {
        assert(after[p] == k);
    } else {
        let j = choose|j: int| 0 <= j < before.len() && before[j] == k;
        if j < p {
            assert(after[j] == before[j]);
        } else {
            assert(after[j + 1] == before[j]);
        }
    }
}

/// An order lists each of the first `n` records, and lists them in the
/// order of their keys.
pub proof fn lemma_text_order_is_sorted(keys: Seq<Seq<char>>, n: nat)
    requires
        n <= keys.len(),
    ensures
        text_order(keys, n).len() == n,
        forall|i: int| 0 <= i < n ==> 0 <= #[trigger] text_order(keys, n)[i] < n,
        forall|k: int| 0 <= k < n ==> text_order(keys, n).contains(k),
        in_text_order(keys, text_order(keys, n)),
    decreases n,
{
    if n > 0 {
        let before = text_order(keys, (n - 1) as nat);
        lemma_text_order_is_sorted(keys, (n - 1) as nat);
        let p = text_place(keys, before, keys[n - 1], 0);
        lemma_text_place(keys, before, keys[n - 1], 0);
        before.insert_ensures(p, n - 1);
        lemma_insert_keeps_order(keys, before, n - 1);
        assert forall|k: int| 0 <= k < n implies text_order(keys, n).contains(k) by {
            lemma_insert_keeps_members(before, p, n - 1, k);
        }
    }
}

} // verus!
