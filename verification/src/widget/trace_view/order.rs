//! The order of a track's items: those with a recorded time first, by their
//! earliest coordinate, then the untimed ones; equal times by item id, and
//! equal keys in supplied order.

use vstd::prelude::*;

use crate::widget::trace_view::data::{timing_coords, TraceItem, TraceTiming};
use crate::widget::trace_view::layout::seq_min;

verus! {

/// The sort key of an item: whether it is untimed, its earliest recorded
/// coordinate (0 when untimed), and its id.
#[derive(Clone, Copy, Debug, PartialEq, Eq, Structural)]
pub struct ItemKey {
    pub untimed: bool,
    pub first: i64,
    pub id: u64,
}

/// The key of an item.
pub open spec fn item_key(it: TraceItem) -> ItemKey {
    let cs = timing_coords(it.timing);
    if cs.len() == 0 {
        ItemKey { untimed: true, first: 0, id: it.id.0 }
    } else {
        ItemKey { untimed: false, first: seq_min(cs), id: it.id.0 }
    }
}

/// The keys of a list of items, in order.
pub open spec fn keys_of(s: Seq<TraceItem>) -> Seq<ItemKey> {
    s.map_values(|it: TraceItem| item_key(it))
}

/// Whether `a` sorts no later than `b`: timed before untimed, then by
/// earliest coordinate, then by id.
pub open spec fn key_le(a: ItemKey, b: ItemKey) -> bool {
    if a.untimed != b.untimed {
        !a.untimed
    } else if a.first != b.first {
        a.first < b.first
    } else {
        a.id <= b.id
    }
}

/// Where a stable insertion puts `k` into `s`: just after the last entry,
/// counted from the end, that sorts no later than `k`.
pub open spec fn insert_pos(s: Seq<ItemKey>, k: ItemKey) -> int
    decreases s.len(),
{
    if s.len() == 0 {
        0
    } else if key_le(s.last(), k) {
        s.len() as int
    } else {
        insert_pos(s.drop_last(), k)
    }
}

/// The keys in stable sorted order: each key inserted, in turn, after the
/// ones before it that sort no later.
pub open spec fn sort_keys(s: Seq<ItemKey>) -> Seq<ItemKey>
    decreases s.len(),
{
    if s.len() == 0 {
        Seq::empty()
    } else {
        let t = sort_keys(s.drop_last());
        t.insert(insert_pos(t, s.last()), s.last())
    }
}

pub(crate) proof fn lemma_insert_pos_range(s: Seq<ItemKey>, k: ItemKey)
    ensures
        0 <= insert_pos(s, k) <= s.len(),
    decreases s.len(),
{
    if s.len() > 0 && !key_le(s.last(), k) {
        lemma_insert_pos_range(s.drop_last(), k);
    }
}

/// Sorting keeps the number of keys.
pub proof fn lemma_sort_len(s: Seq<ItemKey>)
    ensures
        sort_keys(s).len() == s.len(),
    decreases s.len(),
{
    if s.len() > 0 {
        lemma_sort_len(s.drop_last());
        lemma_insert_pos_range(sort_keys(s.drop_last()), s.last());
    }
}

/// The key of an item, from its timing.
pub fn key_of(it: &TraceItem) -> (k: ItemKey)
    ensures
        k == item_key(*it),
{
    let id = it.id.0;
    match it.timing {
        TraceTiming::Instant(at) => {
            assert(seq_min(seq![at]) == at);
            ItemKey { untimed: false, first: at, id }
        },
        TraceTiming::Interval { start, end } => {
            assert(seq![start, end].drop_last() =~= seq![start]);
            assert(seq_min(seq![start]) == start);
            ItemKey { untimed: false, first: if end < start { end } else { start }, id }
        },
        TraceTiming::MissingStart { end } => {
            assert(seq_min(seq![end]) == end);
            ItemKey { untimed: false, first: end, id }
        },
        TraceTiming::MissingEnd { start } => {
            assert(seq_min(seq![start]) == start);
            ItemKey { untimed: false, first: start, id }
        },
        TraceTiming::Untimed => ItemKey { untimed: true, first: 0, id },
    }
}

fn key_le_exec(a: ItemKey, b: ItemKey) -> (r: bool)
    ensures
        r == key_le(a, b),
{
    if a.untimed != b.untimed {
        !a.untimed
    } else if a.first != b.first {
        a.first < b.first
    } else {
        a.id <= b.id
    }
}

/// The keys of `items` in stable sorted order.
pub fn sorted_keys(items: &Vec<TraceItem>) -> (r: Vec<ItemKey>)
    ensures
        r@ == sort_keys(keys_of(items@)),
{
    let ghost ks = keys_of(items@);
    let mut r: Vec<ItemKey> = Vec::new();
    let mut i: usize = 0;
    assert(ks.take(0) =~= Seq::<ItemKey>::empty());
    while i < items.len()
        invariant
            i <= items@.len(),
            ks == keys_of(items@),
            r@ == sort_keys(ks.take(i as int)),
        decreases items@.len() - i,
    {
        let k = key_of(&items[i]);
        proof {
            assert(ks.take(i + 1).drop_last() =~= ks.take(i as int));
            assert(ks.take(i + 1).last() == k);
        }
        let mut j: usize = r.len();
        assert(r@.take(j as int) =~= r@);
        while j > 0
            invariant
                j <= r@.len(),
                insert_pos(r@, k) == insert_pos(r@.take(j as int), k),
            ensures
                j <= r@.len(),
                insert_pos(r@, k) == j,
            decreases j,
        {
            assert(r@.take(j as int).drop_last() =~= r@.take(j - 1));
            if key_le_exec(r[j - 1], k) {
                break;
            }
            j -= 1;
        }
        r.insert(j, k);
        i += 1;
    }
    assert(ks.take(items@.len() as int) =~= ks);
    r
}

} // verus!
