//! Identity admission of trace data: unique ids and known references.

use vstd::prelude::*;
use std::collections::BTreeSet;

use crate::widget::trace_view::data::{
    CategoryId, GroupId, ItemId, TraceCategory, TraceData, TraceError, TraceGroup, TraceItem, TraceTrack,
};
use crate::widget::trace_view::validate::{first_limit, is_limit_error, names_limit, size_ok, validate_size};

verus! {

/// Ids and categories of an item's subtree, in pre-order.
pub open spec fn item_pairs(it: TraceItem) -> Seq<(ItemId, CategoryId)>
    decreases it, 0nat,
{
    seq![(it.id, it.category)] + forest_pairs(it.children@)
}

/// Ids and categories of a list of subtrees, in pre-order.
pub open spec fn forest_pairs(s: Seq<TraceItem>) -> Seq<(ItemId, CategoryId)>
    decreases s, 1nat,
{
    if s.len() == 0 { Seq::empty() } else { forest_pairs(s.drop_last()) + item_pairs(s.last()) }
}

/// Admit items in order: each must name a known category and an id not
/// seen before; the result is the set of ids seen, or the first error.
pub open spec fn items_fold(ps: Seq<(ItemId, CategoryId)>, cats: Set<u16>, seen: Set<u64>) -> Result<Set<u64>, TraceError>
    decreases ps.len(),
{
    if ps.len() == 0 {
        Ok(seen)
    } else {
        let (id, c) = ps[0];
        if !cats.contains(c.0) {
            Err(TraceError::UnknownCategory(c))
        } else if seen.contains(id.0) {
            Err(TraceError::DuplicateItem(id))
        } else {
            items_fold(ps.drop_first(), cats, seen.insert(id.0))
        }
    }
}

proof fn lemma_items_fold_concat(a: Seq<(ItemId, CategoryId)>, b: Seq<(ItemId, CategoryId)>, cats: Set<u16>, seen: Set<u64>)
    ensures
        items_fold(a + b, cats, seen) == (match items_fold(a, cats, seen) {
            Ok(s) => items_fold(b, cats, s),
            Err(e) => Err(e),
        }),
    decreases a.len(),
{
    if a.len() == 0 {
        assert(a + b =~= b);
    } else {
        assert((a + b)[0] == a[0]);
        assert((a + b).drop_first() =~= a.drop_first() + b);
        let (id, c) = a[0];
        lemma_items_fold_concat(a.drop_first(), b, cats, seen.insert(id.0));
    }
}

/// Admit identities in order, the first repeat being an error; the result
/// is the set of identities seen.
pub open spec fn first_repeat<T>(ids: Seq<T>, seen: Set<T>) -> Result<Set<T>, T>
    decreases ids.len(),
{
    if ids.len() == 0 {
        Ok(seen)
    } else if seen.contains(ids[0]) {
        Err(ids[0])
    } else {
        first_repeat(ids.drop_first(), seen.insert(ids[0]))
    }
}

proof fn lemma_first_repeat_concat<T>(a: Seq<T>, b: Seq<T>, seen: Set<T>)
    ensures
        first_repeat(a + b, seen) == (match first_repeat(a, seen) {
            Ok(s) => first_repeat(b, s),
            Err(e) => Err(e),
        }),
    decreases a.len(),
{
    if a.len() == 0 {
        assert(a + b =~= b);
    } else {
        assert((a + b)[0] == a[0]);
        assert((a + b).drop_first() =~= a.drop_first() + b);
        lemma_first_repeat_concat(a.drop_first(), b, seen.insert(a[0]));
    }
}

/// Identities of the categories, in order.
pub open spec fn category_ids(cs: Seq<TraceCategory>) -> Seq<u16> {
    cs.map_values(|c: TraceCategory| c.id.0)
}

/// Identities of the groups, in order.
pub open spec fn group_ids(gs: Seq<TraceGroup>) -> Seq<u32> {
    gs.map_values(|g: TraceGroup| g.id.0)
}

/// Admit one track: its id must be new and its group, if any, known; then
/// its items are admitted. The result is the track and item ids seen.
pub open spec fn admit_track(
    t: TraceTrack,
    cats: Set<u16>,
    groups: Set<u32>,
    seen_tracks: Set<u32>,
    seen_items: Set<u64>,
) -> Result<(Set<u32>, Set<u64>), TraceError> {
    if seen_tracks.contains(t.id.0) {
        Err(TraceError::DuplicateTrack(t.id))
    } else if t.group matches Some(g) && !groups.contains(g.0) {
        Err(TraceError::UnknownGroup(t.group.unwrap()))
    } else {
        match items_fold(forest_pairs(t.items@), cats, seen_items) {
            Err(e) => Err(e),
            Ok(s) => Ok((seen_tracks.insert(t.id.0), s)),
        }
    }
}

/// Admit tracks in order, stopping at the first error.
pub open spec fn tracks_fold(
    ts: Seq<TraceTrack>,
    cats: Set<u16>,
    groups: Set<u32>,
    seen_tracks: Set<u32>,
    seen_items: Set<u64>,
) -> Result<(Set<u32>, Set<u64>), TraceError>
    decreases ts.len(),
{
    if ts.len() == 0 {
        Ok((seen_tracks, seen_items))
    } else {
        match admit_track(ts[0], cats, groups, seen_tracks, seen_items) {
            Err(e) => Err(e),
            Ok((st, si)) => tracks_fold(ts.drop_first(), cats, groups, st, si),
        }
    }
}

proof fn lemma_tracks_fold_concat(
    a: Seq<TraceTrack>,
    b: Seq<TraceTrack>,
    cats: Set<u16>,
    groups: Set<u32>,
    st: Set<u32>,
    si: Set<u64>,
)
    ensures
        tracks_fold(a + b, cats, groups, st, si) == (match tracks_fold(a, cats, groups, st, si) {
            Ok((st2, si2)) => tracks_fold(b, cats, groups, st2, si2),
            Err(e) => Err(e),
        }),
    decreases a.len(),
{
    if a.len() == 0 {
        assert(a + b =~= b);
    } else {
        assert((a + b)[0] == a[0]);
        assert((a + b).drop_first() =~= a.drop_first() + b);
        match admit_track(a[0], cats, groups, st, si) {
            Err(e) => {},
            Ok((st2, si2)) => lemma_tracks_fold_concat(a.drop_first(), b, cats, groups, st2, si2),
        }
    }
}

/// Result of the identity checks on a dataset within its size limits: the
/// first repeated category, else the first repeated group, else, track by
/// track, a repeated track, an unknown group, or among the track's items (in
/// pre-order, ids compared across all tracks) an unknown category or a
/// repeated item.
pub open spec fn spec_check_ids(d: TraceData) -> Result<(), TraceError> {
    match first_repeat(category_ids(d.categories@), Set::empty()) {
        Err(c) => Err(TraceError::DuplicateCategory(CategoryId(c))),
        Ok(cs) => match first_repeat(group_ids(d.groups@), Set::empty()) {
            Err(g) => Err(TraceError::DuplicateGroup(GroupId(g))),
            Ok(gs) => match tracks_fold(d.tracks@, cs, gs, Set::empty(), Set::empty()) {
                Err(e) => Err(e),
                Ok(_) => Ok(()),
            },
        },
    }
}

/// What `validate` answers: a limit error exactly when a bound is broken,
/// else the result of the identity checks.
pub open spec fn admits(d: TraceData, r: Result<(), TraceError>) -> bool {
    if size_ok(d) {
        r == spec_check_ids(d)
    } else {
        r is Err && is_limit_error(r)
    }
}

/// The first `n` entries of a list.
pub open spec fn first_n<T>(s: Seq<T>, n: usize) -> Seq<T> {
    s.subrange(0, n as int)
}

proof fn lemma_forest_pairs_split(s: Seq<TraceItem>, k: int)
    requires
        0 <= k <= s.len(),
    ensures
        forest_pairs(s) =~= forest_pairs(s.subrange(0, k)) + forest_pairs(s.subrange(k, s.len() as int)),
    decreases s.len() - k,
{
    if k == s.len() {
        assert(s.subrange(0, k) =~= s);
        assert(s.subrange(k, s.len() as int) =~= Seq::<TraceItem>::empty());
    } else {
        lemma_forest_pairs_split(s, k + 1);
        assert(s.subrange(0, k + 1).drop_last() =~= s.subrange(0, k));
        assert(s.subrange(0, k + 1).last() == s[k]);
        let tail = s.subrange(k, s.len() as int);
        lemma_forest_pairs_front(tail);
        assert(tail.drop_first() =~= s.subrange(k + 1, s.len() as int));
    }
}

proof fn lemma_forest_pairs_front(s: Seq<TraceItem>)
    requires
        s.len() > 0,
    ensures
        forest_pairs(s) =~= item_pairs(s[0]) + forest_pairs(s.drop_first()),
    decreases s.len(),
{
    if s.len() == 1 {
        assert(s.drop_last() =~= Seq::<TraceItem>::empty());
        assert(s.drop_first() =~= Seq::<TraceItem>::empty());
    } else {
        lemma_forest_pairs_front(s.drop_last());
        assert(s.drop_last().drop_first() =~= s.drop_first().drop_last());
        assert(s.drop_first().last() == s.last());
    }
}

/// One more subtree of a list admitted: the fold over the longer prefix
/// continues from where the shorter one stopped, and a failure there is the
/// failure of the whole list.
proof fn lemma_kid_step(kids: Seq<TraceItem>, i: usize, cats: Set<u16>, s1: Set<u64>, before: Set<u64>)
    requires
        i < kids.len(),
        i < usize::MAX,
        items_fold(forest_pairs(first_n(kids, i)), cats, s1) == Ok::<Set<u64>, TraceError>(before),
    ensures
        items_fold(forest_pairs(first_n(kids, (i + 1) as usize)), cats, s1) == items_fold(
            item_pairs(kids[i as int]),
            cats,
            before,
        ),
        items_fold(item_pairs(kids[i as int]), cats, before) is Err ==> items_fold(forest_pairs(kids), cats, s1)
            == items_fold(item_pairs(kids[i as int]), cats, before),
{
    let pre = first_n(kids, i);
    let pre1 = first_n(kids, (i + 1) as usize);
    assert(pre1.drop_last() =~= pre);
    assert(pre1.last() == kids[i as int]);
    lemma_items_fold_concat(forest_pairs(pre), item_pairs(kids[i as int]), cats, s1);
    lemma_forest_pairs_split(kids, i + 1);
    lemma_items_fold_concat(forest_pairs(pre1), forest_pairs(kids.subrange(i + 1, kids.len() as int)), cats, s1);
}

proof fn lemma_first_n_all<T>(s: Seq<T>, n: usize)
    requires
        n == s.len(),
    ensures
        first_n(s, n) == s,
{
    assert(first_n(s, n) =~= s);
}

/// Admit one item and its subtree: its category must be known and its id,
/// like every id below it, new to `items`.
fn validate_item(item: &TraceItem, categories: &BTreeSet<u16>, items: &mut BTreeSet<u64>) -> (r: Result<(), TraceError>)
    ensures
        match items_fold(item_pairs(*item), categories@, old(items)@) {
            Ok(s) => r is Ok && final(items)@ == s,
            Err(e) => r == Err::<(), TraceError>(e),
        },
    decreases *item,
{
    broadcast use vstd::laws_cmp::group_laws_cmp;

    let ghost ps = item_pairs(*item);
    assert(ps[0] == (item.id, item.category));
    if !categories.contains(&item.category.0) {
        return Err(TraceError::UnknownCategory(item.category));
    }
    if !items.insert(item.id.0) {
        return Err(TraceError::DuplicateItem(item.id));
    }
    assert(ps.drop_first() =~= forest_pairs(item.children@));
    assert(items_fold(ps, categories@, old(items)@) == items_fold(ps.drop_first(), categories@, items@));
    let ghost kids = item.children@;
    assert(ps.drop_first() == forest_pairs(kids));
    let ghost s1 = items@;
    let mut i: usize = 0;
    assert(first_n(kids, 0) =~= Seq::<TraceItem>::empty());
    while i < item.children.len()
        invariant
            i <= kids.len(),
            kids == item.children@,
            ps == item_pairs(*item),
            items_fold(ps, categories@, old(items)@) == items_fold(forest_pairs(kids), categories@, s1),
            items_fold(forest_pairs(first_n(kids, i)), categories@, s1) == Ok::<Set<u64>, TraceError>(items@),
        decreases kids.len() - i,
    {
        proof {
            lemma_kid_step(kids, i, categories@, s1, items@);
        }
        let r = validate_item(&item.children[i], categories, items);
        if r.is_err() {
            return r;
        }
        i += 1;
    }
    proof {
        lemma_first_n_all(kids, i);
    }
    Ok(())
}

proof fn lemma_id_step<T>(ids: Seq<T>, i: usize, seen: Set<T>)
    requires
        i < ids.len(),
        i < usize::MAX,
        first_repeat(first_n(ids, i), Set::empty()) == Ok::<Set<T>, T>(seen),
    ensures
        !seen.contains(ids[i as int]) ==> first_repeat(first_n(ids, (i + 1) as usize), Set::empty())
            == Ok::<Set<T>, T>(seen.insert(ids[i as int])),
        seen.contains(ids[i as int]) ==> first_repeat(ids, Set::empty()) == Err::<Set<T>, T>(ids[i as int]),
{
    let pre = first_n(ids, i);
    let pre1 = first_n(ids, (i + 1) as usize);
    let one = seq![ids[i as int]];
    assert(pre1 =~= pre + one);
    lemma_first_repeat_concat(pre, one, Set::empty());
    assert(one.drop_first() =~= Seq::<T>::empty());
    assert(one[0] == ids[i as int]);
    assert(first_repeat(Seq::<T>::empty(), seen.insert(ids[i as int])) == Ok::<Set<T>, T>(seen.insert(ids[i as int])));
    let rest = ids.subrange(i + 1, ids.len() as int);
    assert(ids =~= pre1 + rest);
    lemma_first_repeat_concat(pre1, rest, Set::empty());
}

/// One more category admitted.
proof fn lemma_category_step(cs: Seq<TraceCategory>, i: usize, seen: Set<u16>)
    requires
        i < cs.len(),
        i < usize::MAX,
        first_repeat(first_n(category_ids(cs), i), Set::empty()) == Ok::<Set<u16>, u16>(seen),
    ensures
        !seen.contains(cs[i as int].id.0) ==> first_repeat(first_n(category_ids(cs), (i + 1) as usize), Set::empty())
            == Ok::<Set<u16>, u16>(seen.insert(cs[i as int].id.0)),
        seen.contains(cs[i as int].id.0) ==> first_repeat(category_ids(cs), Set::empty()) == Err::<Set<u16>, u16>(
            cs[i as int].id.0,
        ),
{
    assert(category_ids(cs)[i as int] == cs[i as int].id.0);
    lemma_id_step(category_ids(cs), i, seen);
}

/// One more group admitted.
proof fn lemma_group_step(gs: Seq<TraceGroup>, i: usize, seen: Set<u32>)
    requires
        i < gs.len(),
        i < usize::MAX,
        first_repeat(first_n(group_ids(gs), i), Set::empty()) == Ok::<Set<u32>, u32>(seen),
    ensures
        !seen.contains(gs[i as int].id.0) ==> first_repeat(first_n(group_ids(gs), (i + 1) as usize), Set::empty())
            == Ok::<Set<u32>, u32>(seen.insert(gs[i as int].id.0)),
        seen.contains(gs[i as int].id.0) ==> first_repeat(group_ids(gs), Set::empty()) == Err::<Set<u32>, u32>(
            gs[i as int].id.0,
        ),
{
    assert(group_ids(gs)[i as int] == gs[i as int].id.0);
    lemma_id_step(group_ids(gs), i, seen);
}

/// One more track admitted.
proof fn lemma_track_step(
    ts: Seq<TraceTrack>,
    i: usize,
    cats: Set<u16>,
    groups: Set<u32>,
    st: Set<u32>,
    si: Set<u64>,
)
    requires
        i < ts.len(),
        i < usize::MAX,
        tracks_fold(first_n(ts, i), cats, groups, Set::empty(), Set::empty()) == Ok::<
            (Set<u32>, Set<u64>),
            TraceError,
        >((st, si)),
    ensures
        tracks_fold(first_n(ts, (i + 1) as usize), cats, groups, Set::empty(), Set::empty()) == admit_track(
            ts[i as int],
            cats,
            groups,
            st,
            si,
        ),
        admit_track(ts[i as int], cats, groups, st, si) is Err ==> tracks_fold(
            ts,
            cats,
            groups,
            Set::empty(),
            Set::empty(),
        ) == admit_track(ts[i as int], cats, groups, st, si),
{
    let pre = first_n(ts, i);
    let pre1 = first_n(ts, (i + 1) as usize);
    let one = seq![ts[i as int]];
    assert(pre1 =~= pre + one);
    lemma_tracks_fold_concat(pre, one, cats, groups, Set::empty(), Set::empty());
    assert(one.drop_first() =~= Seq::<TraceTrack>::empty());
    assert(one[0] == ts[i as int]);
    match admit_track(ts[i as int], cats, groups, st, si) {
        Err(e) => {},
        Ok((a, b)) => {
            assert(tracks_fold(Seq::<TraceTrack>::empty(), cats, groups, a, b) == Ok::<
                (Set<u32>, Set<u64>),
                TraceError,
            >((a, b)));
        },
    }
    let rest = ts.subrange(i + 1, ts.len() as int);
    assert(ts =~= pre1 + rest);
    lemma_tracks_fold_concat(pre1, rest, cats, groups, Set::empty(), Set::empty());
}

/// Admit one track: a new id, a known group, then its items in order.
fn validate_track(
    track: &TraceTrack,
    categories: &BTreeSet<u16>,
    groups: &BTreeSet<u32>,
    tracks: &mut BTreeSet<u32>,
    items: &mut BTreeSet<u64>,
) -> (r: Result<(), TraceError>)
    ensures
        match admit_track(*track, categories@, groups@, old(tracks)@, old(items)@) {
            Ok((st, si)) => r is Ok && final(tracks)@ == st && final(items)@ == si,
            Err(e) => r == Err::<(), TraceError>(e),
        },
{
    broadcast use vstd::laws_cmp::group_laws_cmp;

    if !tracks.insert(track.id.0) {
        return Err(TraceError::DuplicateTrack(track.id));
    }
    if let Some(group) = track.group {
        if !groups.contains(&group.0) {
            return Err(TraceError::UnknownGroup(group));
        }
    }
    let ghost kids = track.items@;
    let ghost si = items@;
    let mut j: usize = 0;
    assert(first_n(kids, 0) =~= Seq::<TraceItem>::empty());
    while j < track.items.len()
        invariant
            j <= kids.len(),
            kids == track.items@,
            si == old(items)@,
            tracks@ == old(tracks)@.insert(track.id.0),
            !old(tracks)@.contains(track.id.0),
            track.group matches Some(g) ==> groups@.contains(g.0),
            items_fold(forest_pairs(first_n(kids, j)), categories@, si) == Ok::<Set<u64>, TraceError>(items@),
        decreases kids.len() - j,
    {
        proof {
            lemma_kid_step(kids, j, categories@, si, items@);
        }
        let r = validate_item(&track.items[j], categories, items);
        if r.is_err() {
            return r;
        }
        j += 1;
    }
    proof {
        lemma_first_n_all(kids, j);
    }
    Ok(())
}

impl TraceData {
    /// Check every bound before building identity indexes, then admit
    /// categories, groups, and tracks with their items.
    pub fn validate(&self) -> (r: Result<(), TraceError>)
        ensures
            admits(*self, r),
            first_limit(*self) matches Some(n) ==> names_limit(r, n),
    {
        broadcast use vstd::laws_cmp::group_laws_cmp;

        let size = validate_size(self);
        if size.is_err() {
            return size;
        }
        let ghost cs = self.categories@;
        let mut categories: BTreeSet<u16> = BTreeSet::new();
        let mut i: usize = 0;
        assert(first_n(category_ids(cs), 0) =~= Seq::<u16>::empty());
        while i < self.categories.len()
            invariant
                i <= cs.len(),
                cs == self.categories@,
                size_ok(*self),
                first_limit(*self) is None,
                first_repeat(first_n(category_ids(cs), i), Set::empty()) == Ok::<Set<u16>, u16>(categories@),
            decreases cs.len() - i,
        {
            proof {
                lemma_category_step(cs, i, categories@);
            }
            let id = self.categories[i].id;
            if !categories.insert(id.0) {
                return Err(TraceError::DuplicateCategory(id));
            }
            i += 1;
        }
        proof {
            lemma_first_n_all(category_ids(cs), i);
        }
        let ghost gs = self.groups@;
        let mut groups: BTreeSet<u32> = BTreeSet::new();
        let mut k: usize = 0;
        assert(first_n(group_ids(gs), 0) =~= Seq::<u32>::empty());
        while k < self.groups.len()
            invariant
                k <= gs.len(),
                gs == self.groups@,
                cs == self.categories@,
                size_ok(*self),
                first_limit(*self) is None,
                first_repeat(category_ids(cs), Set::empty()) == Ok::<Set<u16>, u16>(categories@),
                first_repeat(first_n(group_ids(gs), k), Set::empty()) == Ok::<Set<u32>, u32>(groups@),
            decreases gs.len() - k,
        {
            proof {
                lemma_group_step(gs, k, groups@);
            }
            let id = self.groups[k].id;
            if !groups.insert(id.0) {
                return Err(TraceError::DuplicateGroup(id));
            }
            k += 1;
        }
        proof {
            lemma_first_n_all(group_ids(gs), k);
        }
        let ghost ts = self.tracks@;
        let mut tracks: BTreeSet<u32> = BTreeSet::new();
        let mut items: BTreeSet<u64> = BTreeSet::new();
        let mut t: usize = 0;
        assert(first_n(ts, 0) =~= Seq::<TraceTrack>::empty());
        while t < self.tracks.len()
            invariant
                t <= ts.len(),
                ts == self.tracks@,
                gs == self.groups@,
                cs == self.categories@,
                size_ok(*self),
                first_limit(*self) is None,
                first_repeat(category_ids(cs), Set::empty()) == Ok::<Set<u16>, u16>(categories@),
                first_repeat(group_ids(gs), Set::empty()) == Ok::<Set<u32>, u32>(groups@),
                tracks_fold(first_n(ts, t), categories@, groups@, Set::empty(), Set::empty()) == Ok::<
                    (Set<u32>, Set<u64>),
                    TraceError,
                >((tracks@, items@)),
            decreases ts.len() - t,
        {
            proof {
                lemma_track_step(ts, t, categories@, groups@, tracks@, items@);
            }
            let r = validate_track(&self.tracks[t], &categories, &groups, &mut tracks, &mut items);
            if r.is_err() {
                return r;
            }
            t += 1;
        }
        proof {
            lemma_first_n_all(ts, t);
        }
        Ok(())
    }
}

} // verus!
