//! Every top-level item of an admitted dataset is recorded with a span, and
//! every recorded span is in the projected tree.

use vstd::prelude::*;

use crate::widget::flame_graph::data::{find_span, find_span_forest, span_path, SpanId, SpanTree};
use crate::widget::flame_graph::paths::lemma_find_has_path;
use crate::widget::trace_view::data::{TraceData, TraceGroup, TraceTrack};
use crate::widget::trace_view::identity::{
    admit_track, admits, category_ids, first_repeat, group_ids, tracks_fold,
};
use crate::widget::trace_view::validate::size_ok;
use crate::widget::trace_view::order::{
    insert_pos, item_key, keys_of, lemma_insert_pos_range, sort_keys, ItemKey,
};
use crate::widget::trace_view::projection::{
    empty_projection, in_group, next_id, proj_groups, proj_leaves, proj_track, proj_tracks, project, shape_of,
    shapes_of, Projection, Shape,
};

verus! {

/// The span numbers of a shape and of all its descendants.
pub open spec fn shape_ids(sh: Shape) -> Set<SpanId>
    decreases sh,
{
    set![sh.id].union(forest_ids(sh.children))
}

/// The span numbers of a list of shapes and of all their descendants.
pub open spec fn forest_ids(cs: Seq<Shape>) -> Set<SpanId>
    decreases cs,
{
    if cs.len() == 0 {
        Set::empty()
    } else {
        forest_ids(cs.drop_last()).union(shape_ids(cs.last()))
    }
}

pub(crate) proof fn lemma_forest_ids_index(cs: Seq<Shape>, t: SpanId)
    requires
        forest_ids(cs).contains(t),
    ensures
        exists|j: int| 0 <= j < cs.len() && shape_ids(#[trigger] cs[j]).contains(t),
    decreases cs.len(),
{
    if !shape_ids(cs.last()).contains(t) {
        lemma_forest_ids_index(cs.drop_last(), t);
        let j = choose|j: int| 0 <= j < cs.drop_last().len() && shape_ids(#[trigger] cs.drop_last()[j]).contains(t);
        assert(cs[j] == cs.drop_last()[j]);
    } else {
        assert(cs[cs.len() - 1] == cs.last());
    }
}

pub(crate) proof fn lemma_shapes_index(ts: Seq<SpanTree>)
    ensures
        shapes_of(ts).len() == ts.len(),
        forall|j: int| 0 <= j < ts.len() ==> #[trigger] shapes_of(ts)[j] == shape_of(ts[j]),
    decreases ts.len(),
{
    if ts.len() > 0 {
        lemma_shapes_index(ts.drop_last());
        assert forall|j: int| 0 <= j < ts.len() implies #[trigger] shapes_of(ts)[j] == shape_of(ts[j]) by {
            if j < ts.len() - 1 {
                assert(ts.drop_last()[j] == ts[j]);
            }
        }
    }
}

proof fn lemma_find_forest_index(ns: Seq<SpanTree>, j: int, t: SpanId)
    requires
        0 <= j < ns.len(),
        find_span(ns[j], t) is Some,
    ensures
        find_span_forest(ns, t) is Some,
    decreases j,
{
    if j > 0 && find_span(ns[0], t) is None {
        assert(ns.drop_first()[j - 1] == ns[j]);
        lemma_find_forest_index(ns.drop_first(), j - 1, t);
    }
}

/// A span number of a tree's shape is found in the tree.
pub proof fn lemma_shape_id_found(n: SpanTree, t: SpanId)
    requires
        shape_ids(shape_of(n)).contains(t),
    ensures
        find_span(n, t) is Some,
        span_path(n, t) is Some,
    decreases n,
{
    if n.id != t {
        let cs = n.children@;
        lemma_shapes_index(cs);
        lemma_forest_ids_index(shapes_of(cs), t);
        let j = choose|j: int| 0 <= j < shapes_of(cs).len() && shape_ids(#[trigger] shapes_of(cs)[j]).contains(t);
        lemma_shape_id_found(cs[j], t);
        lemma_find_forest_index(cs, j, t);
    }
    lemma_find_has_path(n, t);
}

/// `q` keeps the item records of `p` as its first ones.
pub open spec fn keeps_items(p: Projection, q: Projection) -> bool {
    p.items.len() <= q.items.len() && q.items.subrange(0, p.items.len() as int) == p.items
}

/// The item records that `q` has beyond those of `p` name spans in `ids`.
pub open spec fn added_within(p: Projection, q: Projection, ids: Set<SpanId>) -> bool {
    forall|i: int| p.items.len() <= i < q.items.len() ==> ids.contains(#[trigger] q.items[i].1)
}

/// Whether some item record has key `key`.
pub open spec fn has_entry(q: Projection, key: u64) -> bool {
    exists|i: int| 0 <= i < q.items.len() && (#[trigger] q.items[i]).0 == key
}

proof fn lemma_entry_kept(p: Projection, q: Projection, key: u64)
    requires
        keeps_items(p, q),
        has_entry(p, key),
    ensures
        has_entry(q, key),
{
    let i = choose|i: int| 0 <= i < p.items.len() && (#[trigger] p.items[i]).0 == key;
    assert(q.items.subrange(0, p.items.len() as int)[i] == q.items[i]);
}

proof fn lemma_keeps_trans(p: Projection, q: Projection, r: Projection)
    requires
        keeps_items(p, q),
        keeps_items(q, r),
    ensures
        keeps_items(p, r),
{
    assert(r.items.subrange(0, p.items.len() as int) =~= r.items.subrange(0, q.items.len() as int).subrange(
        0,
        p.items.len() as int,
    ));
}

proof fn lemma_added_trans(p: Projection, q: Projection, r: Projection, a: Set<SpanId>, b: Set<SpanId>)
    requires
        keeps_items(q, r),
        added_within(p, q, a),
        added_within(q, r, b),
    ensures
        added_within(p, r, a.union(b)),
{
    assert forall|i: int| p.items.len() <= i < r.items.len() implies a.union(b).contains(#[trigger] r.items[i].1) by {
        if i < q.items.len() {
            assert(r.items.subrange(0, q.items.len() as int)[i] == r.items[i]);
            assert(q.items[i] == r.items[i]);
        }
    }
}

proof fn lemma_forest_ids_push(cs: Seq<Shape>, c: Shape)
    ensures
        forest_ids(cs.push(c)) == forest_ids(cs).union(shape_ids(c)),
{
    assert(cs.push(c).drop_last() =~= cs);
}

proof fn lemma_forest_ids_concat(a: Seq<Shape>, b: Seq<Shape>)
    ensures
        forest_ids(a + b) == forest_ids(a).union(forest_ids(b)),
    decreases b.len(),
{
    if b.len() == 0 {
        assert(a + b =~= a);
        assert(forest_ids(a).union(forest_ids(b)) =~= forest_ids(a));
    } else {
        lemma_forest_ids_concat(a, b.drop_last());
        assert((a + b).drop_last() =~= a + b.drop_last());
        assert((a + b).last() == b.last());
        assert(forest_ids(a).union(forest_ids(b)) =~= forest_ids(a).union(forest_ids(b.drop_last())).union(
            shape_ids(b.last()),
        ));
    }
}

proof fn lemma_leaves(p: Projection, keys: Seq<ItemKey>)
    ensures
        keeps_items(p, proj_leaves(p, keys).1),
        added_within(p, proj_leaves(p, keys).1, forest_ids(proj_leaves(p, keys).0)),
        forall|m: int| 0 <= m < keys.len() ==> has_entry(proj_leaves(p, keys).1, #[trigger] keys[m].id),
    decreases keys.len(),
{
    if keys.len() == 0 {
        assert(p.items.subrange(0, p.items.len() as int) =~= p.items);
    } else {
        lemma_leaves(p, keys.drop_last());
        let r0 = proj_leaves(p, keys.drop_last());
        let r = proj_leaves(p, keys);
        let q0 = r0.1;
        let q = r.1;
        let k = keys.last();
        let id = next_id(q0);
        let leaf = Shape { id, children: Seq::empty() };
        assert(r.0 == r0.0.push(leaf));
        assert(q.items == q0.items.push((k.id, id)));
        lemma_forest_ids_push(r0.0, leaf);
        assert(shape_ids(leaf).contains(id));
        assert(q.items.subrange(0, p.items.len() as int) =~= q0.items.subrange(0, p.items.len() as int));
        assert forall|i: int| p.items.len() <= i < q.items.len() implies forest_ids(r.0).contains(
            #[trigger] q.items[i].1,
        ) by {
            if i < q0.items.len() {
                assert(q.items[i] == q0.items[i]);
            }
        }
        assert forall|m: int| 0 <= m < keys.len() implies has_entry(q, #[trigger] keys[m].id) by {
            if m < keys.len() - 1 {
                assert(keys.drop_last()[m] == keys[m]);
                let i = choose|i: int| 0 <= i < q0.items.len() && (#[trigger] q0.items[i]).0 == keys[m].id;
                assert(q.items[i] == q0.items[i]);
            } else {
                assert(q.items[q0.items.len() as int].0 == k.id);
            }
        }
    }
}

proof fn lemma_sort_contains(s: Seq<ItemKey>, m: int)
    requires
        0 <= m < s.len(),
    ensures
        sort_keys(s).contains(s[m]),
    decreases s.len(),
{
    let t = sort_keys(s.drop_last());
    lemma_insert_pos_range(t, s.last());
    let pos = insert_pos(t, s.last());
    t.insert_ensures(pos, s.last());
    if m == s.len() - 1 {
        assert(t.insert(pos, s.last())[pos] == s.last());
    } else {
        assert(s.drop_last()[m] == s[m]);
        lemma_sort_contains(s.drop_last(), m);
        let j = choose|j: int| 0 <= j < t.len() && t[j] == s[m];
        if j < pos {
            assert(t.insert(pos, s.last())[j] == t[j]);
        } else {
            assert(t.insert(pos, s.last())[j + 1] == t[j]);
        }
    }
}

proof fn lemma_track(p: Projection, t: TraceTrack)
    ensures
        keeps_items(p, proj_track(p, t).1),
        added_within(p, proj_track(p, t).1, shape_ids(proj_track(p, t).0)),
        forall|j: int| 0 <= j < t.items@.len() ==> has_entry(proj_track(p, t).1, (#[trigger] t.items@[j]).id.0),
{
    let ks = keys_of(t.items@);
    let keys = sort_keys(ks);
    lemma_leaves(p, keys);
    let r = proj_leaves(p, keys);
    let res = proj_track(p, t);
    assert(res.1.items == r.1.items);
    assert(shape_ids(res.0) == set![res.0.id].union(forest_ids(r.0)));
    assert forall|j: int| 0 <= j < t.items@.len() implies has_entry(res.1, (#[trigger] t.items@[j]).id.0) by {
        assert(ks[j] == item_key(t.items@[j]));
        lemma_sort_contains(ks, j);
        let m = choose|m: int| 0 <= m < keys.len() && keys[m] == ks[j];
        assert(has_entry(r.1, keys[m].id));
    }
}

proof fn lemma_tracks(p: Projection, ts: Seq<TraceTrack>)
    ensures
        keeps_items(p, proj_tracks(p, ts).1),
        added_within(p, proj_tracks(p, ts).1, forest_ids(proj_tracks(p, ts).0)),
        forall|m: int, j: int|
            0 <= m < ts.len() && 0 <= j < ts[m].items@.len() ==> has_entry(
                proj_tracks(p, ts).1,
                (#[trigger] ts[m].items@[j]).id.0,
            ),
    decreases ts.len(),
{
    if ts.len() == 0 {
        assert(p.items.subrange(0, p.items.len() as int) =~= p.items);
    } else {
        lemma_tracks(p, ts.drop_last());
        let r0 = proj_tracks(p, ts.drop_last());
        let s = proj_track(r0.1, ts.last());
        lemma_track(r0.1, ts.last());
        let r = proj_tracks(p, ts);
        assert(r.0 == r0.0.push(s.0));
        assert(r.1 == s.1);
        lemma_keeps_trans(p, r0.1, s.1);
        lemma_added_trans(p, r0.1, s.1, forest_ids(r0.0), shape_ids(s.0));
        lemma_forest_ids_push(r0.0, s.0);
        assert forall|m: int, j: int| 0 <= m < ts.len() && 0 <= j < ts[m].items@.len() implies has_entry(
            r.1,
            (#[trigger] ts[m].items@[j]).id.0,
        ) by {
            if m < ts.len() - 1 {
                assert(ts.drop_last()[m] == ts[m]);
                assert(has_entry(r0.1, ts.drop_last()[m].items@[j].id.0));
                lemma_entry_kept(r0.1, s.1, ts[m].items@[j].id.0);
            } else {
                assert(ts.last() == ts[m]);
            }
        }
    }
}

proof fn lemma_groups(p: Projection, gs: Seq<TraceGroup>, ts: Seq<TraceTrack>)
    ensures
        keeps_items(p, proj_groups(p, gs, ts).1),
        added_within(p, proj_groups(p, gs, ts).1, forest_ids(proj_groups(p, gs, ts).0)),
        forall|gi: int, m: int, j: int|
            #![trigger gs[gi], ts[m].items@[j]]
            0 <= gi < gs.len() && 0 <= m < ts.len() && ts[m].group == Some(gs[gi].id) && 0 <= j
                < ts[m].items@.len() ==> has_entry(proj_groups(p, gs, ts).1, ts[m].items@[j].id.0),
    decreases gs.len(),
{
    if gs.len() == 0 {
        assert(p.items.subrange(0, p.items.len() as int) =~= p.items);
    } else {
        lemma_groups(p, gs.drop_last(), ts);
        let r0 = proj_groups(p, gs.drop_last(), ts);
        let g = gs.last();
        let pred = in_group(Some(g.id));
        let f = ts.filter(pred);
        let s = proj_tracks(r0.1, f);
        lemma_tracks(r0.1, f);
        let r = proj_groups(p, gs, ts);
        let q = s.1;
        let id = next_id(q);
        let node = Shape { id, children: s.0 };
        assert(r.0 == r0.0.push(node));
        assert(r.1.items == s.1.items);
        lemma_keeps_trans(p, r0.1, s.1);
        lemma_added_trans(p, r0.1, s.1, forest_ids(r0.0), forest_ids(s.0));
        lemma_forest_ids_push(r0.0, node);
        assert(shape_ids(node) == set![id].union(forest_ids(s.0)));
        assert(added_within(p, r.1, forest_ids(r.0)));
        assert(keeps_items(p, r.1)) by {
            assert(r.1.items.subrange(0, p.items.len() as int) == s.1.items.subrange(0, p.items.len() as int));
        }
        assert forall|gi: int, m: int, j: int|
            #![trigger gs[gi], ts[m].items@[j]]
            0 <= gi < gs.len() && 0 <= m < ts.len() && ts[m].group == Some(gs[gi].id) && 0 <= j
                < ts[m].items@.len() implies has_entry(r.1, ts[m].items@[j].id.0) by {
            if gi < gs.len() - 1 {
                assert(gs.drop_last()[gi] == gs[gi]);
                assert(has_entry(r0.1, ts[m].items@[j].id.0));
                lemma_entry_kept(r0.1, s.1, ts[m].items@[j].id.0);
            } else {
                assert(pred(ts[m]));
                ts.lemma_filter_contains(pred, m);
                let m2 = choose|m2: int| 0 <= m2 < f.len() && f[m2] == ts[m];
                assert(has_entry(s.1, (f[m2].items@[j]).id.0));
            }
        }
    }
}

/// Every item record of a dataset's projection names a span of its tree.
pub(crate) proof fn lemma_project_within(d: TraceData)
    ensures
        added_within(empty_projection(), project(d).1, shape_ids(project(d).0)),
{
    let e = empty_projection();
    lemma_groups(e, d.groups@, d.tracks@);
    let r = proj_groups(e, d.groups@, d.tracks@);
    let f = d.tracks@.filter(in_group(None));
    lemma_tracks(r.1, f);
    let s = proj_tracks(r.1, f);
    lemma_added_trans(e, r.1, s.1, forest_ids(r.0), forest_ids(s.0));
    lemma_forest_ids_concat(r.0, s.0);
    let root = project(d).0;
    assert(root.children == r.0 + s.0);
    assert(shape_ids(root) == set![root.id].union(forest_ids(r.0 + s.0)));
    assert(project(d).1.items == s.1.items);
}

/// The items of an ungrouped track, or of a track whose group is listed,
/// are recorded in the projection.
pub(crate) proof fn lemma_project_records(d: TraceData, m: int, j: int)
    requires
        0 <= m < d.tracks@.len(),
        0 <= j < d.tracks@[m].items@.len(),
        d.tracks@[m].group is None || exists|gi: int|
            0 <= gi < d.groups@.len() && (#[trigger] d.groups@[gi]).id == d.tracks@[m].group->0,
    ensures
        has_entry(project(d).1, d.tracks@[m].items@[j].id.0),
{
    let e = empty_projection();
    let ts = d.tracks@;
    lemma_groups(e, d.groups@, ts);
    let r = proj_groups(e, d.groups@, ts);
    let pred = in_group(None);
    let f = ts.filter(pred);
    lemma_tracks(r.1, f);
    let s = proj_tracks(r.1, f);
    assert(project(d).1.items == s.1.items);
    let key = ts[m].items@[j].id.0;
    match ts[m].group {
        None => {
            assert(pred(ts[m]));
            ts.lemma_filter_contains(pred, m);
            let m2 = choose|m2: int| 0 <= m2 < f.len() && f[m2] == ts[m];
            assert(has_entry(s.1, (f[m2].items@[j]).id.0));
        },
        Some(g) => {
            let gi = choose|gi: int| 0 <= gi < d.groups@.len() && (#[trigger] d.groups@[gi]).id == g;
            assert(has_entry(r.1, ts[m].items@[j].id.0));
            lemma_entry_kept(r.1, s.1, key);
        },
    }
    assert(has_entry(s.1, key));
}

proof fn lemma_first_repeat_seen<T>(ids: Seq<T>, seen: Set<T>)
    ensures
        first_repeat(ids, seen) matches Ok(s) ==> forall|x: T| #[trigger] s.contains(x) ==> seen.contains(x)
            || ids.contains(x),
    decreases ids.len(),
{
    if ids.len() > 0 && !seen.contains(ids[0]) {
        lemma_first_repeat_seen(ids.drop_first(), seen.insert(ids[0]));
        if let Ok(s) = first_repeat(ids, seen) {
            assert forall|x: T| #[trigger] s.contains(x) implies seen.contains(x) || ids.contains(x) by {
                if x == ids[0] {
                    assert(ids[0] == x);
                } else if !seen.contains(x) {
                    let k = choose|k: int| 0 <= k < ids.drop_first().len() && ids.drop_first()[k] == x;
                    assert(ids[k + 1] == x);
                }
            }
        }
    }
}

/// Whether the group a track names, if any, is in `groups`.
spec fn group_listed(t: TraceTrack, groups: Set<u32>) -> bool {
    match t.group {
        Some(g) => groups.contains(g.0),
        None => true,
    }
}

proof fn lemma_tracks_fold_groups(
    ts: Seq<TraceTrack>,
    cats: Set<u16>,
    groups: Set<u32>,
    st: Set<u32>,
    si: Set<u64>,
)
    ensures
        tracks_fold(ts, cats, groups, st, si) is Ok ==> forall|m: int|
            0 <= m < ts.len() ==> group_listed(#[trigger] ts[m], groups),
    decreases ts.len(),
{
    if ts.len() > 0 {
        match admit_track(ts[0], cats, groups, st, si) {
            Err(_) => {},
            Ok((st2, si2)) => {
                lemma_tracks_fold_groups(ts.drop_first(), cats, groups, st2, si2);
                if tracks_fold(ts, cats, groups, st, si) is Ok {
                    assert forall|m: int| 0 <= m < ts.len() implies group_listed(#[trigger] ts[m], groups) by {
                        if m > 0 {
                            assert(ts.drop_first()[m - 1] == ts[m]);
                        }
                    }
                }
            },
        }
    }
}

/// In an admitted dataset, every group a track names is listed.
pub(crate) proof fn lemma_admitted_groups_known(d: TraceData, m: int)
    requires
        admits(d, Ok(())),
        0 <= m < d.tracks@.len(),
        d.tracks@[m].group is Some,
    ensures
        exists|gi: int| 0 <= gi < d.groups@.len() && (#[trigger] d.groups@[gi]).id == d.tracks@[m].group->0,
{
    assert(size_ok(d));
    match first_repeat(category_ids(d.categories@), Set::<u16>::empty()) {
        Err(_) => {},
        Ok(cs) => match first_repeat(group_ids(d.groups@), Set::<u32>::empty()) {
            Err(_) => {},
            Ok(gs) => {
                lemma_tracks_fold_groups(d.tracks@, cs, gs, Set::empty(), Set::empty());
                lemma_first_repeat_seen(group_ids(d.groups@), Set::<u32>::empty());
                let g = d.tracks@[m].group->0;
                assert(group_listed(d.tracks@[m], gs));
                assert(gs.contains(g.0));
                let gi = choose|gi: int| 0 <= gi < group_ids(d.groups@).len() && group_ids(d.groups@)[gi] == g.0;
                assert(d.groups@[gi].id.0 == g.0);
                assert(d.groups@[gi].id == g);
            },
        },
    }
}

} // verus!
