//! The projected tree numbers its spans in creation order, children before
//! their parent, so no span number occurs twice; the path to a span is the
//! chain of the shapes that hold it.

use vstd::prelude::*;

use crate::widget::flame_graph::data::{span_path, span_path_forest, SpanId, SpanTree};
use crate::widget::trace_view::coverage::{forest_ids, lemma_shape_id_found, lemma_shapes_index, shape_ids};
use crate::widget::trace_view::order::{keys_of, lemma_sort_len, sort_keys, ItemKey};
use crate::widget::trace_view::projection::{
    empty_projection, in_group, lemma_span_budget, next_id, proj_groups, proj_leaves, proj_track, proj_tracks,
    project, shape_of, shapes_of, tracks_nodes, Projection, Shape,
};
use crate::widget::trace_view::data::{TraceData, TraceGroup, TraceTrack};
use crate::widget::trace_view::validate::size_ok;

verus! {

/// Number of spans in a shape.
pub open spec fn shape_count(sh: Shape) -> nat
    decreases sh,
{
    1 + forest_count(sh.children)
}

/// Number of spans in a list of shapes.
pub open spec fn forest_count(cs: Seq<Shape>) -> nat
    decreases cs,
{
    if cs.len() == 0 {
        0
    } else {
        forest_count(cs.drop_last()) + shape_count(cs.last())
    }
}

/// The span numbers of a shape run from `lo` in creation order: its
/// children's first, each child after the ones before it, its own last.
pub open spec fn numbered(sh: Shape, lo: int) -> bool
    decreases sh,
{
    sh.id.0 == lo + forest_count(sh.children) && numbered_forest(sh.children, lo)
}

/// The span numbers of a list of shapes run from `lo`, one shape after the
/// other.
pub open spec fn numbered_forest(cs: Seq<Shape>, lo: int) -> bool
    decreases cs,
{
    cs.len() == 0 || (numbered_forest(cs.drop_last(), lo) && numbered(cs.last(), lo + forest_count(cs.drop_last())))
}

/// The span numbers of a numbered shape lie in its range, its own last.
pub proof fn lemma_numbered_range(sh: Shape, lo: int)
    requires
        numbered(sh, lo),
    ensures
        forall|t: SpanId| #[trigger] shape_ids(sh).contains(t) ==> lo <= t.0 < lo + shape_count(sh),
        sh.id.0 == lo + shape_count(sh) - 1,
    decreases sh, 1nat,
{
    lemma_numbered_forest_range(sh.children, lo);
    assert(shape_ids(sh) == set![sh.id].union(forest_ids(sh.children)));
    assert forall|t: SpanId| #[trigger] shape_ids(sh).contains(t) implies lo <= t.0 < lo + shape_count(sh) by {
        if t != sh.id {
            assert(forest_ids(sh.children).contains(t));
        }
    }
}

/// The span numbers of a numbered list lie in its range.
pub proof fn lemma_numbered_forest_range(cs: Seq<Shape>, lo: int)
    requires
        numbered_forest(cs, lo),
    ensures
        forall|t: SpanId| #[trigger] forest_ids(cs).contains(t) ==> lo <= t.0 < lo + forest_count(cs),
    decreases cs, 0nat,
{
    if cs.len() > 0 {
        let m = lo + forest_count(cs.drop_last());
        lemma_numbered_forest_range(cs.drop_last(), lo);
        lemma_numbered_range(cs.last(), m);
        assert(forest_ids(cs) == forest_ids(cs.drop_last()).union(shape_ids(cs.last())));
        assert forall|t: SpanId| #[trigger] forest_ids(cs).contains(t) implies lo <= t.0 < lo + forest_count(cs) by {
            if forest_ids(cs.drop_last()).contains(t) {
            } else {
                assert(shape_ids(cs.last()).contains(t));
            }
        }
    } else {
        assert(forest_ids(cs) == Set::<SpanId>::empty());
    }
}

pub(crate) proof fn lemma_forest_ids_member(cs: Seq<Shape>, j: int, t: SpanId)
    requires
        0 <= j < cs.len(),
        shape_ids(cs[j]).contains(t),
    ensures
        forest_ids(cs).contains(t),
    decreases cs.len(),
{
    assert(forest_ids(cs) == forest_ids(cs.drop_last()).union(shape_ids(cs.last())));
    if j < cs.len() - 1 {
        assert(cs.drop_last()[j] == cs[j]);
        lemma_forest_ids_member(cs.drop_last(), j, t);
    }
}

/// Each member of a numbered list is numbered from the count of those
/// before it.
pub(crate) proof fn lemma_numbered_member(cs: Seq<Shape>, lo: int, j: int)
    requires
        numbered_forest(cs, lo),
        0 <= j < cs.len(),
    ensures
        numbered(cs[j], lo + forest_count(cs.take(j))),
        forest_count(cs.take(j + 1)) == forest_count(cs.take(j)) + shape_count(cs[j]),
        forest_count(cs.take(j + 1)) <= forest_count(cs),
    decreases cs.len(),
{
    assert(cs.take(j + 1).drop_last() =~= cs.take(j));
    assert(cs.take(j + 1).last() == cs[j]);
    if j < cs.len() - 1 {
        assert(cs.drop_last()[j] == cs[j]);
        assert(cs.drop_last().take(j) =~= cs.take(j));
        assert(cs.drop_last().take(j + 1) =~= cs.take(j + 1));
        lemma_numbered_member(cs.drop_last(), lo, j);
    } else {
        assert(cs.take(j) =~= cs.drop_last());
        assert(cs.take(j + 1) =~= cs);
    }
}

/// Where a span number is held in a numbered list: in one member only.
proof fn lemma_numbered_disjoint(cs: Seq<Shape>, lo: int, j: int, k: int, t: SpanId)
    requires
        numbered_forest(cs, lo),
        0 <= j < k < cs.len(),
        shape_ids(cs[k]).contains(t),
    ensures
        !shape_ids(cs[j]).contains(t),
{
    lemma_numbered_member(cs, lo, j);
    lemma_numbered_member(cs, lo, k);
    lemma_numbered_range(cs[j], lo + forest_count(cs.take(j)));
    lemma_numbered_range(cs[k], lo + forest_count(cs.take(k)));
    lemma_take_count_mono(cs, j + 1, k);
}

proof fn lemma_take_count_mono(cs: Seq<Shape>, a: int, b: int)
    requires
        0 <= a <= b <= cs.len(),
    ensures
        forest_count(cs.take(a)) <= forest_count(cs.take(b)),
    decreases b - a,
{
    if a < b {
        lemma_take_count_mono(cs, a, b - 1);
        assert(cs.take(b).drop_last() =~= cs.take(b - 1));
    }
}

proof fn lemma_path_in_ids(n: SpanTree, t: SpanId)
    ensures
        span_path(n, t) is Some ==> shape_ids(shape_of(n)).contains(t),
    decreases n, 0nat,
{
    assert(shape_ids(shape_of(n)) == set![n.id].union(forest_ids(shapes_of(n.children@))));
    if n.id != t {
        lemma_forest_path_in_ids(n.children@, t);
    }
}

proof fn lemma_forest_path_in_ids(ns: Seq<SpanTree>, t: SpanId)
    ensures
        span_path_forest(ns, t) is Some ==> forest_ids(shapes_of(ns)).contains(t),
    decreases ns, 1nat,
{
    if ns.len() > 0 {
        lemma_shapes_index(ns);
        lemma_shapes_index(ns.drop_first());
        lemma_path_in_ids(ns[0], t);
        lemma_forest_path_in_ids(ns.drop_first(), t);
        if span_path(ns[0], t) is Some {
            lemma_forest_ids_member(shapes_of(ns), 0, t);
        } else if span_path_forest(ns.drop_first(), t) is Some {
            let c = shapes_of(ns.drop_first());
            crate::widget::trace_view::coverage::lemma_forest_ids_index(c, t);
            let j = choose|j: int| 0 <= j < c.len() && shape_ids(#[trigger] c[j]).contains(t);
            assert(c[j] == shape_of(ns.drop_first()[j]));
            assert(ns.drop_first()[j] == ns[j + 1]);
            lemma_forest_ids_member(shapes_of(ns), j + 1, t);
        }
    }
}

proof fn lemma_forest_first(ns: Seq<SpanTree>, k: int, t: SpanId)
    requires
        0 <= k < ns.len(),
        forall|j: int| 0 <= j < k ==> span_path(#[trigger] ns[j], t) is None,
    ensures
        span_path_forest(ns, t) == span_path(ns[k], t) || span_path(ns[k], t) is None,
    decreases k,
{
    if k > 0 {
        assert(span_path(ns[0], t) is None);
        assert forall|j: int| 0 <= j < k - 1 implies span_path(#[trigger] ns.drop_first()[j], t) is None by {
            assert(ns.drop_first()[j] == ns[j + 1]);
        }
        assert(ns.drop_first()[k - 1] == ns[k]);
        lemma_forest_first(ns.drop_first(), k - 1, t);
    }
}

/// In a numbered tree, the path to a span held by the `k`-th child goes
/// through that child.
pub proof fn lemma_path_through(n: SpanTree, lo: int, k: int, t: SpanId)
    requires
        numbered(shape_of(n), lo),
        0 <= k < n.children@.len(),
        shape_ids(shape_of(n.children@[k])).contains(t),
    ensures
        span_path(n.children@[k], t) is Some,
        span_path(n, t) == Some(seq![n.id] + span_path(n.children@[k], t)->0),
{
    let cs = n.children@;
    let shs = shapes_of(cs);
    lemma_shapes_index(cs);
    lemma_shape_id_found(cs[k], t);
    lemma_numbered_range(shape_of(n), lo);
    assert(numbered_forest(shs, lo));
    lemma_numbered_member(shs, lo, k);
    lemma_numbered_range(shs[k], lo + forest_count(shs.take(k)));
    assert(shs[k] == shape_of(cs[k]));
    assert(n.id != t);
    assert forall|j: int| 0 <= j < k implies span_path(#[trigger] cs[j], t) is None by {
        lemma_numbered_disjoint(shs, lo, j, k, t);
        lemma_path_in_ids(cs[j], t);
        assert(shs[j] == shape_of(cs[j]));
    }
    lemma_forest_first(cs, k, t);
}

proof fn lemma_leaves_len(p: Projection, keys: Seq<ItemKey>)
    ensures
        proj_leaves(p, keys).1.spans.len() == p.spans.len() + keys.len(),
    decreases keys.len(),
{
    if keys.len() > 0 {
        lemma_leaves_len(p, keys.drop_last());
    }
}

proof fn lemma_track_len(p: Projection, t: TraceTrack)
    ensures
        proj_track(p, t).1.spans.len() == p.spans.len() + 1 + t.items@.len(),
{
    lemma_sort_len(keys_of(t.items@));
    lemma_leaves_len(p, sort_keys(keys_of(t.items@)));
}

proof fn lemma_tracks_len(p: Projection, ts: Seq<TraceTrack>)
    ensures
        proj_tracks(p, ts).1.spans.len() == p.spans.len() + tracks_nodes(ts),
    decreases ts.len(),
{
    if ts.len() > 0 {
        lemma_tracks_len(p, ts.drop_last());
        lemma_track_len(proj_tracks(p, ts.drop_last()).1, ts.last());
    }
}

proof fn lemma_nodes_filter_le(ts: Seq<TraceTrack>, pred: spec_fn(TraceTrack) -> bool)
    ensures
        tracks_nodes(ts.filter(pred)) <= tracks_nodes(ts),
    decreases ts.len(),
{
    if ts.len() > 0 {
        lemma_nodes_filter_le(ts.drop_last(), pred);
        assert(ts =~= ts.drop_last().push(ts.last()));
        ts.drop_last().lemma_filter_push(ts.last(), pred);
        let f = ts.drop_last().filter(pred);
        if pred(ts.last()) {
            assert(f.push(ts.last()).drop_last() =~= f);
        }
    }
}

proof fn lemma_groups_len(p: Projection, gs: Seq<TraceGroup>, ts: Seq<TraceTrack>)
    ensures
        p.spans.len() <= proj_groups(p, gs, ts).1.spans.len() <= p.spans.len() + gs.len() * (1 + tracks_nodes(ts)),
    decreases gs.len(),
{
    if gs.len() > 0 {
        lemma_groups_len(p, gs.drop_last(), ts);
        let r0 = proj_groups(p, gs.drop_last(), ts);
        let f = ts.filter(in_group(Some(gs.last().id)));
        lemma_tracks_len(r0.1, f);
        lemma_nodes_filter_le(ts, in_group(Some(gs.last().id)));
        let n = tracks_nodes(ts);
        let k = gs.len() - 1;
        assert(gs.len() * (1 + n) == k * (1 + n) + (1 + n)) by (nonlinear_arith)
            requires
                k == gs.len() - 1,
        ;
    }
}

/// Within the admission bounds, the tree's span count fits a `u32`.
proof fn lemma_project_len(d: TraceData)
    requires
        size_ok(d),
    ensures
        project(d).1.spans.len() <= u32::MAX,
{
    lemma_span_budget(d);
    let e = empty_projection();
    lemma_groups_len(e, d.groups@, d.tracks@);
    let r = proj_groups(e, d.groups@, d.tracks@);
    let f = d.tracks@.filter(in_group(None));
    lemma_tracks_len(r.1, f);
    lemma_nodes_filter_le(d.tracks@, in_group(None));
}

proof fn lemma_numbered_concat(a: Seq<Shape>, b: Seq<Shape>, lo: int)
    requires
        numbered_forest(a, lo),
        numbered_forest(b, lo + forest_count(a)),
    ensures
        numbered_forest(a + b, lo),
        forest_count(a + b) == forest_count(a) + forest_count(b),
    decreases b.len(),
{
    if b.len() == 0 {
        assert(a + b =~= a);
    } else {
        lemma_numbered_concat(a, b.drop_last(), lo);
        assert((a + b).drop_last() =~= a + b.drop_last());
        assert((a + b).last() == b.last());
    }
}

proof fn lemma_leaves_numbered(p: Projection, keys: Seq<ItemKey>)
    requires
        proj_leaves(p, keys).1.spans.len() <= u32::MAX,
    ensures
        numbered_forest(proj_leaves(p, keys).0, p.spans.len() as int),
        proj_leaves(p, keys).1.spans.len() == p.spans.len() + forest_count(proj_leaves(p, keys).0),
    decreases keys.len(),
{
    if keys.len() > 0 {
        let r0 = proj_leaves(p, keys.drop_last());
        lemma_leaves_len(p, keys.drop_last());
        lemma_leaves_len(p, keys);
        lemma_leaves_numbered(p, keys.drop_last());
        let r = proj_leaves(p, keys);
        let leaf = Shape { id: next_id(r0.1), children: Seq::empty() };
        assert(r.0 == r0.0.push(leaf));
        assert(r.0.drop_last() =~= r0.0);
        assert(forest_count(leaf.children) == 0);
        assert(numbered_forest(leaf.children, (p.spans.len() + forest_count(r0.0)) as int));
        assert(numbered(leaf, (p.spans.len() + forest_count(r0.0)) as int));
        assert(shape_count(leaf) == 1);
        assert(forest_count(r.0) == forest_count(r0.0) + shape_count(leaf));
    }
}

proof fn lemma_track_numbered(p: Projection, t: TraceTrack)
    requires
        proj_track(p, t).1.spans.len() <= u32::MAX,
    ensures
        numbered(proj_track(p, t).0, p.spans.len() as int),
        proj_track(p, t).1.spans.len() == p.spans.len() + shape_count(proj_track(p, t).0),
{
    let keys = sort_keys(keys_of(t.items@));
    lemma_leaves_numbered(p, keys);
}

proof fn lemma_tracks_numbered(p: Projection, ts: Seq<TraceTrack>)
    requires
        proj_tracks(p, ts).1.spans.len() <= u32::MAX,
    ensures
        numbered_forest(proj_tracks(p, ts).0, p.spans.len() as int),
        proj_tracks(p, ts).1.spans.len() == p.spans.len() + forest_count(proj_tracks(p, ts).0),
    decreases ts.len(),
{
    if ts.len() > 0 {
        let r0 = proj_tracks(p, ts.drop_last());
        lemma_track_len(r0.1, ts.last());
        lemma_tracks_numbered(p, ts.drop_last());
        lemma_track_numbered(r0.1, ts.last());
        let r = proj_tracks(p, ts);
        assert(r.0.drop_last() =~= r0.0);
    }
}

proof fn lemma_groups_numbered(p: Projection, gs: Seq<TraceGroup>, ts: Seq<TraceTrack>)
    requires
        proj_groups(p, gs, ts).1.spans.len() <= u32::MAX,
    ensures
        numbered_forest(proj_groups(p, gs, ts).0, p.spans.len() as int),
        proj_groups(p, gs, ts).1.spans.len() == p.spans.len() + forest_count(proj_groups(p, gs, ts).0),
    decreases gs.len(),
{
    if gs.len() > 0 {
        let r0 = proj_groups(p, gs.drop_last(), ts);
        let f = ts.filter(in_group(Some(gs.last().id)));
        let s = proj_tracks(r0.1, f);
        lemma_tracks_len(r0.1, f);
        lemma_groups_len(p, gs.drop_last(), ts);
        lemma_groups_numbered(p, gs.drop_last(), ts);
        lemma_tracks_numbered(r0.1, f);
        let r = proj_groups(p, gs, ts);
        assert(r.0.drop_last() =~= r0.0);
        let node = r.0.last();
        assert(node.children == s.0);
        assert(numbered(node, (p.spans.len() + forest_count(r0.0)) as int));
        assert(shape_count(node) == 1 + forest_count(s.0));
        assert(forest_count(r.0) == forest_count(r0.0) + shape_count(node));
    }
}

/// Within the admission bounds, the projected tree is numbered from 0 and
/// holds one span per recorded span number.
pub proof fn lemma_project_numbered(d: TraceData)
    requires
        size_ok(d),
    ensures
        numbered(project(d).0, 0),
        project(d).1.spans.len() == shape_count(project(d).0),
{
    lemma_project_len(d);
    let e = empty_projection();
    let r = proj_groups(e, d.groups@, d.tracks@);
    let f = d.tracks@.filter(in_group(None));
    let s = proj_tracks(r.1, f);
    lemma_tracks_len(r.1, f);
    lemma_groups_len(e, d.groups@, d.tracks@);
    lemma_groups_numbered(e, d.groups@, d.tracks@);
    lemma_tracks_numbered(r.1, f);
    lemma_numbered_concat(r.0, s.0, 0);
}

} // verus!
