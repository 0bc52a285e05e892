//! The span tree of a trace: the root holds each group, in supplied order,
//! with the tracks that name it, then the ungrouped tracks; each track holds
//! its items in key order. Spans are numbered as they are made, children
//! before their parent, and each number is recorded with what it stands for.

use vstd::prelude::*;

use crate::widget::flame_graph::data::{forest_span_height, span_height, SpanId, SpanTree};
use crate::widget::trace_view::data::{GroupId, ItemId, TraceData, TraceTrack, TrackId};
use crate::widget::trace_view::order::{keys_of, lemma_sort_len, sort_keys, sorted_keys, ItemKey};
use crate::widget::trace_view::validate::{
    item_count, items_count, lemma_sum_prefix_le, size_ok, sum_of, MAX_ITEMS,
};

verus! {

/// What a span of the projected tree stands for.
#[derive(Clone, Copy, Debug, PartialEq, Eq, Structural)]
pub enum TraceSpan {
    Root,
    Group(GroupId),
    Track(TrackId),
    Item(ItemId),
}

/// What projecting has recorded so far: what each span number stands for
/// (span `i` at index `i`), and the span of each item, group and track by
/// the raw value of its id, in the order they were made.
#[verifier::ext_equal]
pub struct Projection {
    pub spans: Seq<TraceSpan>,
    pub items: Seq<(u64, SpanId)>,
    pub groups: Seq<(u32, SpanId)>,
    pub tracks: Seq<(u32, SpanId)>,
}

/// The span numbers of a tree, as a plain value.
#[verifier::ext_equal]
pub struct Shape {
    pub id: SpanId,
    pub children: Seq<Shape>,
}

/// The span numbers of a span tree.
pub open spec fn shape_of(t: SpanTree) -> Shape
    decreases t,
{
    Shape { id: t.id, children: shapes_of(t.children@) }
}

/// The span numbers of a list of span trees.
pub open spec fn shapes_of(ts: Seq<SpanTree>) -> Seq<Shape>
    decreases ts,
{
    if ts.len() == 0 {
        Seq::empty()
    } else {
        shapes_of(ts.drop_last()).push(shape_of(ts.last()))
    }
}

/// Nothing recorded yet.
pub open spec fn empty_projection() -> Projection {
    Projection { spans: Seq::empty(), items: Seq::empty(), groups: Seq::empty(), tracks: Seq::empty() }
}

/// The number of the next span.
pub open spec fn next_id(p: Projection) -> SpanId {
    SpanId(p.spans.len() as u32)
}

/// What span `id` stands for, when it was recorded.
pub open spec fn span_kind(spans: Seq<TraceSpan>, id: SpanId) -> Option<TraceSpan> {
    if (id.0 as int) < spans.len() {
        Some(spans[id.0 as int])
    } else {
        None
    }
}

/// Whether every recorded item, group and track span stands for that item,
/// group or track.
pub open spec fn index_ok(p: Projection) -> bool {
    &&& forall|i: int|
        0 <= i < p.items.len() ==> span_kind(p.spans, (#[trigger] p.items[i]).1) == Some(
            TraceSpan::Item(ItemId(p.items[i].0)),
        )
    &&& forall|i: int|
        0 <= i < p.groups.len() ==> span_kind(p.spans, (#[trigger] p.groups[i]).1) == Some(
            TraceSpan::Group(GroupId(p.groups[i].0)),
        )
    &&& forall|i: int|
        0 <= i < p.tracks.len() ==> span_kind(p.spans, (#[trigger] p.tracks[i]).1) == Some(
            TraceSpan::Track(TrackId(p.tracks[i].0)),
        )
}

/// One leaf per key, in order, each standing for the key's item.
pub open spec fn proj_leaves(p: Projection, keys: Seq<ItemKey>) -> (Seq<Shape>, Projection)
    decreases keys.len(),
{
    if keys.len() == 0 {
        (Seq::empty(), p)
    } else {
        let r = proj_leaves(p, keys.drop_last());
        let q = r.1;
        let k = keys.last();
        let id = next_id(q);
        (
            r.0.push(Shape { id, children: Seq::empty() }),
            Projection {
                spans: q.spans.push(TraceSpan::Item(ItemId(k.id))),
                items: q.items.push((k.id, id)),
                ..q
            },
        )
    }
}

/// A track's span, over the leaves of its items in key order.
pub open spec fn proj_track(p: Projection, t: TraceTrack) -> (Shape, Projection) {
    let r = proj_leaves(p, sort_keys(keys_of(t.items@)));
    let q = r.1;
    let id = next_id(q);
    (
        Shape { id, children: r.0 },
        Projection { spans: q.spans.push(TraceSpan::Track(t.id)), tracks: q.tracks.push((t.id.0, id)), ..q },
    )
}

/// The spans of a list of tracks, in order.
pub open spec fn proj_tracks(p: Projection, ts: Seq<TraceTrack>) -> (Seq<Shape>, Projection)
    decreases ts.len(),
{
    if ts.len() == 0 {
        (Seq::empty(), p)
    } else {
        let r = proj_tracks(p, ts.drop_last());
        let s = proj_track(r.1, ts.last());
        (r.0.push(s.0), s.1)
    }
}

/// Whether a track names the group `g` (or none, for `None`).
pub open spec fn in_group(g: Option<GroupId>) -> spec_fn(TraceTrack) -> bool {
    |t: TraceTrack| t.group == g
}

/// The spans of the groups, in order, each over the tracks that name it.
pub open spec fn proj_groups(p: Projection, gs: Seq<crate::widget::trace_view::data::TraceGroup>, ts: Seq<TraceTrack>) -> (
    Seq<Shape>,
    Projection,
)
    decreases gs.len(),
{
    if gs.len() == 0 {
        (Seq::empty(), p)
    } else {
        let r = proj_groups(p, gs.drop_last(), ts);
        let g = gs.last();
        let s = proj_tracks(r.1, ts.filter(in_group(Some(g.id))));
        let q = s.1;
        let id = next_id(q);
        (
            r.0.push(Shape { id, children: s.0 }),
            Projection { spans: q.spans.push(TraceSpan::Group(g.id)), groups: q.groups.push((g.id.0, id)), ..q },
        )
    }
}

/// The whole tree of a dataset: the root over the groups, then the
/// ungrouped tracks.
pub open spec fn project(d: TraceData) -> (Shape, Projection) {
    let r = proj_groups(empty_projection(), d.groups@, d.tracks@);
    let s = proj_tracks(r.1, d.tracks@.filter(in_group(None)));
    let q = s.1;
    (Shape { id: next_id(q), children: r.0 + s.0 }, Projection { spans: q.spans.push(TraceSpan::Root), ..q })
}

/// Spans that a track makes: its own and one per item.
pub open spec fn track_nodes() -> spec_fn(TraceTrack) -> nat {
    |t: TraceTrack| 1 + t.items@.len()
}

/// Spans that a list of tracks makes.
pub open spec fn tracks_nodes(ts: Seq<TraceTrack>) -> nat {
    sum_of(ts, track_nodes())
}

proof fn lemma_forest_height_le(ns: Seq<SpanTree>, h: nat)
    requires
        forall|i: int| 0 <= i < ns.len() ==> span_height(#[trigger] ns[i]) <= h,
    ensures
        forest_span_height(ns) <= h,
    decreases ns.len(),
{
    if ns.len() > 0 {
        assert(span_height(ns[0]) <= h);
        lemma_forest_height_le(ns.drop_first(), h);
    }
}

proof fn lemma_shapes_concat(a: Seq<SpanTree>, b: Seq<SpanTree>)
    ensures
        shapes_of(a + b) == shapes_of(a) + shapes_of(b),
    decreases b.len(),
{
    if b.len() == 0 {
        assert(a + b =~= a);
        assert(shapes_of(a) + shapes_of(b) =~= shapes_of(a));
    } else {
        lemma_shapes_concat(a, b.drop_last());
        assert((a + b).drop_last() =~= a + b.drop_last());
        assert((a + b).last() == b.last());
        assert(shapes_of(a) + shapes_of(b) =~= (shapes_of(a) + shapes_of(b.drop_last())).push(shape_of(b.last())));
    }
}

proof fn lemma_items_count_ge(s: Seq<crate::widget::trace_view::data::TraceItem>)
    ensures
        s.len() <= items_count(s),
    decreases s.len(),
{
    if s.len() > 0 {
        lemma_items_count_ge(s.drop_last());
        assert(item_count(s.last()) >= 1);
    }
}

proof fn lemma_nodes_le(ts: Seq<TraceTrack>)
    ensures
        tracks_nodes(ts) <= ts.len() + sum_of(ts, |t: TraceTrack| items_count(t.items@)),
    decreases ts.len(),
{
    if ts.len() > 0 {
        lemma_nodes_le(ts.drop_last());
        lemma_items_count_ge(ts.last().items@);
    }
}

/// Within the admission bounds, every span number of the tree fits a `u32`.
pub(crate) proof fn lemma_span_budget(d: TraceData)
    requires
        size_ok(d),
    ensures
        d.groups@.len() * (1 + tracks_nodes(d.tracks@)) + tracks_nodes(d.tracks@) + 1 <= u32::MAX,
{
    lemma_nodes_le(d.tracks@);
    let g = d.groups@.len();
    let n = tracks_nodes(d.tracks@);
    assert(n <= 4096 + MAX_ITEMS);
    assert(g * (1 + n) <= 4096 * (1 + 4096 + 65536)) by (nonlinear_arith)
        requires
            g <= 4096,
            n <= 4096 + 65536,
    ;
}

fn same_group(a: Option<GroupId>, b: Option<GroupId>) -> (r: bool)
    ensures
        r == (a == b),
{
    match (a, b) {
        (Some(x), Some(y)) => x.0 == y.0,
        (None, None) => true,
        _ => false,
    }
}

/// The spans made so far, with the indexes of items, groups and tracks.
pub(crate) struct Builder {
    pub(crate) spans: Vec<TraceSpan>,
    pub(crate) items: Vec<(u64, SpanId)>,
    pub(crate) groups: Vec<(u32, SpanId)>,
    pub(crate) tracks: Vec<(u32, SpanId)>,
}

impl Builder {
    pub(crate) open spec fn proj(&self) -> Projection {
        Projection { spans: self.spans@, items: self.items@, groups: self.groups@, tracks: self.tracks@ }
    }

    fn leaves(&mut self, keys: &Vec<ItemKey>) -> (cs: Vec<SpanTree>)
        requires
            old(self).spans@.len() + keys@.len() <= u32::MAX,
            index_ok(old(self).proj()),
        ensures
            index_ok(final(self).proj()),
            (shapes_of(cs@), final(self).proj()) == proj_leaves(old(self).proj(), keys@),
            final(self).spans@.len() == old(self).spans@.len() + keys@.len(),
            forall|i: int| 0 <= i < cs@.len() ==> span_height(#[trigger] cs@[i]) <= 1,
    {
        let ghost p0 = self.proj();
        let mut cs: Vec<SpanTree> = Vec::new();
        let mut i: usize = 0;
        assert(keys@.take(0) =~= Seq::<ItemKey>::empty());
        while i < keys.len()
            invariant
                i <= keys@.len(),
                p0.spans.len() + keys@.len() <= u32::MAX,
                self.spans@.len() == p0.spans.len() + i,
                index_ok(self.proj()),
                (shapes_of(cs@), self.proj()) == proj_leaves(p0, keys@.take(i as int)),
                forall|j: int| 0 <= j < cs@.len() ==> span_height(#[trigger] cs@[j]) <= 1,
            decreases keys@.len() - i,
        {
            let k = keys[i];
            let id = SpanId(self.spans.len() as u32);
            let ghost q = self.proj();
            self.spans.push(TraceSpan::Item(ItemId(k.id)));
            self.items.push((k.id, id));
            let leaf = SpanTree::leaf(id);
            let ghost cs0 = cs@;
            cs.push(leaf);
            proof {
                assert(keys@.take(i + 1).drop_last() =~= keys@.take(i as int));
                assert(cs@.drop_last() =~= cs0);
                assert(shapes_of(leaf.children@) =~= Seq::<Shape>::empty());
                assert(shape_of(leaf) =~= Shape { id, children: Seq::empty() });
                assert(shapes_of(cs@) =~= shapes_of(cs0).push(Shape { id, children: Seq::empty() }));
                assert(forest_span_height(leaf.children@) == 0);
                assert(self.proj() =~= Projection {
                    spans: q.spans.push(TraceSpan::Item(ItemId(k.id))),
                    items: q.items.push((k.id, id)),
                    ..q
                });
            }
            i += 1;
        }
        assert(keys@.take(keys@.len() as int) =~= keys@);
        cs
    }

    fn track(&mut self, t: &TraceTrack) -> (n: SpanTree)
        requires
            old(self).spans@.len() + 1 + t.items@.len() <= u32::MAX,
            index_ok(old(self).proj()),
        ensures
            index_ok(final(self).proj()),
            (shape_of(n), final(self).proj()) == proj_track(old(self).proj(), *t),
            final(self).spans@.len() == old(self).spans@.len() + 1 + t.items@.len(),
            span_height(n) <= 2,
    {
        let keys = sorted_keys(&t.items);
        proof {
            lemma_sort_len(keys_of(t.items@));
        }
        let cs = self.leaves(&keys);
        let id = SpanId(self.spans.len() as u32);
        let ghost q = self.proj();
        self.spans.push(TraceSpan::Track(t.id));
        self.tracks.push((t.id.0, id));
        proof {
            lemma_forest_height_le(cs@, 1);
            assert(self.proj() =~= Projection {
                spans: q.spans.push(TraceSpan::Track(t.id)),
                tracks: q.tracks.push((t.id.0, id)),
                ..q
            });
        }
        SpanTree::node(id, cs)
    }

    fn tracks_in(&mut self, tracks: &Vec<TraceTrack>, group: Option<GroupId>) -> (cs: Vec<SpanTree>)
        requires
            old(self).spans@.len() + tracks_nodes(tracks@) <= u32::MAX,
            index_ok(old(self).proj()),
        ensures
            index_ok(final(self).proj()),
            (shapes_of(cs@), final(self).proj()) == proj_tracks(old(self).proj(), tracks@.filter(in_group(group))),
            final(self).spans@.len() <= old(self).spans@.len() + tracks_nodes(tracks@),
            forall|i: int| 0 <= i < cs@.len() ==> span_height(#[trigger] cs@[i]) <= 2,
    {
        let ghost p0 = self.proj();
        let ghost pred = in_group(group);
        let mut cs: Vec<SpanTree> = Vec::new();
        let mut i: usize = 0;
        assert(tracks@.take(0) =~= Seq::<TraceTrack>::empty());
        assert(tracks@.take(0).filter(pred) =~= Seq::<TraceTrack>::empty());
        while i < tracks.len()
            invariant
                i <= tracks@.len(),
                pred == in_group(group),
                p0.spans.len() + tracks_nodes(tracks@) <= u32::MAX,
                (shapes_of(cs@), self.proj()) == proj_tracks(p0, tracks@.take(i as int).filter(pred)),
                index_ok(self.proj()),
                self.spans@.len() == p0.spans.len() + tracks_nodes(tracks@.take(i as int).filter(pred)),
                tracks_nodes(tracks@.take(i as int).filter(pred)) <= tracks_nodes(tracks@.take(i as int)),
                forall|j: int| 0 <= j < cs@.len() ==> span_height(#[trigger] cs@[j]) <= 2,
            decreases tracks@.len() - i,
        {
            let t = &tracks[i];
            let ghost f0 = tracks@.take(i as int).filter(pred);
            proof {
                assert(tracks@.take(i + 1) =~= tracks@.take(i as int).push(*t));
                tracks@.take(i as int).lemma_filter_push(*t, pred);
                assert(tracks@.take(i + 1).drop_last() =~= tracks@.take(i as int));
                lemma_sum_prefix_le(tracks@, track_nodes(), i + 1);
                assert(tracks@.subrange(0, i + 1) =~= tracks@.take(i + 1));
            }
            if same_group(t.group, group) {
                proof {
                    assert(f0.push(*t).drop_last() =~= f0);
                }
                let n = self.track(t);
                let ghost cs0 = cs@;
                cs.push(n);
                proof {
                    assert(cs@.drop_last() =~= cs0);
                }
            }
            i += 1;
        }
        assert(tracks@.take(tracks@.len() as int) =~= tracks@);
        cs
    }

    fn groups(&mut self, data: &TraceData) -> (cs: Vec<SpanTree>)
        requires
            old(self).spans@.len() + data.groups@.len() * (1 + tracks_nodes(data.tracks@)) <= u32::MAX,
            index_ok(old(self).proj()),
        ensures
            index_ok(final(self).proj()),
            (shapes_of(cs@), final(self).proj()) == proj_groups(old(self).proj(), data.groups@, data.tracks@),
            final(self).spans@.len() <= old(self).spans@.len() + data.groups@.len() * (1 + tracks_nodes(
                data.tracks@,
            )),
            forall|i: int| 0 <= i < cs@.len() ==> span_height(#[trigger] cs@[i]) <= 3,
    {
        let ghost p0 = self.proj();
        let ghost n = tracks_nodes(data.tracks@);
        let ghost g = data.groups@.len();
        let mut cs: Vec<SpanTree> = Vec::new();
        let mut i: usize = 0;
        assert(data.groups@.take(0) =~= Seq::<crate::widget::trace_view::data::TraceGroup>::empty());
        while i < data.groups.len()
            invariant
                i <= g,
                g == data.groups@.len(),
                n == tracks_nodes(data.tracks@),
                p0.spans.len() + g * (1 + n) <= u32::MAX,
                (shapes_of(cs@), self.proj()) == proj_groups(p0, data.groups@.take(i as int), data.tracks@),
                index_ok(self.proj()),
                self.spans@.len() <= p0.spans.len() + i * (1 + n),
                forall|j: int| 0 <= j < cs@.len() ==> span_height(#[trigger] cs@[j]) <= 3,
            decreases g - i,
        {
            let group = &data.groups[i];
            proof {
                assert(data.groups@.take(i + 1).drop_last() =~= data.groups@.take(i as int));
                assert((i + 1) * (1 + n) == i * (1 + n) + (1 + n)) by (nonlinear_arith);
                assert((i + 1) * (1 + n) <= g * (1 + n)) by (nonlinear_arith)
                    requires
                        i + 1 <= g,
                ;
            }
            let tcs = self.tracks_in(&data.tracks, Some(group.id));
            let id = SpanId(self.spans.len() as u32);
            let ghost q = self.proj();
            self.spans.push(TraceSpan::Group(group.id));
            self.groups.push((group.id.0, id));
            proof {
                lemma_forest_height_le(tcs@, 2);
                assert(self.proj() =~= Projection {
                    spans: q.spans.push(TraceSpan::Group(group.id)),
                    groups: q.groups.push((group.id.0, id)),
                    ..q
                });
            }
            let ghost tshapes = shapes_of(tcs@);
            let node = SpanTree::node(id, tcs);
            let ghost cs0 = cs@;
            cs.push(node);
            proof {
                assert(cs@.drop_last() =~= cs0);
                assert(shape_of(node) =~= Shape { id, children: tshapes });
                assert(shapes_of(cs@) =~= shapes_of(cs0).push(Shape { id, children: tshapes }));
            }
            i += 1;
        }
        assert(data.groups@.take(g as int) =~= data.groups@);
        cs
    }
}

/// Build the span tree of an admitted dataset, with what each span stands
/// for and the span of each item, group and track.
pub(crate) fn project_tree(data: &TraceData) -> (r: (SpanTree, Builder))
    requires
        size_ok(*data),
    ensures
        (shape_of(r.0), r.1.proj()) == project(*data),
        index_ok(r.1.proj()),
        span_height(r.0) <= 4,
{
    proof {
        lemma_span_budget(*data);
    }
    let mut b = Builder { spans: Vec::new(), items: Vec::new(), groups: Vec::new(), tracks: Vec::new() };
    assert(b.proj() =~= empty_projection());
    let mut gcs = b.groups(data);
    let mut tcs = b.tracks_in(&data.tracks, None);
    let ghost g0 = gcs@;
    let ghost t0 = tcs@;
    gcs.append(&mut tcs);
    let id = SpanId(b.spans.len() as u32);
    let ghost q = b.proj();
    b.spans.push(TraceSpan::Root);
    proof {
        lemma_shapes_concat(g0, t0);
        assert forall|i: int| 0 <= i < gcs@.len() implies span_height(#[trigger] gcs@[i]) <= 3 by {
            if i >= g0.len() {
                assert(gcs@[i] == t0[i - g0.len()]);
            }
        }
        lemma_forest_height_le(gcs@, 3);
        assert(b.proj() =~= Projection { spans: q.spans.push(TraceSpan::Root), ..q });
    }
    (SpanTree::node(id, gcs), b)
}

} // verus!
