//! Which span each group and track record of the projection names, and the
//! identities that admission keeps distinct.

use vstd::prelude::*;

use crate::widget::trace_view::data::{TraceGroup, TraceTrack};
use crate::widget::trace_view::identity::{admit_track, first_repeat, tracks_fold};
use crate::widget::trace_view::order::ItemKey;
use crate::widget::trace_view::projection::{
    in_group, proj_groups, proj_leaves, proj_track, proj_tracks, Projection, Shape,
};

verus! {

/// The track records a list of tracks makes: each track's id with the span
/// of its shape.
pub open spec fn track_records(ts: Seq<TraceTrack>, cs: Seq<Shape>) -> Seq<(u32, crate::widget::flame_graph::data::SpanId)> {
    Seq::new(ts.len(), |j: int| (ts[j].id.0, cs[j].id))
}

proof fn lemma_leaves_frame(p: Projection, keys: Seq<ItemKey>)
    ensures
        proj_leaves(p, keys).1.tracks == p.tracks,
        proj_leaves(p, keys).1.groups == p.groups,
    decreases keys.len(),
{
    if keys.len() > 0 {
        lemma_leaves_frame(p, keys.drop_last());
    }
}

/// Projecting tracks records each track, in order, with its shape's span;
/// group records are untouched.
pub proof fn lemma_tracks_records(p: Projection, ts: Seq<TraceTrack>)
    ensures
        proj_tracks(p, ts).0.len() == ts.len(),
        proj_tracks(p, ts).1.tracks == p.tracks + track_records(ts, proj_tracks(p, ts).0),
        proj_tracks(p, ts).1.groups == p.groups,
    decreases ts.len(),
{
    if ts.len() > 0 {
        lemma_tracks_records(p, ts.drop_last());
        let r0 = proj_tracks(p, ts.drop_last());
        let r = proj_tracks(p, ts);
        lemma_leaves_frame(r0.1, crate::widget::trace_view::order::sort_keys(
            crate::widget::trace_view::order::keys_of(ts.last().items@),
        ));
        assert(r.0 == r0.0.push(proj_track(r0.1, ts.last()).0));
        assert(r.1.tracks =~= p.tracks + track_records(ts, r.0)) by {
            assert(r.1.tracks == r0.1.tracks.push((ts.last().id.0, r.0.last().id)));
            assert forall|j: int| 0 <= j < ts.len() - 1 implies #[trigger] track_records(ts, r.0)[j]
                == track_records(ts.drop_last(), r0.0)[j] by {
                assert(ts.drop_last()[j] == ts[j]);
                assert(r.0[j] == r0.0[j]);
            }
            assert(track_records(ts, r.0) =~= track_records(ts.drop_last(), r0.0).push(
                (ts.last().id.0, r.0.last().id),
            ));
        }
    }
}

/// The group records that projecting groups makes: each group's id with the
/// span of its shape.
pub open spec fn group_records(gs: Seq<TraceGroup>, cs: Seq<Shape>) -> Seq<(u32, crate::widget::flame_graph::data::SpanId)> {
    Seq::new(gs.len(), |i: int| (gs[i].id.0, cs[i].id))
}

/// Whether record `e` is that of the `j`-th track naming the `i`-th group,
/// with the span of that track's shape under the group's shape `cs[i]`.
pub open spec fn record_at(
    gs: Seq<TraceGroup>,
    ts: Seq<TraceTrack>,
    cs: Seq<Shape>,
    e: (u32, crate::widget::flame_graph::data::SpanId),
    i: int,
    j: int,
) -> bool {
    &&& 0 <= i < gs.len()
    &&& 0 <= j < ts.filter(in_group(Some(gs[i].id))).len()
    &&& e.0 == ts.filter(in_group(Some(gs[i].id)))[j].id.0
    &&& e.1 == cs[i].children[j].id
}

/// Whether `q` holds the track record `(key, v)`.
pub open spec fn has_track_record(q: Projection, key: u32, v: crate::widget::flame_graph::data::SpanId) -> bool {
    exists|x: int| 0 <= x < q.tracks.len() && #[trigger] q.tracks[x] == (key, v)
}

/// Whether record `e` is that of some track under some group.
pub open spec fn grouped_record(
    gs: Seq<TraceGroup>,
    ts: Seq<TraceTrack>,
    cs: Seq<Shape>,
    e: (u32, crate::widget::flame_graph::data::SpanId),
) -> bool {
    exists|i: int, j: int| #[trigger] record_at(gs, ts, cs, e, i, j)
}

/// Projecting groups records each group, in order, with its shape's span;
/// each group's shape holds the shapes of the tracks that name it, and
/// every track record it makes names one of those.
pub proof fn lemma_groups_records(p: Projection, gs: Seq<TraceGroup>, ts: Seq<TraceTrack>)
    ensures
        proj_groups(p, gs, ts).0.len() == gs.len(),
        proj_groups(p, gs, ts).1.groups == p.groups + group_records(gs, proj_groups(p, gs, ts).0),
        p.tracks.len() <= proj_groups(p, gs, ts).1.tracks.len(),
        proj_groups(p, gs, ts).1.tracks.subrange(0, p.tracks.len() as int) == p.tracks,
        forall|i: int|
            0 <= i < gs.len() ==> (#[trigger] proj_groups(p, gs, ts).0[i]).children.len() == ts.filter(
                in_group(Some(gs[i].id)),
            ).len(),
        forall|x: int|
            p.tracks.len() <= x < proj_groups(p, gs, ts).1.tracks.len() ==> grouped_record(
                gs,
                ts,
                proj_groups(p, gs, ts).0,
                #[trigger] proj_groups(p, gs, ts).1.tracks[x],
            ),
        forall|i: int, j: int|
            0 <= i < gs.len() && 0 <= j < ts.filter(in_group(Some(gs[i].id))).len() ==> has_track_record(
                proj_groups(p, gs, ts).1,
                (#[trigger] ts.filter(in_group(Some(gs[i].id)))[j]).id.0,
                (#[trigger] proj_groups(p, gs, ts).0[i]).children[j].id,
            ),
    decreases gs.len(),
{
    let r = proj_groups(p, gs, ts);
    if gs.len() == 0 {
        assert(r.1.tracks.subrange(0, p.tracks.len() as int) =~= p.tracks);
        assert(r.1.groups =~= p.groups + group_records(gs, r.0));
        assert(r.1.tracks.len() == p.tracks.len());
    } else {
        lemma_groups_records(p, gs.drop_last(), ts);
        let r0 = proj_groups(p, gs.drop_last(), ts);
        let g = gs.last();
        let f = ts.filter(in_group(Some(g.id)));
        lemma_tracks_records(r0.1, f);
        let s = proj_tracks(r0.1, f);
        assert(r.0 == r0.0.push(r.0.last()));
        assert(r.0.drop_last() =~= r0.0);
        assert(r.0.last().children == s.0);
        assert(r.1.tracks == s.1.tracks);
        assert(r.1.groups =~= p.groups + group_records(gs, r.0)) by {
            assert forall|i: int| 0 <= i < gs.len() - 1 implies #[trigger] group_records(gs, r.0)[i]
                == group_records(gs.drop_last(), r0.0)[i] by {
                assert(gs.drop_last()[i] == gs[i]);
                assert(r.0[i] == r0.0[i]);
            }
            assert(group_records(gs, r.0) =~= group_records(gs.drop_last(), r0.0).push((g.id.0, r.0.last().id)));
        }
        assert(r.1.tracks.subrange(0, p.tracks.len() as int) =~= r0.1.tracks.subrange(0, p.tracks.len() as int));
        assert forall|i: int| 0 <= i < gs.len() implies (#[trigger] r.0[i]).children.len() == ts.filter(
            in_group(Some(gs[i].id)),
        ).len() by {
            if i < gs.len() - 1 {
                assert(gs.drop_last()[i] == gs[i]);
                assert(r.0[i] == r0.0[i]);
            }
        }
        assert forall|x: int| p.tracks.len() <= x < r.1.tracks.len() implies grouped_record(
            gs,
            ts,
            r.0,
            #[trigger] r.1.tracks[x],
        ) by {
            if x < r0.1.tracks.len() {
                assert(r.1.tracks[x] == r0.1.tracks[x]);
                assert(grouped_record(gs.drop_last(), ts, r0.0, r0.1.tracks[x]));
                let (i, j) = choose|i: int, j: int| record_at(gs.drop_last(), ts, r0.0, r0.1.tracks[x], i, j);
                assert(gs.drop_last()[i] == gs[i]);
                assert(r.0[i] == r0.0[i]);
                assert(record_at(gs, ts, r.0, r.1.tracks[x], i, j));
            } else {
                let j = x - r0.1.tracks.len();
                let i = gs.len() - 1;
                assert(r.1.tracks[x] == track_records(f, s.0)[j]);
                assert(gs[i] == g);
                assert(ts.filter(in_group(Some(gs[i].id))) == f);
                assert(r.0[i].children == s.0);
                assert(0 <= j < f.len());
                assert(r.1.tracks[x] == (f[j].id.0, r.0[i].children[j].id));
                assert(record_at(gs, ts, r.0, r.1.tracks[x], i, j));
            }
        }
        assert forall|i: int, j: int|
            0 <= i < gs.len() && 0 <= j < ts.filter(in_group(Some(gs[i].id))).len() implies has_track_record(
            r.1,
            (#[trigger] ts.filter(in_group(Some(gs[i].id)))[j]).id.0,
            (#[trigger] r.0[i]).children[j].id,
        ) by {
            if i < gs.len() - 1 {
                assert(gs.drop_last()[i] == gs[i]);
                assert(r.0[i] == r0.0[i]);
                assert(has_track_record(
                    r0.1,
                    ts.filter(in_group(Some(gs.drop_last()[i].id)))[j].id.0,
                    r0.0[i].children[j].id,
                ));
                let x = choose|x: int| 0 <= x < r0.1.tracks.len() && #[trigger] r0.1.tracks[x] == (
                    ts.filter(in_group(Some(gs[i].id)))[j].id.0,
                    r0.0[i].children[j].id,
                );
                assert(r.1.tracks[x] == r0.1.tracks[x]);
            } else {
                assert(gs[i] == g);
                let x = r0.1.tracks.len() + j;
                assert(r.1.tracks[x] == track_records(f, s.0)[j]);
                assert(r.0[i].children == s.0);
            }
        }
    }
}

/// Admitted identities are pairwise distinct.
pub proof fn lemma_first_repeat_distinct<T>(ids: Seq<T>, seen: Set<T>)
    ensures
        first_repeat(ids, seen) is Ok ==> forall|i: int, j: int|
            0 <= i < j < ids.len() ==> #[trigger] ids[i] != #[trigger] ids[j],
        first_repeat(ids, seen) is Ok ==> forall|i: int| 0 <= i < ids.len() ==> !seen.contains(#[trigger] ids[i]),
    decreases ids.len(),
{
    if ids.len() > 0 && !seen.contains(ids[0]) {
        lemma_first_repeat_distinct(ids.drop_first(), seen.insert(ids[0]));
        if first_repeat(ids, seen) is Ok {
            assert forall|i: int, j: int| 0 <= i < j < ids.len() implies #[trigger] ids[i] != #[trigger] ids[j] by {
                assert(ids[j] == ids.drop_first()[j - 1]);
                if i > 0 {
                    assert(ids[i] == ids.drop_first()[i - 1]);
                }
            }
            assert forall|i: int| 0 <= i < ids.len() implies !seen.contains(#[trigger] ids[i]) by {
                if i > 0 {
                    assert(ids[i] == ids.drop_first()[i - 1]);
                }
            }
        }
    }
}

/// Admitted tracks have pairwise distinct ids.
pub proof fn lemma_tracks_distinct(
    ts: Seq<TraceTrack>,
    cats: Set<u16>,
    groups: Set<u32>,
    st: Set<u32>,
    si: Set<u64>,
)
    ensures
        tracks_fold(ts, cats, groups, st, si) is Ok ==> forall|i: int, j: int|
            0 <= i < j < ts.len() ==> (#[trigger] ts[i]).id != (#[trigger] ts[j]).id,
        tracks_fold(ts, cats, groups, st, si) is Ok ==> forall|i: int|
            0 <= i < ts.len() ==> !st.contains((#[trigger] ts[i]).id.0),
    decreases ts.len(),
{
    if ts.len() > 0 {
        match admit_track(ts[0], cats, groups, st, si) {
            Err(_) => {},
            Ok((st2, si2)) => {
                lemma_tracks_distinct(ts.drop_first(), cats, groups, st2, si2);
                if tracks_fold(ts, cats, groups, st, si) is Ok {
                    assert(st2 == st.insert(ts[0].id.0));
                    assert forall|i: int, j: int| 0 <= i < j < ts.len() implies (#[trigger] ts[i]).id != (
                    #[trigger] ts[j]).id by {
                        assert(ts[j] == ts.drop_first()[j - 1]);
                        if i > 0 {
                            assert(ts[i] == ts.drop_first()[i - 1]);
                        } else {
                            assert(!st2.contains(ts.drop_first()[j - 1].id.0));
                        }
                    }
                    assert forall|i: int| 0 <= i < ts.len() implies !st.contains((#[trigger] ts[i]).id.0) by {
                        if i > 0 {
                            assert(ts[i] == ts.drop_first()[i - 1]);
                        }
                    }
                }
            },
        }
    }
}

/// Filtering a list of tracks with distinct ids keeps them distinct, and
/// keeps only tracks of the list.
pub proof fn lemma_filter_distinct(ts: Seq<TraceTrack>, pred: spec_fn(TraceTrack) -> bool)
    requires
        forall|i: int, j: int| 0 <= i < j < ts.len() ==> (#[trigger] ts[i]).id != (#[trigger] ts[j]).id,
    ensures
        forall|i: int, j: int|
            0 <= i < j < ts.filter(pred).len() ==> (#[trigger] ts.filter(pred)[i]).id != (
            #[trigger] ts.filter(pred)[j]).id,
        forall|j: int| 0 <= j < ts.filter(pred).len() ==> ts.contains(#[trigger] ts.filter(pred)[j]),
        forall|j: int| 0 <= j < ts.filter(pred).len() ==> pred(#[trigger] ts.filter(pred)[j]),
    decreases ts.len(),
{
    broadcast use vstd::seq_lib::group_filter_ensures;

    if ts.len() > 0 {
        let init = ts.drop_last();
        assert forall|i: int, j: int| 0 <= i < j < init.len() implies (#[trigger] init[i]).id != (
        #[trigger] init[j]).id by {
            assert(init[i] == ts[i]);
            assert(init[j] == ts[j]);
        }
        lemma_filter_distinct(init, pred);
        assert(ts =~= init.push(ts.last()));
        init.lemma_filter_push(ts.last(), pred);
        let f0 = init.filter(pred);
        if pred(ts.last()) {
            let f = f0.push(ts.last());
            assert forall|i: int, j: int| 0 <= i < j < f.len() implies (#[trigger] f[i]).id != (#[trigger] f[j]).id by {
                if j == f.len() - 1 {
                    assert(f[i] == f0[i]);
                    assert(init.contains(f0[i]));
                    let m = choose|m: int| 0 <= m < init.len() && init[m] == f0[i];
                    assert(ts[m] == init[m]);
                    assert(ts[ts.len() - 1] == ts.last());
                } else {
                    assert(f[i] == f0[i]);
                    assert(f[j] == f0[j]);
                }
            }
            assert forall|j: int| 0 <= j < f.len() implies ts.contains(#[trigger] f[j]) by {
                if j < f.len() - 1 {
                    assert(f[j] == f0[j]);
                    let m = choose|m: int| 0 <= m < init.len() && init[m] == f0[j];
                    assert(ts[m] == init[m]);
                } else {
                    assert(ts[ts.len() - 1] == f[j]);
                }
            }
        } else {
            assert forall|j: int| 0 <= j < f0.len() implies ts.contains(#[trigger] f0[j]) by {
                let m = choose|m: int| 0 <= m < init.len() && init[m] == f0[j];
                assert(ts[m] == init[m]);
            }
        }
    }
}

} // verus!
