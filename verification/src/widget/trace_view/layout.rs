//! The exact time range covered by a trace.

use vstd::prelude::*;

use crate::widget::trace_view::data::{timing_coords, TraceData, TraceItem, TraceTrack};

verus! {

/// A nonempty inclusive range over supplied trace coordinates.
#[derive(Clone, Copy, Debug, PartialEq, Eq, Structural)]
pub struct TimeWindow {
    pub start: i64,
    pub end: i64,
}

/// The coordinates recorded by a list of items (not their children), in order.
pub open spec fn items_coords(items: Seq<TraceItem>) -> Seq<i64>
    decreases items.len(),
{
    if items.len() == 0 {
        Seq::empty()
    } else {
        items_coords(items.drop_last()) + timing_coords(items.last().timing)
    }
}

/// The coordinates recorded by the top-level items of every track, in order.
pub open spec fn tracks_coords(tracks: Seq<TraceTrack>) -> Seq<i64>
    decreases tracks.len(),
{
    if tracks.len() == 0 {
        Seq::empty()
    } else {
        tracks_coords(tracks.drop_last()) + items_coords(tracks.last().items@)
    }
}

/// Smallest element of a non-empty sequence.
pub open spec fn seq_min(s: Seq<i64>) -> i64
    decreases s.len(),
{
    if s.len() <= 1 {
        s[0]
    } else {
        let m = seq_min(s.drop_last());
        if s.last() < m { s.last() } else { m }
    }
}

/// Largest element of a non-empty sequence.
pub open spec fn seq_max(s: Seq<i64>) -> i64
    decreases s.len(),
{
    if s.len() <= 1 {
        s[0]
    } else {
        let m = seq_max(s.drop_last());
        if s.last() > m { s.last() } else { m }
    }
}

/// The window fitted to the recorded coordinates: from the smallest to the
/// largest, widened by one unit when they coincide (downwards at
/// `i64::MAX`), and `0..1` when nothing is recorded.
pub open spec fn spec_fit(coords: Seq<i64>) -> TimeWindow {
    if coords.len() == 0 {
        TimeWindow { start: 0, end: 1 }
    } else {
        let lo = seq_min(coords);
        let hi = seq_max(coords);
        if lo == hi {
            if hi == i64::MAX {
                TimeWindow { start: (lo - 1) as i64, end: hi }
            } else {
                TimeWindow { start: lo, end: (hi + 1) as i64 }
            }
        } else {
            TimeWindow { start: lo, end: hi }
        }
    }
}

proof fn lemma_min_le_max(s: Seq<i64>)
    requires
        s.len() > 0,
    ensures
        seq_min(s) <= seq_max(s),
    decreases s.len(),
{
    if s.len() > 1 {
        lemma_min_le_max(s.drop_last());
    }
}

/// Fold one coordinate into the running `(min, max)` pair.
fn absorb(acc: Option<(i64, i64)>, t: i64, Ghost(seen): Ghost<Seq<i64>>) -> (r: Option<(i64, i64)>)
    requires
        acc is None <==> seen.len() == 0,
        acc matches Some((lo, hi)) ==> lo == seq_min(seen) && hi == seq_max(seen),
    ensures
        r matches Some((lo, hi)) && lo == seq_min(seen.push(t)) && hi == seq_max(seen.push(t)),
{
    assert(seen.push(t).drop_last() =~= seen);
    match acc {
        None => Some((t, t)),
        Some((lo, hi)) => Some((if t < lo { t } else { lo }, if t > hi { t } else { hi })),
    }
}

impl TimeWindow {
    /// Fit the recorded coordinates of the tracks' top-level items.
    pub fn fit(data: &TraceData) -> (w: Self)
        ensures
            w == spec_fit(tracks_coords(data.tracks@)),
            w.start < w.end,
    {
        let mut acc: Option<(i64, i64)> = None;
        let ghost mut seen: Seq<i64> = Seq::empty();
        let mut ti: usize = 0;
        while ti < data.tracks.len()
            invariant
                ti <= data.tracks@.len(),
                seen == tracks_coords(data.tracks@.subrange(0, ti as int)),
                acc is None <==> seen.len() == 0,
                acc matches Some((lo, hi)) ==> lo == seq_min(seen) && hi == seq_max(seen),
            decreases data.tracks@.len() - ti,
        {
            let track = &data.tracks[ti];
            let ghost before = seen;
            let mut ii: usize = 0;
            while ii < track.items.len()
                invariant
                    ii <= track.items@.len(),
                    seen == before + items_coords(track.items@.subrange(0, ii as int)),
                    acc is None <==> seen.len() == 0,
                    acc matches Some((lo, hi)) ==> lo == seq_min(seen) && hi == seq_max(seen),
                decreases track.items@.len() - ii,
            {
                let timing = track.items[ii].timing;
                let coords = timing.coordinates();
                let ghost mid = seen;
                if let Some(t) = coords[0] {
                    acc = absorb(acc, t, Ghost(seen));
                    proof {
                        seen = seen.push(t);
                    }
                }
                if let Some(t) = coords[1] {
                    acc = absorb(acc, t, Ghost(seen));
                    proof {
                        seen = seen.push(t);
                    }
                }
                proof {
                    assert(seen =~= mid + timing_coords(timing));
                    let sub = track.items@.subrange(0, ii + 1);
                    assert(sub.drop_last() =~= track.items@.subrange(0, ii as int));
                    assert(sub.last() == track.items@[ii as int]);
                    assert(before + items_coords(sub) =~= seen);
                }
                ii += 1;
            }
            proof {
                assert(track.items@.subrange(0, ii as int) =~= track.items@);
                let sub = data.tracks@.subrange(0, ti + 1);
                assert(sub.drop_last() =~= data.tracks@.subrange(0, ti as int));
                assert(sub.last() == data.tracks@[ti as int]);
            }
            ti += 1;
        }
        proof {
            assert(data.tracks@.subrange(0, ti as int) =~= data.tracks@);
        }
        match acc {
            None => TimeWindow { start: 0, end: 1 },
            Some((start, end)) => {
                proof {
                    lemma_min_le_max(seen);
                }
                if start == end {
                    if end == i64::MAX {
                        TimeWindow { start: start - 1, end }
                    } else {
                        TimeWindow { start, end: end + 1 }
                    }
                } else {
                    TimeWindow { start, end }
                }
            },
        }
    }
}

} // verus!
