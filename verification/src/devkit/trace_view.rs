//! The representative trace shared by the trace view's playground and its
//! snapshots: a request whose query and stage tracks show every
//! conventional semantic role.

use vstd::prelude::*;
use vstd::utf8::encode_utf8;

use crate::input::key::{KeyCode, KeyEvent, NO_MODIFIERS};

use crate::widget::trace_view::data::{
    CategoryId, GroupId, ItemId, TraceCategory, TraceData, TraceError, TraceGroup, TraceItem, TraceTimeUnit, TraceTiming,
    TraceTrack, TraceVisualRole, TrackId,
};
use crate::widget::trace_view::identity::{
    admit_track, category_ids, first_repeat, forest_pairs, group_ids, item_pairs, items_fold, spec_check_ids,
    tracks_fold,
};
use crate::widget::flame_graph::data::SpanId;
use crate::widget::flame_graph::state::{anim_ids, fresh_nav, spec_finish, unfinished};
use crate::widget::trace_view::layout::{spec_fit, tracks_coords};
use crate::widget::trace_view::projection::{project, shape_of};
use crate::widget::trace_view::state::{lookup, select_in, TraceView, TraceViewState};
use crate::widget::trace_view::validate::{
    blen, blocks_ok, blocks_text, data_items, data_text, item_count, item_ok, item_text, items_count,
    items_text, pairs_ok, pairs_text, size_ok, sum_of, track_ok, track_text,
};

verus! {

/// The moment the overview's request was admitted, in nanoseconds.
pub const OVERVIEW_BASE: i64 = 1789508908185750000;

/// Whether `c` is the category `id` with `label` and `role`.
pub open spec fn category_is(c: TraceCategory, id: u16, label: Seq<char>, role: TraceVisualRole) -> bool {
    c.id == CategoryId(id) && c.label@ == label && c.role == role
}

/// The category vocabulary: activity, scheduled, success, warning and
/// failure, with ids 0 to 4 and the matching roles.
pub open spec fn standard_categories(cs: Seq<TraceCategory>) -> bool {
    &&& cs.len() == 5
    &&& category_is(cs[0], 0, "activity"@, TraceVisualRole::Neutral)
    &&& category_is(cs[1], 1, "scheduled"@, TraceVisualRole::Scheduled)
    &&& category_is(cs[2], 2, "success"@, TraceVisualRole::Success)
    &&& category_is(cs[3], 3, "warning"@, TraceVisualRole::Warning)
    &&& category_is(cs[4], 4, "failure"@, TraceVisualRole::Failure)
}

/// Whether `it` is the fixture item `id` of `category` with `label` and
/// `timing`: the fixture's two detail pairs, no detail blocks and no nested
/// items.
pub open spec fn fixture_item(it: TraceItem, id: u64, category: u16, label: Seq<char>, timing: TraceTiming) -> bool {
    &&& it.id == ItemId(id)
    &&& it.category == CategoryId(category)
    &&& it.label@ == label
    &&& it.timing == timing
    &&& it.details@.len() == 2
    &&& it.details@[0].0@ == "source"@ && it.details@[0].1@ == "owned fixture"@
    &&& it.details@[1].0@ == "payload"@ && it.details@[1].1@ == "{\"ok\":true,\"attempt\":2}"@
    &&& it.detail_blocks@.len() == 0
    &&& it.children@.len() == 0
}

/// Whether `t` is track `id` of group 0 with `label`, no details and `n`
/// items.
pub open spec fn fixture_track(t: TraceTrack, id: u32, label: Seq<char>, n: nat) -> bool {
    &&& t.id == TrackId(id)
    &&& t.group == Some(GroupId(0))
    &&& t.label@ == label
    &&& t.details@.len() == 0
    &&& t.detail_blocks@.len() == 0
    &&& t.items@.len() == n
}

/// The overview trace: in nanoseconds, the standard categories, one group
/// (request 01a0a709), a query track (admitted, planning, completed) and a
/// stage track (work, cached, cancelled, failed).
pub open spec fn is_overview_data(d: TraceData) -> bool {
    let b = OVERVIEW_BASE;
    let q = d.tracks@[0].items@;
    let s = d.tracks@[1].items@;
    &&& d.time_unit == TraceTimeUnit::Nanoseconds
    &&& standard_categories(d.categories@)
    &&& d.groups@.len() == 1
    &&& d.groups@[0].id == GroupId(0) && d.groups@[0].label@ == "request 01a0a709"@
    &&& d.tracks@.len() == 2
    &&& fixture_track(d.tracks@[0], 0, "query"@, 3)
    &&& fixture_item(q[0], 0, 0, "admitted"@, TraceTiming::Instant(b))
    &&& fixture_item(
        q[1],
        1,
        1,
        "planning"@,
        TraceTiming::Interval { start: (b + 1_000_000) as i64, end: (b + 220_000_000) as i64 },
    )
    &&& fixture_item(q[2], 2, 2, "completed"@, TraceTiming::Instant((b + 690_000_000) as i64))
    &&& fixture_track(d.tracks@[1], 1, "stage 0"@, 4)
    &&& fixture_item(
        s[0],
        3,
        1,
        "work 0"@,
        TraceTiming::Interval { start: (b + 40_000_000) as i64, end: (b + 190_000_000) as i64 },
    )
    &&& fixture_item(s[1], 4, 2, "cached"@, TraceTiming::Instant((b + 210_000_000) as i64))
    &&& fixture_item(s[2], 5, 3, "cancelled"@, TraceTiming::Instant((b + 260_000_000) as i64))
    &&& fixture_item(s[3], 6, 4, "failed"@, TraceTiming::Instant((b + 300_000_000) as i64))
}

/// The uncertainty trace: in milliseconds, the standard categories, one
/// group (partial capture) and one evidence track whose items show
/// coinciding instants, missing endpoints, a regressing interval and
/// untimed evidence.
pub open spec fn is_uncertainty_data(d: TraceData) -> bool {
    let e = d.tracks@[0].items@;
    &&& d.time_unit == TraceTimeUnit::Milliseconds
    &&& standard_categories(d.categories@)
    &&& d.groups@.len() == 1
    &&& d.groups@[0].id == GroupId(0) && d.groups@[0].label@ == "partial capture"@
    &&& d.tracks@.len() == 1
    &&& fixture_track(d.tracks@[0], 0, "evidence"@, 6)
    &&& fixture_item(e[0], 0, 0, "observed"@, TraceTiming::Instant(20))
    &&& fixture_item(e[1], 1, 4, "failed"@, TraceTiming::Instant(20))
    &&& fixture_item(e[2], 2, 3, "missing start"@, TraceTiming::MissingStart { end: 40 })
    &&& fixture_item(e[3], 3, 3, "missing end"@, TraceTiming::MissingEnd { start: 60 })
    &&& fixture_item(e[4], 4, 4, "clock regression"@, TraceTiming::Interval { start: 80, end: 50 })
    &&& fixture_item(e[5], 5, 3, "partial coverage"@, TraceTiming::Untimed)
}

/// A text takes at most four bytes a character.
proof fn lemma_blen_le(s: Seq<char>)
    requires
        s.len() <= 1024,
    ensures
        blen(s) <= 4 * s.len(),
{
    lemma_encode_len(s);
}

proof fn lemma_encode_len(s: Seq<char>)
    ensures
        encode_utf8(s).len() <= 4 * s.len(),
    decreases s.len(),
{
    if s.len() > 0 {
        lemma_encode_len(s.drop_first());
    }
}

/// A fixture item is within every admission bound, counts once and holds
/// a bounded amount of text.
proof fn lemma_fixture_item_ok(it: TraceItem, id: u64, category: u16, label: Seq<char>, timing: TraceTiming)
    requires
        fixture_item(it, id, category, label, timing),
        label.len() <= 32,
    ensures
        item_ok(it),
        item_count(it) == 1,
        item_text(it) <= 400,
{
    reveal_strlit("source");
    reveal_strlit("owned fixture");
    reveal_strlit("payload");
    reveal_strlit("{\"ok\":true,\"attempt\":2}");
    let d = it.details@;
    lemma_blen_le(label);
    lemma_blen_le(d[0].0@);
    lemma_blen_le(d[0].1@);
    lemma_blen_le(d[1].0@);
    lemma_blen_le(d[1].1@);
    assert(pairs_ok(d)) by {
        assert forall|i: int| 0 <= i < d.len() implies blen(#[trigger] d[i].0@) <= 4096 && blen(d[i].1@) <= 4096 by {
            if i == 0 {
            } else {
            }
        }
    }
    assert(blocks_ok(it.detail_blocks@, 0));
    assert(items_count(it.children@) == 0);
    assert(items_text(it.children@) == 0);
    assert(blocks_text(it.detail_blocks@) == 0);
    reveal_with_fuel(sum_of, 3);
    assert(d.drop_last().drop_last().len() == 0);
    assert(pairs_text(d) <= 200);
}

/// Items that each count once and hold at most 400 bytes.
proof fn lemma_items_small(s: Seq<TraceItem>)
    requires
        forall|i: int| 0 <= i < s.len() ==> item_count(#[trigger] s[i]) == 1 && item_text(s[i]) <= 400,
    ensures
        items_count(s) == s.len(),
        items_text(s) <= 400 * s.len(),
    decreases s.len(),
{
    if s.len() > 0 {
        let t = s.drop_last();
        assert forall|i: int| 0 <= i < t.len() implies item_count(#[trigger] t[i]) == 1 && item_text(t[i]) <= 400 by {
            assert(t[i] == s[i]);
        }
        lemma_items_small(t);
        assert(item_count(s[s.len() - 1]) == 1);
    }
}

/// A fixture track is within every admission bound.
proof fn lemma_fixture_track_ok(t: TraceTrack, id: u32, label: Seq<char>, n: nat)
    requires
        fixture_track(t, id, label, n),
        label.len() <= 32,
        n <= 8,
        forall|i: int| 0 <= i < n ==> item_ok(#[trigger] t.items@[i]),
        forall|i: int| 0 <= i < n ==> item_count(#[trigger] t.items@[i]) == 1 && item_text(t.items@[i]) <= 400,
    ensures
        track_ok(t),
        items_count(t.items@) == n,
        track_text(t) <= 128 + 400 * n,
{
    lemma_blen_le(label);
    lemma_items_small(t.items@);
    assert(pairs_text(t.details@) == 0);
    assert(blocks_text(t.detail_blocks@) == 0);
    assert(blocks_ok(t.detail_blocks@, 0));
}

/// The overview trace is within every admission bound.
proof fn lemma_overview_size_ok(d: TraceData)
    requires
        is_overview_data(d),
    ensures
        size_ok(d),
{
    reveal_strlit("activity");
    reveal_strlit("scheduled");
    reveal_strlit("success");
    reveal_strlit("warning");
    reveal_strlit("failure");
    reveal_strlit("request 01a0a709");
    reveal_strlit("query");
    reveal_strlit("stage 0");
    reveal_strlit("admitted");
    reveal_strlit("planning");
    reveal_strlit("completed");
    reveal_strlit("work 0");
    reveal_strlit("cached");
    reveal_strlit("cancelled");
    reveal_strlit("failed");
    let b = OVERVIEW_BASE;
    let cs = d.categories@;
    let ts = d.tracks@;
    let q = ts[0].items@;
    let s = ts[1].items@;
    lemma_fixture_item_ok(q[0], 0, 0, "admitted"@, TraceTiming::Instant(b));
    lemma_fixture_item_ok(
        q[1],
        1,
        1,
        "planning"@,
        TraceTiming::Interval { start: (b + 1_000_000) as i64, end: (b + 220_000_000) as i64 },
    );
    lemma_fixture_item_ok(q[2], 2, 2, "completed"@, TraceTiming::Instant((b + 690_000_000) as i64));
    lemma_fixture_item_ok(
        s[0],
        3,
        1,
        "work 0"@,
        TraceTiming::Interval { start: (b + 40_000_000) as i64, end: (b + 190_000_000) as i64 },
    );
    lemma_fixture_item_ok(s[1], 4, 2, "cached"@, TraceTiming::Instant((b + 210_000_000) as i64));
    lemma_fixture_item_ok(s[2], 5, 3, "cancelled"@, TraceTiming::Instant((b + 260_000_000) as i64));
    lemma_fixture_item_ok(s[3], 6, 4, "failed"@, TraceTiming::Instant((b + 300_000_000) as i64));
    assert forall|i: int| 0 <= i < 3 implies item_ok(#[trigger] q[i]) by {
        if i == 0 {
        } else if i == 1 {
        } else {
        }
    }
    assert forall|i: int| 0 <= i < 3 implies item_count(#[trigger] q[i]) == 1 && item_text(q[i]) <= 400 by {
        if i == 0 {
        } else if i == 1 {
        } else {
        }
    }
    assert forall|i: int| 0 <= i < 4 implies item_ok(#[trigger] s[i]) by {
        if i == 0 {
        } else if i == 1 {
        } else if i == 2 {
        } else {
        }
    }
    assert forall|i: int| 0 <= i < 4 implies item_count(#[trigger] s[i]) == 1 && item_text(s[i]) <= 400 by {
        if i == 0 {
        } else if i == 1 {
        } else if i == 2 {
        } else {
        }
    }
    lemma_fixture_track_ok(ts[0], 0, "query"@, 3);
    lemma_fixture_track_ok(ts[1], 1, "stage 0"@, 4);
    lemma_blen_le(cs[0].label@);
    lemma_blen_le(cs[1].label@);
    lemma_blen_le(cs[2].label@);
    lemma_blen_le(cs[3].label@);
    lemma_blen_le(cs[4].label@);
    lemma_blen_le(d.groups@[0].label@);
    assert forall|i: int| 0 <= i < cs.len() implies blen((#[trigger] cs[i]).label@) <= 4096 by {
        if i == 0 {
        } else if i == 1 {
        } else if i == 2 {
        } else if i == 3 {
        } else {
        }
    }
    assert forall|i: int| 0 <= i < ts.len() implies track_ok(#[trigger] ts[i]) by {
        if i == 0 {
        } else {
        }
    }
    reveal_with_fuel(sum_of, 6);
    assert(ts.drop_last().drop_last().len() == 0);
    assert(d.groups@.drop_last().len() == 0);
    assert(cs.drop_last().drop_last().drop_last().drop_last().drop_last().len() == 0);
    assert(data_items(d) == 7);
    assert(data_text(d) <= 8388608);
}

/// Distinct identities not seen before raise no repeat, and all of them
/// end up seen.
proof fn lemma_distinct_ids_pass<T>(s: Seq<T>, seen: Set<T>)
    requires
        forall|i: int, j: int| 0 <= i < j < s.len() ==> s[i] != s[j],
        forall|i: int| 0 <= i < s.len() ==> !seen.contains(#[trigger] s[i]),
    ensures
        match first_repeat(s, seen) {
            Ok(r) => (forall|x: T| seen.contains(x) ==> r.contains(x)) && forall|i: int|
                0 <= i < s.len() ==> r.contains(#[trigger] s[i]),
            Err(_) => false,
        },
    decreases s.len(),
{
    if s.len() > 0 {
        let t = s.drop_first();
        let seen2 = seen.insert(s[0]);
        assert forall|i: int| 0 <= i < t.len() implies !seen2.contains(#[trigger] t[i]) by {
            assert(t[i] == s[i + 1]);
        }
        assert forall|i: int, j: int| 0 <= i < j < t.len() implies t[i] != t[j] by {
            assert(t[i] == s[i + 1] && t[j] == s[j + 1]);
        }
        lemma_distinct_ids_pass(t, seen2);
        let r = first_repeat(t, seen2)->Ok_0;
        assert forall|i: int| 0 <= i < s.len() implies r.contains(#[trigger] s[i]) by {
            if i > 0 {
                assert(s[i] == t[i - 1]);
            }
        }
    }
}

/// The identity pairs of items without nested items, in order.
proof fn lemma_flat_pairs(s: Seq<TraceItem>)
    requires
        forall|i: int| 0 <= i < s.len() ==> (#[trigger] s[i]).children@.len() == 0,
    ensures
        forest_pairs(s).len() == s.len(),
        forall|i: int| 0 <= i < s.len() ==> #[trigger] forest_pairs(s)[i] == (s[i].id, s[i].category),
    decreases s.len(),
{
    if s.len() > 0 {
        let t = s.drop_last();
        assert forall|i: int| 0 <= i < t.len() implies (#[trigger] t[i]).children@.len() == 0 by {
            assert(t[i] == s[i]);
        }
        lemma_flat_pairs(t);
        let last = s[s.len() - 1];
        assert(forest_pairs(last.children@) =~= Seq::<(ItemId, CategoryId)>::empty());
        assert(item_pairs(last) =~= seq![(last.id, last.category)]);
    }
}

/// Items numbered on from `k`, of known categories, after identities all
/// below `k`, are admitted, and the identities seen stay below `k` plus
/// their number.
proof fn lemma_items_fold_counting(ps: Seq<(ItemId, CategoryId)>, cats: Set<u16>, seen: Set<u64>, k: int)
    requires
        forall|i: int| 0 <= i < ps.len() ==> (#[trigger] ps[i]).0.0 == k + i,
        forall|i: int| 0 <= i < ps.len() ==> cats.contains((#[trigger] ps[i]).1.0),
        forall|x: u64| seen.contains(x) ==> x < k,
    ensures
        match items_fold(ps, cats, seen) {
            Ok(r) => forall|x: u64| r.contains(x) ==> x < k + ps.len(),
            Err(_) => false,
        },
    decreases ps.len(),
{
    if ps.len() > 0 {
        let t = ps.drop_first();
        assert(ps[0].0.0 == k);
        assert(cats.contains(ps[0].1.0));
        assert forall|i: int| 0 <= i < t.len() implies (#[trigger] t[i]).0.0 == k + 1 + i by {
            assert(t[i] == ps[i + 1]);
        }
        assert forall|i: int| 0 <= i < t.len() implies cats.contains((#[trigger] t[i]).1.0) by {
            assert(t[i] == ps[i + 1]);
        }
        lemma_items_fold_counting(t, cats, seen.insert(ps[0].0.0), k + 1);
    }
}

/// The overview trace's identities are distinct and its references known.
proof fn lemma_overview_ids_ok(d: TraceData)
    requires
        is_overview_data(d),
    ensures
        spec_check_ids(d) == Ok::<(), TraceError>(()),
{
    let cs = d.categories@;
    let cids = category_ids(cs);
    assert forall|i: int| 0 <= i < 5 implies #[trigger] cids[i] == i as u16 by {
        assert(cids[i] == cs[i].id.0);
        if i == 0 {

        } else if i == 1 {

        } else if i == 2 {

        } else if i == 3 {

        } else {

        }
    }
    assert forall|i: int, j: int| 0 <= i < j < cids.len() implies cids[i] != cids[j] by {
        assert(cids[i] == i as u16 && cids[j] == j as u16);
    }
    lemma_distinct_ids_pass(cids, Set::empty());
    let cats = first_repeat(cids, Set::empty())->Ok_0;
    assert(cats.contains(cids[0]) && cats.contains(cids[1]) && cats.contains(cids[2]) && cats.contains(cids[3])
        && cats.contains(cids[4]));
    let gids = group_ids(d.groups@);
    assert(gids[0] == 0u32);
    lemma_distinct_ids_pass(gids, Set::empty());
    let groups = first_repeat(gids, Set::empty())->Ok_0;
    assert(groups.contains(gids[0]));
    let ts = d.tracks@;
    let q = ts[0].items@;
    let s = ts[1].items@;
    assert forall|i: int| 0 <= i < q.len() implies (#[trigger] q[i]).children@.len() == 0 by {
        if i == 0 {

        } else if i == 1 {

        } else {

        }
    }
    assert forall|i: int| 0 <= i < s.len() implies (#[trigger] s[i]).children@.len() == 0 by {
        if i == 0 {

        } else if i == 1 {

        } else if i == 2 {

        } else {

        }
    }
    lemma_flat_pairs(q);
    lemma_flat_pairs(s);
    let pq = forest_pairs(q);
    let ps = forest_pairs(s);
    assert forall|i: int| 0 <= i < pq.len() implies (#[trigger] pq[i]).0.0 == 0 + i && cats.contains(pq[i].1.0) by {
        assert(pq[i] == (q[i].id, q[i].category));
        if i == 0 {

        } else if i == 1 {

        } else {

        }
    }
    assert forall|i: int| 0 <= i < ps.len() implies (#[trigger] ps[i]).0.0 == 3 + i && cats.contains(ps[i].1.0) by {
        assert(ps[i] == (s[i].id, s[i].category));
        if i == 0 {

        } else if i == 1 {

        } else if i == 2 {

        } else {

        }
    }
    lemma_items_fold_counting(pq, cats, Set::empty(), 0);
    let s1 = items_fold(pq, cats, Set::empty())->Ok_0;
    lemma_items_fold_counting(ps, cats, s1, 3);
    assert(admit_track(ts[0], cats, groups, Set::empty(), Set::empty()) == Ok::<(Set<u32>, Set<u64>), TraceError>(
        (Set::<u32>::empty().insert(0u32), s1),
    ));
    let rest = ts.drop_first();
    assert(rest[0] == ts[1]);
    assert(!Set::<u32>::empty().insert(0u32).contains(1u32));
    assert(rest.drop_first().len() == 0);
    reveal_with_fuel(tracks_fold, 3);
}

/// The overview trace is admitted.
pub proof fn lemma_overview_admitted(d: TraceData)
    requires
        is_overview_data(d),
    ensures
        size_ok(d),
        spec_check_ids(d) == Ok::<(), TraceError>(()),
{
    lemma_overview_size_ok(d);
    lemma_overview_ids_ok(d);
}

/// A category of the vocabulary.
fn category(id: u16, label: &str, role: TraceVisualRole) -> (c: TraceCategory)
    ensures
        category_is(c, id, label@, role),
{
    TraceCategory { id: CategoryId(id), label: label.to_owned(), role }
}

/// The category vocabulary with the conventional status roles.
pub fn categories() -> (r: Vec<TraceCategory>)
    ensures
        standard_categories(r@),
{
    vec![
        category(0, "activity", TraceVisualRole::Neutral),
        category(1, "scheduled", TraceVisualRole::Scheduled),
        category(2, "success", TraceVisualRole::Success),
        category(3, "warning", TraceVisualRole::Warning),
        category(4, "failure", TraceVisualRole::Failure),
    ]
}

/// One selectable item with the fixture's detail pairs.
fn item(id: u64, category: u16, label: &str, timing: TraceTiming) -> (it: TraceItem)
    ensures
        fixture_item(it, id, category, label@, timing),
{
    TraceItem {
        id: ItemId(id),
        category: CategoryId(category),
        label: label.to_owned(),
        timing,
        details: vec![
            ("source".to_owned(), "owned fixture".to_owned()),
            ("payload".to_owned(), "{\"ok\":true,\"attempt\":2}".to_owned()),
        ],
        detail_blocks: Vec::new(),
        children: Vec::new(),
    }
}

/// A track of group 0 without details.
fn track(id: u32, label: &str, items: Vec<TraceItem>) -> (t: TraceTrack)
    ensures
        fixture_track(t, id, label@, items@.len()),
        t.items@ == items@,
{
    TraceTrack {
        id: TrackId(id),
        group: Some(GroupId(0)),
        label: label.to_owned(),
        details: Vec::new(),
        detail_blocks: Vec::new(),
        items,
    }
}

/// The overview trace.
pub fn overview_data() -> (d: TraceData)
    ensures
        is_overview_data(d),
{
    let b = OVERVIEW_BASE;
    let query = track(
        0,
        "query",
        vec![
            item(0, 0, "admitted", TraceTiming::Instant(b)),
            item(1, 1, "planning", TraceTiming::Interval { start: b + 1_000_000, end: b + 220_000_000 }),
            item(2, 2, "completed", TraceTiming::Instant(b + 690_000_000)),
        ],
    );
    let stage = track(
        1,
        "stage 0",
        vec![
            item(3, 1, "work 0", TraceTiming::Interval { start: b + 40_000_000, end: b + 190_000_000 }),
            item(4, 2, "cached", TraceTiming::Instant(b + 210_000_000)),
            item(5, 3, "cancelled", TraceTiming::Instant(b + 260_000_000)),
            item(6, 4, "failed", TraceTiming::Instant(b + 300_000_000)),
        ],
    );
    TraceData {
        time_unit: TraceTimeUnit::Nanoseconds,
        categories: categories(),
        groups: vec![TraceGroup { id: GroupId(0), label: "request 01a0a709".to_owned() }],
        tracks: vec![query, stage],
    }
}

/// Whether `st` is a view of `d` just admitted: its span tree projected
/// from the data, the cursor on the root and the window fitted.
pub open spec fn fresh_view(st: TraceViewState, d: TraceData) -> bool {
    &&& st.data == d
    &&& st.index == project(d).1
    &&& shape_of(st.nav.root) == project(d).0
    &&& st.nav == fresh_nav(st.nav.root)
    &&& st.window == spec_fit(tracks_coords(d.tracks@))
}

/// A view with every transition in flight finished.
pub open spec fn settled(st: TraceViewState) -> TraceViewState {
    TraceViewState { nav: spec_finish(st.nav, anim_ids(st.nav.anims)), ..st }
}

/// Whether `v` is a sound view of its trace just admitted, then with item
/// `id` selected and revealed, and every transition that started finished.
#[verifier::opaque]
pub open spec fn is_fixture_view(v: TraceView, id: u64) -> bool {
    &&& v.wf()
    &&& v@.nav.anims.len() == 0
    &&& exists|f: TraceViewState|
        fresh_view(f, v@.data) && match lookup(f.index.items, id) {
            Some(s) => v@ == settled(select_in(f, s)),
            None => v@ == settled(f),
        }
}

/// Finish every transition in flight, as when its animation has run to the
/// end.
fn settle(view: &mut TraceView)
    requires
        old(view).wf(),
    ensures
        final(view).wf(),
        final(view)@ == settled(old(view)@),
        final(view)@.nav.anims.len() == 0,
{
    let transitions = view.graph().transitions();
    let mut finished: Vec<SpanId> = Vec::new();
    let mut i: usize = 0;
    while i < transitions.len()
        invariant
            i <= transitions@.len(),
            finished@.len() == i,
            forall|j: int| 0 <= j < i ==> #[trigger] finished@[j] == transitions@[j].span_id,
        decreases transitions@.len() - i,
    {
        finished.push(transitions[i].span_id);
        i += 1;
    }
    let ghost anims = view@.nav.anims;
    assert(finished@ =~= anim_ids(anims));
    view.finish_transitions(&finished);
    proof {
        broadcast use vstd::seq_lib::group_filter_ensures;

        let kept = anims.filter(unfinished(finished@));
        if kept.len() > 0 {
            assert(kept.contains(kept[0]));
            anims.lemma_filter_contains_rev(unfinished(finished@), kept[0]);
            let j = choose|j: int| 0 <= j < anims.len() && anims[j] == kept[0];
            assert(finished@[j] == anims[j].span_id);
            assert(finished@.contains(kept[0].span_id));
        }
    }
}

/// The overview: the overview trace admitted, with its planning item
/// (id 1) selected and revealed, and the transitions this started finished.
pub fn overview() -> (v: TraceView)
    ensures
        is_fixture_view(v, 1),
        is_overview_data(v@.data),
{
    let data = overview_data();
    proof {
        lemma_overview_admitted(data);
    }
    // The trace is admitted (lemma_overview_admitted), so this is `Ok`.
    let mut view = TraceView::new(data).unwrap();
    let ghost f = view@;
    view.select_item(ItemId(1));
    settle(&mut view);
    assert(fresh_view(f, view@.data));
    proof {
        reveal(is_fixture_view);
    }
    view
}

/// The uncertainty trace is admitted.
pub proof fn lemma_uncertainty_admitted(d: TraceData)
    requires
        is_uncertainty_data(d),
    ensures
        size_ok(d),
        spec_check_ids(d) == Ok::<(), TraceError>(()),
{
    reveal_strlit("activity");
    reveal_strlit("scheduled");
    reveal_strlit("success");
    reveal_strlit("warning");
    reveal_strlit("failure");
    reveal_strlit("partial capture");
    reveal_strlit("evidence");
    reveal_strlit("observed");
    reveal_strlit("failed");
    reveal_strlit("missing start");
    reveal_strlit("missing end");
    reveal_strlit("clock regression");
    reveal_strlit("partial coverage");
    let cs = d.categories@;
    let ts = d.tracks@;
    let e = ts[0].items@;
    lemma_fixture_item_ok(e[0], 0, 0, "observed"@, TraceTiming::Instant(20));
    lemma_fixture_item_ok(e[1], 1, 4, "failed"@, TraceTiming::Instant(20));
    lemma_fixture_item_ok(e[2], 2, 3, "missing start"@, TraceTiming::MissingStart { end: 40 });
    lemma_fixture_item_ok(e[3], 3, 3, "missing end"@, TraceTiming::MissingEnd { start: 60 });
    lemma_fixture_item_ok(e[4], 4, 4, "clock regression"@, TraceTiming::Interval { start: 80, end: 50 });
    lemma_fixture_item_ok(e[5], 5, 3, "partial coverage"@, TraceTiming::Untimed);
    assert forall|i: int| 0 <= i < 6 implies item_ok(#[trigger] e[i]) && item_count(e[i]) == 1 && item_text(e[i])
        <= 400 && e[i].children@.len() == 0 by {
        if i == 0 {
        } else if i == 1 {
        } else if i == 2 {
        } else if i == 3 {
        } else if i == 4 {
        } else {
        }
    }
    lemma_fixture_track_ok(ts[0], 0, "evidence"@, 6);
    lemma_blen_le(cs[0].label@);
    lemma_blen_le(cs[1].label@);
    lemma_blen_le(cs[2].label@);
    lemma_blen_le(cs[3].label@);
    lemma_blen_le(cs[4].label@);
    lemma_blen_le(d.groups@[0].label@);
    assert forall|i: int| 0 <= i < cs.len() implies blen((#[trigger] cs[i]).label@) <= 4096 by {
        if i == 0 {
        } else if i == 1 {
        } else if i == 2 {
        } else if i == 3 {
        } else {
        }
    }
    reveal_with_fuel(sum_of, 6);
    assert(ts.drop_last().len() == 0);
    assert(d.groups@.drop_last().len() == 0);
    assert(cs.drop_last().drop_last().drop_last().drop_last().drop_last().len() == 0);
    assert(size_ok(d));
    let cids = category_ids(cs);
    assert forall|i: int| 0 <= i < 5 implies #[trigger] cids[i] == i as u16 by {
        assert(cids[i] == cs[i].id.0);
        if i == 0 {
        } else if i == 1 {
        } else if i == 2 {
        } else if i == 3 {
        } else {
        }
    }
    assert forall|i: int, j: int| 0 <= i < j < cids.len() implies cids[i] != cids[j] by {
        assert(cids[i] == i as u16 && cids[j] == j as u16);
    }
    lemma_distinct_ids_pass(cids, Set::empty());
    let cats = first_repeat(cids, Set::empty())->Ok_0;
    assert(cats.contains(cids[0]) && cats.contains(cids[1]) && cats.contains(cids[2]) && cats.contains(cids[3])
        && cats.contains(cids[4]));
    let gids = group_ids(d.groups@);
    assert(gids[0] == 0u32);
    lemma_distinct_ids_pass(gids, Set::empty());
    let groups = first_repeat(gids, Set::empty())->Ok_0;
    assert(groups.contains(gids[0]));
    lemma_flat_pairs(e);
    let pe = forest_pairs(e);
    assert forall|i: int| 0 <= i < pe.len() implies (#[trigger] pe[i]).0.0 == 0 + i && cats.contains(pe[i].1.0) by {
        assert(pe[i] == (e[i].id, e[i].category));
        if i == 0 {
        } else if i == 1 {
        } else if i == 2 {
        } else if i == 3 {
        } else if i == 4 {
        } else {
        }
    }
    lemma_items_fold_counting(pe, cats, Set::empty(), 0);
    assert(ts.drop_first().len() == 0);
    reveal_with_fuel(tracks_fold, 2);
}

/// The uncertainty trace.
pub fn uncertainty_data() -> (d: TraceData)
    ensures
        is_uncertainty_data(d),
{
    let evidence = track(
        0,
        "evidence",
        vec![
            item(0, 0, "observed", TraceTiming::Instant(20)),
            item(1, 4, "failed", TraceTiming::Instant(20)),
            item(2, 3, "missing start", TraceTiming::MissingStart { end: 40 }),
            item(3, 3, "missing end", TraceTiming::MissingEnd { start: 60 }),
            item(4, 4, "clock regression", TraceTiming::Interval { start: 80, end: 50 }),
            item(5, 3, "partial coverage", TraceTiming::Untimed),
        ],
    );
    TraceData {
        time_unit: TraceTimeUnit::Milliseconds,
        categories: categories(),
        groups: vec![TraceGroup { id: GroupId(0), label: "partial capture".to_owned() }],
        tracks: vec![evidence],
    }
}

/// The uncertainty view: the uncertainty trace admitted, with its first
/// item (id 0) selected and revealed, and the transitions this started
/// finished.
pub fn uncertainty() -> (v: TraceView)
    ensures
        is_fixture_view(v, 0),
        is_uncertainty_data(v@.data),
{
    let data = uncertainty_data();
    proof {
        lemma_uncertainty_admitted(data);
    }
    // The trace is admitted (lemma_uncertainty_admitted), so this is `Ok`.
    let mut view = TraceView::new(data).unwrap();
    let ghost f = view@;
    view.select_item(ItemId(0));
    settle(&mut view);
    assert(fresh_view(f, view@.data));
    proof {
        reveal(is_fixture_view);
    }
    view
}

/// A playground scenario of the trace view: its name, what it shows, the
/// state it starts from, and the keys it plays.
pub struct TraceScenario {
    pub name: &'static str,
    pub description: &'static str,
    pub state: TraceView,
    pub inputs: Vec<KeyEvent>,
}

/// A key without modifiers.
fn key(code: KeyCode) -> (k: KeyEvent)
    ensures
        k == (KeyEvent { code, modifiers: NO_MODIFIERS }),
{
    KeyEvent::new(code, NO_MODIFIERS)
}

/// The interactive scenarios: the overview browsed and opened, the
/// uncertainty trace browsed, the overview focused and collapsed, and the
/// overview's details opened.
pub fn trace_view_interactive_catalog() -> (r: Vec<TraceScenario>)
    ensures
        r@.len() == 4,
        r@[0].name == "semantic-overview" && r@[0].description
            == "Trace hierarchy and every conventional semantic role",
        is_fixture_view(r@[0].state, 1) && is_overview_data(r@[0].state@.data),
        r@[0].inputs@ == seq![
            KeyEvent { code: KeyCode::Down, modifiers: NO_MODIFIERS },
            KeyEvent { code: KeyCode::Enter, modifiers: NO_MODIFIERS },
        ],
        r@[1].name == "uncertainty-and-density" && r@[1].description
            == "Missing endpoints, regression, and untimed evidence as distinct leaves",
        is_fixture_view(r@[1].state, 0) && is_uncertainty_data(r@[1].state@.data),
        r@[1].inputs@ == seq![KeyEvent { code: KeyCode::Down, modifiers: NO_MODIFIERS }],
        r@[2].name == "navigation-focus-collapse" && r@[2].description
            == "Interaction-derived selection, focus, and animated collapse",
        is_fixture_view(r@[2].state, 1) && is_overview_data(r@[2].state@.data),
        r@[2].inputs@ == seq![
            KeyEvent { code: KeyCode::Down, modifiers: NO_MODIFIERS },
            KeyEvent { code: KeyCode::Char('f'), modifiers: NO_MODIFIERS },
            KeyEvent { code: KeyCode::Char('h'), modifiers: NO_MODIFIERS },
        ],
        r@[3].name == "detail-inspector" && r@[3].description == "Selected trace timing and payload details",
        is_fixture_view(r@[3].state, 1) && is_overview_data(r@[3].state@.data),
        r@[3].inputs@ == seq![KeyEvent { code: KeyCode::Enter, modifiers: NO_MODIFIERS }],
{
    let mut r: Vec<TraceScenario> = Vec::new();
    r.push(
        TraceScenario {
            name: "semantic-overview",
            description: "Trace hierarchy and every conventional semantic role",
            state: overview(),
            inputs: vec![key(KeyCode::Down), key(KeyCode::Enter)],
        },
    );
    r.push(
        TraceScenario {
            name: "uncertainty-and-density",
            description: "Missing endpoints, regression, and untimed evidence as distinct leaves",
            state: uncertainty(),
            inputs: vec![key(KeyCode::Down)],
        },
    );
    r.push(
        TraceScenario {
            name: "navigation-focus-collapse",
            description: "Interaction-derived selection, focus, and animated collapse",
            state: overview(),
            inputs: vec![key(KeyCode::Down), key(KeyCode::Char('f')), key(KeyCode::Char('h'))],
        },
    );
    r.push(
        TraceScenario {
            name: "detail-inspector",
            description: "Selected trace timing and payload details",
            state: overview(),
            inputs: vec![key(KeyCode::Enter)],
        },
    );
    r
}

} // verus!
