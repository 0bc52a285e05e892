//! A trace presented through the flame graph's tree, navigation and
//! transition engine: what the selected row stands for, selection by item
//! identity, group disclosure, and the time window.

use vstd::prelude::*;

use crate::input::key::{KeyEvent, KeyResult};
use crate::widget::flame_graph::data::{spec_ancestor_path, SpanId};
use crate::widget::flame_graph::layout::spec_span_id_at;
use crate::widget::flame_graph::state::{
    first_index, fresh_nav, lemma_first_index, nav_rows, nav_wf, spec_finish, spec_handle_key, spec_is_expanded,
    spec_select_span, FlameGraph, NavState,
};
use crate::widget::trace_view::data::{GroupId, ItemId, TraceData, TraceError, TraceItem, TraceTrack, TrackId};
use crate::widget::trace_view::identity::admits;
use crate::widget::trace_view::validate::first_limit;
use crate::widget::trace_view::layout::{spec_fit, tracks_coords, TimeWindow};
use crate::widget::trace_view::projection::{
    in_group, index_ok, project, project_tree, shape_of, span_kind, Projection, TraceSpan,
};

verus! {

/// A trace hierarchy presented by the flame graph's tree, navigation and
/// transitions.
pub struct TraceView {
    data: TraceData,
    graph: FlameGraph,
    spans: Vec<TraceSpan>,
    item_spans: Vec<(u64, SpanId)>,
    group_spans: Vec<(u32, SpanId)>,
    track_spans: Vec<(u32, SpanId)>,
    window: TimeWindow,
}

/// The state of a trace view: the admitted data, the flame graph's state,
/// what each span stands for with the span of each item, group and track,
/// and the time window.
pub struct TraceViewState {
    pub data: TraceData,
    pub nav: NavState,
    pub index: Projection,
    pub window: TimeWindow,
}

impl View for TraceView {
    type V = TraceViewState;

    closed spec fn view(&self) -> TraceViewState {
        TraceViewState {
            data: self.data,
            nav: self.graph@,
            index: Projection {
                spans: self.spans@,
                items: self.item_spans@,
                groups: self.group_spans@,
                tracks: self.track_spans@,
            },
            window: self.window,
        }
    }
}

/// The span recorded last for `key` (a later record replaces an earlier
/// one), if any.
pub open spec fn lookup<K>(s: Seq<(K, SpanId)>, key: K) -> Option<SpanId>
    decreases s.len(),
{
    if s.len() == 0 {
        None
    } else if s.last().0 == key {
        Some(s.last().1)
    } else {
        lookup(s.drop_last(), key)
    }
}

/// What the row under the cursor stands for.
pub open spec fn spec_selected(st: TraceViewState) -> Option<TraceSpan> {
    match spec_span_id_at(nav_rows(st.nav), st.nav.cursor as int) {
        Some(id) => span_kind(st.index.spans, id),
        None => None,
    }
}

/// Whether a track has id `id`.
pub open spec fn track_is(id: TrackId) -> spec_fn(TraceTrack) -> bool {
    |t: TraceTrack| t.id == id
}

/// Whether an item has id `id`.
pub open spec fn item_is(id: ItemId) -> spec_fn(TraceItem) -> bool {
    |it: TraceItem| it.id == id
}

/// Whether one of a track's items has id `id`.
pub open spec fn holds_item(id: ItemId) -> spec_fn(TraceTrack) -> bool {
    |t: TraceTrack| exists|j: int| 0 <= j < t.items@.len() && (#[trigger] t.items@[j]).id == id
}

/// The first track with id `id`.
pub open spec fn track_with_id(ts: Seq<TraceTrack>, id: TrackId) -> Option<TraceTrack> {
    match first_index(ts, track_is(id), 0) {
        Some(k) => Some(ts[k]),
        None => None,
    }
}

/// The first track that holds an item with id `id`.
pub open spec fn track_of_item(ts: Seq<TraceTrack>, id: ItemId) -> Option<TraceTrack> {
    match first_index(ts, holds_item(id), 0) {
        Some(k) => Some(ts[k]),
        None => None,
    }
}

/// The first item with id `id` in the first track that holds one.
pub open spec fn find_item(ts: Seq<TraceTrack>, id: ItemId) -> Option<TraceItem> {
    match track_of_item(ts, id) {
        Some(t) => match first_index(t.items@, item_is(id), 0) {
            Some(j) => Some(t.items@[j]),
            None => None,
        },
        None => None,
    }
}

/// The item selected: that of an item row, none for structural rows.
pub open spec fn spec_selected_item(st: TraceViewState) -> Option<TraceItem> {
    match spec_selected(st) {
        Some(TraceSpan::Item(id)) => find_item(st.data.tracks@, id),
        _ => None,
    }
}

/// The track selected: that of a track row, or the track holding the item
/// of an item row.
pub open spec fn spec_selected_track(st: TraceViewState) -> Option<TraceTrack> {
    match spec_selected(st) {
        Some(TraceSpan::Track(id)) => track_with_id(st.data.tracks@, id),
        Some(TraceSpan::Item(id)) => track_of_item(st.data.tracks@, id),
        _ => None,
    }
}

/// The group selected: that of a group row, or the group of the selected
/// track for a track or item row.
pub open spec fn spec_selected_group(st: TraceViewState) -> Option<GroupId> {
    match spec_selected(st) {
        Some(TraceSpan::Group(id)) => Some(id),
        Some(TraceSpan::Track(_)) | Some(TraceSpan::Item(_)) => match spec_selected_track(st) {
            Some(t) => t.group,
            None => None,
        },
        _ => None,
    }
}

/// Whether a known group's span is not expanded on the navigation path;
/// `false` for an unknown group.
pub open spec fn spec_group_collapsed(st: TraceViewState, id: GroupId) -> bool {
    match lookup(st.index.groups, id.0) {
        Some(s) => !spec_is_expanded(st.nav, s),
        None => false,
    }
}

/// The span that collapsing (its own) or expanding (that of its first
/// track, when that track has one, else its own) a group selects; none for
/// an unknown group.
pub open spec fn group_target(st: TraceViewState, id: GroupId, collapsed: bool) -> Option<SpanId> {
    match lookup(st.index.groups, id.0) {
        None => None,
        Some(gs) => Some(
            if collapsed {
                gs
            } else {
                match first_index(st.data.tracks@, in_group(Some(id)), 0) {
                    Some(k) => match lookup(st.index.tracks, st.data.tracks@[k].id.0) {
                        Some(ts) => ts,
                        None => gs,
                    },
                    None => gs,
                }
            },
        ),
    }
}

/// The state after selecting span `s` in the flame graph.
pub open spec fn select_in(st: TraceViewState, s: SpanId) -> TraceViewState {
    TraceViewState { nav: spec_select_span(st.nav, s), ..st }
}

fn lookup_u64(s: &Vec<(u64, SpanId)>, key: u64) -> (r: Option<SpanId>)
    ensures
        r == lookup(s@, key),
{
    let mut j: usize = s.len();
    assert(s@.take(j as int) =~= s@);
    while j > 0
        invariant
            j <= s@.len(),
            lookup(s@, key) == lookup(s@.take(j as int), key),
        decreases j,
    {
        assert(s@.take(j as int).drop_last() =~= s@.take(j - 1));
        if s[j - 1].0 == key {
            return Some(s[j - 1].1);
        }
        j -= 1;
    }
    None
}

fn lookup_u32(s: &Vec<(u32, SpanId)>, key: u32) -> (r: Option<SpanId>)
    ensures
        r == lookup(s@, key),
{
    let mut j: usize = s.len();
    assert(s@.take(j as int) =~= s@);
    while j > 0
        invariant
            j <= s@.len(),
            lookup(s@, key) == lookup(s@.take(j as int), key),
        decreases j,
    {
        assert(s@.take(j as int).drop_last() =~= s@.take(j - 1));
        if s[j - 1].0 == key {
            return Some(s[j - 1].1);
        }
        j -= 1;
    }
    None
}

fn find_track(ts: &Vec<TraceTrack>, id: TrackId) -> (r: Option<usize>)
    ensures
        match r {
            Some(k) => k < ts@.len() && first_index(ts@, track_is(id), 0) == Some(k as int),
            None => first_index(ts@, track_is(id), 0) is None,
        },
{
    let mut k: usize = 0;
    while k < ts.len()
        invariant
            k <= ts@.len(),
            first_index(ts@, track_is(id), 0) == first_index(ts@, track_is(id), k as int),
        decreases ts@.len() - k,
    {
        if ts[k].id.0 == id.0 {
            return Some(k);
        }
        k += 1;
    }
    None
}

fn first_in_group(ts: &Vec<TraceTrack>, id: GroupId) -> (r: Option<usize>)
    ensures
        match r {
            Some(k) => k < ts@.len() && first_index(ts@, in_group(Some(id)), 0) == Some(k as int),
            None => first_index(ts@, in_group(Some(id)), 0) is None,
        },
{
    let mut k: usize = 0;
    while k < ts.len()
        invariant
            k <= ts@.len(),
            first_index(ts@, in_group(Some(id)), 0) == first_index(ts@, in_group(Some(id)), k as int),
        decreases ts@.len() - k,
    {
        let hit = match ts[k].group {
            Some(g) => g.0 == id.0,
            None => false,
        };
        if hit {
            return Some(k);
        }
        k += 1;
    }
    None
}

fn item_position(items: &Vec<TraceItem>, id: ItemId) -> (r: Option<usize>)
    ensures
        match r {
            Some(k) => k < items@.len() && first_index(items@, item_is(id), 0) == Some(k as int),
            None => first_index(items@, item_is(id), 0) is None,
        },
{
    let mut j: usize = 0;
    while j < items.len()
        invariant
            j <= items@.len(),
            first_index(items@, item_is(id), 0) == first_index(items@, item_is(id), j as int),
        decreases items@.len() - j,
    {
        if items[j].id.0 == id.0 {
            return Some(j);
        }
        j += 1;
    }
    None
}

fn track_holding(ts: &Vec<TraceTrack>, id: ItemId) -> (r: Option<usize>)
    ensures
        match r {
            Some(k) => k < ts@.len() && first_index(ts@, holds_item(id), 0) == Some(k as int),
            None => first_index(ts@, holds_item(id), 0) is None,
        },
{
    let mut k: usize = 0;
    while k < ts.len()
        invariant
            k <= ts@.len(),
            first_index(ts@, holds_item(id), 0) == first_index(ts@, holds_item(id), k as int),
        decreases ts@.len() - k,
    {
        let found = item_position(&ts[k].items, id);
        proof {
            let items = ts@[k as int].items@;
            lemma_first_index(items, item_is(id), 0);
            match first_index(items, item_is(id), 0) {
                Some(j) => {
                    assert(item_is(id)(items[j]));
                    assert(holds_item(id)(ts@[k as int]));
                },
                None => {
                    assert forall|j: int| 0 <= j < items.len() implies (#[trigger] items[j]).id != id by {
                        assert(!item_is(id)(items[j]));
                    }
                    assert(!holds_item(id)(ts@[k as int]));
                },
            }
        }
        if found.is_some() {
            return Some(k);
        }
        k += 1;
    }
    None
}

/// Whether a view's state is sound: the flame graph's state can be
/// flattened into rows, and every recorded item, group and track span
/// stands for that item, group or track.
pub open spec fn view_ok(st: TraceViewState) -> bool {
    nav_wf(st.nav) && index_ok(st.index)
}

impl TraceView {
    /// Whether this view's state is sound.
    pub open spec fn wf(&self) -> bool {
        view_ok(self@)
    }

    /// Admit a dataset and project it into a stable hierarchy: the view of
    /// its span tree with the cursor on the root and the window fitted to
    /// its coordinates. Rejects what `TraceData::validate` rejects.
    pub fn new(data: TraceData) -> (r: Result<Self, TraceError>)
        ensures
            match r {
                Ok(v) => {
                    &&& admits(data, Ok(()))
                    &&& v@.data == data
                    &&& v@.index == project(data).1
                    &&& shape_of(v@.nav.root) == project(data).0
                    &&& v@.nav == fresh_nav(v@.nav.root)
                    &&& v@.window == spec_fit(tracks_coords(data.tracks@))
                    &&& v.wf()
                },
                Err(e) => admits(data, Err(e)),
            },
            first_limit(data) matches Some(n) ==> r matches Err(TraceError::LimitExceeded(m)) && m == n,
    {
        let checked = data.validate();
        if let Err(e) = checked {
            return Err(e);
        }
        let window = TimeWindow::fit(&data);
        let (root, b) = project_tree(&data);
        let graph = FlameGraph::new(root);
        Ok(TraceView {
            data,
            graph,
            spans: b.spans,
            item_spans: b.items,
            group_spans: b.groups,
            track_spans: b.tracks,
            window,
        })
    }

    /// The admitted trace facts.
    pub fn data(&self) -> (d: &TraceData)
        ensures
            *d == self@.data,
    {
        &self.data
    }

    /// The flame graph that presents the hierarchy.
    pub fn graph(&self) -> (g: &FlameGraph)
        ensures
            g@ == self@.nav,
    {
        &self.graph
    }

    /// What each span stands for, by span number.
    pub fn spans(&self) -> (s: &Vec<TraceSpan>)
        ensures
            s@ == self@.index.spans,
    {
        &self.spans
    }

    /// Remove the flame graph's transitions that have finished.
    pub fn finish_transitions(&mut self, finished: &Vec<SpanId>)
        requires
            old(self).wf(),
        ensures
            final(self)@ == (TraceViewState { nav: spec_finish(old(self)@.nav, finished@), ..old(self)@ }),
            final(self).wf(),
    {
        self.graph.finish_transitions(finished);
    }

    /// Whether a terminal event loop should continue animation redraws.
    pub fn needs_idle_render(&self) -> (b: bool)
        ensures
            b == (self@.nav.anims.len() > 0),
    {
        self.graph.needs_idle_render()
    }

    /// Dispatch navigation through the flame graph's key handling.
    pub fn handle_key(&mut self, key: &KeyEvent) -> (r: KeyResult)
        requires
            old(self).wf(),
        ensures
            (final(self)@.nav, r) == spec_handle_key(old(self)@.nav, *key),
            final(self)@ == (TraceViewState { nav: final(self)@.nav, ..old(self)@ }),
            final(self).wf(),
    {
        self.graph.handle_key(key)
    }

    /// Record the viewport height of the last draw.
    pub fn set_viewport_height(&mut self, height: u16)
        requires
            old(self).wf(),
        ensures
            final(self)@ == (TraceViewState { nav: NavState { viewport: height, ..old(self)@.nav }, ..old(self)@ }),
            final(self).wf(),
    {
        self.graph.set_viewport_height(height);
    }

    fn selected_kind(&self) -> (r: Option<TraceSpan>)
        requires
            self.wf(),
        ensures
            r == spec_selected(self@),
    {
        match self.graph.selected_span() {
            Some(id) => {
                if (id.0 as usize) < self.spans.len() {
                    Some(self.spans[id.0 as usize])
                } else {
                    None
                }
            },
            None => None,
        }
    }

    /// The selected trace item, or none for structural rows.
    pub fn selected_item(&self) -> (r: Option<&TraceItem>)
        requires
            self.wf(),
        ensures
            match spec_selected_item(self@) {
                Some(it) => r == Some(&it),
                None => r is None,
            },
    {
        let id = match self.selected_kind() {
            Some(TraceSpan::Item(id)) => id,
            _ => return None,
        };
        let tracks = &self.data.tracks;
        match track_holding(tracks, id) {
            Some(k) => {
                proof {
                    lemma_first_index(tracks@, holds_item(id), 0);
                }
                match item_position(&tracks[k].items, id) {
                    Some(j) => Some(&tracks[k].items[j]),
                    None => None,
                }
            },
            None => None,
        }
    }

    /// The selected track: that of a track row or of an item row's item.
    pub fn selected_track(&self) -> (r: Option<&TraceTrack>)
        requires
            self.wf(),
        ensures
            match spec_selected_track(self@) {
                Some(t) => r == Some(&t),
                None => r is None,
            },
    {
        let tracks = &self.data.tracks;
        let found = match self.selected_kind() {
            Some(TraceSpan::Track(id)) => find_track(tracks, id),
            Some(TraceSpan::Item(id)) => track_holding(tracks, id),
            _ => return None,
        };
        match found {
            Some(k) => Some(&tracks[k]),
            None => None,
        }
    }

    /// The selected group: that of a group row, or the group of the
    /// selected track for a track or item row.
    pub fn selected_group(&self) -> (r: Option<GroupId>)
        requires
            self.wf(),
        ensures
            r == spec_selected_group(self@),
    {
        match self.selected_kind() {
            Some(TraceSpan::Group(id)) => Some(id),
            Some(TraceSpan::Track(_)) | Some(TraceSpan::Item(_)) => match self.selected_track() {
                Some(t) => t.group,
                None => None,
            },
            _ => None,
        }
    }

    /// Select and reveal one event by its stable identity; `false`, with
    /// nothing changed, when no span stands for it.
    pub fn select_item(&mut self, id: ItemId) -> (r: bool)
        requires
            old(self).wf(),
        ensures
            final(self).wf(),
            match lookup(old(self)@.index.items, id.0) {
                Some(s) => r == (spec_ancestor_path(old(self)@.nav.root, s).len() > 0) && final(self)@ == select_in(
                    old(self)@,
                    s,
                ),
                None => !r && final(self)@ == old(self)@,
            },
    {
        match lookup_u64(&self.item_spans, id.0) {
            Some(s) => self.graph.select_span(s),
            None => false,
        }
    }

    /// The current time window.
    pub fn time_window(&self) -> (r: (i64, i64))
        ensures
            r == (self@.window.start, self@.window.end),
    {
        (self.window.start, self.window.end)
    }

    /// Set an explicit nonempty time window; `InvalidTimeWindow`, with
    /// nothing changed, unless `start < end`.
    pub fn set_time_window(&mut self, start: i64, end: i64) -> (r: Result<(), TraceError>)
        requires
            old(self).wf(),
        ensures
            final(self).wf(),
            start >= end ==> r == Err::<(), TraceError>(TraceError::InvalidTimeWindow) && final(self)@ == old(self)@,
            start < end ==> r is Ok && final(self)@ == (TraceViewState {
                window: TimeWindow { start, end },
                ..old(self)@
            }),
    {
        if start >= end {
            return Err(TraceError::InvalidTimeWindow);
        }
        self.window = TimeWindow { start, end };
        Ok(())
    }

    /// Restore the window that contains every recorded coordinate.
    pub fn fit_time(&mut self)
        requires
            old(self).wf(),
        ensures
            final(self).wf(),
            final(self)@ == (TraceViewState {
                window: spec_fit(tracks_coords(old(self)@.data.tracks@)),
                ..old(self)@
            }),
    {
        self.window = TimeWindow::fit(&self.data);
    }

    /// Whether a known group's span is not expanded on the navigation path;
    /// `false` for an unknown group.
    pub fn is_group_collapsed(&self, id: GroupId) -> (b: bool)
        ensures
            b == spec_group_collapsed(self@, id),
    {
        match lookup_u32(&self.group_spans, id.0) {
            Some(s) => !self.graph.is_expanded(s),
            None => false,
        }
    }

    /// Collapse a group by selecting its span, or expand it by selecting
    /// its first track; `false`, with nothing changed, for an unknown group.
    pub fn set_group_collapsed(&mut self, id: GroupId, collapsed: bool) -> (r: bool)
        requires
            old(self).wf(),
        ensures
            final(self).wf(),
            match group_target(old(self)@, id, collapsed) {
                Some(t) => r == (spec_ancestor_path(old(self)@.nav.root, t).len() > 0) && final(self)@ == select_in(
                    old(self)@,
                    t,
                ),
                None => !r && final(self)@ == old(self)@,
            },
    {
        match self.group_target(id, collapsed) {
            Some(t) => self.graph.select_span(t),
            None => false,
        }
    }

    fn group_target(&self, id: GroupId, collapsed: bool) -> (r: Option<SpanId>)
        ensures
            r == group_target(self@, id, collapsed),
    {
        let group_span = match lookup_u32(&self.group_spans, id.0) {
            Some(s) => s,
            None => return None,
        };
        if collapsed {
            return Some(group_span);
        }
        match first_in_group(&self.data.tracks, id) {
            Some(k) => match lookup_u32(&self.track_spans, self.data.tracks[k].id.0) {
                Some(ts) => Some(ts),
                None => Some(group_span),
            },
            None => Some(group_span),
        }
    }

    /// The visible-row cursor.
    pub fn cursor(&self) -> (c: usize)
        ensures
            c == self@.nav.cursor,
    {
        self.graph.cursor()
    }

    /// Number of rows after hierarchy expansion and legend insertion.
    pub fn visible_row_count(&self) -> (n: usize)
        requires
            self.wf(),
        ensures
            n == nav_rows(self@.nav).len(),
    {
        self.graph.visible_rows().len()
    }

    /// The vertical scroll offset.
    pub fn scroll_offset(&self) -> (s: usize)
        ensures
            s == self@.nav.scroll,
    {
        self.graph.scroll_offset()
    }
}

} // verus!
