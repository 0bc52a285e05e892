//! View state of a horizontal flame graph and its key handling.
//!
//! In follow-selection mode, state is a single path from the root to the
//! cursor node: a node is expanded (its children visible) iff it is on the
//! path and is not the last element. Persistent-disclosure views keep the
//! same path as their expansion route while moving the cursor within it.
//!
//! Disclosure changes in animated mode are recorded as transitions; the
//! caller advances each transition's progress and reports the ones that
//! finished through `finish_transitions`.

use vstd::prelude::*;

use crate::input::key::{KeyCode, KeyEvent, KeyResult, ALT, CONTROL, NO_MODIFIERS};
use crate::widget::flame_graph::data::{
    ancestor_path, find_node, find_span, span_height, spec_ancestor_path, SpanId, SpanTree,
};
use crate::widget::flame_graph::layout::{
    expanded_on_path, find_span_row, flatten_visible_rows, is_expanded_on_path, is_legend_row, span_id_at,
    span_row_index, spec_is_legend_row, spec_span_id_at, spec_visible_rows, FlameRow, RowContext, RowKind,
};
use crate::widget::flame_graph::render::BarStyle;

verus! {

/// Most navigation steps kept for undo.
pub const UNDO_LIMIT: usize = 32;

/// Whether vertical cursor navigation follows the selected node's ancestry.
#[derive(Clone, Copy, Debug, PartialEq, Eq, Structural)]
pub enum CursorNavigation {
    PreserveExpansion,
    FollowSelection,
}

impl Default for CursorNavigation {
    fn default() -> (c: Self)
        ensures
            c == CursorNavigation::FollowSelection,
    {
        CursorNavigation::FollowSelection
    }
}

/// Vertical cursor movement policy.
#[derive(Clone, Copy, Debug, PartialEq, Eq, Structural)]
pub enum VerticalNavigation {
    /// Move through the visible pre-order rows.
    VisibleRows,
    /// Move only among the selected span's direct siblings.
    Siblings,
}

impl Default for VerticalNavigation {
    fn default() -> (v: Self)
        ensures
            v == VerticalNavigation::VisibleRows,
    {
        VerticalNavigation::VisibleRows
    }
}

/// Whether disclosure changes animate or take effect synchronously.
#[derive(Clone, Copy, Debug, PartialEq, Eq, Structural)]
pub enum TransitionMode {
    /// Animate expand/collapse transitions.
    Animated,
    /// Apply disclosure changes immediately without idle redraws.
    Immediate,
}

impl Default for TransitionMode {
    fn default() -> (m: Self)
        ensures
            m == TransitionMode::Animated,
    {
        TransitionMode::Animated
    }
}

/// What the next character names after a mark key.
#[derive(Clone, Copy, Debug, PartialEq, Eq, Structural)]
pub enum MarkAction {
    Store,
    Jump,
}

/// A disclosure transition in flight: the span, whether its children are
/// appearing or going away, and the serial number of the transition's start
/// (a new number each time the transition starts over).
#[derive(Clone, Copy, Debug, PartialEq, Eq, Structural)]
pub struct Transition {
    pub span_id: SpanId,
    pub opening: bool,
    pub serial: u64,
}

/// A saved path and focus.
pub type Snapshot = (Seq<SpanId>, Option<SpanId>);

/// The state of a flame graph view.
pub struct NavState {
    pub root: SpanTree,
    /// Path from the root to the cursor node.
    pub path: Seq<SpanId>,
    /// Index into the visible rows.
    pub cursor: usize,
    /// The span whose cost legend is open.
    pub legend: Option<SpanId>,
    /// Disclosure transitions in flight, one per span.
    pub anims: Seq<Transition>,
    /// Serial number of the next transition start.
    pub serial: u64,
    /// The span shown as visual root, if any.
    pub focus: Option<SpanId>,
    pub bar_style: BarStyle,
    pub undo: Seq<Snapshot>,
    pub redo: Seq<Snapshot>,
    /// Number of rows scrolled past the top.
    pub scroll: usize,
    /// Rows of the viewport at the last draw.
    pub viewport: u16,
    pub cursor_nav: CursorNavigation,
    pub vertical_nav: VerticalNavigation,
    pub mode: TransitionMode,
    /// Named marks, one per character.
    pub marks: Seq<(char, SpanId)>,
    pub pending: Option<MarkAction>,
}

/// The index of the first element of `s`, from `from` on, that satisfies `p`.
pub open spec fn first_index<T>(s: Seq<T>, p: spec_fn(T) -> bool, from: int) -> Option<int>
    decreases s.len() - from,
{
    if from < 0 || from >= s.len() {
        None
    } else if p(s[from]) {
        Some(from)
    } else {
        first_index(s, p, from + 1)
    }
}

pub(crate) proof fn lemma_first_index<T>(s: Seq<T>, p: spec_fn(T) -> bool, from: int)
    requires
        0 <= from,
    ensures
        match first_index(s, p, from) {
            Some(i) => from <= i < s.len() && p(s[i]) && forall|j: int| from <= j < i ==> !p(#[trigger] s[j]),
            None => forall|j: int| from <= j < s.len() ==> !p(#[trigger] s[j]),
        },
    decreases s.len() - from,
{
    if from < s.len() && !p(s[from]) {
        lemma_first_index(s, p, from + 1);
    }
}

/// Whether an id is `id`.
pub open spec fn is_id(id: SpanId) -> spec_fn(SpanId) -> bool {
    |x: SpanId| x == id
}

/// Whether a transition is that of span `id`.
pub open spec fn of_span(id: SpanId) -> spec_fn(Transition) -> bool {
    |t: Transition| t.span_id == id
}

/// Whether a transition's span is not among `finished`.
pub open spec fn unfinished(finished: Seq<SpanId>) -> spec_fn(Transition) -> bool {
    |t: Transition| !finished.contains(t.span_id)
}

/// The spans of the transitions in flight.
pub open spec fn anim_ids(a: Seq<Transition>) -> Seq<SpanId> {
    a.map_values(|t: Transition| t.span_id)
}

/// The transition of span `id`, by index.
pub open spec fn anim_index(a: Seq<Transition>, id: SpanId) -> Option<int> {
    first_index(a, of_span(id), 0)
}

/// The serial number after `s`, wrapping at `u64::MAX`.
pub open spec fn next_serial(s: u64) -> u64 {
    if s == u64::MAX {
        0
    } else {
        (s + 1) as u64
    }
}

/// The visible rows of a state.
pub open spec fn nav_rows(st: NavState) -> Seq<FlameRow> {
    spec_visible_rows(
        st.root,
        RowContext { path: st.path, animating: anim_ids(st.anims), legend_for: st.legend, focus: st.focus },
    )
}

/// Whether `id` is expanded: on the path and not its leaf.
pub open spec fn spec_is_expanded(st: NavState, id: SpanId) -> bool {
    expanded_on_path(st.path, id)
}

/// The scroll offset moved just enough to show the cursor row.
pub open spec fn spec_ensure_visible(st: NavState) -> NavState {
    let vh = st.viewport as int;
    if vh == 0 {
        st
    } else if st.cursor < st.scroll {
        NavState { scroll: st.cursor, ..st }
    } else if st.cursor >= st.scroll + vh {
        NavState { scroll: (st.cursor + 1 - vh) as usize, ..st }
    } else {
        st
    }
}

/// The cursor moved to the span row of `id` when it is visible, then kept
/// in view.
pub open spec fn spec_move_cursor_to_span(st: NavState, id: SpanId) -> NavState {
    let moved = match span_row_index(nav_rows(st), id) {
        Some(i) => NavState { cursor: i as usize, ..st },
        None => st,
    };
    spec_ensure_visible(moved)
}

/// The current path and focus saved for undo (the oldest dropped past
/// `UNDO_LIMIT`), and the redo history cleared.
pub open spec fn spec_push_undo(st: NavState) -> NavState {
    let pushed = st.undo.push((st.path, st.focus));
    NavState {
        undo: if pushed.len() > UNDO_LIMIT { pushed.drop_first() } else { pushed },
        redo: Seq::empty(),
        ..st
    }
}

/// A transition for `id` started over with the children appearing, unless
/// disclosure changes are immediate.
pub open spec fn spec_start_expand(st: NavState, id: SpanId) -> NavState {
    if st.mode == TransitionMode::Immediate {
        st
    } else {
        spec_restart_opening(st, id)
    }
}

/// A transition for `id` started over with the children appearing.
pub open spec fn spec_restart_opening(st: NavState, id: SpanId) -> NavState {
    let t = Transition { span_id: id, opening: true, serial: st.serial };
    NavState {
        anims: match anim_index(st.anims, id) {
            Some(i) => st.anims.update(i, t),
            None => st.anims.push(t),
        },
        serial: next_serial(st.serial),
        ..st
    }
}

/// The transition of `id` turned to closing, or a closing transition
/// started for it, unless disclosure changes are immediate.
pub open spec fn spec_start_collapse(st: NavState, id: SpanId) -> NavState {
    if st.mode == TransitionMode::Immediate {
        st
    } else {
        match anim_index(st.anims, id) {
            Some(i) => NavState { anims: st.anims.update(i, Transition { opening: false, ..st.anims[i] }), ..st },
            None => NavState {
                anims: st.anims.push(Transition { span_id: id, opening: false, serial: st.serial }),
                serial: next_serial(st.serial),
                ..st
            },
        }
    }
}

/// Whether `id` is expanded on `path`: present, and not at its end.
pub open spec fn expanded_in(path: Seq<SpanId>, id: SpanId) -> bool {
    match first_index(path, is_id(id), 0) {
        Some(k) => k + 1 < path.len(),
        None => false,
    }
}

/// Collapse transitions for the first `n` nodes of `old` that were expanded
/// and will not be on `new`.
pub open spec fn collapse_leaving(st: NavState, old: Seq<SpanId>, new: Seq<SpanId>, n: int) -> NavState
    decreases n,
{
    if n <= 0 {
        st
    } else {
        let prev = collapse_leaving(st, old, new, n - 1);
        let id = old[n - 1];
        if n < old.len() && !expanded_in(new, id) {
            spec_start_collapse(prev, id)
        } else {
            prev
        }
    }
}

/// Expand transitions for the first `n` nodes of `new` that will be
/// expanded and were not on `old`.
pub open spec fn expand_entering(st: NavState, old: Seq<SpanId>, new: Seq<SpanId>, n: int) -> NavState
    decreases n,
{
    if n <= 0 {
        st
    } else {
        let prev = expand_entering(st, old, new, n - 1);
        let id = new[n - 1];
        if n < new.len() && !expanded_in(old, id) {
            spec_start_expand(prev, id)
        } else {
            prev
        }
    }
}

/// The transitions for switching from the current path to `new`.
pub open spec fn spec_transition(st: NavState, new: Seq<SpanId>) -> NavState {
    let old = st.path;
    let collapsed = collapse_leaving(st, old, new, old.len() as int);
    expand_entering(collapsed, old, new, new.len() as int)
}

/// The path set to the ancestor path of `id`, with its transitions, when
/// `id` is in the tree.
pub open spec fn spec_sync_path(st: NavState, id: SpanId) -> NavState {
    let new_path = spec_ancestor_path(st.root, id);
    if new_path.len() == 0 {
        st
    } else {
        NavState { path: new_path, ..spec_transition(st, new_path) }
    }
}

/// Move left from `c` past legend rows, stopping at 0.
pub open spec fn back_off_legend(rows: Seq<FlameRow>, c: int) -> int
    decreases c,
{
    if c > 0 && spec_is_legend_row(rows, c) {
        back_off_legend(rows, c - 1)
    } else {
        c
    }
}

/// The cursor put on the row of the path's leaf; when that row is not
/// visible, the cursor is clamped into the rows and moved up past legend
/// rows.
pub open spec fn spec_reposition(st: NavState) -> NavState {
    if st.path.len() == 0 {
        st
    } else {
        let rows = nav_rows(st);
        match span_row_index(rows, st.path.last()) {
            Some(i) => spec_ensure_visible(NavState { cursor: i as usize, ..st }),
            None => {
                let c: int = if rows.len() == 0 {
                    0
                } else if st.cursor >= rows.len() {
                    rows.len() - 1
                } else {
                    st.cursor as int
                };
                spec_ensure_visible(NavState { cursor: back_off_legend(rows, c) as usize, ..st })
            },
        }
    }
}

/// The path replaced by `new` (with its transitions) and the cursor put on
/// its leaf.
pub open spec fn spec_apply_path(st: NavState, new: Seq<SpanId>) -> NavState {
    spec_reposition(NavState { path: new, ..spec_transition(st, new) })
}

/// The legend, when open, moved to `id`.
pub open spec fn legend_to(st: NavState, id: SpanId) -> NavState {
    if st.legend is Some {
        NavState { legend: Some(id), ..st }
    } else {
        st
    }
}

/// Transitions removed for the given spans; when one of them was closing,
/// the cursor is put back on the path's leaf.
pub open spec fn spec_finish(st: NavState, finished: Seq<SpanId>) -> NavState {
    let kept = st.anims.filter(unfinished(finished));
    let closing_done = exists|i: int| 0 <= i < st.anims.len() && finished.contains(#[trigger] st.anims[i].span_id) && !st.anims[i].opening;
    let s = NavState { anims: kept, ..st };
    if closing_done {
        spec_reposition(s)
    } else {
        s
    }
}

/// A span tree as the flame graph holds it, with the view state.
pub struct FlameGraph {
    root: SpanTree,
    path: Vec<SpanId>,
    cursor: usize,
    selected_for_legend: Option<SpanId>,
    animations: Vec<Transition>,
    next_serial: u64,
    focus: Option<SpanId>,
    bar_style: BarStyle,
    undo_stack: Vec<(Vec<SpanId>, Option<SpanId>)>,
    redo_stack: Vec<(Vec<SpanId>, Option<SpanId>)>,
    scroll_offset: usize,
    viewport_height: u16,
    cursor_navigation: CursorNavigation,
    vertical_navigation: VerticalNavigation,
    transition_mode: TransitionMode,
    marks: Vec<(char, SpanId)>,
    pending_mark: Option<MarkAction>,
}

/// Saved paths and focuses by their contents.
pub open spec fn snaps_view(v: Seq<(Vec<SpanId>, Option<SpanId>)>) -> Seq<Snapshot> {
    v.map_values(|e: (Vec<SpanId>, Option<SpanId>)| (e.0@, e.1))
}

impl View for FlameGraph {
    type V = NavState;

    closed spec fn view(&self) -> NavState {
        NavState {
            root: self.root,
            path: self.path@,
            cursor: self.cursor,
            legend: self.selected_for_legend,
            anims: self.animations@,
            serial: self.next_serial,
            focus: self.focus,
            bar_style: self.bar_style,
            undo: snaps_view(self.undo_stack@),
            redo: snaps_view(self.redo_stack@),
            scroll: self.scroll_offset,
            viewport: self.viewport_height,
            cursor_nav: self.cursor_navigation,
            vertical_nav: self.vertical_navigation,
            mode: self.transition_mode,
            marks: self.marks@,
            pending: self.pending_mark,
        }
    }
}

/// Whether a state can be flattened into rows: the tree is at most
/// 65536 levels deep, so depths fit in a `u16`.
pub open spec fn nav_wf(st: NavState) -> bool {
    span_height(st.root) <= 65536
}

/// The state of a new view of `root`: the cursor on the root, its legend
/// open, nothing expanded, nothing saved.
pub open spec fn fresh_nav(root: SpanTree) -> NavState {
    NavState {
        root,
        path: seq![root.id],
        cursor: 0,
        legend: Some(root.id),
        anims: Seq::empty(),
        serial: 0,
        focus: None,
        bar_style: BarStyle::ThinLine,
        undo: Seq::empty(),
        redo: Seq::empty(),
        scroll: 0,
        viewport: 0,
        cursor_nav: CursorNavigation::FollowSelection,
        vertical_nav: VerticalNavigation::VisibleRows,
        mode: TransitionMode::Animated,
        marks: Seq::empty(),
        pending: None,
    }
}

impl FlameGraph {
    /// A view of `root` with the cursor on the root, its legend open, and
    /// nothing expanded.
    pub fn new(root: SpanTree) -> (g: Self)
        requires
            span_height(root) <= 65536,
        ensures
            g@ == fresh_nav(root),
            nav_wf(g@),
    {
        let root_id = root.id;
        let g = FlameGraph {
            root,
            path: vec![root_id],
            cursor: 0,
            selected_for_legend: Some(root_id),
            animations: Vec::new(),
            next_serial: 0,
            focus: None,
            bar_style: BarStyle::ThinLine,
            undo_stack: Vec::new(),
            redo_stack: Vec::new(),
            scroll_offset: 0,
            viewport_height: 0,
            cursor_navigation: CursorNavigation::FollowSelection,
            vertical_navigation: VerticalNavigation::VisibleRows,
            transition_mode: TransitionMode::Animated,
            marks: Vec::new(),
            pending_mark: None,
        };
        proof {
            assert(g@.path =~= seq![root_id]);
            assert(g@.undo =~= Seq::<Snapshot>::empty());
            assert(g@.redo =~= Seq::<Snapshot>::empty());
        }
        g
    }

    /// Configure whether j/k navigation follows the selected node's path.
    pub fn set_cursor_navigation(&mut self, navigation: CursorNavigation)
        ensures
            final(self)@ == (NavState { cursor_nav: navigation, ..old(self)@ }),
    {
        self.cursor_navigation = navigation;
    }

    /// Configure whether vertical movement uses visible rows or siblings.
    pub fn set_vertical_navigation(&mut self, navigation: VerticalNavigation)
        ensures
            final(self)@ == (NavState { vertical_nav: navigation, ..old(self)@ }),
    {
        self.vertical_navigation = navigation;
    }

    /// Configure whether disclosure transitions animate; switching to
    /// immediate drops the transitions in flight.
    pub fn set_transition_mode(&mut self, mode: TransitionMode)
        ensures
            final(self)@ == (NavState {
                mode,
                anims: if mode == TransitionMode::Immediate { Seq::empty() } else { old(self)@.anims },
                ..old(self)@
            }),
    {
        self.transition_mode = mode;
        if mode == TransitionMode::Immediate {
            self.animations = Vec::new();
        }
        assert(self@.anims =~= (if mode == TransitionMode::Immediate {
            Seq::empty()
        } else {
            old(self)@.anims
        }));
    }

    /// Configure transition behavior while constructing a widget.
    pub fn with_transition_mode(self, mode: TransitionMode) -> (g: Self)
        ensures
            g@ == (NavState {
                mode,
                anims: if mode == TransitionMode::Immediate { Seq::empty() } else { self@.anims },
                ..self@
            }),
    {
        let mut g = self;
        g.set_transition_mode(mode);
        g
    }

    /// Whether a mark key is pending its one-character name.
    pub fn mark_pending(&self) -> (b: bool)
        ensures
            b == self@.pending is Some,
    {
        self.pending_mark.is_some()
    }

    /// True when transitions are in flight and idle redraws are needed.
    pub fn needs_idle_render(&self) -> (b: bool)
        ensures
            b == (self@.anims.len() > 0),
    {
        self.animations.len() > 0
    }

    /// The transitions in flight.
    pub fn transitions(&self) -> (t: &Vec<Transition>)
        ensures
            t@ == self@.anims,
    {
        &self.animations
    }

    /// Current cursor index in the visible-row list.
    pub fn cursor(&self) -> (c: usize)
        ensures
            c == self@.cursor,
    {
        self.cursor
    }

    /// The span tree of this flame graph.
    pub fn root(&self) -> (r: &SpanTree)
        ensures
            *r == self@.root,
    {
        &self.root
    }

    /// The currently focused span, if any.
    pub fn focus(&self) -> (f: Option<SpanId>)
        ensures
            f == self@.focus,
    {
        self.focus
    }

    /// The current path from root to cursor.
    pub fn path(&self) -> (p: &Vec<SpanId>)
        ensures
            p@ == self@.path,
    {
        &self.path
    }

    /// The span whose cost legend is open, if any.
    pub fn legend_span(&self) -> (l: Option<SpanId>)
        ensures
            l == self@.legend,
    {
        self.selected_for_legend
    }

    /// The current bar style.
    pub fn bar_style(&self) -> (s: BarStyle)
        ensures
            s == self@.bar_style,
    {
        self.bar_style
    }

    /// Set the visual style for bar segments.
    pub fn set_bar_style(&mut self, style: BarStyle)
        ensures
            final(self)@ == (NavState { bar_style: style, ..old(self)@ }),
    {
        self.bar_style = style;
    }

    /// Current vertical scroll offset.
    pub fn scroll_offset(&self) -> (s: usize)
        ensures
            s == self@.scroll,
    {
        self.scroll_offset
    }

    /// Record the viewport height (rows) of the last draw, for scroll math.
    pub fn set_viewport_height(&mut self, height: u16)
        ensures
            final(self)@ == (NavState { viewport: height, ..old(self)@ }),
    {
        self.viewport_height = height;
    }

    /// Whether the given span is currently expanded (children visible on
    /// the path): on the path and not its leaf.
    pub fn is_expanded(&self, span_id: SpanId) -> (b: bool)
        ensures
            b == spec_is_expanded(self@, span_id),
    {
        if self.path.len() == 0 {
            return false;
        }
        is_expanded_on_path(&self.path, span_id)
    }

    /// Flatten the tree into its visible rows.
    pub fn visible_rows(&self) -> (rows: Vec<FlameRow>)
        requires
            nav_wf(self@),
        ensures
            rows@ == nav_rows(self@),
    {
        let ids = self.animating_ids();
        flatten_visible_rows(&self.root, &self.path, &ids, self.selected_for_legend, self.focus)
    }

    fn animating_ids(&self) -> (ids: Vec<SpanId>)
        ensures
            ids@ == anim_ids(self@.anims),
    {
        let mut ids: Vec<SpanId> = Vec::new();
        let mut i: usize = 0;
        while i < self.animations.len()
            invariant
                i <= self.animations@.len(),
                ids@ == anim_ids(self.animations@.take(i as int)),
            decreases self.animations@.len() - i,
        {
            ids.push(self.animations[i].span_id);
            i += 1;
            assert(ids@ =~= anim_ids(self.animations@.take(i as int)));
        }
        assert(self.animations@.take(self.animations@.len() as int) =~= self.animations@);
        ids
    }

    /// Identity of the span under the cursor, including when its legend is
    /// open.
    pub fn selected_span(&self) -> (s: Option<SpanId>)
        requires
            nav_wf(self@),
        ensures
            s == spec_span_id_at(nav_rows(self@), self@.cursor as int),
    {
        let rows = self.visible_rows();
        span_id_at(&rows, self.cursor)
    }

    /// Adjust the scroll offset so the cursor row is inside the viewport.
    fn ensure_cursor_visible(&mut self)
        ensures
            final(self)@.root == old(self)@.root,
            final(self)@ == spec_ensure_visible(old(self)@),
    {
        let vh = self.viewport_height as usize;
        if vh == 0 {
            return;
        }
        if self.cursor < self.scroll_offset {
            self.scroll_offset = self.cursor;
        } else if self.cursor - self.scroll_offset >= vh {
            self.scroll_offset = (self.cursor - vh) + 1;
        }
    }

    fn move_cursor_to_span(&mut self, target: SpanId)
        requires
            nav_wf(old(self)@),
        ensures
            final(self)@ == spec_move_cursor_to_span(old(self)@, target),
            nav_wf(final(self)@),
    {
        let rows = self.visible_rows();
        if let Some(idx) = find_span_row(&rows, target) {
            self.cursor = idx;
        }
        self.ensure_cursor_visible();
    }

    fn push_undo(&mut self)
        ensures
            final(self)@.root == old(self)@.root,
            final(self)@ == spec_push_undo(old(self)@),
    {
        let ghost old_undo = self.undo_stack@;
        let saved = copy_ids(&self.path);
        self.undo_stack.push((saved, self.focus));
        if self.undo_stack.len() > UNDO_LIMIT {
            let ghost pushed = self.undo_stack@;
            self.undo_stack.remove(0);
            assert(snaps_view(self.undo_stack@) =~= snaps_view(pushed).drop_first());
        }
        self.redo_stack = Vec::new();
        assert(snaps_view(old_undo.push((saved, old(self).focus))) =~= snaps_view(old_undo).push(
            (old(self)@.path, old(self)@.focus),
        ));
        assert(self@.redo =~= Seq::<Snapshot>::empty());
    }

    fn find_animation(&self, id: SpanId) -> (r: Option<usize>)
        ensures
            match r {
                Some(i) => i < self@.anims.len() && anim_index(self@.anims, id) == Some(i as int),
                None => anim_index(self@.anims, id) is None,
            },
    {
        proof {
            lemma_first_index(self@.anims, of_span(id), 0);
        }
        let mut i: usize = 0;
        while i < self.animations.len()
            invariant
                i <= self.animations@.len(),
                first_index(self@.anims, of_span(id), 0) == first_index(
                    self@.anims,
                    of_span(id),
                    i as int,
                ),
            decreases self.animations@.len() - i,
        {
            if self.animations[i].span_id == id {
                assert(first_index(self@.anims, of_span(id), i as int) == Some(i as int));
                return Some(i);
            }
            i += 1;
        }
        assert(first_index(self@.anims, of_span(id), i as int) is None);
        None
    }

    fn restart_opening(&mut self, id: SpanId)
        ensures
            final(self)@.root == old(self)@.root,
            final(self)@ == spec_restart_opening(old(self)@, id),
    {
        let t = Transition { span_id: id, opening: true, serial: self.next_serial };
        match self.find_animation(id) {
            Some(i) => {
                self.animations.set(i, t);
            },
            None => {
                self.animations.push(t);
            },
        }
        self.next_serial = if self.next_serial == u64::MAX { 0 } else { self.next_serial + 1 };
    }

    fn start_expand(&mut self, id: SpanId)
        ensures
            final(self)@.root == old(self)@.root,
            final(self)@ == spec_start_expand(old(self)@, id),
    {
        if self.transition_mode == TransitionMode::Immediate {
            return;
        }
        self.restart_opening(id);
    }

    fn start_collapse(&mut self, id: SpanId)
        ensures
            final(self)@.root == old(self)@.root,
            final(self)@ == spec_start_collapse(old(self)@, id),
    {
        if self.transition_mode == TransitionMode::Immediate {
            return;
        }
        match self.find_animation(id) {
            Some(i) => {
                let t = self.animations[i];
                self.animations.set(i, Transition { opening: false, ..t });
            },
            None => {
                self.animations.push(Transition { span_id: id, opening: false, serial: self.next_serial });
                self.next_serial = if self.next_serial == u64::MAX { 0 } else { self.next_serial + 1 };
            },
        }
    }

    /// Start collapse transitions for nodes that were expanded but will not
    /// be, and expand transitions for nodes that will be expanded but were
    /// not.
    fn transition_animations(&mut self, new_path: &Vec<SpanId>)
        ensures
            final(self)@.root == old(self)@.root,
            final(self)@ == spec_transition(old(self)@, new_path@),
    {
        let ghost st0 = self@;
        let old_path = copy_ids(&self.path);
        let mut index: usize = 0;
        while index < old_path.len()
            invariant
                index <= old_path@.len(),
                old_path@ == st0.path,
                self@.root == st0.root,
                self@ == collapse_leaving(st0, st0.path, new_path@, index as int),
            decreases old_path@.len() - index,
        {
            let old_id = old_path[index];
            let was_expanded = index + 1 < old_path.len();
            let still_expanded = expanded_in_path(new_path, old_id);
            if was_expanded && !still_expanded {
                self.start_collapse(old_id);
            }
            index += 1;
        }
        let ghost st1 = self@;
        let mut i: usize = 0;
        while i < new_path.len()
            invariant
                i <= new_path@.len(),
                old_path@ == st0.path,
                self@.root == st0.root,
                st1 == collapse_leaving(st0, st0.path, new_path@, st0.path.len() as int),
                self@ == expand_entering(st1, st0.path, new_path@, i as int),
            decreases new_path@.len() - i,
        {
            let new_id = new_path[i];
            let is_leaf = i == new_path.len() - 1;
            let was_expanded = expanded_in_path(&old_path, new_id);
            if !is_leaf && !was_expanded {
                self.start_expand(new_id);
            }
            i += 1;
        }
    }

    fn sync_path_to_cursor(&mut self, id: SpanId)
        ensures
            final(self)@.root == old(self)@.root,
            final(self)@ == spec_sync_path(old(self)@, id),
    {
        let new_path = ancestor_path(&self.root, id);
        if new_path.len() == 0 {
            return;
        }
        self.transition_animations(&new_path);
        self.path = new_path;
    }

    fn reposition_cursor_to_path_leaf(&mut self)
        requires
            nav_wf(old(self)@),
        ensures
            final(self)@ == spec_reposition(old(self)@),
            final(self)@.root == old(self)@.root,
    {
        if self.path.len() == 0 {
            return;
        }
        let leaf = self.path[self.path.len() - 1];
        let rows = self.visible_rows();
        if let Some(idx) = find_span_row(&rows, leaf) {
            self.cursor = idx;
            self.ensure_cursor_visible();
            return;
        }
        if rows.len() == 0 {
            self.cursor = 0;
        } else if self.cursor >= rows.len() {
            self.cursor = rows.len() - 1;
        }
        let ghost c0 = self.cursor as int;
        while self.cursor > 0 && is_legend_row(&rows, self.cursor)
            invariant
                rows@ == nav_rows(old(self)@),
                self@ == (NavState { cursor: self.cursor, ..old(self)@ }),
                back_off_legend(rows@, c0) == back_off_legend(rows@, self.cursor as int),
            decreases self.cursor,
        {
            self.cursor = self.cursor - 1;
        }
        self.ensure_cursor_visible();
    }

    fn apply_path(&mut self, new_path: Vec<SpanId>)
        requires
            nav_wf(old(self)@),
        ensures
            final(self)@ == spec_apply_path(old(self)@, new_path@),
            final(self)@.root == old(self)@.root,
    {
        self.transition_animations(&new_path);
        self.path = new_path;
        self.reposition_cursor_to_path_leaf();
    }

    /// Select a span by identity and reveal its ancestor path; returns
    /// `false` without changing state when the span is absent.
    pub fn select_span(&mut self, span_id: SpanId) -> (found: bool)
        requires
            nav_wf(old(self)@),
        ensures
            found == (spec_ancestor_path(old(self)@.root, span_id).len() > 0),
            final(self)@ == spec_select_span(old(self)@, span_id),
            final(self)@.root == old(self)@.root,
            nav_wf(final(self)@),
    {
        let path = ancestor_path(&self.root, span_id);
        if path.len() == 0 {
            return false;
        }
        self.apply_path(path);
        if self.selected_for_legend.is_some() {
            self.selected_for_legend = Some(span_id);
            self.move_cursor_to_span(span_id);
        }
        true
    }

    /// Remove the transitions of the given spans, whose progress has
    /// finished; when one of them was closing, the visible rows shrink and
    /// the cursor is put back on the path's leaf.
    #[verifier::spinoff_prover]
    #[verifier::rlimit(40)]
    pub fn finish_transitions(&mut self, finished: &Vec<SpanId>)
        requires
            nav_wf(old(self)@),
        ensures
            final(self)@ == spec_finish(old(self)@, finished@),
            nav_wf(final(self)@),
    {
        let ghost st0 = self@;
        let mut kept: Vec<Transition> = Vec::new();
        let mut closing_done = false;
        let mut i: usize = 0;
        while i < self.animations.len()
            invariant
                i <= self.animations@.len(),
                self@ == st0,
                kept@ == st0.anims.take(i as int).filter(unfinished(finished@)),
                closing_done == exists|k: int|
                    0 <= k < i && finished@.contains(#[trigger] st0.anims[k].span_id) && !st0.anims[k].opening,
            decreases self.animations@.len() - i,
        {
            let t = self.animations[i];
            proof {
                assert(st0.anims.take(i + 1) =~= st0.anims.take(i as int).push(t));
                st0.anims.take(i as int).lemma_filter_push(t, unfinished(finished@));
            }
            let done = contains_span_id(finished, t.span_id);
            assert(unfinished(finished@)(t) == !finished@.contains(t.span_id));
            if done {
                if !t.opening {
                    closing_done = true;
                }
            } else {
                kept.push(t);
            }
            proof {
                assert(kept@ =~= st0.anims.take(i + 1).filter(unfinished(finished@)));
            }
            i += 1;
        }
        proof {
            assert(st0.anims.take(st0.anims.len() as int) =~= st0.anims);
        }
        self.animations = kept;
        if closing_done {
            self.reposition_cursor_to_path_leaf();
        }
    }
}

/// The state after `select_span`.
pub open spec fn spec_select_span(st: NavState, id: SpanId) -> NavState {
    let path = spec_ancestor_path(st.root, id);
    if path.len() == 0 {
        st
    } else {
        let applied = spec_apply_path(st, path);
        if applied.legend is Some {
            spec_move_cursor_to_span(NavState { legend: Some(id), ..applied }, id)
        } else {
            applied
        }
    }
}


/// The ids of the children of `n`, in order.
pub open spec fn child_ids(n: SpanTree) -> Seq<SpanId> {
    n.children@.map_values(|c: SpanTree| c.id)
}

/// The spans of the span rows, in order, that `parent` (when given) has as
/// children.
pub open spec fn row_ids_under(rows: Seq<FlameRow>, parent: Option<SpanTree>) -> Seq<SpanId>
    decreases rows.len(),
{
    if rows.len() == 0 {
        Seq::empty()
    } else {
        let prev = row_ids_under(rows.drop_last(), parent);
        match rows.last().kind {
            RowKind::Span { span_id, .. } => match parent {
                Some(p) => if child_ids(p).contains(span_id) {
                    prev.push(span_id)
                } else {
                    prev
                },
                None => prev.push(span_id),
            },
            RowKind::Legend { .. } => prev,
        }
    }
}

/// The spans vertical movement steps through: all span rows, or the span
/// rows that are siblings of the selected span (the selected span alone
/// when it is the root).
pub open spec fn spec_candidates(st: NavState, rows: Seq<FlameRow>, nav: VerticalNavigation) -> Seq<SpanId> {
    match nav {
        VerticalNavigation::VisibleRows => row_ids_under(rows, None),
        VerticalNavigation::Siblings => match spec_span_id_at(rows, st.cursor as int) {
            None => Seq::empty(),
            Some(cur) => {
                let path = spec_ancestor_path(st.root, cur);
                if path.len() < 2 {
                    seq![cur]
                } else {
                    match find_span(st.root, path[path.len() - 2]) {
                        None => Seq::empty(),
                        Some(parent) => row_ids_under(rows, Some(parent)),
                    }
                }
            },
        },
    }
}

/// Moving the selection to `id`: saved for undo, the legend follows, the
/// path follows when navigation follows the selection, and the cursor goes
/// to its row.
pub open spec fn spec_navigate(st: NavState, id: SpanId) -> NavState {
    let s = legend_to(spec_push_undo(st), id);
    let s2 = if s.cursor_nav == CursorNavigation::FollowSelection {
        spec_sync_path(s, id)
    } else {
        s
    };
    spec_move_cursor_to_span(s2, id)
}

/// The index `step` candidates after (or before) `current`: past the end
/// when moving forward off the list, clamped at 0 when moving back.
pub open spec fn step_index(current: int, forward: bool, step: int) -> int {
    if forward {
        current + step
    } else if current >= step {
        current - step
    } else {
        0
    }
}

/// One step through the candidates of `nav`, from the span under the cursor.
pub open spec fn spec_move_step(st: NavState, rows: Seq<FlameRow>, forward: bool, nav: VerticalNavigation) -> NavState {
    let cands = spec_candidates(st, rows, nav);
    match spec_span_id_at(rows, st.cursor as int) {
        None => st,
        Some(cur) => match first_index(cands, is_id(cur), 0) {
            None => st,
            Some(k) => {
                let target = step_index(k, forward, 1);
                if target < cands.len() {
                    spec_navigate(st, cands[target])
                } else {
                    st
                }
            },
        },
    }
}

/// Half a viewport, at least one row.
pub open spec fn page_rows(viewport: u16) -> int {
    let h: int = if viewport == 0 { 1 } else { viewport as int };
    if h / 2 >= 1 { h / 2 } else { 1 }
}

/// A move by half a viewport through the candidates, kept in the list.
pub open spec fn spec_move_page(st: NavState, forward: bool) -> NavState {
    let rows = nav_rows(st);
    let cands = spec_candidates(st, rows, st.vertical_nav);
    match spec_span_id_at(rows, st.cursor as int) {
        None => st,
        Some(cur) => match first_index(cands, is_id(cur), 0) {
            None => st,
            Some(k) => {
                let t = step_index(k, forward, page_rows(st.viewport));
                let target = if t > cands.len() - 1 { cands.len() - 1 } else { t };
                spec_navigate(st, cands[target])
            },
        },
    }
}

/// A move to the first or the last candidate.
pub open spec fn spec_move_boundary(st: NavState, bottom: bool) -> NavState {
    let cands = spec_candidates(st, nav_rows(st), st.vertical_nav);
    let target: int = if bottom && cands.len() > 0 { cands.len() - 1 } else { 0 };
    if target < cands.len() {
        spec_navigate(st, cands[target])
    } else {
        st
    }
}

/// The first child of `id`, when it has children.
pub open spec fn first_child(root: SpanTree, id: SpanId) -> Option<SpanId> {
    match find_span(root, id) {
        Some(n) => if n.children@.len() > 0 {
            Some(n.children@[0].id)
        } else {
            None
        },
        None => None,
    }
}

/// `l`: expand the span under the cursor and move to its first child.
pub open spec fn spec_expand_or_descend(st: NavState) -> NavState {
    let s = spec_push_undo(st);
    match spec_span_id_at(nav_rows(s), s.cursor as int) {
        None => s,
        Some(id) => match first_child(s.root, id) {
            None => s,
            Some(child) => {
                let s2 = if !spec_is_expanded(s, id) {
                    spec_start_expand(s, id)
                } else {
                    s
                };
                let s3 = legend_to(NavState { path: spec_ancestor_path(s.root, child), ..s2 }, child);
                spec_move_cursor_to_span(s3, child)
            },
        },
    }
}

/// `h` on the focused span: leave focus for the focused span's parent.
pub open spec fn spec_unfocus_to_parent(st: NavState) -> NavState {
    match st.focus {
        None => st,
        Some(f) => {
            let fp = spec_ancestor_path(st.root, f);
            let parent = if fp.len() >= 2 { fp[fp.len() - 2] } else { f };
            let s = NavState { focus: None, ..spec_push_undo(st) };
            spec_move_cursor_to_span(legend_to(spec_sync_path(s, parent), parent), parent)
        },
    }
}

/// `h`: collapse to the parent of the span under the cursor and move there.
pub open spec fn spec_collapse_or_ascend(st: NavState) -> NavState {
    let rows = nav_rows(st);
    let on_focus = match st.focus {
        Some(f) => spec_span_id_at(rows, st.cursor as int) == Some(f),
        None => false,
    };
    if on_focus {
        spec_unfocus_to_parent(st)
    } else {
        match spec_span_id_at(rows, st.cursor as int) {
            None => st,
            Some(sel) => {
                let sp = spec_ancestor_path(st.root, sel);
                if sp.len() < 2 {
                    st
                } else {
                    let parent = sp[sp.len() - 2];
                    let new_path = sp.take(sp.len() - 1);
                    let s = spec_transition(spec_push_undo(st), new_path);
                    spec_move_cursor_to_span(legend_to(NavState { path: new_path, ..s }, parent), parent)
                }
            },
        }
    }
}

/// `f`: make the span under the cursor the visual root, expanded.
pub open spec fn spec_focus_on_selected(st: NavState) -> NavState {
    match spec_span_id_at(nav_rows(st), st.cursor as int) {
        None => st,
        Some(id) => if id == st.root.id {
            st
        } else {
            let s = legend_to(NavState { focus: Some(id), ..spec_push_undo(st) }, id);
            match first_child(st.root, id) {
                Some(child) => {
                    let s2 = if !spec_is_expanded(s, id) {
                        spec_restart_opening(s, id)
                    } else {
                        s
                    };
                    let s3 = legend_to(NavState { path: spec_ancestor_path(st.root, child), ..s2 }, child);
                    spec_move_cursor_to_span(s3, child)
                },
                None => spec_move_cursor_to_span(s, id),
            }
        },
    }
}

/// `F`: leave focus, keeping the cursor on the selected span.
pub open spec fn spec_unfocus(st: NavState) -> NavState {
    if st.focus is None {
        st
    } else {
        let current = spec_span_id_at(nav_rows(st), st.cursor as int);
        let s = NavState { focus: None, ..spec_push_undo(st) };
        match current {
            Some(id) => spec_move_cursor_to_span(spec_sync_path(s, id), id),
            None => s,
        }
    }
}

/// `u`: go back to the last saved path and focus.
pub open spec fn spec_undo(st: NavState) -> NavState {
    if st.undo.len() == 0 {
        st
    } else {
        let (p, f) = st.undo.last();
        let s = NavState { undo: st.undo.drop_last(), redo: st.redo.push((st.path, st.focus)), ..st };
        NavState { focus: f, ..spec_apply_path(s, p) }
    }
}

/// `r`: go forward to the last undone path and focus.
pub open spec fn spec_redo(st: NavState) -> NavState {
    if st.redo.len() == 0 {
        st
    } else {
        let (p, f) = st.redo.last();
        let s = NavState { redo: st.redo.drop_last(), undo: st.undo.push((st.path, st.focus)), ..st };
        NavState { focus: f, ..spec_apply_path(s, p) }
    }
}

/// Whether a mark is named `c`.
pub open spec fn mark_named(c: char) -> spec_fn((char, SpanId)) -> bool {
    |m: (char, SpanId)| m.0 == c
}

/// Mark `c` set to the selected span.
pub open spec fn spec_set_mark(st: NavState, c: char) -> NavState {
    match spec_span_id_at(nav_rows(st), st.cursor as int) {
        None => st,
        Some(id) => NavState {
            marks: match first_index(st.marks, mark_named(c), 0) {
                Some(i) => st.marks.update(i, (c, id)),
                None => st.marks.push((c, id)),
            },
            ..st
        },
    }
}

/// A jump to the span of mark `c`, revealing it, out of focus mode.
pub open spec fn spec_jump_to_mark(st: NavState, c: char) -> NavState {
    match first_index(st.marks, mark_named(c), 0) {
        None => st,
        Some(i) => {
            let id = st.marks[i].1;
            if spec_ancestor_path(st.root, id).len() == 0 {
                st
            } else {
                spec_select_span(NavState { focus: None, ..spec_push_undo(st) }, id)
            }
        },
    }
}

/// `Enter`: open the legend of the span under the cursor, or close it.
pub open spec fn spec_toggle_legend(st: NavState) -> NavState {
    match spec_span_id_at(nav_rows(st), st.cursor as int) {
        None => st,
        Some(id) => NavState { legend: if st.legend == Some(id) { None } else { Some(id) }, ..st },
    }
}

/// The state after a key press, and whether the key was used.
pub open spec fn spec_handle_key(st: NavState, key: KeyEvent) -> (NavState, KeyResult) {
    match st.pending {
        Some(action) => {
            let s = NavState { pending: None, ..st };
            match key.code {
                KeyCode::Char(c) => if key.modifiers == NO_MODIFIERS && 'a' <= c <= 'z' {
                    match action {
                        MarkAction::Store => (spec_set_mark(s, c), KeyResult::Consumed),
                        MarkAction::Jump => (spec_jump_to_mark(s, c), KeyResult::Consumed),
                    }
                } else {
                    (s, KeyResult::Consumed)
                },
                _ => (s, KeyResult::Consumed),
            }
        },
        None => if key.modifiers & CONTROL != 0 && key.modifiers & ALT == 0 {
            match key.code {
                KeyCode::Char('u') => (spec_move_page(st, false), KeyResult::Consumed),
                KeyCode::Char('d') => (spec_move_page(st, true), KeyResult::Consumed),
                KeyCode::Char('k') => (spec_move_step(st, nav_rows(st), false, VerticalNavigation::VisibleRows), KeyResult::Consumed),
                KeyCode::Char('j') => (spec_move_step(st, nav_rows(st), true, VerticalNavigation::VisibleRows), KeyResult::Consumed),
                _ => (st, KeyResult::Ignored),
            }
        } else if key.modifiers & (CONTROL | ALT) != 0 {
            (st, KeyResult::Ignored)
        } else {
            match key.code {
                KeyCode::Up | KeyCode::Char('k') => (spec_move_step(st, nav_rows(st), false, st.vertical_nav), KeyResult::Consumed),
                KeyCode::Down | KeyCode::Char('j') => (spec_move_step(st, nav_rows(st), true, st.vertical_nav), KeyResult::Consumed),
                KeyCode::Char('g') => (spec_move_boundary(st, false), KeyResult::Consumed),
                KeyCode::Char('G') => (spec_move_boundary(st, true), KeyResult::Consumed),
                KeyCode::Right | KeyCode::Char('l') => (spec_expand_or_descend(st), KeyResult::Consumed),
                KeyCode::Left | KeyCode::Char('h') => (spec_collapse_or_ascend(st), KeyResult::Consumed),
                KeyCode::Char('f') => (spec_focus_on_selected(st), KeyResult::Consumed),
                KeyCode::Char('F') => (spec_unfocus(st), KeyResult::Consumed),
                KeyCode::Char('u') => (spec_undo(st), KeyResult::Consumed),
                KeyCode::Char('r') => (spec_redo(st), KeyResult::Consumed),
                KeyCode::Char('m') => (NavState { pending: Some(MarkAction::Store), ..st }, KeyResult::Consumed),
                KeyCode::Char('`') => (NavState { pending: Some(MarkAction::Jump), ..st }, KeyResult::Consumed),
                KeyCode::Enter => (spec_toggle_legend(st), KeyResult::Consumed),
                _ => (st, KeyResult::Ignored),
            }
        },
    }
}


impl FlameGraph {
    fn candidates(&self, rows: &Vec<FlameRow>, nav: VerticalNavigation) -> (c: Vec<SpanId>)
        ensures
            c@ == spec_candidates(self@, rows@, nav),
    {
        match nav {
            VerticalNavigation::VisibleRows => row_ids(rows, None),
            VerticalNavigation::Siblings => {
                let cur = match span_id_at(rows, self.cursor) {
                    Some(c) => c,
                    None => {
                        return Vec::new();
                    },
                };
                let path = ancestor_path(&self.root, cur);
                if path.len() < 2 {
                    let one = vec![cur];
                    assert(one@ =~= seq![cur]);
                    return one;
                }
                match find_node(&self.root, path[path.len() - 2]) {
                    None => Vec::new(),
                    Some(parent) => row_ids(rows, Some(parent)),
                }
            },
        }
    }

    fn navigate_to_span(&mut self, id: SpanId)
        requires
            nav_wf(old(self)@),
        ensures
            final(self)@ == spec_navigate(old(self)@, id),
            final(self)@.root == old(self)@.root,
    {
        self.push_undo();
        if self.selected_for_legend.is_some() {
            self.selected_for_legend = Some(id);
        }
        if self.cursor_navigation == CursorNavigation::FollowSelection {
            self.sync_path_to_cursor(id);
        }
        self.move_cursor_to_span(id);
    }

    fn move_step(&mut self, rows: &Vec<FlameRow>, forward: bool, nav: VerticalNavigation)
        requires
            nav_wf(old(self)@),
        ensures
            final(self)@ == spec_move_step(old(self)@, rows@, forward, nav),
            final(self)@.root == old(self)@.root,
    {
        let cands = self.candidates(rows, nav);
        let cur = match span_id_at(rows, self.cursor) {
            Some(c) => c,
            None => {
                return;
            },
        };
        let k = match index_of_id(&cands, cur) {
            Some(k) => k,
            None => {
                return;
            },
        };
        if forward {
            if k < cands.len() - 1 {
                self.navigate_to_span(cands[k + 1]);
            }
        } else {
            let target = if k >= 1 { k - 1 } else { 0 };
            self.navigate_to_span(cands[target]);
        }
    }

    fn move_cursor_page(&mut self, forward: bool)
        requires
            nav_wf(old(self)@),
        ensures
            final(self)@ == spec_move_page(old(self)@, forward),
            final(self)@.root == old(self)@.root,
    {
        let rows = self.visible_rows();
        let cands = self.candidates(&rows, self.vertical_navigation);
        let cur = match span_id_at(&rows, self.cursor) {
            Some(c) => c,
            None => {
                return;
            },
        };
        let k = match index_of_id(&cands, cur) {
            Some(k) => k,
            None => {
                return;
            },
        };
        let h: u16 = if self.viewport_height == 0 { 1 } else { self.viewport_height };
        let half: u16 = h / 2;
        let page: usize = if half >= 1 { half as usize } else { 1 };
        let last = cands.len() - 1;
        let target = if forward {
            if page > last - k { last } else { k + page }
        } else if k >= page {
            k - page
        } else {
            0
        };
        self.navigate_to_span(cands[target]);
    }

    fn move_cursor_boundary(&mut self, bottom: bool)
        requires
            nav_wf(old(self)@),
        ensures
            final(self)@ == spec_move_boundary(old(self)@, bottom),
            final(self)@.root == old(self)@.root,
    {
        let rows = self.visible_rows();
        let cands = self.candidates(&rows, self.vertical_navigation);
        let target = if bottom && cands.len() > 0 { cands.len() - 1 } else { 0 };
        if target < cands.len() {
            self.navigate_to_span(cands[target]);
        }
    }

    fn expand_or_descend(&mut self)
        requires
            nav_wf(old(self)@),
        ensures
            final(self)@ == spec_expand_or_descend(old(self)@),
            final(self)@.root == old(self)@.root,
    {
        self.push_undo();
        let rows = self.visible_rows();
        let id = match span_id_at(&rows, self.cursor) {
            Some(i) => i,
            None => {
                return;
            },
        };
        let child = match first_child_of(&self.root, id) {
            Some(c) => c,
            None => {
                return;
            },
        };
        if !self.is_expanded(id) {
            self.start_expand(id);
        }
        self.path = ancestor_path(&self.root, child);
        if self.selected_for_legend.is_some() {
            self.selected_for_legend = Some(child);
        }
        self.move_cursor_to_span(child);
    }

    fn unfocus_to_parent(&mut self)
        requires
            nav_wf(old(self)@),
        ensures
            final(self)@ == spec_unfocus_to_parent(old(self)@),
            final(self)@.root == old(self)@.root,
    {
        let focus_id = match self.focus {
            Some(f) => f,
            None => {
                return;
            },
        };
        let focus_path = ancestor_path(&self.root, focus_id);
        let parent = if focus_path.len() >= 2 { focus_path[focus_path.len() - 2] } else { focus_id };
        self.push_undo();
        self.focus = None;
        self.sync_path_to_cursor(parent);
        if self.selected_for_legend.is_some() {
            self.selected_for_legend = Some(parent);
        }
        self.move_cursor_to_span(parent);
    }

    fn collapse_or_ascend(&mut self)
        requires
            nav_wf(old(self)@),
        ensures
            final(self)@ == spec_collapse_or_ascend(old(self)@),
            final(self)@.root == old(self)@.root,
    {
        let rows = self.visible_rows();
        let under = span_id_at(&rows, self.cursor);
        if let Some(f) = self.focus {
            if under == Some(f) {
                self.unfocus_to_parent();
                return;
            }
        }
        let sel = match under {
            Some(s) => s,
            None => {
                return;
            },
        };
        let sp = ancestor_path(&self.root, sel);
        if sp.len() < 2 {
            return;
        }
        let parent = sp[sp.len() - 2];
        let mut new_path = sp;
        new_path.pop();
        assert(new_path@ =~= spec_ancestor_path(old(self)@.root, sel).take(spec_ancestor_path(old(self)@.root, sel).len() - 1));
        self.push_undo();
        self.transition_animations(&new_path);
        self.path = new_path;
        if self.selected_for_legend.is_some() {
            self.selected_for_legend = Some(parent);
        }
        self.move_cursor_to_span(parent);
    }

    fn focus_on_selected(&mut self)
        requires
            nav_wf(old(self)@),
        ensures
            final(self)@ == spec_focus_on_selected(old(self)@),
            final(self)@.root == old(self)@.root,
    {
        let rows = self.visible_rows();
        let id = match span_id_at(&rows, self.cursor) {
            Some(i) => i,
            None => {
                return;
            },
        };
        if id == self.root.id {
            return;
        }
        self.push_undo();
        self.focus = Some(id);
        if self.selected_for_legend.is_some() {
            self.selected_for_legend = Some(id);
        }
        match first_child_of(&self.root, id) {
            Some(child) => {
                if !self.is_expanded(id) {
                    self.restart_opening(id);
                }
                self.path = ancestor_path(&self.root, child);
                if self.selected_for_legend.is_some() {
                    self.selected_for_legend = Some(child);
                }
                self.move_cursor_to_span(child);
            },
            None => {
                self.move_cursor_to_span(id);
            },
        }
    }

    fn unfocus(&mut self)
        requires
            nav_wf(old(self)@),
        ensures
            final(self)@ == spec_unfocus(old(self)@),
            final(self)@.root == old(self)@.root,
    {
        if self.focus.is_none() {
            return;
        }
        let current = self.selected_span();
        self.push_undo();
        self.focus = None;
        if let Some(id) = current {
            self.sync_path_to_cursor(id);
            self.move_cursor_to_span(id);
        }
    }

    fn undo(&mut self)
        requires
            nav_wf(old(self)@),
        ensures
            final(self)@ == spec_undo(old(self)@),
            final(self)@.root == old(self)@.root,
    {
        if self.undo_stack.len() == 0 {
            return;
        }
        let ghost before = self.undo_stack@;
        let (p, f) = self.undo_stack.pop().unwrap();
        assert(snaps_view(self.undo_stack@) =~= snaps_view(before).drop_last());
        let saved = copy_ids(&self.path);
        let ghost redo_before = self.redo_stack@;
        self.redo_stack.push((saved, self.focus));
        assert(snaps_view(self.redo_stack@) =~= snaps_view(redo_before).push((old(self)@.path, old(self)@.focus)));
        self.apply_path(p);
        self.focus = f;
    }

    fn redo(&mut self)
        requires
            nav_wf(old(self)@),
        ensures
            final(self)@ == spec_redo(old(self)@),
            final(self)@.root == old(self)@.root,
    {
        if self.redo_stack.len() == 0 {
            return;
        }
        let ghost before = self.redo_stack@;
        let (p, f) = self.redo_stack.pop().unwrap();
        assert(snaps_view(self.redo_stack@) =~= snaps_view(before).drop_last());
        let saved = copy_ids(&self.path);
        let ghost undo_before = self.undo_stack@;
        self.undo_stack.push((saved, self.focus));
        assert(snaps_view(self.undo_stack@) =~= snaps_view(undo_before).push((old(self)@.path, old(self)@.focus)));
        self.apply_path(p);
        self.focus = f;
    }

    fn set_mark(&mut self, c: char)
        requires
            nav_wf(old(self)@),
        ensures
            final(self)@ == spec_set_mark(old(self)@, c),
            final(self)@.root == old(self)@.root,
    {
        if let Some(id) = self.selected_span() {
            match index_of_mark(&self.marks, c) {
                Some(i) => {
                    self.marks.set(i, (c, id));
                },
                None => {
                    self.marks.push((c, id));
                },
            }
        }
    }

    fn jump_to_mark(&mut self, c: char)
        requires
            nav_wf(old(self)@),
        ensures
            final(self)@ == spec_jump_to_mark(old(self)@, c),
            final(self)@.root == old(self)@.root,
    {
        let id = match index_of_mark(&self.marks, c) {
            Some(i) => self.marks[i].1,
            None => {
                return;
            },
        };
        if ancestor_path(&self.root, id).len() == 0 {
            return;
        }
        self.push_undo();
        self.focus = None;
        self.select_span(id);
    }

    fn toggle_legend(&mut self, rows: &Vec<FlameRow>)
        ensures
            final(self)@ == (match spec_span_id_at(rows@, old(self)@.cursor as int) {
                None => old(self)@,
                Some(id) => NavState { legend: if old(self)@.legend == Some(id) { None } else { Some(id) }, ..old(self)@ },
            }),
    {
        if let Some(id) = span_id_at(rows, self.cursor) {
            if self.selected_for_legend == Some(id) {
                self.selected_for_legend = None;
            } else {
                self.selected_for_legend = Some(id);
            }
        }
    }

    /// Dispatch a key press; returns whether the key was used.
    pub fn handle_key(&mut self, key: &KeyEvent) -> (r: KeyResult)
        requires
            nav_wf(old(self)@),
        ensures
            (final(self)@, r) == spec_handle_key(old(self)@, *key),
            nav_wf(final(self)@),
    {
        if let Some(action) = self.pending_mark {
            self.pending_mark = None;
            if let KeyCode::Char(c) = key.code {
                if key.modifiers == NO_MODIFIERS && 'a' <= c && c <= 'z' {
                    match action {
                        MarkAction::Store => self.set_mark(c),
                        MarkAction::Jump => self.jump_to_mark(c),
                    }
                }
            }
            return KeyResult::Consumed;
        }
        if key.modifiers & CONTROL != 0 && key.modifiers & ALT == 0 {
            return match key.code {
                KeyCode::Char('u') => {
                    self.move_cursor_page(false);
                    KeyResult::Consumed
                },
                KeyCode::Char('d') => {
                    self.move_cursor_page(true);
                    KeyResult::Consumed
                },
                KeyCode::Char('k') => {
                    let rows = self.visible_rows();
                    self.move_step(&rows, false, VerticalNavigation::VisibleRows);
                    KeyResult::Consumed
                },
                KeyCode::Char('j') => {
                    let rows = self.visible_rows();
                    self.move_step(&rows, true, VerticalNavigation::VisibleRows);
                    KeyResult::Consumed
                },
                _ => KeyResult::Ignored,
            };
        }
        if key.modifiers & (CONTROL | ALT) != 0 {
            return KeyResult::Ignored;
        }
        let rows = self.visible_rows();
        let nav = self.vertical_navigation;
        match key.code {
            KeyCode::Up | KeyCode::Char('k') => self.move_step(&rows, false, nav),
            KeyCode::Down | KeyCode::Char('j') => self.move_step(&rows, true, nav),
            KeyCode::Char('g') => self.move_cursor_boundary(false),
            KeyCode::Char('G') => self.move_cursor_boundary(true),
            KeyCode::Right | KeyCode::Char('l') => self.expand_or_descend(),
            KeyCode::Left | KeyCode::Char('h') => self.collapse_or_ascend(),
            KeyCode::Char('f') => self.focus_on_selected(),
            KeyCode::Char('F') => self.unfocus(),
            KeyCode::Char('u') => self.undo(),
            KeyCode::Char('r') => self.redo(),
            KeyCode::Char('m') => {
                self.pending_mark = Some(MarkAction::Store);
            },
            KeyCode::Char('`') => {
                self.pending_mark = Some(MarkAction::Jump);
            },
            KeyCode::Enter => self.toggle_legend(&rows),
            _ => {
                return KeyResult::Ignored;
            },
        }
        KeyResult::Consumed
    }
}

/// The spans of the span rows, in order, that `parent` (when given) has as
/// children.
fn row_ids(rows: &Vec<FlameRow>, parent: Option<&SpanTree>) -> (r: Vec<SpanId>)
    ensures
        r@ == row_ids_under(
            rows@,
            match parent {
                Some(p) => Some(*p),
                None => None,
            },
        ),
{
    let ghost par = match parent {
        Some(p) => Some(*p),
        None => None,
    };
    let mut out: Vec<SpanId> = Vec::new();
    let mut i: usize = 0;
    while i < rows.len()
        invariant
            i <= rows@.len(),
            par == (match parent {
                Some(p) => Some(*p),
                None => None::<SpanTree>,
            }),
            out@ == row_ids_under(rows@.take(i as int), par),
        decreases rows@.len() - i,
    {
        proof {
            assert(rows@.take(i + 1).drop_last() =~= rows@.take(i as int));
            assert(rows@.take(i + 1).last() == rows@[i as int]);
        }
        match rows[i].kind {
            RowKind::Span { span_id, .. } => {
                let keep = match parent {
                    Some(p) => has_child(p, span_id),
                    None => true,
                };
                if keep {
                    out.push(span_id);
                }
            },
            RowKind::Legend { .. } => {},
        }
        i += 1;
    }
    proof {
        assert(rows@.take(rows@.len() as int) =~= rows@);
    }
    out
}

/// Whether `p` has a child with id `id`.
fn has_child(p: &SpanTree, id: SpanId) -> (b: bool)
    ensures
        b == child_ids(*p).contains(id),
{
    let mut k: usize = 0;
    while k < p.children.len()
        invariant
            k <= p.children@.len(),
            forall|j: int| 0 <= j < k ==> child_ids(*p)[j] != id,
        decreases p.children@.len() - k,
    {
        if p.children[k].id == id {
            assert(child_ids(*p)[k as int] == id);
            return true;
        }
        k += 1;
    }
    false
}

/// The first child of `id`, when it has children.
fn first_child_of(root: &SpanTree, id: SpanId) -> (c: Option<SpanId>)
    ensures
        c == first_child(*root, id),
{
    match find_node(root, id) {
        Some(n) => if n.children.len() > 0 {
            Some(n.children[0].id)
        } else {
            None
        },
        None => None,
    }
}

/// Position of `id` in the list.
fn index_of_id(v: &Vec<SpanId>, id: SpanId) -> (r: Option<usize>)
    ensures
        match r {
            Some(k) => k < v@.len() && first_index(v@, is_id(id), 0) == Some(k as int),
            None => first_index(v@, is_id(id), 0) is None,
        },
{
    proof {
        lemma_first_index(v@, is_id(id), 0);
    }
    let mut k: usize = 0;
    while k < v.len()
        invariant
            k <= v@.len(),
            first_index(v@, is_id(id), 0) == first_index(v@, is_id(id), k as int),
        decreases v@.len() - k,
    {
        if v[k] == id {
            assert(first_index(v@, is_id(id), k as int) == Some(k as int));
            return Some(k);
        }
        k += 1;
    }
    assert(first_index(v@, is_id(id), k as int) is None);
    None
}

/// Position of the mark named `c`.
fn index_of_mark(v: &Vec<(char, SpanId)>, c: char) -> (r: Option<usize>)
    ensures
        match r {
            Some(k) => k < v@.len() && first_index(v@, mark_named(c), 0) == Some(k as int),
            None => first_index(v@, mark_named(c), 0) is None,
        },
{
    proof {
        lemma_first_index(v@, mark_named(c), 0);
    }
    let mut k: usize = 0;
    while k < v.len()
        invariant
            k <= v@.len(),
            first_index(v@, mark_named(c), 0) == first_index(v@, mark_named(c), k as int),
        decreases v@.len() - k,
    {
        if v[k].0 == c {
            assert(first_index(v@, mark_named(c), k as int) == Some(k as int));
            return Some(k);
        }
        k += 1;
    }
    assert(first_index(v@, mark_named(c), k as int) is None);
    None
}

/// Whether `id` is expanded on `path` (present, and not at its end).
fn expanded_in_path(path: &Vec<SpanId>, id: SpanId) -> (b: bool)
    ensures
        b == expanded_in(path@, id),
{
    proof {
        lemma_first_index(path@, is_id(id), 0);
    }
    let mut k: usize = 0;
    while k < path.len()
        invariant
            k <= path@.len(),
            first_index(path@, is_id(id), 0) == first_index(path@, is_id(id), k as int),
        decreases path@.len() - k,
    {
        if path[k] == id {
            assert(first_index(path@, is_id(id), k as int) == Some(k as int));
            return k + 1 < path.len();
        }
        k += 1;
    }
    assert(first_index(path@, is_id(id), k as int) is None);
    false
}

/// Whether `id` occurs in the list.
fn contains_span_id(ids: &Vec<SpanId>, id: SpanId) -> (b: bool)
    ensures
        b == ids@.contains(id),
{
    crate::widget::flame_graph::layout::contains_span(ids, id)
}

/// A copy of a list of ids.
fn copy_ids(v: &Vec<SpanId>) -> (r: Vec<SpanId>)
    ensures
        r@ == v@,
{
    let mut r: Vec<SpanId> = Vec::new();
    let mut i: usize = 0;
    while i < v.len()
        invariant
            i <= v@.len(),
            r@ == v@.take(i as int),
        decreases v@.len() - i,
    {
        r.push(v[i]);
        i += 1;
        assert(r@ =~= v@.take(i as int));
    }
    assert(v@.take(v@.len() as int) =~= v@);
    r
}

} // verus!
