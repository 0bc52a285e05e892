//! The navigation path is never empty: a new view's path holds the root,
//! and every key, selection and finished transition keeps the path, and
//! every path saved for undo or redo, non-empty.

use vstd::prelude::*;

use crate::input::key::{KeyCode, KeyEvent, ALT, CONTROL};
use crate::widget::flame_graph::data::{
    find_span, find_span_forest, span_path, span_path_forest, spec_ancestor_path, SpanId, SpanTree,
};
use crate::widget::flame_graph::laws::{lemma_transition_frame, same_but_transitions};
use crate::widget::flame_graph::state::{
    nav_rows, VerticalNavigation, first_child, fresh_nav, spec_apply_path, spec_collapse_or_ascend, spec_expand_or_descend, spec_finish,
    spec_focus_on_selected, spec_handle_key, spec_jump_to_mark, spec_move_boundary, spec_move_page,
    spec_move_step, spec_navigate, spec_push_undo, spec_redo, spec_reposition, spec_select_span, spec_sync_path,
    spec_transition, spec_undo, spec_unfocus, spec_unfocus_to_parent, NavState,
};
use crate::widget::flame_graph::layout::FlameRow;

verus! {

/// Whether the path, and every path saved for undo and redo, is non-empty.
pub open spec fn paths_nonempty(st: NavState) -> bool {
    &&& st.path.len() > 0
    &&& forall|i: int| 0 <= i < st.undo.len() ==> (#[trigger] st.undo[i]).0.len() > 0
    &&& forall|i: int| 0 <= i < st.redo.len() ==> (#[trigger] st.redo[i]).0.len() > 0
}

pub(crate) proof fn lemma_find_has_path(n: SpanTree, t: SpanId)
    ensures
        find_span(n, t) is Some ==> span_path(n, t) is Some,
    decreases n, 0nat,
{
    if n.id != t {
        lemma_find_forest_has_path(n.children@, t);
    }
}

proof fn lemma_find_forest_has_path(ns: Seq<SpanTree>, t: SpanId)
    ensures
        find_span_forest(ns, t) is Some ==> span_path_forest(ns, t) is Some,
    decreases ns, 1nat,
{
    if ns.len() > 0 {
        lemma_find_has_path(ns[0], t);
        lemma_find_forest_has_path(ns.drop_first(), t);
        if find_span(ns[0], t) is None {
            assert(span_path(ns[0], t) is None ==> span_path_forest(ns, t) == span_path_forest(ns.drop_first(), t));
        }
    }
}

/// What is found inside a found span is found from the root too.
proof fn lemma_find_within(n: SpanTree, id: SpanId, t: SpanId)
    requires
        find_span(n, id) matches Some(m) && find_span(m, t) is Some,
    ensures
        find_span(n, t) is Some,
    decreases n, 0nat,
{
    if n.id != id && n.id != t {
        lemma_find_forest_within(n.children@, id, t);
    }
}

proof fn lemma_find_forest_within(ns: Seq<SpanTree>, id: SpanId, t: SpanId)
    requires
        find_span_forest(ns, id) matches Some(m) && find_span(m, t) is Some,
    ensures
        find_span_forest(ns, t) is Some,
    decreases ns, 1nat,
{
    if ns.len() > 0 {
        if find_span(ns[0], id) is Some {
            lemma_find_within(ns[0], id, t);
        } else {
            lemma_find_forest_within(ns.drop_first(), id, t);
        }
    }
}

/// The first child of a span in the tree has a path from the root.
proof fn lemma_first_child_path(root: SpanTree, id: SpanId)
    ensures
        first_child(root, id) matches Some(c) ==> spec_ancestor_path(root, c).len() > 0,
{
    if let Some(m) = find_span(root, id) {
        if m.children@.len() > 0 {
            let c = m.children@[0];
            assert(find_span(c, c.id) == Some(c));
            assert(find_span_forest(m.children@, c.id) is Some);
            assert(find_span(m, c.id) is Some);
            lemma_find_within(root, id, c.id);
            lemma_find_has_path(root, c.id);
            assert(span_path(root, c.id) matches Some(p) && p.len() > 0);
        }
    }
}

proof fn lemma_push_undo(st: NavState)
    requires
        paths_nonempty(st),
    ensures
        paths_nonempty(spec_push_undo(st)),
        spec_push_undo(st).path == st.path,
{
    let pushed = st.undo.push((st.path, st.focus));
    assert forall|i: int| 0 <= i < pushed.len() implies (#[trigger] pushed[i]).0.len() > 0 by {
        if i < st.undo.len() {
            assert(pushed[i] == st.undo[i]);
        }
    }
    if pushed.len() > 32 {
        assert forall|i: int| 0 <= i < pushed.drop_first().len() implies (#[trigger] pushed.drop_first()[i]).0.len() > 0 by {
            assert(pushed.drop_first()[i] == pushed[i + 1]);
        }
    }
}

proof fn lemma_transition(st: NavState, new: Seq<SpanId>)
    ensures
        same_but_transitions(spec_transition(st, new), st),
{
    lemma_transition_frame(st, new);
}

proof fn lemma_reposition(st: NavState)
    ensures
        spec_reposition(st).path == st.path,
        spec_reposition(st).undo == st.undo,
        spec_reposition(st).redo == st.redo,
{
}

proof fn lemma_apply_path(st: NavState, new: Seq<SpanId>)
    ensures
        spec_apply_path(st, new).path == new,
        spec_apply_path(st, new).undo == st.undo,
        spec_apply_path(st, new).redo == st.redo,
{
    lemma_transition(st, new);
    lemma_reposition(NavState { path: new, ..spec_transition(st, new) });
}

proof fn lemma_sync_path(st: NavState, id: SpanId)
    requires
        paths_nonempty(st),
    ensures
        paths_nonempty(spec_sync_path(st, id)),
{
    lemma_transition(st, spec_ancestor_path(st.root, id));
}

proof fn lemma_navigate(st: NavState, id: SpanId)
    requires
        paths_nonempty(st),
    ensures
        paths_nonempty(spec_navigate(st, id)),
{
    lemma_push_undo(st);
    let s = crate::widget::flame_graph::state::legend_to(spec_push_undo(st), id);
    lemma_sync_path(s, id);
}

proof fn lemma_select(st: NavState, id: SpanId)
    requires
        paths_nonempty(st),
    ensures
        paths_nonempty(spec_select_span(st, id)),
{
    let path = spec_ancestor_path(st.root, id);
    if path.len() > 0 {
        lemma_apply_path(st, path);
    }
}

proof fn lemma_steps(st: NavState, rows: Seq<FlameRow>, forward: bool, nav: crate::widget::flame_graph::state::VerticalNavigation, bottom: bool)
    requires
        paths_nonempty(st),
    ensures
        paths_nonempty(spec_move_step(st, rows, forward, nav)),
        paths_nonempty(spec_move_page(st, forward)),
        paths_nonempty(spec_move_boundary(st, bottom)),
{
    assert forall|id: SpanId| #[trigger] spec_navigate(st, id) == spec_navigate(st, id) implies paths_nonempty(
        spec_navigate(st, id),
    ) by {
        lemma_navigate(st, id);
    }
}

proof fn lemma_expand(st: NavState)
    requires
        paths_nonempty(st),
    ensures
        paths_nonempty(spec_expand_or_descend(st)),
{
    lemma_push_undo(st);
    let s = spec_push_undo(st);
    match crate::widget::flame_graph::layout::spec_span_id_at(
        crate::widget::flame_graph::state::nav_rows(s),
        s.cursor as int,
    ) {
        None => {},
        Some(id) => {
            lemma_first_child_path(s.root, id);
        },
    }
}

proof fn lemma_unfocus_to_parent(st: NavState)
    requires
        paths_nonempty(st),
    ensures
        paths_nonempty(spec_unfocus_to_parent(st)),
{
    lemma_push_undo(st);
    if let Some(f) = st.focus {
        let fp = spec_ancestor_path(st.root, f);
        let parent = if fp.len() >= 2 { fp[fp.len() - 2] } else { f };
        let s = NavState { focus: None, ..spec_push_undo(st) };
        lemma_sync_path(s, parent);
    }
}

proof fn lemma_collapse(st: NavState)
    requires
        paths_nonempty(st),
    ensures
        paths_nonempty(spec_collapse_or_ascend(st)),
{
    lemma_push_undo(st);
    lemma_unfocus_to_parent(st);
    let rows = crate::widget::flame_graph::state::nav_rows(st);
    match crate::widget::flame_graph::layout::spec_span_id_at(rows, st.cursor as int) {
        None => {},
        Some(sel) => {
            let sp = spec_ancestor_path(st.root, sel);
            if sp.len() >= 2 {
                let new_path = sp.take(sp.len() - 1);
                lemma_transition(spec_push_undo(st), new_path);
            }
        },
    }
}

proof fn lemma_focus(st: NavState)
    requires
        paths_nonempty(st),
    ensures
        paths_nonempty(spec_focus_on_selected(st)),
        paths_nonempty(spec_unfocus(st)),
{
    lemma_push_undo(st);
    match crate::widget::flame_graph::layout::spec_span_id_at(
        crate::widget::flame_graph::state::nav_rows(st),
        st.cursor as int,
    ) {
        None => {},
        Some(id) => {
            lemma_first_child_path(st.root, id);
            let s = NavState { focus: None, ..spec_push_undo(st) };
            lemma_sync_path(s, id);
        },
    }
}

proof fn lemma_history(st: NavState)
    requires
        paths_nonempty(st),
    ensures
        paths_nonempty(spec_undo(st)),
        paths_nonempty(spec_redo(st)),
{
    if st.undo.len() > 0 {
        let (p, f) = st.undo.last();
        assert(st.undo[st.undo.len() - 1].0.len() > 0);
        let s = NavState { undo: st.undo.drop_last(), redo: st.redo.push((st.path, st.focus)), ..st };
        lemma_apply_path(s, p);
        assert forall|i: int| 0 <= i < s.redo.len() implies (#[trigger] s.redo[i]).0.len() > 0 by {
            if i < st.redo.len() {
                assert(s.redo[i] == st.redo[i]);
            }
        }
        assert forall|i: int| 0 <= i < s.undo.len() implies (#[trigger] s.undo[i]).0.len() > 0 by {
            assert(s.undo[i] == st.undo[i]);
        }
    }
    if st.redo.len() > 0 {
        let (p, f) = st.redo.last();
        assert(st.redo[st.redo.len() - 1].0.len() > 0);
        let s = NavState { redo: st.redo.drop_last(), undo: st.undo.push((st.path, st.focus)), ..st };
        lemma_apply_path(s, p);
        assert forall|i: int| 0 <= i < s.undo.len() implies (#[trigger] s.undo[i]).0.len() > 0 by {
            if i < st.undo.len() {
                assert(s.undo[i] == st.undo[i]);
            }
        }
        assert forall|i: int| 0 <= i < s.redo.len() implies (#[trigger] s.redo[i]).0.len() > 0 by {
            assert(s.redo[i] == st.redo[i]);
        }
    }
}

proof fn lemma_jump(st: NavState, c: char)
    requires
        paths_nonempty(st),
    ensures
        paths_nonempty(spec_jump_to_mark(st, c)),
{
    lemma_push_undo(st);
    let s0 = NavState { focus: None, ..spec_push_undo(st) };
    match crate::widget::flame_graph::state::first_index(st.marks, crate::widget::flame_graph::state::mark_named(c), 0) {
        None => {},
        Some(i) => {
            lemma_select(s0, st.marks[i].1);
        },
    }
}

proof fn lemma_marks_and_legend(st: NavState, c: char)
    requires
        paths_nonempty(st),
    ensures
        paths_nonempty(crate::widget::flame_graph::state::spec_set_mark(st, c)),
        paths_nonempty(crate::widget::flame_graph::state::spec_toggle_legend(st)),
{
}

/// Law: a new view's path is non-empty, and every key keeps the path and
/// every saved path non-empty.
#[verifier::spinoff_prover]
#[verifier::rlimit(40)]
pub proof fn law_keys_keep_path_nonempty(root: SpanTree, st: NavState, key: KeyEvent)
    requires
        paths_nonempty(st),
    ensures
        paths_nonempty(fresh_nav(root)),
        paths_nonempty(spec_handle_key(st, key).0),
{
    match st.pending {
        Some(action) => {
            let s = NavState { pending: None, ..st };
            if let KeyCode::Char(c) = key.code {
                lemma_marks_and_legend(s, c);
                lemma_jump(s, c);
            }
        },
        None => {
            let rows = nav_rows(st);
            if key.modifiers & CONTROL != 0 && key.modifiers & ALT == 0 {
                lemma_steps(st, rows, true, VerticalNavigation::VisibleRows, true);
                lemma_steps(st, rows, false, VerticalNavigation::VisibleRows, false);
            } else if key.modifiers & (CONTROL | ALT) == 0 {
                match key.code {
                    KeyCode::Up | KeyCode::Down | KeyCode::Char('k') | KeyCode::Char('j') | KeyCode::Char('g')
                    | KeyCode::Char('G') => {
                        lemma_steps(st, rows, true, st.vertical_nav, true);
                        lemma_steps(st, rows, false, st.vertical_nav, false);
                    },
                    KeyCode::Right | KeyCode::Char('l') => lemma_expand(st),
                    KeyCode::Left | KeyCode::Char('h') => lemma_collapse(st),
                    KeyCode::Char('f') | KeyCode::Char('F') => lemma_focus(st),
                    KeyCode::Char('u') | KeyCode::Char('r') => lemma_history(st),
                    KeyCode::Enter => lemma_marks_and_legend(st, 'a'),
                    _ => {},
                }
            }
        },
    }
}

/// Law: selecting a span and finishing transitions keep the path and every
/// saved path non-empty.
pub proof fn law_selection_keeps_path_nonempty(st: NavState, id: SpanId, finished: Seq<SpanId>)
    requires
        paths_nonempty(st),
    ensures
        paths_nonempty(spec_select_span(st, id)),
        paths_nonempty(spec_finish(st, finished)),
{
    lemma_select(st, id);
    lemma_reposition(NavState { anims: st.anims.filter(crate::widget::flame_graph::state::unfinished(finished)), ..st });
}

} // verus!
