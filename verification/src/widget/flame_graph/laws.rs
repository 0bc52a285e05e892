//! Properties of flame graph navigation that hold in every state.

use vstd::prelude::*;

use crate::widget::flame_graph::data::{span_path, span_path_forest, spec_ancestor_path, SpanId, SpanTree};
use crate::widget::flame_graph::layout::{
    flat_span, flat_spans, is_span_row, shows_children, span_row_index, spec_span_id_at, FlameRow, RowContext,
};
use crate::widget::flame_graph::state::{
    first_index, is_id, lemma_first_index, page_rows, spec_candidates, spec_move_page, spec_navigate,
    anim_ids, collapse_leaving, expand_entering, nav_rows, spec_apply_path, spec_ensure_visible,
    spec_move_cursor_to_span, spec_reposition, spec_collapse_or_ascend,
    spec_expand_or_descend, spec_redo, spec_select_span, spec_transition, spec_undo, spec_unfocus_to_parent, NavState,
    TransitionMode,
};

verus! {

/// Undo right after expanding (`l`) returns to the path and focus from
/// before it.
pub proof fn law_undo_reverts_expand(st: NavState)
    ensures
        spec_undo(spec_expand_or_descend(st)).path == st.path,
        spec_undo(spec_expand_or_descend(st)).focus == st.focus,
{
}

/// The same state with other transitions.
pub(crate) open spec fn same_but_transitions(a: NavState, b: NavState) -> bool {
    a == (NavState { anims: a.anims, serial: a.serial, ..b })
}

proof fn lemma_collapse_frame(st: NavState, old: Seq<SpanId>, new: Seq<SpanId>, n: int)
    ensures
        same_but_transitions(collapse_leaving(st, old, new, n), st),
    decreases n,
{
    if n > 0 {
        lemma_collapse_frame(st, old, new, n - 1);
    }
}

proof fn lemma_expand_frame(st: NavState, old: Seq<SpanId>, new: Seq<SpanId>, n: int)
    ensures
        same_but_transitions(expand_entering(st, old, new, n), st),
    decreases n,
{
    if n > 0 {
        lemma_expand_frame(st, old, new, n - 1);
    }
}

pub(crate) proof fn lemma_transition_frame(st: NavState, new: Seq<SpanId>)
    ensures
        same_but_transitions(spec_transition(st, new), st),
{
    let c = collapse_leaving(st, st.path, new, st.path.len() as int);
    lemma_collapse_frame(st, st.path, new, st.path.len() as int);
    lemma_expand_frame(c, st.path, new, new.len() as int);
}

/// Redo right after an undo returns to the path and focus from before the
/// undo.
pub proof fn law_redo_reverts_undo(st: NavState)
    requires
        st.undo.len() > 0,
    ensures
        spec_redo(spec_undo(st)).path == st.path,
        spec_redo(spec_undo(st)).focus == st.focus,
{
    let (p, f) = st.undo.last();
    let s = NavState { undo: st.undo.drop_last(), redo: st.redo.push((st.path, st.focus)), ..st };
    lemma_transition_frame(s, p);
    let u = spec_undo(st);
    assert(u.redo == st.redo.push((st.path, st.focus)));
    let (p2, f2) = u.redo.last();
    let s2 = NavState { redo: u.redo.drop_last(), undo: u.undo.push((u.path, u.focus)), ..u };
    lemma_transition_frame(s2, p2);
}

proof fn lemma_immediate_collapse(st: NavState, old: Seq<SpanId>, new: Seq<SpanId>, n: int)
    requires
        st.mode == TransitionMode::Immediate,
    ensures
        collapse_leaving(st, old, new, n) == st,
    decreases n,
{
    if n > 0 {
        lemma_immediate_collapse(st, old, new, n - 1);
    }
}

proof fn lemma_immediate_expand(st: NavState, old: Seq<SpanId>, new: Seq<SpanId>, n: int)
    requires
        st.mode == TransitionMode::Immediate,
    ensures
        expand_entering(st, old, new, n) == st,
    decreases n,
{
    if n > 0 {
        lemma_immediate_expand(st, old, new, n - 1);
    }
}

/// In immediate mode a path change starts no transition.
pub proof fn law_immediate_transition_is_empty(st: NavState, new: Seq<SpanId>)
    requires
        st.mode == TransitionMode::Immediate,
    ensures
        spec_transition(st, new) == st,
{
    lemma_immediate_collapse(st, st.path, new, st.path.len() as int);
    lemma_immediate_expand(st, st.path, new, new.len() as int);
}

/// In immediate mode, expanding (`l`) and collapsing (`h`) change the
/// disclosure without starting any transition.
pub proof fn law_immediate_mode_does_not_animate(st: NavState)
    requires
        st.mode == TransitionMode::Immediate,
    ensures
        spec_expand_or_descend(st).anims == st.anims,
        spec_collapse_or_ascend(st).anims == st.anims,
{
    let u = spec_unfocus_to_parent(st);
    assert forall|p: Seq<SpanId>, s: NavState| s.mode == TransitionMode::Immediate implies #[trigger] spec_transition(
        s,
        p,
    ) == s by {
        law_immediate_transition_is_empty(s, p);
    }
}

/// Whether some row is the span row of `id`.
spec fn has_span_row(rows: Seq<FlameRow>, id: SpanId) -> bool {
    exists|i: int| 0 <= i < rows.len() && is_span_row(#[trigger] rows[i], id)
}

proof fn lemma_has_row_concat(a: Seq<FlameRow>, b: Seq<FlameRow>, id: SpanId)
    ensures
        has_span_row(a, id) ==> has_span_row(a + b, id),
        has_span_row(b, id) ==> has_span_row(a + b, id),
{
    if has_span_row(a, id) {
        let i = choose|i: int| 0 <= i < a.len() && is_span_row(#[trigger] a[i], id);
        assert((a + b)[i] == a[i]);
    }
    if has_span_row(b, id) {
        let i = choose|i: int| 0 <= i < b.len() && is_span_row(#[trigger] b[i], id);
        assert((a + b)[a.len() + i] == b[i]);
    }
}

proof fn lemma_row_in_siblings(ns: Seq<SpanTree>, ctx: RowContext, depth: nat, k: int, id: SpanId)
    requires
        0 <= k < ns.len(),
        has_span_row(flat_span(ns[k], ctx, depth), id),
    ensures
        has_span_row(flat_spans(ns, ctx, depth), id),
    decreases k,
{
    lemma_has_row_concat(flat_span(ns[0], ctx, depth), flat_spans(ns.drop_first(), ctx, depth), id);
    if k > 0 {
        assert(ns.drop_first()[k - 1] == ns[k]);
        lemma_row_in_siblings(ns.drop_first(), ctx, depth, k - 1, id);
    }
}

pub(crate) proof fn lemma_path_shape(n: SpanTree, t: SpanId)
    ensures
        span_path(n, t) matches Some(p) ==> p.len() > 0 && p[0] == n.id && p.last() == t && forall|k: int|
            0 <= k < p.len() - 1 ==> #[trigger] p[k] != t,
    decreases n, 0nat,
{
    if n.id != t {
        lemma_forest_path_shape(n.children@, t);
        if let Some(q) = span_path_forest(n.children@, t) {
            let p = seq![n.id] + q;
            assert forall|k: int| 0 <= k < p.len() - 1 implies #[trigger] p[k] != t by {
                if k > 0 {
                    assert(p[k] == q[k - 1]);
                }
            }
        }
    }
}

proof fn lemma_forest_path_shape(ns: Seq<SpanTree>, t: SpanId)
    ensures
        span_path_forest(ns, t) matches Some(p) ==> p.len() > 0 && p.last() == t && forall|k: int|
            0 <= k < p.len() - 1 ==> #[trigger] p[k] != t,
        span_path_forest(ns, t) matches Some(p) ==> exists|k: int|
            0 <= k < ns.len() && #[trigger] span_path(ns[k], t) == Some(p),
    decreases ns, 1nat,
{
    if ns.len() > 0 {
        lemma_path_shape(ns[0], t);
        lemma_forest_path_shape(ns.drop_first(), t);
        if span_path(ns[0], t) is None {
            if let Some(p) = span_path_forest(ns.drop_first(), t) {
                let k = choose|k: int| 0 <= k < ns.drop_first().len() && #[trigger] span_path(ns.drop_first()[k], t) == Some(p);
                assert(ns[k + 1] == ns.drop_first()[k]);
            }
        }
    }
}

/// A span whose proper ancestors all show their children has a span row.
proof fn lemma_row_on_path(n: SpanTree, ctx: RowContext, depth: nat, t: SpanId)
    requires
        span_path(n, t) is Some,
        forall|k: int|
            0 <= k < span_path(n, t)->0.len() - 1 ==> shows_children(ctx, #[trigger] span_path(n, t)->0[k]),
    ensures
        has_span_row(flat_span(n, ctx, depth), t),
    decreases n,
{
    let rows = flat_span(n, ctx, depth);
    let head = seq![FlameRow { kind: crate::widget::flame_graph::layout::RowKind::Span { span_id: n.id, depth: depth as u16 } }];
    if n.id == t {
        assert(rows[0] == head[0]);
        assert(is_span_row(rows[0], t));
    } else {
        let cs = n.children@;
        let p = span_path(n, t)->0;
        let q = span_path_forest(cs, t)->0;
        lemma_forest_path_shape(cs, t);
        assert(p == seq![n.id] + q);
        assert(p[0] == n.id);
        assert(shows_children(ctx, p[0]));
        let k = choose|k: int| 0 <= k < cs.len() && #[trigger] span_path(cs[k], t) == Some(q);
        assert forall|j: int| 0 <= j < q.len() - 1 implies shows_children(ctx, #[trigger] q[j]) by {
            assert(q[j] == p[j + 1]);
        }
        lemma_row_on_path(cs[k], ctx, depth + 1, t);
        let legend = if ctx.legend_for == Some(n.id) {
            seq![FlameRow { kind: crate::widget::flame_graph::layout::RowKind::Legend { span_id: n.id } }]
        } else {
            Seq::empty()
        };
        let below = match crate::widget::flame_graph::layout::first_path_child(cs, ctx.path, 0) {
            Some(i) => if 0 <= i < cs.len() {
                flat_span(cs[i], ctx, depth + 1) + flat_spans(cs.subrange(0, i), ctx, depth + 1) + flat_spans(
                    cs.subrange(i + 1, cs.len() as int),
                    ctx,
                    depth + 1,
                )
            } else {
                flat_spans(cs, ctx, depth + 1)
            },
            None => flat_spans(cs, ctx, depth + 1),
        };
        assert(rows == head + legend + below);
        match crate::widget::flame_graph::layout::first_path_child(cs, ctx.path, 0) {
            Some(i) => {
                if 0 <= i < cs.len() {
                    let a = flat_span(cs[i], ctx, depth + 1);
                    let b = flat_spans(cs.subrange(0, i), ctx, depth + 1);
                    let c = flat_spans(cs.subrange(i + 1, cs.len() as int), ctx, depth + 1);
                    if k < i {
                        assert(cs.subrange(0, i)[k] == cs[k]);
                        lemma_row_in_siblings(cs.subrange(0, i), ctx, depth + 1, k, t);
                    } else if k > i {
                        assert(cs.subrange(i + 1, cs.len() as int)[k - i - 1] == cs[k]);
                        lemma_row_in_siblings(cs.subrange(i + 1, cs.len() as int), ctx, depth + 1, k - i - 1, t);
                    }
                    lemma_has_row_concat(a, b, t);
                    lemma_has_row_concat(a + b, c, t);
                } else {
                    lemma_row_in_siblings(cs, ctx, depth + 1, k, t);
                }
            },
            None => {
                lemma_row_in_siblings(cs, ctx, depth + 1, k, t);
            },
        }
        lemma_has_row_concat(head + legend, below, t);
    }
}

proof fn lemma_first_row(rows: Seq<FlameRow>, id: SpanId, i: int)
    requires
        0 <= i < rows.len(),
        is_span_row(rows[i], id),
    ensures
        exists|m: int|
            0 <= m < rows.len() && is_span_row(rows[m], id) && forall|j: int|
                0 <= j < m ==> !is_span_row(#[trigger] rows[j], id),
    decreases i,
{
    if exists|j: int| 0 <= j < i && is_span_row(#[trigger] rows[j], id) {
        let j = choose|j: int| 0 <= j < i && is_span_row(#[trigger] rows[j], id);
        lemma_first_row(rows, id, j);
    } else {
        assert(forall|j: int| 0 <= j < i ==> !is_span_row(#[trigger] rows[j], id));
    }
}

proof fn lemma_row_index(rows: Seq<FlameRow>, id: SpanId)
    requires
        has_span_row(rows, id),
    ensures
        span_row_index(rows, id) matches Some(i) && spec_span_id_at(rows, i) == Some(id),
{
    let i = choose|i: int| 0 <= i < rows.len() && is_span_row(#[trigger] rows[i], id);
    lemma_first_row(rows, id, i);
}

/// The rows of a state with nothing focused whose path is the ancestor path
/// of `id` hold a span row of `id`.
proof fn lemma_on_path_visible(s: NavState, id: SpanId)
    requires
        s.focus is None,
        s.path == spec_ancestor_path(s.root, id),
        s.path.len() > 0,
    ensures
        has_span_row(nav_rows(s), id),
{
    lemma_path_shape(s.root, id);
    let path = s.path;
    let ctx = RowContext { path, animating: anim_ids(s.anims), legend_for: s.legend, focus: s.focus };
    assert forall|k: int| 0 <= k < path.len() - 1 implies shows_children(ctx, #[trigger] path[k]) by {
        assert(path.contains(path[k]));
    }
    lemma_row_on_path(s.root, ctx, 0, id);
}

proof fn lemma_ensure_visible_frame(s: NavState)
    ensures
        spec_ensure_visible(s) == (NavState { scroll: spec_ensure_visible(s).scroll, ..s }),
{
}

proof fn lemma_reposition_lands(s: NavState, id: SpanId)
    requires
        s.path.len() > 0,
        s.path.last() == id,
        has_span_row(nav_rows(s), id),
        nav_rows(s).len() <= usize::MAX,
    ensures
        spec_reposition(s) == (NavState { cursor: spec_reposition(s).cursor, scroll: spec_reposition(s).scroll, ..s }),
        spec_span_id_at(nav_rows(s), spec_reposition(s).cursor as int) == Some(id),
{
    let rows = nav_rows(s);
    lemma_row_index(rows, id);
    let i = span_row_index(rows, id)->0;
    let c = NavState { cursor: i as usize, ..s };
    assert(spec_reposition(s) == spec_ensure_visible(c));
    lemma_ensure_visible_frame(c);
}

proof fn lemma_move_lands(s: NavState, id: SpanId)
    requires
        has_span_row(nav_rows(s), id),
        nav_rows(s).len() <= usize::MAX,
    ensures
        spec_move_cursor_to_span(s, id) == (NavState {
            cursor: spec_move_cursor_to_span(s, id).cursor,
            scroll: spec_move_cursor_to_span(s, id).scroll,
            ..s
        }),
        spec_span_id_at(nav_rows(s), spec_move_cursor_to_span(s, id).cursor as int) == Some(id),
{
    let rows = nav_rows(s);
    lemma_row_index(rows, id);
    let i = span_row_index(rows, id)->0;
    let c = NavState { cursor: i as usize, ..s };
    assert(spec_move_cursor_to_span(s, id) == spec_ensure_visible(c));
    lemma_ensure_visible_frame(c);
}

/// Selecting a span that is in the tree makes its ancestor path the path.
pub(crate) proof fn lemma_select_path(st: NavState, id: SpanId)
    requires
        spec_ancestor_path(st.root, id).len() > 0,
    ensures
        spec_select_span(st, id).path == spec_ancestor_path(st.root, id),
        spec_select_span(st, id).path.last() == id,
{
    let path = spec_ancestor_path(st.root, id);
    lemma_path_shape(st.root, id);
    lemma_transition_frame(st, path);
    let s1 = NavState { path, ..spec_transition(st, path) };
    let rows = nav_rows(s1);
    match span_row_index(rows, path.last()) {
        Some(i) => lemma_ensure_visible_frame(NavState { cursor: i as usize, ..s1 }),
        None => {
            let c: int = if rows.len() == 0 {
                0
            } else if s1.cursor >= rows.len() {
                rows.len() - 1
            } else {
                s1.cursor as int
            };
            lemma_ensure_visible_frame(
                NavState { cursor: crate::widget::flame_graph::state::back_off_legend(rows, c) as usize, ..s1 },
            );
        },
    }
    let applied = spec_apply_path(st, path);
    assert(applied.path == path);
    if applied.legend is Some {
        let s3 = NavState { legend: Some(id), ..applied };
        match span_row_index(nav_rows(s3), id) {
            Some(i) => lemma_ensure_visible_frame(NavState { cursor: i as usize, ..s3 }),
            None => lemma_ensure_visible_frame(s3),
        }
    }
}

/// With nothing focused, selecting a span that is in the tree reveals it:
/// the path becomes the span's ancestor path and the cursor lands on a row
/// of that span (for any state whose rows a `usize` can count).
#[verifier::spinoff_prover]
#[verifier::rlimit(30)]
pub proof fn law_select_span_selects_it(st: NavState, id: SpanId)
    requires
        st.focus is None,
        spec_ancestor_path(st.root, id).len() > 0,
        nav_rows(spec_select_span(st, id)).len() <= usize::MAX,
    ensures
        spec_select_span(st, id).path == spec_ancestor_path(st.root, id),
        spec_span_id_at(nav_rows(spec_select_span(st, id)), spec_select_span(st, id).cursor as int) == Some(id),
{
    let path = spec_ancestor_path(st.root, id);
    lemma_path_shape(st.root, id);
    lemma_transition_frame(st, path);
    let s1 = NavState { path, ..spec_transition(st, path) };
    lemma_on_path_visible(s1, id);
    let applied = spec_apply_path(st, path);
    assert(applied == spec_reposition(s1));
    if applied.legend is Some {
        let s3 = NavState { legend: Some(id), ..applied };
        lemma_on_path_visible(s3, id);
        lemma_move_lands(s3, id);
        let fin = spec_move_cursor_to_span(s3, id);
        assert(nav_rows(fin) == nav_rows(s3));
    } else {
        lemma_reposition_lands(s1, id);
        assert(nav_rows(applied) == nav_rows(s1));
    }
}

/// Law: a page move (`Ctrl-d` / `Ctrl-u`) goes half a viewport, at least one
/// row, through the candidate spans from the one under the cursor, at index
/// `k`: backwards to index `k - page` or, when fewer than `page` candidates
/// lie above, to the first; forwards to index `k + page` or, when fewer lie
/// below, to the last.
pub proof fn law_page_moves_half_a_viewport(st: NavState, cur: SpanId, k: int)
    requires
        spec_span_id_at(nav_rows(st), st.cursor as int) == Some(cur),
        first_index(spec_candidates(st, nav_rows(st), st.vertical_nav), is_id(cur), 0) == Some(k),
    ensures
        page_rows(st.viewport) == if st.viewport >= 2 {
            st.viewport / 2
        } else {
            1
        },
        ({
            let cands = spec_candidates(st, nav_rows(st), st.vertical_nav);
            let page = page_rows(st.viewport);
            &&& 0 <= k < cands.len()
            &&& spec_move_page(st, false) == spec_navigate(
                st,
                cands[if k >= page {
                    k - page
                } else {
                    0
                }],
            )
            &&& k < page ==> spec_move_page(st, false) == spec_navigate(st, cands[0])
            &&& spec_move_page(st, true) == spec_navigate(
                st,
                cands[if k + page <= cands.len() - 1 {
                    k + page
                } else {
                    cands.len() - 1
                }],
            )
        }),
{
    lemma_first_index(spec_candidates(st, nav_rows(st), st.vertical_nav), is_id(cur), 0);
}

} // verus!
