use mb_tui::input::key::{KeyCode, KeyEvent, KeyResult, CONTROL, NO_MODIFIERS};
use mb_tui::widget::flame_graph::data::{ancestor_path, find_node, SpanId, SpanTree};
use mb_tui::widget::flame_graph::layout::{bar_zone_width, flatten_visible_rows, RowKind, RowLayout};
use mb_tui::widget::flame_graph::render::BarStyle;
use mb_tui::widget::flame_graph::state::{
    CursorNavigation, FlameGraph, TransitionMode, VerticalNavigation,
};

fn make_key(code: KeyCode) -> KeyEvent {
    KeyEvent::new(code, NO_MODIFIERS)
}

fn ctrl(c: char) -> KeyEvent {
    KeyEvent::new(KeyCode::Char(c), CONTROL)
}

/// root(2) with children big(0) and small(1), largest first.
fn simple_tree() -> SpanTree {
    SpanTree::node(
        SpanId(2),
        vec![SpanTree::leaf(SpanId(0)), SpanTree::leaf(SpanId(1))],
    )
}

/// root(5) with a(2) = [a1(0), a2(1)] and b(4) = [b1(3)].
fn nested_tree() -> SpanTree {
    let a = SpanTree::node(
        SpanId(2),
        vec![SpanTree::leaf(SpanId(0)), SpanTree::leaf(SpanId(1))],
    );
    let b = SpanTree::node(SpanId(4), vec![SpanTree::leaf(SpanId(3))]);
    SpanTree::node(SpanId(5), vec![a, b])
}

/// Report every transition in flight as finished, as the caller does once
/// their progress has converged.
fn finish_all(fg: &mut FlameGraph) {
    let ids: Vec<SpanId> = fg.transitions().iter().map(|t| t.span_id).collect();
    fg.finish_transitions(&ids);
}

#[test]
fn initial_state_has_cursor_at_zero() {
    let root = simple_tree();
    let fg = FlameGraph::new(simple_tree());
    assert_eq!(fg.cursor(), 0);
    assert!(!fg.is_expanded(root.id));
    assert!(fg.legend_span().is_some());
}

#[test]
fn right_expands_and_descends() {
    let mut fg = FlameGraph::new(simple_tree());
    let result = fg.handle_key(&make_key(KeyCode::Right));
    assert_eq!(result, KeyResult::Consumed);
    assert!(fg.is_expanded(fg.root().id));
    // The legend row of the root moved to the child, so the child is row 1.
    assert_eq!(fg.cursor(), 1);
}

#[test]
fn left_collapses_and_ascends() {
    let mut fg = FlameGraph::new(simple_tree());
    fg.handle_key(&make_key(KeyCode::Right));
    assert!(fg.is_expanded(fg.root().id));
    assert_eq!(fg.cursor(), 1);

    fg.handle_key(&make_key(KeyCode::Left));
    let root_id = fg.root().id;
    assert!(fg.transitions().iter().any(|t| t.span_id == root_id));
    assert_eq!(fg.cursor(), 0);
}

#[test]
fn immediate_transition_mode_changes_disclosure_without_animation() {
    let mut fg = FlameGraph::new(simple_tree()).with_transition_mode(TransitionMode::Immediate);

    fg.handle_key(&make_key(KeyCode::Right));
    assert!(fg.is_expanded(fg.root().id));
    assert!(fg.transitions().is_empty());
    assert!(!fg.needs_idle_render());

    fg.handle_key(&make_key(KeyCode::Left));
    assert!(!fg.is_expanded(fg.root().id));
    assert!(fg.transitions().is_empty());
    assert!(!fg.needs_idle_render());
}

#[test]
fn switching_to_immediate_clears_in_flight_transition() {
    let mut fg = FlameGraph::new(simple_tree());
    fg.handle_key(&make_key(KeyCode::Right));
    assert!(!fg.transitions().is_empty());

    fg.set_transition_mode(TransitionMode::Immediate);
    assert!(fg.transitions().is_empty());
    assert!(!fg.needs_idle_render());
}

#[test]
fn down_moves_to_next_sibling() {
    let mut fg = FlameGraph::new(simple_tree());
    fg.handle_key(&make_key(KeyCode::Right));
    assert_eq!(fg.cursor(), 1);
    let path_before = fg.path().clone();
    fg.handle_key(&make_key(KeyCode::Down));
    assert_ne!(*fg.path(), path_before, "path should change to new sibling");
}

#[test]
fn preserve_expansion_keeps_jk_in_current_tree() {
    let root = simple_tree();
    let mut fg = FlameGraph::new(simple_tree());
    fg.set_cursor_navigation(CursorNavigation::PreserveExpansion);
    fg.handle_key(&make_key(KeyCode::Right));
    let path_before = fg.path().clone();
    fg.handle_key(&make_key(KeyCode::Down));
    assert_eq!(*fg.path(), path_before);
    assert!(fg.is_expanded(root.id));
    assert_eq!(fg.selected_span(), Some(root.children[1].id));
}

#[test]
fn g_and_big_g_bound_the_current_navigation_list() {
    let root = nested_tree();
    let mut fg = FlameGraph::new(nested_tree());
    fg.set_cursor_navigation(CursorNavigation::PreserveExpansion);
    fg.set_vertical_navigation(VerticalNavigation::Siblings);
    fg.handle_key(&make_key(KeyCode::Right));
    fg.handle_key(&make_key(KeyCode::Right));
    fg.handle_key(&make_key(KeyCode::Char('G')));
    assert_eq!(fg.selected_span(), Some(root.children[0].children[1].id));
    fg.handle_key(&make_key(KeyCode::Char('g')));
    assert_eq!(fg.selected_span(), Some(root.children[0].children[0].id));
    assert_eq!(
        *fg.path(),
        vec![root.id, root.children[0].id, root.children[0].children[0].id]
    );
}

#[test]
fn sibling_navigation_never_enters_parent_or_aunt_rows() {
    let root = nested_tree();
    let mut fg = FlameGraph::new(nested_tree());
    fg.set_cursor_navigation(CursorNavigation::PreserveExpansion);
    fg.set_vertical_navigation(VerticalNavigation::Siblings);
    fg.handle_key(&make_key(KeyCode::Right));
    fg.handle_key(&make_key(KeyCode::Right));
    let path_before = fg.path().clone();
    fg.handle_key(&make_key(KeyCode::Down));
    assert_eq!(fg.selected_span(), Some(root.children[0].children[1].id));
    assert_eq!(*fg.path(), path_before);

    fg.handle_key(&make_key(KeyCode::Down));
    assert_eq!(fg.selected_span(), Some(root.children[0].children[1].id));
    assert_eq!(*fg.path(), path_before);
    fg.handle_key(&make_key(KeyCode::Up));
    assert_eq!(fg.selected_span(), Some(root.children[0].children[0].id));

    fg.set_viewport_height(4);
    fg.handle_key(&ctrl('d'));
    assert_eq!(fg.selected_span(), Some(root.children[0].children[1].id));
    fg.handle_key(&ctrl('d'));
    assert_eq!(fg.selected_span(), Some(root.children[0].children[1].id));
}

#[test]
fn ctrl_jk_use_flattened_visible_rows() {
    let root = nested_tree();
    let mut fg = FlameGraph::new(nested_tree());
    fg.set_cursor_navigation(CursorNavigation::PreserveExpansion);
    fg.set_vertical_navigation(VerticalNavigation::Siblings);
    fg.handle_key(&make_key(KeyCode::Right));
    fg.handle_key(&make_key(KeyCode::Right));

    fg.handle_key(&ctrl('j'));
    fg.handle_key(&ctrl('j'));
    assert_eq!(fg.selected_span(), Some(root.children[1].id));

    fg.handle_key(&ctrl('k'));
    assert_eq!(fg.selected_span(), Some(root.children[0].children[1].id));
    assert_eq!(
        *fg.path(),
        vec![root.id, root.children[0].id, root.children[0].children[0].id]
    );
}

#[test]
fn left_ascends_from_the_selected_sibling_not_the_stale_path() {
    let root = nested_tree();
    let mut fg = FlameGraph::new(nested_tree());
    fg.set_cursor_navigation(CursorNavigation::PreserveExpansion);
    fg.set_vertical_navigation(VerticalNavigation::Siblings);
    fg.handle_key(&make_key(KeyCode::Right));
    fg.handle_key(&make_key(KeyCode::Down));
    fg.handle_key(&make_key(KeyCode::Left));
    assert_eq!(fg.selected_span(), Some(root.id));
}

#[test]
fn marks_return_to_stable_spans_and_reveal_them() {
    let mut fg = FlameGraph::new(nested_tree());
    fg.set_cursor_navigation(CursorNavigation::PreserveExpansion);
    fg.set_vertical_navigation(VerticalNavigation::Siblings);
    fg.handle_key(&make_key(KeyCode::Right));
    fg.handle_key(&make_key(KeyCode::Right));
    fg.handle_key(&make_key(KeyCode::Char('m')));
    fg.handle_key(&make_key(KeyCode::Char('a')));
    fg.handle_key(&make_key(KeyCode::Down));
    assert_eq!(fg.selected_span(), Some(SpanId(1)));
    fg.handle_key(&make_key(KeyCode::Char('`')));
    fg.handle_key(&make_key(KeyCode::Char('a')));
    assert_eq!(fg.selected_span(), Some(SpanId(0)));

    fg.handle_key(&make_key(KeyCode::Left));
    fg.handle_key(&make_key(KeyCode::Char('`')));
    fg.handle_key(&make_key(KeyCode::Char('a')));
    assert_eq!(fg.selected_span(), Some(SpanId(0)));
    assert!(fg.is_expanded(SpanId(2)));
}

#[test]
fn pending_mark_can_be_cancelled_without_moving() {
    let mut fg = FlameGraph::new(simple_tree());
    let selected = fg.selected_span();
    fg.handle_key(&make_key(KeyCode::Char('m')));
    assert!(fg.mark_pending());
    fg.handle_key(&make_key(KeyCode::Esc));
    assert!(!fg.mark_pending());
    fg.handle_key(&make_key(KeyCode::Char('a')));
    assert_eq!(fg.selected_span(), selected);
}

#[test]
fn ctrl_page_keys_move_by_visible_rows() {
    let mut fg = FlameGraph::new(simple_tree());
    fg.set_viewport_height(4);
    fg.handle_key(&make_key(KeyCode::Right));
    assert_eq!(fg.handle_key(&ctrl('d')), KeyResult::Consumed);
    assert_eq!(fg.selected_span(), Some(fg.root().children[1].id));
    assert_eq!(fg.handle_key(&ctrl('u')), KeyResult::Consumed);
    assert_eq!(fg.selected_span(), Some(fg.root().id));
}

#[test]
fn unrelated_ctrl_key_is_ignored() {
    let mut fg = FlameGraph::new(simple_tree());
    assert_eq!(fg.handle_key(&ctrl('x')), KeyResult::Ignored);

    fg.handle_key(&make_key(KeyCode::Right));
    assert_eq!(fg.handle_key(&ctrl('j')), KeyResult::Consumed);
    assert_eq!(fg.selected_span(), Some(fg.root().children[1].id));
}

#[test]
fn enter_toggles_legend() {
    let mut fg = FlameGraph::new(simple_tree());
    assert!(fg.legend_span().is_some());
    fg.handle_key(&make_key(KeyCode::Enter));
    assert!(fg.legend_span().is_none());
    fg.handle_key(&make_key(KeyCode::Enter));
    assert!(fg.legend_span().is_some());
}

#[test]
fn tick_converges_animations() {
    let mut fg = FlameGraph::new(simple_tree());
    fg.handle_key(&make_key(KeyCode::Right));
    assert!(!fg.transitions().is_empty());
    finish_all(&mut fg);
    assert!(fg.transitions().is_empty());
}

#[test]
fn needs_idle_render_tracks_animation_presence() {
    let mut fg = FlameGraph::new(simple_tree());
    assert!(!fg.needs_idle_render());
    fg.handle_key(&make_key(KeyCode::Right));
    assert!(fg.needs_idle_render());
    finish_all(&mut fg);
    assert!(!fg.needs_idle_render());
}

#[test]
fn ancestor_path_returns_root_to_target() {
    let grandchild = SpanTree::leaf(SpanId(0));
    let child = SpanTree::node(SpanId(1), vec![SpanTree::leaf(SpanId(0))]);
    let root = SpanTree::node(SpanId(2), vec![child]);
    let path = ancestor_path(&root, grandchild.id);
    assert_eq!(path, vec![SpanId(2), SpanId(1), SpanId(0)]);
}

#[test]
fn ancestor_path_root_only() {
    let root = SpanTree::leaf(SpanId(0));
    assert_eq!(ancestor_path(&root, root.id), vec![root.id]);
}

#[test]
fn ancestor_path_not_found_is_empty() {
    let root = SpanTree::leaf(SpanId(0));
    assert!(ancestor_path(&root, SpanId(999)).is_empty());
}

// -- Flattening -------------------------------------------------------------

#[test]
fn single_root_produces_one_row() {
    let root = SpanTree::leaf(SpanId(0));
    let rows = flatten_visible_rows(&root, &vec![root.id], &vec![], None, None);
    assert_eq!(rows.len(), 1);
    assert!(matches!(rows[0].kind, RowKind::Span { depth: 0, .. }));
}

#[test]
fn unexpanded_parent_shows_only_root() {
    let root = SpanTree::node(SpanId(1), vec![SpanTree::leaf(SpanId(0))]);
    let rows = flatten_visible_rows(&root, &vec![root.id], &vec![], None, None);
    assert_eq!(rows.len(), 1);
}

#[test]
fn expanded_parent_shows_children() {
    let root = simple_tree();
    let path = vec![root.id, root.children[0].id];
    let rows = flatten_visible_rows(&root, &path, &vec![], None, None);
    assert_eq!(rows.len(), 3);
}

#[test]
fn legend_row_inserted_after_selected_span() {
    let root = SpanTree::leaf(SpanId(0));
    let rows = flatten_visible_rows(&root, &vec![root.id], &vec![], Some(root.id), None);
    assert_eq!(rows.len(), 2);
    assert!(matches!(rows[1].kind, RowKind::Legend { .. }));
}

#[test]
fn expanded_children_remain_visible_when_bar_zone_disappears() {
    let root = simple_tree();
    let rows = flatten_visible_rows(&root, &vec![root.id, root.children[0].id], &vec![], None, None);
    assert_eq!(rows.len(), 3, "children should remain visible in summary mode");
    // At width 10 there is no bar zone, so every bar, a share of it, is 0 wide.
    assert_eq!(bar_zone_width(10), 0);
    assert!(!RowLayout::for_width(10).shows_bars());
}

#[test]
fn layout_is_deterministic() {
    let run = || {
        let root = simple_tree();
        let path = vec![root.id, root.children[0].id];
        flatten_visible_rows(&root, &path, &vec![], None, None)
            .iter()
            .map(|r| format!("{:?}", r.kind))
            .collect::<Vec<_>>()
    };
    assert_eq!(run(), run());
}

// -- Own tests --------------------------------------------------------------

#[test]
fn path_child_is_listed_first_among_siblings() {
    let root = simple_tree();
    let path = vec![root.id, root.children[1].id, SpanId(9)];
    let rows = flatten_visible_rows(&root, &path, &vec![], None, None);
    let ids: Vec<SpanId> = rows
        .iter()
        .map(|r| match r.kind {
            RowKind::Span { span_id, .. } => span_id,
            RowKind::Legend { span_id } => span_id,
        })
        .collect();
    assert_eq!(ids, vec![SpanId(2), SpanId(1), SpanId(0)]);
}

#[test]
fn animating_span_keeps_its_children_visible() {
    let root = simple_tree();
    let rows = flatten_visible_rows(&root, &vec![root.id], &vec![root.id], None, None);
    assert_eq!(rows.len(), 3);
    assert!(matches!(rows[1].kind, RowKind::Span { depth: 1, .. }));
}

#[test]
fn focus_makes_span_the_visual_root() {
    let root = nested_tree();
    let rows = flatten_visible_rows(&root, &vec![root.id], &vec![], None, Some(SpanId(2)));
    assert_eq!(rows.len(), 3);
    assert!(matches!(rows[0].kind, RowKind::Span { span_id: SpanId(2), depth: 0 }));
}

#[test]
fn find_node_returns_first_match() {
    let root = nested_tree();
    assert_eq!(find_node(&root, SpanId(4)).map(|n| n.children.len()), Some(1));
    assert!(find_node(&root, SpanId(42)).is_none());
}

#[test]
fn undo_and_redo_restore_paths() {
    let mut fg = FlameGraph::new(nested_tree());
    let start = fg.path().clone();
    fg.handle_key(&make_key(KeyCode::Right));
    let expanded = fg.path().clone();
    assert_ne!(start, expanded);
    fg.handle_key(&make_key(KeyCode::Char('u')));
    assert_eq!(*fg.path(), start);
    fg.handle_key(&make_key(KeyCode::Char('r')));
    assert_eq!(*fg.path(), expanded);
}

#[test]
fn focus_and_unfocus() {
    let mut fg = FlameGraph::new(nested_tree());
    fg.handle_key(&make_key(KeyCode::Right));
    fg.handle_key(&make_key(KeyCode::Char('f')));
    assert_eq!(fg.focus(), Some(SpanId(2)));
    // The focused span expands and the cursor moves to its first child.
    assert_eq!(fg.selected_span(), Some(SpanId(0)));
    fg.handle_key(&make_key(KeyCode::Char('F')));
    assert_eq!(fg.focus(), None);
    assert_eq!(fg.selected_span(), Some(SpanId(0)));
}

#[test]
fn left_on_focused_span_leaves_focus_for_its_parent() {
    let mut fg = FlameGraph::new(nested_tree());
    fg.handle_key(&make_key(KeyCode::Right));
    fg.handle_key(&make_key(KeyCode::Char('f')));
    fg.handle_key(&make_key(KeyCode::Up));
    assert_eq!(fg.selected_span(), Some(SpanId(2)));
    fg.handle_key(&make_key(KeyCode::Left));
    assert_eq!(fg.focus(), None);
    assert_eq!(fg.selected_span(), Some(SpanId(5)));
}

#[test]
fn scroll_follows_cursor_past_viewport() {
    let mut fg = FlameGraph::new(nested_tree());
    fg.set_viewport_height(1);
    fg.handle_key(&make_key(KeyCode::Right));
    assert_eq!(fg.scroll_offset(), fg.cursor());
}

#[test]
fn finishing_a_closing_transition_keeps_cursor_on_path_leaf() {
    let mut fg = FlameGraph::new(simple_tree());
    fg.handle_key(&make_key(KeyCode::Right));
    fg.handle_key(&make_key(KeyCode::Left));
    finish_all(&mut fg);
    assert_eq!(fg.selected_span(), Some(SpanId(2)));
    assert_eq!(fg.cursor(), 0);
}

#[test]
fn bar_style_is_thin_line_by_default() {
    let mut fg = FlameGraph::new(simple_tree());
    assert_eq!(fg.bar_style(), BarStyle::ThinLine);
    fg.set_bar_style(BarStyle::Dotted);
    assert_eq!(fg.bar_style(), BarStyle::Dotted);
}

#[test]
fn select_span_reveals_and_lands_on_it() {
    let mut fg = FlameGraph::new(nested_tree());
    assert!(fg.select_span(SpanId(3)));
    assert_eq!(*fg.path(), vec![SpanId(5), SpanId(4), SpanId(3)]);
    assert_eq!(fg.selected_span(), Some(SpanId(3)));
    assert!(!fg.select_span(SpanId(9)));
    assert_eq!(fg.selected_span(), Some(SpanId(3)));
}

#[test]
fn path_stays_nonempty_through_every_key() {
    let mut fg = FlameGraph::new(nested_tree());
    let keys = [
        KeyCode::Char('h'),
        KeyCode::Char('u'),
        KeyCode::Char('r'),
        KeyCode::Right,
        KeyCode::Right,
        KeyCode::Char('f'),
        KeyCode::Char('h'),
        KeyCode::Char('h'),
        KeyCode::Char('F'),
        KeyCode::Char('G'),
        KeyCode::Char('g'),
        KeyCode::Char('u'),
        KeyCode::Char('u'),
        KeyCode::Char('u'),
        KeyCode::Char('r'),
        KeyCode::Enter,
        KeyCode::Left,
        KeyCode::Left,
        KeyCode::Left,
    ];
    for code in keys {
        fg.handle_key(&make_key(code));
        assert!(!fg.path().is_empty());
        assert_eq!(fg.path()[0], SpanId(5));
        finish_all(&mut fg);
        assert!(!fg.path().is_empty());
    }
}
