use mb_tui::input::key::{KeyCode, KeyEvent, NO_MODIFIERS};
use mb_tui::widget::flame_graph::data::{SpanId, SpanTree};
use mb_tui::widget::flame_graph::layout::RowKind;
use mb_tui::widget::flame_graph::state::FlameGraph;

fn make_key(code: KeyCode) -> KeyEvent {
    KeyEvent::new(code, NO_MODIFIERS)
}

fn leaf(id: u32) -> SpanTree {
    SpanTree::leaf(SpanId(id))
}

/// The request tree of the playground, children ordered by total cost:
/// request(14) = [db_query(3) = [index_scan(0), row_fetch(1), plan_cache(2)],
/// template_render(9) = [layout_pass(6) = [flex_calc(4), paint(5)],
/// hydration(7), minify(8)], auth_check(12) = [token_verify(10),
/// session_load(11)], logging(13)].
fn test_span_tree() -> SpanTree {
    let db_query = SpanTree::node(SpanId(3), vec![leaf(0), leaf(1), leaf(2)]);
    let layout_pass = SpanTree::node(SpanId(6), vec![leaf(4), leaf(5)]);
    let template_render = SpanTree::node(SpanId(9), vec![layout_pass, leaf(7), leaf(8)]);
    let auth_check = SpanTree::node(SpanId(12), vec![leaf(10), leaf(11)]);
    SpanTree::node(
        SpanId(14),
        vec![db_query, template_render, auth_check, leaf(13)],
    )
}

fn test_flame_graph() -> FlameGraph {
    FlameGraph::new(test_span_tree())
}

/// Report every transition in flight as finished.
fn finish_animations(fg: &mut FlameGraph) {
    let ids: Vec<SpanId> = fg.transitions().iter().map(|t| t.span_id).collect();
    fg.finish_transitions(&ids);
}

#[test]
fn e4_right_expands_and_descends() {
    let mut fg = test_flame_graph();
    fg.handle_key(&make_key(KeyCode::Right));
    finish_animations(&mut fg);
    let root_id = fg.root().id;
    assert!(fg.is_expanded(root_id), "Root should be expanded after Right");
    assert_eq!(fg.cursor(), 1, "After Right on root, cursor should descend to first child");
}

#[test]
fn e4_left_collapses_and_ascends() {
    let mut fg = test_flame_graph();
    fg.handle_key(&make_key(KeyCode::Right));
    finish_animations(&mut fg);
    let first_child_id = fg.root().children[0].id;
    fg.handle_key(&make_key(KeyCode::Right));
    finish_animations(&mut fg);
    fg.handle_key(&make_key(KeyCode::Left));
    finish_animations(&mut fg);

    let rows = fg.visible_rows();
    let cursor_span = rows.get(fg.cursor()).and_then(|r| match r.kind {
        RowKind::Span { span_id, .. } => Some(span_id),
        _ => None,
    });
    assert_eq!(cursor_span, Some(first_child_id));
    assert!(!fg.is_expanded(first_child_id));

    fg.handle_key(&make_key(KeyCode::Left));
    finish_animations(&mut fg);
    assert!(!fg.is_expanded(fg.root().id));
    assert_eq!(fg.cursor(), 0);
}

#[test]
fn e5_down_stops_at_last_visible_row() {
    let mut fg = test_flame_graph();
    fg.handle_key(&make_key(KeyCode::Right));
    finish_animations(&mut fg);
    fg.handle_key(&make_key(KeyCode::Down));
    fg.handle_key(&make_key(KeyCode::Down));
    fg.handle_key(&make_key(KeyCode::Down));
    let cursor_at_last = fg.cursor();
    fg.handle_key(&make_key(KeyCode::Down));
    assert_eq!(fg.cursor(), cursor_at_last);
}

#[test]
fn e5_up_from_first_visible_row_is_noop() {
    let mut fg = test_flame_graph();
    fg.handle_key(&make_key(KeyCode::Right));
    finish_animations(&mut fg);
    assert!(fg.cursor() > 0);
    fg.handle_key(&make_key(KeyCode::Up));
    assert_eq!(fg.cursor(), 0);
}

#[test]
fn e5_down_crosses_parent_boundary_to_uncle() {
    let mut fg = test_flame_graph();
    fg.handle_key(&make_key(KeyCode::Right));
    finish_animations(&mut fg);
    fg.handle_key(&make_key(KeyCode::Right));
    finish_animations(&mut fg);
    fg.handle_key(&make_key(KeyCode::Down));
    fg.handle_key(&make_key(KeyCode::Down));
    let cursor_at_last_grandchild = fg.cursor();
    fg.handle_key(&make_key(KeyCode::Down));
    finish_animations(&mut fg);
    assert_ne!(fg.cursor(), cursor_at_last_grandchild);
}

#[test]
fn e6_left_collapses_current_and_siblings() {
    let mut fg = test_flame_graph();
    fg.handle_key(&make_key(KeyCode::Right));
    finish_animations(&mut fg);
    fg.handle_key(&make_key(KeyCode::Right));
    finish_animations(&mut fg);
    let depth2 = |fg: &FlameGraph| {
        fg.visible_rows()
            .iter()
            .filter(|r| matches!(r.kind, RowKind::Span { depth, .. } if depth == 2))
            .count()
    };
    assert!(depth2(&fg) > 0);
    fg.handle_key(&make_key(KeyCode::Left));
    finish_animations(&mut fg);
    assert_eq!(depth2(&fg), 0);
}

#[test]
fn e6_left_collapses_siblings_too() {
    let mut fg = test_flame_graph();
    fg.handle_key(&make_key(KeyCode::Right));
    finish_animations(&mut fg);
    fg.handle_key(&make_key(KeyCode::Right));
    finish_animations(&mut fg);
    fg.handle_key(&make_key(KeyCode::Left));
    finish_animations(&mut fg);
    fg.handle_key(&make_key(KeyCode::Down));
    fg.handle_key(&make_key(KeyCode::Right));
    finish_animations(&mut fg);
    fg.handle_key(&make_key(KeyCode::Left));
    finish_animations(&mut fg);
    fg.handle_key(&make_key(KeyCode::Left));
    finish_animations(&mut fg);
    let span_count = fg
        .visible_rows()
        .iter()
        .filter(|r| matches!(r.kind, RowKind::Span { .. }))
        .count();
    assert_eq!(span_count, 1);
}

#[test]
fn e7_expanding_new_sibling_collapses_old() {
    let mut fg = test_flame_graph();
    fg.handle_key(&make_key(KeyCode::Right));
    finish_animations(&mut fg);
    fg.handle_key(&make_key(KeyCode::Right));
    finish_animations(&mut fg);
    fg.handle_key(&make_key(KeyCode::Left));
    finish_animations(&mut fg);
    fg.handle_key(&make_key(KeyCode::Down));
    fg.handle_key(&make_key(KeyCode::Right));
    finish_animations(&mut fg);
    let db_query_id = fg.root().children[0].id;
    assert!(!fg.is_expanded(db_query_id));
}

#[test]
fn e7_only_one_path_from_root() {
    let mut fg = test_flame_graph();
    fg.handle_key(&make_key(KeyCode::Right));
    finish_animations(&mut fg);
    fg.handle_key(&make_key(KeyCode::Right));
    finish_animations(&mut fg);
    fg.handle_key(&make_key(KeyCode::Left));
    finish_animations(&mut fg);
    fg.handle_key(&make_key(KeyCode::Down));
    fg.handle_key(&make_key(KeyCode::Right));
    finish_animations(&mut fg);
    let rows = fg.visible_rows();
    let expanded_at_depth1: Vec<SpanId> = rows
        .iter()
        .filter_map(|r| match r.kind {
            RowKind::Span { span_id, depth } if depth == 1 && fg.is_expanded(span_id) => Some(span_id),
            _ => None,
        })
        .collect();
    assert!(expanded_at_depth1.len() <= 1, "{expanded_at_depth1:?}");
}

#[test]
fn e8_jk_moves_to_uncle_nodes() {
    let mut fg = test_flame_graph();
    fg.handle_key(&make_key(KeyCode::Right));
    finish_animations(&mut fg);
    fg.handle_key(&make_key(KeyCode::Right));
    finish_animations(&mut fg);
    let initial_cursor = fg.cursor();
    for _ in 0..20 {
        fg.handle_key(&make_key(KeyCode::Down));
        finish_animations(&mut fg);
    }
    assert_ne!(fg.cursor(), initial_cursor);
}

#[test]
fn e8_moving_to_uncle_collapses_previous_subtree() {
    let mut fg = test_flame_graph();
    fg.handle_key(&make_key(KeyCode::Right));
    finish_animations(&mut fg);
    let first_child_id = fg.root().children[0].id;
    fg.handle_key(&make_key(KeyCode::Right));
    finish_animations(&mut fg);
    assert!(fg.is_expanded(first_child_id));
    for _ in 0..20 {
        fg.handle_key(&make_key(KeyCode::Down));
        finish_animations(&mut fg);
    }
    assert!(!fg.is_expanded(first_child_id));
}

#[test]
fn e10_undo_returns_to_previous_position() {
    let mut fg = test_flame_graph();
    let path_at_root = fg.path().to_vec();
    fg.handle_key(&make_key(KeyCode::Right));
    finish_animations(&mut fg);
    let path_at_child = fg.path().to_vec();
    assert_ne!(path_at_root, path_at_child);
    fg.handle_key(&make_key(KeyCode::Char('u')));
    finish_animations(&mut fg);
    assert_eq!(fg.path().to_vec(), path_at_root);
}

#[test]
fn e10_redo_after_undo() {
    let mut fg = test_flame_graph();
    fg.handle_key(&make_key(KeyCode::Right));
    finish_animations(&mut fg);
    let path_at_child = fg.path().to_vec();
    fg.handle_key(&make_key(KeyCode::Char('u')));
    finish_animations(&mut fg);
    fg.handle_key(&make_key(KeyCode::Char('r')));
    finish_animations(&mut fg);
    assert_eq!(fg.path().to_vec(), path_at_child);
}

#[test]
fn e10_redo_cleared_on_new_navigation() {
    let mut fg = test_flame_graph();
    fg.handle_key(&make_key(KeyCode::Right));
    finish_animations(&mut fg);
    fg.handle_key(&make_key(KeyCode::Char('u')));
    finish_animations(&mut fg);
    fg.handle_key(&make_key(KeyCode::Right));
    finish_animations(&mut fg);
    let path_before = fg.path().to_vec();
    fg.handle_key(&make_key(KeyCode::Char('r')));
    finish_animations(&mut fg);
    assert_eq!(fg.path().to_vec(), path_before);
}

#[test]
fn e10_undo_at_start_is_noop() {
    let mut fg = test_flame_graph();
    let path_at_root = fg.path().to_vec();
    fg.handle_key(&make_key(KeyCode::Char('u')));
    assert_eq!(fg.path().to_vec(), path_at_root);
}

#[test]
fn e10_bounded_to_32() {
    let mut fg = test_flame_graph();
    for _ in 0..40 {
        fg.handle_key(&make_key(KeyCode::Right));
        finish_animations(&mut fg);
        fg.handle_key(&make_key(KeyCode::Left));
        finish_animations(&mut fg);
    }
    let mut undo_count = 0;
    for _ in 0..100 {
        let before = fg.path().to_vec();
        fg.handle_key(&make_key(KeyCode::Char('u')));
        finish_animations(&mut fg);
        if fg.path().to_vec() == before {
            break;
        }
        undo_count += 1;
    }
    assert!(undo_count <= 32, "Undo should be bounded to 32, got {undo_count}");
}

#[test]
fn focus_e4_no_siblings_in_focus() {
    let mut fg = test_flame_graph();
    fg.handle_key(&make_key(KeyCode::Right));
    finish_animations(&mut fg);
    fg.handle_key(&make_key(KeyCode::Char('f')));
    let shown: Vec<SpanId> = fg
        .visible_rows()
        .iter()
        .filter_map(|r| match r.kind {
            RowKind::Span { span_id, .. } => Some(span_id),
            RowKind::Legend { .. } => None,
        })
        .collect();
    assert!(shown.contains(&SpanId(3)), "Focus node should appear: {shown:?}");
    for sibling in [SpanId(9), SpanId(12), SpanId(13)] {
        assert!(!shown.contains(&sibling), "Sibling should not appear: {shown:?}");
    }
}

#[test]
fn focus_e5_f_sets_and_big_f_clears() {
    let mut fg = test_flame_graph();
    assert!(fg.focus().is_none());
    fg.handle_key(&make_key(KeyCode::Right));
    finish_animations(&mut fg);
    fg.handle_key(&make_key(KeyCode::Char('f')));
    assert!(fg.focus().is_some());
    fg.handle_key(&make_key(KeyCode::Char('F')));
    assert!(fg.focus().is_none());
}

#[test]
fn focus_e6_h_on_focus_node_unfocuses() {
    let mut fg = test_flame_graph();
    fg.handle_key(&make_key(KeyCode::Right));
    finish_animations(&mut fg);
    let db_query_id = fg.root().children[0].id;
    fg.handle_key(&make_key(KeyCode::Char('f')));
    assert_eq!(fg.focus(), Some(db_query_id));
    fg.handle_key(&make_key(KeyCode::Left));
    finish_animations(&mut fg);
    assert_eq!(fg.focus(), Some(db_query_id), "still focused after h from child");
    fg.handle_key(&make_key(KeyCode::Left));
    assert!(fg.focus().is_none(), "h on focus node should clear focus");
}

#[test]
fn focus_e7_jk_stays_focused() {
    let mut fg = test_flame_graph();
    fg.handle_key(&make_key(KeyCode::Right));
    finish_animations(&mut fg);
    let db_query_id = fg.root().children[0].id;
    fg.handle_key(&make_key(KeyCode::Char('f')));
    assert_eq!(fg.focus(), Some(db_query_id));
    finish_animations(&mut fg);
    for _ in 0..6 {
        fg.handle_key(&make_key(KeyCode::Down));
    }
    assert_eq!(fg.focus(), Some(db_query_id));
    for _ in 0..6 {
        fg.handle_key(&make_key(KeyCode::Up));
    }
    assert_eq!(fg.focus(), Some(db_query_id));
}

#[test]
fn focus_e8_path_child_first_among_siblings() {
    // root(3) = [big(1), small(2) = [grandchild(0)]], largest first.
    let small = SpanTree::node(SpanId(2), vec![leaf(0)]);
    let root = SpanTree::node(SpanId(3), vec![leaf(1), small]);
    let small_id = root.children[1].id;
    let big_id = root.children[0].id;
    let mut fg = FlameGraph::new(root);
    fg.handle_key(&make_key(KeyCode::Right));
    finish_animations(&mut fg);
    fg.handle_key(&make_key(KeyCode::Down));
    fg.handle_key(&make_key(KeyCode::Right));
    finish_animations(&mut fg);
    assert!(fg.is_expanded(small_id));
    let depth1_spans: Vec<SpanId> = fg
        .visible_rows()
        .iter()
        .filter_map(|r| match r.kind {
            RowKind::Span { span_id, depth: 1 } => Some(span_id),
            _ => None,
        })
        .collect();
    assert_eq!(depth1_spans.first().copied(), Some(small_id), "{depth1_spans:?}");
    assert!(depth1_spans.contains(&big_id));
}

#[test]
fn focus_e11_undo_redo_restores_focus() {
    let mut fg = test_flame_graph();
    fg.handle_key(&make_key(KeyCode::Right));
    finish_animations(&mut fg);
    fg.handle_key(&make_key(KeyCode::Char('f')));
    let db_query_id = fg.root().children[0].id;
    assert_eq!(fg.focus(), Some(db_query_id));
    fg.handle_key(&make_key(KeyCode::Char('F')));
    assert!(fg.focus().is_none());
    fg.handle_key(&make_key(KeyCode::Char('u')));
    finish_animations(&mut fg);
    assert_eq!(fg.focus(), Some(db_query_id));
    fg.handle_key(&make_key(KeyCode::Char('r')));
    finish_animations(&mut fg);
    assert!(fg.focus().is_none());
}

#[test]
fn focus_e12_focus_on_root_is_noop() {
    let mut fg = test_flame_graph();
    fg.handle_key(&make_key(KeyCode::Char('f')));
    assert!(fg.focus().is_none());
}
