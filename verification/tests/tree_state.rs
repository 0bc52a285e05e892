use mb_tui::tree::model::{flatten_visible, NodeId, TreeNode};
use mb_tui::tree::relations::{ancestor_trail_relations, compute_path_relations, PathRelation};
use mb_tui::tree::state::TreeState;

fn make_leaf(id: u64, label: &str) -> TreeNode {
    TreeNode::leaf(id, label.to_string())
}

fn make_parent(id: u64, label: &str, children: Vec<TreeNode>) -> TreeNode {
    TreeNode::parent(id, label.to_string(), children)
}

/// Flatten + refresh cache + store tree. As rendering does.
fn sync_tree(state: &mut TreeState, tree: Vec<TreeNode>) {
    let flat = flatten_visible(&tree, state.expanded());
    state.refresh_cache(&flat);
    state.set_tree(tree, 0);
}

fn sample_tree() -> Vec<TreeNode> {
    vec![make_parent(
        0,
        "root",
        vec![
            make_parent(1, "child_a", vec![make_leaf(3, "grandchild")]),
            make_leaf(2, "child_b"),
        ],
    )]
}

#[test]
fn new_defaults() {
    let state = TreeState::new();
    assert!(state.auto_scroll());
    assert_eq!(state.cursor(), 0);
    assert_eq!(state.scroll_offset(), 0);
    assert!(!state.has_expanded());
}

#[test]
fn update_cache_sets_visible_count() {
    let mut state = TreeState::new();
    let tree = sample_tree();
    sync_tree(&mut state, tree);
    // Only root is visible (collapsed).
    assert_eq!(state.cached_visible_count(), 1);
    assert_eq!(state.cursor(), 0);
}

#[test]
fn update_cache_clamps_cursor() {
    let mut state = TreeState::new();
    state.scroll_to_bottom(); // Cursor way out of range.
    let tree = sample_tree();
    sync_tree(&mut state, tree);
    assert_eq!(state.cursor(), 0); // Clamped to 0 (only 1 visible).
}

#[test]
fn update_cache_with_expanded_root() {
    let mut state = TreeState::new();
    state.ensure_expanded(NodeId(0));
    let tree = sample_tree();
    sync_tree(&mut state, tree);
    // Root + 2 children visible.
    assert_eq!(state.cached_visible_count(), 3);
}

#[test]
fn scroll_to_top_resets() {
    let mut state = TreeState::new();
    state.set_scroll_offset(50);
    state.scroll_to_top();
    assert_eq!(state.scroll_offset(), 0);
    assert_eq!(state.cursor(), 0);
    assert!(!state.auto_scroll());
}

#[test]
fn scroll_to_bottom_reenables_auto_scroll() {
    let mut state = TreeState::new();
    state.cursor_up(); // turns auto-scroll off
    assert!(!state.auto_scroll());
    state.scroll_to_bottom();
    assert!(state.auto_scroll());
    assert_eq!(state.scroll_offset(), usize::MAX);
    assert_eq!(state.cursor(), usize::MAX);
}

#[test]
fn cursor_up_saturates_at_zero() {
    let mut state = TreeState::new();
    state.cursor_up();
    assert_eq!(state.cursor(), 0);
    assert!(!state.auto_scroll());
}

#[test]
fn cursor_down_clamps_to_max() {
    let mut state = TreeState::new();
    state.ensure_expanded(NodeId(0));
    sync_tree(&mut state, sample_tree());
    // 3 visible: root, child_a, child_b
    assert_eq!(state.cached_visible_count(), 3);

    state.cursor_down(); // 0 -> 1
    assert_eq!(state.cursor(), 1);
    state.cursor_down(); // 1 -> 2
    assert_eq!(state.cursor(), 2);
    state.cursor_down(); // clamped at 2
    assert_eq!(state.cursor(), 2);
}

#[test]
fn cursor_down_n_moves_by_count() {
    let mut state = TreeState::new();
    state.ensure_expanded(NodeId(0));
    state.ensure_expanded(NodeId(1));
    sync_tree(&mut state, sample_tree());
    // 4 visible: root, child_a, grandchild, child_b
    assert_eq!(state.cached_visible_count(), 4);

    state.cursor_down_n(3); // 0 -> 3
    assert_eq!(state.cursor(), 3);
}

#[test]
fn cursor_down_n_clamps_at_end() {
    let mut state = TreeState::new();
    state.ensure_expanded(NodeId(0));
    sync_tree(&mut state, sample_tree());
    assert_eq!(state.cached_visible_count(), 3);

    state.cursor_down_n(100); // Clamps to 2
    assert_eq!(state.cursor(), 2);
}

#[test]
fn cursor_up_n_moves_by_count() {
    let mut state = TreeState::new();
    state.ensure_expanded(NodeId(0));
    sync_tree(&mut state, sample_tree());
    state.set_cursor(2); // Start at child_b

    state.cursor_up_n(2); // 2 -> 0
    assert_eq!(state.cursor(), 0);
}

#[test]
fn cursor_up_n_clamps_at_zero() {
    let mut state = TreeState::new();
    state.ensure_expanded(NodeId(0));
    sync_tree(&mut state, sample_tree());
    state.set_cursor(1);

    state.cursor_up_n(100); // Clamps to 0
    assert_eq!(state.cursor(), 0);
}

#[test]
fn drill_in_on_leaf_is_noop() {
    let mut state = TreeState::new();
    sync_tree(&mut state, vec![make_leaf(0, "leaf")]);
    state.drill_in();
    assert!(!state.has_expanded());
    assert_eq!(state.cursor(), 0);
}

#[test]
fn drill_in_on_leaf_returns_false() {
    let mut state = TreeState::new();
    sync_tree(&mut state, vec![make_leaf(0, "leaf")]);
    let handled = state.drill_in();
    assert!(!handled);
    assert!(!state.has_expanded());
    assert_eq!(state.cursor(), 0);
}

#[test]
fn drill_in_on_collapsed_parent_expands() {
    let mut state = TreeState::new();
    sync_tree(&mut state, sample_tree());
    assert!(!state.has_expanded());
    state.drill_in();
    assert!(state.expanded().contains(&NodeId(0)));
    assert_eq!(state.cursor(), 0); // Stays on parent.
}

#[test]
fn drill_in_on_collapsed_parent_returns_true() {
    let mut state = TreeState::new();
    sync_tree(&mut state, sample_tree());
    let handled = state.drill_in();
    assert!(handled);
    assert!(state.expanded().contains(&NodeId(0)));
}

#[test]
fn drill_in_on_expanded_parent_moves_to_child() {
    let mut state = TreeState::new();
    state.ensure_expanded(NodeId(0));
    sync_tree(&mut state, sample_tree());
    // Cursor at 0 (root, expanded). Drill in -> move to first child.
    state.drill_in();
    assert_eq!(state.cursor(), 1);
}

#[test]
fn drill_in_on_expanded_parent_returns_true() {
    let mut state = TreeState::new();
    state.ensure_expanded(NodeId(0));
    sync_tree(&mut state, sample_tree());
    let handled = state.drill_in();
    assert!(handled);
    assert_eq!(state.cursor(), 1);
}

#[test]
fn drill_in_on_empty_cache_returns_false() {
    let mut state = TreeState::new();
    let handled = state.drill_in();
    assert!(!handled);
}

#[test]
fn drill_out_from_child_collapses_and_moves_to_parent() {
    let mut state = TreeState::new();
    state.ensure_expanded(NodeId(0));
    sync_tree(&mut state, sample_tree());
    // Move cursor to child_a (flat index 1).
    state.set_cursor(1);
    let handled = state.drill_out();
    assert!(handled);
    assert_eq!(state.cursor(), 0); // Moved to parent.
}

#[test]
fn drill_out_from_expanded_root_collapses() {
    let mut state = TreeState::new();
    state.ensure_expanded(NodeId(0));
    sync_tree(&mut state, sample_tree());
    // Cursor at root (flat index 0).
    let handled = state.drill_out();
    assert!(handled);
    assert!(!state.expanded().contains(&NodeId(0)));
}

#[test]
fn drill_out_from_collapsed_root_returns_false() {
    let mut state = TreeState::new();
    sync_tree(&mut state, sample_tree());
    let handled = state.drill_out();
    assert!(!handled);
}

#[test]
fn drill_out_from_deep_child_collapses_and_moves_to_parent() {
    let mut state = TreeState::new();
    state.ensure_expanded(NodeId(0));
    state.ensure_expanded(NodeId(1));
    sync_tree(&mut state, sample_tree());
    // Visible: root(0), child_a(1), grandchild(2), child_b(3)
    assert_eq!(state.cached_visible_count(), 4);

    // Cursor at grandchild (flat index 2).
    state.set_cursor(2);
    let handled = state.drill_out();
    assert!(handled);
    assert_eq!(state.cursor(), 1); // Moved to child_a.
}

#[test]
fn expand_all_roots_expands_root_nodes() {
    let mut state = TreeState::new();
    let tree = vec![
        make_parent(0, "root_a", vec![make_leaf(1, "child")]),
        make_parent(2, "root_b", vec![make_leaf(3, "child")]),
    ];
    sync_tree(&mut state, tree);
    state.expand_all_roots();
    assert!(state.expanded().contains(&NodeId(0)));
    assert!(state.expanded().contains(&NodeId(2)));
}

#[test]
fn expand_all_roots_skips_leaf_roots() {
    let mut state = TreeState::new();
    let tree = vec![
        make_leaf(0, "leaf_root"),
        make_parent(1, "parent_root", vec![make_leaf(2, "child")]),
    ];
    sync_tree(&mut state, tree);
    state.expand_all_roots();
    assert!(!state.expanded().contains(&NodeId(0)));
    assert!(state.expanded().contains(&NodeId(1)));
}

#[test]
fn collapse_all_clears_expanded() {
    let mut state = TreeState::new();
    state.ensure_expanded(NodeId(0));
    state.ensure_expanded(NodeId(1));
    state.collapse_all();
    assert!(!state.has_expanded());
    assert!(state.expanded().is_empty());
}

#[test]
fn selected_node_returns_current() -> Result<(), String> {
    let mut state = TreeState::new();
    sync_tree(&mut state, sample_tree());
    let node = state.selected_node().ok_or("expected selected node")?;
    assert_eq!(node.id, NodeId(0));
    Ok(())
}

#[test]
fn selected_node_returns_none_on_empty_tree() {
    let state = TreeState::new();
    assert!(state.selected_node().is_none());
}

#[test]
fn full_drill_in_out_sequence() {
    let mut state = TreeState::new();
    sync_tree(&mut state, sample_tree());

    // Start at root (collapsed).
    assert_eq!(state.cursor(), 0);

    // l: expand root.
    state.drill_in();
    assert!(state.expanded().contains(&NodeId(0)));

    // Refresh cache after expansion.
    sync_tree(&mut state, sample_tree());
    assert_eq!(state.cached_visible_count(), 3);

    // l: move to first child.
    state.drill_in();
    assert_eq!(state.cursor(), 1);

    // l: expand child_a.
    state.drill_in();
    assert!(state.expanded().contains(&NodeId(1)));

    // Refresh cache.
    sync_tree(&mut state, sample_tree());
    assert_eq!(state.cached_visible_count(), 4);

    // l: move to grandchild.
    state.drill_in();
    assert_eq!(state.cursor(), 2);

    // l: grandchild is leaf, no-op.
    state.drill_in();
    assert_eq!(state.cursor(), 2);

    // h: collapse grandchild (no-op) + move to parent child_a.
    let handled = state.drill_out();
    assert!(handled);
    assert_eq!(state.cursor(), 1);

    // h: collapse child_a + move to root.
    let handled = state.drill_out();
    assert!(handled);
    assert_eq!(state.cursor(), 0);

    // h: collapse root.
    let handled = state.drill_out();
    assert!(handled);
    assert!(!state.expanded().contains(&NodeId(0)));

    // h: root collapsed -> return false.
    sync_tree(&mut state, sample_tree());
    let handled = state.drill_out();
    assert!(!handled);
}

#[test]
fn half_page_down_moves_by_half_viewport() {
    let mut state = TreeState::new();
    state.ensure_expanded(NodeId(0));
    state.ensure_expanded(NodeId(1));
    sync_tree(&mut state, sample_tree());
    assert_eq!(state.cached_visible_count(), 4);

    state.set_viewport_height(6); // half = 3
    state.half_page_down();
    assert_eq!(state.cursor(), 3);
}

#[test]
fn half_page_up_clamps_at_top() {
    let mut state = TreeState::new();
    state.ensure_expanded(NodeId(0));
    sync_tree(&mut state, sample_tree());
    state.set_cursor(1);
    state.set_viewport_height(10); // half = 5

    state.half_page_up();
    assert_eq!(state.cursor(), 0);
}

#[test]
fn half_page_with_zero_viewport_moves_by_one() {
    let mut state = TreeState::new();
    state.ensure_expanded(NodeId(0));
    sync_tree(&mut state, sample_tree());
    assert_eq!(state.cached_visible_count(), 3);

    state.set_viewport_height(0); // half = max(0/2, 1) = 1
    state.half_page_down();
    assert_eq!(state.cursor(), 1);
}

// --- Further checks of the flattening, lookup and path relations ---

#[test]
fn flatten_links_children_to_parents() {
    let tree = sample_tree();
    let expanded = vec![NodeId(0), NodeId(1)];
    let flat = flatten_visible(&tree, &expanded);
    let ids: Vec<u64> = flat.iter().map(|f| f.node_id.0).collect();
    assert_eq!(ids, vec![0, 1, 3, 2]);
    assert_eq!(flat[0].parent_index, None);
    assert_eq!(flat[1].parent_index, Some(0));
    assert_eq!(flat[2].parent_index, Some(1));
    assert_eq!(flat[3].parent_index, Some(0));
    assert_eq!(flat[2].depth, 2);
    assert!(flat[3].is_last_sibling);
    assert!(!flat[1].is_last_sibling);
}

#[test]
fn take_tree_only_when_generation_matches() {
    let mut state = TreeState::new();
    state.set_tree(sample_tree(), 7);
    assert!(state.take_tree_if_current(8).is_none());
    let taken = state.take_tree_if_current(7);
    assert_eq!(taken.map(|t| t.len()), Some(1));
    // The stored tree is now empty.
    assert!(state.take_tree_if_current(7).is_none());
    // u64::MAX is never cached.
    state.set_tree(sample_tree(), u64::MAX);
    assert!(state.take_tree_if_current(u64::MAX).is_none());
}

#[test]
fn full_text_at_reads_detail() {
    let mut state = TreeState::new();
    let mut leaf = make_leaf(0, "leaf");
    leaf.full_text = Some("full".to_string());
    sync_tree(&mut state, vec![leaf]);
    assert_eq!(state.full_text_at(0), Some("full".to_string()));
    assert_eq!(state.full_text_at(1), None);
}

#[test]
fn path_relations_mark_cursor_path() {
    let tree = sample_tree();
    let expanded = vec![NodeId(0), NodeId(1)];
    let flat = flatten_visible(&tree, &expanded);
    // Cursor on grandchild (row 2): row 1 and 2 are Direct, root is at depth 0.
    let rel = compute_path_relations(&flat, 2, true);
    assert_eq!(
        rel,
        vec![PathRelation::Outside, PathRelation::Direct, PathRelation::Direct, PathRelation::Outside]
    );
    // Cursor on child_b (row 3): child_a is its earlier sibling.
    let rel = compute_path_relations(&flat, 3, true);
    assert_eq!(
        rel,
        vec![PathRelation::Outside, PathRelation::OnRoute, PathRelation::Outside, PathRelation::Direct]
    );
    let unfocused = compute_path_relations(&flat, 3, false);
    assert!(unfocused.iter().all(|r| *r == PathRelation::Outside));
    let trail = ancestor_trail_relations(&flat, &compute_path_relations(&flat, 2, true), 2);
    assert_eq!(trail, vec![PathRelation::Direct]);
}

#[test]
fn ensure_expanded_twice_is_like_once() {
    let mut once = TreeState::new();
    once.ensure_expanded(NodeId(0));
    let mut twice = TreeState::new();
    twice.ensure_expanded(NodeId(0));
    twice.ensure_expanded(NodeId(0));
    assert_eq!(once.expanded(), twice.expanded());
    assert_eq!(twice.expanded().len(), 1);
    sync_tree(&mut twice, sample_tree());
    assert_eq!(twice.cached_visible_count(), 3);
}
