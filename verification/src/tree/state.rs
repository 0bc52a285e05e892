//! Cursor, scroll and expansion state for navigating a tree.
//!
//! Navigation is tree-walking: `j`/`k` move through the flattened visible
//! nodes, `l` drills in (expand, or move to the first child) and `h` drills
//! out (collapse and move to the parent).

use vstd::prelude::*;

use crate::tree::model::{
    build_flat_cache, cache_entry, contains_id, find_in_forest, find_node_by_id, id_set,
    CachedFlatEntry, FlatNode, NodeId, TreeNode,
};

verus! {

/// Abstract state of a [`TreeState`].
pub struct TreeStateView {
    /// Ids of the expanded nodes.
    pub expanded: Set<NodeId>,
    /// Cursor, as an index into the visible rows.
    pub cursor: usize,
    /// Row-level scroll offset.
    pub scroll_offset: usize,
    /// Whether the view follows the tail.
    pub auto_scroll: bool,
    /// Navigation facts of the visible rows of the last frame.
    pub entries: Seq<CachedFlatEntry>,
    /// The tree stored for the detail viewer.
    pub tree: Seq<TreeNode>,
    /// Generation the stored tree was built from.
    pub generation: Option<u64>,
    /// Viewport height in rows.
    pub viewport_height: u16,
}

/// The state with node `id` expanded.
pub open spec fn spec_ensure_expanded(v: TreeStateView, id: NodeId) -> TreeStateView {
    TreeStateView { expanded: v.expanded.insert(id), ..v }
}

/// Persistent state for tree navigation.
///
/// The tree is rebuilt each frame, but expansion, cursor and scroll persist
/// across frames; the last tree is kept for the detail viewer.
pub struct TreeState {
    expanded: Vec<NodeId>,
    cursor: usize,
    scroll_offset: usize,
    auto_scroll: bool,
    cached_visible_count: usize,
    cached_flat_entries: Vec<CachedFlatEntry>,
    cached_tree: Vec<TreeNode>,
    cached_tree_generation: Option<u64>,
    cached_viewport_height: u16,
}

impl View for TreeState {
    type V = TreeStateView;

    closed spec fn view(&self) -> TreeStateView {
        TreeStateView {
            expanded: id_set(self.expanded@),
            cursor: self.cursor,
            scroll_offset: self.scroll_offset,
            auto_scroll: self.auto_scroll,
            entries: self.cached_flat_entries@,
            tree: self.cached_tree@,
            generation: self.cached_tree_generation,
            viewport_height: self.cached_viewport_height,
        }
    }
}

/// `index` clamped to the last of `count` rows; 0 when there are none.
pub open spec fn clamp_index(index: int, count: int) -> usize {
    if count > 0 {
        if index < count - 1 { index as usize } else { (count - 1) as usize }
    } else {
        0
    }
}

/// The cursor after moving down by `n` rows among `count` visible rows:
/// clamped to the last row; unchanged when there are no rows or `n == 0`.
pub open spec fn cursor_after_down(cursor: usize, n: usize, count: int) -> usize {
    if count > 0 && n > 0 {
        clamp_index(cursor + n, count)
    } else {
        cursor
    }
}

/// The cursor after moving up by `n` rows, stopping at the first row.
pub open spec fn cursor_after_up(cursor: usize, n: usize) -> usize {
    if cursor >= n { (cursor - n) as usize } else { 0 }
}

/// Half the viewport height, and at least one row.
pub open spec fn half_page(height: u16) -> usize {
    if height / 2 >= 1 { (height / 2) as usize } else { 1 }
}

/// The ids of the root rows that have children.
pub open spec fn expandable_roots(entries: Seq<CachedFlatEntry>) -> Set<NodeId> {
    Set::new(
        |id: NodeId|
            exists|i: int|
                0 <= i < entries.len() && #[trigger] entries[i].node_id == id
                    && entries[i].parent_flat_index is None && entries[i].has_children,
    )
}

/// The node under row `index`, looked up in the stored tree.
pub open spec fn node_at(v: TreeStateView, index: int) -> Option<TreeNode> {
    if 0 <= index < v.entries.len() {
        find_in_forest(v.tree, v.entries[index].node_id)
    } else {
        None
    }
}

fn insert_id(ids: &mut Vec<NodeId>, id: NodeId)
    requires
        old(ids)@.no_duplicates(),
    ensures
        final(ids)@.no_duplicates(),
        id_set(final(ids)@) == id_set(old(ids)@).insert(id),
{
    if !contains_id(ids, id) {
        ids.push(id);
        assert(id_set(ids@) =~= id_set(old(ids)@).insert(id)) by {
            assert forall|x: NodeId| id_set(ids@).contains(x) <==> id_set(old(ids)@).insert(id).contains(x) by {
                if x != id && ids@.contains(x) {
                    let k = choose|k: int| 0 <= k < ids@.len() && ids@[k] == x;
                    assert(old(ids)@[k] == x);
                }
                if old(ids)@.contains(x) {
                    let k = choose|k: int| 0 <= k < old(ids)@.len() && old(ids)@[k] == x;
                    assert(ids@[k] == x);
                }
                if x == id {
                    assert(ids@[ids@.len() - 1] == id);
                }
            }
        }
    } else {
        assert(id_set(ids@) =~= id_set(old(ids)@).insert(id));
    }
}

fn remove_id(ids: &mut Vec<NodeId>, id: NodeId)
    requires
        old(ids)@.no_duplicates(),
    ensures
        final(ids)@.no_duplicates(),
        id_set(final(ids)@) == id_set(old(ids)@).remove(id),
{
    let mut i: usize = 0;
    while i < ids.len()
        invariant
            i <= ids@.len(),
            ids@ == old(ids)@,
            old(ids)@.no_duplicates(),
            forall|j: int| 0 <= j < i ==> ids@[j] != id,
        decreases ids@.len() - i,
    {
        if ids[i] == id {
            let ghost before = ids@;
            ids.remove(i);
            assert(ids@ =~= before.subrange(0, i as int) + before.subrange(i + 1, before.len() as int));
            assert forall|k: int| 0 <= k < ids@.len() implies #[trigger] ids@[k] == (if k < i {
                before[k]
            } else {
                before[k + 1]
            }) by {}
            assert(ids@.no_duplicates()) by {
                assert forall|a: int, b: int| 0 <= a < ids@.len() && 0 <= b < ids@.len() && a != b
                    implies ids@[a] != ids@[b] by {
                    let a2 = if a < i { a } else { a + 1 };
                    let b2 = if b < i { b } else { b + 1 };
                    assert(before[a2] != before[b2]);
                }
            }
            assert(id_set(ids@) =~= id_set(before).remove(id)) by {
                assert forall|x: NodeId| id_set(ids@).contains(x) <==> id_set(before).remove(id).contains(x) by {
                    if ids@.contains(x) {
                        let k = choose|k: int| 0 <= k < ids@.len() && ids@[k] == x;
                        let k2 = if k < i { k } else { k + 1 };
                        assert(before[k2] == x);
                        assert(k2 != i);
                        assert(before[k2] != before[i as int]);
                        assert(before.contains(x));
                    }
                    if x != id && before.contains(x) {
                        let k = choose|k: int| 0 <= k < before.len() && before[k] == x;
                        if k < i {
                            assert(ids@[k] == x);
                        } else {
                            assert(k != i);
                            assert(ids@[k - 1] == x);
                        }
                        assert(ids@.contains(x));
                    }
                }
            }
            return;
        }
        i += 1;
    }
    assert(id_set(ids@) =~= id_set(old(ids)@).remove(id));
}

impl TreeState {
    /// Well-formedness: no id is listed twice, and the visible count matches
    /// the cached rows.
    pub closed spec fn wf(&self) -> bool {
        &&& self.expanded@.no_duplicates()
        &&& self.cached_visible_count == self.cached_flat_entries@.len()
    }

    /// Fresh state: nothing expanded, cursor and scroll at the top, following
    /// the tail, no rows, no stored tree.
    pub fn new() -> (s: Self)
        ensures
            s.wf(),
            s@.expanded == Set::<NodeId>::empty(),
            s@.cursor == 0,
            s@.scroll_offset == 0,
            s@.auto_scroll,
            s@.entries.len() == 0,
            s@.tree.len() == 0,
            s@.generation is None,
            s@.viewport_height == 0,
    {
        let s = TreeState {
            expanded: Vec::new(),
            cursor: 0,
            scroll_offset: 0,
            auto_scroll: true,
            cached_visible_count: 0,
            cached_flat_entries: Vec::new(),
            cached_tree: Vec::new(),
            cached_tree_generation: None,
            cached_viewport_height: 0,
        };
        assert(id_set(s.expanded@) =~= Set::<NodeId>::empty());
        s
    }

    /// The cursor, as an index into the visible rows.
    pub fn cursor(&self) -> (c: usize)
        ensures
            c == self@.cursor,
    {
        self.cursor
    }

    /// Set the cursor to `index`, clamped to the last visible row; turns off
    /// tail following.
    pub fn set_cursor(&mut self, index: usize)
        requires
            old(self).wf(),
        ensures
            final(self).wf(),
            final(self)@ == (TreeStateView {
                cursor: clamp_index(index as int, old(self)@.entries.len() as int),
                auto_scroll: false,
                ..old(self)@
            }),
    {
        if self.cached_visible_count > 0 {
            self.cursor = if index < self.cached_visible_count - 1 {
                index
            } else {
                self.cached_visible_count - 1
            };
        } else {
            self.cursor = 0;
        }
        self.auto_scroll = false;
    }

    /// Navigation facts of the visible rows of the last frame.
    pub fn cached_flat_entries(&self) -> (e: &[CachedFlatEntry])
        ensures
            e@ == self@.entries,
    {
        self.cached_flat_entries.as_slice()
    }

    /// Row-level scroll offset.
    pub fn scroll_offset(&self) -> (o: usize)
        ensures
            o == self@.scroll_offset,
    {
        self.scroll_offset
    }

    /// Set the row-level scroll offset.
    pub fn set_scroll_offset(&mut self, offset: usize)
        requires
            old(self).wf(),
        ensures
            final(self).wf(),
            final(self)@ == (TreeStateView { scroll_offset: offset, ..old(self)@ }),
    {
        self.scroll_offset = offset;
    }

    /// Whether the view follows the tail as new rows arrive.
    pub fn auto_scroll(&self) -> (b: bool)
        ensures
            b == self@.auto_scroll,
    {
        self.auto_scroll
    }

    /// The ids of the expanded nodes, each listed once.
    pub fn expanded(&self) -> (ids: &Vec<NodeId>)
        requires
            self.wf(),
        ensures
            id_set(ids@) == self@.expanded,
            ids@.no_duplicates(),
    {
        &self.expanded
    }

    /// Number of visible rows of the last frame.
    pub fn cached_visible_count(&self) -> (n: usize)
        requires
            self.wf(),
        ensures
            n == self@.entries.len(),
    {
        self.cached_visible_count
    }

    /// Whether any node is expanded.
    pub fn has_expanded(&self) -> (b: bool)
        requires
            self.wf(),
        ensures
            b == (self@.expanded != Set::<NodeId>::empty()),
    {
        proof {
            if self.expanded@.len() > 0 {
                assert(id_set(self.expanded@).contains(self.expanded@[0]));
            } else {
                assert(id_set(self.expanded@) =~= Set::<NodeId>::empty());
            }
        }
        self.expanded.len() > 0
    }

    /// Make sure node `id` is expanded; expanding twice changes nothing.
    pub fn ensure_expanded(&mut self, id: NodeId)
        requires
            old(self).wf(),
        ensures
            final(self).wf(),
            final(self)@ == spec_ensure_expanded(old(self)@, id),
    {
        insert_id(&mut self.expanded, id);
    }

    /// The node under the cursor, looked up in the stored tree.
    pub fn selected_node(&self) -> (r: Option<&TreeNode>)
        requires
            self.wf(),
        ensures
            match node_at(self@, self@.cursor as int) {
                Some(n) => r == Some(&n),
                None => r is None,
            },
    {
        if self.cursor < self.cached_flat_entries.len() {
            let entry = self.cached_flat_entries[self.cursor];
            find_node_by_id(&self.cached_tree, entry.node_id)
        } else {
            None
        }
    }

    /// The full text of the node in row `flat_idx`: `None` when the row does
    /// not exist, its node is not in the stored tree, or it has no full text.
    pub fn full_text_at(&self, flat_idx: usize) -> (r: Option<String>)
        requires
            self.wf(),
        ensures
            match node_at(self@, flat_idx as int) {
                Some(n) => match n.full_text {
                    Some(t) => r matches Some(s) && s@ == t@,
                    None => r is None,
                },
                None => r is None,
            },
    {
        if flat_idx < self.cached_flat_entries.len() {
            let entry = self.cached_flat_entries[flat_idx];
            match find_node_by_id(&self.cached_tree, entry.node_id) {
                Some(node) => match &node.full_text {
                    Some(t) => Some(t.clone()),
                    None => None,
                },
                None => None,
            }
        } else {
            None
        }
    }

    /// Store the tree of the current frame. `u64::MAX` as generation means
    /// "always rebuild" and is never remembered.
    pub fn set_tree(&mut self, tree: Vec<TreeNode>, generation: u64)
        requires
            old(self).wf(),
        ensures
            final(self).wf(),
            final(self)@ == (TreeStateView {
                tree: tree@,
                generation: if generation == u64::MAX { None } else { Some(generation) },
                ..old(self)@
            }),
    {
        self.cached_tree = tree;
        self.cached_tree_generation = if generation == u64::MAX {
            None
        } else {
            Some(generation)
        };
    }

    /// Hand out the stored tree if it was built from `generation` and is not
    /// empty, leaving an empty tree behind; otherwise return `None`.
    pub fn take_tree_if_current(&mut self, generation: u64) -> (r: Option<Vec<TreeNode>>)
        requires
            old(self).wf(),
        ensures
            final(self).wf(),
            old(self)@.generation == Some(generation) && old(self)@.tree.len() > 0 ==> {
                &&& r matches Some(t) && t@ == old(self)@.tree
                &&& final(self)@ == (TreeStateView { tree: Seq::empty(), ..old(self)@ })
            },
            !(old(self)@.generation == Some(generation) && old(self)@.tree.len() > 0) ==> {
                &&& r is None
                &&& final(self)@ == old(self)@
            },
    {
        let current = match self.cached_tree_generation {
            Some(g) => g == generation,
            None => false,
        };
        if current && self.cached_tree.len() > 0 {
            let mut tree: Vec<TreeNode> = Vec::new();
            std::mem::swap(&mut tree, &mut self.cached_tree);
            proof {
                assert(self.cached_tree@ =~= Seq::<TreeNode>::empty());
            }
            Some(tree)
        } else {
            None
        }
    }

    /// Update the row cache from a freshly flattened list of visible rows,
    /// and clamp the cursor to the last row.
    pub fn refresh_cache(&mut self, flat: &[FlatNode])
        requires
            old(self).wf(),
        ensures
            final(self).wf(),
            final(self)@ == (TreeStateView {
                entries: flat@.map_values(|f: FlatNode| cache_entry(f)),
                cursor: clamp_index(old(self)@.cursor as int, flat@.len() as int),
                ..old(self)@
            }),
    {
        self.cached_visible_count = flat.len();
        self.cached_flat_entries = build_flat_cache(flat);
        if self.cached_visible_count > 0 {
            if self.cursor >= self.cached_visible_count - 1 {
                self.cursor = self.cached_visible_count - 1;
            }
        } else {
            self.cursor = 0;
        }
    }

    /// Jump to the top; turns off tail following.
    pub fn scroll_to_top(&mut self)
        requires
            old(self).wf(),
        ensures
            final(self).wf(),
            final(self)@ == (TreeStateView {
                scroll_offset: 0,
                cursor: 0,
                auto_scroll: false,
                ..old(self)@
            }),
    {
        self.scroll_offset = 0;
        self.cursor = 0;
        self.auto_scroll = false;
    }

    /// Jump to the bottom; turns tail following back on. Cursor and scroll
    /// are set past the end and clamped by the next frame.
    pub fn scroll_to_bottom(&mut self)
        requires
            old(self).wf(),
        ensures
            final(self).wf(),
            final(self)@ == (TreeStateView {
                scroll_offset: usize::MAX,
                cursor: usize::MAX,
                auto_scroll: true,
                ..old(self)@
            }),
    {
        self.scroll_offset = usize::MAX;
        self.cursor = usize::MAX;
        self.auto_scroll = true;
    }

    /// Move the cursor up one row, stopping at the first row.
    pub fn cursor_up(&mut self)
        requires
            old(self).wf(),
        ensures
            final(self).wf(),
            final(self)@ == (TreeStateView {
                cursor: cursor_after_up(old(self)@.cursor, 1),
                auto_scroll: false,
                ..old(self)@
            }),
    {
        self.cursor = self.cursor.saturating_sub(1);
        self.auto_scroll = false;
    }

    /// Move the cursor down one row, stopping at the last row.
    pub fn cursor_down(&mut self)
        requires
            old(self).wf(),
        ensures
            final(self).wf(),
            final(self)@ == (TreeStateView {
                cursor: cursor_after_down(old(self)@.cursor, 1, old(self)@.entries.len() as int),
                auto_scroll: false,
                ..old(self)@
            }),
    {
        if self.cached_visible_count > 0 {
            let next = self.cursor.saturating_add(1);
            self.cursor = if next < self.cached_visible_count - 1 {
                next
            } else {
                self.cached_visible_count - 1
            };
        }
        self.auto_scroll = false;
    }

    /// Move the cursor up `n` rows, stopping at the first row. Moving by
    /// zero rows changes nothing.
    pub fn cursor_up_n(&mut self, n: usize)
        requires
            old(self).wf(),
        ensures
            final(self).wf(),
            n == 0 ==> final(self)@ == old(self)@,
            n > 0 ==> final(self)@ == (TreeStateView {
                cursor: cursor_after_up(old(self)@.cursor, n),
                auto_scroll: false,
                ..old(self)@
            }),
    {
        let mut k: usize = 0;
        while k < n
            invariant
                k <= n,
                self.wf(),
                k == 0 ==> self@ == old(self)@,
                k > 0 ==> self@ == (TreeStateView {
                    cursor: cursor_after_up(old(self)@.cursor, k),
                    auto_scroll: false,
                    ..old(self)@
                }),
            decreases n - k,
        {
            self.cursor_up();
            k += 1;
        }
    }

    /// Move the cursor down `n` rows, stopping at the last row. Moving by
    /// zero rows changes nothing.
    pub fn cursor_down_n(&mut self, n: usize)
        requires
            old(self).wf(),
        ensures
            final(self).wf(),
            n == 0 ==> final(self)@ == old(self)@,
            n > 0 ==> final(self)@ == (TreeStateView {
                cursor: cursor_after_down(old(self)@.cursor, n, old(self)@.entries.len() as int),
                auto_scroll: false,
                ..old(self)@
            }),
    {
        let mut k: usize = 0;
        while k < n
            invariant
                k <= n,
                self.wf(),
                k == 0 ==> self@ == old(self)@,
                k > 0 ==> self@ == (TreeStateView {
                    cursor: cursor_after_down(old(self)@.cursor, k, old(self)@.entries.len() as int),
                    auto_scroll: false,
                    ..old(self)@
                }),
            decreases n - k,
        {
            self.cursor_down();
            k += 1;
        }
    }

    /// Record the viewport height, in rows.
    pub fn set_viewport_height(&mut self, height: u16)
        requires
            old(self).wf(),
        ensures
            final(self).wf(),
            final(self)@ == (TreeStateView { viewport_height: height, ..old(self)@ }),
    {
        self.cached_viewport_height = height;
    }

    /// Move the cursor down by half the viewport height (at least one row).
    pub fn half_page_down(&mut self)
        requires
            old(self).wf(),
        ensures
            final(self).wf(),
            final(self)@ == (TreeStateView {
                cursor: cursor_after_down(
                    old(self)@.cursor,
                    half_page(old(self)@.viewport_height),
                    old(self)@.entries.len() as int,
                ),
                auto_scroll: false,
                ..old(self)@
            }),
    {
        let h = self.cached_viewport_height / 2;
        let half: usize = if h >= 1 { h as usize } else { 1 };
        self.cursor_down_n(half);
    }

    /// Move the cursor up by half the viewport height (at least one row).
    pub fn half_page_up(&mut self)
        requires
            old(self).wf(),
        ensures
            final(self).wf(),
            final(self)@ == (TreeStateView {
                cursor: cursor_after_up(old(self)@.cursor, half_page(old(self)@.viewport_height)),
                auto_scroll: false,
                ..old(self)@
            }),
    {
        let h = self.cached_viewport_height / 2;
        let half: usize = if h >= 1 { h as usize } else { 1 };
        self.cursor_up_n(half);
    }

    /// Drill into the row under the cursor (`l`): a collapsed node with
    /// children is expanded; an expanded one moves the cursor to its first
    /// child (the next row, when it exists). Returns whether anything was
    /// handled; on a leaf or with no row under the cursor nothing changes.
    pub fn drill_in(&mut self) -> (handled: bool)
        requires
            old(self).wf(),
        ensures
            final(self).wf(),
            ({
                let v = old(self)@;
                if v.cursor < v.entries.len() && v.entries[v.cursor as int].has_children {
                    let id = v.entries[v.cursor as int].node_id;
                    &&& handled
                    &&& if v.expanded.contains(id) {
                        final(self)@ == (TreeStateView {
                            cursor: if v.cursor + 1 < v.entries.len() {
                                (v.cursor + 1) as usize
                            } else {
                                v.cursor
                            },
                            auto_scroll: false,
                            ..v
                        })
                    } else {
                        final(self)@ == (TreeStateView {
                            expanded: v.expanded.insert(id),
                            auto_scroll: false,
                            ..v
                        })
                    }
                } else {
                    !handled && final(self)@ == v
                }
            }),
    {
        if self.cursor >= self.cached_flat_entries.len() {
            return false;
        }
        let entry = self.cached_flat_entries[self.cursor];
        if !entry.has_children {
            return false;
        }
        let node_id = entry.node_id;
        if contains_id(&self.expanded, node_id) {
            if self.cursor < self.cached_visible_count - 1 {
                self.cursor = self.cursor + 1;
            }
        } else {
            insert_id(&mut self.expanded, node_id);
        }
        self.auto_scroll = false;
        true
    }

    /// Drill out of the row under the cursor (`h`): a child row collapses
    /// its node and moves the cursor to the parent; an expanded root
    /// collapses; a collapsed root (or no row) is left to the caller, and
    /// `false` is returned.
    pub fn drill_out(&mut self) -> (handled: bool)
        requires
            old(self).wf(),
        ensures
            final(self).wf(),
            ({
                let v = old(self)@;
                if v.cursor < v.entries.len() {
                    let e = v.entries[v.cursor as int];
                    match e.parent_flat_index {
                        Some(p) => handled && final(self)@ == (TreeStateView {
                            expanded: v.expanded.remove(e.node_id),
                            cursor: p,
                            auto_scroll: false,
                            ..v
                        }),
                        None => if v.expanded.contains(e.node_id) {
                            handled && final(self)@ == (TreeStateView {
                                expanded: v.expanded.remove(e.node_id),
                                auto_scroll: false,
                                ..v
                            })
                        } else {
                            !handled && final(self)@ == v
                        },
                    }
                } else {
                    !handled && final(self)@ == v
                }
            }),
    {
        if self.cursor >= self.cached_flat_entries.len() {
            return false;
        }
        let entry = self.cached_flat_entries[self.cursor];
        let node_id = entry.node_id;
        match entry.parent_flat_index {
            Some(parent) => {
                remove_id(&mut self.expanded, node_id);
                self.cursor = parent;
                self.auto_scroll = false;
                true
            },
            None => {
                if contains_id(&self.expanded, node_id) {
                    remove_id(&mut self.expanded, node_id);
                    self.auto_scroll = false;
                    true
                } else {
                    false
                }
            },
        }
    }

    /// Expand every root row that has children.
    pub fn expand_all_roots(&mut self)
        requires
            old(self).wf(),
        ensures
            final(self).wf(),
            final(self)@ == (TreeStateView {
                expanded: old(self)@.expanded.union(expandable_roots(old(self)@.entries)),
                ..old(self)@
            }),
    {
        let mut i: usize = 0;
        assert(expandable_roots(old(self)@.entries.subrange(0, 0)) =~= Set::<NodeId>::empty());
        assert(old(self)@.expanded.union(Set::<NodeId>::empty()) =~= old(self)@.expanded);
        while i < self.cached_flat_entries.len()
            invariant
                self.wf(),
                i <= self@.entries.len(),
                self@ == (TreeStateView {
                    expanded: old(self)@.expanded.union(
                        expandable_roots(old(self)@.entries.subrange(0, i as int)),
                    ),
                    ..old(self)@
                }),
            decreases self@.entries.len() - i,
        {
            let entry = self.cached_flat_entries[i];
            let ghost before = self@.expanded;
            if entry.parent_flat_index.is_none() && entry.has_children {
                insert_id(&mut self.expanded, entry.node_id);
            }
            proof {
                let es = old(self)@.entries;
                let a = expandable_roots(es.subrange(0, i as int));
                let b = expandable_roots(es.subrange(0, i + 1));
                assert forall|id: NodeId| #[trigger] b.contains(id) <==> (a.contains(id)
                    || (id == entry.node_id && entry.parent_flat_index is None && entry.has_children)) by {
                    if b.contains(id) {
                        let k = choose|k: int| 0 <= k < i + 1 && #[trigger] es.subrange(0, i + 1)[k].node_id == id
                            && es.subrange(0, i + 1)[k].parent_flat_index is None
                            && es.subrange(0, i + 1)[k].has_children;
                        if k < i {
                            assert(es.subrange(0, i as int)[k] == es[k]);
                        }
                    }
                    if a.contains(id) {
                        let k = choose|k: int| 0 <= k < i && #[trigger] es.subrange(0, i as int)[k].node_id == id
                            && es.subrange(0, i as int)[k].parent_flat_index is None
                            && es.subrange(0, i as int)[k].has_children;
                        assert(es.subrange(0, i + 1)[k] == es[k]);
                    }
                    if id == entry.node_id && entry.parent_flat_index is None && entry.has_children {
                        assert(es.subrange(0, i + 1)[i as int] == entry);
                    }
                }
                assert(self@.expanded =~= old(self)@.expanded.union(b));
            }
            i += 1;
        }
        assert(old(self)@.entries.subrange(0, i as int) =~= old(self)@.entries);
    }

    /// Collapse every node.
    pub fn collapse_all(&mut self)
        requires
            old(self).wf(),
        ensures
            final(self).wf(),
            final(self)@ == (TreeStateView { expanded: Set::<NodeId>::empty(), ..old(self)@ }),
    {
        self.expanded = Vec::new();
        assert(id_set(self.expanded@) =~= Set::<NodeId>::empty());
    }
}

} // verus!
