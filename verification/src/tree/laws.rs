//! Facts about the visible rows of a tree that navigation relies on.

use vstd::prelude::*;

use crate::tree::model::{flat_forest, flat_node, spec_flatten, FlatNode, NodeId, TreeNode};
use crate::tree::state::{spec_ensure_expanded, TreeStateView};

verus! {

/// Within a run of rows starting at row `base`, every row whose parent lies in
/// the run has its parent earlier, and that parent has children and is
/// expanded; rows whose parent lies outside the run have parent `outer`.
pub open spec fn parents_link(s: Seq<FlatNode>, expanded: Set<NodeId>, base: int, outer: Option<usize>) -> bool {
    forall|k: int|
        #![trigger s[k]]
        0 <= k < s.len() ==> s[k].parent_index == outer || (s[k].parent_index matches Some(p) && base
            <= p < base + k && s[p - base].has_children && expanded.contains(s[p - base].node_id))
}

/// Within a run of rows starting at row `base`, every expanded row with
/// children is immediately followed by its first child.
pub open spec fn children_follow(s: Seq<FlatNode>, expanded: Set<NodeId>, base: int) -> bool {
    forall|k: int|
        #![trigger s[k]]
        0 <= k < s.len() && s[k].has_children && expanded.contains(s[k].node_id) ==> k + 1 < s.len()
            && s[k + 1].parent_index == Some((base + k) as usize)
}

proof fn lemma_forest_first(
    nodes: Seq<TreeNode>,
    expanded: Set<NodeId>,
    depth: int,
    parent: Option<usize>,
    base: int,
)
    requires
        nodes.len() > 0,
    ensures
        flat_forest(nodes, expanded, depth, parent, base).len() > 0,
        flat_forest(nodes, expanded, depth, parent, base)[0].parent_index == parent,
{
    let head = flat_node(nodes[0], expanded, depth, parent, base, nodes.len() == 1);
    assert(head[0].parent_index == parent);
    let rest = flat_forest(nodes.drop_first(), expanded, depth, parent, base + head.len());
    assert((head + rest)[0] == head[0]);
}

proof fn lemma_node_links(
    n: TreeNode,
    expanded: Set<NodeId>,
    depth: int,
    parent: Option<usize>,
    base: int,
    is_last: bool,
)
    requires
        0 <= base,
        base + flat_node(n, expanded, depth, parent, base, is_last).len() <= usize::MAX + 1,
    ensures
        parents_link(flat_node(n, expanded, depth, parent, base, is_last), expanded, base, parent),
        children_follow(flat_node(n, expanded, depth, parent, base, is_last), expanded, base),
    decreases n, 0nat,
{
    let s = flat_node(n, expanded, depth, parent, base, is_last);
    let head = s[0];
    if expanded.contains(n.id) {
        let c = flat_forest(n.children@, expanded, depth + 1, Some(base as usize), base + 1);
        assert(s =~= seq![head] + c);
        lemma_forest_links(n.children@, expanded, depth + 1, Some(base as usize), base + 1);
        if n.children@.len() > 0 {
            lemma_forest_first(n.children@, expanded, depth + 1, Some(base as usize), base + 1);
        } else {
            assert(c =~= Seq::<FlatNode>::empty());
        }
        assert forall|k: int| 0 <= k < s.len() implies #[trigger] s[k].parent_index == parent || (
        s[k].parent_index matches Some(p) && base <= p < base + k && s[p - base].has_children
            && expanded.contains(s[p - base].node_id)) by {
            if k > 0 {
                assert(s[k] == c[k - 1]);
                if c[k - 1].parent_index == Some(base as usize) {
                    assert(c.len() > 0);
                    assert(n.children@.len() > 0);
                } else {
                    let p = c[k - 1].parent_index.unwrap();
                    assert(s[p - base] == c[p - (base + 1)]);
                }
            }
        }
        assert forall|k: int|
            0 <= k < s.len() && #[trigger] s[k].has_children && expanded.contains(s[k].node_id) implies k + 1
            < s.len() && s[k + 1].parent_index == Some((base + k) as usize) by {
            if k == 0 {
                assert(n.children@.len() > 0);
                assert(s[1] == c[0]);
            } else {
                assert(s[k] == c[k - 1]);
                assert(s[k + 1] == c[k]);
            }
        }
    } else {
        assert(s =~= seq![head]);
    }
}

proof fn lemma_forest_links(
    nodes: Seq<TreeNode>,
    expanded: Set<NodeId>,
    depth: int,
    parent: Option<usize>,
    base: int,
)
    requires
        0 <= base,
        base + flat_forest(nodes, expanded, depth, parent, base).len() <= usize::MAX + 1,
    ensures
        parents_link(flat_forest(nodes, expanded, depth, parent, base), expanded, base, parent),
        children_follow(flat_forest(nodes, expanded, depth, parent, base), expanded, base),
    decreases nodes, 1nat,
{
    if nodes.len() > 0 {
        let s = flat_forest(nodes, expanded, depth, parent, base);
        let h = flat_node(nodes[0], expanded, depth, parent, base, nodes.len() == 1);
        let t = flat_forest(nodes.drop_first(), expanded, depth, parent, base + h.len());
        assert(s == h + t);
        lemma_node_links(nodes[0], expanded, depth, parent, base, nodes.len() == 1);
        lemma_forest_links(nodes.drop_first(), expanded, depth, parent, base + h.len());
        assert forall|k: int| 0 <= k < s.len() implies #[trigger] s[k].parent_index == parent || (
        s[k].parent_index matches Some(p) && base <= p < base + k && s[p - base].has_children
            && expanded.contains(s[p - base].node_id)) by {
            if k < h.len() {
                assert(s[k] == h[k]);
                if h[k].parent_index != parent {
                    let p = h[k].parent_index.unwrap();
                    assert(s[p - base] == h[p - base]);
                }
            } else {
                assert(s[k] == t[k - h.len()]);
                if t[k - h.len()].parent_index != parent {
                    let p = t[k - h.len()].parent_index.unwrap();
                    assert(s[p - base] == t[p - (base + h.len())]);
                }
            }
        }
        assert forall|k: int|
            0 <= k < s.len() && #[trigger] s[k].has_children && expanded.contains(s[k].node_id) implies k + 1
            < s.len() && s[k + 1].parent_index == Some((base + k) as usize) by {
            if k < h.len() {
                assert(s[k] == h[k]);
                assert(s[k + 1] == h[k + 1]);
            } else {
                assert(s[k] == t[k - h.len()]);
                assert(s[k + 1] == t[k + 1 - h.len()]);
            }
        }
    }
}

/// Law: in the visible rows of any tree, a row's parent row comes before it,
/// has children and is expanded; and every expanded row with children is
/// immediately followed by its first child. So `drill_out` always moves the
/// cursor up to an expanded parent, and `drill_in` on an expanded node moves
/// it onto that node's first child.
pub proof fn law_visible_rows_link_parents(tree: Seq<TreeNode>, expanded: Set<NodeId>)
    requires
        spec_flatten(tree, expanded).len() <= usize::MAX,
    ensures
        ({
            let rows = spec_flatten(tree, expanded);
            &&& forall|k: int|
                #![trigger rows[k]]
                0 <= k < rows.len() ==> (rows[k].parent_index matches Some(p) ==> p < k
                    && rows[p as int].has_children && expanded.contains(rows[p as int].node_id))
            &&& forall|k: int|
                #![trigger rows[k]]
                0 <= k < rows.len() && rows[k].has_children && expanded.contains(rows[k].node_id)
                    ==> k + 1 < rows.len() && rows[k + 1].parent_index == Some(k as usize)
        }),
{
    lemma_forest_links(tree, expanded, 0, None, 0);
}

/// Law: making sure a node is expanded is idempotent; doing it twice
/// leaves the same state as doing it once.
pub proof fn law_ensure_expanded_idempotent(v: TreeStateView, id: NodeId)
    ensures
        spec_ensure_expanded(spec_ensure_expanded(v, id), id) == spec_ensure_expanded(v, id),
{
    assert(v.expanded.insert(id).insert(id) =~= v.expanded.insert(id));
}

/// Law: the `u64::MAX` generation is never cached. `set_tree` with it
/// leaves no generation stored, and every other operation keeps the stored
/// generation; so along any run of states that starts there and in which
/// each state keeps the generation of the one before, no state holds a tree
/// that `take_tree_if_current` hands out, whatever generation is asked for.
pub proof fn law_sentinel_generation_is_never_cached(states: Seq<TreeStateView>, g: u64)
    requires
        states.len() > 0,
        states[0].generation is None,
        forall|i: int| 0 <= i < states.len() - 1 ==> (#[trigger] states[i + 1]).generation == states[i].generation,
    ensures
        forall|i: int|
            0 <= i < states.len() ==> !((#[trigger] states[i]).generation == Some(g) && states[i].tree.len() > 0),
{
    assert forall|i: int| 0 <= i < states.len() implies (#[trigger] states[i]).generation is None by {
        lemma_generation_stays_none(states, i);
    }
}

proof fn lemma_generation_stays_none(states: Seq<TreeStateView>, i: int)
    requires
        0 <= i < states.len(),
        states[0].generation is None,
        forall|j: int| 0 <= j < states.len() - 1 ==> (#[trigger] states[j + 1]).generation == states[j].generation,
    ensures
        states[i].generation is None,
    decreases i,
{
    if i > 0 {
        lemma_generation_stays_none(states, i - 1);
        assert(states[(i - 1) + 1].generation == states[i - 1].generation);
    }
}

} // verus!
