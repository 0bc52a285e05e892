//! The tree that the events pane navigates, and its flattening into the
//! list of visible rows.

use vstd::prelude::*;

verus! {

/// Stable identity of a tree node.
#[derive(Clone, Copy, Debug, PartialEq, Eq, Hash, Structural)]
pub struct NodeId(pub u64);

/// One node of the displayed tree.
pub struct TreeNode {
    /// Stable identity, used to remember expansion across frames.
    pub id: NodeId,
    /// One-line summary shown in the tree.
    pub label: String,
    /// Full text shown by the detail viewer, when the node has one.
    pub full_text: Option<String>,
    /// Child nodes, in display order.
    pub children: Vec<TreeNode>,
}

/// One visible row of a flattened tree.
#[derive(Clone, Copy, Debug, PartialEq, Eq)]
pub struct FlatNode {
    /// The node shown in this row.
    pub node_id: NodeId,
    /// Whether the node has children (expanded or not).
    pub has_children: bool,
    /// Nesting depth; roots are at depth 0.
    pub depth: usize,
    /// Row index of the parent, `None` for roots.
    pub parent_index: Option<usize>,
    /// Whether the node is the last among its siblings.
    pub is_last_sibling: bool,
}

/// Navigation facts kept between frames for one visible row.
#[derive(Clone, Copy, Debug, PartialEq, Eq)]
pub struct CachedFlatEntry {
    /// The node shown in this row.
    pub node_id: NodeId,
    /// Whether the node has children.
    pub has_children: bool,
    /// Row index of the parent, `None` for roots.
    pub parent_flat_index: Option<usize>,
}

impl TreeNode {
    /// A node without children.
    pub fn leaf(id: u64, label: String) -> (n: TreeNode)
        ensures
            n.id == NodeId(id),
            n.label@ == label@,
            n.full_text is None,
            n.children@.len() == 0,
    {
        TreeNode { id: NodeId(id), label, full_text: None, children: Vec::new() }
    }

    /// A node with the given children.
    pub fn parent(id: u64, label: String, children: Vec<TreeNode>) -> (n: TreeNode)
        ensures
            n.id == NodeId(id),
            n.label@ == label@,
            n.full_text is None,
            n.children@ == children@,
    {
        TreeNode { id: NodeId(id), label, full_text: None, children }
    }
}

/// The set of node ids held in a list.
pub open spec fn id_set(ids: Seq<NodeId>) -> Set<NodeId> {
    ids.to_set()
}

/// Height of a node: one more than the height of its children.
pub open spec fn node_height(n: TreeNode) -> nat
    decreases n,
{
    1 + forest_height(n.children@)
}

/// Height of a forest: the largest height of its trees, 0 when empty.
pub open spec fn forest_height(nodes: Seq<TreeNode>) -> nat
    decreases nodes,
{
    if nodes.len() == 0 {
        0
    } else {
        let h = node_height(nodes[0]);
        let t = forest_height(nodes.drop_first());
        if h >= t { h } else { t }
    }
}

/// The rows shown for node `n` and its visible descendants, in pre-order:
/// the node itself, then, if it is expanded, its children's rows.
/// `base` is the row index of `n`.
pub open spec fn flat_node(
    n: TreeNode,
    expanded: Set<NodeId>,
    depth: int,
    parent: Option<usize>,
    base: int,
    is_last: bool,
) -> Seq<FlatNode>
    decreases n,
{
    seq![
        FlatNode {
            node_id: n.id,
            has_children: n.children@.len() > 0,
            depth: depth as usize,
            parent_index: parent,
            is_last_sibling: is_last,
        },
    ] + if expanded.contains(n.id) {
        flat_forest(n.children@, expanded, depth + 1, Some(base as usize), base + 1)
    } else {
        Seq::empty()
    }
}

/// The rows shown for a list of siblings, each followed by its visible
/// descendants; `base` is the row index of the first sibling.
pub open spec fn flat_forest(
    nodes: Seq<TreeNode>,
    expanded: Set<NodeId>,
    depth: int,
    parent: Option<usize>,
    base: int,
) -> Seq<FlatNode>
    decreases nodes,
{
    if nodes.len() == 0 {
        Seq::empty()
    } else {
        let head = flat_node(nodes[0], expanded, depth, parent, base, nodes.len() == 1);
        head + flat_forest(nodes.drop_first(), expanded, depth, parent, base + head.len())
    }
}

/// The visible rows of a whole tree.
pub open spec fn spec_flatten(tree: Seq<TreeNode>, expanded: Set<NodeId>) -> Seq<FlatNode> {
    flat_forest(tree, expanded, 0, None, 0)
}

/// The first node with id `id` in pre-order within `n`.
pub open spec fn find_in_node(n: TreeNode, id: NodeId) -> Option<TreeNode>
    decreases n,
{
    if n.id == id {
        Some(n)
    } else {
        find_in_forest(n.children@, id)
    }
}

/// The first node with id `id` in pre-order within a forest.
pub open spec fn find_in_forest(nodes: Seq<TreeNode>, id: NodeId) -> Option<TreeNode>
    decreases nodes,
{
    if nodes.len() == 0 {
        None
    } else {
        match find_in_node(nodes[0], id) {
            Some(n) => Some(n),
            None => find_in_forest(nodes.drop_first(), id),
        }
    }
}

/// The navigation entry kept for a visible row.
pub open spec fn cache_entry(f: FlatNode) -> CachedFlatEntry {
    CachedFlatEntry {
        node_id: f.node_id,
        has_children: f.has_children,
        parent_flat_index: f.parent_index,
    }
}

/// Whether `id` occurs in the list.
pub fn contains_id(ids: &Vec<NodeId>, id: NodeId) -> (b: bool)
    ensures
        b == id_set(ids@).contains(id),
{
    let mut i: usize = 0;
    while i < ids.len()
        invariant
            i <= ids@.len(),
            forall|j: int| 0 <= j < i ==> ids@[j] != id,
        decreases ids@.len() - i,
    {
        if ids[i] == id {
            assert(ids@.contains(id));
            return true;
        }
        i += 1;
    }
    assert(!ids@.contains(id));
    false
}

fn flatten_node_into(
    n: &TreeNode,
    expanded: &Vec<NodeId>,
    depth: usize,
    parent: Option<usize>,
    is_last: bool,
    out: &mut Vec<FlatNode>,
)
    requires
        depth + node_height(*n) <= usize::MAX,
    ensures
        final(out)@ == old(out)@ + flat_node(
            *n,
            id_set(expanded@),
            depth as int,
            parent,
            old(out)@.len() as int,
            is_last,
        ),
    decreases *n, 0nat,
{
    let base = out.len();
    out.push(
        FlatNode {
            node_id: n.id,
            has_children: n.children.len() > 0,
            depth,
            parent_index: parent,
            is_last_sibling: is_last,
        },
    );
    if contains_id(expanded, n.id) {
        flatten_forest_into(&n.children, expanded, depth + 1, Some(base), out);
    }
}

fn flatten_forest_into(
    nodes: &Vec<TreeNode>,
    expanded: &Vec<NodeId>,
    depth: usize,
    parent: Option<usize>,
    out: &mut Vec<FlatNode>,
)
    requires
        depth + forest_height(nodes@) <= usize::MAX,
    ensures
        final(out)@ == old(out)@ + flat_forest(
            nodes@,
            id_set(expanded@),
            depth as int,
            parent,
            old(out)@.len() as int,
        ),
    decreases nodes@, 1nat,
{
    let ghost exp = id_set(expanded@);
    let ghost start = out@;
    let mut i: usize = 0;
    assert(nodes@.subrange(0, nodes@.len() as int) =~= nodes@);
    while i < nodes.len()
        invariant
            i <= nodes@.len(),
            depth + forest_height(nodes@) <= usize::MAX,
            start == old(out)@,
            exp == id_set(expanded@),
            out@ + flat_forest(nodes@.subrange(i as int, nodes@.len() as int), exp, depth as int, parent, out@.len() as int)
                == start + flat_forest(nodes@, exp, depth as int, parent, start.len() as int),
        decreases nodes@.len() - i,
    {
        proof {
            lemma_height_of_member(nodes@, i as int);
        }
        let ghost before = out@;
        let ghost rest = nodes@.subrange(i as int, nodes@.len() as int);
        flatten_node_into(&nodes[i], expanded, depth, parent, i + 1 == nodes.len(), out);
        proof {
            assert(rest[0] == nodes@[i as int]);
            assert(rest.drop_first() =~= nodes@.subrange(i + 1, nodes@.len() as int));
            assert((rest.len() == 1) == (i + 1 == nodes@.len()));
            let head = flat_node(rest[0], exp, depth as int, parent, before.len() as int, rest.len() == 1);
            assert(out@ == before + head);
            assert(flat_forest(rest, exp, depth as int, parent, before.len() as int)
                == head + flat_forest(rest.drop_first(), exp, depth as int, parent, (before.len() + head.len()) as int));
            assert(before + (head + flat_forest(rest.drop_first(), exp, depth as int, parent, (before.len() + head.len()) as int))
                =~= out@ + flat_forest(rest.drop_first(), exp, depth as int, parent, out@.len() as int));
        }
        i += 1;
    }
    assert(nodes@.subrange(i as int, nodes@.len() as int) =~= Seq::<TreeNode>::empty());
    assert(out@ + Seq::<FlatNode>::empty() =~= out@);
}

proof fn lemma_height_of_member(nodes: Seq<TreeNode>, i: int)
    requires
        0 <= i < nodes.len(),
    ensures
        node_height(nodes[i]) <= forest_height(nodes),
    decreases nodes.len(),
{
    if i > 0 {
        lemma_height_of_member(nodes.drop_first(), i - 1);
        assert(nodes.drop_first()[i - 1] == nodes[i]);
    }
}

/// Flatten the visible part of `tree` into rows, in pre-order: a node's
/// children are shown only when its id is in `expanded`.
pub fn flatten_visible(tree: &Vec<TreeNode>, expanded: &Vec<NodeId>) -> (rows: Vec<FlatNode>)
    requires
        forest_height(tree@) <= usize::MAX,
    ensures
        rows@ == spec_flatten(tree@, id_set(expanded@)),
{
    let mut rows: Vec<FlatNode> = Vec::new();
    flatten_forest_into(tree, expanded, 0, None, &mut rows);
    assert(Seq::<FlatNode>::empty() + spec_flatten(tree@, id_set(expanded@)) =~= spec_flatten(tree@, id_set(expanded@)));
    rows
}

/// The navigation entries kept for a list of visible rows.
pub fn build_flat_cache(flat: &[FlatNode]) -> (entries: Vec<CachedFlatEntry>)
    ensures
        entries@ == flat@.map_values(|f: FlatNode| cache_entry(f)),
{
    let mut entries: Vec<CachedFlatEntry> = Vec::new();
    let mut i: usize = 0;
    while i < flat.len()
        invariant
            i <= flat@.len(),
            entries@ == flat@.subrange(0, i as int).map_values(|f: FlatNode| cache_entry(f)),
        decreases flat@.len() - i,
    {
        let f = flat[i];
        entries.push(
            CachedFlatEntry {
                node_id: f.node_id,
                has_children: f.has_children,
                parent_flat_index: f.parent_index,
            },
        );
        assert(flat@.subrange(0, i + 1) =~= flat@.subrange(0, i as int).push(f));
        i += 1;
    }
    assert(flat@.subrange(0, i as int) =~= flat@);
    entries
}

/// Find the first node (in pre-order) with the given id.
pub fn find_node_by_id(tree: &Vec<TreeNode>, id: NodeId) -> (r: Option<&TreeNode>)
    ensures
        match find_in_forest(tree@, id) {
            Some(n) => r == Some(&n),
            None => r is None,
        },
    decreases tree@, 1nat,
{
    let mut i: usize = 0;
    assert(tree@.subrange(0, tree@.len() as int) =~= tree@);
    while i < tree.len()
        invariant
            i <= tree@.len(),
            find_in_forest(tree@, id) == find_in_forest(tree@.subrange(i as int, tree@.len() as int), id),
        decreases tree@.len() - i,
    {
        let ghost rest = tree@.subrange(i as int, tree@.len() as int);
        assert(rest[0] == tree@[i as int]);
        assert(rest.drop_first() =~= tree@.subrange(i + 1, tree@.len() as int));
        let found = find_in_tree(&tree[i], id);
        if found.is_some() {
            return found;
        }
        i += 1;
    }
    None
}

fn find_in_tree(n: &TreeNode, id: NodeId) -> (r: Option<&TreeNode>)
    ensures
        match find_in_node(*n, id) {
            Some(m) => r == Some(&m),
            None => r is None,
        },
    decreases *n, 0nat,
{
    if n.id == id {
        Some(n)
    } else {
        find_node_by_id(&n.children, id)
    }
}

} // verus!
