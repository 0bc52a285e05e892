//! The shape of a flame graph's span tree: span identities and the parent /
//! child structure that navigation walks. Costs and labels, which only
//! drawing reads, are kept beside it by the caller.

use vstd::prelude::*;

verus! {

/// Unique identifier for a span within a flame graph tree.
#[derive(Clone, Copy, Debug, PartialEq, Eq, Hash, Structural)]
pub struct SpanId(pub u32);

/// A span and its children, in display order (largest total cost first).
pub struct SpanTree {
    pub id: SpanId,
    pub children: Vec<SpanTree>,
}

impl SpanTree {
    /// A span without children.
    pub fn leaf(id: SpanId) -> (t: SpanTree)
        ensures
            t.id == id,
            t.children@.len() == 0,
    {
        SpanTree { id, children: Vec::new() }
    }

    /// A span with the given children, in the given order.
    pub fn node(id: SpanId, children: Vec<SpanTree>) -> (t: SpanTree)
        ensures
            t.id == id,
            t.children@ == children@,
    {
        SpanTree { id, children }
    }
}

/// Number of levels of a tree: one more than that of its highest child.
pub open spec fn span_height(n: SpanTree) -> nat
    decreases n,
{
    1 + forest_span_height(n.children@)
}

/// The largest height among a list of trees, 0 when empty.
pub open spec fn forest_span_height(ns: Seq<SpanTree>) -> nat
    decreases ns,
{
    if ns.len() == 0 {
        0
    } else {
        let h = span_height(ns[0]);
        let t = forest_span_height(ns.drop_first());
        if h >= t { h } else { t }
    }
}

/// The first span with id `t` in pre-order within `n`.
pub open spec fn find_span(n: SpanTree, t: SpanId) -> Option<SpanTree>
    decreases n,
{
    if n.id == t {
        Some(n)
    } else {
        find_span_forest(n.children@, t)
    }
}

/// The first span with id `t` in pre-order within a list of trees.
pub open spec fn find_span_forest(ns: Seq<SpanTree>, t: SpanId) -> Option<SpanTree>
    decreases ns,
{
    if ns.len() == 0 {
        None
    } else {
        match find_span(ns[0], t) {
            Some(found) => Some(found),
            None => find_span_forest(ns.drop_first(), t),
        }
    }
}

/// The ids from `n` down to the first span with id `t` in pre-order, both
/// included; `None` when `t` does not occur.
pub open spec fn span_path(n: SpanTree, t: SpanId) -> Option<Seq<SpanId>>
    decreases n,
{
    if n.id == t {
        Some(seq![n.id])
    } else {
        match span_path_forest(n.children@, t) {
            Some(p) => Some(seq![n.id] + p),
            None => None,
        }
    }
}

/// The path to `t` within the first tree of the list that holds it.
pub open spec fn span_path_forest(ns: Seq<SpanTree>, t: SpanId) -> Option<Seq<SpanId>>
    decreases ns,
{
    if ns.len() == 0 {
        None
    } else {
        match span_path(ns[0], t) {
            Some(p) => Some(p),
            None => span_path_forest(ns.drop_first(), t),
        }
    }
}

/// The ancestor path from the root to `t` (inclusive); empty when `t` does
/// not occur.
pub open spec fn spec_ancestor_path(root: SpanTree, t: SpanId) -> Seq<SpanId> {
    match span_path(root, t) {
        Some(p) => p,
        None => Seq::empty(),
    }
}

/// Find a node by `SpanId` in the tree: the first in pre-order.
pub fn find_node(root: &SpanTree, target: SpanId) -> (r: Option<&SpanTree>)
    ensures
        match find_span(*root, target) {
            Some(n) => r == Some(&n),
            None => r is None,
        },
    decreases *root, 0nat,
{
    if root.id == target {
        Some(root)
    } else {
        find_node_in(&root.children, target)
    }
}

fn find_node_in(nodes: &Vec<SpanTree>, target: SpanId) -> (r: Option<&SpanTree>)
    ensures
        match find_span_forest(nodes@, target) {
            Some(n) => r == Some(&n),
            None => r is None,
        },
    decreases nodes@, 1nat,
{
    let mut i: usize = 0;
    assert(nodes@.subrange(0, nodes@.len() as int) =~= nodes@);
    while i < nodes.len()
        invariant
            i <= nodes@.len(),
            find_span_forest(nodes@, target) == find_span_forest(
                nodes@.subrange(i as int, nodes@.len() as int),
                target,
            ),
        decreases nodes@.len() - i,
    {
        let ghost rest = nodes@.subrange(i as int, nodes@.len() as int);
        assert(rest[0] == nodes@[i as int]);
        assert(rest.drop_first() =~= nodes@.subrange(i + 1, nodes@.len() as int));
        let found = find_node(&nodes[i], target);
        if found.is_some() {
            return found;
        }
        i += 1;
    }
    None
}

/// Collect the ids from the root to the target (inclusive); empty when the
/// target is not found.
pub fn ancestor_path(root: &SpanTree, target: SpanId) -> (path: Vec<SpanId>)
    ensures
        path@ == spec_ancestor_path(*root, target),
{
    let mut path: Vec<SpanId> = Vec::new();
    let found = ancestor_path_walk(root, target, &mut path);
    assert(Seq::<SpanId>::empty() + seq![root.id] =~= seq![root.id]);
    proof {
        match span_path(*root, target) {
            Some(p) => {
                assert(path@ =~= Seq::<SpanId>::empty() + p);
            },
            None => {},
        }
    }
    path
}

fn ancestor_path_walk(node: &SpanTree, target: SpanId, path: &mut Vec<SpanId>) -> (found: bool)
    ensures
        found == span_path(*node, target) is Some,
        match span_path(*node, target) {
            Some(p) => final(path)@ == old(path)@ + p,
            None => final(path)@ == old(path)@,
        },
    decreases *node, 0nat,
{
    let ghost start = path@;
    path.push(node.id);
    if node.id == target {
        assert(path@ =~= start + seq![node.id]);
        return true;
    }
    let found = ancestor_path_walk_in(&node.children, target, path);
    if found {
        proof {
            let p = span_path_forest(node.children@, target)->0;
            assert(path@ =~= start + (seq![node.id] + p));
        }
        return true;
    }
    path.pop();
    assert(path@ =~= start);
    false
}

fn ancestor_path_walk_in(nodes: &Vec<SpanTree>, target: SpanId, path: &mut Vec<SpanId>) -> (found: bool)
    ensures
        found == span_path_forest(nodes@, target) is Some,
        match span_path_forest(nodes@, target) {
            Some(p) => final(path)@ == old(path)@ + p,
            None => final(path)@ == old(path)@,
        },
    decreases nodes@, 1nat,
{
    let mut i: usize = 0;
    assert(nodes@.subrange(0, nodes@.len() as int) =~= nodes@);
    while i < nodes.len()
        invariant
            i <= nodes@.len(),
            path@ == old(path)@,
            span_path_forest(nodes@, target) == span_path_forest(
                nodes@.subrange(i as int, nodes@.len() as int),
                target,
            ),
        decreases nodes@.len() - i,
    {
        let ghost rest = nodes@.subrange(i as int, nodes@.len() as int);
        assert(rest[0] == nodes@[i as int]);
        assert(rest.drop_first() =~= nodes@.subrange(i + 1, nodes@.len() as int));
        if ancestor_path_walk(&nodes[i], target, path) {
            return true;
        }
        i += 1;
    }
    false
}

} // verus!
