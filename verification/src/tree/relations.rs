//! Membership of each visible row in the cursor's path, used to highlight
//! the tree connectors leading to the cursor.

use vstd::prelude::*;

use crate::tree::model::FlatNode;

verus! {

/// How a row relates to the path from the roots down to the cursor.
#[derive(Clone, Copy, Debug, PartialEq, Eq, Structural)]
pub enum PathRelation {
    /// The cursor row or one of its ancestors (below the roots).
    Direct,
    /// An earlier sibling of a `Direct` row: the path passes its column.
    OnRoute,
    /// Any other row.
    Outside,
}

/// Every row's parent comes before it.
pub open spec fn parents_precede(flat: Seq<FlatNode>) -> bool {
    forall|k: int|
        #![trigger flat[k]]
        0 <= k < flat.len() ==> (flat[k].parent_index matches Some(p) ==> p < k)
}

/// Whether row `j` lies on the chain of parents starting at row `c`
/// (`c` itself included).
pub open spec fn on_chain(flat: Seq<FlatNode>, c: int, j: int) -> bool
    decreases c,
{
    if c < 0 || c >= flat.len() {
        false
    } else if j == c {
        true
    } else {
        match flat[c].parent_index {
            Some(p) => if p < c { on_chain(flat, p as int, j) } else { false },
            None => false,
        }
    }
}

/// Row `j` is the cursor row or an ancestor of it, below the roots.
pub open spec fn is_direct(flat: Seq<FlatNode>, cursor: int, j: int) -> bool {
    on_chain(flat, cursor, j) && flat[j].depth > 0
}

/// Row `j` is an earlier sibling (same parent, same depth) of a direct row.
pub open spec fn is_on_route(flat: Seq<FlatNode>, cursor: int, j: int) -> bool {
    exists|d: int|
        #![trigger is_direct(flat, cursor, d)]
        0 <= d < flat.len() && is_direct(flat, cursor, d) && j < d && flat[j].parent_index
            == flat[d].parent_index && flat[j].depth == flat[d].depth
}

/// The relation of row `j` to the cursor path; every row is `Outside` when
/// the pane is not focused.
pub open spec fn spec_relation(flat: Seq<FlatNode>, cursor: int, focused: bool, j: int) -> PathRelation {
    if !focused {
        PathRelation::Outside
    } else if is_direct(flat, cursor, j) {
        PathRelation::Direct
    } else if is_on_route(flat, cursor, j) {
        PathRelation::OnRoute
    } else {
        PathRelation::Outside
    }
}

proof fn lemma_chain_below(flat: Seq<FlatNode>, c: int, j: int)
    requires
        on_chain(flat, c, j),
    ensures
        0 <= j <= c < flat.len(),
    decreases c,
{
    if j != c {
        let p = flat[c].parent_index.unwrap();
        lemma_chain_below(flat, p as int, j);
    }
}

/// Compute the [`PathRelation`] of every row relative to the cursor:
/// `Direct` for the cursor row and its ancestors at depth > 0, `OnRoute` for
/// earlier siblings of those, `Outside` for the rest (and for all rows when
/// the pane is not focused).
pub fn compute_path_relations(flat_nodes: &[FlatNode], cursor: usize, focused: bool) -> (r: Vec<PathRelation>)
    requires
        parents_precede(flat_nodes@),
        focused && flat_nodes@.len() > 0 ==> cursor < flat_nodes@.len(),
    ensures
        r@.len() == flat_nodes@.len(),
        forall|j: int|
            0 <= j < r@.len() ==> #[trigger] r@[j] == spec_relation(flat_nodes@, cursor as int, focused, j),
{
    let ghost flat = flat_nodes@;
    let n = flat_nodes.len();
    let mut relations: Vec<PathRelation> = Vec::new();
    let mut i: usize = 0;
    while i < n
        invariant
            i <= n == flat.len(),
            relations@.len() == i,
            forall|j: int| 0 <= j < i ==> #[trigger] relations@[j] == PathRelation::Outside,
        decreases n - i,
    {
        relations.push(PathRelation::Outside);
        i += 1;
    }
    if !focused || n == 0 {
        return relations;
    }
    // Walk from the cursor up through the parents, marking the direct rows.
    let mut direct: Vec<bool> = Vec::new();
    let mut k: usize = 0;
    while k < n
        invariant
            k <= n == flat.len(),
            direct@.len() == k,
            forall|x: int| 0 <= x < k ==> !#[trigger] direct@[x],
        decreases n - k,
    {
        direct.push(false);
        k += 1;
    }
    proof {
        assert forall|x: int| 0 <= x < n && is_direct(flat, cursor as int, x) implies x <= cursor by {
            lemma_chain_below(flat, cursor as int, x);
        }
    }
    let mut current = cursor;
    loop
        invariant_except_break
            forall|x: int|
                0 <= x < n ==> (#[trigger] direct@[x] <==> (is_direct(flat, cursor as int, x) && x > current)),
        invariant
            n == flat.len() == direct@.len() == relations@.len(),
            flat == flat_nodes@,
            parents_precede(flat),
            current < n,
            cursor < n,
            focused,
            forall|j: int| 0 <= j < n ==> #[trigger] relations@[j] == PathRelation::Outside,
            forall|j: int| on_chain(flat, current as int, j) ==> on_chain(flat, cursor as int, j),
            forall|j: int|
                #![trigger on_chain(flat, cursor as int, j)]
                on_chain(flat, cursor as int, j) ==> on_chain(flat, current as int, j) || j > current,
        ensures
            forall|x: int| 0 <= x < n ==> (#[trigger] direct@[x] <==> is_direct(flat, cursor as int, x)),
        decreases current,
    {
        if flat_nodes[current].depth > 0 {
            direct.set(current, true);
        }
        match flat_nodes[current].parent_index {
            Some(p) => {
                assert(flat[current as int].parent_index == Some(p));
                proof {
                    assert forall|j: int| on_chain(flat, p as int, j) implies on_chain(flat, cursor as int, j) by {
                        assert(on_chain(flat, current as int, j));
                    }
                    assert forall|j: int| #[trigger] on_chain(flat, cursor as int, j) implies on_chain(flat, p as int, j) || j > p by {
                        if !(j > current) {
                            assert(on_chain(flat, current as int, j));
                        }
                    }
                    assert forall|x: int| 0 <= x < n implies (#[trigger] direct@[x] <==> (is_direct(flat, cursor as int, x) && x > p)) by {
                        if x == current {
                            assert(on_chain(flat, current as int, x));
                        }
                        if is_direct(flat, cursor as int, x) && x > p && x < current {
                            assert(on_chain(flat, current as int, x));
                            assert(on_chain(flat, p as int, x));
                            lemma_chain_below(flat, p as int, x);
                        }
                    }
                }
                current = p;
            },
            None => {
                proof {
                    assert forall|x: int| 0 <= x < n implies (#[trigger] direct@[x] <==> is_direct(flat, cursor as int, x)) by {
                        if x == current {
                            assert(on_chain(flat, current as int, x));
                        }
                        if is_direct(flat, cursor as int, x) && x < current {
                            assert(on_chain(flat, current as int, x));
                        }
                    }
                }
                break;
            },
        }
    }
    // Mark the direct rows.
    let mut a: usize = 0;
    while a < n
        invariant
            n == flat.len() == relations@.len() == direct@.len(),
            flat == flat_nodes@,
            forall|x: int| 0 <= x < n ==> (#[trigger] direct@[x] <==> is_direct(flat, cursor as int, x)),
            a <= n,
            forall|j: int|
                0 <= j < n ==> #[trigger] relations@[j] == (if j < a && direct@[j] {
                    PathRelation::Direct
                } else {
                    PathRelation::Outside
                }),
        decreases n - a,
    {
        if direct[a] {
            relations.set(a, PathRelation::Direct);
        }
        a += 1;
    }
    // Mark earlier siblings of direct rows.
    let mut d: usize = 0;
    while d < n
        invariant
            n == flat.len() == relations@.len() == direct@.len(),
            flat == flat_nodes@,
            d <= n,
            forall|x: int| 0 <= x < n ==> (#[trigger] direct@[x] <==> is_direct(flat, cursor as int, x)),
            forall|j: int|
                0 <= j < n ==> #[trigger] relations@[j] == (if is_direct(flat, cursor as int, j) {
                    PathRelation::Direct
                } else if exists|e: int|
                    #![trigger is_direct(flat, cursor as int, e)]
                    0 <= e < d && is_direct(flat, cursor as int, e) && j < e && flat[j].parent_index
                        == flat[e].parent_index && flat[j].depth == flat[e].depth {
                    PathRelation::OnRoute
                } else {
                    PathRelation::Outside
                }),
        decreases n - d,
    {
        if direct[d] {
            let ghost rel_before = relations@;
            let mut j: usize = 0;
            while j < d
                invariant
                    n == flat.len() == relations@.len(),
                    flat == flat_nodes@,
                    d < n,
                    j <= d,
                    forall|k: int|
                        0 <= k < n ==> #[trigger] relations@[k] == (if k < j && rel_before[k] == PathRelation::Outside
                            && flat[k].parent_index == flat[d as int].parent_index && flat[k].depth
                            == flat[d as int].depth {
                            PathRelation::OnRoute
                        } else {
                            rel_before[k]
                        }),
                decreases d - j,
            {
                if flat_nodes[j].parent_index == flat_nodes[d].parent_index
                    && flat_nodes[j].depth == flat_nodes[d].depth
                    && relations[j] == PathRelation::Outside
                {
                    relations.set(j, PathRelation::OnRoute);
                }
                j += 1;
            }
        }
        proof {
            assert forall|k: int| 0 <= k < n implies #[trigger] relations@[k] == (if is_direct(flat, cursor as int, k) {
                PathRelation::Direct
            } else if exists|e: int|
                #![trigger is_direct(flat, cursor as int, e)]
                0 <= e < d + 1 && is_direct(flat, cursor as int, e) && k < e && flat[k].parent_index
                    == flat[e].parent_index && flat[k].depth == flat[e].depth {
                PathRelation::OnRoute
            } else {
                PathRelation::Outside
            }) by {
                if exists|e: int|
                    #![trigger is_direct(flat, cursor as int, e)]
                    0 <= e < d + 1 && is_direct(flat, cursor as int, e) && k < e && flat[k].parent_index
                        == flat[e].parent_index && flat[k].depth == flat[e].depth {
                    let e = choose|e: int|
                        #![trigger is_direct(flat, cursor as int, e)]
                        0 <= e < d + 1 && is_direct(flat, cursor as int, e) && k < e && flat[k].parent_index
                            == flat[e].parent_index && flat[k].depth == flat[e].depth;
                    if e < d {
                        assert(0 <= e < d && is_direct(flat, cursor as int, e) && k < e);
                    } else {
                        assert(direct@[d as int]);
                    }
                }
            }
        }
        d += 1;
    }
    proof {
        assert forall|j: int| 0 <= j < relations@.len() implies #[trigger] relations@[j] == spec_relation(flat_nodes@, cursor as int, focused, j) by {
            if is_on_route(flat, cursor as int, j) {
                let x = choose|x: int|
                    #![trigger is_direct(flat, cursor as int, x)]
                    0 <= x < flat.len() && is_direct(flat, cursor as int, x) && j < x && flat[j].parent_index
                        == flat[x].parent_index && flat[j].depth == flat[x].depth;
                assert(0 <= x < d && is_direct(flat, cursor as int, x) && j < x);
            }
        }
    }
    relations
}

/// Relations of the ancestors on the chain starting at row `cur` (and going
/// up), skipping roots, innermost first.
pub open spec fn up_trail(flat: Seq<FlatNode>, rel: Seq<PathRelation>, cur: Option<usize>) -> Seq<PathRelation>
    decreases (match cur { Some(i) => i + 1, None => 0 }),
{
    match cur {
        None => Seq::empty(),
        Some(i) => if i < flat.len() {
            let here = if flat[i as int].depth > 0 { seq![rel[i as int]] } else { Seq::empty() };
            match flat[i as int].parent_index {
                Some(p) => if p < i { here + up_trail(flat, rel, Some(p)) } else { here },
                None => here,
            }
        } else {
            Seq::empty()
        },
    }
}

/// The relations of a row's ancestors below the roots, outermost first;
/// empty for rows at depth 0 or 1.
pub open spec fn spec_ancestor_trail(flat: Seq<FlatNode>, rel: Seq<PathRelation>, node_idx: int) -> Seq<PathRelation> {
    if flat[node_idx].depth <= 1 {
        Seq::empty()
    } else {
        up_trail(flat, rel, flat[node_idx].parent_index).reverse()
    }
}

/// The [`PathRelation`] of each ancestor of row `node_idx` at depth > 0,
/// outermost first (the order of the row's connector trail).
pub fn ancestor_trail_relations(flat_nodes: &[FlatNode], relations: &[PathRelation], node_idx: usize) -> (r: Vec<PathRelation>)
    requires
        parents_precede(flat_nodes@),
        node_idx < flat_nodes@.len(),
        relations@.len() == flat_nodes@.len(),
    ensures
        r@ == spec_ancestor_trail(flat_nodes@, relations@, node_idx as int),
{
    let ghost flat = flat_nodes@;
    let ghost rel = relations@;
    let depth = flat_nodes[node_idx].depth;
    if depth <= 1 {
        return Vec::new();
    }
    let mut inner_first: Vec<PathRelation> = Vec::new();
    let mut current = flat_nodes[node_idx].parent_index;
    proof {
        assert(flat[node_idx as int].parent_index == current);
    }
    while current.is_some()
        invariant
            flat == flat_nodes@,
            rel == relations@,
            parents_precede(flat),
            rel.len() == flat.len(),
            current matches Some(c) ==> c < flat.len(),
            inner_first@ + up_trail(flat, rel, current) == up_trail(flat, rel, flat[node_idx as int].parent_index),
        decreases (match current { Some(i) => i + 1, None => 0 }),
    {
        let idx = current.unwrap();
        let ghost before = inner_first@;
        if flat_nodes[idx].depth > 0 {
            inner_first.push(relations[idx]);
        }
        let next = flat_nodes[idx].parent_index;
        proof {
            assert(flat[idx as int].parent_index == next);
            let here = if flat[idx as int].depth > 0 { seq![rel[idx as int]] } else { Seq::<PathRelation>::empty() };
            assert(inner_first@ == before + here);
            match next {
                Some(p) => {
                    assert(p < idx);
                    assert(up_trail(flat, rel, current) == here + up_trail(flat, rel, next));
                },
                None => {
                    assert(up_trail(flat, rel, current) == here);
                    assert(up_trail(flat, rel, next) =~= Seq::<PathRelation>::empty());
                },
            }
            assert(before + (here + up_trail(flat, rel, next)) =~= inner_first@ + up_trail(flat, rel, next));
        }
        current = next;
    }
    assert(up_trail(flat, rel, current) =~= Seq::<PathRelation>::empty());
    assert(inner_first@ =~= inner_first@ + Seq::<PathRelation>::empty());
    let mut result: Vec<PathRelation> = Vec::new();
    let mut k = inner_first.len();
    while k > 0
        invariant
            k <= inner_first@.len(),
            result@ == inner_first@.subrange(k as int, inner_first@.len() as int).reverse(),
        decreases k,
    {
        k -= 1;
        result.push(inner_first[k]);
        assert(inner_first@.subrange(k as int, inner_first@.len() as int) =~= seq![inner_first@[k as int]]
            + inner_first@.subrange(k + 1, inner_first@.len() as int));
        assert(result@ =~= inner_first@.subrange(k as int, inner_first@.len() as int).reverse());
    }
    assert(inner_first@.subrange(0, inner_first@.len() as int) =~= inner_first@);
    result
}

} // verus!
