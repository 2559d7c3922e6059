//! The index from a parent's identifier to its children.

use std::collections::HashMap;
use vstd::prelude::*;
use crate::node::PlantNode;

verus! {

/// The nodes of `nodes` whose parent is `p`, in the order of `nodes`.
pub open spec fn children_of(nodes: Seq<PlantNode>, p: usize) -> Seq<PlantNode>
    decreases nodes.len(),
{
    if nodes.len() == 0 {
        Seq::empty()
    } else {
        let earlier = children_of(nodes.drop_last(), p);
        if nodes.last().parent == Some(p) {
            earlier.push(nodes.last())
        } else {
            earlier
        }
    }
}

/// The index of `nodes`: each identifier that some node names as its
/// parent, with the nodes that name it.
pub open spec fn children_index(nodes: Seq<PlantNode>) -> Map<usize, Seq<PlantNode>> {
    Map::new(|p: usize| children_of(nodes, p).len() > 0, |p: usize| children_of(nodes, p))
}

/// What a table of children holds, as sequences.
pub open spec fn index_of(paths: HashMap<usize, Vec<PlantNode>>) -> Map<usize, Seq<PlantNode>> {
    Map::new(|p: usize| paths@.contains_key(p), |p: usize| paths@[p]@)
}

/// Every node listed under `p` has parent `p` and is one of `nodes`, and
/// every node of `nodes` with parent `p` is listed under `p`.
pub proof fn lemma_children_of(nodes: Seq<PlantNode>, p: usize)
    ensures
        forall|k: int|
            0 <= k < children_of(nodes, p).len() ==> (#[trigger] children_of(nodes, p)[k]).parent
                == Some(p) && nodes.contains(children_of(nodes, p)[k]),
        forall|i: int|
            0 <= i < nodes.len() && (#[trigger] nodes[i]).parent == Some(p) ==> children_of(
                nodes,
                p,
            ).contains(nodes[i]),
        children_of(nodes, p).len() <= nodes.len(),
    decreases nodes.len(),
{
    if nodes.len() > 0 {
        let front = nodes.drop_last();
        let last = nodes.len() - 1;
        lemma_children_of(front, p);
        let earlier = children_of(front, p);
        let all = children_of(nodes, p);
        assert(forall|i: int| 0 <= i < front.len() ==> front[i] == nodes[i]);
        assert forall|k: int| 0 <= k < all.len() implies (#[trigger] all[k]).parent == Some(p)
            && nodes.contains(all[k]) by {
            if k < earlier.len() {
                assert(all[k] == earlier[k]);
                assert(front.contains(earlier[k]));
                let w = choose|w: int| 0 <= w < front.len() && front[w] == earlier[k];
                assert(nodes[w] == all[k]);
            } else {
                assert(all[k] == nodes[last]);
            }
        }
        assert forall|i: int| 0 <= i < nodes.len() && (#[trigger] nodes[i]).parent == Some(
            p,
        ) implies all.contains(nodes[i]) by {
            if i < last {
                assert(front[i].parent == Some(p));
                assert(earlier.contains(front[i]));
                let w = choose|w: int| 0 <= w < earlier.len() && earlier[w] == front[i];
                assert(all[w] == nodes[i]);
            } else {
                assert(all[all.len() - 1] == nodes[i]);
            }
        }
    }
}

/// The table that lists under each parent's identifier the nodes that name
/// it, in the order of `nodes`; nodes without a parent are not listed.
pub fn group_by_parent(nodes: &Vec<PlantNode>) -> (paths: HashMap<usize, Vec<PlantNode>>)
    ensures
        index_of(paths) == children_index(nodes@),
{
    broadcast use vstd::std_specs::hash::group_hash_axioms;

    let mut paths: HashMap<usize, Vec<PlantNode>> = HashMap::new();
    let mut i: usize = 0;
    assert(nodes@.take(0).len() == 0);
    while i < nodes.len()
        invariant
            0 <= i <= nodes.len(),
            forall|p: usize|
                paths@.contains_key(p) <==> (#[trigger] children_of(nodes@.take(i as int), p)).len()
                    > 0,
            forall|p: usize|
                paths@.contains_key(p) ==> paths@[p]@ == #[trigger] children_of(
                    nodes@.take(i as int),
                    p,
                ),
        decreases nodes.len() - i,
    {
        let node = nodes[i];
        let ghost prev = nodes@.take(i as int);
        let ghost next = nodes@.take(i + 1);
        let ghost before = paths@;
        proof {
            assert(next.drop_last() =~= prev);
            assert(next.last() == node);
            assert forall|p: usize|
                #[trigger] children_of(next, p) == (if node.parent == Some(p) {
                    children_of(prev, p).push(node)
                } else {
                    children_of(prev, p)
                }) by {}
        }
        match node.parent {
            Some(parent) => {
                let mut siblings: Vec<PlantNode> = match paths.remove(&parent) {
                    Some(listed) => listed,
                    None => Vec::new(),
                };
                assert(siblings@ == children_of(prev, parent));
                siblings.push(node);
                paths.insert(parent, siblings);
                assert(paths@ == before.remove(parent).insert(parent, siblings));
                assert forall|p: usize|
                    paths@.contains_key(p) <==> (#[trigger] children_of(next, p)).len()
                        > 0 by {
                    if p != parent {
                        assert(paths@.contains_key(p) <==> before.contains_key(p));
                        assert(before.contains_key(p) <==> children_of(prev, p).len() > 0);
                    }
                }
                assert forall|p: usize| paths@.contains_key(p) implies paths@[p]@
                    == #[trigger] children_of(next, p) by {
                    if p != parent {
                        assert(before.contains_key(p));
                        assert(paths@[p] == before[p]);
                        assert(before[p]@ == children_of(prev, p));
                    }
                }
            },
            None => {
                assert forall|p: usize|
                    paths@.contains_key(p) <==> (#[trigger] children_of(next, p)).len()
                        > 0 by {
                    assert(before.contains_key(p) <==> children_of(prev, p).len() > 0);
                }
                assert forall|p: usize| paths@.contains_key(p) implies paths@[p]@
                    == #[trigger] children_of(next, p) by {
                    assert(before[p]@ == children_of(prev, p));
                }
            },
        }
        i = i + 1;
    }
    assert(nodes@.take(i as int) =~= nodes@);
    assert(index_of(paths) =~= children_index(nodes@));
    paths
}

} // verus!
