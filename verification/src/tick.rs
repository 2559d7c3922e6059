//! One tick of the engine as a function of its state and of the numbers
//! drawn for it.

use vstd::prelude::*;
use crate::dynamics::advanced;
use crate::field::energy_at;
use crate::growth::{branch_child, extend_child, Domain};
use crate::lineage::children_index;
use crate::node::{PlantNode, ResourcePoint};
use crate::params::EngineParams;
use crate::scalar::{Scalar, ONE_RAW};
use crate::trig::FULL_TURN_RAW;

verus! {

/// The numbers drawn for one node in one tick.
#[derive(Clone, Copy, Debug, PartialEq, Eq, Structural)]
pub struct NodeDraw {
    /// Compared with the growth probability; in `[0, 1)`.
    pub growth: Scalar,
    /// Compared with the branch probability; in `[0, 1)`.
    pub branch: Scalar,
    /// Angle of a branch in radians; within a full turn.
    pub angle: Scalar,
}

/// The scalar of `count` billionths; the largest scalar where the count
/// is beyond it.
pub open spec fn scalar_of_count(count: u64) -> Scalar {
    if count > i64::MAX as u64 {
        Scalar { raw: i64::MAX }
    } else {
        Scalar { raw: count as i64 }
    }
}

fn count_as_scalar(count: u64) -> (r: Scalar)
    ensures
        r == scalar_of_count(count),
{
    if count > i64::MAX as u64 {
        Scalar { raw: i64::MAX }
    } else {
        Scalar { raw: count as i64 }
    }
}

impl NodeDraw {
    /// The draw made of three counts of billionths.
    pub open spec fn of_counts(growth: u64, branch: u64, angle: u64) -> NodeDraw {
        NodeDraw {
            growth: scalar_of_count(growth),
            branch: scalar_of_count(branch),
            angle: scalar_of_count(angle),
        }
    }

    /// The draw made of three counts of billionths, as a generator gives
    /// them. It lies in range exactly where the first two counts are below
    /// one and the third is below a full turn.
    pub fn from_counts(growth: u64, branch: u64, angle: u64) -> (draw: NodeDraw)
        ensures
            draw == NodeDraw::of_counts(growth, branch, angle),
            draw.in_range() <==> (growth < ONE_RAW && branch < ONE_RAW && angle < FULL_TURN_RAW),
    {
        NodeDraw {
            growth: count_as_scalar(growth),
            branch: count_as_scalar(branch),
            angle: count_as_scalar(angle),
        }
    }

    /// Whether each number lies in its range.
    pub open spec fn in_range(self) -> bool {
        &&& 0 <= self.growth@ < ONE_RAW
        &&& 0 <= self.branch@ < ONE_RAW
        &&& 0 <= self.angle@ < FULL_TURN_RAW
    }
}

/// What an engine holds.
pub struct EngineState {
    pub domain: Domain,
    /// The population, in the order in which a tick visits it.
    pub nodes: Seq<PlantNode>,
    pub resources: Seq<ResourcePoint>,
    /// The children listed under each parent's identifier.
    pub paths: Map<usize, Seq<PlantNode>>,
    /// The number of ticks made.
    pub time: i32,
    pub params: EngineParams,
    /// The identifier that the next new node gets.
    pub next_id: usize,
    /// The number from which the generator of the draws was last started.
    pub generator_seed: u64,
}

/// The next generation while a tick builds it.
pub struct Brood {
    pub nodes: Seq<PlantNode>,
    pub next_id: usize,
}

/// Whether coherence lies in `[0, 1]` and distortion is not negative.
pub open spec fn vital(node: PlantNode) -> bool {
    0 <= node.coherence@ <= ONE_RAW && node.distortion@ >= 0
}

impl EngineState {
    /// What holds of every engine: the tick counter and the ages are not
    /// negative and no node is older than the engine; identifiers are
    /// distinct and below the next one to be given; a parent's identifier
    /// is below its child's; every node is vital; and the index lists the
    /// children of the present population.
    pub open spec fn wf(self) -> bool {
        &&& self.time >= 0
        &&& forall|i: int|
            0 <= i < self.nodes.len() ==> {
                &&& 0 <= (#[trigger] self.nodes[i]).age <= self.time
                &&& self.nodes[i].id < self.next_id
                &&& vital(self.nodes[i])
                &&& (self.nodes[i].parent matches Some(p) ==> p < self.nodes[i].id)
            }
        &&& forall|i: int, j: int|
            0 <= i < self.nodes.len() && 0 <= j < self.nodes.len() && i != j ==> (
            #[trigger] self.nodes[i]).id != (#[trigger] self.nodes[j]).id
        &&& self.paths == children_index(self.nodes)
    }
}

/// The node carried into the next generation: one tick older, with the
/// energy of its place, and its dynamics advanced.
pub open spec fn carried(resources: Seq<ResourcePoint>, params: EngineParams, node: PlantNode)
    -> PlantNode {
    advanced(
        resources,
        params,
        PlantNode {
            energy: energy_at(resources, params.max_energy_distance, node.position),
            age: (node.age + 1) as i32,
            ..node
        },
    )
}

/// Whether the brood may take one more child, `seen` nodes of the
/// population having been carried into it: the population and the children
/// of this tick together are below the cap, and an identifier is left.
pub open spec fn has_room(e: EngineState, b: Brood, seen: int) -> bool {
    e.nodes.len() + (b.nodes.len() - seen) < e.params.max_nodes && b.next_id < usize::MAX
}

/// The brood with `child` added under the next identifier.
pub open spec fn adopted(b: Brood, child: PlantNode) -> Brood {
    Brood { nodes: b.nodes.push(child), next_id: (b.next_id + 1) as usize }
}

/// The brood after `node` had its chance to extend.
pub open spec fn after_extend(e: EngineState, b: Brood, node: PlantNode, draw: NodeDraw, seen: int)
    -> Brood {
    if draw.growth.lt(e.params.growth_prob) && has_room(e, b, seen) {
        match extend_child(e.resources, e.params, e.domain, node, b.next_id) {
            Some(child) => adopted(b, child),
            None => b,
        }
    } else {
        b
    }
}

/// The brood after `node` had its chance to branch.
pub open spec fn after_branch(e: EngineState, b: Brood, node: PlantNode, draw: NodeDraw, seen: int)
    -> Brood {
    if draw.branch.lt(e.params.branch_prob) && has_room(e, b, seen) {
        match branch_child(e.resources, e.params, e.domain, node, b.next_id, draw.angle) {
            Some(child) => adopted(b, child),
            None => b,
        }
    } else {
        b
    }
}

/// The brood after node `i` of the population was visited: the node is
/// carried over, then it may extend, then it may branch. The children are
/// made from the node as it was before the tick.
pub open spec fn visited(e: EngineState, b: Brood, i: int, draw: NodeDraw) -> Brood {
    let node = e.nodes[i];
    let kept = Brood { nodes: b.nodes.push(carried(e.resources, e.params, node)), ..b };
    after_branch(e, after_extend(e, kept, node, draw, i + 1), node, draw, i + 1)
}

/// The brood after the first `n` nodes of the population were visited.
pub open spec fn brood_after(e: EngineState, draws: Seq<NodeDraw>, n: nat) -> Brood
    decreases n,
{
    if n == 0 {
        Brood { nodes: Seq::empty(), next_id: e.next_id }
    } else {
        visited(e, brood_after(e, draws, (n - 1) as nat), n - 1, draws[n - 1])
    }
}

/// The state after one tick with `draws`, one for each node: the counter
/// is one higher, the population is the brood of all nodes, and the index
/// lists its children.
pub open spec fn ticked(e: EngineState, draws: Seq<NodeDraw>) -> EngineState {
    let b = brood_after(e, draws, e.nodes.len());
    EngineState {
        nodes: b.nodes,
        paths: children_index(b.nodes),
        time: (e.time + 1) as i32,
        next_id: b.next_id,
        ..e
    }
}

} // verus!
