//! The growth policy: the two ways in which a node produces a child.
//!
//! A node extends along its direction of attention, and branches sideways
//! at an angle that the caller draws. Each is open to a node only while it
//! is young and coherent enough.

use vstd::prelude::*;
use crate::attention::{attention, compute_attention};
use crate::field::{calculate_energy, energy_at, HALF_RAW, MAX_ENERGY_RAW, MIN_ENERGY_RAW};
use crate::node::{PlantNode, ResourcePoint};
use crate::params::EngineParams;
use crate::scalar::Scalar;
use crate::vector::Vector2D;

verus! {

/// A node extends only while its coherence is above this: 0.1.
pub const EXTEND_COHERENCE_RAW: i64 = 100_000_000;

/// A node extends only while its age is below this.
pub const EXTEND_AGE: i32 = 20;

/// A node branches only while its coherence is above this: 0.2.
pub const BRANCH_COHERENCE_RAW: i64 = 200_000_000;

/// A node branches only while its age is below this.
pub const BRANCH_AGE: i32 = 5;

/// Share of a parent's coherence that an extension keeps: 0.9.
pub const EXTEND_KEEP_RAW: i64 = 900_000_000;

/// Share of the parent's coherence and distortion, and of the energy at
/// its place, that a branch gets: 0.8.
pub const BRANCH_KEEP_RAW: i64 = 800_000_000;

/// Temporal complexity that a branch adds to its parent's: 0.1.
pub const BRANCH_TEMPORAL_RAW: i64 = 100_000_000;

/// Spatial complexity that a branch adds to its parent's: 0.2.
pub const BRANCH_SPATIAL_RAW: i64 = 200_000_000;

/// Part of a branch's step that does not depend on energy: 0.3.
pub const BRANCH_STEP_BASE_RAW: i64 = 300_000_000;

/// Part of a branch's step in proportion to energy: 0.7.
pub const BRANCH_STEP_GAIN_RAW: i64 = 700_000_000;

/// The rectangle in which nodes are placed: `[0, width] x [0, height]`.
#[derive(Clone, Copy, Debug, PartialEq, Eq, Structural)]
pub struct Domain {
    pub width: Scalar,
    pub height: Scalar,
}

impl Domain {
    /// `pos` with each coordinate moved into the rectangle.
    pub open spec fn place_spec(self, pos: Vector2D) -> Vector2D {
        Vector2D {
            x: pos.x.clamp(Scalar::zero(), self.width),
            y: pos.y.clamp(Scalar::zero(), self.height),
        }
    }

    /// Whether `pos` lies in the rectangle.
    pub open spec fn holds(self, pos: Vector2D) -> bool {
        0 <= pos.x@ <= self.width@ && 0 <= pos.y@ <= self.height@
    }

    /// `pos` with each coordinate moved into the rectangle.
    #[verifier::when_used_as_spec(place_spec)]
    pub fn place(self, pos: Vector2D) -> (r: Vector2D)
        ensures
            r == self.place_spec(pos),
            self.width@ >= 0 && self.height@ >= 0 ==> self.holds(r),
            self.holds(pos) ==> r == pos,
    {
        Vector2D {
            x: pos.x.clamp(Scalar::zero(), self.width),
            y: pos.y.clamp(Scalar::zero(), self.height),
        }
    }
}

/// Whether `node` is young and coherent enough to extend.
pub open spec fn can_extend(node: PlantNode) -> bool {
    node.coherence.gt(Scalar::from_raw(EXTEND_COHERENCE_RAW)) && node.age < EXTEND_AGE
}

/// Whether `node` is young and coherent enough to branch.
pub open spec fn can_branch(node: PlantNode) -> bool {
    node.coherence.gt(Scalar::from_raw(BRANCH_COHERENCE_RAW)) && node.age < BRANCH_AGE
}

/// The length of an extension at unit attention:
/// `growth_rate * (0.5 + energy)`.
pub open spec fn extend_step(node: PlantNode, params: EngineParams) -> Scalar {
    params.growth_rate.mul(Scalar::from_raw(HALF_RAW).add(node.energy))
}

/// The length of a branch: `growth_rate * (0.3 + 0.7 * energy)`.
pub open spec fn branch_step(node: PlantNode, params: EngineParams) -> Scalar {
    params.growth_rate.mul(
        Scalar::from_raw(BRANCH_STEP_BASE_RAW).add(
            node.energy.mul(Scalar::from_raw(BRANCH_STEP_GAIN_RAW)),
        ),
    )
}

/// Where an extension of `node` would stand if the domain had no bounds.
pub open spec fn extend_target(
    resources: Seq<ResourcePoint>,
    params: EngineParams,
    node: PlantNode,
) -> Vector2D {
    node.position.add(attention(resources, node, params).mul(extend_step(node, params)))
}

/// Where a branch of `node` at `angle` would stand if the domain had no
/// bounds.
pub open spec fn branch_target(params: EngineParams, node: PlantNode, angle: Scalar)
    -> Vector2D {
    node.position.add(Vector2D::from_angle(angle).mul(branch_step(node, params)))
}

/// The child by which `node` extends, named `id`.
pub open spec fn extension(
    resources: Seq<ResourcePoint>,
    params: EngineParams,
    domain: Domain,
    node: PlantNode,
    id: usize,
) -> PlantNode {
    let position = domain.place(extend_target(resources, params, node));
    PlantNode {
        id,
        position,
        energy: energy_at(resources, params.max_energy_distance, position),
        coherence: node.coherence.mul(Scalar::from_raw(EXTEND_KEEP_RAW)).max(
            Scalar::from_raw(HALF_RAW),
        ),
        distortion: node.distortion.mul(Scalar::from_raw(HALF_RAW)),
        temporal_complexity: Scalar::zero(),
        spatial_complexity: Scalar::from_raw(HALF_RAW),
        parent: Some(node.id),
        age: 0,
        c_t: node.c_t.add(node.position),
    }
}

/// The child by which `node` branches at `angle`, named `id`.
pub open spec fn offshoot(
    resources: Seq<ResourcePoint>,
    params: EngineParams,
    domain: Domain,
    node: PlantNode,
    id: usize,
    angle: Scalar,
) -> PlantNode {
    let position = domain.place(branch_target(params, node, angle));
    PlantNode {
        id,
        position,
        energy: energy_at(resources, params.max_energy_distance, position).mul(
            Scalar::from_raw(BRANCH_KEEP_RAW),
        ),
        coherence: node.coherence.mul(Scalar::from_raw(BRANCH_KEEP_RAW)),
        distortion: node.distortion.mul(Scalar::from_raw(BRANCH_KEEP_RAW)),
        temporal_complexity: node.temporal_complexity.add(Scalar::from_raw(BRANCH_TEMPORAL_RAW)),
        spatial_complexity: node.spatial_complexity.add(Scalar::from_raw(BRANCH_SPATIAL_RAW)),
        parent: Some(node.id),
        age: 0,
        c_t: node.c_t.add(node.position),
    }
}

/// The extension of `node`, if it may extend.
pub open spec fn extend_child(
    resources: Seq<ResourcePoint>,
    params: EngineParams,
    domain: Domain,
    node: PlantNode,
    id: usize,
) -> Option<PlantNode> {
    if can_extend(node) {
        Some(extension(resources, params, domain, node, id))
    } else {
        None
    }
}

/// The branch of `node` at `angle`, if it may branch.
pub open spec fn branch_child(
    resources: Seq<ResourcePoint>,
    params: EngineParams,
    domain: Domain,
    node: PlantNode,
    id: usize,
    angle: Scalar,
) -> Option<PlantNode> {
    if can_branch(node) {
        Some(offshoot(resources, params, domain, node, id, angle))
    } else {
        None
    }
}

/// The child by which `node` extends, named `id`: none where the node's
/// coherence is 0.1 or less or its age 20 or more.
pub fn grow_node(
    resources: &Vec<ResourcePoint>,
    params: &EngineParams,
    domain: Domain,
    node: &PlantNode,
    id: usize,
) -> (child: Option<PlantNode>)
    ensures
        child == extend_child(resources@, *params, domain, *node, id),
        child.is_none() <==> (node.coherence@ <= EXTEND_COHERENCE_RAW || node.age >= EXTEND_AGE),
        child matches Some(c) ==> {
            &&& c.id == id
            &&& c.parent == Some(node.id)
            &&& c.age == 0
            &&& MIN_ENERGY_RAW <= c.energy@ <= MAX_ENERGY_RAW
            &&& (domain.width@ >= 0 && domain.height@ >= 0 ==> domain.holds(c.position))
        },
{
    if node.coherence.le(Scalar::from_raw(EXTEND_COHERENCE_RAW)) || node.age >= EXTEND_AGE {
        return None;
    }
    let direction = compute_attention(resources, params, node);
    let growth = params.growth_rate.mul(Scalar::from_raw(HALF_RAW).add(node.energy));
    let position = domain.place(node.position.add(direction.mul(growth)));
    Some(
        PlantNode {
            id,
            position,
            energy: calculate_energy(resources, params.max_energy_distance, position),
            coherence: node.coherence.mul(Scalar::from_raw(EXTEND_KEEP_RAW)).max(
                Scalar::from_raw(HALF_RAW),
            ),
            distortion: node.distortion.mul(Scalar::from_raw(HALF_RAW)),
            temporal_complexity: Scalar::zero(),
            spatial_complexity: Scalar::from_raw(HALF_RAW),
            parent: Some(node.id),
            age: 0,
            c_t: node.c_t.add(node.position),
        },
    )
}

/// The child by which `node` branches at `angle` radians, named `id`: none
/// where the node's coherence is 0.2 or less or its age 5 or more.
pub fn branch_from_node(
    resources: &Vec<ResourcePoint>,
    params: &EngineParams,
    domain: Domain,
    node: &PlantNode,
    id: usize,
    angle: Scalar,
) -> (child: Option<PlantNode>)
    ensures
        child == branch_child(resources@, *params, domain, *node, id, angle),
        child.is_none() <==> (node.coherence@ <= BRANCH_COHERENCE_RAW || node.age >= BRANCH_AGE),
        child matches Some(c) ==> {
            &&& c.id == id
            &&& c.parent == Some(node.id)
            &&& c.age == 0
            &&& (domain.width@ >= 0 && domain.height@ >= 0 ==> domain.holds(c.position))
        },
{
    if node.coherence.le(Scalar::from_raw(BRANCH_COHERENCE_RAW)) || node.age >= BRANCH_AGE {
        return None;
    }
    let direction = Vector2D::from_angle(angle);
    let growth = params.growth_rate.mul(
        Scalar::from_raw(BRANCH_STEP_BASE_RAW).add(
            node.energy.mul(Scalar::from_raw(BRANCH_STEP_GAIN_RAW)),
        ),
    );
    let position = domain.place(node.position.add(direction.mul(growth)));
    Some(
        PlantNode {
            id,
            position,
            energy: calculate_energy(resources, params.max_energy_distance, position).mul(
                Scalar::from_raw(BRANCH_KEEP_RAW),
            ),
            coherence: node.coherence.mul(Scalar::from_raw(BRANCH_KEEP_RAW)),
            distortion: node.distortion.mul(Scalar::from_raw(BRANCH_KEEP_RAW)),
            temporal_complexity: node.temporal_complexity.add(
                Scalar::from_raw(BRANCH_TEMPORAL_RAW),
            ),
            spatial_complexity: node.spatial_complexity.add(Scalar::from_raw(BRANCH_SPATIAL_RAW)),
            parent: Some(node.id),
            age: 0,
            c_t: node.c_t.add(node.position),
        },
    )
}

} // verus!
