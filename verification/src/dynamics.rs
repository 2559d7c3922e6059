//! The coherence dynamics: how a node's state evolves in one tick, and the
//! reset of a node whose distortion passes the critical threshold.

use vstd::prelude::*;
use crate::field::{spatial_complexity, spatial_complexity_at};
use crate::node::{PlantNode, ResourcePoint};
use crate::params::EngineParams;
use crate::scalar::{Scalar, ONE_RAW};

verus! {

/// Coherence of a node that was just reset: 0.1.
pub const RESET_COHERENCE_RAW: i64 = 100_000_000;

/// The change of coherence in one tick:
/// `-alpha * (distortion / (coherence + epsilon) + s)`,
/// with `s` the spatial complexity.
pub open spec fn coherence_rate(node: PlantNode, params: EngineParams, s: Scalar) -> Scalar {
    params.alpha.neg().mul(node.distortion.div(node.coherence.add(params.epsilon)).add(s))
}

/// The node after the smooth part of a tick, with `s` its new spatial
/// complexity and `dh` the change of coherence:
/// distortion grows by `beta * ln(1 + |dh| * energy)`,
/// temporal complexity by `beta * tanh(|dh| * energy) * sign(coherence)`,
/// coherence by `dh`; then coherence is kept within `[0, 1]` and the other
/// two at or above zero.
pub open spec fn evolved(node: PlantNode, params: EngineParams, s: Scalar) -> PlantNode {
    let dh = coherence_rate(node, params, s);
    let drive = dh.abs().mul(node.energy);
    PlantNode {
        distortion: node.distortion.add(params.beta.mul(Scalar::one().add(drive).ln())).max(
            Scalar::zero(),
        ),
        temporal_complexity: node.temporal_complexity.add(
            params.beta.mul(drive.tanh()).mul(node.coherence.signum()),
        ).max(Scalar::zero()),
        coherence: node.coherence.add(dh).max(Scalar::zero()).min(Scalar::one()),
        spatial_complexity: s,
        ..node
    }
}

/// Whether the node's distortion is above the critical threshold.
pub open spec fn is_singular(node: PlantNode, params: EngineParams) -> bool {
    node.distortion.gt(params.d_critical)
}

/// The node after a reset: coherence 0.1, no distortion, and temporal
/// complexity `energy * ln(|c_t| + epsilon)`.
pub open spec fn collapsed(node: PlantNode, params: EngineParams) -> PlantNode {
    PlantNode {
        coherence: Scalar::from_raw(RESET_COHERENCE_RAW),
        distortion: Scalar::zero(),
        temporal_complexity: node.energy.mul(node.c_t.magnitude().add(params.epsilon).ln()),
        ..node
    }
}

/// The node reset where it is singular, unchanged where it is not.
pub open spec fn settled(node: PlantNode, params: EngineParams) -> PlantNode {
    if is_singular(node, params) {
        collapsed(node, params)
    } else {
        node
    }
}

/// The node after one tick of its dynamics among `resources`.
pub open spec fn advanced(resources: Seq<ResourcePoint>, params: EngineParams, node: PlantNode)
    -> PlantNode {
    settled(
        evolved(
            node,
            params,
            spatial_complexity_at(resources, params.max_energy_distance, node.position),
        ),
        params,
    )
}

/// Whether the tick of `node` among `resources` ends in a reset.
pub open spec fn resets(resources: Seq<ResourcePoint>, params: EngineParams, node: PlantNode)
    -> bool {
    is_singular(
        evolved(
            node,
            params,
            spatial_complexity_at(resources, params.max_energy_distance, node.position),
        ),
        params,
    )
}

/// Advances the state of `node` by one tick.
///
/// Identity, position, energy, parent, age and time trace are kept.
/// Afterwards coherence lies in `[0, 1]` and distortion is not negative.
/// A node that is reset has coherence 0.1 and distortion zero exactly; any
/// other has a temporal complexity that is not negative.
pub fn update_node_properties(
    resources: &Vec<ResourcePoint>,
    params: &EngineParams,
    node: &mut PlantNode,
)
    ensures
        *final(node) == advanced(resources@, *params, *old(node)),
        final(node).id == old(node).id,
        final(node).position == old(node).position,
        final(node).energy == old(node).energy,
        final(node).parent == old(node).parent,
        final(node).age == old(node).age,
        final(node).c_t == old(node).c_t,
        0 <= final(node).coherence@ <= ONE_RAW,
        final(node).distortion@ >= 0,
        resets(resources@, *params, *old(node)) ==> final(node).coherence@ == RESET_COHERENCE_RAW
            && final(node).distortion@ == 0,
        !resets(resources@, *params, *old(node)) ==> final(node).temporal_complexity@ >= 0,
{
    let s = spatial_complexity(resources, params.max_energy_distance, node.position);
    let dh = params.alpha.neg().mul(node.distortion.div(node.coherence.add(params.epsilon)).add(s));
    let drive = dh.abs().mul(node.energy);
    let distortion = node.distortion.add(params.beta.mul(Scalar::one().add(drive).ln())).max(
        Scalar::zero(),
    );
    let temporal = node.temporal_complexity.add(
        params.beta.mul(drive.tanh()).mul(node.coherence.signum()),
    ).max(Scalar::zero());
    let coherence = node.coherence.add(dh).max(Scalar::zero()).min(Scalar::one());
    node.distortion = distortion;
    node.temporal_complexity = temporal;
    node.coherence = coherence;
    node.spatial_complexity = s;
    if node.distortion.gt(params.d_critical) {
        node.coherence = Scalar::from_raw(RESET_COHERENCE_RAW);
        node.distortion = Scalar::zero();
        node.temporal_complexity = node.energy.mul(
            node.c_t.magnitude().add(params.epsilon).ln(),
        );
    }
}

} // verus!
