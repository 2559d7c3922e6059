//! The configuration of the growth engine.

use vstd::prelude::*;
use crate::scalar::Scalar;

verus! {

/// The parameters that one tick of the engine reads.
#[derive(Clone, Copy, Debug, PartialEq, Eq, Structural)]
pub struct EngineParams {
    /// Rate at which coherence decays.
    pub alpha: Scalar,
    /// Rate at which distortion and temporal complexity grow.
    pub beta: Scalar,
    /// Floor of every denominator that could vanish.
    pub epsilon: Scalar,
    /// Distortion above which a node is reset.
    pub d_critical: Scalar,
    /// Decay of attention with distance.
    pub lambda: Scalar,
    /// Length of a growth step at unit weight.
    pub growth_rate: Scalar,
    /// Probability that a node tries to extend in a tick.
    pub growth_prob: Scalar,
    /// Probability that a node tries to branch in a tick.
    pub branch_prob: Scalar,
    /// Population above which no child is produced.
    pub max_nodes: usize,
    /// Energy of a seed.
    pub initial_energy: Scalar,
    /// Distance beyond which a light gives no energy.
    pub max_energy_distance: Scalar,
}

impl EngineParams {
    /// The documented defaults: alpha 0.2, beta 0.3, epsilon one billionth,
    /// critical distortion 15, lambda 0.5, growth rate 5, growth
    /// probability 0.3, branch probability 0.1, at most 500 nodes, initial
    /// energy 1, lights reach 200.
    pub open spec fn default_spec() -> EngineParams {
        EngineParams {
            alpha: Scalar { raw: 200_000_000 },
            beta: Scalar { raw: 300_000_000 },
            epsilon: Scalar { raw: 1 },
            d_critical: Scalar { raw: 15_000_000_000 },
            lambda: Scalar { raw: 500_000_000 },
            growth_rate: Scalar { raw: 5_000_000_000 },
            growth_prob: Scalar { raw: 300_000_000 },
            branch_prob: Scalar { raw: 100_000_000 },
            max_nodes: 500,
            initial_energy: Scalar { raw: 1_000_000_000 },
            max_energy_distance: Scalar { raw: 200_000_000_000 },
        }
    }
}

impl Default for EngineParams {
    fn default() -> (r: EngineParams)
        ensures
            r == EngineParams::default_spec(),
    {
        EngineParams {
            alpha: Scalar { raw: 200_000_000 },
            beta: Scalar { raw: 300_000_000 },
            epsilon: Scalar { raw: 1 },
            d_critical: Scalar { raw: 15_000_000_000 },
            lambda: Scalar { raw: 500_000_000 },
            growth_rate: Scalar { raw: 5_000_000_000 },
            growth_prob: Scalar { raw: 300_000_000 },
            branch_prob: Scalar { raw: 100_000_000 },
            max_nodes: 500,
            initial_energy: Scalar { raw: 1_000_000_000 },
            max_energy_distance: Scalar { raw: 200_000_000_000 },
        }
    }
}

} // verus!
