//! The growth engine: the population, the resources, and the tick that
//! turns one generation into the next.

use rand::rngs::StdRng;
use std::collections::HashMap;
use vstd::prelude::*;
use crate::attention::{attention, compute_attention};
use crate::chance::{draw_for_all, seeded_generator};
use crate::dynamics::{advanced, update_node_properties};
use crate::field::{calculate_energy, energy_at, HALF_RAW, MAX_ENERGY_RAW, MIN_ENERGY_RAW};
use crate::growth::{branch_child, branch_from_node, extend_child, grow_node, Domain};
use crate::lineage::{children_index, group_by_parent, index_of};
use crate::node::{PlantNode, ResourceKind, ResourcePoint};
use crate::params::EngineParams;
use crate::scalar::Scalar;
use crate::laws::{lemma_population_cap, lemma_tick_keeps_order};
use crate::tick::{brood_after, carried, ticked, visited, Brood, EngineState, NodeDraw};
use crate::vector::Vector2D;

verus! {

/// The growth engine. It owns its whole state; only `initialize_plant`,
/// `add_resource`, `update_params`, `reseed` and the two forms of the tick
/// change it.
pub struct CSpaceEngine {
    pub width: Scalar,
    pub height: Scalar,
    nodes: Vec<PlantNode>,
    resources: Vec<ResourcePoint>,
    paths: HashMap<usize, Vec<PlantNode>>,
    time: i32,
    params: EngineParams,
    next_id: usize,
    generator_seed: u64,
    generator: StdRng,
}

impl View for CSpaceEngine {
    type V = EngineState;

    closed spec fn view(&self) -> EngineState {
        EngineState {
            domain: Domain { width: self.width, height: self.height },
            nodes: self.nodes@,
            resources: self.resources@,
            paths: index_of(self.paths),
            time: self.time,
            params: self.params,
            next_id: self.next_id,
            generator_seed: self.generator_seed,
        }
    }
}

impl CSpaceEngine {
    /// An engine for a domain of the given size with the default
    /// parameters: no node, no resource, no tick made, the generator
    /// started from zero.
    pub fn new(width: Scalar, height: Scalar) -> (engine: CSpaceEngine)
        ensures
            engine@ == (EngineState {
                domain: Domain { width, height },
                nodes: Seq::empty(),
                resources: Seq::empty(),
                paths: Map::empty(),
                time: 0,
                params: EngineParams::default_spec(),
                next_id: 0,
                generator_seed: 0,
            }),
            engine@.wf(),
    {
        CSpaceEngine::new_with_params(width, height, EngineParams::default())
    }

    /// An engine for a domain of the given size with the given parameters:
    /// no node, no resource, no tick made, the generator started from zero.
    pub fn new_with_params(width: Scalar, height: Scalar, params: EngineParams) -> (engine:
        CSpaceEngine)
        ensures
            engine@ == (EngineState {
                domain: Domain { width, height },
                nodes: Seq::empty(),
                resources: Seq::empty(),
                paths: Map::empty(),
                time: 0,
                params,
                next_id: 0,
                generator_seed: 0,
            }),
            engine@.wf(),
    {
        let engine = CSpaceEngine {
            width,
            height,
            nodes: Vec::new(),
            resources: Vec::new(),
            paths: HashMap::new(),
            time: 0,
            params,
            next_id: 0,
            generator_seed: 0,
            generator: seeded_generator(0),
        };
        proof {
            assert(index_of(engine.paths) =~= Map::empty());
            assert(children_index(Seq::<PlantNode>::empty()) =~= Map::empty());
        }
        engine
    }

    /// The seed that `initialize_plant` plants: identifier zero, full
    /// coherence, no distortion, no parent, age zero.
    pub open spec fn seed_spec(start_pos: (Scalar, Scalar), initial_energy: Scalar) -> PlantNode {
        PlantNode {
            id: 0,
            position: Vector2D::new(start_pos.0, start_pos.1),
            energy: initial_energy,
            coherence: Scalar::one(),
            distortion: Scalar::zero(),
            temporal_complexity: Scalar::zero(),
            spatial_complexity: Scalar::from_raw(HALF_RAW),
            parent: None,
            age: 0,
            c_t: Vector2D::new(Scalar::zero(), Scalar::zero()),
        }
    }

    /// Replaces the population by a single seed at `start_pos` and empties
    /// the index. Identifiers start again at zero; resources, parameters
    /// and the tick counter stay.
    pub fn initialize_plant(&mut self, start_pos: (Scalar, Scalar), initial_energy: Scalar)
        requires
            old(self)@.wf(),
        ensures
            final(self)@ == (EngineState {
                nodes: seq![CSpaceEngine::seed_spec(start_pos, initial_energy)],
                paths: Map::empty(),
                next_id: 1,
                ..old(self)@
            }),
            final(self)@.wf(),
    {
        let seed = PlantNode {
            id: 0,
            position: Vector2D::new(start_pos.0, start_pos.1),
            energy: initial_energy,
            coherence: Scalar::one(),
            distortion: Scalar::zero(),
            temporal_complexity: Scalar::zero(),
            spatial_complexity: Scalar::from_raw(HALF_RAW),
            parent: None,
            age: 0,
            c_t: Vector2D::new(Scalar::zero(), Scalar::zero()),
        };
        let mut nodes: Vec<PlantNode> = Vec::new();
        nodes.push(seed);
        self.nodes = nodes;
        self.next_id = 1;
        self.paths.clear();
        proof {
            let s = seq![CSpaceEngine::seed_spec(start_pos, initial_energy)];
            assert(self.nodes@ =~= s);
            assert(index_of(self.paths) =~= Map::empty());
            assert(s.drop_last() =~= Seq::<PlantNode>::empty());
            assert forall|p: usize| (#[trigger] crate::lineage::children_of(s, p)).len() == 0 by {
                assert(crate::lineage::children_of(s.drop_last(), p).len() == 0);
            }
            assert(children_index(s) =~= Map::empty());
        }
    }

    /// Appends a resource; nothing else changes.
    pub fn add_resource(&mut self, pos: (Scalar, Scalar), intensity: Scalar, kind: ResourceKind)
        ensures
            final(self)@ == (EngineState {
                resources: old(self)@.resources.push(
                    ResourcePoint { position: Vector2D::new(pos.0, pos.1), intensity, kind },
                ),
                ..old(self)@
            }),
    {
        self.resources.push(
            ResourcePoint { position: Vector2D::new(pos.0, pos.1), intensity, kind },
        );
    }

    /// Restarts the generator of the draws from `seed` and records the
    /// seed, so that the draws of later ticks are those of a generator
    /// started from it; the population, the resources, the index, the tick
    /// counter and the parameters stay.
    pub fn reseed(&mut self, seed: u64)
        ensures
            final(self)@ == (EngineState { generator_seed: seed, ..old(self)@ }),
    {
        self.generator = seeded_generator(seed);
        self.generator_seed = seed;
    }

    /// Replaces the parameters; nothing else changes.
    pub fn update_params(&mut self, params: EngineParams)
        ensures
            final(self)@ == (EngineState { params, ..old(self)@ }),
    {
        self.params = params;
    }

    /// The energy available at `pos`.
    pub fn calculate_energy(&self, pos: Vector2D) -> (e: Scalar)
        ensures
            e == energy_at(self@.resources, self@.params.max_energy_distance, pos),
            MIN_ENERGY_RAW <= e@ <= MAX_ENERGY_RAW,
    {
        calculate_energy(&self.resources, self.params.max_energy_distance, pos)
    }

    /// The direction of attention of `node`.
    pub fn compute_attention(&self, node: &PlantNode) -> (d: Vector2D)
        ensures
            d == attention(self@.resources, *node, self@.params),
    {
        compute_attention(&self.resources, &self.params, node)
    }

    /// The child by which `node` would extend now, under the next
    /// identifier; the engine is not changed.
    pub fn grow_node(&self, node: &PlantNode) -> (child: Option<PlantNode>)
        ensures
            child == extend_child(
                self@.resources,
                self@.params,
                self@.domain,
                *node,
                self@.next_id,
            ),
    {
        grow_node(
            &self.resources,
            &self.params,
            Domain { width: self.width, height: self.height },
            node,
            self.next_id,
        )
    }

    /// The child by which `node` would branch now at `angle`, under the
    /// next identifier; the engine is not changed.
    pub fn branch_from_node(&self, node: &PlantNode, angle: Scalar) -> (child: Option<PlantNode>)
        ensures
            child == branch_child(
                self@.resources,
                self@.params,
                self@.domain,
                *node,
                self@.next_id,
                angle,
            ),
    {
        branch_from_node(
            &self.resources,
            &self.params,
            Domain { width: self.width, height: self.height },
            node,
            self.next_id,
            angle,
        )
    }

    /// Advances the state of `node` by one tick among the engine's
    /// resources; the engine is not changed.
    pub fn update_node_properties(&self, node: &mut PlantNode)
        ensures
            *final(node) == advanced(self@.resources, self@.params, *old(node)),
    {
        update_node_properties(&self.resources, &self.params, node);
    }

    /// One tick with the numbers in `draws`, one for each node in the
    /// order of the population.
    ///
    /// Every node is carried over: one tick older, with the energy of its
    /// place, its dynamics advanced. After each node come the children
    /// that it produces: an extension if its first number is below the
    /// growth probability, then a branch if its second number is below the
    /// branch probability, each only while the population and the children
    /// of this tick together are below the cap. The children are made from
    /// the node as it was before the tick, and each gets the next unused
    /// identifier.
    pub fn update_with(&mut self, draws: &Vec<NodeDraw>)
        requires
            old(self)@.wf(),
            old(self)@.time < i32::MAX,
            draws.len() == old(self)@.nodes.len(),
        ensures
            final(self)@ == ticked(old(self)@, draws@),
            final(self)@.wf(),
            final(self)@.time == old(self)@.time + 1,
            final(self)@.nodes.len() >= old(self)@.nodes.len(),
            final(self)@.nodes.len() == old(self)@.nodes.len() || final(self)@.nodes.len()
                <= old(self)@.params.max_nodes,
    {
        let ghost e = self@;
        let count = self.nodes.len();
        let domain = Domain { width: self.width, height: self.height };
        let mut next: Vec<PlantNode> = Vec::new();
        let mut next_id: usize = self.next_id;
        let mut i: usize = 0;
        while i < count
            invariant
                0 <= i <= count,
                count == e.nodes.len(),
                draws.len() == count,
                e.wf(),
                e.time < i32::MAX,
                self@ == e,
                domain == e.domain,
                next.len() >= i,
                (Brood { nodes: next@, next_id }) == brood_after(e, draws@, i as nat),
            decreases count - i,
        {
            let node = self.nodes[i];
            let draw = draws[i];
            let ghost before = Brood { nodes: next@, next_id };
            let mut kept = node;
            kept.energy =
            calculate_energy(&self.resources, self.params.max_energy_distance, node.position);
            kept.age = kept.age + 1;
            update_node_properties(&self.resources, &self.params, &mut kept);
            next.push(kept);
            assert(kept == carried(e.resources, e.params, e.nodes[i as int]));
            if draw.growth.lt(self.params.growth_prob) && count < self.params.max_nodes
                && next.len() - (i + 1) < self.params.max_nodes - count && next_id
                < usize::MAX {
                match grow_node(&self.resources, &self.params, domain, &node, next_id) {
                    Some(child) => {
                        next.push(child);
                        next_id = next_id + 1;
                    },
                    None => {},
                }
            }
            if draw.branch.lt(self.params.branch_prob) && count < self.params.max_nodes
                && next.len() - (i + 1) < self.params.max_nodes - count && next_id
                < usize::MAX {
                match branch_from_node(
                    &self.resources,
                    &self.params,
                    domain,
                    &node,
                    next_id,
                    draw.angle,
                ) {
                    Some(child) => {
                        next.push(child);
                        next_id = next_id + 1;
                    },
                    None => {},
                }
            }
            assert((Brood { nodes: next@, next_id }) == visited(e, before, i as int, draw));
            i = i + 1;
        }
        proof {
            lemma_tick_keeps_order(e, draws@);
            lemma_population_cap(e, draws@);
        }
        self.time = self.time + 1;
        self.nodes = next;
        self.next_id = next_id;
        self.paths = group_by_parent(&self.nodes);
        assert(self@ == ticked(e, draws@));
    }

    /// One tick with numbers drawn from the engine's generator.
    ///
    /// What the tick does with the numbers is what `update_with` does;
    /// which numbers were drawn is not known, only that each lies in its
    /// range.
    pub fn update(&mut self)
        requires
            old(self)@.wf(),
            old(self)@.time < i32::MAX,
        ensures
            exists|draws: Seq<NodeDraw>|
                {
                    &&& draws.len() == old(self)@.nodes.len()
                    &&& forall|i: int| 0 <= i < draws.len() ==> (#[trigger] draws[i]).in_range()
                    &&& final(self)@ == #[trigger] ticked(old(self)@, draws)
                },
            final(self)@.wf(),
            final(self)@.time == old(self)@.time + 1,
            final(self)@.nodes.len() >= old(self)@.nodes.len(),
            final(self)@.nodes.len() == old(self)@.nodes.len() || final(self)@.nodes.len()
                <= old(self)@.params.max_nodes,
    {
        let draws = draw_for_all(&mut self.generator, self.nodes.len());
        self.update_with(&draws);
    }

    /// The population.
    pub fn get_nodes(&self) -> (nodes: &Vec<PlantNode>)
        ensures
            nodes@ == self@.nodes,
    {
        &self.nodes
    }

    /// The resources, in the order in which they were added.
    pub fn get_resources(&self) -> (resources: &Vec<ResourcePoint>)
        ensures
            resources@ == self@.resources,
    {
        &self.resources
    }

    /// The index from a parent's identifier to its children.
    pub fn get_paths(&self) -> (paths: &HashMap<usize, Vec<PlantNode>>)
        ensures
            index_of(*paths) == self@.paths,
    {
        &self.paths
    }

    /// The number of ticks made.
    pub fn get_time(&self) -> (time: i32)
        ensures
            time == self@.time,
    {
        self.time
    }

    /// The number from which the generator of the draws was last started;
    /// zero for an engine that was never reseeded.
    pub fn get_generator_seed(&self) -> (seed: u64)
        ensures
            seed == self@.generator_seed,
    {
        self.generator_seed
    }

    /// The parameters in force.
    pub fn get_params(&self) -> (params: &EngineParams)
        ensures
            *params == self@.params,
    {
        &self.params
    }
}

} // verus!
