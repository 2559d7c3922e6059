//! Setting up a simulation: the parameters that a user edits, their
//! validation, and the engine that they give.

use rand::rngs::StdRng;
use vstd::prelude::*;
use crate::chance::{draw_below, seeded_generator};
use crate::engine::CSpaceEngine;
use crate::growth::Domain;
use crate::node::{ResourceKind, ResourcePoint};
use crate::params::EngineParams;
use crate::scalar::Scalar;
use crate::tick::EngineState;
use crate::vector::Vector2D;

verus! {

/// Everything that a user can set before a simulation starts.
#[derive(Clone, Copy, Debug, PartialEq, Eq, Structural)]
pub struct SimulationParams {
    pub alpha: Scalar,
    pub beta: Scalar,
    pub epsilon: Scalar,
    pub d_critical: Scalar,
    pub lambda: Scalar,
    pub growth_rate: Scalar,
    pub growth_prob: Scalar,
    pub branch_prob: Scalar,
    pub max_nodes: usize,
    pub initial_energy: Scalar,
    pub width: Scalar,
    pub height: Scalar,
    pub max_energy_distance: Scalar,
    pub num_light_sources: usize,
    pub light_intensity: Scalar,
}

impl SimulationParams {
    /// The defaults: those of the engine, a domain of 800 by 600, and
    /// three lights of intensity one.
    pub open spec fn default_spec() -> SimulationParams {
        SimulationParams {
            alpha: Scalar { raw: 200_000_000 },
            beta: Scalar { raw: 300_000_000 },
            epsilon: Scalar { raw: 1 },
            d_critical: Scalar { raw: 15_000_000_000 },
            lambda: Scalar { raw: 500_000_000 },
            growth_rate: Scalar { raw: 5_000_000_000 },
            growth_prob: Scalar { raw: 300_000_000 },
            branch_prob: Scalar { raw: 100_000_000 },
            max_nodes: 500,
            initial_energy: Scalar { raw: 1_000_000_000 },
            width: Scalar { raw: 800_000_000_000 },
            height: Scalar { raw: 600_000_000_000 },
            max_energy_distance: Scalar { raw: 200_000_000_000 },
            num_light_sources: 3,
            light_intensity: Scalar { raw: 1_000_000_000 },
        }
    }

    /// The part that the engine reads.
    pub open spec fn engine_params_spec(self) -> EngineParams {
        EngineParams {
            alpha: self.alpha,
            beta: self.beta,
            epsilon: self.epsilon,
            d_critical: self.d_critical,
            lambda: self.lambda,
            growth_rate: self.growth_rate,
            growth_prob: self.growth_prob,
            branch_prob: self.branch_prob,
            max_nodes: self.max_nodes,
            initial_energy: self.initial_energy,
            max_energy_distance: self.max_energy_distance,
        }
    }

    /// Whether a simulation can start from these parameters: the rates,
    /// epsilon, the critical distortion, the sizes and the reach of light
    /// are positive, the two probabilities lie in `[0, 1]`, and at least
    /// one node is allowed.
    pub open spec fn valid(self) -> bool {
        &&& self.alpha@ > 0
        &&& self.beta@ > 0
        &&& self.epsilon@ > 0
        &&& self.d_critical@ > 0
        &&& self.growth_rate@ > 0
        &&& 0 <= self.growth_prob@ <= crate::scalar::ONE_RAW
        &&& 0 <= self.branch_prob@ <= crate::scalar::ONE_RAW
        &&& self.max_nodes > 0
        &&& self.width@ > 0
        &&& self.height@ > 0
        &&& self.max_energy_distance@ > 0
    }

    /// The part that the engine reads.
    #[verifier::when_used_as_spec(engine_params_spec)]
    pub fn engine_params(self) -> (p: EngineParams)
        ensures
            p == self.engine_params_spec(),
    {
        EngineParams {
            alpha: self.alpha,
            beta: self.beta,
            epsilon: self.epsilon,
            d_critical: self.d_critical,
            lambda: self.lambda,
            growth_rate: self.growth_rate,
            growth_prob: self.growth_prob,
            branch_prob: self.branch_prob,
            max_nodes: self.max_nodes,
            initial_energy: self.initial_energy,
            max_energy_distance: self.max_energy_distance,
        }
    }
}

impl Default for SimulationParams {
    fn default() -> (r: SimulationParams)
        ensures
            r == SimulationParams::default_spec(),
    {
        SimulationParams {
            alpha: Scalar { raw: 200_000_000 },
            beta: Scalar { raw: 300_000_000 },
            epsilon: Scalar { raw: 1 },
            d_critical: Scalar { raw: 15_000_000_000 },
            lambda: Scalar { raw: 500_000_000 },
            growth_rate: Scalar { raw: 5_000_000_000 },
            growth_prob: Scalar { raw: 300_000_000 },
            branch_prob: Scalar { raw: 100_000_000 },
            max_nodes: 500,
            initial_energy: Scalar { raw: 1_000_000_000 },
            width: Scalar { raw: 800_000_000_000 },
            height: Scalar { raw: 600_000_000_000 },
            max_energy_distance: Scalar { raw: 200_000_000_000 },
            num_light_sources: 3,
            light_intensity: Scalar { raw: 1_000_000_000 },
        }
    }
}

/// The groups in which the parameters are shown.
#[derive(Clone, Copy, Debug, PartialEq, Eq, Structural)]
pub enum ParamTab {
    CSpace,
    Plant,
    Environment,
}

/// The lights at `positions`, each of the given intensity.
pub open spec fn lights_at(positions: Seq<Vector2D>, intensity: Scalar) -> Seq<ResourcePoint> {
    Seq::new(
        positions.len(),
        |i: int| ResourcePoint { position: positions[i], intensity, kind: ResourceKind::Light },
    )
}

/// The state of the screen on which a simulation is set up.
pub struct PlantCreatorApp {
    pub current_tab: ParamTab,
    pub params: SimulationParams,
    /// Where the seed will be planted.
    pub plant_position: Vector2D,
    /// Where the lights will stand.
    pub light_positions: Vec<Vector2D>,
    /// What the last validation found.
    pub param_valid: bool,
    /// The source of the places of the lights.
    pub generator: StdRng,
}

impl Default for PlantCreatorApp {
    /// A creator with the default parameters and their three lights
    /// placed.
    fn default() -> (app: PlantCreatorApp)
        ensures
            app.current_tab == ParamTab::CSpace,
            app.params == SimulationParams::default_spec(),
            app.plant_position == Vector2D::new(Scalar::from_int(400), Scalar::from_int(500)),
            app.light_positions@.len() == 3,
            forall|i: int|
                0 <= i < 3 ==> PlantCreatorApp::in_upper_half(
                    app.params,
                    #[trigger] app.light_positions@[i],
                ),
            app.param_valid,
    {
        let mut app = PlantCreatorApp::new(0);
        app.regenerate_light_positions();
        app
    }
}

impl PlantCreatorApp {
    /// A creator with the default parameters, the seed at (400, 500), no
    /// light placed yet, and a generator started from `seed`.
    pub fn new(seed: u64) -> (app: PlantCreatorApp)
        ensures
            app.current_tab == ParamTab::CSpace,
            app.params == SimulationParams::default_spec(),
            app.plant_position == Vector2D::new(Scalar::from_int(400), Scalar::from_int(500)),
            app.light_positions@.len() == 0,
            app.param_valid,
    {
        PlantCreatorApp {
            current_tab: ParamTab::CSpace,
            params: SimulationParams::default(),
            plant_position: Vector2D::new(Scalar::from_int(400), Scalar::from_int(500)),
            light_positions: Vec::new(),
            param_valid: true,
            generator: seeded_generator(seed),
        }
    }

    /// Whether `pos` lies where lights are placed: in the upper half of
    /// the domain.
    pub open spec fn in_upper_half(params: SimulationParams, pos: Vector2D) -> bool {
        0 <= pos.x@ < params.width@ && 0 <= pos.y@ < params.height.div(Scalar::from_int(2))@
    }

    /// Places as many lights as the parameters ask for, each at a place
    /// drawn from the upper half of the domain.
    pub fn regenerate_light_positions(&mut self)
        requires
            old(self).params.width@ > 0,
            old(self).params.height@ >= 2,
        ensures
            final(self).light_positions@.len() == old(self).params.num_light_sources,
            forall|i: int|
                0 <= i < final(self).light_positions@.len() ==> PlantCreatorApp::in_upper_half(
                    old(self).params,
                    #[trigger] final(self).light_positions@[i],
                ),
            final(self).current_tab == old(self).current_tab,
            final(self).params == old(self).params,
            final(self).plant_position == old(self).plant_position,
            final(self).param_valid == old(self).param_valid,
    {
        let across: u64 = self.params.width.raw as u64;
        let half = self.params.height.div(Scalar::from_int(2));
        assert(half@ >= 1) by {
            let h = self.params.height@;
            assert(h * 1_000_000_000 / 2_000_000_000 >= 1) by (nonlinear_arith)
                requires
                    h >= 2,
            ;
            assert(h * 1_000_000_000 / 2_000_000_000 <= h) by (nonlinear_arith)
                requires
                    h >= 2,
            ;
        }
        let down: u64 = half.raw as u64;
        let count = self.params.num_light_sources;
        let mut placed: Vec<Vector2D> = Vec::new();
        let mut i: usize = 0;
        while i < count
            invariant
                0 <= i <= count,
                placed@.len() == i,
                across == self.params.width@,
                down == half@,
                across > 0,
                down > 0,
                half == self.params.height.div(Scalar::from_int(2)),
                self.current_tab == old(self).current_tab,
                self.params == old(self).params,
                self.plant_position == old(self).plant_position,
                self.param_valid == old(self).param_valid,
                forall|k: int|
                    0 <= k < i ==> PlantCreatorApp::in_upper_half(
                        self.params,
                        #[trigger] placed@[k],
                    ),
            decreases count - i,
        {
            let x: u64 = draw_below(&mut self.generator, across);
            let y: u64 = draw_below(&mut self.generator, down);
            placed.push(Vector2D::new(Scalar::from_raw(x as i64), Scalar::from_raw(y as i64)));
            i = i + 1;
        }
        self.light_positions = placed;
    }

    /// The state of the engine that `initialize_simulation` gives.
    pub open spec fn simulation_spec(&self) -> EngineState {
        EngineState {
            domain: Domain { width: self.params.width, height: self.params.height },
            nodes: seq![
                CSpaceEngine::seed_spec(
                    (self.plant_position.x, self.plant_position.y),
                    self.params.initial_energy,
                ),
            ],
            resources: lights_at(self.light_positions@, self.params.light_intensity),
            paths: Map::empty(),
            time: 0,
            params: self.params.engine_params(),
            next_id: 1,
            generator_seed: 0,
        }
    }

    /// The engine that the settings describe: the parameters as set, a
    /// seed at the chosen place, and a light at each chosen place.
    pub fn initialize_simulation(&self) -> (engine: CSpaceEngine)
        ensures
            engine@ == self.simulation_spec(),
            engine@.wf(),
    {
        let mut engine = CSpaceEngine::new_with_params(
            self.params.width,
            self.params.height,
            self.params.engine_params(),
        );
        engine.initialize_plant(
            (self.plant_position.x, self.plant_position.y),
            self.params.initial_energy,
        );
        let ghost planted = engine@;
        let mut i: usize = 0;
        proof {
            assert(planted.resources =~= lights_at(
                self.light_positions@.take(0),
                self.params.light_intensity,
            ));
        }
        while i < self.light_positions.len()
            invariant
                0 <= i <= self.light_positions.len(),
                engine@ == (EngineState {
                    resources: lights_at(
                        self.light_positions@.take(i as int),
                        self.params.light_intensity,
                    ),
                    ..planted
                }),
                planted.resources.len() == 0,
                planted.wf(),
                engine@.wf(),
            decreases self.light_positions.len() - i,
        {
            let pos = self.light_positions[i];
            let ghost before = engine@;
            engine.add_resource((pos.x, pos.y), self.params.light_intensity, ResourceKind::Light);
            proof {
                assert(lights_at(
                    self.light_positions@.take(i as int),
                    self.params.light_intensity,
                ).push(
                    ResourcePoint {
                        position: Vector2D::new(pos.x, pos.y),
                        intensity: self.params.light_intensity,
                        kind: ResourceKind::Light,
                    },
                ) =~= lights_at(self.light_positions@.take(i + 1), self.params.light_intensity));
            }
            i = i + 1;
        }
        proof {
            assert(self.light_positions@.take(i as int) =~= self.light_positions@);
        }
        engine
    }

    /// Checks the parameters and remembers what it found.
    pub fn validate_params(&mut self) -> (valid: bool)
        ensures
            valid == old(self).params.valid(),
            final(self).param_valid == valid,
            final(self).current_tab == old(self).current_tab,
            final(self).params == old(self).params,
            final(self).plant_position == old(self).plant_position,
            final(self).light_positions == old(self).light_positions,
    {
        let zero = Scalar::zero();
        let one = Scalar::one();
        let valid = self.params.alpha.gt(zero) && self.params.beta.gt(zero)
            && self.params.epsilon.gt(zero) && self.params.d_critical.gt(zero)
            && self.params.growth_rate.gt(zero) && self.params.growth_prob.ge(zero)
            && self.params.growth_prob.le(one) && self.params.branch_prob.ge(zero)
            && self.params.branch_prob.le(one) && self.params.max_nodes > 0
            && self.params.width.gt(zero) && self.params.height.gt(zero)
            && self.params.max_energy_distance.gt(zero);
        self.param_valid = valid;
        valid
    }
}

} // verus!
