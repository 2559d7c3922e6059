use cspace::attention::compute_attention;
use cspace::dynamics::update_node_properties;
use cspace::engine::CSpaceEngine;
use cspace::field::{calculate_energy, spatial_complexity};
use cspace::growth::{branch_from_node, grow_node, Domain};
use cspace::lineage::group_by_parent;
use cspace::node::{PlantNode, ResourceKind, ResourcePoint};
use cspace::params::EngineParams;
use cspace::scalar::Scalar;
use cspace::tick::NodeDraw;
use cspace::vector::Vector2D;

fn num(x: f64) -> Scalar {
    Scalar::from_raw((x * 1e9).round() as i64)
}

fn as_float(x: Scalar) -> f64 {
    x.raw() as f64 / 1e9
}

fn at(x: f64, y: f64) -> Vector2D {
    Vector2D::new(num(x), num(y))
}

fn light(x: f64, y: f64, intensity: f64) -> ResourcePoint {
    ResourcePoint { position: at(x, y), intensity: num(intensity), kind: ResourceKind::Light }
}

fn node_at(x: f64, y: f64) -> PlantNode {
    PlantNode {
        id: 0,
        position: at(x, y),
        energy: num(1.0),
        coherence: num(1.0),
        distortion: num(0.0),
        temporal_complexity: num(0.0),
        spatial_complexity: num(0.5),
        parent: None,
        age: 0,
        c_t: at(0.0, 0.0),
    }
}

fn domain() -> Domain {
    Domain { width: num(800.0), height: num(600.0) }
}

fn never() -> NodeDraw {
    NodeDraw { growth: num(0.999), branch: num(0.999), angle: num(0.0) }
}

fn always(angle: f64) -> NodeDraw {
    NodeDraw { growth: num(0.0), branch: num(0.0), angle: num(angle) }
}

#[test]
fn default_params_are_the_documented_ones() {
    let p = EngineParams::default();
    assert_eq!(p.alpha, num(0.2));
    assert_eq!(p.beta, num(0.3));
    assert_eq!(p.epsilon.raw(), 1);
    assert_eq!(p.d_critical, num(15.0));
    assert_eq!(p.lambda, num(0.5));
    assert_eq!(p.growth_rate, num(5.0));
    assert_eq!(p.growth_prob, num(0.3));
    assert_eq!(p.branch_prob, num(0.1));
    assert_eq!(p.max_nodes, 500);
    assert_eq!(p.initial_energy, num(1.0));
    assert_eq!(p.max_energy_distance, num(200.0));
}

#[test]
fn energy_without_light_is_the_base() {
    let none: Vec<ResourcePoint> = Vec::new();
    assert_eq!(calculate_energy(&none, num(200.0), at(10.0, 10.0)), num(0.3));
}

#[test]
fn energy_of_one_near_light_is_clamped() {
    let lights = vec![light(100.0, 50.0, 1.0)];
    assert_eq!(calculate_energy(&lights, num(200.0), at(100.0, 100.0)), num(1.5));
}

#[test]
fn energy_of_a_weak_light_is_exact() {
    let lights = vec![light(100.0, 50.0, 0.2)];
    assert_eq!(calculate_energy(&lights, num(200.0), at(100.0, 100.0)), num(0.6));
}

#[test]
fn energy_sums_all_lights_in_reach() {
    let lights = vec![light(0.0, 50.0, 0.1), light(0.0, 100.0, 0.2), light(0.0, 500.0, 5.0)];
    // 0.3 + 0.1 * 0.75 * 2 + 0.2 * 0.5 * 2
    assert_eq!(calculate_energy(&lights, num(200.0), at(0.0, 0.0)), num(0.65));
}

#[test]
fn energy_ignores_other_kinds_and_lights_at_the_rim() {
    let water = ResourcePoint { position: at(0.0, 1.0), intensity: num(1.0), kind: ResourceKind::Water };
    let other = ResourcePoint { position: at(0.0, 1.0), intensity: num(1.0), kind: ResourceKind::Other };
    let rim = light(0.0, 200.0, 1.0);
    assert_eq!(calculate_energy(&vec![water, other, rim], num(200.0), at(0.0, 0.0)), num(0.3));
}

#[test]
fn energy_is_clamped_from_below() {
    let lights = vec![light(0.0, 0.0, -3.0)];
    assert_eq!(calculate_energy(&lights, num(200.0), at(0.0, 0.0)), num(0.1));
}

#[test]
fn engine_energy_reads_its_own_resources_and_params() {
    let mut engine = CSpaceEngine::new(num(800.0), num(600.0));
    engine.add_resource((num(400.0), num(0.0)), num(1.0), ResourceKind::Light);
    assert_eq!(engine.calculate_energy(at(400.0, 50.0)), num(1.5));
    assert_eq!(engine.calculate_energy(at(400.0, 500.0)), num(0.3));
    assert_eq!(engine.calculate_energy(at(400.0, 190.0)), num(0.4));
}

#[test]
fn spatial_complexity_is_the_share_of_reach_to_the_nearest_light() {
    let none: Vec<ResourcePoint> = Vec::new();
    assert_eq!(spatial_complexity(&none, num(200.0), at(0.0, 0.0)), num(0.5));
    let lights = vec![light(0.0, 150.0, 1.0), light(0.0, 50.0, 1.0), light(0.0, 100.0, 1.0)];
    assert_eq!(spatial_complexity(&lights, num(200.0), at(0.0, 0.0)), num(0.25));
    let far = vec![light(0.0, 500.0, 1.0)];
    assert_eq!(spatial_complexity(&far, num(200.0), at(0.0, 0.0)), num(1.0));
    let water = ResourcePoint { position: at(0.0, 1.0), intensity: num(1.0), kind: ResourceKind::Water };
    assert_eq!(spatial_complexity(&vec![water], num(200.0), at(0.0, 0.0)), num(0.5));
}

#[test]
fn attention_toward_a_single_resource_is_the_unit_direction() {
    let params = EngineParams::default();
    let node = node_at(100.0, 100.0);
    let d = compute_attention(&vec![light(100.0, 90.0, 1.0)], &params, &node);
    assert_eq!(d, at(0.0, -1.0));
    let d = compute_attention(&vec![light(103.0, 104.0, 1.0)], &params, &node);
    assert_eq!(d, at(0.6, 0.8));
}

#[test]
fn attention_without_resources_is_zero() {
    let params = EngineParams::default();
    let none: Vec<ResourcePoint> = Vec::new();
    assert_eq!(compute_attention(&none, &params, &node_at(1.0, 1.0)), at(0.0, 0.0));
}

#[test]
fn attention_does_not_filter_by_kind() {
    let params = EngineParams::default();
    let water = ResourcePoint { position: at(110.0, 100.0), intensity: num(1.0), kind: ResourceKind::Water };
    let d = compute_attention(&vec![water], &params, &node_at(100.0, 100.0));
    assert_eq!(d, at(1.0, 0.0));
}

#[test]
fn attention_averages_opposite_resources_to_nothing() {
    let params = EngineParams::default();
    let node = node_at(100.0, 100.0);
    let d = compute_attention(&vec![light(110.0, 100.0, 1.0), light(90.0, 100.0, 1.0)], &params, &node);
    assert_eq!(d, at(0.0, 0.0));
}

#[test]
fn attention_prefers_the_nearer_resource_and_is_not_renormalized() {
    let params = EngineParams::default();
    let node = node_at(100.0, 100.0);
    let d = compute_attention(&vec![light(102.0, 100.0, 1.0), light(100.0, 104.0, 1.0)], &params, &node);
    let w1 = (-1.0f64).exp();
    let w2 = (-2.0f64).exp();
    assert!((as_float(d.x) - w1 / (w1 + w2)).abs() < 1e-6);
    assert!((as_float(d.y) - w2 / (w1 + w2)).abs() < 1e-6);
    assert!(as_float(d.magnitude()) < 1.0);
}

#[test]
fn attention_to_a_far_resource_fades_to_nothing() {
    let params = EngineParams::default();
    let d = compute_attention(&vec![light(400.0, 0.0, 1.0)], &params, &node_at(400.0, 500.0));
    assert_eq!(d, at(0.0, 0.0));
}

#[test]
fn dynamics_of_one_tick_follow_the_formulas() {
    let params = EngineParams::default();
    let none: Vec<ResourcePoint> = Vec::new();
    let mut node = node_at(10.0, 10.0);
    node.temporal_complexity = num(0.25);
    update_node_properties(&none, &params, &mut node);
    // dH = -0.2 * (0 / (1 + eps) + 0.5) = -0.1
    assert_eq!(node.coherence, num(0.9));
    assert!((as_float(node.distortion) - 0.3 * (1.1f64).ln()).abs() < 1e-8);
    assert!((as_float(node.temporal_complexity) - (0.25 + 0.3 * (0.1f64).tanh())).abs() < 1e-8);
    assert_eq!(node.spatial_complexity, num(0.5));
    assert_eq!(node.energy, num(1.0));
    assert_eq!(node.age, 0);
    assert_eq!(node.id, 0);
}

#[test]
fn dynamics_clamp_coherence_at_zero() {
    let params = EngineParams::default();
    let none: Vec<ResourcePoint> = Vec::new();
    let mut node = node_at(10.0, 10.0);
    node.coherence = num(0.05);
    node.distortion = num(1.0);
    update_node_properties(&none, &params, &mut node);
    assert_eq!(node.coherence, num(0.0));
    assert!(node.distortion.raw() > 1_000_000_000);
}

#[test]
fn dynamics_with_zero_coherence_leave_temporal_complexity() {
    let params = EngineParams::default();
    let none: Vec<ResourcePoint> = Vec::new();
    let mut node = node_at(10.0, 10.0);
    node.coherence = num(0.0);
    node.temporal_complexity = num(0.4);
    update_node_properties(&none, &params, &mut node);
    assert_eq!(node.temporal_complexity, num(0.4));
}

#[test]
fn singularity_resets_the_node_exactly() {
    let mut params = EngineParams::default();
    params.d_critical = num(0.001);
    let none: Vec<ResourcePoint> = Vec::new();
    let mut node = node_at(10.0, 10.0);
    node.c_t = at(3.0, 4.0);
    node.energy = num(1.2);
    update_node_properties(&none, &params, &mut node);
    assert_eq!(node.coherence, num(0.1));
    assert_eq!(node.distortion, num(0.0));
    assert!((as_float(node.temporal_complexity) - 1.2 * (5.0f64 + 1e-9).ln()).abs() < 1e-7);
    assert_eq!(node.spatial_complexity, num(0.5));
}

#[test]
fn singularity_of_a_seed_gives_a_negative_temporal_complexity() {
    let mut params = EngineParams::default();
    params.d_critical = num(0.001);
    let none: Vec<ResourcePoint> = Vec::new();
    let mut node = node_at(10.0, 10.0);
    update_node_properties(&none, &params, &mut node);
    assert_eq!(node.coherence, num(0.1));
    assert_eq!(node.distortion, num(0.0));
    assert!((as_float(node.temporal_complexity) - (1e-9f64).ln()).abs() < 1e-6);
}

#[test]
fn distortion_at_the_threshold_does_not_reset() {
    let mut params = EngineParams::default();
    params.beta = num(0.0);
    params.d_critical = num(2.0);
    let none: Vec<ResourcePoint> = Vec::new();
    let mut node = node_at(10.0, 10.0);
    node.distortion = num(2.0);
    update_node_properties(&none, &params, &mut node);
    assert_eq!(node.distortion, num(2.0));
    assert!(node.coherence != num(0.1));
}

#[test]
fn extension_steps_by_rate_times_half_plus_energy() {
    let params = EngineParams::default();
    let lights = vec![light(400.0, 490.0, 1.0)];
    let seed = node_at(400.0, 500.0);
    let child = grow_node(&lights, &params, domain(), &seed, 7).unwrap();
    let step = child.position.sub(seed.position).magnitude();
    assert_eq!(step, params.growth_rate.mul(num(0.5).add(seed.energy)));
    assert_eq!(step, num(7.5));
    assert_eq!(child.position, at(400.0, 492.5));
}

#[test]
fn extension_inherits_as_documented() {
    let params = EngineParams::default();
    let lights = vec![light(400.0, 490.0, 1.0)];
    let mut parent = node_at(400.0, 500.0);
    parent.id = 3;
    parent.distortion = num(0.6);
    parent.temporal_complexity = num(0.7);
    parent.c_t = at(1.0, 2.0);
    parent.age = 19;
    let child = grow_node(&lights, &params, domain(), &parent, 7).unwrap();
    assert_eq!(child.id, 7);
    assert_eq!(child.parent, Some(3));
    assert_eq!(child.age, 0);
    assert_eq!(child.coherence, num(0.9));
    assert_eq!(child.distortion, num(0.3));
    assert_eq!(child.temporal_complexity, num(0.0));
    assert_eq!(child.spatial_complexity, num(0.5));
    assert_eq!(child.c_t, at(401.0, 502.0));
    assert_eq!(child.energy, calculate_energy(&lights, params.max_energy_distance, child.position));
    assert_eq!(child.energy, num(1.5));
}

#[test]
fn extension_keeps_coherence_at_least_one_half() {
    let params = EngineParams::default();
    let none: Vec<ResourcePoint> = Vec::new();
    let mut parent = node_at(400.0, 500.0);
    parent.coherence = num(0.3);
    let child = grow_node(&none, &params, domain(), &parent, 1).unwrap();
    assert_eq!(child.coherence, num(0.5));
    assert_eq!(child.position, parent.position);
}

#[test]
fn extension_is_clamped_to_the_domain() {
    let params = EngineParams::default();
    let lights = vec![light(400.0, -10.0, 1.0)];
    let seed = node_at(400.0, 2.0);
    let child = grow_node(&lights, &params, domain(), &seed, 1).unwrap();
    assert_eq!(child.position, at(400.0, 0.0));
    let lights = vec![light(810.0, 600.0, 1.0)];
    let seed = node_at(799.0, 600.0);
    let child = grow_node(&lights, &params, domain(), &seed, 1).unwrap();
    assert_eq!(child.position, at(800.0, 600.0));
}

#[test]
fn old_or_incoherent_nodes_do_not_extend() {
    let params = EngineParams::default();
    let lights = vec![light(400.0, 490.0, 1.0)];
    let mut node = node_at(400.0, 500.0);
    node.age = 20;
    assert!(grow_node(&lights, &params, domain(), &node, 1).is_none());
    node.age = 1000;
    assert!(grow_node(&lights, &params, domain(), &node, 1).is_none());
    node.age = 19;
    assert!(grow_node(&lights, &params, domain(), &node, 1).is_some());
    node.coherence = num(0.1);
    assert!(grow_node(&lights, &params, domain(), &node, 1).is_none());
    node.coherence = Scalar::from_raw(100_000_001);
    assert!(grow_node(&lights, &params, domain(), &node, 1).is_some());
}

#[test]
fn old_or_incoherent_nodes_do_not_branch() {
    let params = EngineParams::default();
    let none: Vec<ResourcePoint> = Vec::new();
    let mut node = node_at(400.0, 500.0);
    node.age = 5;
    assert!(branch_from_node(&none, &params, domain(), &node, 1, num(1.0)).is_none());
    node.age = 20;
    assert!(branch_from_node(&none, &params, domain(), &node, 1, num(1.0)).is_none());
    node.age = 4;
    assert!(branch_from_node(&none, &params, domain(), &node, 1, num(1.0)).is_some());
    node.coherence = num(0.2);
    assert!(branch_from_node(&none, &params, domain(), &node, 1, num(1.0)).is_none());
    node.coherence = Scalar::from_raw(200_000_001);
    assert!(branch_from_node(&none, &params, domain(), &node, 1, num(1.0)).is_some());
}

#[test]
fn branch_steps_along_the_angle_and_inherits_as_documented() {
    let params = EngineParams::default();
    let lights = vec![light(400.0, 490.0, 0.1)];
    let mut parent = node_at(400.0, 500.0);
    parent.id = 2;
    parent.distortion = num(0.5);
    parent.temporal_complexity = num(0.25);
    parent.spatial_complexity = num(0.75);
    parent.c_t = at(1.0, 2.0);
    let child = branch_from_node(&lights, &params, domain(), &parent, 9, num(0.0)).unwrap();
    // 5 * (0.3 + 0.7 * 1.0) = 5 along the first axis
    assert_eq!(child.position, at(405.0, 500.0));
    assert_eq!(child.id, 9);
    assert_eq!(child.parent, Some(2));
    assert_eq!(child.age, 0);
    assert_eq!(child.coherence, num(0.8));
    assert_eq!(child.distortion, num(0.4));
    assert_eq!(child.temporal_complexity, num(0.35));
    assert_eq!(child.spatial_complexity, num(0.95));
    assert_eq!(child.c_t, at(401.0, 502.0));
    let here = calculate_energy(&lights, params.max_energy_distance, child.position);
    assert_eq!(child.energy, here.mul(num(0.8)));
    let quarter = branch_from_node(&lights, &params, domain(), &parent, 9, Scalar::from_raw(1_570_796_327)).unwrap();
    assert_eq!(quarter.position, at(400.0, 505.0));
}

#[test]
fn branch_in_the_dark_may_fall_below_the_least_energy() {
    let params = EngineParams::default();
    let drain = vec![light(400.0, 500.0, -5.0)];
    let parent = node_at(400.0, 500.0);
    let child = branch_from_node(&drain, &params, domain(), &parent, 1, num(0.0)).unwrap();
    assert_eq!(child.energy, num(0.08));
}

#[test]
fn new_engine_is_empty() {
    let engine = CSpaceEngine::new(num(800.0), num(600.0));
    assert_eq!(engine.width, num(800.0));
    assert_eq!(engine.height, num(600.0));
    assert!(engine.get_nodes().is_empty());
    assert!(engine.get_resources().is_empty());
    assert!(engine.get_paths().is_empty());
    assert_eq!(engine.get_time(), 0);
    assert_eq!(*engine.get_params(), EngineParams::default());
}

#[test]
fn new_with_params_keeps_the_params() {
    let mut params = EngineParams::default();
    params.max_nodes = 7;
    let mut engine = CSpaceEngine::new_with_params(num(10.0), num(20.0), params);
    assert_eq!(engine.get_params().max_nodes, 7);
    params.max_nodes = 9;
    engine.update_params(params);
    assert_eq!(engine.get_params().max_nodes, 9);
}

#[test]
fn initialize_plant_plants_one_seed() {
    let mut engine = CSpaceEngine::new(num(800.0), num(600.0));
    engine.initialize_plant((num(400.0), num(500.0)), num(1.0));
    let nodes = engine.get_nodes();
    assert_eq!(nodes.len(), 1);
    assert_eq!(nodes[0], node_at(400.0, 500.0));
    assert!(engine.get_paths().is_empty());
}

#[test]
fn add_resource_appends() {
    let mut engine = CSpaceEngine::new(num(800.0), num(600.0));
    engine.add_resource((num(1.0), num(2.0)), num(0.5), ResourceKind::Light);
    engine.add_resource((num(3.0), num(4.0)), num(0.7), ResourceKind::Water);
    let resources = engine.get_resources();
    assert_eq!(resources.len(), 2);
    assert_eq!(resources[0], light(1.0, 2.0, 0.5));
    assert_eq!(resources[1].kind, ResourceKind::Water);
    assert_eq!(resources[1].position, at(3.0, 4.0));
}

#[test]
fn tick_without_children_only_advances_the_seed() {
    let mut engine = CSpaceEngine::new(num(800.0), num(600.0));
    engine.initialize_plant((num(400.0), num(500.0)), num(1.0));
    engine.update_with(&vec![never()]);
    assert_eq!(engine.get_time(), 1);
    let nodes = engine.get_nodes();
    assert_eq!(nodes.len(), 1);
    assert_eq!(nodes[0].id, 0);
    assert_eq!(nodes[0].age, 1);
    assert_eq!(nodes[0].energy, num(0.3));
    assert_eq!(nodes[0].coherence, num(0.9));
    assert_eq!(nodes[0].position, at(400.0, 500.0));
    assert!(engine.get_paths().is_empty());
}

#[test]
fn tick_with_both_gates_open_adds_an_extension_and_a_branch() {
    let mut engine = CSpaceEngine::new(num(800.0), num(600.0));
    engine.add_resource((num(400.0), num(490.0)), num(1.0), ResourceKind::Light);
    engine.initialize_plant((num(400.0), num(500.0)), num(1.0));
    engine.update_with(&vec![always(0.0)]);
    let nodes = engine.get_nodes().clone();
    assert_eq!(nodes.len(), 3);
    assert_eq!(nodes[0].id, 0);
    assert_eq!(nodes[0].age, 1);
    assert_eq!(nodes[0].energy, num(1.5));
    assert_eq!(nodes[1].id, 1);
    assert_eq!(nodes[1].parent, Some(0));
    assert_eq!(nodes[1].position, at(400.0, 492.5));
    assert_eq!(nodes[1].coherence, num(0.9));
    assert_eq!(nodes[2].id, 2);
    assert_eq!(nodes[2].parent, Some(0));
    assert_eq!(nodes[2].position, at(405.0, 500.0));
    assert_eq!(nodes[2].coherence, num(0.8));
    let paths = engine.get_paths();
    assert_eq!(paths.len(), 1);
    assert_eq!(paths[&0], vec![nodes[1], nodes[2]]);
}

#[test]
fn children_are_made_from_the_node_as_it_was() {
    let mut engine = CSpaceEngine::new(num(800.0), num(600.0));
    engine.initialize_plant((num(400.0), num(500.0)), num(1.0));
    engine.update_with(&vec![always(0.0)]);
    let nodes = engine.get_nodes();
    // the seed itself fell to 0.9, its extension has 0.9 of the old 1.0
    assert_eq!(nodes[0].coherence, num(0.9));
    assert_eq!(nodes[1].coherence, num(0.9));
    // step of the branch from the old energy 1.0, not from the new 0.3
    assert_eq!(nodes[2].position, at(405.0, 500.0));
}

#[test]
fn identifiers_stay_unique_over_ticks() {
    let mut engine = CSpaceEngine::new(num(800.0), num(600.0));
    engine.initialize_plant((num(400.0), num(500.0)), num(1.0));
    engine.update_with(&vec![always(1.0)]);
    engine.update_with(&vec![always(2.0), always(3.0), always(4.0)]);
    let nodes = engine.get_nodes();
    assert_eq!(nodes.len(), 9);
    let mut ids: Vec<usize> = nodes.iter().map(|n| n.id).collect();
    ids.sort();
    assert_eq!(ids, vec![0, 1, 2, 3, 4, 5, 6, 7, 8]);
    for n in nodes.iter() {
        if let Some(p) = n.parent {
            assert!(p < n.id);
        }
    }
    let paths = engine.get_paths();
    assert_eq!(paths.len(), 3);
    let total: usize = paths.values().map(|v| v.len()).sum();
    assert_eq!(total, 8);
    for (parent, children) in paths.iter() {
        for child in children.iter() {
            assert_eq!(child.parent, Some(*parent));
        }
    }
}

#[test]
fn the_cap_is_hard() {
    let mut params = EngineParams::default();
    params.max_nodes = 2;
    let mut engine = CSpaceEngine::new_with_params(num(800.0), num(600.0), params);
    engine.initialize_plant((num(400.0), num(500.0)), num(1.0));
    engine.update_with(&vec![always(0.0)]);
    assert_eq!(engine.get_nodes().len(), 2);
    assert_eq!(engine.get_nodes()[1].id, 1);
    engine.update_with(&vec![always(0.0), always(0.0)]);
    assert_eq!(engine.get_nodes().len(), 2);
    params.max_nodes = 4;
    engine.update_params(params);
    engine.update_with(&vec![always(0.0), always(0.0)]);
    assert_eq!(engine.get_nodes().len(), 4);
    params.max_nodes = 1;
    engine.update_params(params);
    engine.update_with(&vec![always(0.0), always(0.0), always(0.0), always(0.0)]);
    assert_eq!(engine.get_nodes().len(), 4);
}

#[test]
fn a_draw_at_the_probability_does_not_pass() {
    let mut engine = CSpaceEngine::new(num(800.0), num(600.0));
    engine.initialize_plant((num(400.0), num(500.0)), num(1.0));
    let draw = NodeDraw { growth: num(0.3), branch: num(0.1), angle: num(0.0) };
    engine.update_with(&vec![draw]);
    assert_eq!(engine.get_nodes().len(), 1);
    let draw = NodeDraw { growth: Scalar::from_raw(299_999_999), branch: num(0.1), angle: num(0.0) };
    engine.update_with(&vec![draw]);
    assert_eq!(engine.get_nodes().len(), 2);
}

#[test]
fn initialize_plant_again_starts_a_new_lineage() {
    let mut engine = CSpaceEngine::new(num(800.0), num(600.0));
    engine.initialize_plant((num(400.0), num(500.0)), num(1.0));
    engine.update_with(&vec![always(0.0)]);
    assert_eq!(engine.get_time(), 1);
    engine.initialize_plant((num(1.0), num(2.0)), num(0.7));
    assert_eq!(engine.get_nodes().len(), 1);
    assert_eq!(engine.get_nodes()[0].id, 0);
    assert_eq!(engine.get_nodes()[0].energy, num(0.7));
    assert!(engine.get_paths().is_empty());
    assert_eq!(engine.get_time(), 1);
    engine.update_with(&vec![always(0.0)]);
    assert_eq!(engine.get_nodes()[1].id, 1);
}

#[test]
fn group_by_parent_lists_children_in_order() {
    let mut a = node_at(0.0, 0.0);
    a.id = 0;
    let mut b = node_at(1.0, 0.0);
    b.id = 1;
    b.parent = Some(0);
    let mut c = node_at(2.0, 0.0);
    c.id = 2;
    c.parent = Some(1);
    let mut d = node_at(3.0, 0.0);
    d.id = 3;
    d.parent = Some(0);
    let paths = group_by_parent(&vec![a, b, c, d]);
    assert_eq!(paths.len(), 2);
    assert_eq!(paths[&0], vec![b, d]);
    assert_eq!(paths[&1], vec![c]);
    assert!(!paths.contains_key(&2));
}

#[test]
fn bounds_hold_after_every_tick() {
    let mut engine = CSpaceEngine::new(num(800.0), num(600.0));
    engine.add_resource((num(400.0), num(300.0)), num(1.0), ResourceKind::Light);
    engine.add_resource((num(200.0), num(100.0)), num(0.5), ResourceKind::Light);
    engine.initialize_plant((num(400.0), num(500.0)), num(1.0));
    engine.reseed(11);
    let mut tick = 0;
    while tick < 60 {
        engine.update();
        for n in engine.get_nodes().iter() {
            assert!(num(0.1).le(n.energy) && n.energy.le(num(1.5)));
            assert!(num(0.0).le(n.coherence) && n.coherence.le(num(1.0)));
            assert!(n.distortion.ge(num(0.0)));
            // a seed has an empty time trace: a reset may leave it below zero
            assert!(n.parent.is_none() || n.temporal_complexity.ge(num(0.0)));
            assert!(n.position.x.ge(num(0.0)) && n.position.x.le(num(800.0)));
            assert!(n.position.y.ge(num(0.0)) && n.position.y.le(num(600.0)));
        }
        assert!(engine.get_nodes().len() <= 500);
        tick += 1;
        assert_eq!(engine.get_time(), tick);
    }
}

#[test]
fn same_seed_gives_the_same_populations() {
    let mut a = CSpaceEngine::new(num(800.0), num(600.0));
    let mut b = CSpaceEngine::new(num(800.0), num(600.0));
    a.add_resource((num(400.0), num(400.0)), num(1.0), ResourceKind::Light);
    b.add_resource((num(400.0), num(400.0)), num(1.0), ResourceKind::Light);
    a.initialize_plant((num(400.0), num(500.0)), num(1.0));
    b.initialize_plant((num(400.0), num(500.0)), num(1.0));
    a.reseed(42);
    b.reseed(42);
    let mut grew = false;
    let mut tick = 0;
    while tick < 30 {
        a.update();
        b.update();
        assert_eq!(a.get_nodes(), b.get_nodes());
        assert_eq!(a.get_paths(), b.get_paths());
        grew = grew || a.get_nodes().len() > 1;
        tick += 1;
    }
    assert!(grew);
}

#[test]
fn different_seeds_give_different_populations() {
    let mut a = CSpaceEngine::new(num(800.0), num(600.0));
    let mut b = CSpaceEngine::new(num(800.0), num(600.0));
    a.add_resource((num(400.0), num(400.0)), num(1.0), ResourceKind::Light);
    b.add_resource((num(400.0), num(400.0)), num(1.0), ResourceKind::Light);
    a.initialize_plant((num(400.0), num(500.0)), num(1.0));
    b.initialize_plant((num(400.0), num(500.0)), num(1.0));
    a.reseed(1);
    b.reseed(2);
    let mut differ = false;
    let mut tick = 0;
    while tick < 30 {
        a.update();
        b.update();
        differ = differ || a.get_nodes() != b.get_nodes();
        tick += 1;
    }
    assert!(differ);
}

#[test]
fn seed_grows_toward_a_light_in_twenty_ticks() {
    let mut engine = CSpaceEngine::new(num(800.0), num(600.0));
    engine.add_resource((num(400.0), num(0.0)), num(1.0), ResourceKind::Light);
    engine.initialize_plant((num(400.0), num(500.0)), num(1.0));
    engine.reseed(7);
    let seed_id = engine.get_nodes()[0].id;
    let mut tick = 0;
    while tick < 20 {
        engine.update();
        tick += 1;
    }
    let nodes = engine.get_nodes();
    assert!(nodes.len() > 1);
    assert!(nodes.len() <= engine.get_params().max_nodes);
    let mut traced = false;
    for n in nodes.iter() {
        let mut at_node = *n;
        let mut steps = 0;
        while let Some(p) = at_node.parent {
            at_node = *nodes.iter().find(|m| m.id == p).unwrap();
            steps += 1;
        }
        if steps > 0 && at_node.id == seed_id {
            traced = true;
        }
    }
    assert!(traced);
}

#[test]
fn reseed_records_the_seed_and_keeps_the_state() {
    let mut engine = CSpaceEngine::new(num(800.0), num(600.0));
    assert_eq!(engine.get_generator_seed(), 0);
    engine.add_resource((num(400.0), num(400.0)), num(1.0), ResourceKind::Light);
    engine.initialize_plant((num(400.0), num(500.0)), num(1.0));
    engine.update_with(&vec![always(0.5)]);
    let nodes = engine.get_nodes().clone();
    let paths = engine.get_paths().clone();
    engine.reseed(42);
    assert_eq!(engine.get_generator_seed(), 42);
    assert_eq!(*engine.get_nodes(), nodes);
    assert_eq!(*engine.get_paths(), paths);
    assert_eq!(engine.get_resources().len(), 1);
    assert_eq!(engine.get_time(), 1);
    assert_eq!(*engine.get_params(), EngineParams::default());
    engine.update();
    assert_eq!(engine.get_generator_seed(), 42);
}

#[test]
fn a_fresh_engine_draws_as_one_reseeded_with_zero() {
    let mut a = CSpaceEngine::new(num(800.0), num(600.0));
    let mut b = CSpaceEngine::new(num(800.0), num(600.0));
    a.initialize_plant((num(400.0), num(500.0)), num(1.0));
    b.initialize_plant((num(400.0), num(500.0)), num(1.0));
    b.reseed(5);
    b.reseed(b.get_generator_seed() - 5);
    let mut tick = 0;
    while tick < 20 {
        a.update();
        b.update();
        assert_eq!(a.get_nodes(), b.get_nodes());
        tick += 1;
    }
}

#[test]
fn a_draw_is_made_of_three_counts() {
    let draw = NodeDraw::from_counts(250_000_000, 999_999_999, 6_283_185_307);
    assert_eq!(draw.growth, num(0.25));
    assert_eq!(draw.branch, Scalar::from_raw(999_999_999));
    assert_eq!(draw.angle, Scalar::from_raw(6_283_185_307));
    let beyond = NodeDraw::from_counts(u64::MAX, 0, 0);
    assert_eq!(beyond.growth, Scalar::from_raw(i64::MAX));
    assert_eq!(beyond.branch, Scalar::zero());
}
