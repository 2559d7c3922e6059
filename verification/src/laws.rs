//! What holds of every tick.

use vstd::prelude::*;
use crate::attention::{
    attention, attention_direction, attention_weight, direction_sum, weight_sum,
};
use crate::dynamics::{advanced, resets, RESET_COHERENCE_RAW};
use crate::field::{
    energy_at, gathered_energy, light_gain, light_reaches, BASE_ENERGY_RAW, MAX_ENERGY_RAW,
    MIN_ENERGY_RAW,
};
use crate::growth::{
    branch_child, extend_child, extend_step, extend_target, extension, offshoot, Domain,
    BRANCH_AGE, BRANCH_KEEP_RAW, EXTEND_AGE,
};
use crate::node::{PlantNode, ResourceKind, ResourcePoint};
use crate::params::EngineParams;
use crate::scalar::{
    lemma_mul_fraction, lemma_mul_nonnegative, lemma_unit_laws, tdiv, Scalar, ONE_RAW,
};
use crate::tick::{
    adopted, after_branch, after_extend, brood_after, carried, has_room, ticked, visited, vital,
    Brood, EngineState, NodeDraw,
};
use crate::vector::Vector2D;

verus! {

/// A tick of the dynamics leaves a node vital, whatever it was, and keeps
/// its identity, place, energy, parent, age and time trace.
pub proof fn lemma_advanced(resources: Seq<ResourcePoint>, params: EngineParams, node: PlantNode)
    ensures
        vital(advanced(resources, params, node)),
        advanced(resources, params, node).id == node.id,
        advanced(resources, params, node).position == node.position,
        advanced(resources, params, node).energy == node.energy,
        advanced(resources, params, node).parent == node.parent,
        advanced(resources, params, node).age == node.age,
        advanced(resources, params, node).c_t == node.c_t,
        resets(resources, params, node) ==> advanced(resources, params, node).coherence@
            == RESET_COHERENCE_RAW && advanced(resources, params, node).distortion@ == 0,
        !resets(resources, params, node) ==> advanced(
            resources,
            params,
            node,
        ).temporal_complexity@ >= 0,
{
}

/// The children of a vital node are vital.
pub proof fn lemma_children_vital(
    resources: Seq<ResourcePoint>,
    params: EngineParams,
    domain: Domain,
    node: PlantNode,
    id: usize,
    angle: Scalar,
)
    requires
        vital(node),
    ensures
        vital(extension(resources, params, domain, node, id)),
        vital(offshoot(resources, params, domain, node, id, angle)),
{
    lemma_mul_fraction(node.coherence, Scalar::from_raw(crate::growth::EXTEND_KEEP_RAW));
    lemma_mul_fraction(node.distortion, Scalar::from_raw(crate::field::HALF_RAW));
    lemma_mul_fraction(node.coherence, Scalar::from_raw(crate::growth::BRANCH_KEEP_RAW));
    lemma_mul_fraction(node.distortion, Scalar::from_raw(crate::growth::BRANCH_KEEP_RAW));
}

/// A node of age 20 or more has no extension, and a node of age 5 or more
/// has no branch, whatever its coherence.
pub proof fn lemma_age_gates(
    resources: Seq<ResourcePoint>,
    params: EngineParams,
    domain: Domain,
    node: PlantNode,
    id: usize,
    angle: Scalar,
)
    ensures
        node.age >= EXTEND_AGE ==> extend_child(resources, params, domain, node, id).is_none(),
        node.age >= BRANCH_AGE ==> branch_child(
            resources,
            params,
            domain,
            node,
            id,
            angle,
        ).is_none(),
{
}

/// Whether `x` is the extension of `parent` or a branch of it at some
/// angle, made by an engine in state `e`.
pub open spec fn is_child_of(e: EngineState, parent: PlantNode, x: PlantNode) -> bool {
    ||| x == extension(e.resources, e.params, e.domain, parent, x.id)
    ||| exists|angle: Scalar|
        x == #[trigger] offshoot(e.resources, e.params, e.domain, parent, x.id, angle)
}

/// What holds of a node `x` of the brood `b` of a tick on `e` that has
/// visited `n` nodes: it is vital, at most one tick older than the engine
/// was, named below the next identifier and above its parent; if it bears
/// an identifier of the old population it is the node of that name carried
/// over; if not, it is a child of one of the `n` nodes visited.
pub open spec fn brood_node_ok(e: EngineState, b: Brood, n: int, x: PlantNode) -> bool {
    &&& vital(x)
    &&& 0 <= x.age <= e.time + 1
    &&& x.id < b.next_id
    &&& (x.parent matches Some(p) ==> p < x.id)
    &&& x.id < e.next_id ==> exists|i: int|
        0 <= i < n && x == carried(e.resources, e.params, #[trigger] e.nodes[i])
    &&& x.id >= e.next_id ==> exists|i: int|
        0 <= i < n && is_child_of(e, #[trigger] e.nodes[i], x)
}

/// What holds of the brood `b` of a tick on `e` that has visited `n`
/// nodes.
pub open spec fn brood_ok(e: EngineState, b: Brood, n: int) -> bool {
    &&& 0 <= n <= e.nodes.len()
    &&& e.next_id <= b.next_id
    &&& n <= b.nodes.len()
    &&& b.nodes.len() - n == b.next_id - e.next_id
    &&& (b.nodes.len() == n || e.nodes.len() + (b.nodes.len() - n) <= e.params.max_nodes)
    &&& forall|k: int| 0 <= k < b.nodes.len() ==> brood_node_ok(e, b, n, #[trigger] b.nodes[k])
    &&& forall|j: int, k: int|
        0 <= j < b.nodes.len() && 0 <= k < b.nodes.len() && j != k ==> (#[trigger] b.nodes[j]).id
            != (#[trigger] b.nodes[k]).id
    &&& forall|i: int|
        0 <= i < n ==> b.nodes.contains(carried(e.resources, e.params, #[trigger] e.nodes[i]))
}

proof fn lemma_adopt(e: EngineState, b: Brood, n: int, i: int, child: PlantNode)
    requires
        e.wf(),
        e.time < i32::MAX,
        brood_ok(e, b, n),
        0 <= i < n,
        has_room(e, b, n),
        vital(child),
        child.id == b.next_id,
        is_child_of(e, e.nodes[i], child),
    ensures
        brood_ok(e, adopted(b, child), n),
{
    let a = adopted(b, child);
    assert(e.nodes[i].id < e.next_id);
    assert(child.age == 0 && child.parent == Some(e.nodes[i].id));
    assert forall|k: int| 0 <= k < a.nodes.len() implies brood_node_ok(
        e,
        a,
        n,
        #[trigger] a.nodes[k],
    ) by {
        if k < b.nodes.len() {
            assert(a.nodes[k] == b.nodes[k]);
            assert(brood_node_ok(e, b, n, b.nodes[k]));
        } else {
            assert(a.nodes[k] == child);
        }
    }
    assert forall|j: int, k: int|
        0 <= j < a.nodes.len() && 0 <= k < a.nodes.len() && j != k implies (
    #[trigger] a.nodes[j]).id != (#[trigger] a.nodes[k]).id by {
        if j < b.nodes.len() {
            assert(brood_node_ok(e, b, n, b.nodes[j]));
        }
        if k < b.nodes.len() {
            assert(brood_node_ok(e, b, n, b.nodes[k]));
        }
    }
    assert forall|w: int| 0 <= w < n implies a.nodes.contains(
        carried(e.resources, e.params, #[trigger] e.nodes[w]),
    ) by {
        let c = carried(e.resources, e.params, e.nodes[w]);
        assert(b.nodes.contains(c));
        let at = choose|at: int| 0 <= at < b.nodes.len() && b.nodes[at] == c;
        assert(a.nodes[at] == c);
    }
}

proof fn lemma_keep(e: EngineState, b: Brood, n: int)
    requires
        e.wf(),
        e.time < i32::MAX,
        brood_ok(e, b, n),
        n < e.nodes.len(),
    ensures
        brood_ok(
            e,
            Brood { nodes: b.nodes.push(carried(e.resources, e.params, e.nodes[n])), ..b },
            n + 1,
        ),
{
    let node = e.nodes[n];
    let c = carried(e.resources, e.params, node);
    let grown = PlantNode {
        energy: crate::field::energy_at(e.resources, e.params.max_energy_distance, node.position),
        age: (node.age + 1) as i32,
        ..node
    };
    lemma_advanced(e.resources, e.params, grown);
    let a = Brood { nodes: b.nodes.push(c), ..b };
    assert(c.id == node.id && c.parent == node.parent && c.age == node.age + 1);
    assert forall|k: int| 0 <= k < a.nodes.len() implies brood_node_ok(
        e,
        a,
        n + 1,
        #[trigger] a.nodes[k],
    ) by {
        if k < b.nodes.len() {
            assert(a.nodes[k] == b.nodes[k]);
            let x = b.nodes[k];
            assert(brood_node_ok(e, b, n, x));
            if x.id < e.next_id {
                let i = choose|i: int|
                    0 <= i < n && x == carried(e.resources, e.params, #[trigger] e.nodes[i]);
                assert(0 <= i < n + 1 && x == carried(e.resources, e.params, e.nodes[i]));
            } else {
                let i = choose|i: int| 0 <= i < n && is_child_of(e, #[trigger] e.nodes[i], x);
                assert(0 <= i < n + 1 && is_child_of(e, e.nodes[i], x));
                assert(x.age == 0 && x.parent == Some(e.nodes[i].id));
            }
        } else {
            assert(a.nodes[k] == c);
            assert(0 <= n < n + 1 && c == carried(e.resources, e.params, e.nodes[n]));
        }
    }
    assert forall|j: int, k: int|
        0 <= j < a.nodes.len() && 0 <= k < a.nodes.len() && j != k implies (
    #[trigger] a.nodes[j]).id != (#[trigger] a.nodes[k]).id by {
        lemma_old_names(e, b, n, j);
        lemma_old_names(e, b, n, k);
    }
    assert forall|w: int| 0 <= w < n + 1 implies a.nodes.contains(
        carried(e.resources, e.params, #[trigger] e.nodes[w]),
    ) by {
        if w < n {
            let cw = carried(e.resources, e.params, e.nodes[w]);
            assert(b.nodes.contains(cw));
            let at = choose|at: int| 0 <= at < b.nodes.len() && b.nodes[at] == cw;
            assert(a.nodes[at] == cw);
        } else {
            assert(a.nodes[b.nodes.len() as int] == c);
        }
    }
}

/// A node of the brood is named otherwise than the node that is visited
/// next.
proof fn lemma_old_names(e: EngineState, b: Brood, n: int, k: int)
    requires
        e.wf(),
        brood_ok(e, b, n),
        n < e.nodes.len(),
    ensures
        0 <= k < b.nodes.len() ==> b.nodes[k].id != e.nodes[n].id,
{
    if 0 <= k < b.nodes.len() {
        let x = b.nodes[k];
        assert(brood_node_ok(e, b, n, x));
        if x.id < e.next_id {
            let i = choose|i: int|
                0 <= i < n && x == carried(e.resources, e.params, #[trigger] e.nodes[i]);
            let grown = PlantNode {
                energy: crate::field::energy_at(
                    e.resources,
                    e.params.max_energy_distance,
                    e.nodes[i].position,
                ),
                age: (e.nodes[i].age + 1) as i32,
                ..e.nodes[i]
            };
            lemma_advanced(e.resources, e.params, grown);
            assert(x.id == e.nodes[i].id);
            assert(e.nodes[i].id != e.nodes[n].id);
        } else {
            assert(e.nodes[n].id < e.next_id);
        }
    }
}

/// Visiting one more node keeps the brood in order.
pub proof fn lemma_visit(e: EngineState, b: Brood, n: int, draw: NodeDraw)
    requires
        e.wf(),
        e.time < i32::MAX,
        brood_ok(e, b, n),
        n < e.nodes.len(),
    ensures
        brood_ok(e, visited(e, b, n, draw), n + 1),
{
    let node = e.nodes[n];
    let kept = Brood { nodes: b.nodes.push(carried(e.resources, e.params, node)), ..b };
    lemma_keep(e, b, n);
    let mid = after_extend(e, kept, node, draw, n + 1);
    if mid != kept {
        let child = extension(e.resources, e.params, e.domain, node, kept.next_id);
        lemma_children_vital(e.resources, e.params, e.domain, node, kept.next_id, draw.angle);
        assert(is_child_of(e, node, child));
        lemma_adopt(e, kept, n + 1, n, child);
    }
    let end = after_branch(e, mid, node, draw, n + 1);
    if end != mid {
        let child = offshoot(e.resources, e.params, e.domain, node, mid.next_id, draw.angle);
        lemma_children_vital(e.resources, e.params, e.domain, node, mid.next_id, draw.angle);
        assert(child == offshoot(e.resources, e.params, e.domain, node, child.id, draw.angle));
        assert(is_child_of(e, node, child));
        lemma_adopt(e, mid, n + 1, n, child);
    }
}

/// The brood of a tick is in order after any number of visits.
pub proof fn lemma_brood(e: EngineState, draws: Seq<NodeDraw>, n: nat)
    requires
        e.wf(),
        e.time < i32::MAX,
        n <= e.nodes.len(),
    ensures
        brood_ok(e, brood_after(e, draws, n), n as int),
    decreases n,
{
    if n > 0 {
        lemma_brood(e, draws, (n - 1) as nat);
        lemma_visit(e, brood_after(e, draws, (n - 1) as nat), n - 1, draws[n - 1]);
    }
}

/// A tick keeps an engine in order and raises the tick counter by one; it
/// never lowers the next identifier.
pub proof fn lemma_tick_keeps_order(e: EngineState, draws: Seq<NodeDraw>)
    requires
        e.wf(),
        e.time < i32::MAX,
    ensures
        ticked(e, draws).wf(),
        ticked(e, draws).time == e.time + 1,
        ticked(e, draws).next_id >= e.next_id,
        ticked(e, draws).resources == e.resources,
        ticked(e, draws).params == e.params,
        ticked(e, draws).domain == e.domain,
{
    let b = brood_after(e, draws, e.nodes.len());
    lemma_brood(e, draws, e.nodes.len());
    let t = ticked(e, draws);
    assert forall|i: int| 0 <= i < t.nodes.len() implies {
        &&& 0 <= (#[trigger] t.nodes[i]).age <= t.time
        &&& t.nodes[i].id < t.next_id
        &&& vital(t.nodes[i])
        &&& (t.nodes[i].parent matches Some(p) ==> p < t.nodes[i].id)
    } by {
        assert(brood_node_ok(e, b, e.nodes.len() as int, b.nodes[i]));
    }
}

/// A tick deletes no node, and adds children only while the population
/// and the children of the tick together stay within the cap: afterwards
/// the population is as large as before, or larger and within the cap.
pub proof fn lemma_population_cap(e: EngineState, draws: Seq<NodeDraw>)
    requires
        e.wf(),
        e.time < i32::MAX,
    ensures
        ticked(e, draws).nodes.len() >= e.nodes.len(),
        ticked(e, draws).nodes.len() == e.nodes.len() || ticked(e, draws).nodes.len()
            <= e.params.max_nodes,
        e.nodes.len() <= e.params.max_nodes ==> ticked(e, draws).nodes.len()
            <= e.params.max_nodes,
{
    lemma_brood(e, draws, e.nodes.len());
}

/// Every node is carried into the next generation, and every node of the
/// next generation is either a node carried over or a new node: of age
/// zero, the extension or a branch of a node that was in the population
/// before the tick, which it names as its parent.
pub proof fn lemma_lineage(e: EngineState, draws: Seq<NodeDraw>)
    requires
        e.wf(),
        e.time < i32::MAX,
    ensures
        forall|i: int|
            0 <= i < e.nodes.len() ==> ticked(e, draws).nodes.contains(
                carried(e.resources, e.params, #[trigger] e.nodes[i]),
            ),
        forall|k: int|
            0 <= k < ticked(e, draws).nodes.len() ==> {
                let x = #[trigger] ticked(e, draws).nodes[k];
                ||| exists|i: int|
                    0 <= i < e.nodes.len() && x == carried(
                        e.resources,
                        e.params,
                        #[trigger] e.nodes[i],
                    )
                ||| x.age == 0 && x.id >= e.next_id && exists|i: int|
                    0 <= i < e.nodes.len() && x.parent == Some((#[trigger] e.nodes[i]).id)
                        && is_child_of(e, e.nodes[i], x)
            },
{
    let b = brood_after(e, draws, e.nodes.len());
    lemma_brood(e, draws, e.nodes.len());
    assert forall|k: int| 0 <= k < ticked(e, draws).nodes.len() implies {
        let x = #[trigger] ticked(e, draws).nodes[k];
        ||| exists|i: int|
            0 <= i < e.nodes.len() && x == carried(e.resources, e.params, #[trigger] e.nodes[i])
        ||| x.age == 0 && x.id >= e.next_id && exists|i: int|
            0 <= i < e.nodes.len() && x.parent == Some((#[trigger] e.nodes[i]).id) && is_child_of(
                e,
                e.nodes[i],
                x,
            )
    } by {
        let x = b.nodes[k];
        assert(brood_node_ok(e, b, e.nodes.len() as int, x));
        if x.id >= e.next_id {
            let i = choose|i: int|
                0 <= i < e.nodes.len() && is_child_of(e, #[trigger] e.nodes[i], x);
            assert(x.parent == Some(e.nodes[i].id) && x.age == 0);
        }
    }
}

/// Whether no light of `resources` has a negative intensity.
pub open spec fn lights_give(resources: Seq<ResourcePoint>) -> bool {
    forall|i: int|
        0 <= i < resources.len() && (#[trigger] resources[i]).kind == ResourceKind::Light
            ==> resources[i].intensity@ >= 0
}

/// A light that reaches a position and has no negative intensity adds
/// nothing negative there.
pub proof fn lemma_gain_nonnegative(r: ResourcePoint, reach: Scalar, pos: Vector2D)
    requires
        light_reaches(r, reach, pos),
        r.intensity@ >= 0,
    ensures
        light_gain(r, reach, pos)@ >= 0,
{
    let d = pos.distance(&r.position);
    lemma_magnitude_nonnegative(pos.sub(r.position));
    let q = d.div(reach);
    assert(0 <= q@ <= ONE_RAW) by {
        let n = d@ * ONE_RAW;
        assert(0 <= n && n / reach@ <= 1_000_000_000 && n / reach@ >= 0) by (nonlinear_arith)
            requires
                n == d@ * 1_000_000_000,
                0 <= d@ < reach@,
        ;
        assert(tdiv(n, reach@) == n / reach@);
    }
    let share = Scalar::one().sub(q);
    lemma_mul_nonnegative(r.intensity, share);
    lemma_mul_nonnegative(r.intensity.mul(share), Scalar::from_int(2));
}

/// The length of a vector is not negative.
pub proof fn lemma_magnitude_nonnegative(v: Vector2D)
    ensures
        v.magnitude()@ >= 0,
{
}

/// Where no light has a negative intensity, the energy gathered at a
/// position is at least the base energy, and so is the energy available.
pub proof fn lemma_energy_floor(resources: Seq<ResourcePoint>, reach: Scalar, pos: Vector2D)
    requires
        lights_give(resources),
    ensures
        gathered_energy(resources, reach, pos)@ >= BASE_ENERGY_RAW,
        energy_at(resources, reach, pos)@ >= BASE_ENERGY_RAW,
    decreases resources.len(),
{
    if resources.len() > 0 {
        let front = resources.drop_last();
        assert(forall|i: int| 0 <= i < front.len() ==> front[i] == resources[i]);
        lemma_energy_floor(front, reach, pos);
        let last = resources[resources.len() - 1];
        if light_reaches(last, reach, pos) {
            lemma_gain_nonnegative(last, reach, pos);
        }
    }
}

/// The energy available at a position lies in `[0.1, 1.5]`.
pub proof fn lemma_energy_range(resources: Seq<ResourcePoint>, reach: Scalar, pos: Vector2D)
    ensures
        MIN_ENERGY_RAW <= energy_at(resources, reach, pos)@ <= MAX_ENERGY_RAW,
{
}

/// Least energy of a branch in its first tick: 0.8 times 0.1.
pub const BRANCH_MIN_ENERGY_RAW: i64 = 80_000_000;

/// After a tick every node has an energy of at most 1.5 and of at least
/// 0.1, but for a branch made in this tick, whose energy is at least 0.08.
pub proof fn lemma_tick_energy(e: EngineState, draws: Seq<NodeDraw>, k: int)
    requires
        e.wf(),
        e.time < i32::MAX,
        0 <= k < ticked(e, draws).nodes.len(),
    ensures
        BRANCH_MIN_ENERGY_RAW <= ticked(e, draws).nodes[k].energy@ <= MAX_ENERGY_RAW,
        ticked(e, draws).nodes[k].id < e.next_id ==> ticked(e, draws).nodes[k].energy@
            >= MIN_ENERGY_RAW,
        lights_give(e.resources) ==> ticked(e, draws).nodes[k].energy@ >= MIN_ENERGY_RAW,
{
    let b = brood_after(e, draws, e.nodes.len());
    lemma_brood(e, draws, e.nodes.len());
    let x = b.nodes[k];
    let reach = e.params.max_energy_distance;
    assert(brood_node_ok(e, b, e.nodes.len() as int, x));
    if x.id < e.next_id {
        let i = choose|i: int|
            0 <= i < e.nodes.len() && x == carried(e.resources, e.params, #[trigger] e.nodes[i]);
        let grown = PlantNode {
            energy: energy_at(e.resources, reach, e.nodes[i].position),
            age: (e.nodes[i].age + 1) as i32,
            ..e.nodes[i]
        };
        lemma_advanced(e.resources, e.params, grown);
    } else {
        let i = choose|i: int| 0 <= i < e.nodes.len() && is_child_of(e, #[trigger] e.nodes[i], x);
        let parent = e.nodes[i];
        if x == extension(e.resources, e.params, e.domain, parent, x.id) {
        } else {
            let angle = choose|angle: Scalar|
                x == #[trigger] offshoot(e.resources, e.params, e.domain, parent, x.id, angle);
            let at = energy_at(e.resources, reach, x.position);
            let keep = Scalar::from_raw(BRANCH_KEEP_RAW);
            assert(x.energy == at.mul(keep));
            lemma_mul_fraction(at, keep);
            let p = at@ * keep@;
            assert(p / 1_000_000_000 >= 80_000_000) by (nonlinear_arith)
                requires
                    p == at@ * 800_000_000,
                    at@ >= 100_000_000,
            ;
            assert(tdiv(p, ONE_RAW as int) == p / (ONE_RAW as int));
            if lights_give(e.resources) {
                lemma_energy_floor(e.resources, reach, x.position);
                assert(p / 1_000_000_000 >= 240_000_000) by (nonlinear_arith)
                    requires
                        p == at@ * 800_000_000,
                        at@ >= 300_000_000,
                ;
            }
        }
    }
}

/// Whether a node that is reset in its tick has a time trace whose
/// logarithm, taken with epsilon added, is not negative.
pub open spec fn resets_upward(e: EngineState, node: PlantNode) -> bool {
    let grown = PlantNode {
        energy: energy_at(e.resources, e.params.max_energy_distance, node.position),
        age: (node.age + 1) as i32,
        ..node
    };
    resets(e.resources, e.params, grown) ==> node.c_t.magnitude().add(e.params.epsilon).ln()@
        >= 0
}

/// Where no node has a negative temporal complexity before a tick, and
/// none is reset on a time trace with a negative logarithm, none has a
/// negative temporal complexity after the tick.
pub proof fn lemma_tick_temporal(e: EngineState, draws: Seq<NodeDraw>, k: int)
    requires
        e.wf(),
        e.time < i32::MAX,
        forall|i: int| 0 <= i < e.nodes.len() ==> (#[trigger] e.nodes[i]).temporal_complexity@ >= 0,
        forall|i: int| 0 <= i < e.nodes.len() ==> resets_upward(e, #[trigger] e.nodes[i]),
        0 <= k < ticked(e, draws).nodes.len(),
    ensures
        ticked(e, draws).nodes[k].temporal_complexity@ >= 0,
{
    let b = brood_after(e, draws, e.nodes.len());
    lemma_brood(e, draws, e.nodes.len());
    let x = b.nodes[k];
    let reach = e.params.max_energy_distance;
    assert(brood_node_ok(e, b, e.nodes.len() as int, x));
    if x.id < e.next_id {
        let i = choose|i: int|
            0 <= i < e.nodes.len() && x == carried(e.resources, e.params, #[trigger] e.nodes[i]);
        let grown = PlantNode {
            energy: energy_at(e.resources, reach, e.nodes[i].position),
            age: (e.nodes[i].age + 1) as i32,
            ..e.nodes[i]
        };
        lemma_advanced(e.resources, e.params, grown);
        assert(resets_upward(e, e.nodes[i]));
        if resets(e.resources, e.params, grown) {
            lemma_mul_nonnegative(
                grown.energy,
                grown.c_t.magnitude().add(e.params.epsilon).ln(),
            );
        }
    } else {
        let i = choose|i: int| 0 <= i < e.nodes.len() && is_child_of(e, #[trigger] e.nodes[i], x);
        assert(e.nodes[i].temporal_complexity@ >= 0);
    }
}

/// Where there is a single resource and its weight is positive and at
/// least epsilon, the attention is the unit direction toward it, and an
/// extension aims one full step along that direction.
pub proof fn lemma_single_attention(r: ResourcePoint, node: PlantNode, params: EngineParams)
    requires
        attention_weight(node, r, params)@ > 0,
        attention_weight(node, r, params)@ >= params.epsilon@,
    ensures
        attention(seq![r], node, params) == attention_direction(node, r),
        extend_target(seq![r], params, node) == node.position.add(
            attention_direction(node, r).mul(extend_step(node, params)),
        ),
{
    let w = attention_weight(node, r, params);
    let d = attention_direction(node, r);
    let one = seq![r];
    assert(one.drop_last() =~= Seq::<ResourcePoint>::empty());
    assert(one.last() == r);
    assert(weight_sum(one.drop_last(), node, params) == Scalar::zero());
    assert(weight_sum(one, node, params) == w);
    let total = w.max(params.epsilon);
    assert(total == w);
    lemma_unit_laws(w);
    lemma_unit_laws(d.x);
    lemma_unit_laws(d.y);
    assert(direction_sum(one.drop_last(), node, params, total) == Vector2D::new(
        Scalar::zero(),
        Scalar::zero(),
    ));
    assert(direction_sum(one, node, params, total) == d);
}

/// In a domain whose sizes are not negative, every node made in a tick
/// stands within the domain.
pub proof fn lemma_tick_places(e: EngineState, draws: Seq<NodeDraw>, k: int)
    requires
        e.wf(),
        e.time < i32::MAX,
        e.domain.width@ >= 0,
        e.domain.height@ >= 0,
        0 <= k < ticked(e, draws).nodes.len(),
        ticked(e, draws).nodes[k].id >= e.next_id,
    ensures
        e.domain.holds(ticked(e, draws).nodes[k].position),
{
    let b = brood_after(e, draws, e.nodes.len());
    lemma_brood(e, draws, e.nodes.len());
    let x = b.nodes[k];
    assert(brood_node_ok(e, b, e.nodes.len() as int, x));
    let i = choose|i: int| 0 <= i < e.nodes.len() && is_child_of(e, #[trigger] e.nodes[i], x);
    let parent = e.nodes[i];
    if x == extension(e.resources, e.params, e.domain, parent, x.id) {
    } else {
        let angle = choose|angle: Scalar|
            x == #[trigger] offshoot(e.resources, e.params, e.domain, parent, x.id, angle);
    }
}

/// The population after a tick, and the next identifier, depend only on
/// the population, the resources, the parameters, the domain, the next
/// identifier and the numbers drawn: two engines that agree on these
/// before a tick agree on them after it.
pub proof fn lemma_same_draws_same_population(a: EngineState, b: EngineState, draws: Seq<NodeDraw>)
    requires
        a.nodes == b.nodes,
        a.resources == b.resources,
        a.params == b.params,
        a.domain == b.domain,
        a.next_id == b.next_id,
    ensures
        ticked(a, draws).nodes == ticked(b, draws).nodes,
        ticked(a, draws).next_id == ticked(b, draws).next_id,
        ticked(a, draws).paths == ticked(b, draws).paths,
        ticked(a, draws).resources == ticked(b, draws).resources,
        ticked(a, draws).params == ticked(b, draws).params,
        ticked(a, draws).domain == ticked(b, draws).domain,
{
    lemma_same_brood(a, b, draws, a.nodes.len());
}

proof fn lemma_same_brood(a: EngineState, b: EngineState, draws: Seq<NodeDraw>, n: nat)
    requires
        a.nodes == b.nodes,
        a.resources == b.resources,
        a.params == b.params,
        a.domain == b.domain,
        a.next_id == b.next_id,
    ensures
        brood_after(a, draws, n) == brood_after(b, draws, n),
    decreases n,
{
    if n > 0 {
        lemma_same_brood(a, b, draws, (n - 1) as nat);
    }
}

/// The state after the ticks that `rounds` gives the numbers for, one
/// element for each tick, first to last.
pub open spec fn replayed(e: EngineState, rounds: Seq<Seq<NodeDraw>>) -> EngineState
    decreases rounds.len(),
{
    if rounds.len() == 0 {
        e
    } else {
        ticked(replayed(e, rounds.drop_last()), rounds.last())
    }
}

/// Two engines that agree on population, resources, parameters, domain and
/// next identifier, and are given the same numbers tick after tick, agree
/// on all of these after every tick.
pub proof fn lemma_replay(a: EngineState, b: EngineState, rounds: Seq<Seq<NodeDraw>>)
    requires
        a.nodes == b.nodes,
        a.resources == b.resources,
        a.params == b.params,
        a.domain == b.domain,
        a.next_id == b.next_id,
    ensures
        replayed(a, rounds).nodes == replayed(b, rounds).nodes,
        replayed(a, rounds).resources == replayed(b, rounds).resources,
        replayed(a, rounds).params == replayed(b, rounds).params,
        replayed(a, rounds).domain == replayed(b, rounds).domain,
        replayed(a, rounds).next_id == replayed(b, rounds).next_id,
    decreases rounds.len(),
{
    if rounds.len() > 0 {
        lemma_replay(a, b, rounds.drop_last());
        lemma_same_draws_same_population(
            replayed(a, rounds.drop_last()),
            replayed(b, rounds.drop_last()),
            rounds.last(),
        );
    }
}

} // verus!
