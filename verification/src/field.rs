//! The resource field: the energy that the lights give at a position, and
//! the distance to the nearest light.

use vstd::prelude::*;
use crate::node::{ResourceKind, ResourcePoint};
use crate::scalar::Scalar;
use crate::vector::Vector2D;

verus! {

/// Energy where no light reaches: 0.3.
pub const BASE_ENERGY_RAW: i64 = 300_000_000;

/// Least energy of a position: 0.1.
pub const MIN_ENERGY_RAW: i64 = 100_000_000;

/// Greatest energy of a position: 1.5.
pub const MAX_ENERGY_RAW: i64 = 1_500_000_000;

/// Spatial complexity where there is no light: 0.5.
pub const HALF_RAW: i64 = 500_000_000;

/// Whether `r` is a light closer to `pos` than `reach`.
pub open spec fn light_reaches(r: ResourcePoint, reach: Scalar, pos: Vector2D) -> bool {
    r.kind == ResourceKind::Light && pos.distance(&r.position).lt(reach)
}

/// What the light `r` adds at `pos`: `intensity * (1 - distance / reach) * 2`.
pub open spec fn light_gain(r: ResourcePoint, reach: Scalar, pos: Vector2D) -> Scalar {
    r.intensity.mul(Scalar::one().sub(pos.distance(&r.position).div(reach))).mul(
        Scalar::from_int(2),
    )
}

/// The base energy plus the gains of all lights that reach `pos`, added in
/// the order of `resources`.
pub open spec fn gathered_energy(resources: Seq<ResourcePoint>, reach: Scalar, pos: Vector2D)
    -> Scalar
    decreases resources.len(),
{
    if resources.len() == 0 {
        Scalar::from_raw(BASE_ENERGY_RAW)
    } else {
        let earlier = gathered_energy(resources.drop_last(), reach, pos);
        if light_reaches(resources.last(), reach, pos) {
            earlier.add(light_gain(resources.last(), reach, pos))
        } else {
            earlier
        }
    }
}

/// The energy available at `pos`: the gathered energy kept within
/// `[0.1, 1.5]`.
pub open spec fn energy_at(resources: Seq<ResourcePoint>, reach: Scalar, pos: Vector2D)
    -> Scalar {
    gathered_energy(resources, reach, pos).clamp(
        Scalar::from_raw(MIN_ENERGY_RAW),
        Scalar::from_raw(MAX_ENERGY_RAW),
    )
}

/// The least distance from `pos` to a light of `resources`, if there is one.
pub open spec fn nearest_light(resources: Seq<ResourcePoint>, pos: Vector2D) -> Option<Scalar>
    decreases resources.len(),
{
    if resources.len() == 0 {
        None
    } else {
        let earlier = nearest_light(resources.drop_last(), pos);
        let r = resources.last();
        if r.kind == ResourceKind::Light {
            let d = pos.distance(&r.position);
            match earlier {
                Some(best) => Some(best.min(d)),
                None => Some(d),
            }
        } else {
            earlier
        }
    }
}

/// The spatial complexity at `pos`: the distance to the nearest light as a
/// fraction of `reach`, at most one; one half where there is no light.
pub open spec fn spatial_complexity_at(
    resources: Seq<ResourcePoint>,
    reach: Scalar,
    pos: Vector2D,
) -> Scalar {
    match nearest_light(resources, pos) {
        Some(d) => d.div(reach).min(Scalar::one()),
        None => Scalar::from_raw(HALF_RAW),
    }
}

/// The nearest light is reported exactly where some resource is a light,
/// and no light is closer than the distance reported.
pub proof fn lemma_nearest_light(resources: Seq<ResourcePoint>, pos: Vector2D)
    ensures
        nearest_light(resources, pos).is_some() <==> exists|i: int|
            0 <= i < resources.len() && (#[trigger] resources[i]).kind == ResourceKind::Light,
        nearest_light(resources, pos).is_some() ==> {
            let best = nearest_light(resources, pos).unwrap();
            &&& forall|i: int|
                0 <= i < resources.len() && (#[trigger] resources[i]).kind
                    == ResourceKind::Light ==> best@ <= pos.distance(&resources[i].position)@
            &&& exists|i: int|
                0 <= i < resources.len() && (#[trigger] resources[i]).kind
                    == ResourceKind::Light && best == pos.distance(&resources[i].position)
        },
    decreases resources.len(),
{
    if resources.len() > 0 {
        let front = resources.drop_last();
        let last = resources.len() - 1;
        lemma_nearest_light(front, pos);
        assert(forall|i: int| 0 <= i < front.len() ==> front[i] == resources[i]);
        let earlier = nearest_light(front, pos);
        if resources.last().kind == ResourceKind::Light {
            assert(resources[last].kind == ResourceKind::Light);
            let d = pos.distance(&resources[last].position);
            match earlier {
                Some(best) => {
                    if d@ < best@ {
                        assert(resources[last].kind == ResourceKind::Light && d
                            == pos.distance(&resources[last].position));
                    } else {
                        let w = choose|i: int|
                            0 <= i < front.len() && (#[trigger] front[i]).kind
                                == ResourceKind::Light && best == pos.distance(
                                &front[i].position,
                            );
                        assert(resources[w].kind == ResourceKind::Light && best
                            == pos.distance(&resources[w].position));
                    }
                },
                None => {
                    assert(forall|i: int|
                        0 <= i < front.len() ==> (#[trigger] front[i]).kind
                            != ResourceKind::Light);
                },
            }
        } else {
            if earlier.is_some() {
                let best = earlier.unwrap();
                let w = choose|i: int|
                    0 <= i < front.len() && (#[trigger] front[i]).kind == ResourceKind::Light
                        && best == pos.distance(&front[i].position);
                assert(resources[w].kind == ResourceKind::Light && best == pos.distance(
                    &resources[w].position,
                ));
            } else {
                assert(forall|i: int|
                    0 <= i < front.len() ==> (#[trigger] front[i]).kind != ResourceKind::Light);
            }
        }
    }
}

/// The energy available at `pos`.
pub fn calculate_energy(resources: &Vec<ResourcePoint>, reach: Scalar, pos: Vector2D) -> (e:
    Scalar)
    ensures
        e == energy_at(resources@, reach, pos),
        MIN_ENERGY_RAW <= e@ <= MAX_ENERGY_RAW,
{
    let mut energy = Scalar::from_raw(BASE_ENERGY_RAW);
    let mut i: usize = 0;
    assert(resources@.take(0).len() == 0);
    while i < resources.len()
        invariant
            0 <= i <= resources.len(),
            energy == gathered_energy(resources@.take(i as int), reach, pos),
        decreases resources.len() - i,
    {
        let r = resources[i];
        proof {
            let upto = resources@.take(i + 1);
            assert(upto.drop_last() =~= resources@.take(i as int));
            assert(upto.last() == r);
        }
        if r.kind == ResourceKind::Light {
            let distance = pos.distance(&r.position);
            if distance.lt(reach) {
                energy = energy.add(
                    r.intensity.mul(Scalar::one().sub(distance.div(reach))).mul(
                        Scalar::from_int(2),
                    ),
                );
            }
        }
        i = i + 1;
    }
    assert(resources@.take(i as int) =~= resources@);
    energy.clamp(Scalar::from_raw(MIN_ENERGY_RAW), Scalar::from_raw(MAX_ENERGY_RAW))
}

/// The spatial complexity at `pos`.
pub fn spatial_complexity(resources: &Vec<ResourcePoint>, reach: Scalar, pos: Vector2D) -> (s:
    Scalar)
    ensures
        s == spatial_complexity_at(resources@, reach, pos),
{
    let mut nearest: Option<Scalar> = None;
    let mut i: usize = 0;
    assert(resources@.take(0).len() == 0);
    while i < resources.len()
        invariant
            0 <= i <= resources.len(),
            nearest == nearest_light(resources@.take(i as int), pos),
        decreases resources.len() - i,
    {
        let r = resources[i];
        proof {
            let upto = resources@.take(i + 1);
            assert(upto.drop_last() =~= resources@.take(i as int));
            assert(upto.last() == r);
        }
        if r.kind == ResourceKind::Light {
            let d = pos.distance(&r.position);
            nearest = match nearest {
                Some(best) => Some(best.min(d)),
                None => Some(d),
            };
        }
        i = i + 1;
    }
    assert(resources@.take(i as int) =~= resources@);
    match nearest {
        Some(d) => d.div(reach).min(Scalar::one()),
        None => Scalar::from_raw(HALF_RAW),
    }
}

} // verus!
