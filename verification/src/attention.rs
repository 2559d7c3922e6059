//! The attention mechanism: the direction in which a node is drawn by the
//! resources, each weighted by its distance and by the node's own state.

use vstd::prelude::*;
use crate::node::{PlantNode, ResourcePoint};
use crate::params::EngineParams;
use crate::scalar::Scalar;
use crate::vector::Vector2D;

verus! {

/// The weight of `r` for `node`:
/// `exp(-lambda * distance / energy²) * coherence / max(distortion, epsilon)`.
pub open spec fn attention_weight(node: PlantNode, r: ResourcePoint, params: EngineParams)
    -> Scalar {
    let dist = node.position.distance(&r.position);
    let g11 = Scalar::one().div(node.energy.mul(node.energy));
    let decay = params.lambda.neg().mul(dist).mul(g11).exp();
    decay.mul(node.coherence.div(node.distortion.max(params.epsilon)))
}

/// The unit vector from `node` toward `r`; straight up where they coincide.
pub open spec fn attention_direction(node: PlantNode, r: ResourcePoint) -> Vector2D {
    r.position.sub(node.position).normalize()
}

/// The sum of the weights of all resources, whatever their kind, added in
/// the order of `resources`.
pub open spec fn weight_sum(resources: Seq<ResourcePoint>, node: PlantNode, params: EngineParams)
    -> Scalar
    decreases resources.len(),
{
    if resources.len() == 0 {
        Scalar::zero()
    } else {
        weight_sum(resources.drop_last(), node, params).add(
            attention_weight(node, resources.last(), params),
        )
    }
}

/// The sum of the directions toward all resources, each scaled by its
/// weight divided by `total`.
pub open spec fn direction_sum(
    resources: Seq<ResourcePoint>,
    node: PlantNode,
    params: EngineParams,
    total: Scalar,
) -> Vector2D
    decreases resources.len(),
{
    if resources.len() == 0 {
        Vector2D::new(Scalar::zero(), Scalar::zero())
    } else {
        direction_sum(resources.drop_last(), node, params, total).add(
            attention_direction(node, resources.last()).mul(
                attention_weight(node, resources.last(), params).div(total),
            ),
        )
    }
}

/// The direction of attention of `node`: the average of the directions
/// toward the resources, weighted by their share of the total weight, which
/// is taken to be at least `epsilon`. The average is not scaled back to
/// length one.
pub open spec fn attention(resources: Seq<ResourcePoint>, node: PlantNode, params: EngineParams)
    -> Vector2D {
    direction_sum(
        resources,
        node,
        params,
        weight_sum(resources, node, params).max(params.epsilon),
    )
}

fn weight_of(node: &PlantNode, r: &ResourcePoint, params: &EngineParams) -> (w: Scalar)
    ensures
        w == attention_weight(*node, *r, *params),
{
    let dist = node.position.distance(&r.position);
    let g11 = Scalar::one().div(node.energy.mul(node.energy));
    let decay = params.lambda.neg().mul(dist).mul(g11).exp();
    decay.mul(node.coherence.div(node.distortion.max(params.epsilon)))
}

/// The direction of attention of `node`.
pub fn compute_attention(resources: &Vec<ResourcePoint>, params: &EngineParams, node: &PlantNode)
    -> (d: Vector2D)
    ensures
        d == attention(resources@, *node, *params),
{
    let mut sum = Scalar::zero();
    let mut i: usize = 0;
    assert(resources@.take(0).len() == 0);
    while i < resources.len()
        invariant
            0 <= i <= resources.len(),
            sum == weight_sum(resources@.take(i as int), *node, *params),
        decreases resources.len() - i,
    {
        proof {
            let upto = resources@.take(i + 1);
            assert(upto.drop_last() =~= resources@.take(i as int));
            assert(upto.last() == resources@[i as int]);
        }
        sum = sum.add(weight_of(node, &resources[i], params));
        i = i + 1;
    }
    assert(resources@.take(i as int) =~= resources@);
    let total = sum.max(params.epsilon);
    let mut acc = Vector2D::new(Scalar::zero(), Scalar::zero());
    let mut j: usize = 0;
    while j < resources.len()
        invariant
            0 <= j <= resources.len(),
            acc == direction_sum(resources@.take(j as int), *node, *params, total),
        decreases resources.len() - j,
    {
        proof {
            let upto = resources@.take(j + 1);
            assert(upto.drop_last() =~= resources@.take(j as int));
            assert(upto.last() == resources@[j as int]);
        }
        let r = &resources[j];
        let direction = r.position.sub(node.position).normalize();
        acc = acc.add(direction.mul(weight_of(node, r, params).div(total)));
        j = j + 1;
    }
    assert(resources@.take(j as int) =~= resources@);
    acc
}

} // verus!
