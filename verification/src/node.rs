//! Resources and nodes: the data that the engine holds.

use vstd::prelude::*;
use crate::scalar::Scalar;
use crate::vector::Vector2D;

verus! {

/// What a resource gives.
#[derive(Clone, Copy, Debug, PartialEq, Eq, Structural)]
pub enum ResourceKind {
    /// Feeds energy and attracts; the only kind that the energy field and
    /// the spatial complexity read.
    Light,
    Water,
    Other,
}

/// A point resource; it does not change once added.
#[derive(Clone, Copy, Debug, PartialEq, Eq, Structural)]
pub struct ResourcePoint {
    pub position: Vector2D,
    pub intensity: Scalar,
    pub kind: ResourceKind,
}

/// A node of the growth graph.
#[derive(Clone, Copy, Debug, PartialEq, Eq)]
pub struct PlantNode {
    pub id: usize,
    pub position: Vector2D,
    pub energy: Scalar,
    pub coherence: Scalar,
    pub distortion: Scalar,
    pub temporal_complexity: Scalar,
    pub spatial_complexity: Scalar,
    /// The node that this one grew or branched from; `None` for a seed.
    pub parent: Option<usize>,
    /// Ticks since the node was created.
    pub age: i32,
    /// Sum of the positions of the node's ancestors.
    pub c_t: Vector2D,
}

} // verus!
