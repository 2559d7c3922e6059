//! Growth of a branching graph of nodes in a bounded plane.
//!
//! A plant starts as one seed. Tick by tick every node updates a small
//! nonlinear state (coherence, distortion, temporal and spatial
//! complexity) from the light around it, and may produce children: an
//! extension along its direction of attention toward the resources, and a
//! branch at a drawn angle.
//!
//! All quantities are fixed-point numbers with nine decimal places
//! ([`scalar::Scalar`]); their arithmetic is total and saturating, so a
//! tick always yields a valid next state. A tick is a function of the
//! state and of the numbers drawn for it ([`tick::ticked`]); the engine
//! ([`engine::CSpaceEngine`]) computes that function, drawing the numbers
//! from a generator that can be seeded. What holds of every tick is proved
//! in [`laws`].

pub mod attention;
pub mod chance;
pub mod control;
pub mod creator;
pub mod dynamics;
pub mod engine;
pub mod field;
pub mod growth;
pub mod laws;
pub mod lineage;
pub mod node;
pub mod params;
pub mod roots;
pub mod scalar;
pub mod tick;
pub mod transcend;
pub mod trig;
pub mod vector;
