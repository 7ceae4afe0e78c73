//! A feed-forward neural-network training engine.
//!
//! The engine is generic over the scalar it computes with. It never looks inside a
//! scalar: every contract says which operations were applied to which operands, in
//! which order, and leaves what an operation returns to the scalar type.

pub mod dataset;
pub mod heatmap;
pub mod nn;
pub mod scalar;
pub mod session;
pub mod shuffle;
