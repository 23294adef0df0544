//! The discrete core of a stochastic path tracer.
//!
//! Everything here works on integers and on bit patterns, so that every
//! decision the renderer takes is proved against a mathematical statement.

pub mod display;
pub mod primitives;
pub mod renderer;
pub mod scalar;
pub mod scene;
