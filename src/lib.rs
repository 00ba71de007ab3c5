//! Deterministic core of a 2D design and animation engine: fixed-point
//! geometry, paths, a keyframe store driven by a command reducer, and a
//! quadtree spatial index.
pub mod bezier;
pub mod computed;
pub mod copy;
pub mod engine;
pub mod geometry;
pub mod interpolation;
pub mod path;
pub mod physics;
pub mod scalar;
pub mod spatial;
pub mod state;
pub mod validate;
