//! Two-stage collision-detection pipeline over exact fixed-point coordinates.
//!
//! The broad phase maintains an incremental index of bounding volumes and
//! reports pairs that begin or cease to overlap; the narrow phase dispatches
//! each surviving pair to a shape-specific algorithm that maintains a
//! persistent contact manifold or a proximity status.  All coordinates are
//! fixed-point integers, so every geometric predicate in the contracts is
//! exact.

pub mod broad_phase;
pub mod composite;
pub mod contact;
pub mod dispatcher;
pub mod generators;
pub mod graph;
pub mod heightfield;
pub mod ids;
pub mod kernels;
pub mod manifold;
pub mod math;
pub mod proximity;
pub mod query;
pub mod shape;
