//! A progressive GPU Monte Carlo ray tracer core: typed GPU-memory layout
//! description, scene/acceleration-structure building, and the
//! progressive-sampling state machine, with machine-checked contracts.
//!
//! The GPU device itself (buffer allocation, pipeline compilation, dispatch
//! submission) is an external collaborator: this crate computes what must be
//! uploaded and dispatched, and a thin unverified shell performs it.

pub mod ray_tracer;
