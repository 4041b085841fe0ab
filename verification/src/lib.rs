//! Dependency-output resolution for a build tool's task-hashing layer.
//!
//! A task's cache key must incorporate the effects of the tasks it depends
//! on. This crate computes, for a given task and task graph, the ordered
//! list of hash instructions that stand for its dependencies' contributions
//! to that key, substituting a dependency's precomputed hash for its output
//! files whenever one is available. It also normalizes the several surface
//! forms an input declaration can take into one canonical tagged shape.

pub mod dep_outputs;
pub mod inputs;
pub mod types;
