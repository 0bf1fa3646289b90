//! Task representation and the global installation orchestrator of a package manager.
pub mod batch;
pub mod entries;
pub mod exposure;
pub mod manifest;
pub mod targets;
pub mod task;
