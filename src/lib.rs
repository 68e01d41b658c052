//! Supervision of external build and run processes: a registry of running
//! processes, a per-process monitor that turns channel items into events,
//! point and total termination; with the small computations behind the
//! native operations that a desktop frontend calls.
pub mod api;
pub mod monitor;
pub mod paths;
pub mod pid;
pub mod registry;
pub mod supervisor;
