//! Supervision of user-defined reverse-tunnel connections.
//!
//! Each connection is described by a configuration record and, while
//! enabled, is driven by a supervisor: a control loop that spawns an
//! external tunnel process, classifies its diagnostic output, publishes
//! status transitions, and retries with a fixed backoff until it is
//! cancelled.  This crate holds the decision logic of that subsystem —
//! the classifier, the supervisor state machine, the registry of active
//! connections, the process argument builder, and the configuration
//! bookkeeping — each with a proved contract.  The surrounding process
//! plumbing (spawning, stream reading, timers) lives outside the crate
//! and drives these functions with plain values.

pub mod args;
pub mod classifier;
pub mod configs;
pub mod model;
pub mod models;
pub mod registry;
pub mod supervisor;
pub mod text;
pub mod types;
