//! Network-reachability monitoring core: a durable store of probe results,
//! an outage analyzer / report generator over that history, and the decision
//! logic of the daemon supervisor.
//!
//! The probe implementations themselves, the command line, and all file,
//! process and signal handling live outside this library; they hand in plain
//! values (bytes read from the store file, the pid found in the pid file,
//! liveness observations) and carry out the actions this library decides on.

pub mod analyze;
pub mod daemon;
pub mod records;
pub mod store;
pub mod text;
