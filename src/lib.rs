//! A process supervisor's verified core: the monitored-item data model, the
//! configuration rules, the supervision engine's state transitions, the
//! control protocol's dispatch, and the pure parts of the session launcher.
//!
//! Everything that touches the operating system (process creation, liveness
//! probes, the named pipe, the configuration file, the clock) stays outside and
//! hands plain values to these functions.

pub mod models;
pub mod text;
pub mod config;
pub mod guardian;
pub mod protocol;
pub mod launcher;
pub mod laws;
