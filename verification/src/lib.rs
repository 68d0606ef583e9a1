//! Verified core of a scheduled VM backup orchestrator.
//!
//! The library covers the artifact identity codec (flat backup names that
//! encode host, job kind, object name, timestamp and compression), the
//! retention/rotation engine, the storage backend contract, and the decision
//! logic of the backup job engine.  I/O, process invocation and the network
//! collaborators live outside the library and drive it with plain values.

pub mod config;
pub mod error;
pub mod monitoring;
pub mod retention;
pub mod jobs;
pub mod storage;
pub mod text;
pub mod timestamp;
pub mod xapi;
