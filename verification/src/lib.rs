//! Coordination core of a distributed regression-testing system.
//!
//! A central server hands out experiments (matrices of packages to build and
//! test) to a pool of worker agents. This crate holds the protocol logic:
//! the experiment lifecycle state machine and atomic claim operation, the
//! per-agent liveness registry, the credential gate, the request dispatcher,
//! and the agent runtime's decision loop. Transport, persistence and the
//! execution engine live outside and talk to this crate through plain values.

pub mod agent;
pub mod agents;
pub mod auth;
pub mod experiments;
pub mod search;
pub mod server;
