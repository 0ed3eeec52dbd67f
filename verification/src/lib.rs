//! Consensus core of a chained, view-based BFT replication protocol.
//!
//! The crate is free of I/O: every component is a state machine or a pure
//! function over plain values. Network transport, durable storage and
//! signature checking live with the caller, which hands their results in.

pub mod certificate;
pub mod conformance;
pub mod data;
pub mod election;
pub mod error;
pub mod node;
pub mod record;
pub mod round;
pub mod safety;
pub mod stake_table;
pub mod traits;
pub mod view_sync;
