//! Verified core of a sidecar process supervisor.
//!
//! The supervisor owns the lifecycle of a single long-running auxiliary
//! server process bound to a fixed TCP port: it reaps stale processes bound
//! to the port before spawning, stores the spawned handle in an exclusively
//! owned registry slot, classifies the child's output events in order, and
//! on shutdown takes the handle out of the slot (at most once), kills it,
//! and reaps the port again.
//!
//! Everything that touches the operating system (running the discovery and
//! kill commands, spawning the child, sleeping for the settle delay) lives
//! in the unverified application shell; this crate holds the decisions and
//! the parsing, each with a proved contract.

use vstd::prelude::*;

pub mod events;
pub mod lifecycle;
pub mod parse;
pub mod reaper;
pub mod registry;

verus! {

/// The TCP port the managed sidecar must own.
pub const API_PORT: u16 = 3620;

/// Milliseconds to wait after issuing terminations, letting the operating
/// system release the socket before the port is bound again.
pub const SETTLE_MILLIS: u64 = 500;

} // verus!
