//! The orchestration core of a MAVLink telemetry dump tool: a per-type
//! frequency tracker, a filterable display formatter, the fixed outgoing
//! setup and heartbeat messages, and the receive loop's state machine
//! with its classification of transport errors. Everything below the
//! message-framing boundary (encoding, checksums, transports) belongs to
//! the external protocol library and stays outside this crate's logic.
pub mod display;
pub mod filter;
pub mod message;
pub mod receiver;
pub mod text;
pub mod tracker;

use vstd::prelude::*;

verus! {

/// Identifies the logical sender of a message; attached by the transport
/// to every received message and consumed as-is.
#[derive(PartialEq, Eq, Structural, Clone, Copy, Debug)]
pub struct RoutingHeader {
    pub system_id: u8,
    pub component_id: u8,
}

} // verus!
