//! A line-delimited, JSON-framed instant-messaging wire protocol, server side:
//! typed envelopes (messages, notifications, commands, session frames) are
//! decoded from a byte stream, a per-connection negotiation state machine
//! authenticates the peer, and envelopes are then routed between connected
//! nodes through a shared routing table.

pub mod codec;
pub mod decode;
pub mod envelope;
pub mod json;
pub mod laws;
pub mod router;
pub mod session;
pub mod value;

use vstd::prelude::*;

verus! {

/// Byte that terminates every wire frame.
pub const DELIMITER: u8 = 10;

} // verus!
