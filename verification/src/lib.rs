//! A minimal real-time chat relay: a registry of connected clients, the
//! fan-out of one message to all of them, and the lifecycle of one client's
//! streaming session.

use vstd::prelude::*;

pub mod broadcast;
pub mod channel;
pub mod greeting;
pub mod message;
pub mod registry;
pub mod session;

verus! {

/// Number of messages an outbound channel buffers for its client.
pub const CHANNEL_CAPACITY: usize = 1;

} // verus!
