//! A byte stream over a message-oriented socket: inbound chunks are queued and
//! read back as a continuous stream, with bounded buffering.
use vstd::prelude::*;

pub mod bridge;
pub mod connection;
pub mod stream_laws;

verus! {

/// The number of chunks the inbound queue holds before the producer is refused.
pub const DEFAULT_CAPACITY: usize = 4;

} // verus!
