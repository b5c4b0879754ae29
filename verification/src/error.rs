//! Failure taxonomy for one unit of remote vote work.

use vstd::prelude::*;

verus! {

/// Why a vote attempt failed.  A failure is delivered to the consumer as a
/// normal message payload; it never stops a worker's loop.
#[derive(Debug, Clone, Copy, PartialEq, Eq, Structural)]
pub enum PollError {
    /// The request could not be sent or answered successfully.
    Network,
    /// The response arrived but could not be understood.
    InvalidBody,
}

} // verus!
