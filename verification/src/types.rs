//! Failure kinds of the lock manager and the answers of a single node.

use vstd::prelude::*;

verus! {

/// Why an operation of the lock manager failed.
#[derive(PartialEq, Eq, Copy, Clone, Debug, Structural)]
pub enum Error {
    /// Fewer nodes than a quorum were usable when the manager was built.
    NotEnoughMasters,
    /// Every round missed the quorum or left no validity.
    CannotObtain,
    /// At least one node could not confirm the release.
    ReleaseIncomplete,
    /// The time to live was not positive or the resource name was empty.
    InvalidArgument,
}

pub type RedlockResult<T> = Result<T, Error>;

/// What one node answered to a conditional set with expiry.
#[derive(PartialEq, Eq, Copy, Clone, Debug, Structural)]
pub enum AcquireOutcome {
    /// The node created the binding for this call.
    Acquired,
    /// The node already holds a binding for the resource.
    AlreadyHeld,
    /// Anything else: no answer, or one that cannot be read.
    TransportError,
}

/// What one node answered to a compare-and-delete.
#[derive(PartialEq, Eq, Copy, Clone, Debug, Structural)]
pub enum ReleaseOutcome {
    /// The node held the binding with this key and deleted it.
    Released,
    /// The node holds no binding for the resource, or one with another key.
    NotOwned,
    /// Anything else: no answer, or one that cannot be read.
    TransportError,
}

/// The reply of a node to one command, as far as the lock manager reads it.
#[derive(PartialEq, Eq, Copy, Clone, Debug, Structural)]
pub enum Reply {
    /// The status reply `OK`.
    Okay,
    /// The nil reply.
    Nil,
    /// An integer reply.
    Int(i64),
    /// Any other value.
    Other,
    /// The command failed or the node did not answer.
    Failed,
}

} // verus!
