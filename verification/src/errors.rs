//! The closed set of failure kinds every operation can surface.
//!
//! Structure is kept until the outermost boundary, where `message`
//! renders the flat string the caller receives.

use vstd::prelude::*;

verus! {

/// Which leg of a sync an error belongs to.
#[derive(Clone, Copy, Debug, PartialEq, Eq, Structural)]
pub enum SyncLeg {
    Fetch,
    Push,
}

/// A failure of a store or repository operation.
#[derive(Debug)]
pub enum OpError {
    /// The process-wide state lock cannot be acquired.
    LockUnavailable,
    /// A filesystem call failed; the detail text is surfaced verbatim.
    Filesystem(String),
    /// No repository has been initialized at the root directory.
    RepositoryMissing,
    /// No remote named "origin" is configured.
    RemoteMissing,
    /// A fetch or push failed; the detail text comes from the transport.
    Transport(SyncLeg, String),
}

impl OpError {
    /// The flat message the caller receives for this error.
    pub open spec fn message_spec(&self) -> Seq<char> {
        match self {
            OpError::LockUnavailable => "state lock unavailable"@,
            OpError::Filesystem(detail) => detail@,
            OpError::RepositoryMissing => "repository not initialized"@,
            OpError::RemoteMissing => "remote 'origin' not found"@,
            OpError::Transport(leg, detail) => match leg {
                SyncLeg::Fetch => "Fetch failed: "@ + detail@,
                SyncLeg::Push => "Push failed: "@ + detail@,
            },
        }
    }

    /// Render the error as the flat string of its kind, transport errors
    /// prefixed with the leg that failed.
    pub fn message(&self) -> (r: String)
        ensures
            r@ == self.message_spec(),
    {
        match self {
            OpError::LockUnavailable => String::from_str("state lock unavailable"),
            OpError::Filesystem(detail) => detail.clone(),
            OpError::RepositoryMissing => String::from_str("repository not initialized"),
            OpError::RemoteMissing => String::from_str("remote 'origin' not found"),
            OpError::Transport(leg, detail) => match leg {
                SyncLeg::Fetch => String::from_str("Fetch failed: ").concat(detail.as_str()),
                SyncLeg::Push => String::from_str("Push failed: ").concat(detail.as_str()),
            },
        }
    }
}

} // verus!
