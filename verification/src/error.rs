//! The conditions that the networking core tells apart.

use vstd::prelude::*;

verus! {

/// What can go wrong, or merely not be ready yet, in the life of a session.
#[derive(Clone, Copy, Debug, PartialEq, Eq, Structural)]
pub enum SessionError {
    /// The signaling service could not be reached. The attempt is made again.
    SignalingUnavailable,
    /// Fewer peers than the session needs have joined so far.
    QuorumNotYetReached,
    /// A peer has left; its slot goes on with empty input.
    PeerDisconnected,
    /// A rollback asked for a frame whose snapshot is no longer kept. The
    /// session cannot go on.
    SnapshotNotFound,
    /// The session cannot be built from the configuration and the peers at
    /// hand.
    InvalidConfiguration,
}

impl SessionError {
    /// Whether the session ends with this condition.
    pub open spec fn fatal(self) -> bool {
        self == SessionError::SnapshotNotFound || self == SessionError::InvalidConfiguration
    }

    /// Whether the session ends with this condition. The other conditions are
    /// absorbed: the session waits, retries, or goes on without the peer.
    pub fn is_fatal(&self) -> (fatal: bool)
        ensures
            fatal == self.fatal(),
    {
        match self {
            SessionError::SnapshotNotFound => true,
            SessionError::InvalidConfiguration => true,
            _ => false,
        }
    }

    /// A short description, for a log or a screen.
    pub fn message(&self) -> (text: &'static str)
        ensures
            text@ == Self::describe(*self),
    {
        match self {
            SessionError::SignalingUnavailable => "signaling service unavailable",
            SessionError::QuorumNotYetReached => "waiting for more peers",
            SessionError::PeerDisconnected => "peer disconnected",
            SessionError::SnapshotNotFound => "desynchronized: snapshot not found",
            SessionError::InvalidConfiguration => "invalid session configuration",
        }
    }

    /// The text of `message`.
    pub open spec fn describe(error: SessionError) -> Seq<char> {
        match error {
            SessionError::SignalingUnavailable => "signaling service unavailable"@,
            SessionError::QuorumNotYetReached => "waiting for more peers"@,
            SessionError::PeerDisconnected => "peer disconnected"@,
            SessionError::SnapshotNotFound => "desynchronized: snapshot not found"@,
            SessionError::InvalidConfiguration => "invalid session configuration"@,
        }
    }
}

} // verus!
