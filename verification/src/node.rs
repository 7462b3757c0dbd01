//! One node's record: its fixed identity (id, account address, declared
//! peers) and the two fields that move from absent to present exactly once
//! during the spawn phase — the console session and the self-reported
//! connection identifier. Re-entering either transition is a programming
//! error with its own kind, distinct from runtime failures.

use vstd::prelude::*;
use crate::errors::Error;

verus! {

/// Whether a console session has been attached to the node yet.
#[derive(Clone, Copy, Debug, PartialEq, Eq, Structural)]
pub enum SessionState {
    Absent,
    Attached,
}

/// The node's self-reported connection identifier: absent until identity
/// discovery stores it.
#[derive(Debug)]
pub enum IdentifierState {
    Absent,
    Present(Vec<u8>),
}

impl IdentifierState {
    pub open spec fn is_present(&self) -> bool {
        match *self {
            IdentifierState::Present(_) => true,
            IdentifierState::Absent => false,
        }
    }

    /// The stored identifier bytes; meaningful only once present.
    pub open spec fn value(&self) -> Seq<u8> {
        match *self {
            IdentifierState::Present(ref v) => v@,
            IdentifierState::Absent => Seq::empty(),
        }
    }
}

/// One node of the cluster. `id` and `address` are fixed at setup; peers
/// are indices into the cluster's node collection; the session and the
/// identifier each appear exactly once during the spawn phase.
pub struct NodeRecord {
    pub id: usize,
    pub address: Vec<u8>,
    pub peers: Vec<usize>,
    pub session: SessionState,
    pub identifier: IdentifierState,
}

impl NodeRecord {
    /// Every declared peer names another node of an `n`-node cluster.
    pub open spec fn peers_wf(&self, n: nat) -> bool {
        forall|p: int| 0 <= p < self.peers@.len() ==>
            (#[trigger] self.peers@[p]) < n && self.peers@[p] != self.id
    }

    /// Marks the console session attached; fails if one already is.
    pub fn attach_session(&mut self) -> (r: Result<(), Error>)
        ensures
            match r {
                Ok(()) => old(self).session == SessionState::Absent
                    && *final(self) == NodeRecord { session: SessionState::Attached, ..*old(self) },
                Err(e) => e == Error::SessionAlreadyInitialized
                    && old(self).session == SessionState::Attached
                    && *final(self) == *old(self),
            },
    {
        match self.session {
            SessionState::Absent => {
                self.session = SessionState::Attached;
                Ok(())
            },
            SessionState::Attached => Err(Error::SessionAlreadyInitialized),
        }
    }

    /// Stores the discovered connection identifier; fails if one already
    /// is stored.
    pub fn store_identifier(&mut self, identifier: Vec<u8>) -> (r: Result<(), Error>)
        ensures
            match r {
                Ok(()) => !old(self).identifier.is_present()
                    && final(self).identifier == IdentifierState::Present(identifier)
                    && *final(self) == NodeRecord { identifier: IdentifierState::Present(identifier), ..*old(self) },
                Err(e) => e == Error::IdentifierAlreadyInitialized
                    && old(self).identifier.is_present()
                    && *final(self) == *old(self),
            },
    {
        match self.identifier {
            IdentifierState::Absent => {
                self.identifier = IdentifierState::Present(identifier);
                Ok(())
            },
            IdentifierState::Present(_) => Err(Error::IdentifierAlreadyInitialized),
        }
    }
}

} // verus!
