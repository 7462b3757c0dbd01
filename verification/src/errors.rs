//! Error taxonomy of the orchestration core. Every failure is fatal to the
//! run: there are no retries and no degraded mode.

use vstd::prelude::*;

verus! {

/// Why an orchestration step refused to proceed.
#[derive(Clone, Copy, Debug, PartialEq, Eq, Structural)]
pub enum Error {
    /// A request asked for more than the data allows (for the sampler:
    /// more peers than the candidate pool holds).
    InvalidArgument,
    /// A node's console session was initialized a second time.
    SessionAlreadyInitialized,
    /// A node's self-reported connection identifier was stored a second time.
    IdentifierAlreadyInitialized,
    /// A worker reported an account that does not match its configured
    /// address (case-insensitively).
    AccountMismatch,
    /// A declared peer index does not name a node of the cluster.
    PeerOutOfRange,
    /// A peer was asked for its connection identifier before discovery
    /// stored one.
    MissingIdentifier,
    /// A phase was entered out of order, or a one-shot step was repeated.
    PhaseOrder,
    /// A worker's transaction-count response was not a decimal number.
    UnparseableCount,
}

} // verus!
