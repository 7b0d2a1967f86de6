//! The failure taxonomy of the ledger.

use vstd::prelude::*;

verus! {

/// Every way a ledger operation can fail.
///
/// A failed operation leaves the ledger exactly as it was: every mutating
/// operation of [`crate::DeCoMVP`] ensures that on an `Err` result the state
/// is unchanged.
#[derive(Clone, Copy, Debug, PartialEq, Eq, Structural)]
pub enum Error {
    /// `init` was called on a ledger that already holds an admin configuration.
    AlreadyInitialized,
    /// The caller of a privileged operation is not the stored administrator.
    Unauthorized,
    /// No record exists for the given principal.
    NotFound,
    /// The founder already has a project record.
    AlreadyApplied,
    /// The (voter, founder) pair already has a vote record.
    AlreadyVoted,
    /// The current time is past the project's voting window.
    VotingClosed,
    /// The project has not been approved by the administrator.
    NotApproved,
    /// The investing principal holds no VC record.
    NotVerifiedVC,
    /// The staking principal already holds a VC record.
    AlreadyVC,
    /// The founder's unlocked balance has been claimed in full already.
    NothingToClaim,
    /// The requested release would push the unlocked balance past the
    /// allocation, or the requested allocation below the unlocked balance.
    AllocationExceeded,
}

} // verus!
