//! The value records the ledger stores, and the transfer orders it emits.
//!
//! Principals (founders, voters, VCs, the administrator) are plain `u64`
//! identities: the host environment that authenticates callers maps its own
//! opaque account handles to these before calling into the ledger.

use vstd::prelude::*;

verus! {

/// The singleton administrator configuration, written once by `init` and
/// immutable afterwards (the ledger offers no reconfiguration operation).
#[derive(Clone, Copy, Debug, PartialEq, Eq, Structural)]
pub struct AdminConfig {
    /// The single privileged principal.
    pub admin: u64,
    /// The application fee, in the token's smallest unit.
    pub application_fee: i128,
    /// The collateral a principal must stake to become a VC.
    pub vc_stake_required: i128,
}

/// A founder's project record: metadata, the three-stage balance pipeline
/// (allocated, unlocked, claimed), and the voting tally.
#[derive(Clone, Debug)]
pub struct StartupData {
    /// The project's name.
    pub project_name: String,
    /// A free-form description.
    pub description: String,
    /// A link to the project.
    pub project_url: String,
    /// Free-form information about the team.
    pub team_info: String,
    /// The funding target the founder asked for (informational).
    pub funding_goal: i128,
    /// Total funds committed to the project.
    pub total_allocated: i128,
    /// The portion of the allocation currently releasable to the founder.
    pub unlocked_balance: i128,
    /// The portion already paid out to the founder.
    pub claimed_balance: i128,
    /// The absolute timestamp at which the voting window closes
    /// (the boundary instant itself is still open).
    pub voting_end_time: u64,
    /// Count of yes votes received.
    pub yes_votes: u32,
    /// Count of no votes received.
    pub no_votes: u32,
    /// Whether the administrator has approved the project.
    pub approved: bool,
}

/// A capital provider's record.
#[derive(Clone, Debug)]
pub struct VCData {
    /// The VC's principal, equal to the key the record is stored under.
    pub vc_address: u64,
    /// The company name given at registration.
    pub company_name: String,
    /// The collateral locked at registration: the required stake in effect
    /// at that moment (the configuration never changes afterwards).
    pub stake_amount: i128,
    /// The sum this VC has invested across all founders since registration.
    pub total_invested: i128,
}

/// A token movement the host must execute against the external token
/// service on behalf of a successful operation.
///
/// The ledger only orders transfers; the host performs them. The host
/// guarantees atomicity: if the transfer fails on the token side, the host
/// discards the new ledger state, so the operation as a whole has no effect.
#[derive(Clone, Copy, Debug, PartialEq, Eq, Structural)]
pub enum TokenTransfer {
    /// Move `amount` from the principal `from` into the ledger's custodial
    /// account.
    ToEscrow { from: u64, amount: i128 },
    /// Move `amount` from the ledger's custodial account to the principal
    /// `to`.
    FromEscrow { to: u64, amount: i128 },
}

} // verus!
