//! A decentralized crowdfunding escrow and governance ledger.
//!
//! Founders register projects, the community votes on them during a
//! time-boxed window, an administrator approves vetted projects, capital
//! providers ("VCs") stake collateral to gain investment rights and invest
//! into approved projects, and founders claim released funds incrementally.
//!
//! The crate verifies the accounting-and-governance state machine itself:
//! the entities, their invariants (in particular
//! `claimed_balance <= unlocked_balance <= total_allocated` for every
//! project), and the operations that transition them. The host environment
//! that the machine is designed to live in — caller authentication, the
//! persistent key-value store, the clock, and the fungible-token transfer
//! service — stays outside: callers authenticate principals, supply the
//! current time as a plain value, and execute the [`TokenTransfer`] orders
//! the operations return.

pub mod assoc;
pub mod errors;
pub mod ledger;
pub mod records;
pub mod tally;

pub use errors::Error;
pub use ledger::DeCoMVP;
pub use records::AdminConfig;
pub use records::StartupData;
pub use records::TokenTransfer;
pub use records::VCData;
