//! Verified core of a launchpad / NFT collection / escrow vault pipeline.
//!
//! Each contract is modelled as plain state plus entry points that take the
//! values the host chain provides (caller, attached deposit, own account id)
//! and return the outgoing actions to perform, so that every decision is
//! verified independently of the runtime.
pub mod account;
pub mod vault;
pub mod ledger;
pub mod collection;
pub mod launchpad;
