//! A fungible-token ledger core: per-account balances with a conserved total
//! supply, storage staking for account registration, and a two-phase
//! transfer-and-notify protocol with refund and burn accounting.
//!
//! The crate is host-agnostic: every entry point is a pure state transition
//! over the ledger, taking the values a blockchain host would supply (caller,
//! attached deposit, prepaid gas, callback outcome) as plain arguments and
//! returning the actions the host must perform (notifications to issue,
//! refunds to pay, log lines to emit).

pub mod contract;
pub mod digits;
pub mod error;
pub mod events;
pub mod ledger;
pub mod metadata;
pub mod model;
pub mod storage;
pub mod transfer;
