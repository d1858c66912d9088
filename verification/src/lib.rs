//! Verified core of a liquid-staking ledger.
//!
//! Users deposit a base asset and receive a fungible receipt token that
//! represents a pro-rata claim on staked principal plus accrued rewards.
//! This crate holds the share-accounting and rewards-distribution engine as a
//! pure state machine: every operation takes the durable contract state, the
//! values the host queried for it (delegations, balances, block time), and
//! returns the new state together with the commands and events to emit.
//! The host shim around it performs the actual message I/O.

pub mod constants;
pub mod error;
pub mod math;
pub mod state;
pub mod ledger;
pub mod whitelist;
pub mod contract;
pub mod allocations;
pub mod distribution;
pub mod msg;
