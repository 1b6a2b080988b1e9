//! A liquidity-staking pool ledger: participants stake a liquidity asset and
//! are credited a reward asset according to a funded emission window.
//!
//! The crate holds the accounting state machine only. The host environment
//! (clock, storage, asset transfers, authorization) supplies plain values to
//! the operations and performs the transfers they decide on.

pub mod arith;
pub mod mintable;
pub mod pool;
pub mod state;
