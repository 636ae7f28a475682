//! A ledger engine that replays an ordered stream of deposits, withdrawals and
//! dispute-lifecycle records against a table of client accounts.
use vstd::prelude::*;

pub mod account;
pub mod amount;
pub mod error;
pub mod laws;
pub mod ledger;
pub mod tx;

verus! {

/// Identifies a client; stable for the lifetime of a run.
pub type ClientId = u16;

/// Identifies a transaction; unique within one input stream.
pub type TransactionId = u32;

} // verus!
