//! Failures to turn an incoming record into a transaction.
use vstd::prelude::*;

use crate::tx::TransactionRecord;

verus! {

/// Why a record could not be decoded; raised before the ledger sees it.
#[derive(Clone, Debug, PartialEq, Eq)]
pub enum Error {
    /// A deposit or withdrawal without an amount.
    MissingAmount { record: TransactionRecord },
    /// A deposit or withdrawal whose amount is not a non-negative decimal
    /// that the ledger can hold.
    InvalidAmount { record: TransactionRecord },
}

} // verus!
