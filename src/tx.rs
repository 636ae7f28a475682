//! Transaction records: the five kinds the ledger applies, and the flat form in
//! which they arrive before decoding.
use vstd::prelude::*;

use crate::amount::{amount_of_text, Amount};
use crate::error::Error;
use crate::{ClientId, TransactionId};

verus! {

/// A movement of funds: the payload of a deposit or a withdrawal.
#[derive(Clone, Copy, Debug, PartialEq, Eq, Structural, Hash)]
pub struct DomesticTransaction {
    pub amount: Amount,
    pub client: ClientId,
    pub tx: TransactionId,
}

/// A reference to an earlier deposit or withdrawal: the payload of a dispute,
/// a resolve or a chargeback.
#[derive(Clone, Copy, Debug, PartialEq, Eq, Structural, Hash)]
pub struct SupportTransaction {
    pub client: ClientId,
    pub tx: TransactionId,
}

/// One requested operation.
#[derive(Clone, Copy, Debug, PartialEq, Eq, Structural, Hash)]
pub enum Transaction {
    Deposit(DomesticTransaction),
    Withdrawal(DomesticTransaction),
    Dispute(SupportTransaction),
    Resolve(SupportTransaction),
    Chargeback(SupportTransaction),
}

impl Transaction {
    /// The transaction id the record carries.
    pub open spec fn spec_id(self) -> TransactionId {
        match self {
            Transaction::Deposit(d) => d.tx,
            Transaction::Withdrawal(d) => d.tx,
            Transaction::Dispute(s) => s.tx,
            Transaction::Resolve(s) => s.tx,
            Transaction::Chargeback(s) => s.tx,
        }
    }

    /// The client the record belongs to.
    pub open spec fn spec_client_id(self) -> ClientId {
        match self {
            Transaction::Deposit(d) => d.client,
            Transaction::Withdrawal(d) => d.client,
            Transaction::Dispute(s) => s.client,
            Transaction::Resolve(s) => s.client,
            Transaction::Chargeback(s) => s.client,
        }
    }

    pub fn id(&self) -> (r: TransactionId)
        ensures
            r == self.spec_id(),
    {
        match self {
            Transaction::Deposit(d) => d.tx,
            Transaction::Withdrawal(d) => d.tx,
            Transaction::Dispute(s) => s.tx,
            Transaction::Resolve(s) => s.tx,
            Transaction::Chargeback(s) => s.tx,
        }
    }

    pub fn client_id(&self) -> (r: ClientId)
        ensures
            r == self.spec_client_id(),
    {
        match self {
            Transaction::Deposit(d) => d.client,
            Transaction::Withdrawal(d) => d.client,
            Transaction::Dispute(s) => s.client,
            Transaction::Resolve(s) => s.client,
            Transaction::Chargeback(s) => s.client,
        }
    }
}

/// The kind named in a record's `type` column.
#[derive(Clone, Copy, Debug, PartialEq, Eq, Structural, Hash)]
pub enum TransactionKind {
    Deposit,
    Withdrawal,
    Dispute,
    Resolve,
    Chargeback,
}

/// A record as it arrives: the amount is optional text, present for deposits
/// and withdrawals.
#[derive(Clone, Debug, PartialEq, Eq)]
pub struct TransactionRecord {
    pub kind: TransactionKind,
    pub client: ClientId,
    pub tx: TransactionId,
    pub amount: Option<String>,
}

impl TransactionRecord {
    /// The transaction a record stands for. A deposit or withdrawal without an
    /// amount is `MissingAmount`; one whose amount does not read as a
    /// non-negative decimal that fits is `InvalidAmount`. The other kinds
    /// ignore the amount column.
    pub open spec fn decoded(self) -> Result<Transaction, Error> {
        match self.kind {
            TransactionKind::Deposit | TransactionKind::Withdrawal => match self.amount {
                None => Err(Error::MissingAmount { record: self }),
                Some(text) => match amount_of_text(text@) {
                    None => Err(Error::InvalidAmount { record: self }),
                    Some(amount) => {
                        let d = DomesticTransaction { amount, client: self.client, tx: self.tx };
                        if self.kind == TransactionKind::Deposit {
                            Ok(Transaction::Deposit(d))
                        } else {
                            Ok(Transaction::Withdrawal(d))
                        }
                    },
                },
            },
            TransactionKind::Dispute => Ok(
                Transaction::Dispute(SupportTransaction { client: self.client, tx: self.tx }),
            ),
            TransactionKind::Resolve => Ok(
                Transaction::Resolve(SupportTransaction { client: self.client, tx: self.tx }),
            ),
            TransactionKind::Chargeback => Ok(
                Transaction::Chargeback(SupportTransaction { client: self.client, tx: self.tx }),
            ),
        }
    }

    pub fn into_transaction(self) -> (r: Result<Transaction, Error>)
        ensures
            r == self.decoded(),
    {
        let support = SupportTransaction { client: self.client, tx: self.tx };
        match self.kind {
            TransactionKind::Dispute => Ok(Transaction::Dispute(support)),
            TransactionKind::Resolve => Ok(Transaction::Resolve(support)),
            TransactionKind::Chargeback => Ok(Transaction::Chargeback(support)),
            TransactionKind::Deposit | TransactionKind::Withdrawal => {
                let parsed = match &self.amount {
                    None => {
                        return Err(Error::MissingAmount { record: self });
                    },
                    Some(text) => Amount::parse(text.as_str()),
                };
                match parsed {
                    None => Err(Error::InvalidAmount { record: self }),
                    Some(amount) => {
                        let d = DomesticTransaction { amount, client: self.client, tx: self.tx };
                        match self.kind {
                            TransactionKind::Deposit => Ok(Transaction::Deposit(d)),
                            _ => Ok(Transaction::Withdrawal(d)),
                        }
                    },
                }
            },
        }
    }
}

} // verus!
