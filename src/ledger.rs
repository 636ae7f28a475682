//! The ledger engine: the account table, the transaction history and the rules
//! by which each record changes them.
use std::collections::HashMap;

use vstd::prelude::*;
use vstd::std_specs::hash::spec_hash_map_iter;
use vstd::std_specs::iter::IteratorSpec;

use crate::account::Account;
use crate::amount::Amount;
use crate::laws::{
    accounted, lemma_apply_keeps_accounts, lemma_apply_keeps_invariants, lemma_empty_is_well_formed,
};
use crate::tx::{DomesticTransaction, SupportTransaction, Transaction};
use crate::{ClientId, TransactionId};

verus! {

broadcast use vstd::std_specs::hash::group_hash_axioms;

/// Why the ledger rejected a record; each variant carries the record.
#[derive(Clone, Copy, Debug, PartialEq, Eq, Structural)]
pub enum LedgerError {
    AccountNotFound { tx: Transaction },
    InsufficientFunds { tx: Transaction },
    TransactionNotFound { tx: Transaction },
    InvalidTransactionForDispute { tx: Transaction },
    DisputeNotFound { tx: Transaction },
    LockedAccount { client_id: ClientId, tx: Transaction },
    InconsistentHeldFunds { client_id: ClientId, tx: Transaction },
    /// A deposit or withdrawal whose transaction id is already in the history;
    /// the filed record is kept as it is.
    DuplicateTransaction { tx: Transaction },
    /// A deposit that would take the account's total past what an `Amount`
    /// can hold.
    BalanceOverflow { client_id: ClientId, tx: Transaction },
}

/// Where a deposit or withdrawal stands in the dispute lifecycle.
#[derive(Clone, Copy, Debug, PartialEq, Eq, Structural)]
pub enum DisputeStatus {
    Clean,
    Disputed,
    ChargedBack,
}

/// Whether a filed record was a deposit or a withdrawal.
#[derive(Clone, Copy, Debug, PartialEq, Eq, Structural)]
pub enum Movement {
    Deposit,
    Withdrawal,
}

/// An accepted deposit or withdrawal, with its dispute status.
#[derive(Clone, Copy, Debug, PartialEq, Eq, Structural)]
pub struct HistoryEntry {
    pub movement: Movement,
    pub record: DomesticTransaction,
    pub status: DisputeStatus,
}

/// The ledger's state: accounts by client, accepted deposits and withdrawals by
/// transaction id, and every accepted record in order.
pub struct LedgerView {
    pub accounts: Map<ClientId, Account>,
    pub history: Map<TransactionId, HistoryEntry>,
    pub log: Seq<Transaction>,
}

impl LedgerView {
    /// A ledger with no accounts, no history and nothing logged.
    pub open spec fn empty() -> LedgerView {
        LedgerView {
            accounts: Map::<ClientId, Account>::empty(),
            history: Map::<TransactionId, HistoryEntry>::empty(),
            log: Seq::<Transaction>::empty(),
        }
    }

    /// Every account is filed under its own client id and is balanced; every
    /// history entry is filed under its own transaction id and belongs to a
    /// client that has an account; and the history accounts for the funds.
    pub open spec fn well_formed(self) -> bool {
        &&& forall|c: ClientId| #[trigger]
            self.accounts.contains_key(c) ==> self.accounts[c].id == c
                && self.accounts[c].is_balanced()
        &&& forall|t: TransactionId| #[trigger]
            self.history.contains_key(t) ==> self.history[t].record.tx == t
                && self.accounts.contains_key(self.history[t].record.client)
        &&& accounted(self)
    }

    /// The state after recording an accepted movement: `acct` replaces the
    /// client's account, and `entry` is filed under its transaction id.
    pub open spec fn commit(
        self,
        acct: Account,
        entry: HistoryEntry,
        t: Transaction,
    ) -> LedgerView {
        LedgerView {
            accounts: self.accounts.insert(acct.id, acct),
            history: self.history.insert(entry.record.tx, entry),
            log: self.log.push(t),
        }
    }

    /// A deposit opens the client's account if needed and credits its available
    /// and total funds. It is rejected when its transaction id is already in
    /// the history, when the account is locked, and when the total would pass
    /// what an `Amount` can hold.
    pub open spec fn deposit(self, d: DomesticTransaction) -> Result<LedgerView, LedgerError> {
        let t = Transaction::Deposit(d);
        let acct = if self.accounts.contains_key(d.client) {
            self.accounts[d.client]
        } else {
            Account::opened(d.client)
        };
        if self.history.contains_key(d.tx) {
            Err(LedgerError::DuplicateTransaction { tx: t })
        } else if acct.locked {
            Err(LedgerError::LockedAccount { client_id: d.client, tx: t })
        } else if acct.total.units + d.amount.units > u64::MAX {
            Err(LedgerError::BalanceOverflow { client_id: d.client, tx: t })
        } else {
            Ok(
                self.commit(
                    Account {
                        available: Amount { units: (acct.available.units + d.amount.units) as u64 },
                        total: Amount { units: (acct.total.units + d.amount.units) as u64 },
                        ..acct
                    },
                    HistoryEntry {
                        movement: Movement::Deposit,
                        record: d,
                        status: DisputeStatus::Clean,
                    },
                    t,
                ),
            )
        }
    }

    /// A withdrawal debits the available and total funds of an existing,
    /// unlocked account that has enough available. It is rejected when its
    /// transaction id is already in the history.
    pub open spec fn withdrawal(self, d: DomesticTransaction) -> Result<LedgerView, LedgerError> {
        let t = Transaction::Withdrawal(d);
        let acct = self.accounts[d.client];
        if self.history.contains_key(d.tx) {
            Err(LedgerError::DuplicateTransaction { tx: t })
        } else if !self.accounts.contains_key(d.client) {
            Err(LedgerError::AccountNotFound { tx: t })
        } else if acct.locked {
            Err(LedgerError::LockedAccount { client_id: d.client, tx: t })
        } else if acct.available.units < d.amount.units {
            Err(LedgerError::InsufficientFunds { tx: t })
        } else {
            Ok(
                self.commit(
                    Account {
                        available: Amount { units: (acct.available.units - d.amount.units) as u64 },
                        total: Amount { units: (acct.total.units - d.amount.units) as u64 },
                        ..acct
                    },
                    HistoryEntry {
                        movement: Movement::Withdrawal,
                        record: d,
                        status: DisputeStatus::Clean,
                    },
                    t,
                ),
            )
        }
    }

    /// The history holds a deposit or withdrawal `s.tx` of client `s.client`.
    pub open spec fn references(self, s: SupportTransaction) -> bool {
        self.history.contains_key(s.tx) && self.history[s.tx].record.client == s.client
    }

    /// A dispute freezes the amount of a clean deposit or withdrawal of the same
    /// client: it moves from available to held, if enough is available.
    pub open spec fn dispute(self, s: SupportTransaction) -> Result<LedgerView, LedgerError> {
        let t = Transaction::Dispute(s);
        let entry = self.history[s.tx];
        let acct = self.accounts[s.client];
        let amt = entry.record.amount.units;
        if !self.references(s) {
            Err(LedgerError::TransactionNotFound { tx: t })
        } else if entry.status != DisputeStatus::Clean {
            Err(LedgerError::InvalidTransactionForDispute { tx: t })
        } else if !self.accounts.contains_key(s.client) {
            Err(LedgerError::AccountNotFound { tx: t })
        } else if acct.locked {
            Err(LedgerError::LockedAccount { client_id: s.client, tx: t })
        } else if acct.available.units < amt {
            Err(LedgerError::InsufficientFunds { tx: t })
        } else {
            Ok(
                self.commit(
                    Account {
                        available: Amount { units: (acct.available.units - amt) as u64 },
                        held: Amount { units: (acct.held.units + amt) as u64 },
                        ..acct
                    },
                    HistoryEntry { status: DisputeStatus::Disputed, ..entry },
                    t,
                ),
            )
        }
    }

    /// A resolve ends an open dispute: the amount moves back from held to
    /// available and the record is clean again.
    pub open spec fn resolve(self, s: SupportTransaction) -> Result<LedgerView, LedgerError> {
        let t = Transaction::Resolve(s);
        let entry = self.history[s.tx];
        let acct = self.accounts[s.client];
        let amt = entry.record.amount.units;
        if !self.references(s) {
            Err(LedgerError::TransactionNotFound { tx: t })
        } else if entry.status != DisputeStatus::Disputed {
            Err(LedgerError::DisputeNotFound { tx: t })
        } else if !self.accounts.contains_key(s.client) {
            Err(LedgerError::AccountNotFound { tx: t })
        } else if acct.locked {
            Err(LedgerError::LockedAccount { client_id: s.client, tx: t })
        } else if acct.held.units < amt {
            Err(LedgerError::InconsistentHeldFunds { client_id: s.client, tx: t })
        } else {
            Ok(
                self.commit(
                    Account {
                        available: Amount { units: (acct.available.units + amt) as u64 },
                        held: Amount { units: (acct.held.units - amt) as u64 },
                        ..acct
                    },
                    HistoryEntry { status: DisputeStatus::Clean, ..entry },
                    t,
                ),
            )
        }
    }

    /// A chargeback ends an open dispute for good: the amount leaves held and
    /// total, and the account is locked.
    pub open spec fn chargeback(self, s: SupportTransaction) -> Result<LedgerView, LedgerError> {
        let t = Transaction::Chargeback(s);
        let entry = self.history[s.tx];
        let acct = self.accounts[s.client];
        let amt = entry.record.amount.units;
        if !self.references(s) {
            Err(LedgerError::TransactionNotFound { tx: t })
        } else if entry.status != DisputeStatus::Disputed {
            Err(LedgerError::DisputeNotFound { tx: t })
        } else if !self.accounts.contains_key(s.client) {
            Err(LedgerError::AccountNotFound { tx: t })
        } else if acct.locked {
            Err(LedgerError::LockedAccount { client_id: s.client, tx: t })
        } else if acct.held.units < amt {
            Err(LedgerError::InconsistentHeldFunds { client_id: s.client, tx: t })
        } else {
            Ok(
                self.commit(
                    Account {
                        held: Amount { units: (acct.held.units - amt) as u64 },
                        total: Amount { units: (acct.total.units - amt) as u64 },
                        locked: true,
                        ..acct
                    },
                    HistoryEntry { status: DisputeStatus::ChargedBack, ..entry },
                    t,
                ),
            )
        }
    }

    /// The state after applying `t`, or the error that rejects it.
    pub open spec fn apply(self, t: Transaction) -> Result<LedgerView, LedgerError> {
        match t {
            Transaction::Deposit(d) => self.deposit(d),
            Transaction::Withdrawal(d) => self.withdrawal(d),
            Transaction::Dispute(s) => self.dispute(s),
            Transaction::Resolve(s) => self.resolve(s),
            Transaction::Chargeback(s) => self.chargeback(s),
        }
    }

    /// `next` and `r` are what applying `t` to this state gives: the new state
    /// on success, this state unchanged and the error on rejection.
    pub open spec fn steps_to(
        self,
        t: Transaction,
        next: LedgerView,
        r: Result<(), LedgerError>,
    ) -> bool {
        match self.apply(t) {
            Ok(s) => r is Ok && next == s,
            Err(e) => r == Err::<(), LedgerError>(e) && next == self,
        }
    }
}

/// The ledger engine. It owns the account table and the transaction history,
/// and changes them only through `process_tx`.
pub struct Ledger {
    accounts: HashMap<ClientId, Account>,
    history: HashMap<TransactionId, HistoryEntry>,
    tx_log: Vec<Transaction>,
}

impl View for Ledger {
    type V = LedgerView;

    closed spec fn view(&self) -> LedgerView {
        LedgerView { accounts: self.accounts@, history: self.history@, log: self.tx_log@ }
    }
}

impl Ledger {
    /// An empty ledger.
    pub fn new() -> (r: Ledger)
        ensures
            r@ == LedgerView::empty(),
            r@.well_formed(),
    {
        proof {
            lemma_empty_is_well_formed();
        }
        Ledger { accounts: HashMap::new(), history: HashMap::new(), tx_log: Vec::new() }
    }

    /// The account of `client_id`, if the client has one.
    pub fn get_account(&self, client_id: &ClientId) -> (r: Option<&Account>)
        ensures
            match r {
                Some(a) => self@.accounts.contains_key(*client_id) && *a
                    == self@.accounts[*client_id],
                None => !self@.accounts.contains_key(*client_id),
            },
    {
        self.accounts.get(client_id)
    }

    /// The accepted record equal to `tx`, if there is one.
    pub fn get_tx(&self, tx: &Transaction) -> (r: Option<&Transaction>)
        ensures
            match r {
                Some(t) => *t == *tx && self@.log.contains(*tx),
                None => !self@.log.contains(*tx),
            },
    {
        let mut i: usize = 0;
        while i < self.tx_log.len()
            invariant
                i <= self.tx_log@.len(),
                forall|j: int| 0 <= j < i ==> self.tx_log@[j] != *tx,
            decreases self.tx_log.len() - i,
        {
            if self.tx_log[i] == *tx {
                return Some(&self.tx_log[i]);
            }
            i = i + 1;
        }
        None
    }

    /// The earliest accepted record on which `p` holds, if there is one.
    pub fn find_tx<P>(&self, p: P) -> (r: Option<&Transaction>) where P: Fn(&Transaction) -> bool
        requires
            forall|t: &Transaction| #[trigger] p.requires((t,)),
        ensures
            match r {
                Some(t) => exists|i: int|
                    0 <= i < self@.log.len() && self@.log[i] == *t && p.ensures((t,), true)
                        && forall|j: int|
                        0 <= j < i ==> #[trigger] p.ensures((&self@.log[j],), false),
                None => forall|i: int|
                    0 <= i < self@.log.len() ==> #[trigger] p.ensures((&self@.log[i],), false),
            },
    {
        let mut i: usize = 0;
        while i < self.tx_log.len()
            invariant
                i <= self.tx_log@.len(),
                forall|t: &Transaction| #[trigger] p.requires((t,)),
                forall|j: int| 0 <= j < i ==> #[trigger] p.ensures((&self.tx_log@[j],), false),
            decreases self.tx_log.len() - i,
        {
            let t = &self.tx_log[i];
            if p(t) {
                assert(self@.log[i as int] == *t);
                return Some(t);
            }
            i = i + 1;
        }
        None
    }

    /// Every account with its client id, in no particular order.
    pub fn accounts_iter(&self) -> (r: Vec<(ClientId, Account)>)
        ensures
            r@.len() == self@.accounts.len(),
            forall|i: int|
                0 <= i < r@.len() ==> self@.accounts.contains_key(#[trigger] r@[i].0)
                    && self@.accounts[r@[i].0] == r@[i].1,
            forall|c: ClientId| #[trigger]
                self@.accounts.contains_key(c) ==> exists|i: int|
                    0 <= i < r@.len() && #[trigger] r@[i].0 == c,
            forall|i: int, j: int| 0 <= i < j < r@.len() ==> #[trigger] r@[i].0 != #[trigger] r@[j].0,
    {
        let mut out: Vec<(ClientId, Account)> = Vec::new();
        let ghost pairs = spec_hash_map_iter(&self.accounts).remaining();
        for (k, v) in it: self.accounts.iter()
            invariant
                it.seq() == pairs,
                pairs.no_duplicates(),
                out@.len() == it.index(),
                forall|i: int| 0 <= i < it.index() ==> out@[i] == (*pairs[i].0, *pairs[i].1),
        {
            out.push((*k, *v));
        }
        proof {
            assert forall|c: ClientId| #[trigger]
                self@.accounts.contains_key(c) implies exists|i: int|
                    0 <= i < out@.len() && #[trigger] out@[i].0 == c by {
                assert(pairs.contains((&c, &self.accounts@[c])));
                let j = choose|j: int| 0 <= j < pairs.len() && pairs[j] == (&c, &self.accounts@[c]);
                assert(out@[j].0 == c);
            }
            assert forall|i: int, j: int| 0 <= i < j < out@.len() implies #[trigger] out@[i].0
                != #[trigger] out@[j].0 by {
                if out@[i].0 == out@[j].0 {
                    assert(self.accounts@.contains_key(*pairs[i].0));
                    assert(self.accounts@.contains_key(*pairs[j].0));
                    assert(pairs[i] == pairs[j]);
                }
            }
        }
        out
    }

    /// Every accepted record, in the order it was applied.
    pub fn tx_log_iter(&self) -> (r: &[Transaction])
        ensures
            r@ == self@.log,
    {
        self.tx_log.as_slice()
    }

    /// Applies one record: dispatches on its kind and either commits its whole
    /// effect or rejects it and leaves the ledger as it was.
    pub fn process_tx(&mut self, tx: Transaction) -> (r: Result<(), LedgerError>)
        requires
            old(self)@.well_formed(),
        ensures
            old(self)@.steps_to(tx, final(self)@, r),
            final(self)@.well_formed(),
            forall|c: ClientId| #[trigger]
                old(self)@.accounts.contains_key(c) ==> final(self)@.accounts.contains_key(c)
                    && (old(self)@.accounts[c].locked ==> final(self)@.accounts[c].locked),
            r matches Err(e) ==> !(e is InconsistentHeldFunds),
    {
        proof {
            lemma_apply_keeps_invariants(self@, tx);
            lemma_apply_keeps_accounts(self@, tx);
        }
        match tx {
            Transaction::Deposit(d) => self.handle_deposit(d),
            Transaction::Withdrawal(d) => self.handle_withdrawal(d),
            Transaction::Dispute(s) => self.handle_dispute(s),
            Transaction::Resolve(s) => self.handle_resolve(s),
            Transaction::Chargeback(s) => self.handle_chargeback(s),
        }
    }

    /// Replaces the client's account with `acct`, files `entry` and logs `t`.
    fn commit(&mut self, acct: Account, entry: HistoryEntry, t: Transaction)
        ensures
            final(self)@ == old(self)@.commit(acct, entry, t),
    {
        self.accounts.insert(acct.id, acct);
        self.history.insert(entry.record.tx, entry);
        self.tx_log.push(t);
    }

    fn handle_deposit(&mut self, d: DomesticTransaction) -> (r: Result<(), LedgerError>)
        requires
            old(self)@.well_formed(),
        ensures
            old(self)@.steps_to(Transaction::Deposit(d), final(self)@, r),
    {
        let t = Transaction::Deposit(d);
        if self.history.contains_key(&d.tx) {
            return Err(LedgerError::DuplicateTransaction { tx: t });
        }
        let acct = match self.accounts.get(&d.client) {
            Some(a) => *a,
            None => Account::open(d.client),
        };
        if acct.locked {
            return Err(LedgerError::LockedAccount { client_id: d.client, tx: t });
        }
        if acct.total.units > u64::MAX - d.amount.units {
            return Err(LedgerError::BalanceOverflow { client_id: d.client, tx: t });
        }
        let updated = Account {
            available: Amount { units: acct.available.units + d.amount.units },
            total: Amount { units: acct.total.units + d.amount.units },
            ..acct
        };
        self.commit(
            updated,
            HistoryEntry { movement: Movement::Deposit, record: d, status: DisputeStatus::Clean },
            t,
        );
        Ok(())
    }

    fn handle_withdrawal(&mut self, d: DomesticTransaction) -> (r: Result<(), LedgerError>)
        requires
            old(self)@.well_formed(),
        ensures
            old(self)@.steps_to(Transaction::Withdrawal(d), final(self)@, r),
    {
        if self.history.contains_key(&d.tx) {
            return Err(LedgerError::DuplicateTransaction { tx: Transaction::Withdrawal(d) });
        }
        let acct = match self.accounts.get(&d.client) {
            Some(a) => *a,
            None => {
                return Err(LedgerError::AccountNotFound { tx: Transaction::Withdrawal(d) });
            },
        };
        if acct.locked {
            return Err(
                LedgerError::LockedAccount { client_id: d.client, tx: Transaction::Withdrawal(d) },
            );
        }
        if acct.available.units < d.amount.units {
            return Err(LedgerError::InsufficientFunds { tx: Transaction::Withdrawal(d) });
        }
        let updated = Account {
            available: Amount { units: acct.available.units - d.amount.units },
            total: Amount { units: acct.total.units - d.amount.units },
            ..acct
        };
        self.commit(
            updated,
            HistoryEntry {
                movement: Movement::Withdrawal,
                record: d,
                status: DisputeStatus::Clean,
            },
            Transaction::Withdrawal(d),
        );
        Ok(())
    }

    /// The history entry that `s` refers to: filed under `s.tx` and belonging
    /// to `s.client`.
    fn referenced_entry(&self, s: SupportTransaction) -> (r: Option<HistoryEntry>)
        ensures
            r matches Some(e) ==> self@.references(s) && e == self@.history[s.tx],
            r is None ==> !self@.references(s),
    {
        match self.history.get(&s.tx) {
            Some(e) => if e.record.client == s.client {
                Some(*e)
            } else {
                None
            },
            None => None,
        }
    }

    fn handle_dispute(&mut self, s: SupportTransaction) -> (r: Result<(), LedgerError>)
        requires
            old(self)@.well_formed(),
        ensures
            old(self)@.steps_to(Transaction::Dispute(s), final(self)@, r),
    {
        let t = Transaction::Dispute(s);
        let entry = match self.referenced_entry(s) {
            Some(e) => e,
            None => {
                return Err(LedgerError::TransactionNotFound { tx: t });
            },
        };
        if entry.status != DisputeStatus::Clean {
            return Err(LedgerError::InvalidTransactionForDispute { tx: t });
        }
        let acct = match self.accounts.get(&s.client) {
            Some(a) => *a,
            None => {
                return Err(LedgerError::AccountNotFound { tx: t });
            },
        };
        if acct.locked {
            return Err(LedgerError::LockedAccount { client_id: s.client, tx: t });
        }
        let amt = entry.record.amount.units;
        if acct.available.units < amt {
            return Err(LedgerError::InsufficientFunds { tx: t });
        }
        let updated = Account {
            available: Amount { units: acct.available.units - amt },
            held: Amount { units: acct.held.units + amt },
            ..acct
        };
        self.commit(updated, HistoryEntry { status: DisputeStatus::Disputed, ..entry }, t);
        Ok(())
    }

    fn handle_resolve(&mut self, s: SupportTransaction) -> (r: Result<(), LedgerError>)
        requires
            old(self)@.well_formed(),
        ensures
            old(self)@.steps_to(Transaction::Resolve(s), final(self)@, r),
    {
        let t = Transaction::Resolve(s);
        let entry = match self.referenced_entry(s) {
            Some(e) => e,
            None => {
                return Err(LedgerError::TransactionNotFound { tx: t });
            },
        };
        if entry.status != DisputeStatus::Disputed {
            return Err(LedgerError::DisputeNotFound { tx: t });
        }
        let acct = match self.accounts.get(&s.client) {
            Some(a) => *a,
            None => {
                return Err(LedgerError::AccountNotFound { tx: t });
            },
        };
        if acct.locked {
            return Err(LedgerError::LockedAccount { client_id: s.client, tx: t });
        }
        let amt = entry.record.amount.units;
        if acct.held.units < amt {
            return Err(LedgerError::InconsistentHeldFunds { client_id: s.client, tx: t });
        }
        let updated = Account {
            available: Amount { units: acct.available.units + amt },
            held: Amount { units: acct.held.units - amt },
            ..acct
        };
        self.commit(updated, HistoryEntry { status: DisputeStatus::Clean, ..entry }, t);
        Ok(())
    }

    fn handle_chargeback(&mut self, s: SupportTransaction) -> (r: Result<(), LedgerError>)
        requires
            old(self)@.well_formed(),
        ensures
            old(self)@.steps_to(Transaction::Chargeback(s), final(self)@, r),
    {
        let t = Transaction::Chargeback(s);
        let entry = match self.referenced_entry(s) {
            Some(e) => e,
            None => {
                return Err(LedgerError::TransactionNotFound { tx: t });
            },
        };
        if entry.status != DisputeStatus::Disputed {
            return Err(LedgerError::DisputeNotFound { tx: t });
        }
        let acct = match self.accounts.get(&s.client) {
            Some(a) => *a,
            None => {
                return Err(LedgerError::AccountNotFound { tx: t });
            },
        };
        if acct.locked {
            return Err(LedgerError::LockedAccount { client_id: s.client, tx: t });
        }
        let amt = entry.record.amount.units;
        if acct.held.units < amt {
            return Err(LedgerError::InconsistentHeldFunds { client_id: s.client, tx: t });
        }
        let updated = Account {
            held: Amount { units: acct.held.units - amt },
            total: Amount { units: acct.total.units - amt },
            locked: true,
            ..acct
        };
        self.commit(updated, HistoryEntry { status: DisputeStatus::ChargedBack, ..entry }, t);
        Ok(())
    }
}

} // verus!
