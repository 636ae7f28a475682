//! Properties of the ledger's rules that hold for every state and record.
use vstd::prelude::*;

use crate::account::Account;
use crate::ledger::{DisputeStatus, HistoryEntry, LedgerView, Movement};
use crate::tx::Transaction;
use crate::{ClientId, TransactionId};

verus! {

/// Applying any record, accepted or rejected, keeps every account balanced
/// (total equal to available plus held, neither below zero) and filed under
/// its client; no account disappears, and a locked account stays locked.
pub proof fn lemma_apply_keeps_invariants(s: LedgerView, t: Transaction)
    requires
        s.well_formed(),
    ensures
        match s.apply(t) {
            Ok(n) => {
                &&& n.well_formed()
                &&& forall|c: ClientId| #[trigger]
                    n.accounts.contains_key(c) ==> n.accounts[c].total.units
                        == n.accounts[c].available.units + n.accounts[c].held.units
                        && n.accounts[c].available.units >= 0 && n.accounts[c].held.units >= 0
                &&& forall|c: ClientId| #[trigger]
                    s.accounts.contains_key(c) ==> n.accounts.contains_key(c) && (
                    s.accounts[c].locked ==> n.accounts[c].locked)
            },
            Err(_) => true,
        },
{
    lemma_apply_keeps_accounts(s, t);
}

/// The available plus held funds of client `c`, or zero when it has no account.
pub open spec fn funds_of(accounts: Map<ClientId, Account>, c: int) -> int {
    if accounts.contains_key(c as ClientId) {
        accounts[c as ClientId].available.units + accounts[c as ClientId].held.units
    } else {
        0
    }
}

/// The funds of the clients whose ids are below `n`.
pub open spec fn funds_below(accounts: Map<ClientId, Account>, n: nat) -> int
    decreases n,
{
    if n == 0 {
        0
    } else {
        funds_below(accounts, (n - 1) as nat) + funds_of(accounts, n - 1)
    }
}

/// The available plus held funds summed over every account.
pub open spec fn total_funds(s: LedgerView) -> int {
    funds_below(s.accounts, 0x1_0000)
}

/// The funds that record `t` brings into the ledger when applied to `s`: a
/// deposit's amount, minus a withdrawal's amount, minus the amount a
/// chargeback reverses; nothing for a rejected record or any other kind.
pub open spec fn inflow(s: LedgerView, t: Transaction) -> int {
    match s.apply(t) {
        Err(_) => 0,
        Ok(_) => match t {
            Transaction::Deposit(d) => d.amount.units as int,
            Transaction::Withdrawal(d) => -d.amount.units,
            Transaction::Chargeback(c) => -s.history[c.tx].record.amount.units,
            _ => 0,
        },
    }
}

/// The state after `s` has applied each of `txs` in turn, rejected ones
/// leaving it as it was.
pub open spec fn replay(s: LedgerView, txs: Seq<Transaction>) -> LedgerView
    decreases txs.len(),
{
    if txs.len() == 0 {
        s
    } else {
        let prev = replay(s, txs.drop_last());
        match prev.apply(txs.last()) {
            Ok(next) => next,
            Err(_) => prev,
        }
    }
}

/// The funds that the accepted records among `txs` bring in, replayed from `s`.
pub open spec fn replayed_inflow(s: LedgerView, txs: Seq<Transaction>) -> int
    decreases txs.len(),
{
    if txs.len() == 0 {
        0
    } else {
        replayed_inflow(s, txs.drop_last()) + inflow(
            replay(s, txs.drop_last()),
            txs.last(),
        )
    }
}

proof fn lemma_funds_below_insert(
    accounts: Map<ClientId, Account>,
    c: ClientId,
    a: Account,
    n: nat,
)
    requires
        n <= 0x1_0000,
    ensures
        funds_below(accounts.insert(c, a), n) == funds_below(accounts, n) + if c < n {
            a.available.units + a.held.units - funds_of(accounts, c as int)
        } else {
            0
        },
    decreases n,
{
    if n > 0 {
        lemma_funds_below_insert(accounts, c, a, (n - 1) as nat);
        let k = n - 1;
        assert((k as ClientId) as int == k);
    }
}

/// One record changes the funds across all accounts by exactly what it brings
/// in: a deposit adds its amount, a withdrawal and a chargeback take theirs
/// away, and every other outcome moves funds only within an account.
pub proof fn lemma_apply_conserves_funds(s: LedgerView, t: Transaction)
    requires
        s.well_formed(),
    ensures
        match s.apply(t) {
            Ok(n) => total_funds(n) == total_funds(s) + inflow(s, t),
            Err(_) => inflow(s, t) == 0,
        },
{
    if let Ok(n) = s.apply(t) {
        let c = t.spec_client_id();
        let a = n.accounts[c];
        assert(n.accounts == s.accounts.insert(c, a));
        lemma_funds_below_insert(s.accounts, c, a, 0x1_0000);
    }
}

/// Replaying records from an empty ledger, the funds summed over all accounts
/// equal the deposits accepted, minus the withdrawals accepted, minus the
/// amounts charged back.
pub proof fn lemma_replay_conserves_funds(txs: Seq<Transaction>)
    ensures
        total_funds(replay(LedgerView::empty(), txs)) == replayed_inflow(
            LedgerView::empty(),
            txs,
        ),
        replay(LedgerView::empty(), txs).well_formed(),
    decreases txs.len(),
{
    let e = LedgerView::empty();
    if txs.len() == 0 {
        lemma_empty_is_well_formed();
        lemma_funds_below_empty(e.accounts, 0x1_0000);
    } else {
        let init = txs.drop_last();
        lemma_replay_conserves_funds(init);
        let prev = replay(e, init);
        lemma_apply_conserves_funds(prev, txs.last());
        lemma_apply_keeps_invariants(prev, txs.last());
    }
}

proof fn lemma_funds_below_empty(accounts: Map<ClientId, Account>, n: nat)
    requires
        accounts == Map::<ClientId, Account>::empty(),
    ensures
        funds_below(accounts, n) == 0,
    decreases n,
{
    if n > 0 {
        lemma_funds_below_empty(accounts, (n - 1) as nat);
    }
}

/// What a tally over the history counts.
pub enum Tally {
    /// The funds each filed record has brought in.
    Inflow,
    /// The funds of client `c` that open disputes hold.
    HeldFor(ClientId),
}

/// What entry `e` adds to tally `w`. For the inflow: a deposit's amount, or
/// minus a withdrawal's, less the amount once more when it was charged back.
/// For the funds held for `c`: the amount of `c`'s disputed records.
pub open spec fn entry_weight(e: HistoryEntry, w: Tally) -> int {
    let a = e.record.amount.units as int;
    match w {
        Tally::Inflow => {
            let signed = if e.movement == Movement::Deposit {
                a
            } else {
                -a
            };
            if e.status == DisputeStatus::ChargedBack {
                signed - a
            } else {
                signed
            }
        },
        Tally::HeldFor(c) => if e.record.client == c && e.status == DisputeStatus::Disputed {
            a
        } else {
            0
        },
    }
}

/// What the entry filed under id `t`, if any, adds to tally `w`.
pub open spec fn weight_at(h: Map<TransactionId, HistoryEntry>, w: Tally, t: int) -> int {
    if h.contains_key(t as TransactionId) {
        entry_weight(h[t as TransactionId], w)
    } else {
        0
    }
}

/// Tally `w` over the entries filed under ids below `n`.
pub open spec fn tally_below(h: Map<TransactionId, HistoryEntry>, w: Tally, n: nat) -> int
    decreases n,
{
    if n == 0 {
        0
    } else {
        tally_below(h, w, (n - 1) as nat) + weight_at(h, w, n - 1)
    }
}

/// Tally `w` over the whole history.
pub open spec fn tally(h: Map<TransactionId, HistoryEntry>, w: Tally) -> int {
    tally_below(h, w, 0x1_0000_0000)
}

/// The held funds of client `c`, or zero when it has no account.
pub open spec fn held_of(accounts: Map<ClientId, Account>, c: ClientId) -> int {
    if accounts.contains_key(c) {
        accounts[c].held.units as int
    } else {
        0
    }
}

/// The history accounts for the funds: the funds across all accounts are the
/// deposits filed, minus the withdrawals filed, minus the amounts charged
/// back; and each client's held funds are the amounts of its open disputes.
pub open spec fn accounted(s: LedgerView) -> bool {
    &&& total_funds(s) == tally(s.history, Tally::Inflow)
    &&& forall|c: ClientId| #[trigger] held_of(s.accounts, c) == tally(s.history, Tally::HeldFor(c))
}

proof fn lemma_tally_insert(
    h: Map<TransactionId, HistoryEntry>,
    w: Tally,
    k: TransactionId,
    e: HistoryEntry,
    n: nat,
)
    requires
        n <= 0x1_0000_0000,
    ensures
        tally_below(h.insert(k, e), w, n) == tally_below(h, w, n) + if k < n {
            entry_weight(e, w) - weight_at(h, w, k as int)
        } else {
            0
        },
    decreases n,
{
    if n > 0 {
        lemma_tally_insert(h, w, k, e, (n - 1) as nat);
        let j = n - 1;
        assert((j as TransactionId) as int == j);
    }
}

proof fn lemma_tally_empty(h: Map<TransactionId, HistoryEntry>, w: Tally, n: nat)
    requires
        h == Map::<TransactionId, HistoryEntry>::empty(),
    ensures
        tally_below(h, w, n) == 0,
    decreases n,
{
    if n > 0 {
        lemma_tally_empty(h, w, (n - 1) as nat);
    }
}

/// The funds held for a client cover each of its disputed records.
proof fn lemma_held_tally_covers(
    h: Map<TransactionId, HistoryEntry>,
    c: ClientId,
    k: TransactionId,
    n: nat,
)
    requires
        n <= 0x1_0000_0000,
    ensures
        tally_below(h, Tally::HeldFor(c), n) >= 0,
        k < n ==> tally_below(h, Tally::HeldFor(c), n) >= weight_at(h, Tally::HeldFor(c), k as int),
    decreases n,
{
    if n > 0 {
        lemma_held_tally_covers(h, c, k, (n - 1) as nat);
        let j = n - 1;
        assert((j as TransactionId) as int == j);
    }
}

/// An empty ledger is well formed.
pub proof fn lemma_empty_is_well_formed()
    ensures
        LedgerView::empty().well_formed(),
{
    let e = LedgerView::empty();
    lemma_funds_below_empty(e.accounts, 0x1_0000);
    lemma_tally_empty(e.history, Tally::Inflow, 0x1_0000_0000);
    assert forall|c: ClientId| #[trigger] held_of(e.accounts, c) == tally(e.history, Tally::HeldFor(c)) by {
        lemma_tally_empty(e.history, Tally::HeldFor(c), 0x1_0000_0000);
    }
}

/// Applying any record keeps the history accounting for the funds. So a
/// resolve or chargeback always finds the disputed amount among the held
/// funds, and a dispute-lifecycle record always finds the client's account.
pub proof fn lemma_apply_keeps_accounts(s: LedgerView, t: Transaction)
    requires
        s.well_formed(),
    ensures
        match s.apply(t) {
            Ok(n) => accounted(n),
            Err(e) => !(e is InconsistentHeldFunds) && (e is AccountNotFound
                ==> t is Withdrawal),
        },
{
    let h = s.history;
    let big: nat = 0x1_0000_0000;
    match t {
        Transaction::Deposit(_) | Transaction::Withdrawal(_) => {},
        Transaction::Dispute(x) | Transaction::Resolve(x) | Transaction::Chargeback(x) => {
            if s.references(x) && s.accounts.contains_key(x.client) {
                lemma_held_tally_covers(h, x.client, x.tx, big);
                assert(held_of(s.accounts, x.client) == tally(h, Tally::HeldFor(x.client)));
            }
        },
    }
    if let Ok(n) = s.apply(t) {
        let c = t.spec_client_id();
        let a = n.accounts[c];
        let k = t.spec_id();
        let e = n.history[k];
        assert(n.accounts == s.accounts.insert(c, a));
        assert(n.history == h.insert(k, e));
        lemma_funds_below_insert(s.accounts, c, a, 0x1_0000);
        lemma_tally_insert(h, Tally::Inflow, k, e, big);
        assert forall|c2: ClientId| #[trigger]
            held_of(n.accounts, c2) == tally(n.history, Tally::HeldFor(c2)) by {
            lemma_tally_insert(h, Tally::HeldFor(c2), k, e, big);
            assert(held_of(s.accounts, c2) == tally(h, Tally::HeldFor(c2)));
        }
    }
}

} // verus!
