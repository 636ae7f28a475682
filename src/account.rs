//! Per-client balances.
use vstd::prelude::*;

use crate::amount::Amount;
use crate::ClientId;

verus! {

/// The balances of one client. `total` is the nominal balance; `available` can
/// be withdrawn or disputed; `held` is frozen by open disputes. Once `locked`,
/// the account accepts no further movement of funds.
#[derive(Clone, Copy, Debug, PartialEq, Eq, Structural)]
pub struct Account {
    pub id: ClientId,
    pub available: Amount,
    pub held: Amount,
    pub total: Amount,
    pub locked: bool,
}

impl Account {
    /// The total equals the available plus the held funds.
    pub open spec fn is_balanced(self) -> bool {
        self.total.units == self.available.units + self.held.units
    }

    /// An empty, unlocked account for client `id`.
    pub open spec fn opened(id: ClientId) -> Account {
        Account {
            id,
            available: Amount { units: 0 },
            held: Amount { units: 0 },
            total: Amount { units: 0 },
            locked: false,
        }
    }

    /// An empty, unlocked account for client `id`.
    pub fn open(id: ClientId) -> (r: Account)
        ensures
            r == Account::opened(id),
    {
        Account {
            id,
            available: Amount::zero(),
            held: Amount::zero(),
            total: Amount::zero(),
            locked: false,
        }
    }
}

impl Default for Account {
    fn default() -> (r: Account)
        ensures
            r == Account::opened(0),
    {
        Account::open(0)
    }
}

} // verus!
