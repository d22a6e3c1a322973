use crate::chain::Timestamp;
use crate::coin::Coin;
use crate::history::Entry;
use crate::ledger::{Ledger, LedgerView};
use vstd::prelude::*;

verus! {

/// The contract's configuration: the address allowed to burn.
#[derive(Debug, PartialEq, Eq)]
pub struct Config {
    pub owner: String,
}

impl Clone for Config {
    fn clone(&self) -> (r: Self)
        ensures
            r == *self,
    {
        Config { owner: self.owner.clone() }
    }
}

/// One burn: its id, when it happened, what was burnt and by whom.
#[derive(Debug, PartialEq, Eq)]
pub struct BurnHistory {
    pub id: u64,
    pub date: Timestamp,
    pub amount: Coin,
    pub denom: String,
    pub address: String,
}

impl Clone for BurnHistory {
    fn clone(&self) -> (r: Self)
        ensures
            r == *self,
    {
        BurnHistory {
            id: self.id,
            date: self.date,
            amount: self.amount.clone(),
            denom: self.denom.clone(),
            address: self.address.clone(),
        }
    }
}

impl Entry for BurnHistory {
    open spec fn entry_id(&self) -> u64 {
        self.id
    }

    fn id(&self) -> (r: u64) {
        self.id
    }

    fn duplicate(&self) -> (r: Self) {
        self.clone()
    }
}

/// The contract's storage: the configuration, the id of the last burn, and the burns.
pub type Store = Ledger<Config, BurnHistory>;

/// The contents of the contract's storage.
pub type StoreView = LedgerView<Config, BurnHistory>;

} // verus!
