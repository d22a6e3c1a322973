use crate::chain::Timestamp;
use crate::coin::Coin;
use crate::history::Entry;
use crate::ledger::{Ledger, LedgerView};
use vstd::prelude::*;

verus! {

/// Who may claim the airdrop.
#[derive(Clone, Copy, Debug, PartialEq, Eq, Structural)]
pub enum Required {
    AllDelegator,
}

/// A rule that asks for a minimum delegation.
#[derive(Clone, Copy, Debug, PartialEq, Eq, Structural)]
pub struct AllDelegator {
    pub minimum: u64,
}

/// The contract's configuration, set at instantiation.
#[derive(Debug, PartialEq, Eq)]
pub struct Config {
    pub owner: String,
    pub icon_url: String,
    pub title: String,
    pub description: String,
    pub create_date: Timestamp,
    pub required: Required,
}

impl Clone for Config {
    fn clone(&self) -> (r: Self)
        ensures
            r == *self,
    {
        Config {
            owner: self.owner.clone(),
            icon_url: self.icon_url.clone(),
            title: self.title.clone(),
            description: self.description.clone(),
            create_date: self.create_date,
            required: self.required,
        }
    }
}

/// One claim: its id, when it happened, what was paid and to whom.
#[derive(Debug, PartialEq, Eq)]
pub struct AirdropList {
    pub id: u64,
    pub date: Timestamp,
    pub amount: Coin,
    pub to: String,
}

impl Clone for AirdropList {
    fn clone(&self) -> (r: Self)
        ensures
            r == *self,
    {
        AirdropList {
            id: self.id,
            date: self.date,
            amount: self.amount.clone(),
            to: self.to.clone(),
        }
    }
}

impl Entry for AirdropList {
    open spec fn entry_id(&self) -> u64 {
        self.id
    }

    fn id(&self) -> (r: u64) {
        self.id
    }

    fn duplicate(&self) -> (r: Self) {
        self.clone()
    }
}

/// The contract's storage: the configuration, the id of the last claim, and the claims.
pub type Store = Ledger<Config, AirdropList>;

/// The contents of the contract's storage.
pub type StoreView = LedgerView<Config, AirdropList>;

} // verus!
