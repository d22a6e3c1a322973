use crate::burn::state::BurnHistory;
use vstd::prelude::*;

verus! {

/// The message the contract is instantiated with.
#[derive(Debug)]
pub struct InstantiateMsg {
    pub owner: String,
}

/// The requests that change the contract's state.
#[derive(Debug)]
pub enum ExecuteMsg {
    /// Burns `amount` of the contract's denomination.
    Burn { amount: u128 },
}

/// The read-only requests.
#[derive(Debug)]
pub enum QueryMsg {
    /// A page of the burn history.
    BurnHistory { start_after: Option<u64>, limit: Option<u32> },
}

/// A page of the burn history.
#[derive(Debug)]
pub struct BurnHistoryResponse {
    pub entries: Vec<BurnHistory>,
}

} // verus!
