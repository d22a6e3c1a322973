use crate::airdrop::state::{AirdropList, Required};
use crate::chain::{BalanceResponse, Timestamp};
use vstd::prelude::*;

verus! {

/// The settings the contract is instantiated with.
#[derive(Debug)]
pub struct InstantiateMsg {
    pub owner: String,
    pub icon_url: String,
    pub title: String,
    pub description: String,
    pub required: Required,
}

/// The requests that change the contract's state.
#[derive(Debug)]
pub enum ExecuteMsg {
    ClaimAirdrop {},
}

/// The read-only requests.
#[derive(Debug)]
pub enum QueryMsg {
    /// A page of the claim history.
    GetAirdropList { start_after: Option<u64>, limit: Option<u32> },
    /// The balance and the bonded amount of an address.
    WalletInfo { address: String },
    /// The configuration.
    GetConfig {},
}

/// A page of the claim history.
#[derive(Debug)]
pub struct GetAirdropListResponse {
    pub entries: Vec<AirdropList>,
}

/// The balance of an address in the airdrop's denomination, and its bonded total.
#[derive(Debug)]
pub struct WalletInfoResponse {
    pub balance: BalanceResponse,
    pub bonded: String,
}

/// The contract's configuration.
#[derive(Debug)]
pub struct ConfigInfoResponse {
    pub owner: String,
    pub icon_url: String,
    pub title: String,
    pub description: String,
    pub create_date: Timestamp,
    pub required: Required,
}

} // verus!
