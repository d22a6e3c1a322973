//! Verified core of two CosmWasm contracts: an airdrop that pays a fixed amount to
//! delegators and keeps a history of claims, and a burn contract that lets its owner
//! burn tokens and keeps a history of burns.

pub mod chain;
pub mod coin;
pub mod history;
pub mod ledger;

pub mod airdrop;
pub mod burn;
