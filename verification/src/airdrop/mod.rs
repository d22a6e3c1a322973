//! A contract that pays a fixed amount of tokens to each delegator who claims it,
//! and keeps a numbered history of the claims.

pub mod coin_helpers;
pub mod contract;
pub mod error;
pub mod msg;
pub mod state;
