//! A contract whose owner burns tokens held by it, and which keeps a numbered
//! history of the burns.

pub mod contract;
pub mod error;
pub mod helpers;
pub mod msg;
pub mod state;
