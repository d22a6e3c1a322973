use crate::chain::{std_error_message, StdError};
use vstd::prelude::*;

verus! {

/// Why a request to the airdrop contract failed.
#[derive(Debug)]
pub enum ContractError {
    Std(StdError),
    Unauthorized {},
    InsufficientFundsSend { required_amount: String },
    UnauthorizedBoundRules {},
}

/// The text each error displays.
pub open spec fn contract_error_message(e: ContractError) -> Seq<char> {
    match e {
        ContractError::Std(e) => std_error_message(e),
        ContractError::Unauthorized {  } => "Unauthorized"@,
        ContractError::InsufficientFundsSend { required_amount } => "Insufficient funds sent (error "@
            + required_amount@ + ")"@,
        ContractError::UnauthorizedBoundRules {  } =>
            "You do not have enough bounded tokens to claim your airdrop (Needed: xxxx)"@,
    }
}

impl ContractError {
    /// The text of the error.
    pub fn message(&self) -> (m: String)
        ensures
            m@ == contract_error_message(*self),
    {
        match self {
            ContractError::Std(e) => e.message(),
            ContractError::Unauthorized {  } => "Unauthorized".to_owned(),
            ContractError::InsufficientFundsSend { required_amount } => {
                let mut m = "Insufficient funds sent (error ".to_owned();
                m.append(required_amount.as_str());
                m.append(")");
                m
            },
            ContractError::UnauthorizedBoundRules {  } =>
                "You do not have enough bounded tokens to claim your airdrop (Needed: xxxx)".to_owned(),
        }
    }
}

} // verus!
