use crate::chain::{std_error_message, StdError};
use vstd::prelude::*;

verus! {

/// Why a request to the burn contract failed.
#[derive(Debug)]
pub enum ContractError {
    Std(StdError),
    Unauthorized {},
}

/// The text each error displays.
pub open spec fn contract_error_message(e: ContractError) -> Seq<char> {
    match e {
        ContractError::Std(e) => std_error_message(e),
        ContractError::Unauthorized {  } => "Unauthorized"@,
    }
}

impl ContractError {
    /// The text of the error.
    pub fn message(&self) -> (m: String)
        ensures
            m@ == contract_error_message(*self),
    {
        match self {
            ContractError::Std(e) => e.message(),
            ContractError::Unauthorized {  } => "Unauthorized".to_owned(),
        }
    }
}

} // verus!
