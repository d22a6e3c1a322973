use crate::coin::Coin;
use vstd::prelude::*;

verus! {

/// A point in time, in nanoseconds since the UNIX epoch, as the chain reports a block's time.
#[derive(Clone, Copy, Debug, PartialEq, Eq, Structural)]
pub struct Timestamp {
    pub nanos: u64,
}

/// A key and a value attached to a response.
#[derive(Debug)]
pub struct Attribute {
    pub key: String,
    pub value: String,
}

/// A message to the bank module that a response asks the chain to dispatch.
#[derive(Debug)]
pub enum BankMsg {
    /// Sends `amount` from the contract to `to_address`.
    Send { to_address: String, amount: Vec<Coin> },
    /// Burns `amount` held by the contract.
    Burn { amount: Vec<Coin> },
}

/// What a contract hands back to the chain: the messages to dispatch and the
/// attributes to log.
#[derive(Debug)]
pub struct Response {
    pub messages: Vec<BankMsg>,
    pub attributes: Vec<Attribute>,
}

/// The balance of one denomination held by an address.
#[derive(Debug)]
pub struct BalanceResponse {
    pub amount: Coin,
}

/// An error of the kind the chain's standard library reports.
#[derive(Debug)]
pub enum StdError {
    GenericErr { msg: String },
}

/// The text of an error, as the chain's standard library displays it.
pub open spec fn std_error_message(e: StdError) -> Seq<char> {
    match e {
        StdError::GenericErr { msg } => "Generic error: "@ + msg@,
    }
}

impl StdError {
    /// The text of the error.
    pub fn message(&self) -> (m: String)
        ensures
            m@ == std_error_message(*self),
    {
        match self {
            StdError::GenericErr { msg } => {
                let mut m = "Generic error: ".to_owned();
                m.append(msg.as_str());
                m
            },
        }
    }
}

/// Builds an attribute from its key and value.
pub fn attribute(key: &str, value: &str) -> (a: Attribute)
    ensures
        a.key@ == key@,
        a.value@ == value@,
{
    Attribute { key: key.to_owned(), value: value.to_owned() }
}

/// Whether `a` is the attribute `key` = `value`.
pub open spec fn is_attribute(a: Attribute, key: Seq<char>, value: Seq<char>) -> bool {
    a.key@ == key && a.value@ == value
}

/// Whether `coins` is the single coin of `amount` in `denom`.
pub open spec fn is_single_coin(coins: Seq<Coin>, amount: u128, denom: Seq<char>) -> bool {
    coins.len() == 1 && coins[0].amount == amount && coins[0].denom@ == denom
}

} // verus!
