use crate::airdrop::error::ContractError;
use crate::coin::{amount_to_string, decimal, Coin};
use vstd::prelude::*;

verus! {

/// Some coin in `sent` has the denomination of `required` and at least its amount.
pub open spec fn covers(sent: Seq<Coin>, required: Coin) -> bool {
    exists|i: int|
        0 <= i < sent.len() && (#[trigger] sent[i]).denom@ == required.denom@ && sent[i].amount
            >= required.amount
}

/// `r` is the verdict on the funds `sent` against the requirement `required`:
/// accepted when nothing is required, a zero amount is required, or a sent coin
/// covers it; otherwise refused with the required amount in decimal.
pub open spec fn funds_verdict(sent: Seq<Coin>, required: Option<Coin>, r: Result<(), ContractError>) -> bool {
    match required {
        None => r is Ok,
        Some(c) => if c.amount == 0 || covers(sent, c) {
            r is Ok
        } else {
            r matches Err(ContractError::InsufficientFundsSend { required_amount })
                && required_amount@ == decimal(c.amount as nat)
        },
    }
}

/// Checks that the funds sent with a request pay what is required: nothing is
/// required, a zero amount is required, or one sent coin of the required
/// denomination is at least the required amount.
pub fn send_token_before_buy(sent: &[Coin], required: Option<Coin>) -> (r: Result<(), ContractError>)
    ensures
        funds_verdict(sent@, required, r),
{
    if let Some(required_coin) = required {
        let required_amount = required_coin.amount;
        if required_amount > 0 {
            let n = sent.len();
            let mut i: usize = 0;
            while i < n
                invariant
                    n == sent@.len(),
                    required == Some(required_coin),
                    required_amount == required_coin.amount,
                    0 <= i <= n,
                    forall|j: int|
                        0 <= j < i ==> !((#[trigger] sent@[j]).denom@ == required_coin.denom@
                            && sent@[j].amount >= required_amount),
                decreases n - i,
            {
                if sent[i].denom == required_coin.denom && sent[i].amount >= required_amount {
                    return Ok(());
                }
                i = i + 1;
            }
            return Err(
                ContractError::InsufficientFundsSend {
                    required_amount: amount_to_string(required_amount),
                },
            );
        }
    }
    Ok(())
}

/// The funds are accepted exactly when nothing is required, the required amount
/// is zero, or some sent coin is in the required denomination and holds at least
/// the required amount; in particular coins of other denominations never count,
/// however large. A refusal names the required amount in decimal.
pub proof fn law_funds_match_denomination(sent: Seq<Coin>, required: Option<Coin>, r: Result<(), ContractError>)
    requires
        funds_verdict(sent, required, r),
    ensures
        (r is Ok) <==> match required {
            None => true,
            Some(c) => c.amount == 0 || exists|i: int|
                0 <= i < sent.len() && (#[trigger] sent[i]).denom@ == c.denom@ && sent[i].amount
                    >= c.amount,
        },
        required matches Some(c) ==> (c.amount > 0 && forall|i: int|
            0 <= i < sent.len() ==> (#[trigger] sent[i]).denom@ != c.denom@) ==> (r matches Err(
            ContractError::InsufficientFundsSend { required_amount },
        ) && required_amount@ == decimal(c.amount as nat)),
{
}
} // verus!
