use vstd::prelude::*;

verus! {

/// A token amount of one denomination.
#[derive(Debug, PartialEq, Eq)]
pub struct Coin {
    pub denom: String,
    pub amount: u128,
}

impl Clone for Coin {
    fn clone(&self) -> (r: Self)
        ensures
            r == *self,
    {
        Coin { denom: self.denom.clone(), amount: self.amount }
    }
}

/// The character of a decimal digit.
pub open spec fn digit_char(d: nat) -> char {
    if d == 0 {
        '0'
    } else if d == 1 {
        '1'
    } else if d == 2 {
        '2'
    } else if d == 3 {
        '3'
    } else if d == 4 {
        '4'
    } else if d == 5 {
        '5'
    } else if d == 6 {
        '6'
    } else if d == 7 {
        '7'
    } else if d == 8 {
        '8'
    } else {
        '9'
    }
}

/// The decimal notation of `n`, without leading zeros.
pub open spec fn decimal(n: nat) -> Seq<char>
    decreases n,
{
    if n < 10 {
        seq![digit_char(n)]
    } else {
        decimal(n / 10).push(digit_char(n % 10))
    }
}

fn digit_str(d: u128) -> (s: &'static str)
    requires
        d < 10,
    ensures
        s@ == seq![digit_char(d as nat)],
{
    proof {
        reveal_strlit("0");
        reveal_strlit("1");
        reveal_strlit("2");
        reveal_strlit("3");
        reveal_strlit("4");
        reveal_strlit("5");
        reveal_strlit("6");
        reveal_strlit("7");
        reveal_strlit("8");
        reveal_strlit("9");
    }
    let s = if d == 0 {
        "0"
    } else if d == 1 {
        "1"
    } else if d == 2 {
        "2"
    } else if d == 3 {
        "3"
    } else if d == 4 {
        "4"
    } else if d == 5 {
        "5"
    } else if d == 6 {
        "6"
    } else if d == 7 {
        "7"
    } else if d == 8 {
        "8"
    } else {
        "9"
    };
    assert(s@ =~= seq![digit_char(d as nat)]);
    s
}

fn push_decimal(s: &mut String, n: u128)
    ensures
        final(s)@ == old(s)@ + decimal(n as nat),
    decreases n,
{
    if n >= 10 {
        push_decimal(s, n / 10);
    }
    s.append(digit_str(n % 10));
    proof {
        if n >= 10 {
            assert(old(s)@ + decimal((n / 10) as nat) + seq![digit_char((n % 10) as nat)] =~= old(s)@
                + decimal(n as nat));
        } else {
            assert(old(s)@ + seq![digit_char((n % 10) as nat)] =~= old(s)@ + decimal(n as nat));
        }
    }
}

/// The decimal notation of an amount, as `u128`'s `to_string` writes it.
pub(crate) fn amount_to_string(x: u128) -> (s: String)
    ensures
        s@ == decimal(x as nat),
{
    let mut s = String::new();
    push_decimal(&mut s, x);
    proof {
        assert(Seq::<char>::empty() + decimal(x as nat) =~= decimal(x as nat));
    }
    s
}

/// The decimal notation of an amount, as the chain's `Uint128` displays it.
///
/// Trusted: calls `to_string` on `cosmwasm_std::Uint128` holding `x`; its `Display`
/// forwards to the `u128` inside, so it writes `x` in base ten with no sign, no
/// padding and no leading zeros.
#[verifier::external_body]
pub(crate) fn uint128_to_string(x: u128) -> (s: String)
    ensures
        s@ == decimal(x as nat),
{
    cosmwasm_std::Uint128::new(x).to_string()
}

/// Builds a coin of `amount` in the denomination `denom`.
pub fn coin(amount: u128, denom: &str) -> (c: Coin)
    ensures
        c.amount == amount,
        c.denom@ == denom@,
{
    Coin { denom: denom.to_owned(), amount }
}

} // verus!
