//! Decimal rendering and message text.

use vstd::prelude::*;

verus! {

/// The decimal digit character for `d`.
pub open spec fn digit_char(d: nat) -> char {
    if d == 0 { '0' } else if d == 1 { '1' } else if d == 2 { '2' } else if d == 3 { '3' }
    else if d == 4 { '4' } else if d == 5 { '5' } else if d == 6 { '6' } else if d == 7 { '7' }
    else if d == 8 { '8' } else { '9' }
}

/// Decimal digits of `n`, most significant first, without leading zeros.
pub open spec fn decimal(n: nat) -> Seq<char>
    decreases n,
{
    if n < 10 {
        seq![digit_char(n)]
    } else {
        decimal(n / 10).push(digit_char(n % 10))
    }
}

/// Relies on `u64::to_string`: the decimal form of `n`.
#[verifier::external_body]
pub(crate) fn decimal_string(n: u64) -> (r: String)
    ensures
        r@ == decimal(n as nat),
{
    n.to_string()
}

/// Appends the decimal form of `n` to `s`.
pub(crate) fn push_decimal(s: &mut String, n: u64)
    ensures
        final(s)@ == old(s)@ + decimal(n as nat),
{
    let d = decimal_string(n);
    s.append(d.as_str());
}

/// Message of a deposit refused for a zero amount.
pub open spec fn zero_deposit_message() -> Seq<char> {
    "Deposit amount must be greater than 0"@
}

/// Message of a swap refused for a zero amount.
pub open spec fn zero_swap_message() -> Seq<char> {
    "Swap amount must be greater than 0"@
}

/// Message of an operation refused because a balance or counter would overflow.
pub open spec fn overflow_message() -> Seq<char> {
    "Amount would overflow a balance"@
}

/// Message of a successful deposit of `n`.
pub open spec fn deposit_message(n: u64) -> Seq<char> {
    "Successfully deposited "@ + decimal(n as nat) + " ICP"@
}

/// Message of a swap into tokens refused for want of ICP.
pub open spec fn short_icp_message(available: u64, required: u64) -> Seq<char> {
    "Insufficient ICP balance. Available: "@ + decimal(available as nat) + ", Required: "@
        + decimal(required as nat)
}

/// Message of a swap into ICP refused for want of `token` tokens.
pub open spec fn short_token_message(token: Seq<char>, available: u64, required: u64) -> Seq<
    char,
> {
    "Insufficient "@ + token + " token balance. Available: "@ + decimal(available as nat)
        + ", Required: "@ + decimal(required as nat)
}

/// Message of a successful swap of `n` ICP into `token`.
pub open spec fn swap_in_message(token: Seq<char>, n: u64) -> Seq<char> {
    "Successfully swapped "@ + decimal(n as nat) + " ICP to "@ + decimal(n as nat) + " "@ + token
        + " tokens"@
}

/// Message of a successful swap of `n` `token` tokens into ICP.
pub open spec fn swap_out_message(token: Seq<char>, n: u64) -> Seq<char> {
    "Successfully swapped "@ + decimal(n as nat) + " "@ + token + " tokens to "@ + decimal(
        n as nat,
    ) + " ICP"@
}

/// Greeting for `name` that reports an ICP balance and a default swap amount.
pub open spec fn greeting(name: Seq<char>, icp: u64, default_swap: u64) -> Seq<char> {
    "Hello, "@ + name + "! Your ICP balance: "@ + decimal(icp as nat) + " ICP, Default swap amount: "@
        + decimal(default_swap as nat) + " ICP"@
}

/// An owned copy of `t`.
pub(crate) fn owned(t: &str) -> (r: String)
    ensures
        r@ == t@,
{
    t.to_owned()
}

} // verus!
