//! Fixed-point credit arithmetic.
//!
//! A credit amount (a guest's balance, the cost of an exchange) is an `i64`
//! counting units of 10^-9 credits. A token price is an `i64` counting units
//! of 10^-6 credits per 1,000 tokens. With these scales the cost formula
//! `(prompt_tokens * prompt_price + completion_tokens * completion_price) / 1000`
//! is computed exactly, with no rounding: one token at price `p` costs
//! exactly `p` units of 10^-9 credits.
use vstd::prelude::*;

verus! {

/// Largest token count a provider reply may report.
pub const MAX_TOKENS_REPORTED: u64 = 1_000_000_000;

/// Largest price (in units of 10^-6 credits per 1,000 tokens) a provider
/// configuration may carry.
pub const MAX_PRICE: i64 = 1_000_000_000;

/// Cost of an exchange, in units of 10^-9 credits: exactly
/// `(p * prompt_price + c * completion_price) / 1000` credits.
pub open spec fn spec_cost(p: int, c: int, prompt_price: int, completion_price: int) -> int {
    p * prompt_price + c * completion_price
}

/// A price is valid when it is non-negative and at most `MAX_PRICE`.
pub open spec fn valid_price(price: int) -> bool {
    0 <= price <= MAX_PRICE
}

/// A reported token count is valid when it is at most `MAX_TOKENS_REPORTED`.
pub open spec fn valid_token_count(tokens: int) -> bool {
    0 <= tokens <= MAX_TOKENS_REPORTED
}

/// Computes the cost of an exchange from the token counts that the provider
/// reported and the configured prices.
pub fn cost_of(p: u64, c: u64, prompt_price: i64, completion_price: i64) -> (cost: i64)
    requires
        valid_token_count(p as int),
        valid_token_count(c as int),
        valid_price(prompt_price as int),
        valid_price(completion_price as int),
    ensures
        cost == spec_cost(p as int, c as int, prompt_price as int, completion_price as int),
        0 <= cost <= 2_000_000_000_000_000_000,
{
    proof {
        mul_bounds(p as int, prompt_price as int);
        mul_bounds(c as int, completion_price as int);
    }
    (p as i64) * prompt_price + (c as i64) * completion_price
}

proof fn mul_bounds(t: int, price: int)
    requires
        valid_token_count(t),
        valid_price(price),
    ensures
        0 <= t * price <= 1_000_000_000_000_000_000,
{
    assert(0 <= t * price <= 1_000_000_000_000_000_000) by (nonlinear_arith)
        requires
            0 <= t <= 1_000_000_000,
            0 <= price <= 1_000_000_000,
    ;
}

} // verus!
