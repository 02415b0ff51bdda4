//! The constant-product quote formulas shared by every hop, with proofs that
//! the executable fixed-width arithmetic computes them exactly.

use vstd::prelude::*;
use vstd::arithmetic::div_mod::{
    lemma_div_is_ordered, lemma_div_multiples_vanish, lemma_div_nonincreasing,
    lemma_div_pos_is_pos, lemma_multiply_divide_lt,
};
use vstd::arithmetic::mul::{lemma_mul_inequality, lemma_mul_nonnegative};
use crate::types::RouterError;

verus! {

/// Fees are expressed in parts of this denominator (30 means 0.30%).
pub const FEE_DENOM: u64 = 10000;

/// The portion of an input amount that remains after the fee is taken:
/// `floor(amount_in * (FEE_DENOM - fee) / FEE_DENOM)`.
pub open spec fn net_in(amount_in: int, fee: int) -> int {
    amount_in * (FEE_DENOM - fee) / (FEE_DENOM as int)
}

/// Exact-in quote against reserves `(r_in, r_out)`:
/// `floor(r_out * net / (r_in + net))` where `net` is the after-fee input.
pub open spec fn quote_out(r_in: int, r_out: int, amount_in: int, fee: int) -> int {
    r_out * net_in(amount_in, fee) / (r_in + net_in(amount_in, fee))
}

/// Exact-out quote: the input required so that the pool can pay `amount_out`,
/// with the fee grossed back up and both divisions rounded in the pool's
/// favour.
pub open spec fn quote_in(r_in: int, r_out: int, amount_out: int, fee: int) -> int {
    (r_in * amount_out / (r_out - amount_out) + 1) * (FEE_DENOM as int) / (FEE_DENOM - fee) + 1
}

/// The after-fee input never exceeds the input and is never negative.
pub proof fn lemma_net_in_bounds(amount_in: int, fee: int)
    requires
        0 <= amount_in,
        0 <= fee < FEE_DENOM,
    ensures
        0 <= net_in(amount_in, fee) <= amount_in,
{
    lemma_mul_nonnegative(amount_in, FEE_DENOM - fee);
    lemma_div_pos_is_pos(amount_in * (FEE_DENOM - fee), FEE_DENOM as int);
    lemma_mul_inequality(FEE_DENOM - fee, FEE_DENOM as int, amount_in);
    assert(amount_in * (FEE_DENOM - fee) == (FEE_DENOM - fee) * amount_in) by (nonlinear_arith);
    lemma_div_is_ordered(amount_in * (FEE_DENOM - fee), amount_in * (FEE_DENOM as int), FEE_DENOM as int);
    assert(amount_in * (FEE_DENOM as int) == (FEE_DENOM as int) * amount_in) by (nonlinear_arith);
    lemma_div_multiples_vanish(amount_in, FEE_DENOM as int);
}

/// An exact-in quote always leaves the output reserve strictly positive.
pub proof fn lemma_quote_out_bounds(r_in: int, r_out: int, amount_in: int, fee: int)
    requires
        1 <= r_in,
        1 <= r_out,
        0 <= amount_in,
        0 <= fee < FEE_DENOM,
    ensures
        0 <= quote_out(r_in, r_out, amount_in, fee) < r_out,
{
    let net = net_in(amount_in, fee);
    lemma_net_in_bounds(amount_in, fee);
    lemma_mul_nonnegative(r_out, net);
    lemma_div_pos_is_pos(r_out * net, r_in + net);
    assert(r_out * net < (r_in + net) * r_out) by (nonlinear_arith)
        requires
            1 <= r_in,
            1 <= r_out,
            0 <= net,
    ;
    lemma_multiply_divide_lt(r_out * net, r_in + net, r_out);
}

/// Grossing an amount up by the fee never shrinks it.
proof fn lemma_gross_up_ge(x: int, fee: int)
    requires
        0 <= x,
        0 <= fee < FEE_DENOM,
    ensures
        x * (FEE_DENOM as int) / (FEE_DENOM - fee) >= x,
{
    lemma_mul_inequality(FEE_DENOM - fee, FEE_DENOM as int, x);
    assert(x * (FEE_DENOM - fee) == (FEE_DENOM - fee) * x) by (nonlinear_arith);
    assert(x * (FEE_DENOM as int) == (FEE_DENOM as int) * x) by (nonlinear_arith);
    lemma_div_is_ordered(x * (FEE_DENOM - fee), x * (FEE_DENOM as int), FEE_DENOM - fee);
    lemma_div_multiples_vanish(x, FEE_DENOM - fee);
}

/// An exact-out quote is at least one token.
pub proof fn lemma_quote_in_pos(r_in: int, r_out: int, amount_out: int, fee: int)
    requires
        1 <= r_in,
        0 <= amount_out < r_out,
        0 <= fee < FEE_DENOM,
    ensures
        1 <= quote_in(r_in, r_out, amount_out, fee),
{
    lemma_mul_nonnegative(r_in, amount_out);
    lemma_div_pos_is_pos(r_in * amount_out, r_out - amount_out);
    lemma_gross_up_ge(r_in * amount_out / (r_out - amount_out) + 1, fee);
}

/// Computes the exact-in quote. The result is the spec-level formula
/// exactly: `floor(r_out * net / (r_in + net))` with
/// `net = floor(amount_in * (FEE_DENOM - fee) / FEE_DENOM)`.
pub fn quote_exact_in(r_in: u64, r_out: u64, amount_in: u64, fee: u64) -> (out: u64)
    requires
        1 <= r_in,
        1 <= r_out,
        fee < FEE_DENOM,
    ensures
        out == quote_out(r_in as int, r_out as int, amount_in as int, fee as int),
        out < r_out,
{
    proof {
        lemma_net_in_bounds(amount_in as int, fee as int);
        lemma_quote_out_bounds(r_in as int, r_out as int, amount_in as int, fee as int);
        assert((amount_in as u128) * ((FEE_DENOM - fee) as u128) <= u128::MAX) by (nonlinear_arith)
            requires
                amount_in <= u64::MAX,
                fee < FEE_DENOM,
        ;
    }
    let net: u128 = (amount_in as u128) * ((FEE_DENOM - fee) as u128) / (FEE_DENOM as u128);
    proof {
        assert((r_out as u128) * net <= u128::MAX) by (nonlinear_arith)
            requires
                r_out <= u64::MAX,
                net <= u64::MAX,
        ;
    }
    let out: u128 = (r_out as u128) * net / ((r_in as u128) + net);
    out as u64
}

/// Computes the exact-out quote, or reports that the required input does not
/// fit in a `u64`.
pub fn quote_exact_out(r_in: u64, r_out: u64, amount_out: u64, fee: u64) -> (r: Result<
    u64,
    RouterError,
>)
    requires
        1 <= r_in,
        1 <= r_out,
        fee < FEE_DENOM,
        amount_out < r_out,
    ensures
        match r {
            Ok(v) => v == quote_in(r_in as int, r_out as int, amount_out as int, fee as int)
                && 1 <= v,
            Err(e) => e == RouterError::AmountOverflow && quote_in(
                r_in as int,
                r_out as int,
                amount_out as int,
                fee as int,
            ) > u64::MAX,
        },
{
    let denom: u64 = r_out - amount_out;
    proof {
        lemma_quote_in_pos(r_in as int, r_out as int, amount_out as int, fee as int);
        assert((r_in as u128) * (amount_out as u128) <= u128::MAX) by (nonlinear_arith)
            requires
                r_in <= u64::MAX,
                amount_out <= u64::MAX,
        ;
    }
    let base: u128 = (r_in as u128) * (amount_out as u128) / (denom as u128);
    if base >= u64::MAX as u128 {
        proof {
            lemma_gross_up_ge(base as int + 1, fee as int);
        }
        return Err(RouterError::AmountOverflow);
    }
    proof {
        assert((base + 1) * (FEE_DENOM as u128) <= u128::MAX) by (nonlinear_arith)
            requires
                base < u64::MAX,
        ;
        lemma_mul_nonnegative(base as int + 1, FEE_DENOM as int);
        lemma_div_pos_is_pos((base as int + 1) * (FEE_DENOM as int), FEE_DENOM - fee);
        lemma_div_nonincreasing((base as int + 1) * (FEE_DENOM as int), FEE_DENOM - fee);
    }
    let gross: u128 = (base + 1) * (FEE_DENOM as u128) / ((FEE_DENOM - fee) as u128) + 1;
    if gross > u64::MAX as u128 {
        Err(RouterError::AmountOverflow)
    } else {
        Ok(gross as u64)
    }
}

} // verus!
