//! Price arithmetic of the constant-product engine.
//!
//! All formulas are stated over unbounded integers; the executable functions
//! compute them with 256-bit intermediates and saturate results into the
//! 128-bit balance range exactly where the engine does.

use vstd::prelude::*;

use crate::wide::{clip_u128, pow256, wide_add, wide_div, wide_mul, wide_sub, Wide};
use crate::xyk::Module;
use crate::{Balance, Error};

verus! {

/// Amount bought when selling `sell` into a pool with reserves
/// `in_r` (sold side) and `out_r` (bought side), after the 3-per-1000 fee.
pub open spec fn sell_price_int(in_r: int, out_r: int, sell: int) -> int
    recommends
        1000 * in_r + 997 * sell > 0,
{
    (997 * sell * out_r) / (1000 * in_r + 997 * sell)
}

/// Amount bought for `sell` at the plain pool ratio, without any fee.
pub open spec fn sell_price_no_fee_int(in_r: int, out_r: int, sell: int) -> int
    recommends
        in_r + sell > 0,
{
    (sell * out_r) / (in_r + sell)
}

/// Amount that must be paid to take `buy` out of a pool with reserves
/// `in_r` (paid side) and `out_r` (bought side); rounded up by one so the
/// pool is never under-charged.
pub open spec fn buy_price_int(in_r: int, out_r: int, buy: int) -> int
    recommends
        buy < out_r,
{
    (in_r * buy * 1000) / ((out_r - buy) * 997) + 1
}

/// Share of `reserve` paid out when burning `amount` of `total` shares.
pub open spec fn burn_amount_int(reserve: int, amount: int, total: int) -> int
    recommends
        total > 0,
{
    (reserve * amount) / total
}

/// Second-asset deposit required when minting with `amount_a` against
/// reserves `reserve_a`, `reserve_b`; rounded up by one.
pub open spec fn mint_required_b_int(amount_a: int, reserve_a: int, reserve_b: int) -> int
    recommends
        reserve_a > 0,
{
    (amount_a * reserve_b) / reserve_a + 1
}

/// Shares minted for an `amount_a` deposit against reserve `reserve_a`
/// when `total` shares are outstanding; rounded down.
pub open spec fn mint_shares_int(amount_a: int, reserve_a: int, total: int) -> int
    recommends
        reserve_a > 0,
{
    (amount_a * total) / reserve_a
}

/// The quotient never exceeds `bound` when the numerator is at most
/// `bound * den`.
pub proof fn lemma_div_le_bound(num: int, den: int, bound: int)
    requires
        den > 0,
        bound >= 0,
        0 <= num <= bound * den,
    ensures
        num / den <= bound,
{
    vstd::arithmetic::div_mod::lemma_div_is_ordered(num, bound * den, den);
    vstd::arithmetic::div_mod::lemma_div_by_multiple(bound, den);
}

/// The sell formula never pays out more than the whole output reserve.
pub proof fn lemma_sell_price_le_out(in_r: int, out_r: int, sell: int)
    requires
        in_r >= 0,
        out_r >= 0,
        sell >= 0,
        1000 * in_r + 997 * sell > 0,
    ensures
        0 <= sell_price_int(in_r, out_r, sell) <= out_r,
{
    let num = 997 * sell * out_r;
    let den = 1000 * in_r + 997 * sell;
    assert(num >= 0) by (nonlinear_arith)
        requires
            sell >= 0,
            out_r >= 0,
            num == 997 * sell * out_r,
    ;
    vstd::arithmetic::div_mod::lemma_div_pos_is_pos(num, den);
    assert(num <= out_r * den) by (nonlinear_arith)
        requires
            in_r >= 0,
            out_r >= 0,
            sell >= 0,
            num == 997 * sell * out_r,
            den == 1000 * in_r + 997 * sell,
    ;
    lemma_div_le_bound(num, den, out_r);
}

/// Against positive reserves the sell formula pays out strictly less than
/// the output reserve, so a swap never empties a pool.
pub proof fn lemma_sell_price_lt_out(in_r: int, out_r: int, sell: int)
    requires
        in_r >= 1,
        out_r >= 1,
        sell >= 0,
    ensures
        0 <= sell_price_int(in_r, out_r, sell) < out_r,
{
    let num = 997 * sell * out_r;
    let den = 1000 * in_r + 997 * sell;
    lemma_sell_price_le_out(in_r, out_r, sell);
    assert(num < den * out_r) by (nonlinear_arith)
        requires
            in_r >= 1,
            out_r >= 1,
            sell >= 0,
            num == 997 * sell * out_r,
            den == 1000 * in_r + 997 * sell,
    ;
    vstd::arithmetic::div_mod::lemma_multiply_divide_lt(num, den, out_r);
}

/// The no-fee sell formula never pays out more than the whole output reserve.
pub proof fn lemma_sell_price_no_fee_le_out(in_r: int, out_r: int, sell: int)
    requires
        in_r >= 0,
        out_r >= 0,
        sell >= 0,
        in_r + sell > 0,
    ensures
        0 <= sell_price_no_fee_int(in_r, out_r, sell) <= out_r,
{
    let num = sell * out_r;
    let den = in_r + sell;
    assert(num >= 0) by (nonlinear_arith)
        requires
            sell >= 0,
            out_r >= 0,
            num == sell * out_r,
    ;
    vstd::arithmetic::div_mod::lemma_div_pos_is_pos(num, den);
    assert(num <= out_r * den) by (nonlinear_arith)
        requires
            in_r >= 0,
            out_r >= 0,
            sell >= 0,
            num == sell * out_r,
            den == in_r + sell,
    ;
    lemma_div_le_bound(num, den, out_r);
}

impl Module {
    /// Amount of output token bought by selling `sell_amount`, after fee.
    ///
    /// The precondition is the machine limit of the 256-bit intermediate:
    /// beyond it the numerator `997 * sell_amount * output_reserve` cannot be
    /// formed.
    pub fn calculate_sell_price(
        input_reserve: Balance,
        output_reserve: Balance,
        sell_amount: Balance,
    ) -> (r: Result<Balance, Error>)
        requires
            997 * sell_amount * output_reserve < pow256(),
        ensures
            r == (if 1000 * input_reserve + 997 * sell_amount == 0 {
                Err::<Balance, Error>(Error::DivisionByZero)
            } else {
                Ok::<Balance, Error>(
                    clip_u128(
                        sell_price_int(input_reserve as int, output_reserve as int, sell_amount as int),
                    ),
                )
            }),
            r matches Ok(out) ==> out <= output_reserve,
    {
        proof {
            assert(sell_amount * 997 == 997 * sell_amount) by (nonlinear_arith);
        }
        let input_with_fee = wide_mul(Wide::from_u128(sell_amount), Wide::from_u128(997));
        let numerator = wide_mul(input_with_fee, Wide::from_u128(output_reserve));
        let denominator = wide_add(
            wide_mul(Wide::from_u128(input_reserve), Wide::from_u128(1000)),
            input_with_fee,
        );
        if denominator.is_zero() {
            return Err(Error::DivisionByZero);
        }
        let result = wide_div(numerator, denominator);
        proof {
            lemma_sell_price_le_out(
                input_reserve as int,
                output_reserve as int,
                sell_amount as int,
            );
        }
        Ok(result.to_u128_saturating())
    }

    /// Amount of output token received for `sell_amount` at the plain pool
    /// ratio, without fee; used by settlement to convert fee proceeds.
    pub fn calculate_sell_price_no_fee(
        input_reserve: Balance,
        output_reserve: Balance,
        sell_amount: Balance,
    ) -> (r: Result<Balance, Error>)
        ensures
            r == (if input_reserve + sell_amount == 0 {
                Err::<Balance, Error>(Error::DivisionByZero)
            } else {
                Ok::<Balance, Error>(
                    clip_u128(
                        sell_price_no_fee_int(
                            input_reserve as int,
                            output_reserve as int,
                            sell_amount as int,
                        ),
                    ),
                )
            }),
            r matches Ok(out) ==> out <= output_reserve,
    {
        proof {
            vstd::arithmetic::mul::lemma_mul_upper_bound(
                sell_amount as int,
                u128::MAX as int,
                output_reserve as int,
                u128::MAX as int,
            );
        }
        let numerator = wide_mul(Wide::from_u128(sell_amount), Wide::from_u128(output_reserve));
        let denominator = wide_add(Wide::from_u128(input_reserve), Wide::from_u128(sell_amount));
        if denominator.is_zero() {
            return Err(Error::DivisionByZero);
        }
        let result = wide_div(numerator, denominator);
        proof {
            lemma_sell_price_no_fee_le_out(
                input_reserve as int,
                output_reserve as int,
                sell_amount as int,
            );
        }
        Ok(result.to_u128_saturating())
    }

    /// Amount of input token to be paid when buying `buy_amount`.
    ///
    /// The preconditions are the bounds of the formula itself: the
    /// subtraction `output_reserve - buy_amount` must not underflow nor zero
    /// the divisor, and the 256-bit numerator must fit.
    pub fn calculate_buy_price(
        input_reserve: Balance,
        output_reserve: Balance,
        buy_amount: Balance,
    ) -> (r: Balance)
        requires
            buy_amount < output_reserve,
            input_reserve * buy_amount * 1000 < pow256(),
        ensures
            r == clip_u128(
                buy_price_int(input_reserve as int, output_reserve as int, buy_amount as int),
            ),
    {
        proof {
            vstd::arithmetic::mul::lemma_mul_upper_bound(
                input_reserve as int,
                u128::MAX as int,
                buy_amount as int,
                u128::MAX as int,
            );
        }
        let numerator = wide_mul(
            wide_mul(Wide::from_u128(input_reserve), Wide::from_u128(buy_amount)),
            Wide::from_u128(1000),
        );
        let gap = wide_sub(Wide::from_u128(output_reserve), Wide::from_u128(buy_amount));
        let denominator = wide_mul(gap, Wide::from_u128(997));
        proof {
            vstd::arithmetic::mul::lemma_mul_strictly_positive(gap.value(), 997);
            vstd::arithmetic::mul::lemma_mul_upper_bound(
                gap.value(),
                u128::MAX as int,
                997,
                997,
            );
            assert(denominator.value() >= 997) by (nonlinear_arith)
                requires
                    gap.value() >= 1,
                    denominator.value() == gap.value() * 997,
            ;
            vstd::arithmetic::div_mod::lemma_div_pos_is_pos(
                numerator.value(),
                denominator.value(),
            );
            vstd::arithmetic::div_mod::lemma_div_is_ordered_by_denominator(
                numerator.value(),
                997,
                denominator.value(),
            );
            vstd::arithmetic::div_mod::lemma_div_is_ordered(
                numerator.value(),
                pow256() - 1,
                997,
            );
        }
        let result = wide_add(wide_div(numerator, denominator), Wide::from_u128(1));
        result.to_u128_saturating()
    }
}

} // verus!
