//! The laws of the engine: properties that hold of every state and every
//! input, proved from the same spec functions the operations' contracts use.

use vstd::prelude::*;

use crate::math::{
    burn_amount_int, buy_price_int, lemma_div_le_bound, lemma_sell_price_lt_out,
    mint_required_b_int, mint_shares_int, sell_price_int,
};
use crate::ops::{burn_outcome, create_pool_outcome, lemma_burn_le_reserve};
use crate::wide::clip_u128;
use crate::xyk::{XykView, VAULT_ID};
use crate::{AccountId, Balance, Error, TokenId};

verus! {

/// Every directed pool entry has its mirror: (A,B) is present exactly when
/// (B,A) is. Every operation preserves the invariant, so this holds after
/// any sequence of them.
pub proof fn lemma_pools_symmetric(v: XykView, a: TokenId, b: TokenId)
    requires
        v.inv(),
    ensures
        v.has_pool(a, b) <==> v.has_pool(b, a),
{
}

/// Both directed reserves of a live pool are positive.
pub proof fn lemma_live_pool_reserves_positive(v: XykView, a: TokenId, b: TokenId)
    requires
        v.inv(),
        v.has_pool(a, b),
    ensures
        v.reserve(a, b) >= 1,
        v.reserve(b, a) >= 1,
{
}

/// A burn that drives either reserve to zero removes both directed entries;
/// any other successful burn leaves both reserves positive by the exact
/// subtracted amounts.
pub proof fn lemma_burn_empties_pool(
    v: XykView,
    sender: AccountId,
    a: TokenId,
    b: TokenId,
    amt: Balance,
)
    requires
        v.inv(),
        burn_outcome(v, sender, a, b, amt).1 is Ok,
        1 <= v.iss(v.liq_token(a, b)),
        amt <= v.iss(v.liq_token(a, b)),
    ensures
        ({
            let post = burn_outcome(v, sender, a, b, amt).0;
            let total = v.iss(v.liq_token(a, b));
            let out_a = clip_u128(burn_amount_int(v.reserve(a, b) as int, amt as int, total as int));
            let out_b = clip_u128(burn_amount_int(v.reserve(b, a) as int, amt as int, total as int));
            if v.reserve(a, b) == out_a || v.reserve(b, a) == out_b {
                !post.has_pool(a, b) && !post.has_pool(b, a)
            } else {
                post.reserve(a, b) == v.reserve(a, b) - out_a && post.reserve(b, a) == v.reserve(
                    b,
                    a,
                ) - out_b
            }
        }),
{
    let total = v.iss(v.liq_token(a, b));
    lemma_burn_le_reserve(v.reserve(a, b) as int, amt as int, total as int);
    lemma_burn_le_reserve(v.reserve(b, a) as int, amt as int, total as int);
}

/// No risk-free round trip: selling `x`, then selling the proceeds straight
/// back, returns at most `x` (settlement aside).
pub proof fn lemma_no_free_round_trip(a: int, b: int, x: int)
    requires
        a >= 1,
        b >= 1,
        x >= 0,
    ensures
        ({
            let y = sell_price_int(a, b, x);
            sell_price_int(b - y, a + x, y) <= x
        }),
{
    let y = sell_price_int(a, b, x);
    let num = 997 * x * b;
    let den = 1000 * a + 997 * x;
    lemma_sell_price_lt_out(a, b, x);
    vstd::arithmetic::div_mod::lemma_fundamental_div_mod(num, den);
    vstd::arithmetic::div_mod::lemma_mod_bound(num, den);
    assert(y * den <= num);
    assert(y * (a + x) <= x * b) by (nonlinear_arith)
        requires
            y * den <= num,
            num == 997 * x * b,
            den == 1000 * a + 997 * x,
            a >= 1,
            x >= 0,
            y >= 0,
    ;
    let num2 = 997 * y * (a + x);
    let den2 = 1000 * (b - y) + 997 * y;
    assert(num2 >= 0) by (nonlinear_arith)
        requires
            y >= 0,
            a + x >= 1,
            num2 == 997 * y * (a + x),
    ;
    assert(num2 <= x * den2) by (nonlinear_arith)
        requires
            num2 == 997 * y * (a + x),
            den2 == 1000 * (b - y) + 997 * y,
            y * (a + x) <= x * b,
            0 <= y < b,
            x >= 0,
    ;
    lemma_div_le_bound(num2, den2, x);
}

/// The rounded-up buy price never under-charges: what is paid, net of fee,
/// covers the constant-product requirement for taking `buy` out.
pub proof fn lemma_buy_price_covers(in_r: int, out_r: int, buy: int)
    requires
        in_r >= 0,
        0 <= buy < out_r,
    ensures
        ({
            let paid = buy_price_int(in_r, out_r, buy);
            paid * 997 * out_r >= buy * (in_r * 1000 + paid * 997) - in_r * 1000
        }),
{
    let num = in_r * buy * 1000;
    let den = (out_r - buy) * 997;
    let q = num / den;
    let paid = q + 1;
    assert(den >= 997) by (nonlinear_arith)
        requires
            den == (out_r - buy) * 997,
            out_r - buy >= 1,
    ;
    vstd::arithmetic::div_mod::lemma_fundamental_div_mod(num, den);
    vstd::arithmetic::div_mod::lemma_mod_bound(num, den);
    assert(paid * den >= num + 1) by (nonlinear_arith)
        requires
            num == q * den + num % den,
            0 <= num % den < den,
            paid == q + 1,
    ;
    assert(paid * 997 * out_r >= buy * (in_r * 1000 + paid * 997) - in_r * 1000)
        by (nonlinear_arith)
        requires
            paid * den >= num + 1,
            num == in_r * buy * 1000,
            den == (out_r - buy) * 997,
            in_r >= 0,
            paid >= 1,
    ;
}

/// Minting and immediately burning the minted shares returns at most the
/// deposits: the asymmetric rounding always favors the pool.
pub proof fn lemma_mint_burn_no_gain(a: int, b: int, total: int, amt_a: int)
    requires
        a >= 1,
        b >= 1,
        total >= 1,
        amt_a >= 0,
    ensures
        ({
            let amt_b = mint_required_b_int(amt_a, a, b);
            let m = mint_shares_int(amt_a, a, total);
            burn_amount_int(a + amt_a, m, total + m) <= amt_a && burn_amount_int(
                b + amt_b,
                m,
                total + m,
            ) <= amt_b
        }),
{
    let amt_b = mint_required_b_int(amt_a, a, b);
    let m = mint_shares_int(amt_a, a, total);
    assert(amt_a * total >= 0) by (nonlinear_arith)
        requires
            amt_a >= 0,
            total >= 0,
    ;
    assert(amt_a * b >= 0) by (nonlinear_arith)
        requires
            amt_a >= 0,
            b >= 0,
    ;
    vstd::arithmetic::div_mod::lemma_div_pos_is_pos(amt_a * total, a);
    vstd::arithmetic::div_mod::lemma_div_pos_is_pos(amt_a * b, a);
    vstd::arithmetic::div_mod::lemma_fundamental_div_mod(amt_a * total, a);
    vstd::arithmetic::div_mod::lemma_mod_bound(amt_a * total, a);
    assert(m * a <= amt_a * total);
    vstd::arithmetic::div_mod::lemma_fundamental_div_mod(amt_a * b, a);
    vstd::arithmetic::div_mod::lemma_mod_bound(amt_a * b, a);
    assert(amt_a * b < amt_b * a) by (nonlinear_arith)
        requires
            amt_a * b == a * (amt_b - 1) + (amt_a * b) % a,
            0 <= (amt_a * b) % a < a,
    ;
    assert((a + amt_a) * m <= amt_a * (total + m)) by (nonlinear_arith)
        requires
            m * a <= amt_a * total,
            m >= 0,
            amt_a >= 0,
    ;
    assert((a + amt_a) * m >= 0) by (nonlinear_arith)
        requires
            a + amt_a >= 0,
            m >= 0,
    ;
    lemma_div_le_bound((a + amt_a) * m, total + m, amt_a);
    assert(m * b * a < amt_b * total * a) by (nonlinear_arith)
        requires
            m * a <= amt_a * total,
            amt_a * b < amt_b * a,
            m >= 0,
            b >= 1,
            a >= 1,
            total >= 1,
            amt_b >= 1,
    ;
    assert(m * b < amt_b * total) by (nonlinear_arith)
        requires
            m * b * a < amt_b * total * a,
            a >= 1,
    ;
    assert((b + amt_b) * m <= amt_b * (total + m)) by (nonlinear_arith)
        requires
            m * b < amt_b * total,
            m >= 0,
            amt_b >= 0,
    ;
    assert((b + amt_b) * m >= 0) by (nonlinear_arith)
        requires
            b + amt_b >= 0,
            m >= 0,
    ;
    lemma_div_le_bound((b + amt_b) * m, total + m, amt_b);
}

/// Creating a pool and burning the whole initial share supply pays back
/// exactly the two deposits.
pub proof fn lemma_burn_all_returns_deposits(a: int, b: int)
    requires
        a >= 1,
        b >= 1,
    ensures
        burn_amount_int(a, a + b, a + b) == a,
        burn_amount_int(b, a + b, a + b) == b,
{
    vstd::arithmetic::div_mod::lemma_div_by_multiple(a, a + b);
    vstd::arithmetic::div_mod::lemma_div_by_multiple(b, a + b);
}

/// A sell and the buy-back of the same output are a no-op on the first
/// reserve but strictly cost the payer: buying the sold amount back always
/// takes more of the second token than the sell paid out.
pub proof fn lemma_round_trip_costs_fee(a: int, b: int, x: int)
    requires
        a >= 1,
        b >= 1,
        x >= 1,
    ensures
        ({
            let y = sell_price_int(a, b, x);
            buy_price_int(b - y, a + x, x) > y
        }),
{
    let y = sell_price_int(a, b, x);
    let num = 997 * x * b;
    let den = 1000 * a + 997 * x;
    lemma_sell_price_lt_out(a, b, x);
    vstd::arithmetic::div_mod::lemma_fundamental_div_mod(num, den);
    vstd::arithmetic::div_mod::lemma_mod_bound(num, den);
    assert(y * den <= num);
    assert(1000 * a * y <= 997 * x * (b - y)) by (nonlinear_arith)
        requires
            y * den <= num,
            num == 997 * x * b,
            den == 1000 * a + 997 * x,
            y >= 0,
            x >= 0,
    ;
    let num2 = (b - y) * x * 1000;
    let den2 = (a + x - x) * 997;
    let z = num2 / den2 + 1;
    assert(den2 == a * 997);
    assert(den2 >= 997) by (nonlinear_arith)
        requires
            den2 == a * 997,
            a >= 1,
    ;
    vstd::arithmetic::div_mod::lemma_fundamental_div_mod(num2, den2);
    vstd::arithmetic::div_mod::lemma_mod_bound(num2, den2);
    assert(z * den2 >= num2 + 1) by (nonlinear_arith)
        requires
            num2 == den2 * (z - 1) + num2 % den2,
            0 <= num2 % den2 < den2,
    ;
    assert(num2 >= y * den2) by (nonlinear_arith)
        requires
            1000 * a * y <= 997 * x * (b - y),
            num2 == (b - y) * x * 1000,
            den2 == a * 997,
            x >= 1,
            a >= 1,
            y >= 0,
            b - y >= 1,
    ;
    assert(z > y) by (nonlinear_arith)
        requires
            z * den2 >= num2 + 1,
            num2 >= y * den2,
            den2 >= 997,
    ;
}


/// Creating a pool and then burning the entire initial share supply is a
/// round trip: the creator's balances of both tokens return to what they
/// were, and the pool is removed in both directions. The pooled tokens must
/// already exist on the ledger (the fresh liquidity token id names neither),
/// and the enlarged vault balances must fit in 128 bits.
pub proof fn lemma_create_then_burn_all(
    v: XykView,
    sender: AccountId,
    a: TokenId,
    amt_a: Balance,
    b: TokenId,
    amt_b: Balance,
)
    requires
        v.inv(),
        sender != VAULT_ID,
        a != v.ledger.next_id,
        b != v.ledger.next_id,
        create_pool_outcome(v, sender, a, amt_a, b, amt_b).1 is Ok,
        amt_a + amt_b <= u128::MAX,
        v.bal(a, VAULT_ID) + amt_a <= u128::MAX,
        v.bal(b, VAULT_ID) + amt_b <= u128::MAX,
    ensures
        ({
            let v1 = create_pool_outcome(v, sender, a, amt_a, b, amt_b).0;
            let total = (amt_a + amt_b) as u128;
            let (v2, r2) = burn_outcome(v1, sender, a, b, total);
            &&& r2 == Ok::<(), Error>(())
            &&& !v2.has_pool(a, b)
            &&& !v2.has_pool(b, a)
            &&& v2.bal(a, sender) == v.bal(a, sender)
            &&& v2.bal(b, sender) == v.bal(b, sender)
        }),
{
    let v1 = create_pool_outcome(v, sender, a, amt_a, b, amt_b).0;
    let total = (amt_a + amt_b) as u128;
    let ltid = v.ledger.next_id;
    lemma_burn_all_returns_deposits(amt_a as int, amt_b as int);
    assert(v1.liq_token(a, b) == ltid);
    assert(v1.reserve(a, b) == amt_a);
    assert(v1.reserve(b, a) == amt_b);
    assert(v1.bal(ltid, sender) == total);
    assert(v1.iss(ltid) == total);
    assert(burn_amount_int(amt_a as int, total as int, total as int) == amt_a);
    assert(burn_amount_int(amt_b as int, total as int, total as int) == amt_b);
    assert(v1.bal(a, VAULT_ID) == v.bal(a, VAULT_ID) + amt_a);
    assert(v1.bal(b, VAULT_ID) == v.bal(b, VAULT_ID) + amt_b);
}

} // verus!
