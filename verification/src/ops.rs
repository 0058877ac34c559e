//! The engine operations: pool creation, swaps, liquidity mint and burn, and
//! the treasury-and-burn settlement router.
//!
//! Each operation is specified by an outcome function on the state model: it
//! gives the exact error for every rejected input, in the order the checks
//! run, and the exact successor state for every accepted one. An operation
//! either takes full effect or leaves the state untouched.

use vstd::prelude::*;

use crate::math::{
    burn_amount_int, buy_price_int, lemma_div_le_bound, lemma_sell_price_lt_out,
    lemma_sell_price_no_fee_le_out, mint_required_b_int, mint_shares_int, sell_price_int,
    sell_price_no_fee_int,
};
use crate::wide::{clip_u128, pow256, wide_add, wide_div, wide_mul, Wide};
use crate::xyk::{Module, XykView, VAULT_ID};
use crate::{
    AccountId, Balance, Error, Event, TokenId, BUYANDBURN_PERCENTAGE, MANGATA_ID,
    TREASURY_PERCENTAGE,
};

verus! {

/// Treasury slice of a swap input.
pub open spec fn treasury_slice(amt: Balance) -> int {
    amt * TREASURY_PERCENTAGE / 10000
}

/// Buy-and-burn slice of a swap input.
pub open spec fn burn_slice(amt: Balance) -> int {
    amt * BUYANDBURN_PERCENTAGE / 10000
}

/// Whether settlement uses the sold token: either it is native, or it has a
/// native pool while the bought token has none and is not native itself.
pub open spec fn settles_with_sold(v: XykView, sold: TokenId, bought: TokenId) -> bool {
    ||| sold == MANGATA_ID
    ||| (v.has_pool(sold, MANGATA_ID) && !v.has_pool(bought, MANGATA_ID) && bought != MANGATA_ID)
}

/// The settling token of a swap.
pub open spec fn settle_token(v: XykView, sold: TokenId, bought: TokenId) -> TokenId {
    if settles_with_sold(v, sold, bought) {
        sold
    } else {
        bought
    }
}

/// Treasury and burn amounts in settling-token units, over the post-swap
/// state `v`. When the bought token settles, the slices are converted at the
/// current pool ratio.
pub open spec fn settle_amounts(v: XykView, sold: TokenId, bought: TokenId, amt: Balance) -> (
    int,
    int,
)
    recommends
        v.has_pool(sold, bought),
        v.reserve(sold, bought) > 0,
{
    let t = treasury_slice(amt);
    let b = burn_slice(amt);
    if settles_with_sold(v, sold, bought) {
        (t, b)
    } else {
        (
            t * v.reserve(bought, sold) / v.reserve(sold, bought) as int,
            b * v.reserve(bought, sold) / v.reserve(sold, bought) as int,
        )
    }
}

/// The post-swap state with the settling amounts debited from the swapped
/// pool (one directed reserve loses the whole fee take).
pub open spec fn settle_debit(v: XykView, sold: TokenId, bought: TokenId, amt: Balance) -> XykView {
    let (t, b) = settle_amounts(v, sold, bought, amt);
    if settles_with_sold(v, sold, bought) {
        XykView { pools: v.pools.insert((sold, bought), (v.reserve(sold, bought) - b - t) as u128), ..v }
    } else {
        XykView {
            pools: v.pools.insert((bought, sold), (v.reserve(bought, sold) - t - b) as u128),
            ..v
        }
    }
}

/// Whether the native burn inside settlement goes through: the vault must
/// hold, and the native issuance must cover, the amount to burn. Routes that
/// burn nothing always succeed.
pub open spec fn settle_ok(v: XykView, sold: TokenId, bought: TokenId, amt: Balance) -> bool {
    let (t, b) = settle_amounts(v, sold, bought, amt);
    let s = settle_token(v, sold, bought);
    let v1 = settle_debit(v, sold, bought, amt);
    if s == MANGATA_ID {
        v1.bal(MANGATA_ID, VAULT_ID) >= b && v1.iss(MANGATA_ID) >= b
    } else if v1.has_pool(s, MANGATA_ID) {
        let bm = sell_price_no_fee_int(
            v1.reserve(s, MANGATA_ID) as int,
            v1.reserve(MANGATA_ID, s) as int,
            b,
        );
        v1.bal(MANGATA_ID, VAULT_ID) >= bm && v1.iss(MANGATA_ID) >= bm
    } else {
        true
    }
}

/// The state settlement leaves behind, given that its native burn succeeds:
/// the fee take is routed to the treasury and burned directly, through one
/// native hop, or parked in the accumulators.
pub open spec fn settle_apply(v: XykView, sold: TokenId, bought: TokenId, amt: Balance) -> XykView {
    let (t, b) = settle_amounts(v, sold, bought, amt);
    let s = settle_token(v, sold, bought);
    let v1 = settle_debit(v, sold, bought, amt);
    if s == MANGATA_ID {
        let v2 = XykView {
            treasury: v1.treasury.insert(MANGATA_ID, (v1.treasury_of(MANGATA_ID) + t) as u128),
            ..v1
        };
        XykView { ledger: v2.ledger.with_burn(MANGATA_ID, VAULT_ID, b as u128), ..v2 }
    } else if v1.has_pool(s, MANGATA_ID) {
        let in2 = v1.reserve(s, MANGATA_ID);
        let out2 = v1.reserve(MANGATA_ID, s);
        let tm = sell_price_no_fee_int(in2 as int, out2 as int, t);
        let bm = sell_price_no_fee_int(in2 as int, out2 as int, b);
        let v2 = XykView {
            pools: v1.pools.insert((s, MANGATA_ID), (in2 + t + b) as u128).insert(
                (MANGATA_ID, s),
                (out2 - tm - bm) as u128,
            ),
            ..v1
        };
        let v3 = XykView {
            treasury: v2.treasury.insert(MANGATA_ID, (v2.treasury_of(MANGATA_ID) + tm) as u128),
            ..v2
        };
        XykView { ledger: v3.ledger.with_burn(MANGATA_ID, VAULT_ID, bm as u128), ..v3 }
    } else {
        let v2 = XykView {
            treasury: v1.treasury.insert(s, (v1.treasury_of(s) + t) as u128),
            ..v1
        };
        XykView {
            treasury_burn: v2.treasury_burn.insert(s, (v2.treasury_burn_of(s) + b) as u128),
            ..v2
        }
    }
}

/// The machine limits settlement needs: the slice products and the treasury
/// accumulators stay within 128 bits, and the one-hop conversion leaves the
/// native reserve positive.
pub open spec fn settle_fits(v: XykView, sold: TokenId, bought: TokenId, amt: Balance) -> bool {
    let (ts, bs) = settle_amounts(v, sold, bought, amt);
    let s = settle_token(v, sold, bought);
    let v1 = settle_debit(v, sold, bought, amt);
    &&& amt * TREASURY_PERCENTAGE <= u128::MAX
    &&& amt * BUYANDBURN_PERCENTAGE <= u128::MAX
    &&& (!settles_with_sold(v, sold, bought) ==> treasury_slice(amt) * v.reserve(bought, sold)
        <= u128::MAX && burn_slice(amt) * v.reserve(bought, sold) <= u128::MAX)
    &&& (if s == MANGATA_ID {
        v1.treasury_of(MANGATA_ID) + ts <= u128::MAX
    } else if v1.has_pool(s, MANGATA_ID) {
        let in2 = v1.reserve(s, MANGATA_ID);
        let out2 = v1.reserve(MANGATA_ID, s);
        let tm = sell_price_no_fee_int(in2 as int, out2 as int, ts);
        let bm = sell_price_no_fee_int(in2 as int, out2 as int, bs);
        &&& in2 + ts + bs <= u128::MAX
        &&& tm + bm < out2
        &&& v1.treasury_of(MANGATA_ID) + tm <= u128::MAX
    } else {
        v1.treasury_of(s) + ts <= u128::MAX && v1.treasury_burn_of(s) + bs <= u128::MAX
    })
}

/// A fee slice `x * p / 10000` with `p <= 5` is at most `amt / 2000`.
proof fn lemma_slice_small(amt: int, t: int)
    requires
        amt >= 0,
        t == amt * 5 / 10000,
    ensures
        0 <= 2000 * t <= amt,
{
    vstd::arithmetic::div_mod::lemma_fundamental_div_mod(amt * 5, 10000);
    vstd::arithmetic::div_mod::lemma_mod_bound(amt * 5, 10000);
    vstd::arithmetic::div_mod::lemma_div_pos_is_pos(amt * 5, 10000);
}

/// Converted fee slices stay strictly below the reserve they are debited
/// from: with `2000 t <= amt <= in_r`, the ratio conversion gives
/// `2000 (t * out_r / in_r) <= out_r`, and likewise for the burn slice.
proof fn lemma_converted_fees_fit(amt: int, in_r: int, out_r: int, t: int, b: int, tc: int, bc: int)
    requires
        0 <= amt <= in_r,
        1 <= in_r,
        1 <= out_r,
        0 <= 2000 * t <= amt,
        0 <= 2000 * b <= amt,
        tc == t * out_r / in_r,
        bc == b * out_r / in_r,
    ensures
        0 <= tc,
        0 <= bc,
        tc + bc < out_r,
{
    assert(t * out_r >= 0) by (nonlinear_arith)
        requires
            t >= 0,
            out_r >= 0,
    ;
    assert(b * out_r >= 0) by (nonlinear_arith)
        requires
            b >= 0,
            out_r >= 0,
    ;
    vstd::arithmetic::div_mod::lemma_div_pos_is_pos(t * out_r, in_r);
    vstd::arithmetic::div_mod::lemma_div_pos_is_pos(b * out_r, in_r);
    vstd::arithmetic::div_mod::lemma_fundamental_div_mod(t * out_r, in_r);
    vstd::arithmetic::div_mod::lemma_mod_bound(t * out_r, in_r);
    vstd::arithmetic::div_mod::lemma_fundamental_div_mod(b * out_r, in_r);
    vstd::arithmetic::div_mod::lemma_mod_bound(b * out_r, in_r);
    assert(in_r * tc <= t * out_r);
    assert(in_r * bc <= b * out_r);
    assert(2000 * tc * in_r <= out_r * in_r) by (nonlinear_arith)
        requires
            in_r * tc <= t * out_r,
            2000 * t <= amt,
            amt <= in_r,
            in_r >= 1,
            out_r >= 0,
            tc >= 0,
    ;
    assert(2000 * bc * in_r <= out_r * in_r) by (nonlinear_arith)
        requires
            in_r * bc <= b * out_r,
            2000 * b <= amt,
            amt <= in_r,
            in_r >= 1,
            out_r >= 0,
            bc >= 0,
    ;
    vstd::arithmetic::mul::lemma_mul_inequality_converse(2000 * tc, out_r, in_r);
    vstd::arithmetic::mul::lemma_mul_inequality_converse(2000 * bc, out_r, in_r);
}


/// The post-swap state of a swap where the user pays `sold_amt` of `sold`
/// and receives `bought_amt` of `bought`: both transfers against the vault,
/// then both directed reserves updated.
pub open spec fn swap_applied(
    v: XykView,
    sender: AccountId,
    sold: TokenId,
    bought: TokenId,
    sold_amt: Balance,
    bought_amt: Balance,
) -> XykView {
    let l1 = v.ledger.with_transfer(sold, sender, VAULT_ID, sold_amt);
    let l2 = l1.with_transfer(bought, VAULT_ID, sender, bought_amt);
    XykView {
        pools: v.pools.insert((sold, bought), (v.reserve(sold, bought) + sold_amt) as u128).insert(
            (bought, sold),
            (v.reserve(bought, sold) - bought_amt) as u128,
        ),
        ledger: l2,
        ..v
    }
}

/// Exact outcome of `sell_asset`: the first failing check names the error
/// and leaves the state unchanged; otherwise the swap and its settlement
/// are applied and the swap event is recorded.
pub open spec fn sell_outcome(
    v: XykView,
    sender: AccountId,
    sold: TokenId,
    bought: TokenId,
    amt: Balance,
    min_out: Balance,
) -> (XykView, Result<(), Error>) {
    if !v.has_pool(sold, bought) {
        (v, Err(Error::NoSuchPool))
    } else if amt == 0 {
        (v, Err(Error::ZeroAmount))
    } else {
        let in_r = v.reserve(sold, bought);
        let out_r = v.reserve(bought, sold);
        let out_amt = clip_u128(sell_price_int(in_r as int, out_r as int, amt as int));
        if v.bal(sold, sender) < amt {
            (v, Err(Error::NotEnoughAssets))
        } else if out_amt < min_out {
            (v, Err(Error::InsufficientOutputAmount))
        } else if v.bal(bought, VAULT_ID) < out_amt {
            (v, Err(Error::BalanceTooLow))
        } else {
            let v2 = swap_applied(v, sender, sold, bought, amt, out_amt);
            if settle_ok(v2, sold, bought, amt) {
                let v3 = settle_apply(v2, sold, bought, amt);
                (
                    XykView {
                        events: v3.events.push(
                            Event::AssetsSwapped(sender, sold, amt, bought, out_amt),
                        ),
                        ..v3
                    },
                    Ok(()),
                )
            } else {
                (v, Err(Error::BalanceTooLow))
            }
        }
    }
}

/// The machine limits `sell_asset` needs: the 256-bit price numerator, the
/// balances and reserves it enlarges, and the limits of settlement.
pub open spec fn sell_fits(
    v: XykView,
    sender: AccountId,
    sold: TokenId,
    bought: TokenId,
    amt: Balance,
    min_out: Balance,
) -> bool {
    let in_r = v.reserve(sold, bought);
    let out_r = v.reserve(bought, sold);
    let out_amt = clip_u128(sell_price_int(in_r as int, out_r as int, amt as int));
    let reach_price = v.has_pool(sold, bought) && amt != 0;
    let reach_effects = reach_price && v.bal(sold, sender) >= amt && out_amt >= min_out && v.bal(
        bought,
        VAULT_ID,
    ) >= out_amt;
    &&& (reach_price ==> 997 * amt * out_r < pow256())
    &&& (reach_effects ==> {
        &&& (sender != VAULT_ID ==> v.bal(sold, VAULT_ID) + amt <= u128::MAX)
        &&& (sender != VAULT_ID ==> v.bal(bought, sender) + out_amt <= u128::MAX)
        &&& in_r + amt <= u128::MAX
        &&& settle_fits(swap_applied(v, sender, sold, bought, amt, out_amt), sold, bought, amt)
    })
}

/// Exact outcome of `buy_asset`, symmetric to `sell_outcome` with the paid
/// amount computed from the requested output.
pub open spec fn buy_outcome(
    v: XykView,
    sender: AccountId,
    sold: TokenId,
    bought: TokenId,
    buy_amt: Balance,
    max_in: Balance,
) -> (XykView, Result<(), Error>) {
    if !v.has_pool(sold, bought) {
        (v, Err(Error::NoSuchPool))
    } else {
        let in_r = v.reserve(sold, bought);
        let out_r = v.reserve(bought, sold);
        if out_r <= buy_amt {
            (v, Err(Error::NotEnoughReserve))
        } else if buy_amt == 0 {
            (v, Err(Error::ZeroAmount))
        } else {
            let paid = clip_u128(buy_price_int(in_r as int, out_r as int, buy_amt as int));
            if v.bal(sold, sender) < paid {
                (v, Err(Error::NotEnoughAssets))
            } else if paid > max_in {
                (v, Err(Error::InsufficientInputAmount))
            } else if v.bal(bought, VAULT_ID) < buy_amt {
                (v, Err(Error::BalanceTooLow))
            } else {
                let v2 = swap_applied(v, sender, sold, bought, paid, buy_amt);
                if settle_ok(v2, sold, bought, paid) {
                    let v3 = settle_apply(v2, sold, bought, paid);
                    (
                        XykView {
                            events: v3.events.push(
                                Event::AssetsSwapped(sender, sold, paid, bought, buy_amt),
                            ),
                            ..v3
                        },
                        Ok(()),
                    )
                } else {
                    (v, Err(Error::BalanceTooLow))
                }
            }
        }
    }
}

/// The machine limits `buy_asset` needs, mirroring `sell_fits`.
pub open spec fn buy_fits(
    v: XykView,
    sender: AccountId,
    sold: TokenId,
    bought: TokenId,
    buy_amt: Balance,
    max_in: Balance,
) -> bool {
    let in_r = v.reserve(sold, bought);
    let out_r = v.reserve(bought, sold);
    let paid = clip_u128(buy_price_int(in_r as int, out_r as int, buy_amt as int));
    let reach_price = v.has_pool(sold, bought) && out_r > buy_amt && buy_amt != 0;
    let reach_effects = reach_price && v.bal(sold, sender) >= paid && paid <= max_in && v.bal(
        bought,
        VAULT_ID,
    ) >= buy_amt;
    &&& (reach_price ==> in_r * buy_amt * 1000 < pow256())
    &&& (reach_effects ==> {
        &&& (sender != VAULT_ID ==> v.bal(sold, VAULT_ID) + paid <= u128::MAX)
        &&& (sender != VAULT_ID ==> v.bal(bought, sender) + buy_amt <= u128::MAX)
        &&& in_r + paid <= u128::MAX
        &&& settle_fits(swap_applied(v, sender, sold, bought, paid, buy_amt), sold, bought, paid)
    })
}

/// Moving an amount and moving it straight back leaves the ledger as it
/// was.
proof fn lemma_transfer_undo(
    l: crate::ledger::LedgerView,
    token: TokenId,
    from: AccountId,
    to: AccountId,
    amount: Balance,
)
    requires
        l.wf(),
        l.bal(token, from) >= amount,
        from != to ==> l.bal(token, to) + amount <= u128::MAX,
    ensures
        l.with_transfer(token, from, to, amount).with_transfer(token, to, from, amount) == l,
{
    if from != to {
        let l1 = l.with_transfer(token, from, to, amount);
        assert(l1.bal(token, to) == l.bal(token, to) + amount);
        assert(l1.bal(token, from) == l.bal(token, from) - amount);
        assert(l1.with_transfer(token, to, from, amount) =~~= l);
    }
}


/// Exact outcome of `create_pool`: the checks in source order, then both
/// directed entries, the transfers into the vault, the fresh liquidity
/// token worth the sum of the two deposits, and the pair mappings.
pub open spec fn create_pool_outcome(
    v: XykView,
    sender: AccountId,
    a: TokenId,
    amt_a: Balance,
    b: TokenId,
    amt_b: Balance,
) -> (XykView, Result<(), Error>) {
    if amt_a == 0 || amt_b == 0 {
        (v, Err(Error::ZeroAmount))
    } else if v.has_pool(a, b) {
        (v, Err(Error::PoolAlreadyExists))
    } else if v.has_pool(b, a) {
        (v, Err(Error::PoolAlreadyExists))
    } else if v.bal(a, sender) < amt_a {
        (v, Err(Error::NotEnoughAssets))
    } else if v.bal(b, sender) < amt_b {
        (v, Err(Error::NotEnoughAssets))
    } else if a == b {
        (v, Err(Error::SameAsset))
    } else {
        let ltid = v.ledger.next_id;
        let l1 = v.ledger.with_transfer(a, sender, VAULT_ID, amt_a);
        let l2 = l1.with_transfer(b, sender, VAULT_ID, amt_b);
        let l3 = l2.with_new_token(sender, (amt_a + amt_b) as u128);
        (
            XykView {
                pools: v.pools.insert((a, b), amt_a).insert((b, a), amt_b),
                liquidity_assets: v.liquidity_assets.insert((a, b), ltid),
                liquidity_pools: v.liquidity_pools.insert(ltid, (a, b)),
                ledger: l3,
                events: v.events.push(Event::PoolCreated(sender, a, amt_a, b, amt_b)),
                ..v
            },
            Ok(()),
        )
    }
}

/// The machine limits `create_pool` needs: the initial share supply and the
/// enlarged vault balances fit, and a token id is still free.
pub open spec fn create_pool_fits(
    v: XykView,
    sender: AccountId,
    a: TokenId,
    amt_a: Balance,
    b: TokenId,
    amt_b: Balance,
) -> bool {
    let pass = amt_a != 0 && amt_b != 0 && !v.has_pool(a, b) && !v.has_pool(b, a) && v.bal(
        a,
        sender,
    ) >= amt_a && v.bal(b, sender) >= amt_b && a != b;
    pass ==> {
        &&& amt_a + amt_b <= u128::MAX
        &&& (sender != VAULT_ID ==> v.bal(a, VAULT_ID) + amt_a <= u128::MAX)
        &&& (sender != VAULT_ID ==> v.bal(b, VAULT_ID) + amt_b <= u128::MAX)
        &&& v.ledger.next_id < u32::MAX
    }
}

/// Exact outcome of `mint_liquidity`: the required second-asset amount is
/// rounded up, the minted shares down, both deposits move to the vault, and
/// the reserves grow accordingly.
pub open spec fn mint_outcome(
    v: XykView,
    sender: AccountId,
    a: TokenId,
    b: TokenId,
    amt_a: Balance,
    expected_b: Option<Balance>,
) -> (XykView, Result<(), Error>) {
    if !(v.liquidity_assets.contains_key((a, b)) || v.liquidity_assets.contains_key((b, a))) {
        (v, Err(Error::NoSuchPool))
    } else if !(v.has_pool(a, b) || v.has_pool(b, a)) {
        (v, Err(Error::NoSuchPool))
    } else {
        let ltid = v.liq_token(a, b);
        let r_a = v.reserve(a, b);
        let r_b = v.reserve(b, a);
        let total = v.iss(ltid);
        let amt_b = clip_u128(mint_required_b_int(amt_a as int, r_a as int, r_b as int));
        let minted = clip_u128(mint_shares_int(amt_a as int, r_a as int, total as int));
        let limit = match expected_b {
            Some(e) => e,
            None => amt_b,
        };
        if amt_b > limit {
            (v, Err(Error::SecondAssetAmountExceededExpectations))
        } else if amt_a == 0 || amt_b == 0 {
            (v, Err(Error::ZeroAmount))
        } else if v.bal(a, sender) < amt_a {
            (v, Err(Error::NotEnoughAssets))
        } else if v.bal(b, sender) < amt_b {
            (v, Err(Error::NotEnoughAssets))
        } else {
            let l1 = v.ledger.with_transfer(a, sender, VAULT_ID, amt_a);
            let l2 = l1.with_transfer(b, sender, VAULT_ID, amt_b);
            let l3 = l2.with_mint(ltid, sender, minted);
            (
                XykView {
                    pools: v.pools.insert((a, b), (r_a + amt_a) as u128).insert(
                        (b, a),
                        (r_b + amt_b) as u128,
                    ),
                    ledger: l3,
                    events: v.events.push(
                        Event::LiquidityMinted(sender, a, amt_a, b, amt_b, ltid, amt_b),
                    ),
                    ..v
                },
                Ok(()),
            )
        }
    }
}

/// The machine limits `mint_liquidity` needs: the enlarged balances,
/// issuance and reserves fit in 128 bits.
pub open spec fn mint_fits(
    v: XykView,
    sender: AccountId,
    a: TokenId,
    b: TokenId,
    amt_a: Balance,
    expected_b: Option<Balance>,
) -> bool {
    let ltid = v.liq_token(a, b);
    let r_a = v.reserve(a, b);
    let r_b = v.reserve(b, a);
    let total = v.iss(ltid);
    let amt_b = clip_u128(mint_required_b_int(amt_a as int, r_a as int, r_b as int));
    let minted = clip_u128(mint_shares_int(amt_a as int, r_a as int, total as int));
    let limit = match expected_b {
        Some(e) => e,
        None => amt_b,
    };
    let pass = (v.liquidity_assets.contains_key((a, b)) || v.liquidity_assets.contains_key(
        (b, a),
    )) && (v.has_pool(a, b) || v.has_pool(b, a)) && amt_b <= limit && amt_a != 0 && amt_b != 0
        && v.bal(a, sender) >= amt_a && v.bal(b, sender) >= amt_b;
    pass ==> {
        let l1 = v.ledger.with_transfer(a, sender, VAULT_ID, amt_a);
        let l2 = l1.with_transfer(b, sender, VAULT_ID, amt_b);
        &&& (sender != VAULT_ID ==> v.bal(a, VAULT_ID) + amt_a <= u128::MAX)
        &&& (sender != VAULT_ID ==> v.bal(b, VAULT_ID) + amt_b <= u128::MAX)
        &&& l2.bal(ltid, sender) + minted <= u128::MAX
        &&& l2.iss(ltid) + minted <= u128::MAX
        &&& r_a + amt_a <= u128::MAX
        &&& r_b + amt_b <= u128::MAX
    }
}

/// Exact outcome of `burn_liquidity`: the share-proportional amounts leave
/// the pool for the burner, the shares are destroyed, and a pool whose
/// either reserve reaches zero is removed in both directions.
pub open spec fn burn_outcome(
    v: XykView,
    sender: AccountId,
    a: TokenId,
    b: TokenId,
    amt: Balance,
) -> (XykView, Result<(), Error>) {
    if !v.has_pool(a, b) {
        (v, Err(Error::NoSuchPool))
    } else {
        let r_a = v.reserve(a, b);
        let r_b = v.reserve(b, a);
        let ltid = v.liq_token(a, b);
        if v.bal(ltid, sender) < amt {
            (v, Err(Error::NotEnoughAssets))
        } else {
            let total = v.iss(ltid);
            let out_a = clip_u128(burn_amount_int(r_a as int, amt as int, total as int));
            let out_b = clip_u128(burn_amount_int(r_b as int, amt as int, total as int));
            if out_a == 0 || out_b == 0 {
                (v, Err(Error::ZeroAmount))
            } else if v.bal(a, VAULT_ID) < out_a {
                (v, Err(Error::BalanceTooLow))
            } else if v.bal(b, VAULT_ID) < out_b {
                (v, Err(Error::BalanceTooLow))
            } else {
                let l1 = v.ledger.with_transfer(a, VAULT_ID, sender, out_a);
                let l2 = l1.with_transfer(b, VAULT_ID, sender, out_b);
                let l3 = l2.with_burn(ltid, sender, amt);
                let pools2 = v.pools.insert((a, b), (r_a - out_a) as u128).insert(
                    (b, a),
                    (r_b - out_b) as u128,
                );
                let pools3 = if r_a - out_a == 0 || r_b - out_b == 0 {
                    pools2.remove((a, b)).remove((b, a))
                } else {
                    pools2
                };
                (
                    XykView {
                        pools: pools3,
                        ledger: l3,
                        events: v.events.push(
                            Event::LiquidityBurned(sender, a, out_a, b, out_b, ltid, out_b),
                        ),
                        ..v
                    },
                    Ok(()),
                )
            }
        }
    }
}

/// What `burn_liquidity` needs to stay within its arithmetic: once the
/// pool and balance checks pass, shares must exist
/// (`total >= 1`, or the proportion is a division by zero) and the burn may
/// not exceed them (beyond the total, the reserve subtraction underflows);
/// on the real ledger no holder can exceed the total. The enlarged receiver
/// balances must fit in 128 bits.
pub open spec fn burn_fits(
    v: XykView,
    sender: AccountId,
    a: TokenId,
    b: TokenId,
    amt: Balance,
) -> bool {
    let r_a = v.reserve(a, b);
    let r_b = v.reserve(b, a);
    let ltid = v.liq_token(a, b);
    let total = v.iss(ltid);
    let out_a = clip_u128(burn_amount_int(r_a as int, amt as int, total as int));
    let out_b = clip_u128(burn_amount_int(r_b as int, amt as int, total as int));
    let pass1 = v.has_pool(a, b) && v.bal(ltid, sender) >= amt;
    let pass2 = pass1 && out_a != 0 && out_b != 0 && v.bal(a, VAULT_ID) >= out_a && v.bal(
        b,
        VAULT_ID,
    ) >= out_b;
    &&& (pass1 ==> 1 <= total && amt <= total)
    &&& (pass2 ==> {
        &&& (sender != VAULT_ID ==> v.bal(a, sender) + out_a <= u128::MAX)
        &&& (sender != VAULT_ID ==> v.bal(b, sender) + out_b <= u128::MAX)
    })
}

impl Module {
    /// Route the fee take of a swap: decide the settling token, debit the
    /// swapped pool, and move the proceeds to the treasury and the native
    /// burn, through one native hop when one exists. All-or-nothing: when
    /// the native burn cannot be covered, nothing changes.
    fn settle_treasury_and_burn(
        &mut self,
        sold_asset_id: TokenId,
        bought_asset_id: TokenId,
        sold_asset_amount: Balance,
    ) -> (r: Result<(), Error>)
        requires
            old(self)@.inv(),
            old(self)@.has_pool(sold_asset_id, bought_asset_id),
            sold_asset_amount < old(self)@.reserve(sold_asset_id, bought_asset_id),
            settle_fits(old(self)@, sold_asset_id, bought_asset_id, sold_asset_amount),
        ensures
            r == (if settle_ok(old(self)@, sold_asset_id, bought_asset_id, sold_asset_amount) {
                Ok::<(), Error>(())
            } else {
                Err::<(), Error>(Error::BalanceTooLow)
            }),
            final(self)@ == (if settle_ok(
                old(self)@,
                sold_asset_id,
                bought_asset_id,
                sold_asset_amount,
            ) {
                settle_apply(old(self)@, sold_asset_id, bought_asset_id, sold_asset_amount)
            } else {
                old(self)@
            }),
            final(self)@.inv(),
    {
        let ghost v0 = self@;
        let vault = Self::account_id();
        let input_reserve = self.asset_pool(sold_asset_id, bought_asset_id);
        let output_reserve = self.asset_pool(bought_asset_id, sold_asset_id);

        let mut settling_asset_id = bought_asset_id;
        let mut treasury_amount = sold_asset_amount * TREASURY_PERCENTAGE / 10000;
        let mut burn_amount = sold_asset_amount * BUYANDBURN_PERCENTAGE / 10000;
        proof {
            lemma_slice_small(sold_asset_amount as int, treasury_amount as int);
            lemma_slice_small(sold_asset_amount as int, burn_amount as int);
        }

        let use_sold = sold_asset_id == MANGATA_ID || (self.contains_pool(
            sold_asset_id,
            MANGATA_ID,
        ) && !self.contains_pool(bought_asset_id, MANGATA_ID) && bought_asset_id != MANGATA_ID);
        if use_sold {
            settling_asset_id = sold_asset_id;
        } else {
            treasury_amount = treasury_amount * output_reserve / input_reserve;
            burn_amount = burn_amount * output_reserve / input_reserve;
            proof {
                lemma_converted_fees_fit(
                    sold_asset_amount as int,
                    input_reserve as int,
                    output_reserve as int,
                    treasury_slice(sold_asset_amount),
                    burn_slice(sold_asset_amount),
                    treasury_amount as int,
                    burn_amount as int,
                );
            }
        }
        assert((treasury_amount as int, burn_amount as int) == settle_amounts(
            v0,
            sold_asset_id,
            bought_asset_id,
            sold_asset_amount,
        ));

        if settling_asset_id == MANGATA_ID {
            // the settling token is native: burn directly from the vault
            if self.free_balance(MANGATA_ID, vault) < burn_amount || self.total_issuance(
                MANGATA_ID,
            ) < burn_amount {
                return Err(Error::BalanceTooLow);
            }
            if use_sold {
                self.pools_insert(
                    sold_asset_id,
                    bought_asset_id,
                    input_reserve - burn_amount - treasury_amount,
                );
            } else {
                self.pools_insert(
                    bought_asset_id,
                    sold_asset_id,
                    output_reserve - treasury_amount - burn_amount,
                );
            }
            let tr = self.treasury(MANGATA_ID);
            self.treasury_insert(MANGATA_ID, tr + treasury_amount);
            let burned = self.ledger_burn_and_settle(MANGATA_ID, vault, burn_amount);
            proof {
                assert(burned is Ok);
                assert(self@ =~~= settle_apply(
                    v0,
                    sold_asset_id,
                    bought_asset_id,
                    sold_asset_amount,
                ));
            }
            Ok(())
        } else if self.contains_pool(settling_asset_id, MANGATA_ID) {
            // one hop: convert the take to native through the (S, native)
            // pool, fee-free, then burn the native side
            let hop_in = self.asset_pool(settling_asset_id, MANGATA_ID);
            let hop_out = self.asset_pool(MANGATA_ID, settling_asset_id);
            let treasury_in_mangata = match Self::calculate_sell_price_no_fee(
                hop_in,
                hop_out,
                treasury_amount,
            ) {
                Ok(x) => x,
                Err(e) => {
                    return Err(e);
                },
            };
            let burn_in_mangata = match Self::calculate_sell_price_no_fee(
                hop_in,
                hop_out,
                burn_amount,
            ) {
                Ok(x) => x,
                Err(e) => {
                    return Err(e);
                },
            };
            proof {
                lemma_sell_price_no_fee_le_out(hop_in as int, hop_out as int, treasury_amount as int);
                lemma_sell_price_no_fee_le_out(hop_in as int, hop_out as int, burn_amount as int);
            }
            if self.free_balance(MANGATA_ID, vault) < burn_in_mangata || self.total_issuance(
                MANGATA_ID,
            ) < burn_in_mangata {
                return Err(Error::BalanceTooLow);
            }
            if use_sold {
                self.pools_insert(
                    sold_asset_id,
                    bought_asset_id,
                    input_reserve - burn_amount - treasury_amount,
                );
            } else {
                self.pools_insert(
                    bought_asset_id,
                    sold_asset_id,
                    output_reserve - treasury_amount - burn_amount,
                );
            }
            self.pools_insert(
                settling_asset_id,
                MANGATA_ID,
                hop_in + treasury_amount + burn_amount,
            );
            self.pools_insert(
                MANGATA_ID,
                settling_asset_id,
                hop_out - treasury_in_mangata - burn_in_mangata,
            );
            let tr = self.treasury(MANGATA_ID);
            self.treasury_insert(MANGATA_ID, tr + treasury_in_mangata);
            let burned = self.ledger_burn_and_settle(MANGATA_ID, vault, burn_in_mangata);
            proof {
                assert(burned is Ok);
                assert(self@ =~~= settle_apply(
                    v0,
                    sold_asset_id,
                    bought_asset_id,
                    sold_asset_amount,
                ));
            }
            Ok(())
        } else {
            // no native connection: park the take in the accumulators
            if use_sold {
                self.pools_insert(
                    sold_asset_id,
                    bought_asset_id,
                    input_reserve - burn_amount - treasury_amount,
                );
            } else {
                self.pools_insert(
                    bought_asset_id,
                    sold_asset_id,
                    output_reserve - treasury_amount - burn_amount,
                );
            }
            let tr = self.treasury(settling_asset_id);
            self.treasury_insert(settling_asset_id, tr + treasury_amount);
            let tb = self.treasury_burn(settling_asset_id);
            self.treasury_burn_insert(settling_asset_id, tb + burn_amount);
            proof {
                assert(self@ =~~= settle_apply(
                    v0,
                    sold_asset_id,
                    bought_asset_id,
                    sold_asset_amount,
                ));
            }
            Ok(())
        }
    }

    /// Sell exactly `sold_asset_amount` of the sold token for the bought
    /// token, at the pool price after the 3-per-1000 fee, then settle the
    /// fee take. Fails without any state change when the pool is missing,
    /// the amount is zero, a balance is short, the output is below
    /// `min_amount_out`, or the settlement burn cannot be covered.
    pub fn sell_asset(
        &mut self,
        sender: AccountId,
        sold_asset_id: TokenId,
        bought_asset_id: TokenId,
        sold_asset_amount: Balance,
        min_amount_out: Balance,
    ) -> (r: Result<(), Error>)
        requires
            old(self)@.inv(),
            sell_fits(
                old(self)@,
                sender,
                sold_asset_id,
                bought_asset_id,
                sold_asset_amount,
                min_amount_out,
            ),
        ensures
            final(self)@ == sell_outcome(
                old(self)@,
                sender,
                sold_asset_id,
                bought_asset_id,
                sold_asset_amount,
                min_amount_out,
            ).0,
            r == sell_outcome(
                old(self)@,
                sender,
                sold_asset_id,
                bought_asset_id,
                sold_asset_amount,
                min_amount_out,
            ).1,
            final(self)@.inv(),
    {
        let ghost v0 = self@;
        if !self.contains_pool(sold_asset_id, bought_asset_id) {
            return Err(Error::NoSuchPool);
        }
        if sold_asset_amount == 0 {
            return Err(Error::ZeroAmount);
        }
        let input_reserve = self.asset_pool(sold_asset_id, bought_asset_id);
        let output_reserve = self.asset_pool(bought_asset_id, sold_asset_id);
        let bought_asset_amount = match Self::calculate_sell_price(
            input_reserve,
            output_reserve,
            sold_asset_amount,
        ) {
            Ok(x) => x,
            Err(e) => {
                return Err(e);
            },
        };
        proof {
            lemma_sell_price_lt_out(
                input_reserve as int,
                output_reserve as int,
                sold_asset_amount as int,
            );
        }
        if self.free_balance(sold_asset_id, sender) < sold_asset_amount {
            return Err(Error::NotEnoughAssets);
        }
        if bought_asset_amount < min_amount_out {
            return Err(Error::InsufficientOutputAmount);
        }
        let vault = Self::account_id();
        if self.free_balance(bought_asset_id, vault) < bought_asset_amount {
            return Err(Error::BalanceTooLow);
        }
        let moved_in = self.ledger_transfer(sold_asset_id, sender, vault, sold_asset_amount);
        let moved_out = self.ledger_transfer(bought_asset_id, vault, sender, bought_asset_amount);
        proof {
            assert(moved_in is Ok);
            assert(moved_out is Ok);
        }
        self.pools_insert(sold_asset_id, bought_asset_id, input_reserve + sold_asset_amount);
        self.pools_insert(bought_asset_id, sold_asset_id, output_reserve - bought_asset_amount);
        proof {
            assert(self@ =~~= swap_applied(
                v0,
                sender,
                sold_asset_id,
                bought_asset_id,
                sold_asset_amount,
                bought_asset_amount,
            ));
        }
        match self.settle_treasury_and_burn(sold_asset_id, bought_asset_id, sold_asset_amount) {
            Ok(_) => {
                self.record_event(
                    Event::AssetsSwapped(
                        sender,
                        sold_asset_id,
                        sold_asset_amount,
                        bought_asset_id,
                        bought_asset_amount,
                    ),
                );
                proof {
                    assert(self@ =~~= sell_outcome(
                        v0,
                        sender,
                        sold_asset_id,
                        bought_asset_id,
                        sold_asset_amount,
                        min_amount_out,
                    ).0);
                }
                Ok(())
            },
            Err(e) => {
                self.pools_insert(sold_asset_id, bought_asset_id, input_reserve);
                self.pools_insert(bought_asset_id, sold_asset_id, output_reserve);
                let undo_out = self.ledger_transfer(
                    bought_asset_id,
                    sender,
                    vault,
                    bought_asset_amount,
                );
                proof {
                    assert(undo_out is Ok);
                }
                let undo_in = self.ledger_transfer(sold_asset_id, vault, sender, sold_asset_amount);
                proof {
                    assert(undo_in is Ok);
                    let l_in = v0.ledger.with_transfer(
                        sold_asset_id,
                        sender,
                        vault,
                        sold_asset_amount,
                    );
                    lemma_transfer_undo(
                        l_in,
                        bought_asset_id,
                        vault,
                        sender,
                        bought_asset_amount,
                    );
                    lemma_transfer_undo(v0.ledger, sold_asset_id, sender, vault, sold_asset_amount);
                    assert(self@.pools =~= v0.pools);
                    assert(self@ =~~= v0);
                }
                Err(e)
            },
        }
    }

    /// Buy exactly `bought_asset_amount` of the bought token, paying the
    /// pool price plus the fee in the sold token, then settle the fee take.
    /// Fails without any state change when the pool is missing, the reserve
    /// cannot cover the purchase, the amount is zero, a balance is short,
    /// the price exceeds `max_amount_in`, or the settlement burn cannot be
    /// covered.
    pub fn buy_asset(
        &mut self,
        sender: AccountId,
        sold_asset_id: TokenId,
        bought_asset_id: TokenId,
        bought_asset_amount: Balance,
        max_amount_in: Balance,
    ) -> (r: Result<(), Error>)
        requires
            old(self)@.inv(),
            buy_fits(
                old(self)@,
                sender,
                sold_asset_id,
                bought_asset_id,
                bought_asset_amount,
                max_amount_in,
            ),
        ensures
            final(self)@ == buy_outcome(
                old(self)@,
                sender,
                sold_asset_id,
                bought_asset_id,
                bought_asset_amount,
                max_amount_in,
            ).0,
            r == buy_outcome(
                old(self)@,
                sender,
                sold_asset_id,
                bought_asset_id,
                bought_asset_amount,
                max_amount_in,
            ).1,
            final(self)@.inv(),
    {
        let ghost v0 = self@;
        if !self.contains_pool(sold_asset_id, bought_asset_id) {
            return Err(Error::NoSuchPool);
        }
        let input_reserve = self.asset_pool(sold_asset_id, bought_asset_id);
        let output_reserve = self.asset_pool(bought_asset_id, sold_asset_id);
        if output_reserve <= bought_asset_amount {
            return Err(Error::NotEnoughReserve);
        }
        if bought_asset_amount == 0 {
            return Err(Error::ZeroAmount);
        }
        let sold_asset_amount = Self::calculate_buy_price(
            input_reserve,
            output_reserve,
            bought_asset_amount,
        );
        if self.free_balance(sold_asset_id, sender) < sold_asset_amount {
            return Err(Error::NotEnoughAssets);
        }
        if sold_asset_amount > max_amount_in {
            return Err(Error::InsufficientInputAmount);
        }
        let vault = Self::account_id();
        if self.free_balance(bought_asset_id, vault) < bought_asset_amount {
            return Err(Error::BalanceTooLow);
        }
        let moved_in = self.ledger_transfer(sold_asset_id, sender, vault, sold_asset_amount);
        let moved_out = self.ledger_transfer(bought_asset_id, vault, sender, bought_asset_amount);
        proof {
            assert(moved_in is Ok);
            assert(moved_out is Ok);
        }
        self.pools_insert(sold_asset_id, bought_asset_id, input_reserve + sold_asset_amount);
        self.pools_insert(bought_asset_id, sold_asset_id, output_reserve - bought_asset_amount);
        proof {
            assert(self@ =~~= swap_applied(
                v0,
                sender,
                sold_asset_id,
                bought_asset_id,
                sold_asset_amount,
                bought_asset_amount,
            ));
        }
        match self.settle_treasury_and_burn(sold_asset_id, bought_asset_id, sold_asset_amount) {
            Ok(_) => {
                self.record_event(
                    Event::AssetsSwapped(
                        sender,
                        sold_asset_id,
                        sold_asset_amount,
                        bought_asset_id,
                        bought_asset_amount,
                    ),
                );
                proof {
                    assert(self@ =~~= buy_outcome(
                        v0,
                        sender,
                        sold_asset_id,
                        bought_asset_id,
                        bought_asset_amount,
                        max_amount_in,
                    ).0);
                }
                Ok(())
            },
            Err(e) => {
                self.pools_insert(sold_asset_id, bought_asset_id, input_reserve);
                self.pools_insert(bought_asset_id, sold_asset_id, output_reserve);
                let undo_out = self.ledger_transfer(
                    bought_asset_id,
                    sender,
                    vault,
                    bought_asset_amount,
                );
                proof {
                    assert(undo_out is Ok);
                }
                let undo_in = self.ledger_transfer(sold_asset_id, vault, sender, sold_asset_amount);
                proof {
                    assert(undo_in is Ok);
                    let l_in = v0.ledger.with_transfer(
                        sold_asset_id,
                        sender,
                        vault,
                        sold_asset_amount,
                    );
                    lemma_transfer_undo(
                        l_in,
                        bought_asset_id,
                        vault,
                        sender,
                        bought_asset_amount,
                    );
                    lemma_transfer_undo(v0.ledger, sold_asset_id, sender, vault, sold_asset_amount);
                    assert(self@.pools =~= v0.pools);
                    assert(self@ =~~= v0);
                }
                Err(e)
            },
        }
    }

    /// Create the pool of a new unordered pair with the given initial
    /// deposits; the creator receives a fresh liquidity token worth their
    /// sum. Fails without any state change when an amount is zero, the pool
    /// exists in either direction, a balance is short, or both sides name
    /// the same token.
    pub fn create_pool(
        &mut self,
        sender: AccountId,
        first_asset_id: TokenId,
        first_asset_amount: Balance,
        second_asset_id: TokenId,
        second_asset_amount: Balance,
    ) -> (r: Result<(), Error>)
        requires
            old(self)@.inv(),
            create_pool_fits(
                old(self)@,
                sender,
                first_asset_id,
                first_asset_amount,
                second_asset_id,
                second_asset_amount,
            ),
        ensures
            final(self)@ == create_pool_outcome(
                old(self)@,
                sender,
                first_asset_id,
                first_asset_amount,
                second_asset_id,
                second_asset_amount,
            ).0,
            r == create_pool_outcome(
                old(self)@,
                sender,
                first_asset_id,
                first_asset_amount,
                second_asset_id,
                second_asset_amount,
            ).1,
            final(self)@.inv(),
    {
        let ghost v0 = self@;
        let vault = Self::account_id();
        if first_asset_amount == 0 || second_asset_amount == 0 {
            return Err(Error::ZeroAmount);
        }
        if self.contains_pool(first_asset_id, second_asset_id) {
            return Err(Error::PoolAlreadyExists);
        }
        if self.contains_pool(second_asset_id, first_asset_id) {
            return Err(Error::PoolAlreadyExists);
        }
        let first_asset_free_balance = self.free_balance(first_asset_id, sender);
        let second_asset_free_balance = self.free_balance(second_asset_id, sender);
        if first_asset_free_balance < first_asset_amount {
            return Err(Error::NotEnoughAssets);
        }
        if second_asset_free_balance < second_asset_amount {
            return Err(Error::NotEnoughAssets);
        }
        if first_asset_id == second_asset_id {
            return Err(Error::SameAsset);
        }
        let initial_liquidity = first_asset_amount + second_asset_amount;
        self.pools_insert(first_asset_id, second_asset_id, first_asset_amount);
        self.pools_insert(second_asset_id, first_asset_id, second_asset_amount);
        let moved_first = self.ledger_transfer(first_asset_id, sender, vault, first_asset_amount);
        let moved_second = self.ledger_transfer(
            second_asset_id,
            sender,
            vault,
            second_asset_amount,
        );
        proof {
            assert(moved_first is Ok);
            assert(moved_second is Ok);
        }
        let liquidity_asset_id = self.create_token(sender, initial_liquidity);
        self.liquidity_assets_insert(first_asset_id, second_asset_id, liquidity_asset_id);
        self.liquidity_pools_insert(liquidity_asset_id, (first_asset_id, second_asset_id));
        self.record_event(
            Event::PoolCreated(
                sender,
                first_asset_id,
                first_asset_amount,
                second_asset_id,
                second_asset_amount,
            ),
        );
        proof {
            assert(self@ =~~= create_pool_outcome(
                v0,
                sender,
                first_asset_id,
                first_asset_amount,
                second_asset_id,
                second_asset_amount,
            ).0);
        }
        Ok(())
    }

    /// Add liquidity to an existing pool: the caller fixes the first-asset
    /// deposit, the engine computes the second-asset deposit (rounded up)
    /// and the shares to mint (rounded down). Fails without any state change
    /// when the pool is unknown, the required second amount exceeds the
    /// caller's bound, an amount is zero, or a balance is short.
    pub fn mint_liquidity(
        &mut self,
        sender: AccountId,
        first_asset_id: TokenId,
        second_asset_id: TokenId,
        first_asset_amount: Balance,
        expected_second_asset_amount: Option<Balance>,
    ) -> (r: Result<(), Error>)
        requires
            old(self)@.inv(),
            mint_fits(
                old(self)@,
                sender,
                first_asset_id,
                second_asset_id,
                first_asset_amount,
                expected_second_asset_amount,
            ),
        ensures
            final(self)@ == mint_outcome(
                old(self)@,
                sender,
                first_asset_id,
                second_asset_id,
                first_asset_amount,
                expected_second_asset_amount,
            ).0,
            r == mint_outcome(
                old(self)@,
                sender,
                first_asset_id,
                second_asset_id,
                first_asset_amount,
                expected_second_asset_amount,
            ).1,
            final(self)@.inv(),
    {
        let ghost v0 = self@;
        let vault = Self::account_id();
        if !(self.has_liquidity_asset(first_asset_id, second_asset_id) || self.has_liquidity_asset(
            second_asset_id,
            first_asset_id,
        )) {
            return Err(Error::NoSuchPool);
        }
        let liquidity_asset_id = self.get_liquidity_asset(first_asset_id, second_asset_id);
        if !(self.contains_pool(first_asset_id, second_asset_id) || self.contains_pool(
            second_asset_id,
            first_asset_id,
        )) {
            return Err(Error::NoSuchPool);
        }
        let first_asset_reserve = self.asset_pool(first_asset_id, second_asset_id);
        let second_asset_reserve = self.asset_pool(second_asset_id, first_asset_id);
        let total_liquidity_assets = self.total_issuance(liquidity_asset_id);

        proof {
            vstd::arithmetic::mul::lemma_mul_upper_bound(
                first_asset_amount as int,
                u128::MAX as int,
                second_asset_reserve as int,
                u128::MAX as int,
            );
            vstd::arithmetic::mul::lemma_mul_upper_bound(
                first_asset_amount as int,
                u128::MAX as int,
                total_liquidity_assets as int,
                u128::MAX as int,
            );
        }
        let ratio_b = wide_div(
            wide_mul(Wide::from_u128(first_asset_amount), Wide::from_u128(second_asset_reserve)),
            Wide::from_u128(first_asset_reserve),
        );
        proof {
            vstd::arithmetic::div_mod::lemma_div_nonincreasing(
                (first_asset_amount as int) * (second_asset_reserve as int),
                first_asset_reserve as int,
            );
            vstd::arithmetic::div_mod::lemma_div_pos_is_pos(
                (first_asset_amount as int) * (second_asset_reserve as int),
                first_asset_reserve as int,
            );
            assert((first_asset_amount as int) * (second_asset_reserve as int) >= 0)
                by (nonlinear_arith);
        }
        let second_asset_amount = wide_add(ratio_b, Wide::from_u128(1)).to_u128_saturating();
        let liquidity_assets_minted = wide_div(
            wide_mul(Wide::from_u128(first_asset_amount), Wide::from_u128(total_liquidity_assets)),
            Wide::from_u128(first_asset_reserve),
        ).to_u128_saturating();

        let limit = match expected_second_asset_amount {
            Some(e) => e,
            None => second_asset_amount,
        };
        if second_asset_amount > limit {
            return Err(Error::SecondAssetAmountExceededExpectations);
        }
        if first_asset_amount == 0 || second_asset_amount == 0 {
            return Err(Error::ZeroAmount);
        }
        if self.free_balance(first_asset_id, sender) < first_asset_amount {
            return Err(Error::NotEnoughAssets);
        }
        if self.free_balance(second_asset_id, sender) < second_asset_amount {
            return Err(Error::NotEnoughAssets);
        }
        let moved_first = self.ledger_transfer(first_asset_id, sender, vault, first_asset_amount);
        let moved_second = self.ledger_transfer(
            second_asset_id,
            sender,
            vault,
            second_asset_amount,
        );
        proof {
            assert(moved_first is Ok);
            assert(moved_second is Ok);
        }
        self.ledger_mint(liquidity_asset_id, sender, liquidity_assets_minted);
        self.pools_insert(
            first_asset_id,
            second_asset_id,
            first_asset_reserve + first_asset_amount,
        );
        self.pools_insert(
            second_asset_id,
            first_asset_id,
            second_asset_reserve + second_asset_amount,
        );
        self.record_event(
            Event::LiquidityMinted(
                sender,
                first_asset_id,
                first_asset_amount,
                second_asset_id,
                second_asset_amount,
                liquidity_asset_id,
                second_asset_amount,
            ),
        );
        proof {
            assert(self@ =~~= mint_outcome(
                v0,
                sender,
                first_asset_id,
                second_asset_id,
                first_asset_amount,
                expected_second_asset_amount,
            ).0);
        }
        Ok(())
    }

    /// Amounts of both pool tokens paid out for burning the given number of
    /// liquidity shares, each rounded down. The pool's total share issuance
    /// must be positive: the proportion divides by it.
    pub fn get_burn_amount(
        &self,
        first_asset_id: TokenId,
        second_asset_id: TokenId,
        liquidity_asset_amount: Balance,
    ) -> (r: (Balance, Balance))
        requires
            self@.iss(self@.liq_token(first_asset_id, second_asset_id)) >= 1,
        ensures
            r.0 == clip_u128(
                burn_amount_int(
                    self@.reserve(first_asset_id, second_asset_id) as int,
                    liquidity_asset_amount as int,
                    self@.iss(self@.liq_token(first_asset_id, second_asset_id)) as int,
                ),
            ),
            r.1 == clip_u128(
                burn_amount_int(
                    self@.reserve(second_asset_id, first_asset_id) as int,
                    liquidity_asset_amount as int,
                    self@.iss(self@.liq_token(first_asset_id, second_asset_id)) as int,
                ),
            ),
    {
        let liquidity_asset_id = self.get_liquidity_asset(first_asset_id, second_asset_id);
        let first_asset_reserve = self.asset_pool(first_asset_id, second_asset_id);
        let second_asset_reserve = self.asset_pool(second_asset_id, first_asset_id);
        let total_liquidity_assets = self.total_issuance(liquidity_asset_id);
        proof {
            vstd::arithmetic::mul::lemma_mul_upper_bound(
                first_asset_reserve as int,
                u128::MAX as int,
                liquidity_asset_amount as int,
                u128::MAX as int,
            );
            vstd::arithmetic::mul::lemma_mul_upper_bound(
                second_asset_reserve as int,
                u128::MAX as int,
                liquidity_asset_amount as int,
                u128::MAX as int,
            );
        }
        let first_asset_amount = wide_div(
            wide_mul(Wide::from_u128(first_asset_reserve), Wide::from_u128(liquidity_asset_amount)),
            Wide::from_u128(total_liquidity_assets),
        ).to_u128_saturating();
        let second_asset_amount = wide_div(
            wide_mul(
                Wide::from_u128(second_asset_reserve),
                Wide::from_u128(liquidity_asset_amount),
            ),
            Wide::from_u128(total_liquidity_assets),
        ).to_u128_saturating();
        (first_asset_amount, second_asset_amount)
    }

    /// Burn liquidity shares and withdraw the proportional amounts of both
    /// pool tokens. A burn that empties either reserve removes the pool in
    /// both directions. Fails without any state change when the pool is
    /// unknown, the burner holds too few shares, a computed amount is zero,
    /// or the vault cannot pay out.
    pub fn burn_liquidity(
        &mut self,
        sender: AccountId,
        first_asset_id: TokenId,
        second_asset_id: TokenId,
        liquidity_asset_amount: Balance,
    ) -> (r: Result<(), Error>)
        requires
            old(self)@.inv(),
            burn_fits(old(self)@, sender, first_asset_id, second_asset_id, liquidity_asset_amount),
        ensures
            final(self)@ == burn_outcome(
                old(self)@,
                sender,
                first_asset_id,
                second_asset_id,
                liquidity_asset_amount,
            ).0,
            r == burn_outcome(
                old(self)@,
                sender,
                first_asset_id,
                second_asset_id,
                liquidity_asset_amount,
            ).1,
            final(self)@.inv(),
    {
        let ghost v0 = self@;
        let vault = Self::account_id();
        if !self.contains_pool(first_asset_id, second_asset_id) {
            return Err(Error::NoSuchPool);
        }
        let first_asset_reserve = self.asset_pool(first_asset_id, second_asset_id);
        let second_asset_reserve = self.asset_pool(second_asset_id, first_asset_id);
        let liquidity_asset_id = self.get_liquidity_asset(first_asset_id, second_asset_id);
        if self.free_balance(liquidity_asset_id, sender) < liquidity_asset_amount {
            return Err(Error::NotEnoughAssets);
        }
        let amounts = self.get_burn_amount(
            first_asset_id,
            second_asset_id,
            liquidity_asset_amount,
        );
        let first_asset_amount = amounts.0;
        let second_asset_amount = amounts.1;
        proof {
            let total = v0.iss(v0.liq_token(first_asset_id, second_asset_id)) as int;
            lemma_burn_le_reserve(
                first_asset_reserve as int,
                liquidity_asset_amount as int,
                total,
            );
            lemma_burn_le_reserve(
                second_asset_reserve as int,
                liquidity_asset_amount as int,
                total,
            );
        }
        if first_asset_amount == 0 || second_asset_amount == 0 {
            return Err(Error::ZeroAmount);
        }
        if self.free_balance(first_asset_id, vault) < first_asset_amount {
            return Err(Error::BalanceTooLow);
        }
        if self.free_balance(second_asset_id, vault) < second_asset_amount {
            return Err(Error::BalanceTooLow);
        }
        let moved_first = self.ledger_transfer(first_asset_id, vault, sender, first_asset_amount);
        let moved_second = self.ledger_transfer(
            second_asset_id,
            vault,
            sender,
            second_asset_amount,
        );
        proof {
            assert(moved_first is Ok);
            assert(moved_second is Ok);
        }
        self.pools_insert(
            first_asset_id,
            second_asset_id,
            first_asset_reserve - first_asset_amount,
        );
        self.pools_insert(
            second_asset_id,
            first_asset_id,
            second_asset_reserve - second_asset_amount,
        );
        if first_asset_reserve - first_asset_amount == 0 || second_asset_reserve
            - second_asset_amount == 0 {
            self.pools_remove(first_asset_id, second_asset_id);
            self.pools_remove(second_asset_id, first_asset_id);
        }
        let burned = self.ledger_burn_and_settle(
            liquidity_asset_id,
            sender,
            liquidity_asset_amount,
        );
        proof {
            assert(burned is Ok);
        }
        self.record_event(
            Event::LiquidityBurned(
                sender,
                first_asset_id,
                first_asset_amount,
                second_asset_id,
                second_asset_amount,
                liquidity_asset_id,
                second_asset_amount,
            ),
        );
        proof {
            assert(self@ =~~= burn_outcome(
                v0,
                sender,
                first_asset_id,
                second_asset_id,
                liquidity_asset_amount,
            ).0);
        }
        Ok(())
    }
}

/// A proportional burn payout never exceeds the reserve it comes from.
pub(crate) proof fn lemma_burn_le_reserve(r: int, amt: int, total: int)
    requires
        0 <= r,
        0 <= amt <= total,
        1 <= total,
    ensures
        0 <= burn_amount_int(r, amt, total) <= r,
{
    assert(r * amt >= 0) by (nonlinear_arith)
        requires
            r >= 0,
            amt >= 0,
    ;
    vstd::arithmetic::div_mod::lemma_div_pos_is_pos(r * amt, total);
    assert(r * amt <= r * total) by (nonlinear_arith)
        requires
            r >= 0,
            amt <= total,
    ;
    lemma_div_le_bound(r * amt, total, r);
}

} // verus!
