//! Valuation of liquidity tokens in native units, and the supporting
//! queries around minting and burning amounts.

use xyk::Error;
use xyk::Module;

const ALICE: u64 = 1;
const ENDOWMENT: u128 = 1_000_000_000;

fn engine_with_tokens(n: u32) -> Module {
    let mut x = Module::new();
    let mut i: u32 = 0;
    while i < n {
        let id = x.create_token(ALICE, ENDOWMENT);
        assert_eq!(id, i);
        i += 1;
    }
    x
}

#[test]
fn native_pool_orients_the_pair() {
    let mut x = engine_with_tokens(6);
    assert_eq!(x.create_pool(ALICE, 5, 1_000_000, 0, 1_000_000), Ok(()));
    assert_eq!(x.get_liquidity_token_mng_pool(6), Ok((0, 5)));
}

#[test]
fn non_native_pool_is_refused() {
    let mut x = engine_with_tokens(3);
    assert_eq!(x.create_pool(ALICE, 1, 100, 2, 100), Ok(()));
    assert_eq!(
        x.get_liquidity_token_mng_pool(3),
        Err(Error::NotMangataLiquidityAsset)
    );
}

#[test]
fn valuation_scales_the_native_reserve() {
    let mut x = engine_with_tokens(6);
    assert_eq!(x.create_pool(ALICE, 0, 1_000_000, 5, 1_000_000), Ok(()));
    // 2_000_000 shares back a native reserve of 1_000_000
    assert_eq!(x.valuate_liquidity_token(6, 500_000), 250_000);
    assert_eq!(x.valuate_liquidity_token(6, 2_000_000), 1_000_000);
}

#[test]
fn valuation_of_a_non_native_pool_is_zero() {
    let mut x = engine_with_tokens(3);
    assert_eq!(x.create_pool(ALICE, 1, 100, 2, 100), Ok(()));
    assert_eq!(x.valuate_liquidity_token(3, 50), 0);
}

#[test]
fn scaling_by_valuation_is_proportional() {
    assert_eq!(Module::scale_liquidity_by_mng_valuation(4, 10, 8), 20);
    assert_eq!(Module::scale_liquidity_by_mng_valuation(0, 10, 8), 0);
}

#[test]
fn tokens_required_for_minting_round_up() {
    let mut x = engine_with_tokens(3);
    assert_eq!(x.create_pool(ALICE, 1, 9_000, 2, 18_000), Ok(()));
    assert_eq!(
        x.get_tokens_required_for_minting(3, 3_000),
        (1, 1_001, 2, 2_001)
    );
}

#[test]
fn burn_amounts_round_down() {
    let mut x = engine_with_tokens(3);
    assert_eq!(x.create_pool(ALICE, 1, 10_000, 2, 20_000), Ok(()));
    assert_eq!(x.get_burn_amount(1, 2, 3_000), (1_000, 2_000));
    assert_eq!(x.get_burn_amount(2, 1, 3_000), (2_000, 1_000));
}
