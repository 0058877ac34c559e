//! End-to-end behavior of the engine: pool lifecycle, swaps with
//! settlement, liquidity mint and burn, errors, and the event log.

use xyk::Error;
use xyk::Event;
use xyk::Module;

const ALICE: u64 = 1;
const ENDOWMENT: u128 = 1_000_000_000;

/// An engine whose ledger holds `n` tokens (ids 0..n), each endowing ALICE.
fn engine_with_tokens(n: u32) -> Module {
    let mut x = Module::new();
    let mut i: u32 = 0;
    while i < n {
        let id = x.create_token(ALICE, ENDOWMENT);
        assert_eq!(id, i);
        i += 1;
    }
    x
}

#[test]
fn account_id_is_derived_from_the_module_tag() {
    assert_eq!(Module::account_id(), u64::from_le_bytes(*b"modl79b1"));
}

#[test]
fn create_pool_records_reserves_shares_and_event() {
    let mut x = engine_with_tokens(3);
    assert_eq!(x.create_pool(ALICE, 1, 9_000, 2, 18_000), Ok(()));
    assert_eq!(x.asset_pool(1, 2), 9_000);
    assert_eq!(x.asset_pool(2, 1), 18_000);
    let ltid = x.get_liquidity_asset(1, 2);
    assert_eq!(ltid, 3);
    assert_eq!(x.get_liquidity_asset(2, 1), 3);
    assert_eq!(x.liquidity_pool(3), (1, 2));
    assert_eq!(x.total_issuance(3), 27_000);
    assert_eq!(x.free_balance(3, ALICE), 27_000);
    assert_eq!(x.free_balance(1, ALICE), ENDOWMENT - 9_000);
    assert_eq!(x.free_balance(1, Module::account_id()), 9_000);
    assert_eq!(x.events()[0], Event::PoolCreated(ALICE, 1, 9_000, 2, 18_000));
}

#[test]
fn create_and_sell_settles_with_bought_token() {
    let mut x = engine_with_tokens(4);
    assert_eq!(x.create_pool(ALICE, 2, 1_000_000, 3, 1_000_000), Ok(()));
    assert_eq!(x.sell_asset(ALICE, 2, 3, 10_000, 0), Ok(()));
    assert_eq!(x.asset_pool(2, 3), 1_010_000);
    assert_eq!(x.asset_pool(3, 2), 990_121);
    assert_eq!(x.treasury(3), 4);
    assert_eq!(x.treasury_burn(3), 4);
    assert_eq!(x.free_balance(3, ALICE), ENDOWMENT - 1_000_000 + 9_871);
    assert_eq!(x.free_balance(2, ALICE), ENDOWMENT - 1_000_000 - 10_000);
    assert_eq!(
        x.events()[1],
        Event::AssetsSwapped(ALICE, 2, 10_000, 3, 9_871)
    );
}

#[test]
fn native_side_swap_settles_directly() {
    let mut x = engine_with_tokens(6);
    assert_eq!(x.create_pool(ALICE, 0, 1_000_000, 5, 1_000_000), Ok(()));
    let native_issuance = x.total_issuance(0);
    assert_eq!(x.sell_asset(ALICE, 0, 5, 10_000, 0), Ok(()));
    assert_eq!(x.asset_pool(0, 5), 1_009_990);
    assert_eq!(x.asset_pool(5, 0), 990_129);
    assert_eq!(x.treasury(0), 5);
    assert_eq!(x.treasury_burn(0), 0);
    assert_eq!(x.total_issuance(0), native_issuance - 5);
}

#[test]
fn one_hop_settlement_converts_through_the_native_pool() {
    let mut x = engine_with_tokens(8);
    assert_eq!(x.create_pool(ALICE, 0, 1_000_000, 5, 1_000_000), Ok(()));
    assert_eq!(x.create_pool(ALICE, 5, 1_000_000, 7, 1_000_000), Ok(()));
    let native_issuance = x.total_issuance(0);
    assert_eq!(x.sell_asset(ALICE, 5, 7, 10_000, 0), Ok(()));
    assert_eq!(x.asset_pool(5, 7), 1_009_990);
    assert_eq!(x.asset_pool(7, 5), 990_129);
    assert_eq!(x.asset_pool(5, 0), 1_000_010);
    assert_eq!(x.asset_pool(0, 5), 999_992);
    assert_eq!(x.treasury(0), 4);
    assert_eq!(x.treasury_burn(0), 0);
    assert_eq!(x.treasury(5), 0);
    assert_eq!(x.total_issuance(0), native_issuance - 4);
}

#[test]
fn mint_liquidity_is_proportional() {
    let mut x = engine_with_tokens(3);
    assert_eq!(x.create_pool(ALICE, 1, 9_000, 2, 18_000), Ok(()));
    assert_eq!(x.mint_liquidity(ALICE, 1, 2, 1_000, Some(2_002)), Ok(()));
    assert_eq!(x.asset_pool(1, 2), 10_000);
    assert_eq!(x.asset_pool(2, 1), 20_001);
    assert_eq!(x.total_issuance(3), 30_000);
    assert_eq!(x.free_balance(3, ALICE), 30_000);
    assert_eq!(
        x.events()[1],
        Event::LiquidityMinted(ALICE, 1, 1_000, 2, 2_001, 3, 2_001)
    );
}

#[test]
fn mint_liquidity_rejects_excessive_second_amount() {
    let mut x = engine_with_tokens(3);
    assert_eq!(x.create_pool(ALICE, 1, 9_000, 2, 18_000), Ok(()));
    assert_eq!(
        x.mint_liquidity(ALICE, 1, 2, 1_000, Some(2_000)),
        Err(Error::SecondAssetAmountExceededExpectations)
    );
    assert_eq!(x.asset_pool(1, 2), 9_000);
}

#[test]
fn mint_liquidity_with_smallest_second_amount() {
    let mut x = engine_with_tokens(3);
    assert_eq!(x.create_pool(ALICE, 1, 1_000_000, 2, 1), Ok(()));
    assert_eq!(x.mint_liquidity(ALICE, 1, 2, 1_000, None), Ok(()));
    assert_eq!(x.asset_pool(1, 2), 1_001_000);
    assert_eq!(x.asset_pool(2, 1), 2);
    assert_eq!(x.total_issuance(3), 1_000_001 + 1_000);
}

#[test]
fn burn_liquidity_is_proportional() {
    let mut x = engine_with_tokens(3);
    assert_eq!(x.create_pool(ALICE, 1, 10_000, 2, 20_000), Ok(()));
    assert_eq!(x.burn_liquidity(ALICE, 1, 2, 3_000), Ok(()));
    assert_eq!(x.asset_pool(1, 2), 9_000);
    assert_eq!(x.asset_pool(2, 1), 18_000);
    assert!(x.contains_pool(1, 2));
    assert!(x.contains_pool(2, 1));
    assert_eq!(x.total_issuance(3), 27_000);
    assert_eq!(x.free_balance(1, ALICE), ENDOWMENT - 10_000 + 1_000);
    assert_eq!(x.free_balance(2, ALICE), ENDOWMENT - 20_000 + 2_000);
    assert_eq!(
        x.events()[1],
        Event::LiquidityBurned(ALICE, 1, 1_000, 2, 2_000, 3, 2_000)
    );
}

#[test]
fn burn_to_zero_removes_the_pool() {
    let mut x = engine_with_tokens(3);
    assert_eq!(x.create_pool(ALICE, 1, 100, 2, 200), Ok(()));
    assert_eq!(x.burn_liquidity(ALICE, 1, 2, 300), Ok(()));
    assert!(!x.contains_pool(1, 2));
    assert!(!x.contains_pool(2, 1));
    assert_eq!(x.asset_pool(1, 2), 0);
    assert_eq!(x.asset_pool(2, 1), 0);
    assert_eq!(x.total_issuance(3), 0);
    // the creator gets back exactly what was deposited
    assert_eq!(x.free_balance(1, ALICE), ENDOWMENT);
    assert_eq!(x.free_balance(2, ALICE), ENDOWMENT);
}

#[test]
fn buy_with_whole_reserve_fails() {
    let mut x = engine_with_tokens(3);
    assert_eq!(x.create_pool(ALICE, 1, 1_000, 2, 2_000), Ok(()));
    assert_eq!(
        x.buy_asset(ALICE, 1, 2, 2_000, u128::MAX),
        Err(Error::NotEnoughReserve)
    );
}

#[test]
fn sell_zero_amount_fails() {
    let mut x = engine_with_tokens(3);
    assert_eq!(x.create_pool(ALICE, 1, 1_000, 2, 2_000), Ok(()));
    assert_eq!(x.sell_asset(ALICE, 1, 2, 0, 0), Err(Error::ZeroAmount));
}

#[test]
fn buy_asset_moves_the_computed_price() {
    let mut x = engine_with_tokens(3);
    assert_eq!(x.create_pool(ALICE, 1, 1_000_000, 2, 1_000_000), Ok(()));
    assert_eq!(x.buy_asset(ALICE, 1, 2, 10_000, u128::MAX), Ok(()));
    assert_eq!(x.asset_pool(1, 2), 1_000_000 + 10_132);
    assert_eq!(x.free_balance(1, ALICE), ENDOWMENT - 1_000_000 - 10_132);
    assert_eq!(x.free_balance(2, ALICE), ENDOWMENT - 1_000_000 + 10_000);
    assert_eq!(
        x.events()[1],
        Event::AssetsSwapped(ALICE, 1, 10_132, 2, 10_000)
    );
}

#[test]
fn sell_then_buy_back_costs_the_fee() {
    let mut x = engine_with_tokens(3);
    assert_eq!(x.create_pool(ALICE, 1, 1_000_000, 2, 1_000_000), Ok(()));
    let before = x.free_balance(2, ALICE);
    assert_eq!(x.sell_asset(ALICE, 1, 2, 10_000, 0), Ok(()));
    assert_eq!(x.buy_asset(ALICE, 2, 1, 10_000, u128::MAX), Ok(()));
    // the first token is fully bought back, the second strictly paid for it
    assert_eq!(x.free_balance(1, ALICE), ENDOWMENT - 1_000_000);
    assert!(x.free_balance(2, ALICE) < before);
}

#[test]
fn mint_then_burn_returns_no_more_than_deposited() {
    let mut x = engine_with_tokens(3);
    assert_eq!(x.create_pool(ALICE, 1, 9_000, 2, 18_000), Ok(()));
    assert_eq!(x.mint_liquidity(ALICE, 1, 2, 1_000, None), Ok(()));
    // deposits were 1_000 and 2_001; burning the 3_000 minted shares
    assert_eq!(x.burn_liquidity(ALICE, 1, 2, 3_000), Ok(()));
    assert_eq!(x.free_balance(1, ALICE), ENDOWMENT - 9_000 - 1_000 + 1_000);
    assert_eq!(x.free_balance(2, ALICE), ENDOWMENT - 18_000 - 2_001 + 2_000);
}

#[test]
fn pool_entries_stay_symmetric_and_positive() {
    let mut x = engine_with_tokens(4);
    assert_eq!(x.create_pool(ALICE, 2, 1_000_000, 3, 1_000_000), Ok(()));
    assert_eq!(x.sell_asset(ALICE, 2, 3, 10_000, 0), Ok(()));
    assert_eq!(x.buy_asset(ALICE, 2, 3, 5_000, u128::MAX), Ok(()));
    assert_eq!(x.mint_liquidity(ALICE, 2, 3, 777, None), Ok(()));
    assert_eq!(x.burn_liquidity(ALICE, 2, 3, 123), Ok(()));
    assert!(x.contains_pool(2, 3) && x.contains_pool(3, 2));
    assert!(x.asset_pool(2, 3) > 0 && x.asset_pool(3, 2) > 0);
    assert!(!x.contains_pool(0, 1));
}

#[test]
fn missing_pool_is_reported_everywhere() {
    let mut x = engine_with_tokens(3);
    assert_eq!(x.sell_asset(ALICE, 1, 2, 10, 0), Err(Error::NoSuchPool));
    assert_eq!(x.buy_asset(ALICE, 1, 2, 10, 100), Err(Error::NoSuchPool));
    assert_eq!(
        x.mint_liquidity(ALICE, 1, 2, 10, None),
        Err(Error::NoSuchPool)
    );
    assert_eq!(x.burn_liquidity(ALICE, 1, 2, 10), Err(Error::NoSuchPool));
}

#[test]
fn duplicate_pool_is_rejected_in_both_orders() {
    let mut x = engine_with_tokens(3);
    assert_eq!(x.create_pool(ALICE, 1, 100, 2, 100), Ok(()));
    assert_eq!(
        x.create_pool(ALICE, 1, 100, 2, 100),
        Err(Error::PoolAlreadyExists)
    );
    assert_eq!(
        x.create_pool(ALICE, 2, 100, 1, 100),
        Err(Error::PoolAlreadyExists)
    );
}

#[test]
fn create_pool_input_checks_run_in_order() {
    let mut x = engine_with_tokens(3);
    assert_eq!(x.create_pool(ALICE, 1, 0, 2, 100), Err(Error::ZeroAmount));
    assert_eq!(
        x.create_pool(ALICE, 1, ENDOWMENT + 1, 2, 100),
        Err(Error::NotEnoughAssets)
    );
    assert_eq!(x.create_pool(ALICE, 2, 100, 2, 100), Err(Error::SameAsset));
}

#[test]
fn swap_bound_checks_are_enforced() {
    let mut x = engine_with_tokens(3);
    assert_eq!(x.create_pool(ALICE, 1, 1_000_000, 2, 1_000_000), Ok(()));
    assert_eq!(
        x.sell_asset(ALICE, 1, 2, 10_000, 9_872),
        Err(Error::InsufficientOutputAmount)
    );
    assert_eq!(
        x.buy_asset(ALICE, 1, 2, 10_000, 10_131),
        Err(Error::InsufficientInputAmount)
    );
    assert_eq!(
        x.sell_asset(ALICE, 1, 2, ENDOWMENT, 0),
        Err(Error::NotEnoughAssets)
    );
    let pauper: u64 = 9;
    assert_eq!(
        x.burn_liquidity(pauper, 1, 2, 10),
        Err(Error::NotEnoughAssets)
    );
}
