//! The price formulas on concrete values: exact quotients, rounding
//! direction, saturation, and the round-trip properties.

use xyk::Error;
use xyk::Module;

#[test]
fn sell_price_charges_fee() {
    assert_eq!(
        Module::calculate_sell_price(1_000_000, 1_000_000, 10_000),
        Ok(9_871)
    );
}

#[test]
fn sell_price_zero_denominator_is_division_by_zero() {
    assert_eq!(
        Module::calculate_sell_price(0, 5, 0),
        Err(Error::DivisionByZero)
    );
}

#[test]
fn sell_price_of_zero_amount_is_zero() {
    assert_eq!(Module::calculate_sell_price(1_000, 1_000, 0), Ok(0));
}

#[test]
fn sell_price_no_fee_converts_at_pool_ratio() {
    assert_eq!(
        Module::calculate_sell_price_no_fee(1_000_000, 1_000_000, 5),
        Ok(4)
    );
}

#[test]
fn sell_price_no_fee_zero_denominator_is_division_by_zero() {
    assert_eq!(
        Module::calculate_sell_price_no_fee(0, 7, 0),
        Err(Error::DivisionByZero)
    );
}

#[test]
fn buy_price_rounds_up() {
    assert_eq!(Module::calculate_buy_price(1_000_000, 1_000_000, 10_000), 10_132);
}

#[test]
fn buy_price_saturates_at_balance_limit() {
    assert_eq!(Module::calculate_buy_price(u128::MAX, 2, 1), u128::MAX);
}

#[test]
fn sell_then_sell_back_returns_no_more() {
    let bought = Module::calculate_sell_price(1_000_000, 1_000_000, 10_000).unwrap();
    assert_eq!(bought, 9_871);
    let returned = Module::calculate_sell_price(1_000_000 - bought, 1_010_000, bought).unwrap();
    assert_eq!(returned, 9_940);
    assert!(returned <= 10_000);
}

#[test]
fn buying_back_the_output_costs_more_than_it_paid() {
    let bought = Module::calculate_sell_price(1_000_000, 1_000_000, 10_000).unwrap();
    let repaid = Module::calculate_buy_price(1_000_000 - bought, 1_010_000, 10_000);
    assert_eq!(repaid, 9_932);
    assert!(repaid > bought);
}

#[test]
fn buy_price_never_undercharges() {
    let (in_r, out_r, buy): (u128, u128, u128) = (1_000_000, 1_000_000, 10_000);
    let paid = Module::calculate_buy_price(in_r, out_r, buy);
    assert!(paid * 997 * out_r >= buy * (in_r * 1000 + paid * 997) - in_r * 1000);
}

#[test]
fn sell_price_handles_wide_intermediates() {
    let got = Module::calculate_sell_price(1 << 100, 1 << 120, 1 << 110).unwrap();
    assert_eq!(got, 1_327_927_289_672_758_347_253_366_122_112_214_977);
}
