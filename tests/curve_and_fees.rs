use grokpad::curve::linear_buy_cost;
use grokpad::error::GrokError;
use grokpad::fees::{split_fees, FeeSplit};
use grokpad::launch::unit_scale;

#[test]
fn sloped_curve_two_units_from_zero() {
    assert_eq!(linear_buy_cost(1000, 100, 0, 2), Ok(2100));
}

#[test]
fn flat_curve_three_units() {
    assert_eq!(linear_buy_cost(1000, 0, 0, 3), Ok(3000));
    assert_eq!(linear_buy_cost(1000, 0, 500, 3), Ok(3000));
}

#[test]
fn sloped_curve_from_later_position() {
    // positions 5, 6, 7: 1500 + 1600 + 1700
    assert_eq!(linear_buy_cost(1000, 100, 5, 3), Ok(4800));
}

#[test]
fn zero_units_cost_nothing() {
    assert_eq!(linear_buy_cost(1000, 100, 42, 0), Ok(0));
}

#[test]
fn cost_at_the_settlement_limit_fits() {
    assert_eq!(linear_buy_cost(u64::MAX, 0, 0, 1), Ok(u64::MAX));
    assert_eq!(linear_buy_cost(u64::MAX - 1, 1, 1, 1), Ok(u64::MAX));
}

#[test]
fn cost_past_the_settlement_limit_overflows() {
    assert_eq!(linear_buy_cost(u64::MAX, 0, 0, 2), Err(GrokError::Overflow));
    assert_eq!(linear_buy_cost(u64::MAX - 1, 1, 2, 1), Err(GrokError::Overflow));
    assert_eq!(linear_buy_cost(1, u64::MAX, u64::MAX, u64::MAX), Err(GrokError::Overflow));
    assert_eq!(linear_buy_cost(0, 1, 0, u64::MAX), Err(GrokError::Overflow));
    assert_eq!(linear_buy_cost(0, 4, 1u64 << 62, 1), Err(GrokError::Overflow));
}

#[test]
fn cost_increases_with_units_and_with_sold() {
    let a = linear_buy_cost(10, 3, 4, 5).unwrap();
    let b = linear_buy_cost(10, 3, 4, 6).unwrap();
    let c = linear_buy_cost(10, 3, 5, 5).unwrap();
    assert!(a < b);
    assert!(a < c);
    assert_eq!(linear_buy_cost(10, 0, 4, 5), linear_buy_cost(10, 0, 9, 5));
}

#[test]
fn fee_split_of_one_thousand() {
    assert_eq!(
        split_fees(1000, 300, 200),
        Ok(FeeSplit { platform_fee: 30, creator_fee: 20, net: 950 })
    );
}

#[test]
fn fee_split_rounds_down() {
    assert_eq!(
        split_fees(999, 300, 200),
        Ok(FeeSplit { platform_fee: 29, creator_fee: 19, net: 951 })
    );
}

#[test]
fn fee_split_of_the_largest_amount() {
    let max = u64::MAX;
    let platform = ((max as u128) * 10_000 / 10_000) as u64;
    assert_eq!(split_fees(max, 10_000, 0), Ok(FeeSplit { platform_fee: platform, creator_fee: 0, net: 0 }));
}

#[test]
fn fees_above_the_whole_underflow() {
    assert_eq!(split_fees(1000, 6000, 5000), Err(GrokError::Underflow));
    assert_eq!(split_fees(1000, 20_000, 0), Err(GrokError::Underflow));
}

#[test]
fn unit_scale_by_decimals() {
    assert_eq!(unit_scale(0), Some(1));
    assert_eq!(unit_scale(9), Some(1_000_000_000));
    assert_eq!(unit_scale(19), Some(10_000_000_000_000_000_000));
    assert_eq!(unit_scale(20), None);
    assert_eq!(unit_scale(255), None);
}
