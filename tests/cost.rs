use rftg::Cost;
use std::cmp::Ordering;

#[test]
fn trade_and_military_are_incomparable() {
    assert_eq!(Cost::trade(2).partial_compare(&Cost::military(2)), None);
    assert_eq!(Cost::military(5).partial_compare(&Cost::trade(1)), None);
    assert_eq!(Cost::trade(2).partial_cmp(&Cost::military(2)), None);
}

#[test]
fn free_is_below_a_zero_trade_cost() {
    assert_eq!(Cost::free().partial_compare(&Cost::trade(0)), Some(Ordering::Less));
    assert_eq!(Cost::trade(0).partial_compare(&Cost::free()), Some(Ordering::Greater));
    assert_eq!(Cost::free().partial_compare(&Cost::military(0)), Some(Ordering::Less));
    assert_eq!(Cost::free().partial_compare(&Cost::free()), Some(Ordering::Equal));
}

#[test]
fn costs_of_one_kind_compare_by_amount() {
    assert_eq!(Cost::trade(2).partial_compare(&Cost::trade(3)), Some(Ordering::Less));
    assert_eq!(Cost::trade(3).partial_compare(&Cost::trade(3)), Some(Ordering::Equal));
    assert_eq!(Cost::military(4).partial_compare(&Cost::military(1)), Some(Ordering::Greater));
    assert!(Cost::military(1) < Cost::military(2));
    assert!(!(Cost::trade(1) < Cost::military(2)));
    assert!(!(Cost::trade(1) > Cost::military(2)));
}

#[test]
fn scalar_comparison_ignores_the_kind() {
    assert_eq!(Cost::free().compare_to_scalar(0), Ordering::Equal);
    assert_eq!(Cost::free().compare_to_scalar(1), Ordering::Less);
    assert_eq!(Cost::trade(3).compare_to_scalar(2), Ordering::Greater);
    assert_eq!(Cost::military(3).compare_to_scalar(3), Ordering::Equal);
    assert_eq!(Cost::military(-1).compare_to_scalar(0), Ordering::Less);
    assert!(Cost::trade(3) > 2);
    assert!(Cost::military(2) <= 2);
    assert!(Cost::free() == 0);
    assert!(Cost::trade(4) == 4);
}

#[test]
fn default_cost_is_free() {
    assert_eq!(Cost::default(), Cost::Free);
    assert_eq!(Cost::trade(7).magnitude_value(), 7);
    assert_eq!(Cost::free().magnitude_value(), 0);
    assert!(Cost::military(1).is_military());
    assert!(!Cost::trade(1).is_military());
}
