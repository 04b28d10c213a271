use transactions_lib::confirmations::{required_confirmations, to_usd_approx};
use transactions_lib::models::{Amount, Currency};

#[test]
fn test_required_confirmations() {
    let cases = [
        (Currency::Btc, Amount::new(100_000_000), 3),
        (Currency::Btc, Amount::new(10_000_000), 2),
        (Currency::Btc, Amount::new(5_000_000), 1),
        (Currency::Btc, Amount::new(1_000_000), 0),
        (Currency::Eth, Amount::new(21_000_000_000_000_000_000), 8),
        (Currency::Eth, Amount::new(2_000_000_000_000_000_000), 3),
        (Currency::Eth, Amount::new(500_000_000_000_000_000), 2),
        (Currency::Eth, Amount::new(50_000_000_000_000_000), 0),
        (Currency::Stq, Amount::new(2_100_000_000_000_000_000_000_000), 9),
        (Currency::Stq, Amount::new(210_000_000_000_000_000_000_000), 4),
        (Currency::Stq, Amount::new(100_000_000_000_000_000_000_000), 3),
        (Currency::Stq, Amount::new(10_000_000_000_000_000_000_000), 1),
        (Currency::Stq, Amount::new(5_000_000_000_000_000_000_000), 0),
    ];
    for (currency, value, confirms) in cases.iter() {
        assert_eq!(
            required_confirmations(*currency, *value),
            *confirms,
            "Currency: {:?}, value: {:?}, confirms: {:?}",
            *currency,
            *value,
            *confirms
        );
    }
}

#[test]
fn usd_values_of_whole_coins() {
    assert_eq!(to_usd_approx(Currency::Btc, Amount::new(100_000_000)), 6500);
    assert_eq!(to_usd_approx(Currency::Eth, Amount::new(1_000_000_000_000_000_000)), 200);
    assert_eq!(to_usd_approx(Currency::Stq, Amount::new(400_000_000_000_000_000_000)), 1);
    assert_eq!(to_usd_approx(Currency::Btc, Amount::new(0)), 0);
}

#[test]
fn usd_value_is_capped_at_the_largest_u64() {
    assert_eq!(to_usd_approx(Currency::Btc, Amount::new(u128::MAX)), u64::MAX);
}

#[test]
fn confirmations_never_fall_as_the_value_grows() {
    let mut last = 0;
    for k in 0..40u32 {
        let value = Amount::new(1u128 << (k * 2));
        let c = required_confirmations(Currency::Eth, value);
        assert!(c >= last);
        last = c;
    }
    assert_eq!(required_confirmations(Currency::Eth, Amount::new(u128::MAX)), 12);
    assert_eq!(required_confirmations(Currency::Stq, Amount::new(u128::MAX)), 9);
    assert_eq!(required_confirmations(Currency::Btc, Amount::new(u128::MAX)), 3);
}

#[test]
fn threshold_value_itself_needs_the_lower_count() {
    // exactly $100 in bitcoin is not above the first threshold
    assert_eq!(required_confirmations(Currency::Btc, Amount::new(1_538_462)), 0);
    assert_eq!(to_usd_approx(Currency::Btc, Amount::new(1_538_462)), 100);
    assert_eq!(required_confirmations(Currency::Btc, Amount::new(1_553_847)), 1);
}

#[test]
fn ether_levels_above_three_thousand_dollars() {
    // $3500 needs 8 confirmations, $6000 needs 12
    assert_eq!(required_confirmations(Currency::Eth, Amount::new(17_500_000_000_000_000_000)), 8);
    assert_eq!(required_confirmations(Currency::Eth, Amount::new(30_000_000_000_000_000_000)), 12);
    // exactly $3000 and exactly $5000 stay at the lower level
    assert_eq!(required_confirmations(Currency::Eth, Amount::new(15_000_000_000_000_000_000)), 6);
    assert_eq!(required_confirmations(Currency::Eth, Amount::new(25_000_000_000_000_000_000)), 8);
    // the token keeps one level per threshold: $3500 needs 7
    assert_eq!(required_confirmations(Currency::Stq, Amount::new(1_400_000_000_000_000_000_000_000)), 7);
}

#[test]
fn usd_value_is_rounded_down_once() {
    // 0.005 ether is exactly one dollar
    assert_eq!(to_usd_approx(Currency::Eth, Amount::new(5_000_000_000_000_000)), 1);
    assert_eq!(to_usd_approx(Currency::Eth, Amount::new(4_999_999_999_999_999)), 0);
    // 1.5 dollars in tokens
    assert_eq!(to_usd_approx(Currency::Stq, Amount::new(600_000_000_000_000_000_000)), 1);
    // one satoshi less than $6500
    assert_eq!(to_usd_approx(Currency::Btc, Amount::new(99_999_999)), 6499);
}
