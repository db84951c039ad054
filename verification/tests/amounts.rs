use treeline::amount::Amount;

fn amount(mantissa: i128, scale: u32) -> Amount {
    Amount::new(mantissa, scale).unwrap()
}

#[test]
fn two_places_cut_further_digits() {
    assert_eq!(amount(-12345, 3).to_fixed2(), "-12.34");
    assert_eq!(amount(12999, 3).to_fixed2(), "12.99");
}

#[test]
fn two_places_pad_missing_digits() {
    assert_eq!(amount(5, 0).to_fixed2(), "5.00");
    assert_eq!(amount(1, 1).to_fixed2(), "0.10");
    assert_eq!(amount(0, 0).to_fixed2(), "0.00");
    assert_eq!(amount(-1234, 2).to_fixed2(), "-12.34");
}

#[test]
fn a_small_negative_amount_keeps_its_sign() {
    assert_eq!(amount(-1, 3).to_fixed2(), "-0.00");
}

#[test]
fn new_refuses_what_is_out_of_range() {
    assert!(Amount::new(1, 29).is_none());
    assert!(Amount::new(79_228_162_514_264_337_593_543_950_336, 0).is_none());
    assert!(Amount::new(-79_228_162_514_264_337_593_543_950_336, 0).is_none());
    assert_eq!(
        Amount::new(79_228_162_514_264_337_593_543_950_335, 28),
        Some(Amount { mantissa: 79_228_162_514_264_337_593_543_950_335, scale: 28 })
    );
}

#[test]
fn parse_reads_mantissa_and_scale() {
    assert_eq!(Amount::parse("12.34"), Some(Amount { mantissa: 1234, scale: 2 }));
    assert_eq!(Amount::parse("-0.5"), Some(Amount { mantissa: -5, scale: 1 }));
    assert_eq!(Amount::parse("3500.00"), Some(Amount { mantissa: 350000, scale: 2 }));
    assert_eq!(Amount::parse("7"), Some(Amount { mantissa: 7, scale: 0 }));
}

#[test]
fn parse_refuses_what_is_no_number() {
    assert_eq!(Amount::parse("abc"), None);
    assert_eq!(Amount::parse(""), None);
    assert_eq!(Amount::parse("12.3.4"), None);
}

#[test]
fn sums_are_exact_at_the_common_scale() {
    assert_eq!(amount(110, 2).checked_add(amount(22, 1)), Some(amount(330, 2)));
    assert_eq!(amount(1, 0).checked_add(amount(1, 3)), Some(amount(1001, 3)));
    assert_eq!(amount(-2000, 2).checked_add(amount(2000, 2)), Some(amount(0, 2)));
}

#[test]
fn differences_are_exact_at_the_common_scale() {
    assert_eq!(amount(10000, 2).checked_sub(amount(-2000, 2)), Some(amount(12000, 2)));
    assert_eq!(amount(1, 0).checked_sub(amount(1, 2)), Some(amount(99, 2)));
}

#[test]
fn a_sum_that_cannot_be_held_is_none() {
    let max = amount(79_228_162_514_264_337_593_543_950_335, 0);
    assert_eq!(max.checked_add(amount(1, 0)), None);
    assert_eq!(max.checked_add(amount(1, 1)), None);
    assert_eq!(max.neg().checked_sub(amount(1, 0)), None);
    assert_eq!(max.checked_add(max.neg()), Some(amount(0, 0)));
}

#[test]
fn neg_turns_the_sign() {
    assert_eq!(amount(1234, 2).neg(), amount(-1234, 2));
    assert_eq!(amount(0, 2).neg(), amount(0, 2));
}

#[test]
fn signs_are_told_apart() {
    assert!(amount(1, 2).is_positive());
    assert!(amount(-1, 2).is_negative());
    assert!(amount(0, 5).is_zero());
    assert!(!amount(0, 5).is_positive());
    assert!(!amount(0, 5).is_negative());
}

#[test]
fn tolerance_is_less_than_one_hundredth() {
    assert!(amount(10000, 2).within_tolerance(amount(10000, 2)));
    assert!(amount(10000, 2).within_tolerance(amount(100009, 3)));
    assert!(amount(100009, 3).within_tolerance(amount(10000, 2)));
    assert!(!amount(10000, 2).within_tolerance(amount(10001, 2)));
    assert!(!amount(10001, 2).within_tolerance(amount(10000, 2)));
    assert!(!amount(10000, 2).within_tolerance(amount(9999, 2)));
    assert!(amount(100, 0).within_tolerance(amount(10000, 2)));
}

#[test]
fn tolerance_of_far_apart_amounts() {
    let max = amount(79_228_162_514_264_337_593_543_950_335, 0);
    assert!(!max.within_tolerance(max.neg()));
    assert!(max.within_tolerance(max));
}

#[test]
fn magnitudes_are_compared_across_scales() {
    assert!(amount(-500, 2).exceeds_in_magnitude(amount(4, 0)));
    assert!(!amount(4, 0).exceeds_in_magnitude(amount(-500, 2)));
    assert!(!amount(500, 2).exceeds_in_magnitude(amount(5, 0)));
    let max = amount(79_228_162_514_264_337_593_543_950_335, 0);
    assert!(max.exceeds_in_magnitude(amount(79_228_162_514_264_337_593_543_950_335, 28)));
    assert!(!amount(79_228_162_514_264_337_593_543_950_335, 28).exceeds_in_magnitude(max));
}

#[test]
fn hundredths_have_scale_two() {
    assert_eq!(Amount::from_hundredths(-8743), amount(-8743, 2));
    assert_eq!(Amount::zero(), amount(0, 0));
}

#[test]
fn two_places_of_the_largest_and_the_smallest_amounts() {
    let most: i128 = 79_228_162_514_264_337_593_543_950_335;
    assert_eq!(amount(most, 0).to_fixed2(), "79228162514264337593543950335.00");
    assert_eq!(amount(most, 28).to_fixed2(), "7.92");
    assert_eq!(amount(-most, 27).to_fixed2(), "-79.22");
    assert_eq!(amount(most, 1).to_fixed2(), "7922816251426433759354395033.50");
    assert_eq!(amount(1, 28).to_fixed2(), "0.00");
    assert_eq!(amount(995, 3).to_fixed2(), "0.99");
    assert_eq!(amount(-995, 3).to_fixed2(), "-0.99");
    assert_eq!(amount(100, 2).to_fixed2(), "1.00");
    assert_eq!(amount(15, 1).to_fixed2(), "1.50");
    assert_eq!(amount(0, 5).to_fixed2(), "0.00");
    assert_eq!(amount(1005, 2).to_fixed2(), "10.05");
}
