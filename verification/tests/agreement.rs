use chrono::{DateTime, Duration, NaiveDate};
use rust_decimal::Decimal;
use treeline::amount::Amount;
use treeline::calendar::{Date, Timestamp};
use treeline::desktop::{split, strip};
use treeline::text::{chars_of, integer_to_text, text_contains, text_ends_with, text_starts_with};
use treeline::window::plan_window;

fn decimal(a: Amount) -> Decimal {
    Decimal::from_i128_with_scale(a.mantissa, a.scale)
}

fn samples() -> Vec<Amount> {
    let mantissas: [i128; 11] = [
        0,
        1,
        -1,
        5,
        -1234,
        10000,
        100009,
        -99999999,
        123456789012345678,
        79_228_162_514_264_337_593_543_950_335,
        -79_228_162_514_264_337_593_543_950_335,
    ];
    let scales: [u32; 6] = [0, 1, 2, 3, 10, 28];
    let mut out = Vec::new();
    for m in mantissas {
        for s in scales {
            out.push(Amount::new(m, s).unwrap());
        }
    }
    out
}

#[test]
fn sums_agree_with_decimal_arithmetic() {
    for a in samples() {
        for b in samples() {
            if let Some(sum) = a.checked_add(b) {
                assert_eq!(Some(decimal(sum)), decimal(a).checked_add(decimal(b)), "{:?} + {:?}", a, b);
            }
            if let Some(diff) = a.checked_sub(b) {
                assert_eq!(Some(decimal(diff)), decimal(a).checked_sub(decimal(b)), "{:?} - {:?}", a, b);
            }
        }
    }
}

#[test]
fn tolerance_agrees_with_decimal_arithmetic() {
    let hundredth = Decimal::new(1, 2);
    for a in samples() {
        for b in samples() {
            if let Some(diff) = decimal(a).checked_sub(decimal(b)) {
                if a.checked_sub(b).is_some() {
                    assert_eq!(a.within_tolerance(b), diff.abs() < hundredth, "{:?} ~ {:?}", a, b);
                }
            }
            assert_eq!(a.within_tolerance(b), b.within_tolerance(a));
        }
        assert!(a.within_tolerance(a));
    }
}

#[test]
fn magnitudes_agree_with_decimal_arithmetic() {
    for a in samples() {
        for b in samples() {
            assert_eq!(
                a.exceeds_in_magnitude(b),
                decimal(a).abs() > decimal(b).abs(),
                "|{:?}| > |{:?}|",
                a,
                b
            );
        }
    }
}

#[test]
fn signs_and_negation_agree_with_decimal_arithmetic() {
    for a in samples() {
        assert_eq!(decimal(a.neg()), -decimal(a));
        assert_eq!(a.is_zero(), decimal(a).is_zero());
        assert_eq!(a.is_positive(), decimal(a) > Decimal::ZERO);
        assert_eq!(a.is_negative(), decimal(a) < Decimal::ZERO);
        assert_eq!(a.to_fixed2(), format!("{:.2}", decimal(a)));
    }
}

#[test]
fn parsing_agrees_with_decimal_parsing() {
    for text in ["0", "-0.00", "12.34", "-12.345", "1e3", "0.0000000000000000000000000001", "x", ""] {
        let expected = text.parse::<Decimal>().ok();
        let got = Amount::parse(text);
        assert_eq!(got.map(decimal), expected, "{:?}", text);
        if let (Some(a), Some(d)) = (got, expected) {
            assert_eq!((a.mantissa, a.scale), (d.mantissa(), d.scale()));
        }
    }
}

#[test]
fn days_agree_with_the_calendar() {
    for secs in [
        -62_135_596_800i64,
        -86_401,
        -86_400,
        -1,
        0,
        1,
        86_399,
        86_400,
        951_782_400,
        1_704_455_000,
        1_709_251_199,
        4_102_444_800,
        253_402_300_799,
    ] {
        let expected = DateTime::from_timestamp(secs, 0).unwrap().date_naive();
        let got = Timestamp { secs, nanos: 0 }.date();
        assert_eq!(got.days, expected.to_epoch_days(), "{}", secs);
        assert_eq!(got.to_iso(), expected.to_string());
        assert_eq!(got.start_of_day().secs, expected.and_hms_opt(0, 0, 0).unwrap().and_utc().timestamp());
    }
}

#[test]
fn dates_agree_with_the_calendar() {
    for text in ["0001-01-01", "1600-02-29", "1969-12-31", "2000-02-29", "2024-01-05", "9999-12-31"] {
        let expected = NaiveDate::parse_from_str(text, "%Y-%m-%d").unwrap();
        let got = Date::parse(text, "%Y-%m-%d").unwrap();
        assert_eq!(got.days, expected.to_epoch_days());
        assert_eq!(got.to_iso(), text);
        if let Some(earlier) = got.minus_days(30) {
            assert_eq!(earlier.to_iso(), (expected - Duration::days(30)).to_string());
        }
    }
}

#[test]
fn windows_agree_with_the_calendar() {
    let now = DateTime::from_timestamp(1_727_786_096, 500).unwrap();
    let stamp = Timestamp { secs: now.timestamp(), nanos: now.timestamp_subsec_nanos() };
    let initial = plan_window(None, stamp);
    let expected = now - Duration::days(90);
    assert_eq!((initial.start.secs, initial.start.nanos), (expected.timestamp(), expected.timestamp_subsec_nanos()));
    let latest = NaiveDate::from_ymd_opt(2024, 3, 3).unwrap();
    let incremental = plan_window(Date::from_days(latest.to_epoch_days()), stamp);
    let expected = latest.and_hms_opt(0, 0, 0).unwrap().and_utc() - Duration::days(7);
    assert_eq!(incremental.start.secs, expected.timestamp());
    assert_eq!(incremental.start.date().to_iso(), "2024-02-25");
}

#[test]
fn searching_agrees_with_the_standard_library() {
    let texts = ["", "a", "date", "transaction date", "Date", "dat", "null", "xx\"y\"", ",a,,b,", "\"\"\""];
    for hay in texts {
        for needle in texts {
            let (h, n) = (chars_of(hay), chars_of(needle));
            assert_eq!(text_contains(&h, &n), hay.contains(needle), "{:?} in {:?}", needle, hay);
            assert_eq!(text_starts_with(&h, &n), hay.starts_with(needle));
            assert_eq!(text_ends_with(&h, &n), hay.ends_with(needle));
        }
        let pieces: Vec<String> = hay.split(',').map(String::from).collect();
        assert_eq!(split(hay, ','), pieces);
        assert_eq!(strip(hay, '"'), hay.trim_matches('"'));
    }
}

#[test]
fn integers_are_written_as_the_standard_library_writes_them() {
    for n in [0i64, 1, -1, 9, 10, 99, 100, -100, 200, 403, 1_700_000_000, i64::MAX, i64::MIN] {
        assert_eq!(integer_to_text(n), n.to_string());
    }
}

#[test]
fn a_sum_that_cannot_be_held_exactly_fails_where_decimal_arithmetic_rounds() {
    let most = Amount::new(79_228_162_514_264_337_593_543_950_335, 0).unwrap();
    let tenth = Amount::new(1, 1).unwrap();
    assert_eq!(most.checked_add(tenth), None);
    assert_eq!(most.checked_sub(tenth), None);
    assert_eq!(decimal(most).checked_add(decimal(tenth)), Some(decimal(most)));
    let one = Amount::new(1, 0).unwrap();
    assert_eq!(most.checked_add(one), None);
    assert_eq!(decimal(most).checked_add(decimal(one)), None);
}

#[test]
fn a_sum_carries_the_larger_scale_of_its_terms() {
    let zero = Amount::new(0, 0).unwrap();
    let cents = Amount::new(1234, 2).unwrap();
    let mills = Amount::new(5, 3).unwrap();
    assert_eq!(cents.checked_add(mills), Some(Amount { mantissa: 12345, scale: 3 }));
    assert_eq!(mills.checked_sub(cents), Some(Amount { mantissa: -12335, scale: 3 }));
    assert_eq!(zero.checked_add(cents), Some(cents));
    let sum = mills.checked_add(zero).unwrap();
    assert_eq!(decimal(sum), decimal(mills));
    let d = decimal(cents).checked_add(decimal(mills)).unwrap();
    assert_eq!((d.mantissa(), d.scale()), (12345, 3));
}
