use treeline::calendar::{Date, Timestamp, DATE_MAX_DAYS, DATE_MIN_DAYS};

#[test]
fn a_date_is_read_and_written_as_iso() {
    let d = Date::parse("2024-01-05", "%Y-%m-%d").unwrap();
    assert_eq!(d.days, 19727);
    assert_eq!(d.to_iso(), "2024-01-05");
}

#[test]
fn the_epoch_is_day_zero() {
    assert_eq!(Date { days: 0 }.to_iso(), "1970-01-01");
    assert_eq!(Date { days: -1 }.to_iso(), "1969-12-31");
}

#[test]
fn the_calendar_spans_four_digit_years() {
    assert_eq!(Date { days: DATE_MIN_DAYS }.to_iso(), "0001-01-01");
    assert_eq!(Date { days: DATE_MAX_DAYS }.to_iso(), "9999-12-31");
    assert_eq!(Date::from_days(DATE_MAX_DAYS + 1), None);
    assert_eq!(Date::from_days(DATE_MIN_DAYS - 1), None);
    assert_eq!(Date::from_days(19727), Some(Date { days: 19727 }));
    assert!(Date { days: 0 }.is_valid());
    assert!(!Date { days: DATE_MAX_DAYS + 1 }.is_valid());
}

#[test]
fn a_text_that_fits_no_format_is_no_date() {
    assert_eq!(Date::parse("2024-13-05", "%Y-%m-%d"), None);
    assert_eq!(Date::parse("yesterday", "%Y-%m-%d"), None);
    assert_eq!(Date::parse("05/01/2024", "%Y-%m-%d"), None);
}

#[test]
fn other_formats_are_read() {
    assert_eq!(Date::parse("10/01/2024", "%m/%d/%Y"), Some(Date { days: 19997 }));
    assert_eq!(Date::parse("01/10/2024", "%d/%m/%Y"), Some(Date { days: 19997 }));
}

#[test]
fn an_instant_falls_on_its_day() {
    assert_eq!(Timestamp { secs: 0, nanos: 0 }.date(), Date { days: 0 });
    assert_eq!(Timestamp { secs: 86_399, nanos: 999 }.date(), Date { days: 0 });
    assert_eq!(Timestamp { secs: 86_400, nanos: 0 }.date(), Date { days: 1 });
    assert_eq!(Timestamp { secs: -1, nanos: 0 }.date(), Date { days: -1 });
    assert_eq!(Timestamp { secs: -86_400, nanos: 0 }.date(), Date { days: -1 });
    assert_eq!(Timestamp { secs: -86_401, nanos: 0 }.date(), Date { days: -2 });
    assert_eq!(Timestamp { secs: 1_704_455_000, nanos: 0 }.date(), Date { days: 19727 });
}

#[test]
fn a_day_opens_at_midnight() {
    assert_eq!(Date { days: 19727 }.start_of_day(), Timestamp { secs: 1_704_412_800, nanos: 0 });
    assert_eq!(Date { days: -1 }.start_of_day(), Timestamp { secs: -86_400, nanos: 0 });
}

#[test]
fn days_are_stepped_back() {
    assert_eq!(Date { days: 10 }.minus_days(3), Some(Date { days: 7 }));
    assert_eq!(Date { days: DATE_MIN_DAYS }.minus_days(1), None);
    assert_eq!(
        Timestamp { secs: 1_000_000, nanos: 5 }.minus_days(2),
        Timestamp { secs: 1_000_000 - 172_800, nanos: 5 }
    );
}

#[test]
fn days_are_ordered() {
    assert!(Date { days: 2 }.is_after(Date { days: 1 }));
    assert!(!Date { days: 1 }.is_after(Date { days: 1 }));
    assert!(!Date { days: 0 }.is_after(Date { days: 1 }));
}

#[test]
fn the_clock_reads_a_valid_instant() {
    let now = Timestamp::now();
    assert!(now.is_valid());
    assert!(now.secs > 1_600_000_000);
}

#[test]
fn instants_outside_the_calendar_are_told() {
    assert!(!Timestamp { secs: 253_402_300_800, nanos: 0 }.is_valid());
    assert!(Timestamp { secs: 253_402_300_799, nanos: 0 }.is_valid());
    assert!(Timestamp { secs: -62_135_596_800, nanos: 0 }.is_valid());
    assert!(!Timestamp { secs: -62_135_596_801, nanos: 0 }.is_valid());
    assert_eq!(
        Timestamp { secs: 253_402_300_799, nanos: 0 }.date(),
        Date { days: DATE_MAX_DAYS }
    );
    assert_eq!(
        Timestamp { secs: -62_135_596_800, nanos: 0 }.date(),
        Date { days: DATE_MIN_DAYS }
    );
}
