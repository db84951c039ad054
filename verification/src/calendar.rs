//! Calendar days and instants, as plain integers.
//!
//! A [`Date`] counts days from 1970-01-01 and a [`Timestamp`] counts seconds
//! from the midnight that opens that day, so that order and distance are
//! integer order and distance. Text comes and goes through `chrono`.

use vstd::prelude::*;

verus! {

/// The number of seconds in one day.
pub const SECONDS_PER_DAY: i64 = 86_400;

/// The day number of 0001-01-01, the first day a [`Date`] can name.
pub const DATE_MIN_DAYS: i32 = -719_162;

/// The day number of 9999-12-31, the last day a [`Date`] can name.
pub const DATE_MAX_DAYS: i32 = 2_932_896;

/// The first second of 0001-01-01.
pub const TIMESTAMP_MIN_SECS: i64 = -62_135_596_800;

/// The last second of 9999-12-31.
pub const TIMESTAMP_MAX_SECS: i64 = 253_402_300_799;

/// The text `chrono` writes for the day with the given number: year, month
/// and day as `YYYY-MM-DD`.
pub uninterp spec fn iso_date_text(days: int) -> Seq<char>;

/// The day number `chrono` reads from a text under a format such as
/// `%Y-%m-%d`, or nothing where the text does not fit the format.
pub uninterp spec fn parsed_date(s: Seq<char>, format: Seq<char>) -> Option<i32>;

/// The number of the day on which the second `secs` falls.
pub open spec fn day_of_second(secs: int) -> int {
    secs / (SECONDS_PER_DAY as int)
}

/// A calendar day, counted in days from 1970-01-01.
#[derive(Clone, Copy, Debug, PartialEq, Eq, Structural)]
pub struct Date {
    pub days: i32,
}

/// An instant, counted in seconds and nanoseconds from 1970-01-01T00:00:00.
#[derive(Clone, Copy, Debug, PartialEq, Eq, Structural)]
pub struct Timestamp {
    pub secs: i64,
    pub nanos: u32,
}

impl Date {
    /// Well-formedness: the day lies in the years 0001 to 9999.
    pub open spec fn wf(self) -> bool {
        DATE_MIN_DAYS <= self.days <= DATE_MAX_DAYS
    }

    /// The day with the given number, if it lies in the years 0001 to 9999.
    pub fn from_days(days: i32) -> (r: Option<Date>)
        ensures
            r == if (Date { days }).wf() {
                Some(Date { days })
            } else {
                None
            },
    {
        if DATE_MIN_DAYS <= days && days <= DATE_MAX_DAYS {
            Some(Date { days })
        } else {
            None
        }
    }

    /// Whether the day lies in the years 0001 to 9999.
    pub fn is_valid(self) -> (r: bool)
        ensures
            r == self.wf(),
    {
        DATE_MIN_DAYS <= self.days && self.days <= DATE_MAX_DAYS
    }

    /// Whether this day comes strictly after `other`.
    pub fn is_after(self, other: Date) -> (r: bool)
        ensures
            r == (self.days > other.days),
    {
        self.days > other.days
    }

    /// The day `n` days earlier, if that day can still be named.
    pub fn minus_days(self, n: u32) -> (r: Option<Date>)
        requires
            self.wf(),
        ensures
            r == if self.days - n >= DATE_MIN_DAYS {
                Some(Date { days: (self.days - n) as i32 })
            } else {
                None
            },
            r matches Some(d) ==> d.wf(),
    {
        let d: i64 = self.days as i64 - n as i64;
        if d >= DATE_MIN_DAYS as i64 {
            Some(Date { days: d as i32 })
        } else {
            None
        }
    }

    /// The midnight that opens this day.
    pub fn start_of_day(self) -> (r: Timestamp)
        ensures
            r.secs == self.days * SECONDS_PER_DAY,
            r.nanos == 0,
            self.wf() ==> r.wf(),
    {
        Timestamp { secs: self.days as i64 * SECONDS_PER_DAY, nanos: 0 }
    }

    /// The day as `YYYY-MM-DD`.
    pub fn to_iso(self) -> (r: String)
        requires
            self.wf(),
        ensures
            r@ == iso_date_text(self.days as int),
    {
        format_iso_date(self.days)
    }

    /// Reads a day from a text under a `chrono` format; days outside the
    /// years 0001 to 9999 are not accepted.
    pub fn parse(s: &str, format: &str) -> (r: Option<Date>)
        ensures
            r == Date::spec_parse(s@, format@),
            r matches Some(d) ==> d.wf(),
    {
        match parse_date_days(s, format) {
            Some(days) => Date::from_days(days),
            None => None,
        }
    }

    /// What [`Date::parse`] returns.
    pub open spec fn spec_parse(s: Seq<char>, format: Seq<char>) -> Option<Date> {
        match parsed_date(s, format) {
            Some(days) => if (Date { days }).wf() {
                Some(Date { days })
            } else {
                None
            },
            None => None,
        }
    }
}

impl Timestamp {
    /// Well-formedness: the instant lies in the years 0001 to 9999.
    pub open spec fn wf(self) -> bool {
        TIMESTAMP_MIN_SECS <= self.secs <= TIMESTAMP_MAX_SECS
    }

    /// Whether the instant lies in the years 0001 to 9999.
    pub fn is_valid(self) -> (r: bool)
        ensures
            r == self.wf(),
    {
        TIMESTAMP_MIN_SECS <= self.secs && self.secs <= TIMESTAMP_MAX_SECS
    }

    /// The day on which this instant falls.
    pub fn date(self) -> (r: Date)
        requires
            self.wf(),
        ensures
            r.days == day_of_second(self.secs as int),
            r.wf(),
    {
        let shifted: i64 = self.secs - TIMESTAMP_MIN_SECS;
        let whole: i64 = shifted / SECONDS_PER_DAY;
        Date { days: (whole + DATE_MIN_DAYS as i64) as i32 }
    }

    /// The instant `days` whole days earlier.
    pub fn minus_days(self, days: u32) -> (r: Timestamp)
        requires
            self.secs - days * SECONDS_PER_DAY >= i64::MIN,
        ensures
            r.secs == self.secs - days * SECONDS_PER_DAY,
            r.nanos == self.nanos,
    {
        Timestamp { secs: self.secs - days as i64 * SECONDS_PER_DAY, nanos: self.nanos }
    }

    /// The current instant, read from the system clock.
    pub fn now() -> Timestamp {
        read_clock()
    }
}

/// Writes a day with `chrono`: `NaiveDate::from_epoch_days`, which knows
/// every day of the years 0001 to 9999, and the date's `Display`. The result
/// is named by [`iso_date_text`].
#[verifier::external_body]
fn format_iso_date(days: i32) -> (r: String)
    requires
        DATE_MIN_DAYS <= days <= DATE_MAX_DAYS,
    ensures
        r@ == iso_date_text(days as int),
{
    match chrono::NaiveDate::from_epoch_days(days) {
        Some(date) => date.to_string(),
        None => String::new(),
    }
}

/// Reads a day with `chrono::NaiveDate::parse_from_str` and hands out its
/// number by `to_epoch_days`. The result is named by [`parsed_date`].
#[verifier::external_body]
fn parse_date_days(s: &str, format: &str) -> (r: Option<i32>)
    ensures
        r == parsed_date(s@, format@),
{
    match chrono::NaiveDate::parse_from_str(s, format) {
        Ok(d) => Some(d.to_epoch_days()),
        Err(_) => None,
    }
}

/// Reads the clock with `chrono::Utc::now`. Nothing is known of the result:
/// two readings may differ. On a machine whose clock stands before 1970
/// `chrono` does not return.
#[verifier::external_body]
fn read_clock() -> Timestamp {
    let now = chrono::Utc::now();
    Timestamp { secs: now.timestamp(), nanos: now.timestamp_subsec_nanos() }
}

} // verus!
