//! Planning the time range of a sync.
//!
//! A first sync asks a source for the last ninety days. Every later sync
//! asks from seven days before the latest stored transaction, so that
//! transactions which post late are still seen. Both ranges end now.

use vstd::prelude::*;
use vstd::string::*;
use crate::calendar::{Date, Timestamp, SECONDS_PER_DAY};

verus! {

/// How many days before the latest stored transaction an incremental sync
/// starts.
pub const OVERLAP_DAYS: u32 = 7;

/// How many days a first sync looks back.
pub const INITIAL_LOOKBACK_DAYS: u32 = 90;

/// The kind of a sync.
#[derive(Clone, Copy, Debug, PartialEq, Eq, Structural)]
pub enum SyncKind {
    /// Nothing is stored yet: a fixed look back.
    Initial,
    /// Transactions are stored: the range is anchored to the latest one.
    Incremental,
}

/// The time range to ask a source for.
#[derive(Clone, Copy, Debug, PartialEq, Eq, Structural)]
pub struct SyncWindow {
    pub start: Timestamp,
    pub end: Timestamp,
    pub sync_type: SyncKind,
}

/// The range planned at the instant `now` for a store whose latest
/// transaction date is `latest`.
pub open spec fn planned_window(latest: Option<Date>, now: Timestamp) -> SyncWindow {
    match latest {
        Some(d) => SyncWindow {
            start: Timestamp {
                secs: ((d.days - OVERLAP_DAYS) * SECONDS_PER_DAY) as i64,
                nanos: 0,
            },
            end: now,
            sync_type: SyncKind::Incremental,
        },
        None => SyncWindow {
            start: Timestamp {
                secs: (now.secs - INITIAL_LOOKBACK_DAYS * SECONDS_PER_DAY) as i64,
                nanos: now.nanos,
            },
            end: now,
            sync_type: SyncKind::Initial,
        },
    }
}

/// The latest transaction date that a store reports as text, read as
/// `YYYY-MM-DD`; a text that is no such date counts as no date.
pub open spec fn latest_date(text: Option<Seq<char>>) -> Option<Date> {
    match text {
        Some(s) => Date::spec_parse(s, "%Y-%m-%d"@),
        None => None,
    }
}

/// The name of a kind of sync.
pub open spec fn kind_label(kind: SyncKind) -> Seq<char> {
    match kind {
        SyncKind::Initial => "initial"@,
        SyncKind::Incremental => "incremental"@,
    }
}

/// The day a range starts on, as `YYYY-MM-DD`, where that day lies in the
/// years 0001 to 9999.
pub open spec fn start_text(w: SyncWindow) -> Option<Seq<char>> {
    if w.start.wf() {
        Some(crate::calendar::iso_date_text(crate::calendar::day_of_second(w.start.secs as int)))
    } else {
        None
    }
}

impl SyncKind {
    /// The name of the kind: `initial` or `incremental`.
    pub fn label(self) -> (r: String)
        ensures
            r@ == kind_label(self),
    {
        match self {
            SyncKind::Initial => "initial".to_owned(),
            SyncKind::Incremental => "incremental".to_owned(),
        }
    }
}

/// Plans the range of a sync.
///
/// With a latest stored transaction date `d` the range is
/// `[d - 7 days, now]` and the sync is incremental; with none it is
/// `[now - 90 days, now]` and the sync is initial.
pub fn plan_window(latest: Option<Date>, now: Timestamp) -> (w: SyncWindow)
    requires
        now.wf(),
    ensures
        w == planned_window(latest, now),
        w.end == now,
        latest is Some <==> w.sync_type == SyncKind::Incremental,
{
    match latest {
        Some(d) => SyncWindow {
            start: Timestamp {
                secs: (d.days as i64 - OVERLAP_DAYS as i64) * SECONDS_PER_DAY,
                nanos: 0,
            },
            end: now,
            sync_type: SyncKind::Incremental,
        },
        None => SyncWindow {
            start: now.minus_days(INITIAL_LOOKBACK_DAYS),
            end: now,
            sync_type: SyncKind::Initial,
        },
    }
}

/// Plans the range of a sync from what the store reports as its latest
/// transaction date.
pub fn calculate_sync_date_range(latest: &Option<String>, now: Timestamp) -> (w: SyncWindow)
    requires
        now.wf(),
    ensures
        w == planned_window(latest_date(crate::text::opt_text(*latest)), now),
{
    let parsed: Option<Date> = match latest {
        Some(s) => Date::parse(s.as_str(), "%Y-%m-%d"),
        None => None,
    };
    plan_window(parsed, now)
}

/// The day a range starts on, as `YYYY-MM-DD`, where that day lies in the
/// years 0001 to 9999.
pub fn start_date_text(w: &SyncWindow) -> (r: Option<String>)
    ensures
        crate::text::opt_text(r) == start_text(*w),
{
    if w.start.is_valid() {
        Some(w.start.date().to_iso())
    } else {
        None
    }
}

} // verus!
