use treeline::calendar::{Date, Timestamp};
use treeline::window::{
    calculate_sync_date_range, plan_window, start_date_text, SyncKind, SyncWindow,
};

fn now() -> Timestamp {
    Timestamp { secs: 1_727_786_096, nanos: 123 }
}

#[test]
fn an_initial_sync_looks_back_ninety_days() {
    let w = plan_window(None, now());
    assert_eq!(
        w,
        SyncWindow {
            start: Timestamp { secs: 1_727_786_096 - 90 * 86_400, nanos: 123 },
            end: now(),
            sync_type: SyncKind::Initial,
        }
    );
    assert_eq!(w.sync_type.label(), "initial");
}

#[test]
fn an_incremental_sync_starts_seven_days_before_the_latest_date() {
    let latest = Date::parse("2024-09-20", "%Y-%m-%d").unwrap();
    let w = plan_window(Some(latest), now());
    assert_eq!(w.start, Date::parse("2024-09-13", "%Y-%m-%d").unwrap().start_of_day());
    assert_eq!(w.start.secs, (latest.days as i64 - 7) * 86_400);
    assert_eq!(w.start.nanos, 0);
    assert_eq!(w.end, now());
    assert_eq!(w.sync_type, SyncKind::Incremental);
    assert_eq!(w.sync_type.label(), "incremental");
    assert_eq!(start_date_text(&w), Some("2024-09-13".to_string()));
}

#[test]
fn the_latest_date_may_lie_after_now() {
    let latest = Date::parse("2030-01-08", "%Y-%m-%d").unwrap();
    let w = plan_window(Some(latest), now());
    assert_eq!(start_date_text(&w), Some("2030-01-01".to_string()));
    assert_eq!(w.end, now());
}

#[test]
fn the_store_reports_its_latest_date_as_text() {
    let w = calculate_sync_date_range(&Some("2024-09-20".to_string()), now());
    assert_eq!(w.sync_type, SyncKind::Incremental);
    assert_eq!(start_date_text(&w), Some("2024-09-13".to_string()));
    let none = calculate_sync_date_range(&None, now());
    assert_eq!(none, plan_window(None, now()));
}

#[test]
fn a_text_that_is_no_date_counts_as_none() {
    let w = calculate_sync_date_range(&Some("not a date".to_string()), now());
    assert_eq!(w.sync_type, SyncKind::Initial);
    assert_eq!(w, plan_window(None, now()));
}

#[test]
fn the_start_of_an_initial_sync_is_written_as_a_day() {
    let w = plan_window(None, now());
    assert_eq!(start_date_text(&w), Some("2024-07-03".to_string()));
}

#[test]
fn a_start_before_the_calendar_has_no_text() {
    let early = Timestamp { secs: -62_135_596_800, nanos: 0 };
    let w = plan_window(None, early);
    assert_eq!(w.start.secs, -62_135_596_800 - 90 * 86_400);
    assert_eq!(start_date_text(&w), None);
}
