use treeline::amount::Amount;
use treeline::calendar::{Date, Timestamp};
use treeline::domain::{BalanceSnapshot, Transaction};
use treeline::projection::{project_balance, should_create_snapshot};
use treeline::services::backfill::{decide_day, plan_days, DayDecision};

fn cents(n: i64) -> Amount {
    Amount::from_hundredths(n)
}

fn tx(days: i32, amount: i64) -> Transaction {
    Transaction::new(1, cents(amount), Date { days })
}

fn snapshot(balance: Amount) -> BalanceSnapshot {
    BalanceSnapshot::new(1, balance, Timestamp { secs: 0, nanos: 0 })
}

#[test]
fn later_transactions_are_taken_back() {
    let today = Date { days: 19727 };
    let txs = vec![tx(19726, -2000)];
    assert_eq!(project_balance(cents(10000), &txs, today), Some(cents(10000)));
    assert_eq!(project_balance(cents(10000), &txs, Date { days: 19726 }), Some(cents(10000)));
    assert_eq!(project_balance(cents(10000), &txs, Date { days: 19725 }), Some(cents(12000)));
}

#[test]
fn backfill_walks_back_from_the_end_date() {
    let today = Date { days: 19727 };
    let txs = vec![tx(19726, -2000)];
    let plan = plan_days(cents(10000), &txs, today, 2);
    assert_eq!(
        plan,
        vec![
            (Date { days: 19727 }, Some(cents(10000))),
            (Date { days: 19726 }, Some(cents(10000))),
            (Date { days: 19725 }, Some(cents(12000))),
        ]
    );
}

#[test]
fn a_transaction_dated_today_changes_yesterday() {
    let today = Date { days: 19727 };
    let txs = vec![tx(19727, -2000)];
    let plan = plan_days(cents(10000), &txs, today, 1);
    assert_eq!(
        plan,
        vec![(Date { days: 19727 }, Some(cents(10000))), (Date { days: 19726 }, Some(cents(12000)))]
    );
}

#[test]
fn without_transactions_every_day_has_the_current_balance() {
    let plan = plan_days(cents(4321), &vec![], Date { days: 100 }, 3);
    assert_eq!(plan.len(), 4);
    for (i, (day, balance)) in plan.iter().enumerate() {
        assert_eq!(day.days, 100 - i as i32);
        assert_eq!(*balance, Some(cents(4321)));
    }
}

#[test]
fn zero_days_cover_the_end_date_alone() {
    let plan = plan_days(cents(1), &vec![], Date { days: 100 }, 0);
    assert_eq!(plan, vec![(Date { days: 100 }, Some(cents(1)))]);
}

#[test]
fn a_negative_number_of_days_covers_nothing() {
    assert!(plan_days(cents(1), &vec![], Date { days: 100 }, -1).is_empty());
}

#[test]
fn the_plan_ends_where_the_calendar_ends() {
    let plan = plan_days(cents(1), &vec![], Date { days: -719_160 }, 10);
    assert_eq!(plan.len(), 3);
    assert_eq!(plan[2].0, Date { days: -719_162 });
}

#[test]
fn sums_several_transactions_of_mixed_scale() {
    let mut txs = vec![tx(10, -2000), tx(11, 550), tx(5, 99999)];
    txs.push(Transaction::new(1, Amount::new(5, 3).unwrap(), Date { days: 12 }));
    assert_eq!(
        project_balance(cents(10000), &txs, Date { days: 9 }),
        Some(Amount::new(114495, 3).unwrap())
    );
    assert_eq!(project_balance(cents(10000), &txs, Date { days: 10 }), Some(Amount::new(94495, 3).unwrap()));
    assert_eq!(project_balance(cents(10000), &txs, Date { days: 12 }), Some(cents(10000)));
}

#[test]
fn a_balance_that_cannot_be_held_is_none() {
    let max = Amount::new(79_228_162_514_264_337_593_543_950_335, 0).unwrap();
    let txs = vec![Transaction::new(1, max.neg(), Date { days: 10 })];
    assert_eq!(project_balance(max, &txs, Date { days: 9 }), None);
    assert_eq!(project_balance(max, &txs, Date { days: 10 }), Some(max));
}

#[test]
fn a_snapshot_within_a_hundredth_stands_for_the_balance() {
    let existing = vec![snapshot(cents(5000)), snapshot(cents(10000))];
    assert!(!should_create_snapshot(&existing, cents(10000)));
    assert!(!should_create_snapshot(&existing, Amount::new(100009, 3).unwrap()));
    assert!(should_create_snapshot(&existing, cents(10001)));
    assert!(should_create_snapshot(&existing, cents(9999)));
    assert!(should_create_snapshot(&vec![], cents(10000)));
}

#[test]
fn a_dry_run_decides_as_a_live_run_and_writes_nothing() {
    let existing = Some(vec![snapshot(cents(10000))]);
    assert_eq!(decide_day(&existing, cents(10000), false), DayDecision::Skip);
    assert_eq!(decide_day(&existing, cents(10000), true), DayDecision::Skip);
    assert_eq!(decide_day(&existing, cents(12000), false), DayDecision::Create { write: true });
    assert_eq!(decide_day(&existing, cents(12000), true), DayDecision::Create { write: false });
    assert_eq!(decide_day(&None, cents(12000), false), DayDecision::Create { write: true });
    assert_eq!(decide_day(&None, cents(12000), true), DayDecision::Create { write: false });
}

#[test]
fn balance_one_hundred_and_a_debit_of_twenty_dated_yesterday() {
    let today = Date { days: 19727 };
    let yesterday = Date { days: 19726 };
    let before = Date { days: 19725 };
    let txs = vec![tx(yesterday.days, -2000)];
    let plan = plan_days(cents(10000), &txs, today, 2);
    assert_eq!(plan[0], (today, Some(cents(10000))));
    assert_eq!(plan[0].1.unwrap().to_fixed2(), "100.00");
    assert_eq!(plan[1], (yesterday, Some(cents(10000))));
    assert_eq!(plan[2], (before, Some(cents(12000))));
    assert_eq!(plan[2].1.unwrap().to_fixed2(), "120.00");
}
