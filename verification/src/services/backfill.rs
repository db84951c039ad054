//! Filling in the balance history of accounts.
//!
//! For every day of a range that ends today, the balance an account had at
//! the end of the day is projected from its current balance and its
//! transactions, and recorded as a snapshot unless the day already has one
//! within a hundredth of it. A dry run counts what a live run would
//! record, and records nothing.

use vstd::prelude::*;
use vstd::string::*;
use crate::amount::Amount;
use crate::calendar::{Date, Timestamp, DATE_MIN_DAYS};
use crate::domain::{Account, AccountView, BalanceSnapshot, ServiceResult, Transaction};
use crate::matching::account_views;
use crate::projection::{balance_at, has_close_snapshot, project_balance, should_create_snapshot};
use crate::reconcile::transaction_views;
use crate::repository::{valid_accounts, valid_snapshots, valid_transactions, Repository};
use crate::services::account::{snapshot_for_day, AccountService};

verus! {

/// What a backfill did.
#[derive(Clone, Copy, Debug, PartialEq, Eq, Structural)]
pub struct BackfillResult {
    pub accounts_processed: usize,
    pub snapshots_created: usize,
    pub snapshots_skipped: usize,
}

/// The service that fills in balance histories.
pub struct BackfillService<R: Repository> {
    repository: R,
    account_service: AccountService<R>,
}

/// What a backfill does with one day of one account.
#[derive(Clone, Copy, Debug, PartialEq, Eq, Structural)]
pub enum DayDecision {
    /// The day has a snapshot within a hundredth of the balance.
    Skip,
    /// The balance is to be counted as created, and written in a live run.
    Create { write: bool },
}

/// The decision for a day, given its snapshots (or `None`, where the store
/// could not tell them) and the projected balance.
pub open spec fn day_decision(
    existing: Option<Seq<BalanceSnapshot>>,
    balance: Amount,
    dry_run: bool,
) -> DayDecision {
    match existing {
        Some(snapshots) => if has_close_snapshot(
            snapshots.filter(|s: BalanceSnapshot| s.wf()),
            balance,
        ) {
            DayDecision::Skip
        } else {
            DayDecision::Create { write: !dry_run }
        },
        None => DayDecision::Create { write: !dry_run },
    }
}

/// The number of days a backfill over `days` days back from `end` covers:
/// the days from `end - days` to `end`, as far as the calendar reaches.
pub open spec fn covered_days(end: Date, days: i64) -> int {
    if days < 0 {
        0
    } else if end.days - days < DATE_MIN_DAYS {
        end.days - DATE_MIN_DAYS + 1
    } else {
        days + 1
    }
}

/// Whether an identifier is among the wanted ones.
pub open spec fn is_wanted(ids: Seq<u128>, id: u128) -> bool {
    ids.contains(id)
}

/// The accounts a backfill works on: all, or those of the given
/// identifiers.
pub open spec fn selected_accounts(all: Seq<AccountView>, ids: Option<Seq<u128>>) -> Seq<
    AccountView,
> {
    match ids {
        Some(wanted) => all.filter(|a: AccountView| is_wanted(wanted, a.id)),
        None => all,
    }
}

/// A dry backfill counts as a live one.
///
/// For the same snapshots and the same projected balance, a dry run and a
/// live run either both skip the day or both count a snapshot as created;
/// the live run writes it, the dry run does not.
pub proof fn lemma_dry_backfill_counts_alike(existing: Option<Seq<BalanceSnapshot>>, balance: Amount)
    ensures
        day_decision(existing, balance, true) is Skip <==> day_decision(existing, balance, false)
            is Skip,
        day_decision(existing, balance, true) != (DayDecision::Create { write: true }),
        day_decision(existing, balance, false) != (DayDecision::Create { write: false }),
{
}

/// Decides what to do with one day of one account.
///
/// A dry run decides as a live run does, except that it writes nothing.
pub fn decide_day(existing: &Option<Vec<BalanceSnapshot>>, balance: Amount, dry_run: bool) -> (r:
    DayDecision)
    requires
        balance.wf(),
    ensures
        r == day_decision(
            match *existing {
                Some(v) => Some(v@),
                None => None,
            },
            balance,
            dry_run,
        ),
{
    match existing {
        Some(snapshots) => {
            let sound = valid_snapshots(snapshots);
            if should_create_snapshot(&sound, balance) {
                DayDecision::Create { write: !dry_run }
            } else {
                DayDecision::Skip
            }
        },
        None => DayDecision::Create { write: !dry_run },
    }
}

/// The projected balances of an account for the days from `end` back to
/// `end - days`, the latest day first, as far as the calendar reaches.
/// Each day comes with the balance at its end, or with `None` where that
/// balance cannot be held exactly.
pub fn plan_days(current: Amount, txs: &Vec<Transaction>, end: Date, days: i64) -> (r: Vec<
    (Date, Option<Amount>),
>)
    requires
        current.wf(),
        end.wf(),
        forall|i: int| 0 <= i < txs@.len() ==> (#[trigger] txs@[i]).amount.wf(),
    ensures
        r@.len() == covered_days(end, days),
        forall|i: int|
            0 <= i < r@.len() ==> {
                &&& (#[trigger] r@[i]).0.days == end.days - i
                &&& r@[i].0.wf()
                &&& r@[i].1 == balance_at(current, transaction_views(txs@), r@[i].0)
                &&& (r@[i].1 matches Some(b) ==> b.wf())
            },
{
    let mut out: Vec<(Date, Option<Amount>)> = Vec::new();
    if days < 0 {
        return out;
    }
    let span: i64 = if end.days as i64 - DATE_MIN_DAYS as i64 <= days {
        end.days as i64 - DATE_MIN_DAYS as i64
    } else {
        days
    };
    let mut i: i64 = 0;
    while i <= span
        invariant
            0 <= i <= span + 1,
            0 <= span <= end.days - DATE_MIN_DAYS,
            span + 1 == covered_days(end, days),
            current.wf(),
            end.wf(),
            forall|k: int| 0 <= k < txs@.len() ==> (#[trigger] txs@[k]).amount.wf(),
            out@.len() == i,
            forall|k: int|
                0 <= k < out@.len() ==> {
                    &&& (#[trigger] out@[k]).0.days == end.days - k
                    &&& out@[k].0.wf()
                    &&& out@[k].1 == balance_at(current, transaction_views(txs@), out@[k].0)
                    &&& (out@[k].1 matches Some(b) ==> b.wf())
                },
        decreases span + 1 - i,
    {
        let day = Date { days: (end.days as i64 - i) as i32 };
        let balance = project_balance(current, txs, day);
        out.push((day, balance));
        i += 1;
    }
    out
}

/// Whether every day of a plan has a balance.
pub open spec fn all_held(plan: Seq<(Date, Option<Amount>)>) -> bool {
    forall|i: int| 0 <= i < plan.len() ==> (#[trigger] plan[i]).1 is Some
}

/// The days of a plan with their balances, where every day has one; else
/// the failure that a balance is out of range. A plan with a day whose
/// balance cannot be held is refused as a whole.
pub fn held_days(plan: &Vec<(Date, Option<Amount>)>) -> (r: Result<Vec<(Date, Amount)>, String>)
    ensures
        match r {
            Ok(held) => {
                &&& all_held(plan@)
                &&& held@.len() == plan@.len()
                &&& forall|i: int|
                    0 <= i < held@.len() ==> plan@[i] == ((#[trigger] held@[i]).0, Some(held@[i].1))
            },
            Err(reason) => !all_held(plan@) && reason@ == "Balance out of range"@,
        },
{
    let mut held: Vec<(Date, Amount)> = Vec::new();
    let mut i: usize = 0;
    while i < plan.len()
        invariant
            i <= plan@.len(),
            held@.len() == i,
            forall|k: int| 0 <= k < i ==> (#[trigger] plan@[k]).1 is Some,
            forall|k: int| 0 <= k < i ==> plan@[k] == ((#[trigger] held@[k]).0, Some(held@[k].1)),
        decreases plan@.len() - i,
    {
        match plan[i].1 {
            Some(balance) => {
                held.push((plan[i].0, balance));
            },
            None => {
                assert(!(plan@[i as int].1 is Some));
                return Err("Balance out of range".to_owned());
            },
        }
        i += 1;
    }
    Ok(held)
}

/// Whether an identifier is among the given ones.
pub fn contains_id(ids: &Vec<u128>, id: u128) -> (r: bool)
    ensures
        r == is_wanted(ids@, id),
{
    let mut i: usize = 0;
    while i < ids.len()
        invariant
            i <= ids@.len(),
            forall|k: int| 0 <= k < i ==> ids@[k] != id,
        decreases ids@.len() - i,
    {
        if ids[i] == id {
            return true;
        }
        i += 1;
    }
    false
}

/// The accounts a backfill works on: all, or those of the given
/// identifiers.
pub fn select_accounts(all: &Vec<Account>, ids: &Option<Vec<u128>>) -> (r: Vec<Account>)
    ensures
        account_views(r@) == selected_accounts(
            account_views(all@),
            match *ids {
                Some(v) => Some(v@),
                None => None,
            },
        ),
{
    let ghost av = account_views(all@);
    let mut out: Vec<Account> = Vec::new();
    let mut i: usize = 0;
    match ids {
        Some(wanted) => {
            let ghost pred = |a: AccountView| is_wanted(wanted@, a.id);
            proof {
                assert(av.take(0).filter(pred) =~= Seq::<AccountView>::empty()) by {
                    reveal(Seq::filter);
                }
                assert(account_views(out@) =~= Seq::<AccountView>::empty());
            }
            while i < all.len()
                invariant
                    i <= all@.len(),
                    av == account_views(all@),
                    pred == (|a: AccountView| is_wanted(wanted@, a.id)),
                    account_views(out@) == av.take(i as int).filter(pred),
                decreases all@.len() - i,
            {
                proof {
                    assert(av[i as int] == all@[i as int]@);
                    assert(av.take(i + 1) =~= av.take(i as int).push(av[i as int]));
                    av.take(i as int).lemma_filter_push(av[i as int], pred);
                }
                if contains_id(wanted, all[i].id) {
                    let ghost before = account_views(out@);
                    let a = all[i].clone();
                    out.push(a);
                    assert(account_views(out@) =~= before.push(a@));
                }
                i += 1;
            }
            assert(av.take(all@.len() as int) =~= av);
        },
        None => {
            assert(account_views(out@) =~= av.take(0));
            while i < all.len()
                invariant
                    i <= all@.len(),
                    av == account_views(all@),
                    account_views(out@) == av.take(i as int),
                decreases all@.len() - i,
            {
                let ghost before = account_views(out@);
                let a = all[i].clone();
                out.push(a);
                assert(account_views(out@) =~= before.push(a@));
                assert(av.take(i + 1) =~= av.take(i as int).push(all@[i as int]@));
                i += 1;
            }
            assert(av.take(all@.len() as int) =~= av);
        },
    }
    out
}

/// What became of one day of one account in a backfill: the decision, and
/// whether the store added the snapshot that was handed to it.
#[derive(Clone, Copy, Debug, PartialEq, Eq, Structural)]
pub struct DayRecord {
    pub decision: DayDecision,
    /// Whether a snapshot was written and the store said it added it.
    pub added: bool,
}

/// Whether a day counts as created: its balance was to become a snapshot,
/// and the run was dry or the store added the snapshot.
pub open spec fn counts_as_created(record: DayRecord) -> bool {
    match record.decision {
        DayDecision::Skip => false,
        DayDecision::Create { write } => !write || record.added,
    }
}

/// Whether a day counts as skipped.
pub open spec fn counts_as_skipped(record: DayRecord) -> bool {
    record.decision is Skip
}

/// Whether a snapshot of the day was handed to the store and not added.
pub open spec fn failed_to_write(record: DayRecord) -> bool {
    record.decision matches DayDecision::Create { write } && write && !record.added
}

/// Whether a record is one of a dry run, or of a live run: a dry run
/// writes nothing, a live run writes whatever it creates.
pub open spec fn fits_run(record: DayRecord, dry_run: bool) -> bool {
    match record.decision {
        DayDecision::Skip => !record.added,
        DayDecision::Create { write } => write == !dry_run && (record.added ==> write),
    }
}

/// How many of the days count as created.
pub open spec fn created_count(records: Seq<DayRecord>) -> nat
    decreases records.len(),
{
    if records.len() == 0 {
        0
    } else {
        created_count(records.drop_last()) + if counts_as_created(records.last()) {
            1nat
        } else {
            0nat
        }
    }
}

/// How many of the days count as skipped.
pub open spec fn skipped_count(records: Seq<DayRecord>) -> nat
    decreases records.len(),
{
    if records.len() == 0 {
        0
    } else {
        skipped_count(records.drop_last()) + if counts_as_skipped(records.last()) {
            1nat
        } else {
            0nat
        }
    }
}

/// Whether a result is the summary of a backfill over `selected` accounts
/// with the given days: a failure if and only if no account is selected,
/// and else the number of accounts with the counts of the days.
pub open spec fn is_summary(
    r: ServiceResult<BackfillResult>,
    selected: nat,
    records: Seq<DayRecord>,
) -> bool {
    if selected == 0 {
        r.is_failure("No accounts found"@)
    } else {
        &&& r.success
        &&& r.error is None
        &&& r.data matches Some(d)
        &&& d.accounts_processed == selected
        &&& d.snapshots_created == created_count(records)
        &&& d.snapshots_skipped == skipped_count(records)
    }
}

/// Whether a result is the outcome of a backfill over `selected` accounts
/// and `span` days each: the summary of one record per account and day,
/// each record one of a dry or of a live run, as the run is.
pub open spec fn is_backfill_outcome(
    r: ServiceResult<BackfillResult>,
    selected: nat,
    records: Seq<DayRecord>,
    span: int,
    dry_run: bool,
) -> bool {
    &&& is_summary(r, selected, records)
    &&& records.len() == selected * span
    &&& forall|i: int| 0 <= i < records.len() ==> fits_run(#[trigger] records[i], dry_run)
}

/// Every day counts at most once; and every day counts once, as created or
/// as skipped, unless the store failed to add a snapshot.
pub proof fn lemma_counts_cover(records: Seq<DayRecord>)
    ensures
        created_count(records) + skipped_count(records) <= records.len(),
        (forall|i: int| 0 <= i < records.len() ==> !failed_to_write(#[trigger] records[i]))
            ==> created_count(records) + skipped_count(records) == records.len(),
    decreases records.len(),
{
    if records.len() > 0 {
        let rest = records.drop_last();
        lemma_counts_cover(rest);
        if forall|i: int| 0 <= i < records.len() ==> !failed_to_write(#[trigger] records[i]) {
            assert forall|i: int| 0 <= i < rest.len() implies !failed_to_write(
                #[trigger] rest[i],
            ) by {
                assert(rest[i] == records[i]);
            }
            assert(!failed_to_write(records[records.len() - 1]));
        }
    }
}

/// A dry run writes nothing, so each of its days counts: the counts of a
/// dry run add up to the number of days.
pub proof fn lemma_dry_run_counts_every_day(records: Seq<DayRecord>)
    requires
        forall|i: int| 0 <= i < records.len() ==> fits_run(#[trigger] records[i], true),
    ensures
        created_count(records) + skipped_count(records) == records.len(),
{
    lemma_counts_cover(records);
}

/// A dry run counts as a live run.
///
/// Let a dry run and a live run decide the same days alike: each day is
/// skipped by both or created by both. If the store adds every snapshot
/// the live run hands to it, the two runs count the same days as created
/// and the same days as skipped.
pub proof fn lemma_dry_run_counts_alike(live: Seq<DayRecord>, dry: Seq<DayRecord>)
    requires
        live.len() == dry.len(),
        forall|i: int| 0 <= i < live.len() ==> fits_run(#[trigger] live[i], false),
        forall|i: int| 0 <= i < dry.len() ==> fits_run(#[trigger] dry[i], true),
        forall|i: int|
            0 <= i < live.len() ==> ((#[trigger] live[i]).decision is Skip <==> dry[i].decision
                is Skip),
        forall|i: int| 0 <= i < live.len() ==> !failed_to_write(#[trigger] live[i]),
    ensures
        created_count(live) == created_count(dry),
        skipped_count(live) == skipped_count(dry),
    decreases live.len(),
{
    if live.len() > 0 {
        let l = live.drop_last();
        let d = dry.drop_last();
        assert forall|i: int| 0 <= i < l.len() implies fits_run(#[trigger] l[i], false)
            && fits_run(#[trigger] d[i], true) && (l[i].decision is Skip <==> d[i].decision
            is Skip) && !failed_to_write(l[i]) by {
            assert(l[i] == live[i]);
            assert(d[i] == dry[i]);
        }
        lemma_dry_run_counts_alike(l, d);
        let n = live.len() - 1;
        assert(fits_run(live[n], false) && fits_run(dry[n], true));
        assert(!failed_to_write(live[n]));
    }
}

/// A backfill that skips every day creates nothing.
pub proof fn lemma_all_skipped(records: Seq<DayRecord>)
    requires
        forall|i: int| 0 <= i < records.len() ==> (#[trigger] records[i]).decision is Skip,
    ensures
        created_count(records) == 0,
        skipped_count(records) == records.len(),
    decreases records.len(),
{
    if records.len() > 0 {
        let rest = records.drop_last();
        assert forall|i: int| 0 <= i < rest.len() implies (#[trigger] rest[i]).decision is Skip by {
            assert(rest[i] == records[i]);
        }
        lemma_all_skipped(rest);
        assert(records[records.len() - 1].decision is Skip);
    }
}

/// A repeated backfill skips the day.
///
/// Once a well-formed snapshot of a balance stands among the snapshots of
/// a day, whether an earlier run added it or it was there before, every
/// later run that projects the same balance for the day skips the day.
pub proof fn lemma_repeated_day_is_skipped(
    existing: Seq<BalanceSnapshot>,
    recorded: BalanceSnapshot,
    balance: Amount,
    dry_run: bool,
)
    requires
        recorded.wf(),
        recorded.balance == balance,
    ensures
        day_decision(Some(existing.push(recorded)), balance, dry_run) is Skip,
{
    let pred = |s: BalanceSnapshot| s.wf();
    existing.lemma_filter_push(recorded, pred);
    let sound = existing.push(recorded).filter(pred);
    crate::amount::lemma_close_reflexive_symmetric(balance, balance);
    assert(sound[sound.len() - 1] == recorded);
    assert(sound[sound.len() - 1].balance.close_to(balance));
}

/// A backfill in which every day counts as created skips nothing.
pub proof fn lemma_all_created(records: Seq<DayRecord>)
    requires
        forall|i: int| 0 <= i < records.len() ==> counts_as_created(#[trigger] records[i]),
    ensures
        created_count(records) == records.len(),
        skipped_count(records) == 0,
    decreases records.len(),
{
    if records.len() > 0 {
        let rest = records.drop_last();
        assert forall|i: int| 0 <= i < rest.len() implies counts_as_created(#[trigger] rest[i]) by {
            assert(rest[i] == records[i]);
        }
        lemma_all_created(rest);
        assert(counts_as_created(records[records.len() - 1]));
    }
}

/// A backfill over no days back covers one day, the last.
pub proof fn lemma_no_days_back_is_one_day(end: Date)
    requires
        end.wf(),
    ensures
        covered_days(end, 0) == 1,
{
}

/// A backfill counts every day of every account once, as created or as
/// skipped, where the store adds every snapshot that is handed to it. Over
/// no days back, that is one day for each account
/// ([`lemma_no_days_back_is_one_day`]).
pub proof fn lemma_backfill_counts_every_day(
    r: ServiceResult<BackfillResult>,
    selected: nat,
    records: Seq<DayRecord>,
    span: int,
    dry_run: bool,
)
    requires
        is_backfill_outcome(r, selected, records, span, dry_run),
        selected > 0,
        forall|i: int| 0 <= i < records.len() ==> !failed_to_write(#[trigger] records[i]),
    ensures
        r.success,
        r.data matches Some(d) && d.accounts_processed == selected && d.snapshots_created
            + d.snapshots_skipped == selected * span,
{
    lemma_counts_cover(records);
}

/// A repeated backfill creates nothing.
///
/// Where a run skips every day, as it does once an earlier run has
/// recorded every day ([`lemma_repeated_day_is_skipped`]), it reports no
/// snapshot as created and every day of every account as skipped.
pub proof fn lemma_repeated_backfill_creates_nothing(
    r: ServiceResult<BackfillResult>,
    selected: nat,
    records: Seq<DayRecord>,
    span: int,
    dry_run: bool,
)
    requires
        is_backfill_outcome(r, selected, records, span, dry_run),
        selected > 0,
        forall|i: int| 0 <= i < records.len() ==> (#[trigger] records[i]).decision is Skip,
    ensures
        r.success,
        r.data matches Some(d) && d.accounts_processed == selected && d.snapshots_created == 0
            && d.snapshots_skipped == selected * span,
{
    lemma_all_skipped(records);
}

/// A first backfill creates every day.
///
/// Where no day is skipped and the store adds every snapshot that is
/// handed to it, a run reports every day of every account as created and
/// none as skipped.
pub proof fn lemma_first_backfill_creates_every_day(
    r: ServiceResult<BackfillResult>,
    selected: nat,
    records: Seq<DayRecord>,
    span: int,
    dry_run: bool,
)
    requires
        is_backfill_outcome(r, selected, records, span, dry_run),
        selected > 0,
        forall|i: int| 0 <= i < records.len() ==> counts_as_created(#[trigger] records[i]),
    ensures
        r.success,
        r.data matches Some(d) && d.accounts_processed == selected && d.snapshots_created
            == selected * span && d.snapshots_skipped == 0,
{
    lemma_all_created(records);
}

/// A dry backfill reports what a live backfill reports.
///
/// Let a dry run and a live run work on the same accounts and decide the
/// same days alike. If the store adds every snapshot the live run hands to
/// it, the two runs have the same result: both fail for want of accounts,
/// or both report the same three counts.
pub proof fn lemma_dry_backfill_reports_alike(
    live_result: ServiceResult<BackfillResult>,
    dry_result: ServiceResult<BackfillResult>,
    selected: nat,
    live: Seq<DayRecord>,
    dry: Seq<DayRecord>,
    span: int,
)
    requires
        is_backfill_outcome(live_result, selected, live, span, false),
        is_backfill_outcome(dry_result, selected, dry, span, true),
        forall|i: int|
            0 <= i < live.len() ==> ((#[trigger] live[i]).decision is Skip <==> dry[i].decision
                is Skip),
        forall|i: int| 0 <= i < live.len() ==> !failed_to_write(#[trigger] live[i]),
    ensures
        live_result.success == dry_result.success,
        live_result.data == dry_result.data,
{
    lemma_dry_run_counts_alike(live, dry);
}

/// Sums a backfill up: fails with the message that no accounts were found
/// if and only if no account is selected, and else reports the number of
/// accounts, of days that count as created and of days that were skipped.
pub fn summarize(selected: usize, records: &Vec<DayRecord>) -> (r: ServiceResult<BackfillResult>)
    ensures
        is_summary(r, selected as nat, records@),
{
    if selected == 0 {
        return ServiceResult::fail("No accounts found".to_owned());
    }
    let mut created: usize = 0;
    let mut skipped: usize = 0;
    let mut i: usize = 0;
    assert(records@.take(0) =~= Seq::<DayRecord>::empty());
    while i < records.len()
        invariant
            i <= records@.len(),
            created == created_count(records@.take(i as int)),
            skipped == skipped_count(records@.take(i as int)),
            created + skipped <= i,
        decreases records@.len() - i,
    {
        proof {
            assert(records@.take(i + 1).drop_last() =~= records@.take(i as int));
            assert(records@.take(i + 1).last() == records@[i as int]);
        }
        match records[i].decision {
            DayDecision::Skip => {
                skipped += 1;
            },
            DayDecision::Create { write } => {
                if !write || records[i].added {
                    created += 1;
                }
            },
        }
        i += 1;
    }
    assert(records@.take(records@.len() as int) =~= records@);
    ServiceResult::ok(
        BackfillResult {
            accounts_processed: selected,
            snapshots_created: created,
            snapshots_skipped: skipped,
        },
    )
}

impl<R: Repository> BackfillService<R> {
    /// The store the service works on.
    pub closed spec fn store(&self) -> R {
        self.repository
    }

    /// The account service the service records balances through.
    pub closed spec fn accounts(&self) -> AccountService<R> {
        self.account_service
    }

    pub fn new(repository: R, account_service: AccountService<R>) -> (r: BackfillService<R>)
        ensures
            r.store() == repository,
            r.accounts() == account_service,
    {
        BackfillService { repository, account_service }
    }

    /// Fills in the balance history of the given accounts (or of all) for
    /// the days from `days` days ago to today.
    ///
    /// Whatever the store answers, the result is one of three: the failure
    /// of a clock that stands outside the calendar; the failure of a
    /// balance that cannot be held exactly; or the summary of one record
    /// per selected account and day of the range, which fails if and only
    /// if no account is selected.
    pub fn backfill_balances(&self, account_ids: Option<Vec<u128>>, days: i64, dry_run: bool) -> (r:
        ServiceResult<BackfillResult>)
        ensures
            r.is_failure("System clock out of range"@) || r.is_failure("Balance out of range"@)
                || exists|end_date: Date, selected: nat, records: Seq<DayRecord>|
                end_date.wf() && #[trigger] is_backfill_outcome(
                    r,
                    selected,
                    records,
                    covered_days(end_date, days),
                    dry_run,
                ),
            r.success ==> r.error is None && (r.data matches Some(d) && d.accounts_processed
                >= 1),
            !r.success ==> r.data is None,
    {
        let now = Timestamp::now();
        if !now.is_valid() {
            return ServiceResult::fail("System clock out of range".to_owned());
        }
        self.backfill_balances_until(account_ids, now.date(), days, dry_run)
    }

    /// As [`BackfillService::backfill_balances`], for a range that ends on
    /// the given day.
    ///
    /// Whatever the store answers, the result is the failure of a balance
    /// that cannot be held exactly, or the summary of one record per
    /// selected account and day of the range. So a success counts every
    /// day at most once, and a dry run counts every day exactly once. The
    /// days of an account are decided only where each of them has a
    /// balance ([`held_days`]).
    pub fn backfill_balances_until(
        &self,
        account_ids: Option<Vec<u128>>,
        end_date: Date,
        days: i64,
        dry_run: bool,
    ) -> (r: ServiceResult<BackfillResult>)
        requires
            end_date.wf(),
        ensures
            r.is_failure("Balance out of range"@) || exists|selected: nat, records: Seq<DayRecord>|
                #[trigger] is_backfill_outcome(
                    r,
                    selected,
                    records,
                    covered_days(end_date, days),
                    dry_run,
                ),
            r.success ==> r.error is None && (r.data matches Some(d) && d.accounts_processed >= 1
                && d.snapshots_created + d.snapshots_skipped <= d.accounts_processed
                * covered_days(end_date, days) && (dry_run ==> d.snapshots_created
                + d.snapshots_skipped == d.accounts_processed * covered_days(end_date, days))),
            !r.success ==> r.data is None,
    {
        let all = match self.repository.get_accounts().data {
            Some(v) => valid_accounts(&v),
            None => Vec::new(),
        };
        let accounts = select_accounts(&all, &account_ids);
        let ghost span = covered_days(end_date, days);
        let mut records: Vec<DayRecord> = Vec::new();
        let mut a: usize = 0;
        assert(0 * span == 0) by (nonlinear_arith);
        while a < accounts.len()
            invariant
                a <= accounts@.len(),
                end_date.wf(),
                span == covered_days(end_date, days),
                span >= 0,
                records@.len() == a * span,
                forall|i: int| 0 <= i < records@.len() ==> fits_run(#[trigger] records@[i], dry_run),
            decreases accounts@.len() - a,
        {
            let account = &accounts[a];
            let txs = match self.repository.get_transactions_by_account(account.id).data {
                Some(v) => valid_transactions(&v),
                None => Vec::new(),
            };
            let current: Amount = match account.balance {
                Some(b) => match Amount::new(b.mantissa, b.scale) {
                    Some(valid) => valid,
                    None => Amount::zero(),
                },
                None => Amount::zero(),
            };
            let plan = match held_days(&plan_days(current, &txs, end_date, days)) {
                Ok(held) => held,
                Err(reason) => {
                    return ServiceResult::fail(reason);
                },
            };
            let mut d: usize = 0;
            while d < plan.len()
                invariant
                    d <= plan@.len(),
                    plan@.len() == span,
                    records@.len() == a * span + d,
                    forall|i: int|
                        0 <= i < records@.len() ==> fits_run(#[trigger] records@[i], dry_run),
                    forall|i: int|
                        0 <= i < plan@.len() ==> (#[trigger] plan@[i]).0.wf() && plan@[i].1.wf(),
                decreases plan@.len() - d,
            {
                let day: Date = plan[d].0;
                let balance: Amount = plan[d].1;
                let day_text = day.to_iso();
                let existing = self.repository.get_balance_snapshots(
                    Some(account.id),
                    Some(day_text.as_str()),
                );
                let decision = decide_day(&existing.data, balance, dry_run);
                let added: bool = match decision {
                    DayDecision::Skip => false,
                    DayDecision::Create { write } => {
                        if write {
                            let snapshot = snapshot_for_day(account.id, balance, day);
                            self.repository.add_balance(&snapshot).success
                        } else {
                            false
                        }
                    },
                };
                records.push(DayRecord { decision, added });
                d += 1;
            }
            assert((a + 1) * span == a * span + span) by (nonlinear_arith);
            a += 1;
        }
        let r = summarize(accounts.len(), &records);
        proof {
            let selected = accounts@.len();
            lemma_counts_cover(records@);
            if dry_run {
                lemma_dry_run_counts_every_day(records@);
            }
            assert(is_backfill_outcome(r, selected, records@, span, dry_run));
        }
        r
    }
}

} // verus!
