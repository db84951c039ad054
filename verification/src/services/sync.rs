//! Synchronising the ledger with a source.
//!
//! One sync of one source runs in two halves. The first matches the
//! accounts the source reports to the stored ones and plans the time range
//! to ask for; the second reconciles the transactions the source reports
//! for that range. Reading from the source happens outside, between the
//! halves. A dry run computes and reports what a live run would, and
//! writes nothing.

use vstd::prelude::*;
use vstd::string::*;
use crate::calendar::{day_of_second, Date, Timestamp};
use crate::domain::{Account, AccountView, Integration, ServiceResult, Transaction, TransactionView};
use crate::infra::demo_provider::{
    are_demo_accounts,
    are_demo_transactions,
    demo_clock_ok,
    DemoDataProvider,
};
use crate::infra::simplefin::{
    FetchOutcome,
    SimpleFINAccountsResponse,
    SimpleFINProvider,
    SimpleFINTransactionsResponse,
};
use crate::string_map::StringMap;
use crate::matching::{
    account_views,
    match_accounts,
    merge_accounts,
    new_accounts,
    untyped_new_accounts,
};
use crate::reconcile::{
    account_id_map,
    id_mapping,
    lookup_keys,
    new_transactions,
    partition_new,
    pulled_views,
    reconcile_stats,
    resolve_all,
    resolve_transactions,
    transaction_views,
    TransactionStats,
};
use crate::repository::{valid_accounts, valid_pulled, Repository};
use crate::services::account::AccountService;
use crate::text::opt_text;
use crate::window::{
    calculate_sync_date_range,
    kind_label,
    planned_window,
    start_date_text,
    start_text,
    SyncWindow,
};

verus! {

/// What one sync of one source did.
#[derive(Clone, Debug)]
pub struct IntegrationSyncResult {
    pub integration: String,
    pub accounts_synced: usize,
    pub transactions_synced: usize,
    pub transaction_stats: Option<TransactionStats>,
    pub sync_type: String,
    pub start_date: Option<String>,
    pub provider_warnings: Vec<String>,
    pub error: Option<String>,
}

/// What a sync of all sources did.
#[derive(Debug)]
pub struct SyncResult {
    pub results: Vec<IntegrationSyncResult>,
    pub new_accounts_without_type: Vec<Account>,
}

/// What the first half of a sync decided about the accounts.
#[derive(Debug)]
pub struct AccountSyncPlan {
    /// One account per reported account, matched or new.
    pub merged: Vec<Account>,
    /// The new accounts that still lack a type.
    pub untyped_new: Vec<Account>,
    /// How many reported accounts were new.
    pub new_count: usize,
    /// The accounts to write to the store: all of `merged`, or none in a
    /// dry run.
    pub to_write: Vec<Account>,
}

/// What the second half of a sync decided about the transactions.
#[derive(Debug)]
pub struct TransactionSyncPlan {
    /// The transactions that are new to the store.
    pub to_insert: Vec<Transaction>,
    pub stats: TransactionStats,
    /// The transactions to write to the store: all of `to_insert`, or none
    /// in a dry run.
    pub to_write: Vec<Transaction>,
}

/// A sync between its halves: the accounts are matched, the range is
/// planned, the transactions are still to come.
#[derive(Debug)]
pub struct PendingSync {
    pub integration: String,
    pub merged: Vec<Account>,
    pub window: SyncWindow,
    pub warnings: Vec<String>,
}

/// The name under which every source keeps its identifiers in the external
/// ids of accounts and transactions.
pub open spec fn source_key() -> Seq<char> {
    "simplefin"@
}

/// The transactions a sync writes: the new ones, or none in a dry run.
pub open spec fn transactions_written(
    candidates: Seq<TransactionView>,
    existing: Seq<TransactionView>,
    source: Seq<char>,
    dry_run: bool,
) -> Seq<TransactionView> {
    if dry_run {
        Seq::empty()
    } else {
        new_transactions(candidates, existing, source)
    }
}

/// The accounts a sync writes: the merged ones, or none in a dry run.
pub open spec fn accounts_written(
    pulled: Seq<AccountView>,
    stored: Seq<AccountView>,
    source: Seq<char>,
    dry_run: bool,
) -> Seq<AccountView> {
    if dry_run {
        Seq::empty()
    } else {
        merge_accounts(pulled, stored, source)
    }
}

/// Whether `merged` and `untyped_new` are what matching the well-formed
/// ones of the reported accounts against the stored accounts yields.
pub open spec fn matched_against(
    reported: Seq<AccountView>,
    stored: Seq<AccountView>,
    merged: Seq<AccountView>,
    untyped_new: Seq<AccountView>,
) -> bool {
    let pulled = reported.filter(|a: AccountView| a.wf());
    &&& merged == merge_accounts(pulled, stored, source_key())
    &&& untyped_new == untyped_new_accounts(pulled, stored, source_key())
}

/// What a sync decides about the candidates of a pull: the counts, what
/// is new, and what is written.
pub struct TransactionPlanView {
    pub stats: TransactionStats,
    pub to_insert: Seq<TransactionView>,
    pub to_write: Seq<TransactionView>,
}

/// The decision of a sync about the candidates of a pull, given what the
/// store returned for their lookup keys.
pub open spec fn planned_transactions(
    candidates: Seq<TransactionView>,
    existing: Seq<TransactionView>,
    source: Seq<char>,
    dry_run: bool,
) -> TransactionPlanView {
    TransactionPlanView {
        stats: reconcile_stats(candidates, existing, source),
        to_insert: new_transactions(candidates, existing, source),
        to_write: transactions_written(candidates, existing, source, dry_run),
    }
}

/// The service that syncs the ledger with its sources.
pub struct SyncService<R: Repository> {
    repository: R,
    account_service: AccountService<R>,
}

/// Decides what to do with the accounts a source reported, given the
/// stored accounts.
///
/// The decision is the same in a dry run and in a live run, except that a
/// dry run writes nothing.
pub fn plan_accounts(pulled: &Vec<Account>, stored: &Vec<Account>, source: &str, dry_run: bool) -> (r:
    AccountSyncPlan)
    ensures
        account_views(r.merged@) == merge_accounts(
            account_views(pulled@),
            account_views(stored@),
            source@,
        ),
        account_views(r.untyped_new@) == untyped_new_accounts(
            account_views(pulled@),
            account_views(stored@),
            source@,
        ),
        r.new_count == new_accounts(account_views(pulled@), account_views(stored@), source@).len(),
        account_views(r.to_write@) == accounts_written(
            account_views(pulled@),
            account_views(stored@),
            source@,
            dry_run,
        ),
{
    let m = match_accounts(pulled, stored, source);
    let mut to_write: Vec<Account> = Vec::new();
    if !dry_run {
        let mut i: usize = 0;
        assert(account_views(to_write@) =~= account_views(m.merged@).take(0));
        while i < m.merged.len()
            invariant
                i <= m.merged@.len(),
                account_views(to_write@) == account_views(m.merged@).take(i as int),
            decreases m.merged@.len() - i,
        {
            let ghost before = account_views(to_write@);
            let a = m.merged[i].clone();
            to_write.push(a);
            assert(account_views(to_write@) =~= before.push(a@));
            assert(account_views(m.merged@).take(i + 1) =~= account_views(m.merged@).take(
                i as int,
            ).push(m.merged@[i as int]@));
            i += 1;
        }
        assert(account_views(m.merged@).take(m.merged@.len() as int) =~= account_views(m.merged@));
    } else {
        assert(account_views(to_write@) =~= Seq::<AccountView>::empty());
    }
    AccountSyncPlan { merged: m.merged, untyped_new: m.untyped_new, new_count: m.new_count, to_write }
}

/// Decides what to do with the candidates of a pull, given what the store
/// returned for their lookup keys.
///
/// The counts are the same in a dry run and in a live run; a dry run
/// writes nothing.
pub fn plan_transactions(
    candidates: &Vec<Transaction>,
    existing: &Vec<Transaction>,
    source: &str,
    dry_run: bool,
) -> (r: TransactionSyncPlan)
    ensures
        transaction_views(r.to_insert@) == new_transactions(
            transaction_views(candidates@),
            transaction_views(existing@),
            source@,
        ),
        r.stats == reconcile_stats(
            transaction_views(candidates@),
            transaction_views(existing@),
            source@,
        ),
        r.stats.discovered == candidates@.len(),
        r.stats.new == r.to_insert@.len(),
        r.stats.new + r.stats.skipped == r.stats.discovered,
        transaction_views(r.to_write@) == transactions_written(
            transaction_views(candidates@),
            transaction_views(existing@),
            source@,
            dry_run,
        ),
        (TransactionPlanView {
            stats: r.stats,
            to_insert: transaction_views(r.to_insert@),
            to_write: transaction_views(r.to_write@),
        }) == planned_transactions(
            transaction_views(candidates@),
            transaction_views(existing@),
            source@,
            dry_run,
        ),
{
    let outcome = partition_new(candidates, existing, source);
    let mut to_write: Vec<Transaction> = Vec::new();
    if !dry_run {
        let mut i: usize = 0;
        assert(transaction_views(to_write@) =~= transaction_views(outcome.to_insert@).take(0));
        while i < outcome.to_insert.len()
            invariant
                i <= outcome.to_insert@.len(),
                transaction_views(to_write@) == transaction_views(outcome.to_insert@).take(
                    i as int,
                ),
            decreases outcome.to_insert@.len() - i,
        {
            let ghost before = transaction_views(to_write@);
            let t = outcome.to_insert[i].clone();
            to_write.push(t);
            assert(transaction_views(to_write@) =~= before.push(t@));
            assert(transaction_views(outcome.to_insert@).take(i + 1) =~= transaction_views(
                outcome.to_insert@,
            ).take(i as int).push(outcome.to_insert@[i as int]@));
            i += 1;
        }
        assert(transaction_views(outcome.to_insert@).take(outcome.to_insert@.len() as int)
            =~= transaction_views(outcome.to_insert@));
    } else {
        assert(transaction_views(to_write@) =~= Seq::<TransactionView>::empty());
    }
    TransactionSyncPlan { to_insert: outcome.to_insert, stats: outcome.stats, to_write }
}

/// A dry run and a live run report the same counts.
///
/// Given the same candidates and the same answer of the store, a dry run
/// and a live run count the same transactions as discovered, new and
/// skipped, and find the same transactions to be new. They differ in what
/// they write: a live run writes what is new, a dry run writes nothing, of
/// transactions and of accounts.
pub proof fn lemma_dry_run_equivalence(
    candidates: Seq<TransactionView>,
    existing: Seq<TransactionView>,
    pulled: Seq<AccountView>,
    stored: Seq<AccountView>,
    source: Seq<char>,
)
    ensures
        planned_transactions(candidates, existing, source, true).stats == planned_transactions(
            candidates,
            existing,
            source,
            false,
        ).stats,
        planned_transactions(candidates, existing, source, true).to_insert
            == planned_transactions(candidates, existing, source, false).to_insert,
        planned_transactions(candidates, existing, source, true).to_write.len() == 0,
        planned_transactions(candidates, existing, source, false).to_write
            == planned_transactions(candidates, existing, source, false).to_insert,
        accounts_written(pulled, stored, source, true).len() == 0,
        accounts_written(pulled, stored, source, false) == merge_accounts(pulled, stored, source),
{
}

/// Whether a report is the report of a source whose accounts could not be
/// read: nothing was synced, the kind of the sync is unknown, and the error
/// is the one given.
pub open spec fn is_accounts_failure(
    report: IntegrationSyncResult,
    name: Seq<char>,
    error: Option<String>,
) -> bool {
    &&& report.integration@ == name
    &&& report.accounts_synced == 0
    &&& report.transactions_synced == 0
    &&& report.transaction_stats is None
    &&& report.sync_type@ == "unknown"@
    &&& report.start_date is None
    &&& report.provider_warnings@.len() == 0
    &&& report.error == error
}

/// Whether a report is the report of a source whose accounts were matched
/// and whose transactions could not be read.
pub open spec fn is_transactions_failure(
    report: IntegrationSyncResult,
    pending: PendingSync,
    error: Option<String>,
) -> bool {
    &&& report.integration == pending.integration
    &&& report.accounts_synced == pending.merged@.len()
    &&& report.transactions_synced == 0
    &&& report.transaction_stats is None
    &&& report.sync_type@ == kind_label(pending.window.sync_type)
    &&& opt_text(report.start_date) == start_text(pending.window)
    &&& report.provider_warnings == pending.warnings
    &&& report.error == error
}

/// The candidates of a pull for a pending sync: the well-formed
/// transactions of the pull, resolved against the accounts the sync
/// matched.
pub open spec fn candidates_of(pending: PendingSync, pulled: Seq<(String, Transaction)>) -> Seq<
    TransactionView,
> {
    resolve_all(
        pulled_views(valid_pulled_spec(pulled)),
        id_mapping(account_views(pending.merged@), source_key()),
    )
}

/// Whether a report is the report of a source whose transactions were
/// reconciled: it has no error, carries the warnings of both halves, and
/// counts the candidates of the pull against some answer of the store.
pub open spec fn is_transactions_report(
    report: IntegrationSyncResult,
    pending: PendingSync,
    pulled: Seq<(String, Transaction)>,
    warnings: Seq<String>,
) -> bool {
    &&& report.integration == pending.integration
    &&& report.accounts_synced == pending.merged@.len()
    &&& report.error is None
    &&& report.provider_warnings@ == pending.warnings@ + warnings
    &&& report.sync_type@ == kind_label(pending.window.sync_type)
    &&& opt_text(report.start_date) == start_text(pending.window)
    &&& report.transaction_stats matches Some(stats)
    &&& stats.new + stats.skipped == stats.discovered
    &&& stats.new == report.transactions_synced
    &&& stats.discovered == candidates_of(pending, pulled).len()
    &&& exists|existing: Seq<TransactionView>|
        stats == #[trigger] reconcile_stats(candidates_of(pending, pulled), existing, source_key())
}

/// Whether a pending sync, with the new accounts that lack a type, is what
/// the first half of a sync yields for the accounts a source reported: the
/// accounts are matched against some answer of the store, and the range is
/// planned at the instant `now`.
pub open spec fn is_pending_of(
    pending: PendingSync,
    untyped_new: Seq<Account>,
    name: Seq<char>,
    accounts: Seq<Account>,
    warnings: Seq<String>,
    now: Timestamp,
) -> bool {
    &&& pending.integration@ == name
    &&& pending.warnings@ == warnings
    &&& pending.window.end == now
    &&& exists|latest: Option<Date>|
        pending.window == #[trigger] planned_window(latest, now)
    &&& pending.merged@.len() <= accounts.len()
    &&& untyped_new.len() <= accounts.len()
    &&& exists|stored: Seq<AccountView>| #[trigger]
        matched_against(
            account_views(accounts),
            stored,
            account_views(pending.merged@),
            account_views(untyped_new),
        )
}

/// The day of an instant, as the demo source dates its transactions.
pub open spec fn demo_today(now: Timestamp) -> Date {
    Date { days: day_of_second(now.secs as int) as i32 }
}

/// Whether a report is what the two halves of a sync yield for the demo
/// source at the instant `now`, the first half having left `pending`: the
/// pending sync is what the first half yields for the demo accounts; and
/// the report is that of the demo transactions reconciled, or, where the
/// demo transactions cannot be dated from the instant, that of a source
/// whose transactions could not be read.
pub open spec fn is_demo_outcome(
    report: IntegrationSyncResult,
    pending: PendingSync,
    name: Seq<char>,
    now: Timestamp,
) -> bool {
    &&& exists|accounts: Seq<Account>, untyped_new: Seq<Account>|
        are_demo_accounts(accounts) && #[trigger] is_pending_of(
            pending,
            untyped_new,
            name,
            accounts,
            Seq::empty(),
            now,
        )
    &&& if demo_clock_ok(now) {
        exists|pulled: Seq<(String, Transaction)>|
            are_demo_transactions(pulled, demo_today(now)) && #[trigger] is_transactions_report(
                report,
                pending,
                pulled,
                Seq::empty(),
            )
    } else {
        exists|error: Option<String>|
            opt_text(error) == Some("System clock out of range"@)
                && #[trigger] is_transactions_failure(report, pending, error)
    }
}

/// Whether a report is the report of a sync of the demo source at the
/// instant `now`: what the two halves of a sync yield for the demo
/// accounts and the demo transactions. So either the sync ran to its end
/// and counts at most the eighteen demo transactions, or the demo
/// transactions could not be dated.
pub open spec fn is_demo_report(
    report: IntegrationSyncResult,
    name: Seq<char>,
    now: Timestamp,
) -> bool {
    &&& exists|pending: PendingSync| #[trigger] is_demo_outcome(report, pending, name, now)
    &&& report.integration@ == name
    &&& report.accounts_synced <= 3
    &&& (report.sync_type@ == "initial"@ || report.sync_type@ == "incremental"@)
    &&& report.provider_warnings@.len() == 0
    &&& match report.error {
        None => {
            &&& demo_clock_ok(now)
            &&& report.transaction_stats matches Some(stats)
            &&& stats.new + stats.skipped == stats.discovered
            &&& stats.new == report.transactions_synced
            &&& stats.discovered <= 18
        },
        Some(reason) => {
            &&& !demo_clock_ok(now)
            &&& reason@ == "System clock out of range"@
            &&& report.transaction_stats is None
            &&& report.transactions_synced == 0
        },
    }
}

/// The report of a sync whose accounts could not be read.
pub fn accounts_failed(integration: String, error: Option<String>) -> (r: IntegrationSyncResult)
    ensures
        r.integration == integration,
        r.accounts_synced == 0,
        r.transactions_synced == 0,
        r.transaction_stats is None,
        r.sync_type@ == "unknown"@,
        r.start_date is None,
        r.provider_warnings@.len() == 0,
        r.error == error,
        is_accounts_failure(r, integration@, error),
{
    IntegrationSyncResult {
        integration,
        accounts_synced: 0,
        transactions_synced: 0,
        transaction_stats: None,
        sync_type: "unknown".to_owned(),
        start_date: None,
        provider_warnings: Vec::new(),
        error,
    }
}

/// The report of a sync whose transactions could not be read.
pub fn transactions_failed(pending: PendingSync, error: Option<String>) -> (r:
    IntegrationSyncResult)
    ensures
        r.integration == pending.integration,
        r.accounts_synced == pending.merged@.len(),
        r.transactions_synced == 0,
        r.transaction_stats is None,
        r.sync_type@ == kind_label(pending.window.sync_type),
        opt_text(r.start_date) == start_text(pending.window),
        r.provider_warnings == pending.warnings,
        r.error == error,
        is_transactions_failure(r, pending, error),
{
    let start_date = start_date_text(&pending.window);
    IntegrationSyncResult {
        integration: pending.integration,
        accounts_synced: pending.merged.len(),
        transactions_synced: 0,
        transaction_stats: None,
        sync_type: pending.window.sync_type.label(),
        start_date,
        provider_warnings: pending.warnings,
        error,
    }
}

/// The report of a sync that ran to its end.
pub fn completed(
    pending: PendingSync,
    plan: &TransactionSyncPlan,
    transaction_warnings: Vec<String>,
) -> (r: IntegrationSyncResult)
    ensures
        r.integration == pending.integration,
        r.accounts_synced == pending.merged@.len(),
        r.transactions_synced == plan.to_insert@.len(),
        r.transaction_stats == Some(plan.stats),
        r.sync_type@ == kind_label(pending.window.sync_type),
        opt_text(r.start_date) == start_text(pending.window),
        r.provider_warnings@ == pending.warnings@ + transaction_warnings@,
        r.error is None,
{
    let start_date = start_date_text(&pending.window);
    let mut warnings = pending.warnings;
    let mut more = transaction_warnings;
    warnings.append(&mut more);
    IntegrationSyncResult {
        integration: pending.integration,
        accounts_synced: pending.merged.len(),
        transactions_synced: plan.to_insert.len(),
        transaction_stats: Some(plan.stats),
        sync_type: pending.window.sync_type.label(),
        start_date,
        provider_warnings: warnings,
        error: None,
    }
}

/// The text in the first cell of the first row of a query's answer, if
/// the answer has such a cell and it holds a text.
pub open spec fn first_text(answer: ServiceResult<crate::repository::QueryResult>) -> Option<
    Seq<char>,
> {
    match answer.data {
        Some(q) => if q.rows@.len() > 0 && q.rows@[0]@.len() > 0 {
            match q.rows@[0]@[0] {
                crate::repository::QueryValue::Text(t) => Some(t@),
                _ => None,
            }
        } else {
            None
        },
        None => None,
    }
}

/// The latest transaction date in the answer to the query for it: the text
/// in the first cell of the first row, if there is one.
pub fn latest_date_text(answer: &ServiceResult<crate::repository::QueryResult>) -> (r: Option<
    String,
>)
    ensures
        opt_text(r) == first_text(*answer),
{
    match &answer.data {
        Some(q) => match q.first_row_cell(0) {
            Some(cell) => match cell.as_str() {
                Some(s) => Some(s.clone()),
                None => None,
            },
            None => None,
        },
        None => None,
    }
}

impl<R: Repository> SyncService<R> {
    /// The store the service works on.
    pub closed spec fn store(&self) -> R {
        self.repository
    }

    /// The account service the service records balances through.
    pub closed spec fn accounts(&self) -> AccountService<R> {
        self.account_service
    }

    pub fn new(repository: R, account_service: AccountService<R>) -> (r: SyncService<R>)
        ensures
            r.store() == repository,
            r.accounts() == account_service,
    {
        SyncService { repository, account_service }
    }

    /// Plans the range of the next sync from the latest transaction date
    /// the store knows.
    pub fn calculate_sync_date_range(&self, now: Timestamp) -> (w: SyncWindow)
        requires
            now.wf(),
        ensures
            w.end == now,
            exists|latest: Option<Date>| w == planned_window(latest, now),
    {
        let answer = self.repository.execute_query(
            "SELECT MAX(transaction_date) as max_date FROM transactions",
        );
        let latest = latest_date_text(&answer);
        calculate_sync_date_range(&latest, now)
    }

    /// The first half of a sync: matches the accounts a source reported,
    /// writes them unless the run is dry, and plans the range to ask
    /// transactions for. Hands back the pending sync and the new accounts
    /// that lack a type.
    pub fn sync_accounts(
        &self,
        integration: String,
        accounts: &Vec<Account>,
        warnings: Vec<String>,
        dry_run: bool,
        now: Timestamp,
    ) -> (r: (PendingSync, Vec<Account>))
        requires
            now.wf(),
        ensures
            r.0.integration == integration,
            r.0.warnings == warnings,
            r.0.window.end == now,
            exists|latest: Option<Date>|
                r.0.window == planned_window(latest, now),
            r.0.merged@.len() <= accounts@.len(),
            r.1@.len() <= accounts@.len(),
            exists|stored: Seq<AccountView>| #[trigger]
                matched_against(
                    account_views(accounts@),
                    stored,
                    account_views(r.0.merged@),
                    account_views(r.1@),
                ),
            is_pending_of(r.0, r.1@, integration@, accounts@, warnings@, now),
    {
        let pulled = valid_accounts(accounts);
        let stored = match self.repository.get_accounts().data {
            Some(v) => valid_accounts(&v),
            None => Vec::new(),
        };
        let plan = plan_accounts(&pulled, &stored, "simplefin", dry_run);
        proof {
            let pv = account_views(pulled@);
            let sv = account_views(stored@);
            let p = |a: AccountView|
                crate::matching::is_new_account(a, sv, "simplefin"@) && a.account_type is None;
            pv.lemma_filter_len(p);
            assert(account_views(plan.untyped_new@).len() == plan.untyped_new@.len());
            assert(account_views(plan.merged@).len() == plan.merged@.len());
        }
        if plan.to_write.len() > 0 {
            let _ = self.repository.bulk_upsert_accounts(&plan.to_write);
            let mut i: usize = 0;
            proof {
                let pv = account_views(pulled@);
                let sv = account_views(stored@);
                let wv = account_views(plan.to_write@);
                assert(wv.len() == plan.to_write@.len());
                assert(!dry_run);
                assert forall|k: int| 0 <= k < plan.to_write@.len() implies (
                #[trigger] plan.to_write@[k]).wf() by {
                    assert(wv[k] == plan.to_write@[k]@);
                    assert(wv[k] == crate::matching::merge_account(pv[k], sv, "simplefin"@));
                    assert(pv[k] == pulled@[k]@);
                    assert(pulled@[k].wf());
                }
            }
            while i < plan.to_write.len()
                invariant
                    i <= plan.to_write@.len(),
                    forall|k: int| 0 <= k < plan.to_write@.len() ==> (#[trigger] plan.to_write@[k]).wf(),
                decreases plan.to_write@.len() - i,
            {
                match plan.to_write[i].balance {
                    Some(balance) => {
                        let _ = self.account_service.add_balance_snapshot(
                            plan.to_write[i].id,
                            balance,
                            None,
                        );
                    },
                    None => {},
                }
                i += 1;
            }
        }
        let window = self.calculate_sync_date_range(now);
        let ghost latest = choose|latest: Option<Date>|
            window == planned_window(latest, now);
        assert(window == planned_window(latest, now));
        let ghost witness = account_views(stored@);
        let result = (
            PendingSync { integration, merged: plan.merged, window, warnings },
            plan.untyped_new,
        );
        assert(matched_against(
            account_views(accounts@),
            witness,
            account_views(result.0.merged@),
            account_views(result.1@),
        ));
        result
    }

    /// The second half of a sync: reconciles the transactions a source
    /// reported with the store, writes the new ones unless the run is dry,
    /// and reports.
    pub fn sync_transactions(
        &self,
        pending: PendingSync,
        pulled: &Vec<(String, Transaction)>,
        warnings: Vec<String>,
        dry_run: bool,
    ) -> (r: IntegrationSyncResult)
        ensures
            is_transactions_report(r, pending, pulled@, warnings@),
    {
        let ids = account_id_map(&pending.merged, "simplefin");
        let sound = valid_pulled(pulled);
        let candidates = resolve_transactions(&sound, &ids);
        let keys = lookup_keys(&candidates, "simplefin");
        let existing = if keys.len() > 0 {
            match self.repository.get_transactions_by_external_ids(&keys).data {
                Some(v) => v,
                None => Vec::new(),
            }
        } else {
            Vec::new()
        };
        let plan = plan_transactions(&candidates, &existing, "simplefin", dry_run);
        if plan.to_write.len() > 0 {
            let _ = self.repository.bulk_upsert_transactions(&plan.to_write);
        }
        proof {
            assert(transaction_views(candidates@).len() == candidates@.len());
            lemma_filter_views_commute(pulled@);
            assert(plan.stats == reconcile_stats(
                candidates_of(pending, pulled@),
                transaction_views(existing@),
                source_key(),
            ));
        }
        completed(pending, &plan, warnings)
    }
}

/// The well-formed pairs of a pull.
pub open spec fn valid_pulled_spec(pulled: Seq<(String, Transaction)>) -> Seq<
    (String, Transaction),
> {
    pulled.filter(|p: (String, Transaction)| p.1.wf())
}

/// Filtering a pull and viewing it can be done in either order.
pub proof fn lemma_filter_views_commute(pulled: Seq<(String, Transaction)>)
    ensures
        pulled_views(valid_pulled_spec(pulled)) == pulled_views(pulled).filter(
            |p: (Seq<char>, TransactionView)| p.1.wf(),
        ),
    decreases pulled.len(),
{
    let f = |p: (String, Transaction)| p.1.wf();
    let g = |p: (Seq<char>, TransactionView)| p.1.wf();
    reveal(Seq::filter);
    if pulled.len() > 0 {
        let rest = pulled.drop_last();
        lemma_filter_views_commute(rest);
        assert(pulled_views(pulled).drop_last() =~= pulled_views(rest));
        assert(pulled_views(pulled).last() == (pulled.last().0@, pulled.last().1@));
        if f(pulled.last()) {
            assert(pulled_views(rest.filter(f).push(pulled.last())) =~= pulled_views(
                rest.filter(f),
            ).push((pulled.last().0@, pulled.last().1@)));
        }
    } else {
        assert(pulled_views(pulled) =~= Seq::<(Seq<char>, TransactionView)>::empty());
        assert(pulled_views(valid_pulled_spec(pulled)) =~= Seq::<
            (Seq<char>, TransactionView),
        >::empty());
    }
}

/// A sync of all configured sources, under way: some sources are done, one
/// is being worked on.
#[derive(Debug)]
pub struct SyncRun {
    integrations: Vec<Integration>,
    position: usize,
    pending: Option<PendingSync>,
    results: Vec<IntegrationSyncResult>,
    new_accounts: Vec<Account>,
    dry_run: bool,
    now: Timestamp,
}

/// Where a sync of all sources stands: what it needs next from the
/// outside, or its result.
#[derive(Debug)]
pub enum SyncProgress {
    /// The accounts of the current source are to be read.
    NeedAccounts(SyncRun),
    /// The transactions of the current source are to be read, for the
    /// planned range.
    NeedTransactions(SyncRun),
    /// All sources are done.
    Finished(ServiceResult<SyncResult>),
}

/// The setup token among the options of a setup, or the empty text where
/// there is none.
pub open spec fn setup_token(options: Map<Seq<char>, Seq<char>>) -> Seq<char> {
    if options.contains_key("setupToken"@) {
        options["setupToken"@]
    } else {
        Seq::empty()
    }
}

/// Where setting up a source stands.
#[derive(Debug)]
pub enum SetupProgress {
    /// The access address is to be claimed at the given address.
    NeedClaim { claim_url: String },
    /// The setup is over.
    Finished(ServiceResult<()>),
}

impl SyncRun {
    /// Well-formedness: a source is being worked on, and every source
    /// before it has its report.
    pub closed spec fn wf(&self) -> bool {
        &&& self.position < self.integrations@.len()
        &&& self.results@.len() == self.position
        &&& self.now.wf()
    }

    /// The sources the sync covers, in their order.
    pub closed spec fn sources(&self) -> Seq<Integration> {
        self.integrations@
    }

    /// The reports of the sources that are done, in the order of the
    /// sources.
    pub closed spec fn reports(&self) -> Seq<IntegrationSyncResult> {
        self.results@
    }

    /// The new accounts without a type that the sync has met so far.
    pub closed spec fn new_accounts(&self) -> Seq<Account> {
        self.new_accounts@
    }

    /// The matched accounts and the planned range of the current source,
    /// once its accounts are read.
    pub closed spec fn pending(&self) -> Option<PendingSync> {
        self.pending
    }

    /// The instant the sync was started at.
    pub closed spec fn instant(&self) -> Timestamp {
        self.now
    }

    /// How many sources the sync covers.
    pub open spec fn total(&self) -> nat {
        self.sources().len()
    }

    /// How many sources are done.
    pub closed spec fn finished(&self) -> nat {
        self.position as nat
    }

    /// Whether the accounts of the current source are matched and its
    /// transactions awaited.
    pub open spec fn awaits_transactions(&self) -> bool {
        self.pending() is Some
    }

    /// The name of the current source.
    pub open spec fn current_name(&self) -> Seq<char> {
        self.sources()[self.finished() as int].integration_name@
    }

    /// The settings of the current source.
    pub open spec fn current_options(&self) -> Map<Seq<char>, Seq<char>> {
        self.sources()[self.finished() as int].integration_options@
    }

    /// The name of the source being worked on.
    pub fn integration(&self) -> (r: String)
        requires
            self.wf(),
        ensures
            r@ == self.current_name(),
    {
        self.integrations[self.position].integration_name.clone()
    }

    /// The access address of the source being worked on, or the empty
    /// text where the source has none.
    pub fn access_url(&self) -> (r: String)
        requires
            self.wf(),
        ensures
            r@ == if self.current_options().contains_key("accessUrl"@) {
                self.current_options()["accessUrl"@]
            } else {
                Seq::<char>::empty()
            },
    {
        match self.integrations[self.position].integration_options.get("accessUrl") {
            Some(url) => url.clone(),
            None => String::new(),
        }
    }

    /// The range to ask transactions for, once the accounts are matched.
    pub fn window(&self) -> (r: Option<SyncWindow>)
        ensures
            r == match self.pending() {
                Some(p) => Some(p.window),
                None => None,
            },
    {
        match &self.pending {
            Some(p) => Some(p.window),
            None => None,
        }
    }

    /// Whether the sync writes nothing.
    pub closed spec fn dry(&self) -> bool {
        self.dry_run
    }

    /// Whether the sync is a dry run.
    pub fn is_dry_run(&self) -> (r: bool)
        ensures
            r == self.dry(),
    {
        self.dry_run
    }
}

/// The position of the first source at or after `from` that is not the
/// demo source, or the number of sources where there is none.
pub open spec fn next_source(sources: Seq<Integration>, from: int) -> int
    decreases sources.len() - from,
{
    if from < 0 || from >= sources.len() {
        sources.len() as int
    } else if sources[from].integration_name@ != "demo"@ {
        from
    } else {
        next_source(sources, from + 1)
    }
}

/// The reports a sync has made so far: those of the sync under way, or
/// those of its result.
pub open spec fn reports_of(progress: SyncProgress) -> Seq<IntegrationSyncResult> {
    match progress {
        SyncProgress::NeedAccounts(run) => run.reports(),
        SyncProgress::NeedTransactions(run) => run.reports(),
        SyncProgress::Finished(result) => match result.data {
            Some(d) => d.results@,
            None => Seq::empty(),
        },
    }
}

/// The new accounts without a type that a sync has met so far.
pub open spec fn new_accounts_of(progress: SyncProgress) -> Seq<Account> {
    match progress {
        SyncProgress::NeedAccounts(run) => run.new_accounts(),
        SyncProgress::NeedTransactions(run) => run.new_accounts(),
        SyncProgress::Finished(result) => match result.data {
            Some(d) => d.new_accounts_without_type@,
            None => Seq::empty(),
        },
    }
}

/// Whether the progress is where a sync over `sources` stands after it was
/// worked on from `position`, as far as nothing was needed from the
/// outside.
///
/// Every demo source from `position` up to the next other source has its
/// demo report. If there is another source, the sync waits for its
/// accounts; if there is none, the sync has ended well, with one report
/// for every source.
pub open spec fn advanced_from(
    progress: SyncProgress,
    sources: Seq<Integration>,
    position: int,
    dry_run: bool,
    now: Timestamp,
) -> bool {
    let next = next_source(sources, position);
    &&& reports_of(progress).len() == next
    &&& forall|i: int|
        position <= i < next ==> is_demo_report(
            #[trigger] reports_of(progress)[i],
            sources[i].integration_name@,
            now,
        )
    &&& match progress {
        SyncProgress::NeedAccounts(run) => {
            &&& next < sources.len()
            &&& run.wf()
            &&& !run.awaits_transactions()
            &&& run.sources() == sources
            &&& run.finished() == next
            &&& run.dry() == dry_run
            &&& run.instant() == now
        },
        SyncProgress::NeedTransactions(run) => false,
        SyncProgress::Finished(result) => {
            &&& next == sources.len()
            &&& result.success
            &&& result.error is None
            &&& result.data is Some
        },
    }
}

/// Whether the progress is where a sync over `sources` stands when it is
/// started: it has failed if and only if there is no source, and else it
/// was worked on from the first source.
pub open spec fn started_with(
    progress: SyncProgress,
    sources: Seq<Integration>,
    dry_run: bool,
    now: Timestamp,
) -> bool {
    if sources.len() == 0 {
        progress matches SyncProgress::Finished(result) && result.is_failure(
            "No integrations configured"@,
        )
    } else {
        advanced_from(progress, sources, 0, dry_run, now)
    }
}

/// Whether a source is the demo source.
pub fn is_demo(name: &String) -> (r: bool)
    ensures
        r == (name@ == "demo"@),
{
    *name == "demo".to_owned()
}

impl<R: Repository> SyncService<R> {
    /// Syncs the demo source, both halves at once: it needs nothing from
    /// the outside. The demo accounts are matched and written as those of
    /// any source are, and the demo transactions, dated from the instant
    /// `now`, are reconciled against them.
    pub fn sync_demo(&self, integration: String, dry_run: bool, now: Timestamp) -> (r: (
        IntegrationSyncResult,
        Vec<Account>,
    ))
        requires
            now.wf(),
        ensures
            is_demo_report(r.0, integration@, now),
    {
        let demo = DemoDataProvider::new();
        let accounts = demo.get_accounts();
        let data = match accounts.data {
            Some(d) => d,
            None => {
                return (accounts_failed(integration, accounts.error), Vec::new());
            },
        };
        let ghost name = integration@;
        let ghost demo_accounts = data.accounts@;
        assert(data.errors@ =~= Seq::<String>::empty());
        let (pending, untyped) = self.sync_accounts(
            integration,
            &data.accounts,
            data.errors,
            dry_run,
            now,
        );
        proof {
            assert(pending.warnings@.len() == 0);
            assert(pending.merged@.len() <= 3);
            assert(is_pending_of(pending, untyped@, name, demo_accounts, Seq::empty(), now));
        }
        let transactions = demo.get_transactions_at(now);
        match transactions.data {
            Some(t) => {
                let ghost pulled = t.transactions@;
                proof {
                    let sound = valid_pulled_spec(pulled);
                    pulled.lemma_filter_len(|p: (String, Transaction)| p.1.wf());
                    crate::reconcile::lemma_candidates_are_no_more(
                        pulled_views(sound),
                        id_mapping(account_views(pending.merged@), source_key()),
                    );
                    assert(pulled_views(sound).len() == sound.len());
                    assert(candidates_of(pending, pulled).len() <= 18);
                    assert(t.errors@ =~= Seq::<String>::empty());
                }
                let report = self.sync_transactions(pending, &t.transactions, t.errors, dry_run);
                proof {
                    assert(is_transactions_report(report, pending, pulled, Seq::empty()));
                    assert(is_demo_outcome(report, pending, name, now));
                }
                (report, untyped)
            },
            None => {
                let report = transactions_failed(pending, transactions.error);
                proof {
                    assert(is_transactions_failure(report, pending, transactions.error));
                    assert(is_demo_outcome(report, pending, name, now));
                }
                (report, untyped)
            },
        }
    }

    /// Works through the sources from `position` on, as far as nothing is
    /// needed from the outside: every demo source is synced at once, and
    /// the first other source stops the work, for its accounts to be read.
    fn advance(
        &self,
        integrations: Vec<Integration>,
        position: usize,
        results: Vec<IntegrationSyncResult>,
        new_accounts: Vec<Account>,
        dry_run: bool,
        now: Timestamp,
    ) -> (r: SyncProgress)
        requires
            position <= integrations@.len(),
            results@.len() == position,
            now.wf(),
        ensures
            advanced_from(r, integrations@, position as int, dry_run, now),
            results@.is_prefix_of(reports_of(r)),
            new_accounts@.is_prefix_of(new_accounts_of(r)),
    {
        let mut at: usize = position;
        let mut reports = results;
        let mut fresh = new_accounts;
        while at < integrations.len()
            invariant
                position <= at <= integrations@.len(),
                reports@.len() == at,
                now.wf(),
                results@.is_prefix_of(reports@),
                new_accounts@.is_prefix_of(fresh@),
                next_source(integrations@, position as int) == next_source(
                    integrations@,
                    at as int,
                ),
                forall|i: int|
                    position <= i < at ==> is_demo_report(
                        #[trigger] reports@[i],
                        integrations@[i].integration_name@,
                        now,
                    ),
            decreases integrations@.len() - at,
        {
            if is_demo(&integrations[at].integration_name) {
                let (report, mut untyped) = self.sync_demo(
                    integrations[at].integration_name.clone(),
                    dry_run,
                    now,
                );
                reports.push(report);
                fresh.append(&mut untyped);
                at += 1;
            } else {
                return SyncProgress::NeedAccounts(
                    SyncRun {
                        integrations,
                        position: at,
                        pending: None,
                        results: reports,
                        new_accounts: fresh,
                        dry_run,
                        now,
                    },
                );
            }
        }
        SyncProgress::Finished(
            ServiceResult::ok(SyncResult { results: reports, new_accounts_without_type: fresh }),
        )
    }

    /// Starts a sync of the given sources.
    ///
    /// The sync fails, with the message that no source is configured, if
    /// and only if the list is empty. Else the sources are worked through
    /// in their order: the demo sources are synced at once, and the first
    /// other source stops the work, for its accounts to be read.
    pub fn sync_integrations(&self, integrations: Vec<Integration>, dry_run: bool, now: Timestamp) -> (r:
        SyncProgress)
        requires
            now.wf(),
        ensures
            started_with(r, integrations@, dry_run, now),
    {
        if integrations.len() == 0 {
            return SyncProgress::Finished(
                ServiceResult::fail("No integrations configured".to_owned()),
            );
        }
        self.advance(integrations, 0, Vec::new(), Vec::new(), dry_run, now)
    }

    /// Starts a sync of all configured sources.
    ///
    /// The store is asked for the configured sources; an answer without
    /// sources counts as the empty list. The sources are worked through
    /// one after the other, as [`SyncService::sync_integrations`] says.
    /// Whenever a source has to be read, the progress says so; the caller
    /// reads and hands the answer to [`SyncService::accounts_fetched`] or
    /// [`SyncService::transactions_fetched`]. A source that fails gets a
    /// report of its failure, and the sync goes on with the next. The sync
    /// fails as a whole only where no source is configured.
    pub fn sync_all_integrations(&self, dry_run: bool, now: Timestamp) -> (r: SyncProgress)
        requires
            now.wf(),
        ensures
            exists|sources: Seq<Integration>| #[trigger] started_with(r, sources, dry_run, now),
    {
        let integrations = match self.repository.list_integrations().data {
            Some(v) => v,
            None => Vec::new(),
        };
        let ghost sources = integrations@;
        let r = self.sync_integrations(integrations, dry_run, now);
        assert(started_with(r, sources, dry_run, now));
        r
    }

    /// Goes on with a sync after the accounts of the current source were
    /// read, or could not be.
    ///
    /// Where they were read, they are matched and written, and the sync
    /// waits for the source's transactions: the pending sync holds what
    /// the first half of a sync yields for them. Where they could not be
    /// read, the source gets the report of that failure, with the error of
    /// the fetch, and the sync moves on to the next source. The reports
    /// made before stay as they were.
    pub fn accounts_fetched(
        &self,
        run: SyncRun,
        fetched: ServiceResult<SimpleFINAccountsResponse>,
    ) -> (r: SyncProgress)
        requires
            run.wf(),
            !run.awaits_transactions(),
        ensures
            run.reports().is_prefix_of(reports_of(r)),
            run.new_accounts().is_prefix_of(new_accounts_of(r)),
            match (fetched.success, fetched.data) {
                (true, Some(data)) => {
                    &&& r matches SyncProgress::NeedTransactions(next)
                    &&& next.wf()
                    &&& next.sources() == run.sources()
                    &&& next.finished() == run.finished()
                    &&& next.reports() == run.reports()
                    &&& next.dry() == run.dry()
                    &&& next.instant() == run.instant()
                    &&& next.pending() matches Some(pending)
                    &&& is_pending_of(
                        pending,
                        next.new_accounts().skip(run.new_accounts().len() as int),
                        run.current_name(),
                        data.accounts@,
                        data.errors@,
                        run.instant(),
                    )
                },
                _ => {
                    &&& reports_of(r).len() > run.finished()
                    &&& is_accounts_failure(
                        reports_of(r)[run.finished() as int],
                        run.current_name(),
                        fetched.error,
                    )
                    &&& advanced_from(
                        r,
                        run.sources(),
                        run.finished() as int + 1,
                        run.dry(),
                        run.instant(),
                    )
                },
            },
    {
        let name = run.integration();
        let ghost before = run.new_accounts@;
        let answer = if fetched.success {
            fetched.data
        } else {
            None
        };
        match answer {
            Some(data) => {
                let (pending, mut untyped) = self.sync_accounts(
                    name,
                    &data.accounts,
                    data.errors,
                    run.dry_run,
                    run.now,
                );
                let ghost added = untyped@;
                let mut new_accounts = run.new_accounts;
                new_accounts.append(&mut untyped);
                assert(new_accounts@.skip(before.len() as int) =~= added);
                SyncProgress::NeedTransactions(
                    SyncRun {
                        integrations: run.integrations,
                        position: run.position,
                        pending: Some(pending),
                        results: run.results,
                        new_accounts,
                        dry_run: run.dry_run,
                        now: run.now,
                    },
                )
            },
            None => {
                let total: usize = run.integrations.len();
                let mut results = run.results;
                results.push(accounts_failed(name, fetched.error));
                let ghost pushed = results@;
                let ghost at = run.position as int;
                let r = self.advance(
                    run.integrations,
                    run.position + 1,
                    results,
                    run.new_accounts,
                    run.dry_run,
                    run.now,
                );
                proof {
                    assert(reports_of(r).subrange(0, pushed.len() as int)[at] == pushed[at]);
                    assert(run.reports() =~= pushed.subrange(0, at));
                    assert(run.reports() =~= reports_of(r).subrange(0, at));
                }
                r
            },
        }
    }

    /// Goes on with a sync after the transactions of the current source
    /// were read, or could not be: the source gets its report, and the
    /// sync moves on to the next source.
    ///
    /// The report is that of the reconciled transactions where they were
    /// read, and that of the failure, with the error of the fetch, where
    /// they were not. The reports made before stay as they were. No answer
    /// of the store ends the sync in failure: when the last source is
    /// done, the sync has ended well.
    pub fn transactions_fetched(
        &self,
        run: SyncRun,
        fetched: ServiceResult<SimpleFINTransactionsResponse>,
    ) -> (r: SyncProgress)
        requires
            run.wf(),
            run.awaits_transactions(),
        ensures
            run.reports().is_prefix_of(reports_of(r)),
            run.new_accounts().is_prefix_of(new_accounts_of(r)),
            reports_of(r).len() > run.finished(),
            match (fetched.success, fetched.data) {
                (true, Some(data)) => is_transactions_report(
                    reports_of(r)[run.finished() as int],
                    run.pending()->0,
                    data.transactions@,
                    data.errors@,
                ),
                _ => is_transactions_failure(
                    reports_of(r)[run.finished() as int],
                    run.pending()->0,
                    fetched.error,
                ),
            },
            advanced_from(r, run.sources(), run.finished() as int + 1, run.dry(), run.instant()),
    {
        let pending = match run.pending {
            Some(p) => p,
            None => {
                // Ruled out by `awaits_transactions`; a caller that was not
                // verified gets a failure.
                return SyncProgress::Finished(
                    ServiceResult::fail("No transactions were asked for".to_owned()),
                );
            },
        };
        let answer = if fetched.success {
            fetched.data
        } else {
            None
        };
        let report = match answer {
            Some(data) => self.sync_transactions(
                pending,
                &data.transactions,
                data.errors,
                run.dry_run,
            ),
            None => transactions_failed(pending, fetched.error),
        };
        let total: usize = run.integrations.len();
        let mut results = run.results;
        results.push(report);
        let ghost pushed = results@;
        let ghost at = run.position as int;
        let r = self.advance(
            run.integrations,
            run.position + 1,
            results,
            run.new_accounts,
            run.dry_run,
            run.now,
        );
        proof {
            assert(reports_of(r).subrange(0, pushed.len() as int)[at] == pushed[at]);
            assert(run.reports() =~= pushed.subrange(0, at));
            assert(run.reports() =~= reports_of(r).subrange(0, at));
        }
        r
    }

    /// Starts setting up a source. The demo source is set up at once: its
    /// settings are handed to the store, and the store's answer ends the
    /// setup. For every other source the access address is to be claimed
    /// first, at the address the setup token among the options stands for;
    /// a token that stands for no address ends the setup as a failure, and
    /// nothing is stored.
    pub fn create_integration(&self, integration_name: &str, options: &StringMap) -> (r:
        SetupProgress)
        ensures
            integration_name@ == "demo"@ ==> r is Finished,
            integration_name@ != "demo"@ ==> match crate::infra::simplefin::spec_claim_url(
                setup_token(options@),
            ) {
                Ok(url) => {
                    &&& r matches SetupProgress::NeedClaim { claim_url }
                    &&& claim_url@ == url
                },
                Err(reason) => {
                    &&& r matches SetupProgress::Finished(result)
                    &&& !result.success
                    &&& result.data is None
                    &&& opt_text(result.error) == Some(reason)
                },
            },
    {
        if is_demo(&integration_name.to_owned()) {
            let demo = DemoDataProvider::new();
            let settings = demo.create_integration();
            return SetupProgress::Finished(self.store_settings(integration_name, settings));
        }
        let token = match options.get("setupToken") {
            Some(t) => t.clone(),
            None => String::new(),
        };
        match SimpleFINProvider::create_integration(token.as_str()) {
            Ok(claim_url) => SetupProgress::NeedClaim { claim_url },
            Err(e) => SetupProgress::Finished(ServiceResult::fail(e)),
        }
    }

    /// Ends setting up the aggregator, given how claiming the access
    /// address went; `access_url` is the body of the answer, where there
    /// was one.
    ///
    /// A claim that could not be made is a failure with the message of
    /// what went wrong, and a claim that was answered without an address
    /// is the failure that says so; in neither case is anything stored.
    /// Else the address is handed to the store as the setting
    /// `accessUrl`, and the store's answer is the result.
    pub fn integration_claimed(
        &self,
        integration_name: &str,
        outcome: &FetchOutcome,
        access_url: String,
    ) -> (r: ServiceResult<()>)
        ensures
            match crate::infra::simplefin::spec_claim_error(*outcome) {
                Some(message) => r.is_failure(message),
                None => access_url@.len() == 0 ==> r.is_failure(
                    "No access URL received from SimpleFIN"@,
                ),
            },
    {
        self.store_settings(integration_name, SimpleFINProvider::claimed(outcome, access_url))
    }

    /// Stores the settings of a source, or hands on the failure to get
    /// them: where there are no settings, the result is the failure for
    /// the reason the settings came with, and nothing is stored.
    fn store_settings(&self, integration_name: &str, settings: ServiceResult<StringMap>) -> (r:
        ServiceResult<()>)
        ensures
            settings.data is None ==> r.is_failure(
                match settings.error {
                    Some(e) => e@,
                    None => Seq::empty(),
                },
            ),
    {
        match settings.data {
            Some(map) => self.repository.upsert_integration(integration_name, &map),
            None => ServiceResult::fail(
                match settings.error {
                    Some(e) => e,
                    None => String::new(),
                },
            ),
        }
    }
}

} // verus!
