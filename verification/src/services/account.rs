//! Accounts and their balance snapshots.

use vstd::prelude::*;
use vstd::string::*;
use crate::amount::Amount;
use crate::calendar::{Date, Timestamp};
use crate::domain::{Account, BalanceSnapshot, ServiceResult};
use crate::projection::{has_close_snapshot, should_create_snapshot};
use crate::repository::{valid_snapshots, Repository};
use crate::text::opt_text;

verus! {

/// The service that answers for accounts.
pub struct AccountService<R: Repository> {
    repository: R,
}

/// The reason not to take a snapshot of `balance` for a day that has the
/// given snapshots: there is one, if one of the well-formed snapshots lies
/// within a hundredth of the balance.
pub fn snapshot_conflict(existing: &Vec<BalanceSnapshot>, balance: Amount, date_text: &str) -> (r:
    Option<String>)
    requires
        balance.wf(),
    ensures
        r is Some <==> has_close_snapshot(
            existing@.filter(|s: BalanceSnapshot| s.wf()),
            balance,
        ),
        r matches Some(message) ==> message@ == "Balance snapshot already exists for "@
            + date_text@ + " with same balance"@,
{
    let sound = valid_snapshots(existing);
    if should_create_snapshot(&sound, balance) {
        None
    } else {
        let mut message = "Balance snapshot already exists for ".to_owned();
        message.append(date_text);
        message.append(" with same balance");
        Some(message)
    }
}

/// The snapshot of a balance for a day: taken at the midnight that opens
/// the day.
pub fn snapshot_for_day(account_id: u128, balance: Amount, day: Date) -> (r: BalanceSnapshot)
    requires
        balance.wf(),
        day.wf(),
    ensures
        r.account_id == account_id,
        r.balance == balance,
        r.snapshot_time == (Timestamp {
            secs: (day.days * crate::calendar::SECONDS_PER_DAY) as i64,
            nanos: 0,
        }),
        r.created_at == r.updated_at,
        r.wf(),
{
    BalanceSnapshot::new(account_id, balance, day.start_of_day())
}

/// The failure that the answer to the lookup of an account means: none
/// where the account was found, and else the reason the store gave, or
/// that the account was not found.
pub open spec fn spec_lookup_failure(found: ServiceResult<Account>) -> Option<Seq<char>> {
    if found.success {
        None
    } else {
        Some(
            match found.error {
                Some(e) => e@,
                None => "Account not found"@,
            },
        )
    }
}

/// Whether the day has a snapshot that stands for the balance already,
/// going by what the store answered when asked for the day's snapshots. An
/// answer without snapshots stands in the way of nothing.
pub open spec fn day_is_taken(existing: ServiceResult<Vec<BalanceSnapshot>>, balance: Amount) -> bool {
    existing.data matches Some(snapshots) && has_close_snapshot(
        snapshots@.filter(|s: BalanceSnapshot| s.wf()),
        balance,
    )
}

/// The failure that the answer to the lookup of an account means.
pub fn lookup_failure(found: &ServiceResult<Account>) -> (r: Option<String>)
    ensures
        opt_text(r) == spec_lookup_failure(*found),
{
    if found.success {
        None
    } else {
        match &found.error {
            Some(e) => Some(e.clone()),
            None => Some("Account not found".to_owned()),
        }
    }
}

/// The day on which the instant `now` falls, for a snapshot that names no
/// day of its own. Fails where the instant lies outside the years the
/// calendar knows.
pub fn today(now: Timestamp) -> (r: Result<Date, String>)
    ensures
        match r {
            Ok(day) => now.wf() && day.wf() && day.days == crate::calendar::day_of_second(
                now.secs as int,
            ),
            Err(reason) => !now.wf() && reason@ == "System clock out of range"@,
        },
{
    if now.is_valid() {
        Ok(now.date())
    } else {
        Err("System clock out of range".to_owned())
    }
}

/// The reason to record nothing for a day, given what the store answered
/// when asked for the day's snapshots: there is one if and only if the day
/// is taken.
pub fn taken_reason(existing: &ServiceResult<Vec<BalanceSnapshot>>, balance: Amount, day: Date) -> (r:
    Option<String>)
    requires
        balance.wf(),
        day.wf(),
    ensures
        opt_text(r) == if day_is_taken(*existing, balance) {
            Some(taken_message(day))
        } else {
            None
        },
{
    match &existing.data {
        Some(snapshots) => {
            let day_text = day.to_iso();
            snapshot_conflict(snapshots, balance, day_text.as_str())
        },
        None => None,
    }
}

/// Decides on a request to record a balance for a day, given what the
/// store answered when asked for the day's snapshots: the snapshot to hand
/// to the store, or the reason to record nothing.
///
/// Nothing is recorded if and only if one of the day's well-formed
/// snapshots lies within a hundredth of the balance.
pub fn decide_snapshot(
    existing: &ServiceResult<Vec<BalanceSnapshot>>,
    account_id: u128,
    balance: Amount,
    day: Date,
) -> (r: Result<BalanceSnapshot, String>)
    requires
        balance.wf(),
        day.wf(),
    ensures
        match r {
            Ok(snapshot) => {
                &&& !day_is_taken(*existing, balance)
                &&& snapshot.account_id == account_id
                &&& snapshot.balance == balance
                &&& snapshot.snapshot_time == (Timestamp {
                    secs: (day.days * crate::calendar::SECONDS_PER_DAY) as i64,
                    nanos: 0,
                })
                &&& snapshot.created_at == snapshot.updated_at
                &&& snapshot.wf()
            },
            Err(reason) => {
                &&& day_is_taken(*existing, balance)
                &&& reason@ == taken_message(day)
            },
        },
{
    match taken_reason(existing, balance, day) {
        Some(reason) => {
            return Err(reason);
        },
        None => {},
    }
    Ok(snapshot_for_day(account_id, balance, day))
}

/// The message of a day that is taken.
pub open spec fn taken_message(day: Date) -> Seq<char> {
    "Balance snapshot already exists for "@ + crate::calendar::iso_date_text(day.days as int)
        + " with same balance"@
}

/// Whether a result is what recording a balance for a day comes to, given
/// the three answers of the store: to the lookup of the account, to the
/// request for the day's snapshots, and to the request to add the
/// snapshot.
///
/// A failed lookup is a failure for its reason, whatever the other answers
/// are. Else a day that is taken is a failure that names the day. Else the
/// store's answer to the request to add the snapshot is the result.
pub open spec fn is_snapshot_outcome(
    r: ServiceResult<BalanceSnapshot>,
    found: ServiceResult<Account>,
    day: Date,
    existing: ServiceResult<Vec<BalanceSnapshot>>,
    added: ServiceResult<BalanceSnapshot>,
    balance: Amount,
) -> bool {
    match spec_lookup_failure(found) {
        Some(reason) => r.is_failure(reason),
        None => if day_is_taken(existing, balance) {
            r.is_failure(taken_message(day))
        } else {
            r == added
        },
    }
}

/// What recording a balance for a day comes to, given the three answers of
/// the store: to the lookup of the account, to the request for the day's
/// snapshots, and to the request to add the snapshot.
pub fn snapshot_outcome(
    found: &ServiceResult<Account>,
    day: Date,
    existing: &ServiceResult<Vec<BalanceSnapshot>>,
    added: ServiceResult<BalanceSnapshot>,
    balance: Amount,
) -> (r: ServiceResult<BalanceSnapshot>)
    requires
        balance.wf(),
        day.wf(),
    ensures
        is_snapshot_outcome(r, *found, day, *existing, added, balance),
{
    match lookup_failure(found) {
        Some(reason) => {
            return ServiceResult::fail(reason);
        },
        None => {},
    }
    match taken_reason(existing, balance, day) {
        Some(reason) => ServiceResult::fail(reason),
        None => added,
    }
}

impl<R: Repository> AccountService<R> {
    /// The store the service works on.
    pub closed spec fn store(&self) -> R {
        self.repository
    }

    pub fn new(repository: R) -> (r: AccountService<R>)
        ensures
            r.store() == repository,
    {
        AccountService { repository }
    }

    pub fn get_accounts(&self) -> ServiceResult<Vec<Account>> {
        self.repository.get_accounts()
    }

    /// Records the balance of an account for a day (today, if no day is
    /// given), unless the account is unknown or the day already has a
    /// snapshot within a hundredth of the balance.
    ///
    /// The store is asked for the account, for the snapshots of the day,
    /// and to add the snapshot. Whatever it answers, the result is what
    /// [`snapshot_outcome`] makes of the answers, for the day given or for
    /// today; or, where no day is given and the clock stands outside the
    /// calendar, the failure that says so.
    pub fn add_balance_snapshot(
        &self,
        account_id: u128,
        balance: Amount,
        snapshot_date: Option<Date>,
    ) -> (r: ServiceResult<BalanceSnapshot>)
        requires
            balance.wf(),
            snapshot_date matches Some(d) ==> d.wf(),
        ensures
            (snapshot_date is None && r.is_failure("System clock out of range"@)) || exists|
                found: ServiceResult<Account>,
                day: Date,
                existing: ServiceResult<Vec<BalanceSnapshot>>,
                added: ServiceResult<BalanceSnapshot>,
            |
                day.wf() && (snapshot_date matches Some(d) ==> day == d)
                    && #[trigger] is_snapshot_outcome(r, found, day, existing, added, balance),
    {
        let found = self.repository.get_account_by_id(account_id);
        let ghost nothing: ServiceResult<Vec<BalanceSnapshot>> = ServiceResult {
            success: false,
            data: None,
            error: None,
        };
        let ghost unasked: ServiceResult<BalanceSnapshot> = ServiceResult {
            success: false,
            data: None,
            error: None,
        };
        match lookup_failure(&found) {
            Some(reason) => {
                let r = ServiceResult::fail(reason);
                proof {
                    let day = match snapshot_date {
                        Some(d) => d,
                        None => Date { days: 0 },
                    };
                    assert(is_snapshot_outcome(r, found, day, nothing, unasked, balance));
                }
                return r;
            },
            None => {},
        }
        let day: Date = match snapshot_date {
            Some(d) => d,
            None => match today(Timestamp::now()) {
                Ok(d) => d,
                Err(reason) => {
                    return ServiceResult::fail(reason);
                },
            },
        };
        let day_text = day.to_iso();
        let existing = self.repository.get_balance_snapshots(
            Some(account_id),
            Some(day_text.as_str()),
        );
        match decide_snapshot(&existing, account_id, balance, day) {
            Ok(snapshot) => {
                let added = self.repository.add_balance(&snapshot);
                let r = snapshot_outcome(&found, day, &existing, added, balance);
                assert(is_snapshot_outcome(r, found, day, existing, added, balance));
                r
            },
            Err(reason) => {
                let r = ServiceResult::fail(reason);
                assert(is_snapshot_outcome(r, found, day, existing, unasked, balance));
                r
            },
        }
    }
}

} // verus!
