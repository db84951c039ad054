//! The state of the ledger at a glance.

use vstd::prelude::*;
use vstd::string::*;
use crate::domain::{Account, Integration, ServiceResult};
use crate::repository::{QueryResult, QueryValue, Repository};
use crate::text::opt_text;

verus! {

/// The state of the ledger: what it holds and how much of it.
#[derive(Debug)]
pub struct StatusData {
    pub accounts: Vec<Account>,
    pub integrations: Vec<Integration>,
    pub total_accounts: usize,
    pub total_transactions: i64,
    pub total_snapshots: i64,
    pub total_integrations: usize,
    pub integration_names: Vec<String>,
    pub earliest_date: Option<String>,
    pub latest_date: Option<String>,
}

/// The service that reports the state of the ledger.
pub struct StatusService<R: Repository> {
    repository: R,
}

/// The cell of the first row at position `column`, if the answer has it.
pub open spec fn first_row(answer: Option<QueryResult>, column: int) -> Option<QueryValue> {
    match answer {
        Some(q) => if q.rows@.len() > 0 && q.rows@[0]@.len() > 0 && 0 <= column
            < q.rows@[0]@.len() {
            Some(q.rows@[0]@[column])
        } else {
            None
        },
        None => None,
    }
}

/// The integer a cell holds, or zero.
pub open spec fn count_in(cell: Option<QueryValue>) -> i64 {
    match cell {
        Some(QueryValue::Integer(n)) => n,
        _ => 0,
    }
}

/// The text a cell holds.
pub open spec fn text_in(cell: Option<QueryValue>) -> Option<Seq<char>> {
    match cell {
        Some(QueryValue::Text(s)) => Some(s@),
        _ => None,
    }
}

/// The count in the first cell of an answer, or zero where there is none.
pub fn count_of(answer: &Option<QueryResult>) -> (r: i64)
    ensures
        r == count_in(first_row(*answer, 0)),
{
    match answer {
        Some(q) => match q.first_row_cell(0) {
            Some(cell) => match cell.as_i64() {
                Some(n) => n,
                None => 0,
            },
            None => 0,
        },
        None => 0,
    }
}

/// The text in the first row of an answer at position `column`.
pub fn text_of_cell(answer: &Option<QueryResult>, column: usize) -> (r: Option<String>)
    ensures
        opt_text(r) == text_in(first_row(*answer, column as int)),
{
    match answer {
        Some(q) => {
            if q.rows.len() > 0 && q.rows[0].len() > 0 {
                match q.first_row_cell(column) {
                    Some(cell) => match cell.as_str() {
                        Some(s) => Some(s.clone()),
                        None => None,
                    },
                    None => None,
                }
            } else {
                None
            }
        },
        None => None,
    }
}

/// The names of the configured sources, in their order.
pub fn integration_names(integrations: &Vec<Integration>) -> (r: Vec<String>)
    ensures
        r@.len() == integrations@.len(),
        forall|i: int|
            0 <= i < r@.len() ==> (#[trigger] r@[i])@ == integrations@[i].integration_name@,
{
    let mut out: Vec<String> = Vec::new();
    let mut i: usize = 0;
    while i < integrations.len()
        invariant
            i <= integrations@.len(),
            out@.len() == i,
            forall|k: int|
                0 <= k < i ==> (#[trigger] out@[k])@ == integrations@[k].integration_name@,
        decreases integrations@.len() - i,
    {
        out.push(integrations[i].integration_name.clone());
        i += 1;
    }
    out
}

/// Puts the state together from what the store answered.
pub fn assemble_status(
    accounts: Vec<Account>,
    integrations: Vec<Integration>,
    transaction_answer: &Option<QueryResult>,
    snapshot_answer: &Option<QueryResult>,
) -> (r: StatusData)
    ensures
        r.accounts == accounts,
        r.integrations == integrations,
        r.total_accounts == accounts@.len(),
        r.total_integrations == integrations@.len(),
        r.total_transactions == count_in(first_row(*transaction_answer, 0)),
        opt_text(r.earliest_date) == text_in(first_row(*transaction_answer, 1)),
        opt_text(r.latest_date) == text_in(first_row(*transaction_answer, 2)),
        r.total_snapshots == count_in(first_row(*snapshot_answer, 0)),
        r.integration_names@.len() == integrations@.len(),
        forall|i: int|
            0 <= i < integrations@.len() ==> (#[trigger] r.integration_names@[i])@
                == integrations@[i].integration_name@,
{
    let names = integration_names(&integrations);
    StatusData {
        total_accounts: accounts.len(),
        total_transactions: count_of(transaction_answer),
        total_snapshots: count_of(snapshot_answer),
        total_integrations: integrations.len(),
        integration_names: names,
        earliest_date: text_of_cell(transaction_answer, 1),
        latest_date: text_of_cell(transaction_answer, 2),
        accounts,
        integrations,
    }
}

impl<R: Repository> StatusService<R> {
    /// The store the service works on.
    pub closed spec fn store(&self) -> R {
        self.repository
    }

    pub fn new(repository: R) -> (r: StatusService<R>)
        ensures
            r.store() == repository,
    {
        StatusService { repository }
    }

    /// Reports the state of the ledger. What the store cannot answer
    /// counts as empty or zero.
    pub fn get_status(&self) -> (r: ServiceResult<StatusData>)
        ensures
            r.success,
            r.error is None,
            r.data matches Some(s) && s.total_accounts == s.accounts@.len()
                && s.total_integrations == s.integrations@.len() && s.integration_names@.len()
                == s.integrations@.len() && (forall|i: int|
                0 <= i < s.integrations@.len() ==> (#[trigger] s.integration_names@[i])@
                    == s.integrations@[i].integration_name@),
    {
        let accounts = match self.repository.get_accounts().data {
            Some(v) => v,
            None => Vec::new(),
        };
        let integrations = match self.repository.list_integrations().data {
            Some(v) => v,
            None => Vec::new(),
        };
        let stats = self.repository.execute_query(
            "SELECT COUNT(*) as total, MIN(transaction_date) as earliest, MAX(transaction_date) as latest FROM transactions",
        );
        let snapshots = self.repository.execute_query("SELECT COUNT(*) FROM balance_snapshots");
        ServiceResult::ok(assemble_status(accounts, integrations, &stats.data, &snapshots.data))
    }
}

} // verus!
