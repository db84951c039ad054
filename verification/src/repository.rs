//! The storage seam.
//!
//! The ledger is kept by a store that this library does not know: whatever
//! implements [`Repository`]. Nothing is taken for granted of what a store
//! answers; the services check every record they get back.

use vstd::prelude::*;
use vstd::string::*;
use crate::domain::{Account, BalanceSnapshot, Integration, ServiceResult, Transaction};
use crate::domain::{AccountView, TransactionView};
use crate::matching::account_views;
use crate::reconcile::transaction_views;
use crate::string_map::StringMap;

verus! {

/// One cell of a query's result.
#[derive(Clone, Debug)]
pub enum QueryValue {
    Null,
    Bool(bool),
    Integer(i64),
    /// A number that is no 64-bit integer, as the store writes it.
    Number(String),
    Text(String),
}

/// The result of a query.
#[derive(Clone, Debug)]
pub struct QueryResult {
    pub columns: Vec<String>,
    pub rows: Vec<Vec<QueryValue>>,
    pub row_count: usize,
}

impl QueryValue {
    /// The integer in the cell, if it holds one.
    pub fn as_i64(&self) -> (r: Option<i64>)
        ensures
            r == match *self {
                QueryValue::Integer(n) => Some(n),
                _ => None,
            },
    {
        match self {
            QueryValue::Integer(n) => Some(*n),
            _ => None,
        }
    }

    /// The text in the cell, if it holds one.
    pub fn as_str(&self) -> (r: Option<&String>)
        ensures
            match *self {
                QueryValue::Text(s) => r == Some(&s),
                _ => r is None,
            },
    {
        match self {
            QueryValue::Text(s) => Some(s),
            _ => None,
        }
    }
}

impl QueryResult {
    /// The cell in the first row at the given column, if there is one.
    pub fn first_row_cell(&self, column: usize) -> (r: Option<&QueryValue>)
        ensures
            match r {
                Some(v) => self.rows@.len() > 0 && column < self.rows@[0]@.len() && *v
                    == self.rows@[0]@[column as int],
                None => self.rows@.len() == 0 || column >= self.rows@[0]@.len(),
            },
    {
        if self.rows.len() > 0 && column < self.rows[0].len() {
            Some(&self.rows[0][column])
        } else {
            None
        }
    }
}

/// Everything the services ask of a store.
pub trait Repository {
    fn ensure_db_exists(&self) -> ServiceResult<()>;

    fn ensure_schema_upgraded(&self) -> ServiceResult<()>;

    fn add_account(&self, account: &Account) -> ServiceResult<Account>;

    /// Inserts the accounts or updates those already stored under the same
    /// identifier; a stored type stays where the new account has none.
    fn bulk_upsert_accounts(&self, accounts: &Vec<Account>) -> ServiceResult<Vec<Account>>;

    fn get_accounts(&self) -> ServiceResult<Vec<Account>>;

    fn get_account_by_id(&self, account_id: u128) -> ServiceResult<Account>;

    fn update_account_by_id(&self, account: &Account) -> ServiceResult<Account>;

    /// Inserts the transactions or updates those already stored under the
    /// same identifier.
    fn bulk_upsert_transactions(&self, transactions: &Vec<Transaction>) -> ServiceResult<
        Vec<Transaction>,
    >;

    /// The stored transactions that carry one of the given identifiers.
    fn get_transactions_by_external_ids(&self, external_ids: &Vec<StringMap>) -> ServiceResult<
        Vec<Transaction>,
    >;

    fn get_transactions_by_account(&self, account_id: u128) -> ServiceResult<Vec<Transaction>>;

    /// For each of the given fingerprints that is stored, how many stored
    /// transactions carry it.
    fn get_transaction_counts_by_fingerprint(&self, fingerprints: &Vec<String>) -> ServiceResult<
        Vec<(String, i64)>,
    >;

    fn add_balance(&self, balance: &BalanceSnapshot) -> ServiceResult<BalanceSnapshot>;

    /// The stored snapshots, of one account or of all, of one day (given as
    /// `YYYY-MM-DD`) or of all.
    fn get_balance_snapshots(&self, account_id: Option<u128>, date: Option<&str>) -> ServiceResult<
        Vec<BalanceSnapshot>,
    >;

    fn execute_query(&self, sql: &str) -> ServiceResult<QueryResult>;

    fn upsert_integration(
        &self,
        integration_name: &str,
        integration_options: &StringMap,
    ) -> ServiceResult<()>;

    fn list_integrations(&self) -> ServiceResult<Vec<Integration>>;
}

/// The well-formed accounts of a list, in their order.
pub fn valid_accounts(accounts: &Vec<Account>) -> (r: Vec<Account>)
    ensures
        account_views(r@) == account_views(accounts@).filter(|a: AccountView| a.wf()),
        forall|i: int| 0 <= i < r@.len() ==> (#[trigger] r@[i]).wf(),
        r@.len() <= accounts@.len(),
{
    let ghost av = account_views(accounts@);
    let ghost pred = |a: AccountView| a.wf();
    let mut out: Vec<Account> = Vec::new();
    let mut i: usize = 0;
    proof {
        assert(av.take(0).filter(pred) =~= Seq::<AccountView>::empty()) by {
            reveal(Seq::filter);
        }
        assert(account_views(out@) =~= Seq::<AccountView>::empty());
    }
    while i < accounts.len()
        invariant
            i <= accounts@.len(),
            av == account_views(accounts@),
            pred == (|a: AccountView| a.wf()),
            account_views(out@) == av.take(i as int).filter(pred),
            forall|k: int| 0 <= k < out@.len() ==> (#[trigger] out@[k]).wf(),
            out@.len() <= i,
        decreases accounts@.len() - i,
    {
        proof {
            assert(av[i as int] == accounts@[i as int]@);
            assert(av.take(i + 1) =~= av.take(i as int).push(av[i as int]));
            av.take(i as int).lemma_filter_push(av[i as int], pred);
        }
        if accounts[i].is_valid() {
            let ghost before = account_views(out@);
            let a = accounts[i].clone();
            out.push(a);
            assert(account_views(out@) =~= before.push(a@));
        }
        i += 1;
    }
    assert(av.take(accounts@.len() as int) =~= av);
    out
}

/// The well-formed transactions of a list, in their order.
pub fn valid_transactions(transactions: &Vec<Transaction>) -> (r: Vec<Transaction>)
    ensures
        transaction_views(r@) == transaction_views(transactions@).filter(
            |t: TransactionView| t.wf(),
        ),
        forall|i: int| 0 <= i < r@.len() ==> (#[trigger] r@[i]).wf(),
        r@.len() <= transactions@.len(),
{
    let ghost tv = transaction_views(transactions@);
    let ghost pred = |t: TransactionView| t.wf();
    let mut out: Vec<Transaction> = Vec::new();
    let mut i: usize = 0;
    proof {
        assert(tv.take(0).filter(pred) =~= Seq::<TransactionView>::empty()) by {
            reveal(Seq::filter);
        }
        assert(transaction_views(out@) =~= Seq::<TransactionView>::empty());
    }
    while i < transactions.len()
        invariant
            i <= transactions@.len(),
            tv == transaction_views(transactions@),
            pred == (|t: TransactionView| t.wf()),
            transaction_views(out@) == tv.take(i as int).filter(pred),
            forall|k: int| 0 <= k < out@.len() ==> (#[trigger] out@[k]).wf(),
            out@.len() <= i,
        decreases transactions@.len() - i,
    {
        proof {
            assert(tv[i as int] == transactions@[i as int]@);
            assert(tv.take(i + 1) =~= tv.take(i as int).push(tv[i as int]));
            tv.take(i as int).lemma_filter_push(tv[i as int], pred);
        }
        if transactions[i].is_valid() {
            let ghost before = transaction_views(out@);
            let t = transactions[i].clone();
            out.push(t);
            assert(transaction_views(out@) =~= before.push(t@));
        }
        i += 1;
    }
    assert(tv.take(transactions@.len() as int) =~= tv);
    out
}

/// The well-formed pairs of a pull, in their order.
pub fn valid_pulled(pulled: &Vec<(String, Transaction)>) -> (r: Vec<(String, Transaction)>)
    ensures
        crate::reconcile::pulled_views(r@) == crate::reconcile::pulled_views(pulled@).filter(
            |p: (Seq<char>, TransactionView)| p.1.wf(),
        ),
        forall|i: int| 0 <= i < r@.len() ==> (#[trigger] r@[i]).1.wf(),
        r@.len() <= pulled@.len(),
{
    let ghost pv = crate::reconcile::pulled_views(pulled@);
    let ghost pred = |p: (Seq<char>, TransactionView)| p.1.wf();
    let mut out: Vec<(String, Transaction)> = Vec::new();
    let mut i: usize = 0;
    proof {
        assert(pv.take(0).filter(pred) =~= Seq::<(Seq<char>, TransactionView)>::empty()) by {
            reveal(Seq::filter);
        }
        assert(crate::reconcile::pulled_views(out@) =~= Seq::<
            (Seq<char>, TransactionView),
        >::empty());
    }
    while i < pulled.len()
        invariant
            i <= pulled@.len(),
            pv == crate::reconcile::pulled_views(pulled@),
            pred == (|p: (Seq<char>, TransactionView)| p.1.wf()),
            crate::reconcile::pulled_views(out@) == pv.take(i as int).filter(pred),
            forall|k: int| 0 <= k < out@.len() ==> (#[trigger] out@[k]).1.wf(),
            out@.len() <= i,
        decreases pulled@.len() - i,
    {
        proof {
            assert(pv[i as int] == (pulled@[i as int].0@, pulled@[i as int].1@));
            assert(pv.take(i + 1) =~= pv.take(i as int).push(pv[i as int]));
            pv.take(i as int).lemma_filter_push(pv[i as int], pred);
        }
        if pulled[i].1.is_valid() {
            let ghost before = crate::reconcile::pulled_views(out@);
            let name = pulled[i].0.clone();
            let t = pulled[i].1.clone();
            out.push((name, t));
            assert(crate::reconcile::pulled_views(out@) =~= before.push((name@, t@)));
        }
        i += 1;
    }
    assert(pv.take(pulled@.len() as int) =~= pv);
    out
}

/// The well-formed snapshots of a list, in their order.
pub fn valid_snapshots(snapshots: &Vec<BalanceSnapshot>) -> (r: Vec<BalanceSnapshot>)
    ensures
        r@ == snapshots@.filter(|s: BalanceSnapshot| s.wf()),
        forall|i: int| 0 <= i < r@.len() ==> (#[trigger] r@[i]).wf(),
{
    let ghost pred = |s: BalanceSnapshot| s.wf();
    let mut out: Vec<BalanceSnapshot> = Vec::new();
    let mut i: usize = 0;
    proof {
        assert(snapshots@.take(0).filter(pred) =~= Seq::<BalanceSnapshot>::empty()) by {
            reveal(Seq::filter);
        }
    }
    while i < snapshots.len()
        invariant
            i <= snapshots@.len(),
            pred == (|s: BalanceSnapshot| s.wf()),
            out@ == snapshots@.take(i as int).filter(pred),
            forall|k: int| 0 <= k < out@.len() ==> (#[trigger] out@[k]).wf(),
        decreases snapshots@.len() - i,
    {
        proof {
            assert(snapshots@.take(i + 1) =~= snapshots@.take(i as int).push(snapshots@[i as int]));
            snapshots@.take(i as int).lemma_filter_push(snapshots@[i as int], pred);
        }
        if snapshots[i].is_valid() {
            out.push(snapshots[i]);
        }
        i += 1;
    }
    assert(snapshots@.take(snapshots@.len() as int) =~= snapshots@);
    out
}

} // verus!
