//! Importing transactions from a spreadsheet file.
//!
//! The rows of a file have no identifier of their own, so an imported
//! transaction is known by its fingerprint alone: a row is skipped if the
//! store already holds a transaction with the fingerprint of its content.

use vstd::prelude::*;
use vstd::string::*;
use crate::domain::{Account, ServiceResult, Transaction, TransactionView};
use crate::fingerprint::spec_fingerprint;
use crate::infra::csv_provider::{
    csv_header_row,
    csv_record_rows,
    entries_of,
    entry_of,
    file_entries,
    is_fresh_row,
    CSVProvider,
    ColumnMapping,
    ColumnMappingView,
    RowEntry,
};
use crate::reconcile::transaction_views;
use crate::repository::Repository;
use crate::text::{opt_text, texts};

verus! {

/// What an import did.
#[derive(Clone, Copy, Debug, PartialEq, Eq, Structural)]
pub struct ImportResult {
    pub transactions_discovered: usize,
    pub transactions_imported: usize,
    pub transactions_skipped: usize,
}

/// What an import decided: the transactions to store, and the counts.
#[derive(Debug)]
pub struct ImportPlan {
    pub to_insert: Vec<Transaction>,
    pub result: ImportResult,
}

/// The service that imports spreadsheet files.
pub struct ImportService<R: Repository> {
    repository: R,
}

/// The counts the store reported, as plain values.
pub open spec fn count_views(counts: Seq<(String, i64)>) -> Seq<(Seq<char>, i64)> {
    counts.map_values(|c: (String, i64)| (c.0@, c.1))
}

/// Whether the store reported a positive count for a fingerprint.
pub open spec fn is_seen(counts: Seq<(Seq<char>, i64)>, fingerprint: Seq<char>) -> bool {
    exists|i: int| 0 <= i < counts.len() && (#[trigger] counts[i]).0 == fingerprint && counts[i].1 > 0
}

/// Whether a transaction is new to the store: it is, unless it has a
/// fingerprint for which the store reported a positive count.
pub open spec fn is_unseen(tx: TransactionView, counts: Seq<(Seq<char>, i64)>) -> bool {
    !(tx.external_ids.contains_key("fingerprint"@) && is_seen(
        counts,
        tx.external_ids["fingerprint"@],
    ))
}

/// The transactions of an import that are new to the store.
pub open spec fn unseen_transactions(
    txs: Seq<TransactionView>,
    counts: Seq<(Seq<char>, i64)>,
) -> Seq<TransactionView> {
    txs.filter(|t: TransactionView| is_unseen(t, counts))
}

/// A transaction of an import under its account: the account is set, and
/// a missing fingerprint is computed.
pub open spec fn assigned(tx: TransactionView, account_id: u128) -> TransactionView {
    (TransactionView { account_id, ..tx }).with_fingerprint()
}

/// The fingerprint of a transaction, if it has one.
pub open spec fn stored_fingerprint(tx: TransactionView) -> Option<Seq<char>> {
    if tx.external_ids.contains_key("fingerprint"@) {
        Some(tx.external_ids["fingerprint"@])
    } else {
        None
    }
}

/// Puts the transactions of a file under the account they are imported
/// for, and gives each its fingerprint.
pub fn assign_account(transactions: &Vec<Transaction>, account_id: u128) -> (r: Vec<Transaction>)
    requires
        forall|i: int| 0 <= i < transactions@.len() ==> (#[trigger] transactions@[i]).wf(),
    ensures
        r@.len() == transactions@.len(),
        forall|i: int|
            0 <= i < r@.len() ==> (#[trigger] r@[i])@ == assigned(transactions@[i]@, account_id)
                && r@[i].wf(),
{
    let mut out: Vec<Transaction> = Vec::new();
    let mut i: usize = 0;
    while i < transactions.len()
        invariant
            i <= transactions@.len(),
            out@.len() == i,
            forall|k: int| 0 <= k < transactions@.len() ==> (#[trigger] transactions@[k]).wf(),
            forall|k: int|
                0 <= k < i ==> (#[trigger] out@[k])@ == assigned(transactions@[k]@, account_id)
                    && out@[k].wf(),
        decreases transactions@.len() - i,
    {
        let mut tx = transactions[i].clone();
        assert(tx.wf());
        tx.account_id = account_id;
        tx.ensure_fingerprint();
        out.push(tx);
        i += 1;
    }
    out
}

/// The fingerprints of the transactions that have one, in their order.
pub fn fingerprints_of(transactions: &Vec<Transaction>) -> (r: Vec<String>)
    ensures
        texts(r@) == transaction_views(transactions@).filter_map(
            |t: TransactionView| stored_fingerprint(t),
        ),
{
    let ghost tv = transaction_views(transactions@);
    let ghost f = |t: TransactionView| stored_fingerprint(t);
    let mut out: Vec<String> = Vec::new();
    let mut i: usize = 0;
    assert(texts(out@) =~= tv.take(0).filter_map(f));
    while i < transactions.len()
        invariant
            i <= transactions@.len(),
            tv == transaction_views(transactions@),
            f == (|t: TransactionView| stored_fingerprint(t)),
            texts(out@) == tv.take(i as int).filter_map(f),
        decreases transactions@.len() - i,
    {
        proof {
            tv.lemma_filter_map_take_succ(f, i as int);
            assert(tv[i as int] == transactions@[i as int]@);
        }
        match transactions[i].external_ids.get("fingerprint") {
            Some(fp) => {
                let ghost before = texts(out@);
                let copy = fp.clone();
                out.push(copy);
                assert(texts(out@) =~= before + seq![copy@]);
            },
            None => {},
        }
        i += 1;
    }
    assert(tv.take(transactions@.len() as int) =~= tv);
    out
}

/// Whether the store reported a positive count for a fingerprint.
fn seen(counts: &Vec<(String, i64)>, fingerprint: &String) -> (r: bool)
    ensures
        r == is_seen(count_views(counts@), fingerprint@),
{
    let ghost cv = count_views(counts@);
    let mut i: usize = 0;
    while i < counts.len()
        invariant
            i <= counts@.len(),
            cv == count_views(counts@),
            forall|j: int| 0 <= j < i ==> !((#[trigger] cv[j]).0 == fingerprint@ && cv[j].1 > 0),
        decreases counts@.len() - i,
    {
        assert(cv[i as int] == (counts@[i as int].0@, counts@[i as int].1));
        if counts[i].1 > 0 && counts[i].0 == *fingerprint {
            return true;
        }
        i += 1;
    }
    false
}

/// Parts the transactions of an import into what is new and what is
/// skipped, given the counts the store reported for their fingerprints.
pub fn select_unseen(transactions: &Vec<Transaction>, counts: &Vec<(String, i64)>) -> (r:
    ImportPlan)
    ensures
        transaction_views(r.to_insert@) == unseen_transactions(
            transaction_views(transactions@),
            count_views(counts@),
        ),
        r.result.transactions_discovered == transactions@.len(),
        r.result.transactions_imported == r.to_insert@.len(),
        r.result.transactions_imported + r.result.transactions_skipped
            == r.result.transactions_discovered,
{
    let ghost tv = transaction_views(transactions@);
    let ghost cv = count_views(counts@);
    let ghost pred = |t: TransactionView| is_unseen(t, cv);
    let mut to_insert: Vec<Transaction> = Vec::new();
    let mut i: usize = 0;
    proof {
        assert(tv.take(0).filter(pred) =~= Seq::<TransactionView>::empty()) by {
            reveal(Seq::filter);
        }
        assert(transaction_views(to_insert@) =~= Seq::<TransactionView>::empty());
    }
    while i < transactions.len()
        invariant
            i <= transactions@.len(),
            tv == transaction_views(transactions@),
            cv == count_views(counts@),
            pred == (|t: TransactionView| is_unseen(t, cv)),
            transaction_views(to_insert@) == tv.take(i as int).filter(pred),
            to_insert@.len() <= i,
        decreases transactions@.len() - i,
    {
        proof {
            assert(tv[i as int] == transactions@[i as int]@);
            assert(tv.take(i + 1) =~= tv.take(i as int).push(tv[i as int]));
            tv.take(i as int).lemma_filter_push(tv[i as int], pred);
        }
        let known: bool = match transactions[i].external_ids.get("fingerprint") {
            Some(fp) => seen(counts, fp),
            None => false,
        };
        if !known {
            let ghost before = transaction_views(to_insert@);
            let tx = transactions[i].clone();
            to_insert.push(tx);
            assert(transaction_views(to_insert@) =~= before.push(tx@));
        }
        i += 1;
    }
    assert(tv.take(transactions@.len() as int) =~= tv);
    let discovered: usize = transactions.len();
    let imported: usize = to_insert.len();
    ImportPlan {
        to_insert,
        result: ImportResult {
            transactions_discovered: discovered,
            transactions_imported: imported,
            transactions_skipped: discovered - imported,
        },
    }
}

/// A second import of an unchanged file stores nothing.
///
/// If every transaction of an import has a fingerprint, and the store
/// reports a positive count for each of those fingerprints, as it does
/// once the first import is stored, all of them are skipped.
pub proof fn lemma_second_import_skips_all(
    txs: Seq<TransactionView>,
    counts: Seq<(Seq<char>, i64)>,
)
    requires
        forall|i: int|
            0 <= i < txs.len() ==> (#[trigger] txs[i]).external_ids.contains_key("fingerprint"@)
                && is_seen(counts, txs[i].external_ids["fingerprint"@]),
    ensures
        unseen_transactions(txs, counts).len() == 0,
{
    let pred = |t: TransactionView| is_unseen(t, counts);
    assert forall|i: int| 0 <= i < txs.len() implies !pred(#[trigger] txs[i]) by {}
    txs.lemma_all_neg_filter_empty(pred);
}

/// Whether the counts say of every fingerprint what the stored
/// transactions say: a fingerprint has a positive count if and only if a
/// stored transaction carries it.
pub open spec fn counts_match_store(
    counts: Seq<(Seq<char>, i64)>,
    stored: Seq<TransactionView>,
) -> bool {
    forall|fp: Seq<char>| #[trigger]
        is_seen(counts, fp) <==> exists|j: int|
            0 <= j < stored.len() && stored_fingerprint(#[trigger] stored[j]) == Some(fp)
}

/// A second import of an unchanged file stores nothing.
///
/// Let a first import select what is new by counts that match the store,
/// and let the store hold afterwards what it held before and what the
/// first import selected. A second import of transactions with the same
/// fingerprints, by counts that match the store as it is by now, selects
/// nothing: every transaction is skipped.
pub proof fn lemma_second_import_stores_nothing(
    txs: Seq<TransactionView>,
    again: Seq<TransactionView>,
    existing: Seq<TransactionView>,
    first_counts: Seq<(Seq<char>, i64)>,
    second_counts: Seq<(Seq<char>, i64)>,
)
    requires
        again.len() == txs.len(),
        forall|i: int| 0 <= i < txs.len() ==> stored_fingerprint(#[trigger] txs[i]) is Some,
        forall|i: int|
            0 <= i < txs.len() ==> stored_fingerprint(#[trigger] again[i]) == stored_fingerprint(
                txs[i],
            ),
        counts_match_store(first_counts, existing),
        counts_match_store(second_counts, existing + unseen_transactions(txs, first_counts)),
    ensures
        unseen_transactions(again, second_counts).len() == 0,
{
    let first = unseen_transactions(txs, first_counts);
    let stored = existing + first;
    assert forall|i: int| 0 <= i < again.len() implies (#[trigger] again[i]).external_ids.contains_key(
        "fingerprint"@,
    ) && is_seen(second_counts, again[i].external_ids["fingerprint"@]) by {
        let fp = stored_fingerprint(txs[i])->0;
        if is_seen(first_counts, fp) {
            let j = choose|j: int|
                0 <= j < existing.len() && stored_fingerprint(#[trigger] existing[j]) == Some(fp);
            assert(stored[j] == existing[j]);
        } else {
            let pred = |t: TransactionView| is_unseen(t, first_counts);
            assert(pred(txs[i]));
            txs.lemma_filter_contains(pred, i);
            let j = choose|j: int| 0 <= j < first.len() && first[j] == txs[i];
            assert(stored[existing.len() + j] == first[j]);
        }
        assert(is_seen(second_counts, fp));
    }
    lemma_second_import_skips_all(again, second_counts);
}

/// The fingerprint of what a row says, for the account it is imported
/// into.
pub open spec fn entry_fingerprint(account_id: u128, entry: RowEntry) -> Seq<char> {
    spec_fingerprint(account_id, entry.date, entry.amount, entry.description)
}

/// The rows of a file that are new to the store: those for whose
/// fingerprint the store reported no positive count.
pub open spec fn unseen_entries(
    entries: Seq<RowEntry>,
    account_id: u128,
    counts: Seq<(Seq<char>, i64)>,
) -> Seq<RowEntry> {
    entries.filter(|e: RowEntry| !is_seen(counts, entry_fingerprint(account_id, e)))
}

/// Whether a result is what an import comes to, given the answers of the
/// store: to the lookup of the account, and to the request for the counts
/// of the rows' fingerprints.
///
/// A failed lookup is the failure that the account was not found. Else a
/// file whose header row cannot be read is the failure with the reader's
/// message. Else the import succeeds: every row that yields a transaction
/// is discovered, those that are new to the store are imported, and the
/// others are skipped.
pub open spec fn is_import_outcome(
    r: ServiceResult<ImportResult>,
    found: ServiceResult<Account>,
    counts: Seq<(Seq<char>, i64)>,
    content: Seq<u8>,
    account_id: u128,
    mapping: ColumnMappingView,
    flip_signs: bool,
    debit_negative: bool,
) -> bool {
    if !found.success {
        r.is_failure("Account not found"@)
    } else {
        match csv_header_row(content) {
            Err(reason) => r.is_failure("Failed to read headers: "@ + reason),
            Ok(headers) => {
                let entries = file_entries(
                    headers,
                    csv_record_rows(content),
                    mapping,
                    flip_signs,
                    debit_negative,
                );
                &&& r.success
                &&& r.error is None
                &&& r.data matches Some(res)
                &&& res.transactions_discovered == entries.len()
                &&& res.transactions_imported == unseen_entries(entries, account_id, counts).len()
                &&& res.transactions_imported + res.transactions_skipped
                    == res.transactions_discovered
            },
        }
    }
}

/// Two lists that satisfy their tests position by position alike keep the
/// same number of items under the tests.
pub proof fn lemma_filters_keep_alike<A, B>(
    a: Seq<A>,
    b: Seq<B>,
    keep_a: spec_fn(A) -> bool,
    keep_b: spec_fn(B) -> bool,
)
    requires
        a.len() == b.len(),
        forall|i: int| 0 <= i < a.len() ==> keep_a(#[trigger] a[i]) == keep_b(b[i]),
    ensures
        a.filter(keep_a).len() == b.filter(keep_b).len(),
    decreases a.len(),
{
    reveal(Seq::filter);
    if a.len() > 0 {
        let x = a.drop_last();
        let y = b.drop_last();
        assert forall|i: int| 0 <= i < x.len() implies keep_a(#[trigger] x[i]) == keep_b(y[i]) by {
            assert(x[i] == a[i]);
            assert(y[i] == b[i]);
        }
        lemma_filters_keep_alike(x, y, keep_a, keep_b);
        assert(keep_a(a[a.len() - 1]) == keep_b(b[b.len() - 1]));
    }
}

/// The transactions of a file that are new to the store are as many as its
/// rows that are.
pub proof fn lemma_unseen_rows(
    rows: Seq<Transaction>,
    transactions: Seq<Transaction>,
    account_id: u128,
    counts: Seq<(Seq<char>, i64)>,
)
    requires
        rows.len() == transactions.len(),
        forall|i: int| 0 <= i < rows.len() ==> is_fresh_row(#[trigger] rows[i]),
        forall|i: int|
            0 <= i < rows.len() ==> (#[trigger] transactions[i])@ == assigned(
                rows[i]@,
                account_id,
            ),
    ensures
        unseen_transactions(transaction_views(transactions), counts).len() == unseen_entries(
            entries_of(rows),
            account_id,
            counts,
        ).len(),
{
    let views = transaction_views(transactions);
    let entries = entries_of(rows);
    let keep_view = |t: TransactionView| is_unseen(t, counts);
    let keep_entry = |e: RowEntry| !is_seen(counts, entry_fingerprint(account_id, e));
    assert forall|i: int| 0 <= i < views.len() implies keep_view(#[trigger] views[i])
        == keep_entry(entries[i]) by {
        assert(views[i] == transactions[i]@);
        assert(entries[i] == entry_of(rows[i]));
        assert(is_fresh_row(rows[i]));
        assert(!rows[i]@.external_ids.contains_key("fingerprint"@));
    }
    lemma_filters_keep_alike(views, entries, keep_view, keep_entry);
}

/// The failure that the answer to the lookup of the account means for an
/// import: that the account was not found, where the lookup failed.
pub fn unknown_account(found: &ServiceResult<Account>) -> (r: Option<String>)
    ensures
        opt_text(r) == if found.success {
            None
        } else {
            Some("Account not found"@)
        },
{
    if found.success {
        None
    } else {
        Some("Account not found".to_owned())
    }
}

impl<R: Repository> ImportService<R> {
    /// The store the service works on.
    pub closed spec fn store(&self) -> R {
        self.repository
    }

    pub fn new(repository: R) -> (r: ImportService<R>)
        ensures
            r.store() == repository,
    {
        ImportService { repository }
    }

    /// Guesses the mapping of a file from its column names.
    pub fn detect_columns(&self, content: &[u8]) -> (r: ServiceResult<ColumnMapping>)
        ensures
            match csv_header_row(content@) {
                Ok(hs) => {
                    &&& r.success
                    &&& r.data matches Some(m)
                    &&& m@ == crate::infra::columns::detected_mapping(hs)
                },
                Err(e) => {
                    &&& !r.success
                    &&& r.data is None
                    &&& r.error matches Some(m)
                    &&& m@ == "Failed to read headers: "@ + e
                },
            },
    {
        CSVProvider::detect_columns(content)
    }

    /// The column names of a file.
    pub fn get_headers(&self, content: &[u8]) -> (r: ServiceResult<Vec<String>>)
        ensures
            match csv_header_row(content@) {
                Ok(hs) => {
                    &&& r.success
                    &&& r.data matches Some(v)
                    &&& texts(v@) == hs
                },
                Err(e) => {
                    &&& !r.success
                    &&& r.data is None
                    &&& r.error matches Some(m)
                    &&& m@ == "Failed to read headers: "@ + e
                },
            },
    {
        CSVProvider::get_headers(content)
    }

    /// The first `limit` transactions of a file.
    pub fn preview(
        &self,
        content: &[u8],
        mapping: &ColumnMapping,
        limit: usize,
        flip_signs: bool,
        debit_negative: bool,
    ) -> (r: ServiceResult<Vec<Transaction>>)
        ensures
            match csv_header_row(content@) {
                Ok(hs) => {
                    &&& r.success
                    &&& r.data matches Some(v)
                    &&& crate::infra::csv_provider::entries_of(v@)
                        == crate::infra::csv_provider::first_entries(
                        crate::infra::csv_provider::file_entries(
                            hs,
                            crate::infra::csv_provider::csv_record_rows(content@),
                            mapping@,
                            flip_signs,
                            debit_negative,
                        ),
                        limit as int,
                    )
                    &&& v@.len() <= limit
                },
                Err(e) => {
                    &&& !r.success
                    &&& r.data is None
                    &&& r.error matches Some(m)
                    &&& m@ == "Failed to read headers: "@ + e
                },
            },
    {
        CSVProvider::preview_transactions(content, mapping, limit, flip_signs, debit_negative)
    }

    /// Imports the transactions of a file into an account: every row that
    /// yields a transaction is discovered, those whose fingerprint the
    /// store does not hold yet are stored, the others are skipped.
    ///
    /// The import fails where the store does not find the account, with
    /// the message that the account was not found, and where the header
    /// row of the file cannot be read, with the reader's message; a file
    /// whose header row cannot be read never succeeds. Whatever the store
    /// answers, the result is what [`is_import_outcome`] says of the
    /// answers.
    pub fn import_csv(
        &self,
        content: &[u8],
        account_id: u128,
        mapping: &ColumnMapping,
        flip_signs: bool,
        debit_negative: bool,
    ) -> (r: ServiceResult<ImportResult>)
        ensures
            exists|found: ServiceResult<Account>, counts: Seq<(Seq<char>, i64)>| #[trigger]
                is_import_outcome(
                    r,
                    found,
                    counts,
                    content@,
                    account_id,
                    mapping@,
                    flip_signs,
                    debit_negative,
                ),
            csv_header_row(content@) is Err ==> !r.success,
            !r.success ==> r.data is None && (opt_text(r.error) == Some("Account not found"@) || (
            csv_header_row(content@) matches Err(reason) && opt_text(r.error) == Some(
                "Failed to read headers: "@ + reason,
            ))),
            r.success ==> (csv_header_row(content@) matches Ok(hs) && (r.data matches Some(res)
                && res.transactions_imported + res.transactions_skipped
                == res.transactions_discovered && res.transactions_discovered == file_entries(
                hs,
                csv_record_rows(content@),
                mapping@,
                flip_signs,
                debit_negative,
            ).len())),
    {
        let found = self.repository.get_account_by_id(account_id);
        let ghost no_counts = Seq::<(Seq<char>, i64)>::empty();
        match unknown_account(&found) {
            Some(reason) => {
                let r = ServiceResult::fail(reason);
                assert(is_import_outcome(
                    r,
                    found,
                    no_counts,
                    content@,
                    account_id,
                    mapping@,
                    flip_signs,
                    debit_negative,
                ));
                return r;
            },
            None => {},
        }
        let parsed = CSVProvider::get_transactions(content, mapping, flip_signs, debit_negative);
        let rows = match parsed.data {
            Some(v) => v,
            None => {
                let r = ServiceResult::fail(
                    match parsed.error {
                        Some(e) => e,
                        None => String::new(),
                    },
                );
                assert(is_import_outcome(
                    r,
                    found,
                    no_counts,
                    content@,
                    account_id,
                    mapping@,
                    flip_signs,
                    debit_negative,
                ));
                return r;
            },
        };
        assert(entries_of(rows@).len() == rows@.len());
        let transactions = assign_account(&rows, account_id);
        let fingerprints = fingerprints_of(&transactions);
        let counts = match self.repository.get_transaction_counts_by_fingerprint(
            &fingerprints,
        ).data {
            Some(c) => c,
            None => Vec::new(),
        };
        let plan = select_unseen(&transactions, &counts);
        if plan.to_insert.len() > 0 {
            let _ = self.repository.bulk_upsert_transactions(&plan.to_insert);
        }
        let r = ServiceResult::ok(plan.result);
        proof {
            lemma_unseen_rows(rows@, transactions@, account_id, count_views(counts@));
            assert(transaction_views(plan.to_insert@).len() == plan.to_insert@.len());
            assert(is_import_outcome(
                r,
                found,
                count_views(counts@),
                content@,
                account_id,
                mapping@,
                flip_signs,
                debit_negative,
            ));
        }
        r
    }
}

} // verus!
