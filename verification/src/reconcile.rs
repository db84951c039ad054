//! Reconciling pulled transactions with the stored ones.
//!
//! A pull hands over transactions together with the source's name for the
//! account each belongs to. Reconciliation resolves those names to stored
//! accounts, drops what belongs to no resolved account, gives every
//! remaining transaction the fingerprint of its final content, and parts
//! the rest into what is new and what the store already holds under the
//! same source identifier.

use vstd::prelude::*;
use vstd::string::*;
use crate::domain::{Account, Transaction, TransactionView};
use crate::matching::{account_views, source_id};
use crate::domain::AccountView;
use crate::string_map::StringMap;

verus! {

/// The views of a list of transactions.
pub open spec fn transaction_views(s: Seq<Transaction>) -> Seq<TransactionView> {
    s.map_values(|t: Transaction| t@)
}

/// The views of a pull: each transaction with the source's name for its
/// account.
pub open spec fn pulled_views(s: Seq<(String, Transaction)>) -> Seq<(Seq<char>, TransactionView)> {
    s.map_values(|p: (String, Transaction)| (p.0@, p.1@))
}

/// The map from the source's account identifiers to the stored accounts'
/// identifiers that a list of accounts gives; of two accounts with one
/// source identifier the later one counts.
pub open spec fn id_mapping(accounts: Seq<AccountView>, source: Seq<char>) -> Map<Seq<char>, u128>
    decreases accounts.len(),
{
    if accounts.len() == 0 {
        Map::empty()
    } else {
        let rest = id_mapping(accounts.drop_last(), source);
        match source_id(accounts.last(), source) {
            Some(k) => rest.insert(k, accounts.last().id),
            None => rest,
        }
    }
}

/// The identifier the source gave a transaction, if it has one.
pub open spec fn native_id(tx: TransactionView, source: Seq<char>) -> Option<Seq<char>> {
    if tx.external_ids.contains_key(source) {
        Some(tx.external_ids[source])
    } else {
        None
    }
}

/// A pulled transaction under its resolved account: the account is set,
/// a fingerprint that came along is dropped, and the fingerprint of the
/// final content is stored.
pub open spec fn rebind(tx: TransactionView, account_id: u128) -> TransactionView {
    (TransactionView {
        account_id,
        external_ids: tx.external_ids.remove("fingerprint"@),
        ..tx
    }).with_fingerprint()
}

/// What becomes of one pulled transaction: it is bound to the account its
/// source name resolves to, or dropped where the name resolves to nothing.
pub open spec fn resolve(p: (Seq<char>, TransactionView), ids: Map<Seq<char>, u128>) -> Option<
    TransactionView,
> {
    if ids.contains_key(p.0) {
        Some(rebind(p.1, ids[p.0]))
    } else {
        None
    }
}

/// The candidates of a pull: the resolved transactions, in the order they
/// came.
pub open spec fn resolve_all(
    pulled: Seq<(Seq<char>, TransactionView)>,
    ids: Map<Seq<char>, u128>,
) -> Seq<TransactionView> {
    pulled.filter_map(|p: (Seq<char>, TransactionView)| resolve(p, ids))
}

/// Whether some stored transaction carries the source identifier `key`.
pub open spec fn is_known_id(
    existing: Seq<TransactionView>,
    source: Seq<char>,
    key: Seq<char>,
) -> bool {
    exists|i: int| 0 <= i < existing.len() && native_id(#[trigger] existing[i], source) == Some(key)
}

/// Whether the store already holds a candidate: the candidate has a source
/// identifier, and a stored transaction carries the same.
pub open spec fn already_stored(
    tx: TransactionView,
    existing: Seq<TransactionView>,
    source: Seq<char>,
) -> bool {
    native_id(tx, source) matches Some(k) && is_known_id(existing, source, k)
}

/// The candidates that are new to the store, in their order.
pub open spec fn new_transactions(
    candidates: Seq<TransactionView>,
    existing: Seq<TransactionView>,
    source: Seq<char>,
) -> Seq<TransactionView> {
    candidates.filter(|t: TransactionView| !already_stored(t, existing, source))
}

/// The lookup key of a candidate: its source identifier under the source's
/// name, if it has one.
pub open spec fn lookup_key(tx: TransactionView, source: Seq<char>) -> Option<
    Map<Seq<char>, Seq<char>>,
> {
    match native_id(tx, source) {
        Some(k) => Some(Map::<Seq<char>, Seq<char>>::empty().insert(source, k)),
        None => None,
    }
}

/// The views of a list of maps.
pub open spec fn map_views(s: Seq<StringMap>) -> Seq<Map<Seq<char>, Seq<char>>> {
    s.map_values(|m: StringMap| m@)
}

/// How many transactions a pass saw, took as new and skipped.
#[derive(Clone, Copy, Debug, PartialEq, Eq, Structural)]
pub struct TransactionStats {
    pub discovered: usize,
    pub new: usize,
    pub skipped: usize,
}

/// The counts of a pass over the given candidates.
pub open spec fn reconcile_stats(
    candidates: Seq<TransactionView>,
    existing: Seq<TransactionView>,
    source: Seq<char>,
) -> TransactionStats {
    let fresh = new_transactions(candidates, existing, source).len();
    TransactionStats {
        discovered: candidates.len() as usize,
        new: fresh as usize,
        skipped: (candidates.len() - fresh) as usize,
    }
}

/// The outcome of reconciling one pull.
#[derive(Debug)]
pub struct ReconcileOutcome {
    /// The transactions to store.
    pub to_insert: Vec<Transaction>,
    pub stats: TransactionStats,
}

/// A table from source account identifiers to stored account identifiers.
#[derive(Debug)]
pub struct AccountIdMap {
    entries: Vec<(String, u128)>,
}

/// The map a list of entries stands for; of two entries with one name the
/// later one counts.
pub open spec fn entries_mapping(entries: Seq<(String, u128)>) -> Map<Seq<char>, u128>
    decreases entries.len(),
{
    if entries.len() == 0 {
        Map::empty()
    } else {
        entries_mapping(entries.drop_last()).insert(entries.last().0@, entries.last().1)
    }
}

/// The last entry of a name decides what the name maps to.
pub proof fn lemma_last_entry_counts(entries: Seq<(String, u128)>, key: Seq<char>, i: int)
    requires
        -1 <= i < entries.len(),
        i >= 0 ==> entries[i].0@ == key,
        forall|j: int| i < j < entries.len() ==> (#[trigger] entries[j]).0@ != key,
    ensures
        i >= 0 ==> entries_mapping(entries).contains_key(key) && entries_mapping(entries)[key]
            == entries[i].1,
        i < 0 ==> !entries_mapping(entries).contains_key(key),
    decreases entries.len(),
{
    if entries.len() > 0 {
        let n = entries.len() - 1;
        if i < n {
            assert(entries[n].0@ != key);
            let rest = entries.drop_last();
            assert forall|j: int| i < j < rest.len() implies (#[trigger] rest[j]).0@ != key by {
                assert(rest[j] == entries[j]);
            }
            lemma_last_entry_counts(rest, key, i);
        }
    }
}

impl View for AccountIdMap {
    type V = Map<Seq<char>, u128>;

    closed spec fn view(&self) -> Map<Seq<char>, u128> {
        entries_mapping(self.entries@)
    }
}

impl AccountIdMap {
    /// The empty table.
    pub fn new() -> (r: AccountIdMap)
        ensures
            r@ == Map::<Seq<char>, u128>::empty(),
    {
        AccountIdMap { entries: Vec::new() }
    }

    /// Maps `key` to `id`, in place of what it was mapped to.
    pub fn insert(&mut self, key: String, id: u128)
        ensures
            final(self)@ == old(self)@.insert(key@, id),
    {
        let ghost before = self.entries@;
        self.entries.push((key, id));
        assert(self.entries@.drop_last() =~= before);
    }

    /// The identifier `key` is mapped to.
    pub fn get(&self, key: &String) -> (r: Option<u128>)
        ensures
            r == if self@.contains_key(key@) {
                Some(self@[key@])
            } else {
                None
            },
    {
        let mut i: usize = self.entries.len();
        while i > 0
            invariant
                i <= self.entries@.len(),
                forall|j: int| i <= j < self.entries@.len() ==> (#[trigger] self.entries@[j]).0@ != key@,
            decreases i,
        {
            i -= 1;
            if self.entries[i].0 == *key {
                proof {
                    lemma_last_entry_counts(self.entries@, key@, i as int);
                }
                return Some(self.entries[i].1);
            }
        }
        proof {
            lemma_last_entry_counts(self.entries@, key@, -1);
        }
        None
    }
}

/// The table of a list of accounts: each account's source identifier
/// mapped to the account's own identifier.
pub fn account_id_map(accounts: &Vec<Account>, source: &str) -> (r: AccountIdMap)
    ensures
        r@ == id_mapping(account_views(accounts@), source@),
{
    let ghost av = account_views(accounts@);
    let mut out = AccountIdMap::new();
    let mut i: usize = 0;
    while i < accounts.len()
        invariant
            i <= accounts@.len(),
            av == account_views(accounts@),
            out@ == id_mapping(av.take(i as int), source@),
        decreases accounts@.len() - i,
    {
        proof {
            assert(av.take(i + 1).drop_last() =~= av.take(i as int));
            assert(av.take(i + 1).last() == accounts@[i as int]@);
        }
        match accounts[i].external_ids.get(source) {
            Some(k) => {
                out.insert(k.clone(), accounts[i].id);
            },
            None => {},
        }
        i += 1;
    }
    assert(av.take(accounts@.len() as int) =~= av);
    out
}

/// Resolves a pull against the table of accounts: transactions of unknown
/// accounts are dropped, the others are bound to their account and given
/// the fingerprint of their final content.
pub fn resolve_transactions(pulled: &Vec<(String, Transaction)>, ids: &AccountIdMap) -> (r: Vec<
    Transaction,
>)
    requires
        forall|i: int| 0 <= i < pulled@.len() ==> (#[trigger] pulled@[i]).1.wf(),
    ensures
        transaction_views(r@) == resolve_all(pulled_views(pulled@), ids@),
        forall|i: int| 0 <= i < r@.len() ==> (#[trigger] r@[i]).wf(),
        r@.len() <= pulled@.len(),
{
    let ghost pv = pulled_views(pulled@);
    let ghost f = |p: (Seq<char>, TransactionView)| resolve(p, ids@);
    let mut out: Vec<Transaction> = Vec::new();
    let mut i: usize = 0;
    assert(transaction_views(out@) =~= pv.take(0).filter_map(f));
    while i < pulled.len()
        invariant
            i <= pulled@.len(),
            pv == pulled_views(pulled@),
            f == (|p: (Seq<char>, TransactionView)| resolve(p, ids@)),
            forall|k: int| 0 <= k < pulled@.len() ==> (#[trigger] pulled@[k]).1.wf(),
            transaction_views(out@) == pv.take(i as int).filter_map(f),
            forall|k: int| 0 <= k < out@.len() ==> (#[trigger] out@[k]).wf(),
            out@.len() <= i,
        decreases pulled@.len() - i,
    {
        proof {
            pv.lemma_filter_map_take_succ(f, i as int);
            assert(pv[i as int] == (pulled@[i as int].0@, pulled@[i as int].1@));
        }
        match ids.get(&pulled[i].0) {
            Some(account_id) => {
                let mut tx = pulled[i].1.clone();
                assert(tx.wf());
                tx.account_id = account_id;
                tx.external_ids.remove("fingerprint");
                tx.ensure_fingerprint();
                let ghost before = transaction_views(out@);
                out.push(tx);
                assert(transaction_views(out@) =~= before + seq![tx@]);
            },
            None => {},
        }
        i += 1;
    }
    assert(pv.take(pulled@.len() as int) =~= pv);
    out
}

/// The keys to look the candidates up by: for each candidate that has a
/// source identifier, that identifier under the source's name.
pub fn lookup_keys(candidates: &Vec<Transaction>, source: &str) -> (r: Vec<StringMap>)
    ensures
        map_views(r@) == transaction_views(candidates@).filter_map(
            |t: TransactionView| lookup_key(t, source@),
        ),
{
    let ghost cv = transaction_views(candidates@);
    let ghost f = |t: TransactionView| lookup_key(t, source@);
    let mut out: Vec<StringMap> = Vec::new();
    let mut i: usize = 0;
    assert(map_views(out@) =~= cv.take(0).filter_map(f));
    while i < candidates.len()
        invariant
            i <= candidates@.len(),
            cv == transaction_views(candidates@),
            f == (|t: TransactionView| lookup_key(t, source@)),
            map_views(out@) == cv.take(i as int).filter_map(f),
        decreases candidates@.len() - i,
    {
        proof {
            cv.lemma_filter_map_take_succ(f, i as int);
            assert(cv[i as int] == candidates@[i as int]@);
        }
        match candidates[i].external_ids.get(source) {
            Some(k) => {
                let mut key = StringMap::new();
                key.insert(source.to_owned(), k.clone());
                let ghost before = map_views(out@);
                out.push(key);
                assert(map_views(out@) =~= before + seq![key@]);
            },
            None => {},
        }
        i += 1;
    }
    assert(cv.take(candidates@.len() as int) =~= cv);
    out
}

/// Whether a stored transaction carries the source identifier `key`.
fn knows_id(existing: &Vec<Transaction>, source: &str, key: &String) -> (r: bool)
    ensures
        r == is_known_id(transaction_views(existing@), source@, key@),
{
    let ghost ev = transaction_views(existing@);
    let mut i: usize = 0;
    while i < existing.len()
        invariant
            i <= existing@.len(),
            ev == transaction_views(existing@),
            forall|j: int| 0 <= j < i ==> native_id(#[trigger] ev[j], source@) != Some(key@),
        decreases existing@.len() - i,
    {
        assert(ev[i as int] == existing@[i as int]@);
        match existing[i].external_ids.get(source) {
            Some(k) => {
                if *k == *key {
                    return true;
                }
            },
            None => {},
        }
        i += 1;
    }
    false
}

/// Whether the store already holds a candidate.
pub fn is_already_stored(tx: &Transaction, existing: &Vec<Transaction>, source: &str) -> (r: bool)
    ensures
        r == already_stored(tx@, transaction_views(existing@), source@),
{
    match tx.external_ids.get(source) {
        Some(k) => knows_id(existing, source, k),
        None => false,
    }
}

/// Parts the candidates into what is new and what is skipped.
///
/// `existing` is what the store returned for the candidates' lookup keys. A
/// candidate is skipped if and only if it has a source identifier that one
/// of the existing transactions carries; every other candidate is to be
/// stored, in the order of the pull.
pub fn partition_new(candidates: &Vec<Transaction>, existing: &Vec<Transaction>, source: &str) -> (r:
    ReconcileOutcome)
    ensures
        transaction_views(r.to_insert@) == new_transactions(
            transaction_views(candidates@),
            transaction_views(existing@),
            source@,
        ),
        r.stats == reconcile_stats(
            transaction_views(candidates@),
            transaction_views(existing@),
            source@,
        ),
        r.stats.discovered == candidates@.len(),
        r.stats.new == r.to_insert@.len(),
        r.stats.new + r.stats.skipped == r.stats.discovered,
{
    let ghost cv = transaction_views(candidates@);
    let ghost ev = transaction_views(existing@);
    let ghost pred = |t: TransactionView| !already_stored(t, ev, source@);
    let mut to_insert: Vec<Transaction> = Vec::new();
    let mut skipped: usize = 0;
    let mut i: usize = 0;
    proof {
        assert(cv.take(0).filter(pred) =~= Seq::<TransactionView>::empty()) by {
            reveal(Seq::filter);
        }
        assert(transaction_views(to_insert@) =~= Seq::<TransactionView>::empty());
    }
    while i < candidates.len()
        invariant
            i <= candidates@.len(),
            cv == transaction_views(candidates@),
            ev == transaction_views(existing@),
            pred == (|t: TransactionView| !already_stored(t, ev, source@)),
            transaction_views(to_insert@) == cv.take(i as int).filter(pred),
            to_insert@.len() + skipped == i,
        decreases candidates@.len() - i,
    {
        proof {
            assert(cv[i as int] == candidates@[i as int]@);
            assert(cv.take(i + 1) =~= cv.take(i as int).push(cv[i as int]));
            cv.take(i as int).lemma_filter_push(cv[i as int], pred);
        }
        if is_already_stored(&candidates[i], existing, source) {
            skipped += 1;
        } else {
            let ghost before = transaction_views(to_insert@);
            let tx = candidates[i].clone();
            to_insert.push(tx);
            assert(transaction_views(to_insert@) =~= before.push(tx@));
        }
        i += 1;
    }
    proof {
        assert(cv.take(candidates@.len() as int) =~= cv);
        assert(transaction_views(to_insert@).len() == to_insert@.len());
    }
    let new: usize = to_insert.len();
    ReconcileOutcome {
        to_insert,
        stats: TransactionStats { discovered: candidates.len(), new, skipped },
    }
}

/// Every candidate is either new or already stored; what is new keeps its
/// source identifier.
pub proof fn lemma_new_or_stored(
    candidates: Seq<TransactionView>,
    existing: Seq<TransactionView>,
    source: Seq<char>,
    i: int,
)
    requires
        0 <= i < candidates.len(),
    ensures
        already_stored(candidates[i], existing, source) || new_transactions(
            candidates,
            existing,
            source,
        ).contains(candidates[i]),
{
    let pred = |t: TransactionView| !already_stored(t, existing, source);
    if pred(candidates[i]) {
        candidates.lemma_filter_contains(pred, i);
    }
}

/// A second pass over an unchanged pull takes nothing as new.
///
/// Let a first pass over `candidates` select what is new against
/// `existing`, and let the store hold all of it afterwards, beside what it
/// held before. A second pass over candidates with the same source
/// identifiers then finds every one of them stored: it counts no new
/// transaction and skips all it discovered. This holds of a pull in which
/// every transaction has a source identifier; one without is taken as new
/// on every pass, for nothing can tell that it is stored.
pub proof fn lemma_second_pass_inserts_nothing(
    candidates: Seq<TransactionView>,
    again: Seq<TransactionView>,
    existing: Seq<TransactionView>,
    source: Seq<char>,
)
    requires
        candidates.len() <= usize::MAX,
        again.len() == candidates.len(),
        forall|i: int|
            0 <= i < candidates.len() ==> native_id(#[trigger] candidates[i], source) is Some,
        forall|i: int|
            0 <= i < candidates.len() ==> native_id(#[trigger] again[i], source) == native_id(
                candidates[i],
                source,
            ),
    ensures
        ({
            let stored = existing + new_transactions(candidates, existing, source);
            let second = reconcile_stats(again, stored, source);
            &&& new_transactions(again, stored, source).len() == 0
            &&& second.new == 0
            &&& second.skipped == second.discovered
            &&& second.discovered == candidates.len()
        }),
{
    let first = new_transactions(candidates, existing, source);
    let stored = existing + first;
    let pred = |t: TransactionView| !already_stored(t, stored, source);
    assert forall|i: int| 0 <= i < again.len() implies !pred(#[trigger] again[i]) by {
        let k = native_id(candidates[i], source)->0;
        lemma_new_or_stored(candidates, existing, source, i);
        if already_stored(candidates[i], existing, source) {
            let j = choose|j: int|
                0 <= j < existing.len() && native_id(#[trigger] existing[j], source) == Some(k);
            assert(stored[j] == existing[j]);
            assert(is_known_id(stored, source, k));
        } else {
            let j = choose|j: int| 0 <= j < first.len() && first[j] == candidates[i];
            assert(stored[existing.len() + j] == first[j]);
            assert(is_known_id(stored, source, k));
        }
    }
    again.lemma_all_neg_filter_empty(pred);
}

/// A pull yields at most one candidate per transaction.
pub proof fn lemma_candidates_are_no_more(
    pulled: Seq<(Seq<char>, TransactionView)>,
    ids: Map<Seq<char>, u128>,
)
    ensures
        resolve_all(pulled, ids).len() <= pulled.len(),
    decreases pulled.len(),
{
    if pulled.len() > 0 {
        lemma_candidates_are_no_more(pulled.drop_last(), ids);
    }
}

/// Binding a transaction to its account leaves its source identifier as
/// it is.
pub proof fn lemma_rebind_keeps_native_id(tx: TransactionView, account_id: u128, source: Seq<char>)
    requires
        source != "fingerprint"@,
    ensures
        native_id(rebind(tx, account_id), source) == native_id(tx, source),
{
}

/// Two pulls that agree on the accounts they name and on the source
/// identifiers of their transactions yield candidates that agree on the
/// source identifiers, where the two tables know the same accounts.
pub proof fn lemma_candidates_agree(
    first: Seq<(Seq<char>, TransactionView)>,
    second: Seq<(Seq<char>, TransactionView)>,
    first_ids: Map<Seq<char>, u128>,
    second_ids: Map<Seq<char>, u128>,
    source: Seq<char>,
)
    requires
        source != "fingerprint"@,
        first.len() == second.len(),
        forall|i: int|
            0 <= i < first.len() ==> (#[trigger] second[i]).0 == first[i].0 && native_id(
                second[i].1,
                source,
            ) == native_id(first[i].1, source),
        forall|k: Seq<char>| first_ids.contains_key(k) <==> second_ids.contains_key(k),
    ensures
        resolve_all(first, first_ids).len() == resolve_all(second, second_ids).len(),
        forall|j: int|
            0 <= j < resolve_all(first, first_ids).len() ==> native_id(
                #[trigger] resolve_all(second, second_ids)[j],
                source,
            ) == native_id(resolve_all(first, first_ids)[j], source),
        forall|j: int|
            0 <= j < resolve_all(first, first_ids).len() ==> exists|i: int|
                0 <= i < first.len() && native_id(
                    #[trigger] resolve_all(first, first_ids)[j],
                    source,
                ) == native_id((#[trigger] first[i]).1, source),
    decreases first.len(),
{
    let f1 = |p: (Seq<char>, TransactionView)| resolve(p, first_ids);
    let f2 = |p: (Seq<char>, TransactionView)| resolve(p, second_ids);
    if first.len() > 0 {
        let a = first.drop_last();
        let b = second.drop_last();
        assert forall|i: int| 0 <= i < a.len() implies (#[trigger] b[i]).0 == a[i].0 && native_id(
            b[i].1,
            source,
        ) == native_id(a[i].1, source) by {
            assert(b[i] == second[i]);
            assert(a[i] == first[i]);
        }
        lemma_candidates_agree(a, b, first_ids, second_ids, source);
        let ra = resolve_all(a, first_ids);
        let rb = resolve_all(b, second_ids);
        let r1 = resolve_all(first, first_ids);
        let r2 = resolve_all(second, second_ids);
        let n = first.len() - 1;
        assert(second.last() == second[n]);
        assert(first.last() == first[n]);
        lemma_rebind_keeps_native_id(first.last().1, first_ids[first.last().0], source);
        lemma_rebind_keeps_native_id(second.last().1, second_ids[second.last().0], source);
        if first_ids.contains_key(first.last().0) {
            assert(r1 == ra + seq![rebind(first.last().1, first_ids[first.last().0])]);
            assert(r2 == rb + seq![rebind(second.last().1, second_ids[second.last().0])]);
        } else {
            assert(r1 == ra);
            assert(r2 == rb);
        }
        assert forall|j: int| 0 <= j < r1.len() implies exists|i: int|
            0 <= i < first.len() && native_id(#[trigger] r1[j], source) == native_id(
                (#[trigger] first[i]).1,
                source,
            ) by {
            if j < ra.len() {
                assert(r1[j] == ra[j]);
                let i = choose|i: int|
                    0 <= i < a.len() && native_id(ra[j], source) == native_id(
                        (#[trigger] a[i]).1,
                        source,
                    );
                assert(a[i] == first[i]);
            } else {
                assert(native_id(r1[j], source) == native_id(first[n].1, source));
            }
        }
    }
}

/// A second full sync of an unchanged source takes nothing as new.
///
/// Let a source be pulled twice, both pulls naming the same accounts for
/// transactions with the same source identifiers, and let both syncs know
/// the same accounts of the source. If the store holds after the first
/// sync what it held before and what the first sync found new, the second
/// sync discovers as many transactions as the first, finds none of them
/// new, and skips them all. This holds of a source that gives every
/// transaction an identifier.
pub proof fn lemma_second_sync_inserts_nothing(
    first: Seq<(Seq<char>, TransactionView)>,
    second: Seq<(Seq<char>, TransactionView)>,
    first_ids: Map<Seq<char>, u128>,
    second_ids: Map<Seq<char>, u128>,
    existing: Seq<TransactionView>,
    source: Seq<char>,
)
    requires
        source != "fingerprint"@,
        first.len() <= usize::MAX,
        first.len() == second.len(),
        forall|i: int|
            0 <= i < first.len() ==> (#[trigger] second[i]).0 == first[i].0 && native_id(
                second[i].1,
                source,
            ) == native_id(first[i].1, source),
        forall|i: int| 0 <= i < first.len() ==> native_id((#[trigger] first[i]).1, source) is Some,
        forall|k: Seq<char>| first_ids.contains_key(k) <==> second_ids.contains_key(k),
    ensures
        ({
            let candidates = resolve_all(first, first_ids);
            let again = resolve_all(second, second_ids);
            let stored = existing + new_transactions(candidates, existing, source);
            let stats = reconcile_stats(again, stored, source);
            &&& stats.discovered == candidates.len()
            &&& stats.new == 0
            &&& stats.skipped == stats.discovered
        }),
{
    let candidates = resolve_all(first, first_ids);
    let again = resolve_all(second, second_ids);
    lemma_candidates_agree(first, second, first_ids, second_ids, source);
    lemma_candidates_are_no_more(first, first_ids);
    assert forall|j: int| 0 <= j < candidates.len() implies native_id(
        #[trigger] candidates[j],
        source,
    ) is Some by {
        let i = choose|i: int|
            0 <= i < first.len() && native_id(candidates[j], source) == native_id(
                (#[trigger] first[i]).1,
                source,
            );
    }
    lemma_second_pass_inserts_nothing(candidates, again, existing, source);
}

} // verus!
