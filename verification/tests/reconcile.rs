use treeline::amount::Amount;
use treeline::calendar::Date;
use treeline::domain::{Account, Transaction};
use treeline::fingerprint::fingerprint;
use treeline::reconcile::{
    account_id_map, is_already_stored, lookup_keys, partition_new, resolve_transactions,
    AccountIdMap, TransactionStats,
};

fn day() -> Date {
    Date::parse("2024-01-05", "%Y-%m-%d").unwrap()
}

fn account(source_id: &str) -> Account {
    let mut a = Account::new(source_id.to_string());
    a.external_ids.insert("simplefin".to_string(), source_id.to_string());
    a
}

fn pulled(native: Option<&str>, cents: i64, description: &str) -> Transaction {
    let mut tx = Transaction::new(0, Amount::from_hundredths(cents), day());
    tx.description = Some(description.to_string());
    if let Some(id) = native {
        tx.external_ids.insert("simplefin".to_string(), id.to_string());
    }
    tx
}

#[test]
fn the_table_maps_source_names_to_identifiers() {
    let a = account("acc-1");
    let b = account("acc-2");
    let plain = Account::new("no source id".to_string());
    let map = account_id_map(&vec![a.clone(), plain, b.clone()], "simplefin");
    assert_eq!(map.get(&"acc-1".to_string()), Some(a.id));
    assert_eq!(map.get(&"acc-2".to_string()), Some(b.id));
    assert_eq!(map.get(&"acc-3".to_string()), None);
}

#[test]
fn the_later_of_two_entries_counts() {
    let mut map = AccountIdMap::new();
    assert_eq!(map.get(&"k".to_string()), None);
    map.insert("k".to_string(), 1);
    map.insert("other".to_string(), 7);
    map.insert("k".to_string(), 2);
    assert_eq!(map.get(&"k".to_string()), Some(2));
    assert_eq!(map.get(&"other".to_string()), Some(7));
}

#[test]
fn orphans_are_dropped() {
    let a = account("acc-1");
    let map = account_id_map(&vec![a.clone()], "simplefin");
    let pull = vec![
        ("acc-1".to_string(), pulled(Some("t1"), -1234, "Coffee Shop")),
        ("acc-unknown".to_string(), pulled(Some("t2"), -500, "Orphan")),
        ("acc-1".to_string(), pulled(Some("t3"), 2500, "Refund")),
    ];
    let candidates = resolve_transactions(&pull, &map);
    assert_eq!(candidates.len(), 2);
    assert_eq!(candidates[0].external_ids.get("simplefin").cloned(), Some("t1".to_string()));
    assert_eq!(candidates[1].external_ids.get("simplefin").cloned(), Some("t3".to_string()));
    assert_eq!(candidates[0].account_id, a.id);
    assert_eq!(candidates[1].account_id, a.id);
}

#[test]
fn resolved_transactions_get_the_fingerprint_of_their_final_content() {
    let a = account("acc-1");
    let map = account_id_map(&vec![a.clone()], "simplefin");
    let tx = pulled(Some("t1"), -1234, "Coffee Shop");
    let stale = tx.external_ids.get("fingerprint").cloned().unwrap();
    let candidates = resolve_transactions(&vec![("acc-1".to_string(), tx)], &map);
    let fresh = candidates[0].external_ids.get("fingerprint").cloned().unwrap();
    assert_eq!(
        fresh,
        fingerprint(a.id, day(), Amount::from_hundredths(-1234), &Some("Coffee Shop".to_string()))
    );
    assert_ne!(fresh, stale);
}

#[test]
fn lookup_keys_name_the_source() {
    let with = pulled(Some("t1"), -1234, "Coffee");
    let without = pulled(None, -1, "Cash");
    let keys = lookup_keys(&vec![with, without], "simplefin");
    assert_eq!(keys.len(), 1);
    assert_eq!(keys[0].to_pairs(), vec![("simplefin".to_string(), "t1".to_string())]);
}

#[test]
fn a_candidate_is_skipped_if_its_source_identifier_is_stored() {
    let candidates = vec![pulled(Some("t1"), -1234, "Coffee"), pulled(Some("t2"), -500, "Tea")];
    let existing = vec![pulled(Some("t1"), -9999, "Something else")];
    assert!(is_already_stored(&candidates[0], &existing, "simplefin"));
    assert!(!is_already_stored(&candidates[1], &existing, "simplefin"));
    let outcome = partition_new(&candidates, &existing, "simplefin");
    assert_eq!(outcome.stats, TransactionStats { discovered: 2, new: 1, skipped: 1 });
    assert_eq!(outcome.to_insert.len(), 1);
    assert_eq!(outcome.to_insert[0].id, candidates[1].id);
}

#[test]
fn a_candidate_without_source_identifier_is_always_new() {
    let candidates = vec![pulled(None, -1234, "Cash")];
    let existing = vec![pulled(None, -1234, "Cash"), pulled(Some("t1"), -1234, "Cash")];
    let outcome = partition_new(&candidates, &existing, "simplefin");
    assert_eq!(outcome.stats, TransactionStats { discovered: 1, new: 1, skipped: 0 });
}

#[test]
fn an_empty_pull_counts_nothing() {
    let outcome = partition_new(&vec![], &vec![pulled(Some("t1"), 1, "x")], "simplefin");
    assert_eq!(outcome.stats, TransactionStats { discovered: 0, new: 0, skipped: 0 });
    assert!(outcome.to_insert.is_empty());
}

#[test]
fn a_second_pass_takes_nothing_as_new() {
    let candidates = vec![
        pulled(Some("t1"), -1234, "Coffee"),
        pulled(Some("t2"), -500, "Tea"),
        pulled(Some("t3"), 100, "Refund"),
    ];
    let existing = vec![pulled(Some("t2"), -500, "Tea")];
    let first = partition_new(&candidates, &existing, "simplefin");
    assert_eq!(first.stats, TransactionStats { discovered: 3, new: 2, skipped: 1 });
    let mut stored = existing;
    stored.extend(first.to_insert);
    let again = vec![
        pulled(Some("t1"), -1234, "Coffee"),
        pulled(Some("t2"), -500, "Tea"),
        pulled(Some("t3"), 100, "Refund"),
    ];
    let second = partition_new(&again, &stored, "simplefin");
    assert_eq!(second.stats, TransactionStats { discovered: 3, new: 0, skipped: 3 });
    assert!(second.to_insert.is_empty());
}

#[test]
fn what_is_new_keeps_the_order_of_the_pull() {
    let candidates = vec![
        pulled(Some("t1"), 1, "a"),
        pulled(Some("t2"), 2, "b"),
        pulled(Some("t3"), 3, "c"),
        pulled(Some("t4"), 4, "d"),
    ];
    let existing = vec![pulled(Some("t3"), 3, "c"), pulled(Some("t1"), 1, "a")];
    let outcome = partition_new(&candidates, &existing, "simplefin");
    assert_eq!(outcome.to_insert.len(), 2);
    assert_eq!(outcome.to_insert[0].id, candidates[1].id);
    assert_eq!(outcome.to_insert[1].id, candidates[3].id);
}
