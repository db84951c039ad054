use treeline::amount::Amount;
use treeline::domain::Account;
use treeline::matching::{find_match, match_accounts};

fn account(name: &str, source_id: Option<&str>) -> Account {
    let mut a = Account::new(name.to_string());
    if let Some(id) = source_id {
        a.external_ids.insert("simplefin".to_string(), id.to_string());
    }
    a
}

#[test]
fn a_new_account_has_defaults() {
    let a = Account::new("Checking".to_string());
    assert_eq!(a.name, "Checking");
    assert_eq!(a.currency, "USD");
    assert!(a.nickname.is_none());
    assert!(a.account_type.is_none());
    assert!(a.balance.is_none());
    assert!(a.institution_name.is_none());
    assert!(a.external_ids.to_pairs().is_empty());
    assert_eq!(a.created_at, a.updated_at);
    assert!(a.is_valid());
    assert_ne!(a.id, Account::new("Checking".to_string()).id);
}

#[test]
fn a_copy_of_an_account_says_the_same() {
    let mut a = account("Checking", Some("acc-1"));
    a.balance = Some(Amount::from_hundredths(100));
    a.account_type = Some("checking".to_string());
    let b = a.clone();
    assert_eq!(b.id, a.id);
    assert_eq!(b.name, a.name);
    assert_eq!(b.balance, a.balance);
    assert_eq!(b.account_type, a.account_type);
    assert_eq!(b.external_ids.to_pairs(), a.external_ids.to_pairs());
}

#[test]
fn a_matched_account_keeps_identity_and_type() {
    let mut stored = account("Old name", Some("acc-1"));
    stored.account_type = Some("checking".to_string());
    stored.balance = Some(Amount::from_hundredths(100));
    stored.institution_name = Some("Old Bank".to_string());
    let mut pulled = account("New name", Some("acc-1"));
    pulled.balance = Some(Amount::from_hundredths(250));
    pulled.currency = "EUR".to_string();
    pulled.institution_name = Some("New Bank".to_string());
    pulled.account_type = Some("from source".to_string());

    let result = match_accounts(&vec![pulled.clone()], &vec![stored.clone()], "simplefin");
    assert_eq!(result.merged.len(), 1);
    let merged = &result.merged[0];
    assert_eq!(merged.id, stored.id);
    assert_ne!(merged.id, pulled.id);
    assert_eq!(merged.account_type, Some("checking".to_string()));
    assert_eq!(merged.name, "New name");
    assert_eq!(merged.currency, "EUR");
    assert_eq!(merged.balance, Some(Amount::from_hundredths(250)));
    assert_eq!(merged.institution_name, Some("New Bank".to_string()));
    assert_eq!(result.new_count, 0);
    assert!(result.untyped_new.is_empty());
}

#[test]
fn a_stored_account_without_type_gives_none() {
    let stored = account("Old", Some("acc-1"));
    let mut pulled = account("New", Some("acc-1"));
    pulled.account_type = Some("from source".to_string());
    let result = match_accounts(&vec![pulled], &vec![stored], "simplefin");
    assert_eq!(result.merged[0].account_type, None);
}

#[test]
fn an_unmatched_account_is_new() {
    let stored = account("Stored", Some("acc-1"));
    let pulled = account("Pulled", Some("acc-2"));
    let result = match_accounts(&vec![pulled.clone()], &vec![stored], "simplefin");
    assert_eq!(result.merged.len(), 1);
    assert_eq!(result.merged[0].id, pulled.id);
    assert_eq!(result.new_count, 1);
    assert_eq!(result.untyped_new.len(), 1);
    assert_eq!(result.untyped_new[0].id, pulled.id);
}

#[test]
fn a_new_account_with_type_is_not_flagged() {
    let mut pulled = account("Pulled", Some("acc-2"));
    pulled.account_type = Some("savings".to_string());
    let result = match_accounts(&vec![pulled], &vec![], "simplefin");
    assert_eq!(result.new_count, 1);
    assert!(result.untyped_new.is_empty());
}

#[test]
fn accounts_without_source_identifier_never_match() {
    let stored = account("Stored", None);
    let pulled = account("Pulled", None);
    let result = match_accounts(&vec![pulled.clone()], &vec![stored], "simplefin");
    assert_eq!(result.merged[0].id, pulled.id);
    assert_eq!(result.new_count, 1);
}

#[test]
fn the_first_of_several_matches_counts() {
    let first = account("First", Some("acc-1"));
    let second = account("Second", Some("acc-1"));
    let other = account("Other", Some("acc-9"));
    let pulled = account("Pulled", Some("acc-1"));
    let stored = vec![other, first.clone(), second];
    assert_eq!(find_match(&pulled, &stored, "simplefin"), Some(1));
    let result = match_accounts(&vec![pulled], &stored, "simplefin");
    assert_eq!(result.merged[0].id, first.id);
}

#[test]
fn matching_keeps_the_order_of_the_pull() {
    let stored = vec![account("S1", Some("a")), account("S2", Some("b"))];
    let pulled = vec![account("P-b", Some("b")), account("P-new", Some("z")), account("P-a", Some("a"))];
    let result = match_accounts(&pulled, &stored, "simplefin");
    assert_eq!(result.merged.len(), 3);
    assert_eq!(result.merged[0].id, stored[1].id);
    assert_eq!(result.merged[1].id, pulled[1].id);
    assert_eq!(result.merged[2].id, stored[0].id);
    assert_eq!(result.merged[0].name, "P-b");
    assert_eq!(result.new_count, 1);
}

#[test]
fn identifiers_of_another_source_do_not_match() {
    let mut stored = Account::new("Stored".to_string());
    stored.external_ids.insert("other".to_string(), "acc-1".to_string());
    let pulled = account("Pulled", Some("acc-1"));
    assert_eq!(find_match(&pulled, &vec![stored], "simplefin"), None);
}
