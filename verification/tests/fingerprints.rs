use treeline::amount::Amount;
use treeline::calendar::Date;
use treeline::domain::Transaction;
use treeline::fingerprint::{fingerprint, normalize_description};

fn day(text: &str) -> Date {
    Date::parse(text, "%Y-%m-%d").unwrap()
}

fn cents(n: i64) -> Amount {
    Amount::from_hundredths(n)
}

fn coffee() -> Option<String> {
    Some("Coffee Shop".to_string())
}

#[test]
fn descriptions_lose_their_separators() {
    assert_eq!(normalize_description("coffee shop"), "coffeeshop");
    assert_eq!(normalize_description("  pg&e utility-bill #42 "), "pgeutilitybill42");
    assert_eq!(normalize_description(""), "");
    assert_eq!(normalize_description("---"), "");
}

#[test]
fn the_normal_form_keeps_the_case_it_is_given() {
    assert_eq!(normalize_description("Coffee Shop"), "CoffeeShop");
    assert_eq!(normalize_description("PG&E"), "PGE");
}

fn is_left_of(part: &str, whole: &str) -> bool {
    let mut rest = whole.chars();
    part.chars().all(|c| rest.any(|w| w == c))
}

#[test]
fn the_normal_form_is_a_subsequence_of_letters_and_digits() {
    for text in ["Coffee Shop", "  PG&E Utility-Bill #42 ", "NULL x null_y", "a--b__c", "Straße 9"] {
        let normal = normalize_description(text);
        assert!(normal.chars().all(|c| c.is_alphanumeric()));
        assert!(is_left_of(&normal, text));
    }
}

#[test]
fn a_fingerprint_does_not_depend_on_case() {
    let upper = fingerprint(1, day("2024-01-05"), cents(-1234), &Some("COFFEE SHOP".to_string()));
    let lower = fingerprint(1, day("2024-01-05"), cents(-1234), &Some("coffee shop".to_string()));
    assert_eq!(upper, lower);
    assert_eq!(upper, fingerprint(1, day("2024-01-05"), cents(-1234), &coffee()));
}

#[test]
fn the_whole_word_null_is_removed_in_any_case() {
    assert_eq!(normalize_description("NULL Coffee"), "Coffee");
    assert_eq!(normalize_description("Coffee null"), "Coffee");
    assert_eq!(normalize_description("a Null b"), "ab");
    assert_eq!(normalize_description("null"), "");
    assert_eq!(normalize_description("null-null"), "");
    assert_eq!(normalize_description("(null)"), "");
}

#[test]
fn null_inside_a_word_stays() {
    assert_eq!(normalize_description("nullable"), "nullable");
    assert_eq!(normalize_description("annulled"), "annulled");
    assert_eq!(normalize_description("nullnull"), "nullnull");
    assert_eq!(normalize_description("null_value"), "nullvalue");
    assert_eq!(normalize_description("9null"), "9null");
}

#[test]
fn a_fingerprint_is_the_head_of_the_digest_in_hex() {
    assert_eq!(fingerprint(1, day("2024-01-05"), cents(-1234), &coffee()), "449f80c619ef11b4");
    assert_eq!(
        fingerprint(
            138101147531900207301164854559698313416,
            day("2024-10-01"),
            cents(10000),
            &Some("Payroll".to_string())
        ),
        "e6f2b14361277e7b"
    );
}

#[test]
fn a_fingerprint_without_description_hashes_an_empty_one() {
    assert_eq!(fingerprint(0, day("2024-01-05"), cents(0), &None), "c5c32fae5abda38e");
    assert_eq!(
        fingerprint(0, day("2024-01-05"), cents(0), &Some(String::new())),
        "c5c32fae5abda38e"
    );
}

#[test]
fn every_zero_is_written_alike() {
    let plain = fingerprint(0, day("2024-01-05"), Amount::new(0, 0).unwrap(), &None);
    let scaled = fingerprint(0, day("2024-01-05"), Amount::new(0, 5).unwrap(), &None);
    assert_eq!(plain, "c5c32fae5abda38e");
    assert_eq!(scaled, plain);
}

#[test]
fn digits_beyond_the_second_do_not_count() {
    let exact = fingerprint(1, day("2024-01-05"), cents(-1234), &coffee());
    let longer = fingerprint(1, day("2024-01-05"), Amount::new(-12349, 3).unwrap(), &coffee());
    assert_eq!(exact, longer);
}

#[test]
fn fingerprint_is_deterministic() {
    let first = fingerprint(1, day("2024-01-05"), cents(-1234), &coffee());
    let second = fingerprint(1, day("2024-01-05"), cents(-1234), &coffee());
    assert_eq!(first, second);
    assert_eq!(first.len(), 16);
    assert!(first.chars().all(|c| c.is_ascii_digit() || ('a'..='f').contains(&c)));
}

#[test]
fn fingerprint_is_sensitive_to_each_input() {
    let base = fingerprint(1, day("2024-01-05"), cents(-1234), &coffee());
    let other_account = fingerprint(2, day("2024-01-05"), cents(-1234), &coffee());
    let other_date = fingerprint(1, day("2024-01-06"), cents(-1234), &coffee());
    let other_amount = fingerprint(1, day("2024-01-05"), cents(-1235), &coffee());
    let other_text = fingerprint(1, day("2024-01-05"), cents(-1234), &Some("Tea Shop".to_string()));
    assert_eq!(other_account, "1228e9b9e7f74005");
    assert_eq!(other_date, "ec02ad504a9d8f73");
    assert_eq!(other_amount, "bccbcaf081bc7585");
    assert_eq!(other_text, "7036ca2cf08f291a");
    assert_ne!(base, other_account);
    assert_ne!(base, other_date);
    assert_ne!(base, other_amount);
    assert_ne!(base, other_text);
}

#[test]
fn descriptions_that_normalize_alike_share_a_fingerprint() {
    let a = fingerprint(1, day("2024-01-05"), cents(-1234), &Some("COFFEE-SHOP".to_string()));
    let b = fingerprint(1, day("2024-01-05"), cents(-1234), &coffee());
    assert_eq!(a, b);
}

#[test]
fn a_new_transaction_carries_its_fingerprint() {
    let tx = Transaction::new(1, cents(-1234), day("2024-01-05"));
    assert_eq!(tx.account_id, 1);
    assert_eq!(tx.posted_date, tx.transaction_date);
    assert!(tx.description.is_none());
    assert!(tx.tags.is_empty());
    assert_eq!(tx.created_at, tx.updated_at);
    assert_eq!(
        tx.external_ids.get("fingerprint").cloned(),
        Some(fingerprint(1, day("2024-01-05"), cents(-1234), &None))
    );
    assert_eq!(tx.calculate_fingerprint(), fingerprint(1, day("2024-01-05"), cents(-1234), &None));
}

#[test]
fn a_stored_fingerprint_is_never_computed_again() {
    let mut tx = Transaction::new(1, cents(-1234), day("2024-01-05"));
    let stored = tx.external_ids.get("fingerprint").cloned().unwrap();
    tx.description = Some("changed".to_string());
    tx.account_id = 7;
    tx.ensure_fingerprint();
    assert_eq!(tx.external_ids.get("fingerprint").cloned(), Some(stored.clone()));
    tx.external_ids.remove("fingerprint");
    tx.ensure_fingerprint();
    let fresh = tx.external_ids.get("fingerprint").cloned().unwrap();
    assert_ne!(fresh, stored);
    assert_eq!(fresh, fingerprint(7, day("2024-01-05"), cents(-1234), &tx.description));
}

#[test]
fn new_transactions_get_distinct_identifiers() {
    let a = Transaction::new(1, cents(1), day("2024-01-05"));
    let b = Transaction::new(1, cents(1), day("2024-01-05"));
    assert_ne!(a.id, b.id);
}
