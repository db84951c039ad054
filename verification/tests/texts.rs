use treeline::amount::Amount;
use treeline::calendar::{Date, Timestamp};
use treeline::domain::{Account, BalanceSnapshot, Transaction};
use treeline::repository::{
    valid_accounts, valid_pulled, valid_snapshots, valid_transactions, QueryResult, QueryValue,
};
use treeline::text::{
    chars_of, clone_opt_text, clone_texts, decimal_digit, integer_to_text, natural_to_text,
    text_contains, text_ends_with, text_occurs_at, text_of, text_starts_with,
};

fn chars(s: &str) -> Vec<char> {
    s.chars().collect()
}

#[test]
fn texts_and_characters_convert_both_ways() {
    assert_eq!(chars_of("héllo"), vec!['h', 'é', 'l', 'l', 'o']);
    assert!(chars_of("").is_empty());
    assert_eq!(text_of(&vec!['a', 'ß', 'c']), "aßc");
    assert_eq!(text_of(&vec![]), "");
}

#[test]
fn a_text_is_searched_for_another() {
    assert!(text_contains(&chars("transaction date"), &chars("date")));
    assert!(text_contains(&chars("date"), &chars("date")));
    assert!(text_contains(&chars("date"), &chars("")));
    assert!(text_contains(&chars(""), &chars("")));
    assert!(!text_contains(&chars("dat"), &chars("date")));
    assert!(!text_contains(&chars("d a t e"), &chars("date")));
    assert!(text_occurs_at(&chars("abcabc"), &chars("bc"), 1));
    assert!(!text_occurs_at(&chars("abcabc"), &chars("bc"), 2));
    assert!(text_occurs_at(&chars("abcabc"), &chars("bc"), 4));
}

#[test]
fn a_text_starts_and_ends_with_another() {
    assert!(text_starts_with(&chars("UPDATE t"), &chars("UPDATE")));
    assert!(!text_starts_with(&chars(" UPDATE t"), &chars("UPDATE")));
    assert!(!text_starts_with(&chars("UP"), &chars("UPDATE")));
    assert!(text_ends_with(&chars("bridge.simplefin.org"), &chars("simplefin.org")));
    assert!(!text_ends_with(&chars("simplefin.org.example"), &chars("simplefin.org")));
    assert!(text_ends_with(&chars("x"), &chars("")));
    assert!(!text_ends_with(&chars("org"), &chars("simplefin.org")));
}

#[test]
fn integers_are_written_in_decimal() {
    assert_eq!(natural_to_text(0), "0");
    assert_eq!(natural_to_text(7), "7");
    assert_eq!(natural_to_text(10), "10");
    assert_eq!(natural_to_text(1_700_000_000), "1700000000");
    assert_eq!(natural_to_text(u64::MAX), "18446744073709551615");
    assert_eq!(integer_to_text(0), "0");
    assert_eq!(integer_to_text(-5), "-5");
    assert_eq!(integer_to_text(i64::MAX), "9223372036854775807");
    assert_eq!(integer_to_text(i64::MIN), "-9223372036854775808");
    assert_eq!(decimal_digit(0), '0');
    assert_eq!(decimal_digit(9), '9');
}

#[test]
fn optional_texts_and_lists_are_copied() {
    assert_eq!(clone_opt_text(&Some("a".to_string())), Some("a".to_string()));
    assert_eq!(clone_opt_text(&None), None);
    assert_eq!(
        clone_texts(&vec!["a".to_string(), "b".to_string()]),
        vec!["a".to_string(), "b".to_string()]
    );
    assert!(clone_texts(&vec![]).is_empty());
}

fn broken_amount() -> Amount {
    Amount { mantissa: 1, scale: 29 }
}

#[test]
fn only_well_formed_accounts_stay() {
    let good = Account::new("good".to_string());
    let mut with_balance = Account::new("balance".to_string());
    with_balance.balance = Some(Amount::from_hundredths(5));
    let mut bad = Account::new("bad".to_string());
    bad.balance = Some(broken_amount());
    assert!(!bad.is_valid());
    let kept = valid_accounts(&vec![good.clone(), bad, with_balance.clone()]);
    assert_eq!(kept.iter().map(|a| a.id).collect::<Vec<_>>(), vec![good.id, with_balance.id]);
}

#[test]
fn only_well_formed_transactions_stay() {
    let good = Transaction::new(1, Amount::from_hundredths(5), Date { days: 10 });
    let mut bad_amount = good.clone();
    bad_amount.amount = broken_amount();
    let mut bad_date = good.clone();
    bad_date.transaction_date = Date { days: i32::MAX };
    assert!(good.is_valid());
    assert!(!bad_amount.is_valid());
    assert!(!bad_date.is_valid());
    let kept = valid_transactions(&vec![bad_amount.clone(), good.clone(), bad_date.clone()]);
    assert_eq!(kept.len(), 1);
    assert_eq!(kept[0].id, good.id);
    let pulled = valid_pulled(&vec![
        ("a".to_string(), bad_date),
        ("b".to_string(), good.clone()),
        ("c".to_string(), bad_amount),
    ]);
    assert_eq!(pulled.len(), 1);
    assert_eq!(pulled[0].0, "b");
}

#[test]
fn only_well_formed_snapshots_stay() {
    let good = BalanceSnapshot::new(1, Amount::from_hundredths(5), Timestamp { secs: 0, nanos: 0 });
    let mut bad_balance = good;
    bad_balance.balance = broken_amount();
    let mut bad_time = good;
    bad_time.snapshot_time = Timestamp { secs: i64::MAX, nanos: 0 };
    assert!(good.is_valid());
    assert_eq!(valid_snapshots(&vec![bad_balance, good, bad_time]), vec![good]);
    assert_eq!(good.created_at, good.updated_at);
    assert_ne!(good.id, 0);
}

#[test]
fn the_first_row_of_an_answer_is_read() {
    let answer = QueryResult {
        columns: vec!["n".to_string(), "t".to_string()],
        rows: vec![
            vec![QueryValue::Integer(3), QueryValue::Text("x".to_string())],
            vec![QueryValue::Integer(4), QueryValue::Null],
        ],
        row_count: 2,
    };
    assert_eq!(answer.first_row_cell(0).and_then(|c| c.as_i64()), Some(3));
    assert_eq!(answer.first_row_cell(1).and_then(|c| c.as_str()).cloned(), Some("x".to_string()));
    assert!(answer.first_row_cell(2).is_none());
    let empty = QueryResult { columns: vec![], rows: vec![], row_count: 0 };
    assert!(empty.first_row_cell(0).is_none());
}

#[test]
fn trimming_takes_the_white_space_off_both_ends() {
    assert_eq!(treeline::text::trim("  a b \t\n"), "a b");
    assert_eq!(treeline::text::trim("a"), "a");
    assert_eq!(treeline::text::trim(""), "");
    assert_eq!(treeline::text::trim(" \t \r\n"), "");
    assert_eq!(treeline::text::trim("\u{a0}x\u{3000}"), "x");
    assert_eq!(treeline::text::trim("\u{200b}x "), "\u{200b}x");
}

#[test]
fn trimming_agrees_with_the_standard_library() {
    for text in ["", " ", "x", " x", "x ", "  x  y  ", "\n\tx\u{2003}", "\u{feff}x", "é \u{85}", "   \u{1680}"] {
        assert_eq!(treeline::text::trim(text), text.trim(), "{:?}", text);
    }
}
