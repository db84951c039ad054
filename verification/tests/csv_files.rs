use treeline::amount::Amount;
use treeline::calendar::Date;
use treeline::infra::columns::detect_from_headers;
use treeline::infra::csv_provider::{
    all_positive_sample, clean_description, column_index, first_transactions, parse_amount,
    parse_date, sample_amounts, transactions_of_rows,
};
use treeline::infra::{CSVProvider, ColumnMapping};

fn day(text: &str) -> Date {
    Date::parse(text, "%Y-%m-%d").unwrap()
}

fn cents(n: i64) -> Amount {
    Amount::from_hundredths(n)
}

fn headers(names: &[&str]) -> Vec<String> {
    names.iter().map(|s| s.to_string()).collect()
}

fn mapping(date: &str, description: &str, amount: &str) -> ColumnMapping {
    let mut m = ColumnMapping::new();
    m.date = Some(date.to_string());
    m.description = Some(description.to_string());
    m.amount = Some(amount.to_string());
    m
}

const FILE: &str = "Date,Description,Amount\n2024-01-05,Coffee Shop,-12.34\n01/06/2024,  Payroll   NULL ,\"$3,500.00\"\nnot a date,Broken,1.00\n2024-01-07,No amount,\n2024-01-08,Refund,(20.00)\n";

#[test]
fn an_empty_mapping_names_no_column() {
    let m = ColumnMapping::new();
    assert!(m.date.is_none());
    assert!(m.description.is_none());
    assert!(m.amount.is_none());
    assert!(m.debit.is_none());
    assert!(m.credit.is_none());
    assert!(m.posted_date.is_none());
    let _ = CSVProvider::new();
}

#[test]
fn dates_are_read_under_six_formats() {
    assert_eq!(parse_date("2024-10-01"), Some(day("2024-10-01")));
    assert_eq!(parse_date("10/01/2024"), Some(day("2024-10-01")));
    assert_eq!(parse_date("13/10/2024"), Some(day("2024-10-13")));
    assert_eq!(parse_date("2024/10/01"), Some(day("2024-10-01")));
    assert_eq!(parse_date("10-01-2024"), Some(day("2024-10-01")));
    assert_eq!(parse_date("13-10-2024"), Some(day("2024-10-13")));
    assert_eq!(parse_date("  2024-10-01  "), Some(day("2024-10-01")));
}

#[test]
fn month_comes_first_where_both_orders_fit() {
    assert_eq!(parse_date("01/02/2024"), Some(day("2024-01-02")));
    assert_eq!(parse_date("01-02-2024"), Some(day("2024-01-02")));
}

#[test]
fn what_is_no_date_is_refused() {
    assert_eq!(parse_date(""), None);
    assert_eq!(parse_date("   "), None);
    assert_eq!(parse_date("soon"), None);
    assert_eq!(parse_date("2024-02-30"), None);
}

#[test]
fn amounts_are_read_without_their_fillers() {
    assert_eq!(parse_amount("12.34"), Some(cents(1234)));
    assert_eq!(parse_amount("$1,234.56"), Some(cents(123456)));
    assert_eq!(parse_amount(" - 5.00 "), Some(cents(-500)));
    assert_eq!(parse_amount("1 000"), Some(Amount::new(1000, 0).unwrap()));
    assert_eq!(parse_amount("-0.5"), Some(Amount::new(-5, 1).unwrap()));
}

#[test]
fn parentheses_mean_a_negative_amount() {
    assert_eq!(parse_amount("(100.00)"), Some(cents(-10000)));
    assert_eq!(parse_amount("($1,000.50)"), Some(cents(-100050)));
    assert_eq!(parse_amount("()"), None);
    assert_eq!(parse_amount("(5"), None);
}

#[test]
fn what_is_no_amount_is_refused() {
    assert_eq!(parse_amount(""), None);
    assert_eq!(parse_amount("   "), None);
    assert_eq!(parse_amount("$"), None);
    assert_eq!(parse_amount("abc"), None);
}

#[test]
fn descriptions_are_made_clean() {
    assert_eq!(clean_description("  Coffee   Shop "), "Coffee Shop");
    assert_eq!(clean_description("NULL Payment null"), "Payment");
    assert_eq!(clean_description("nullable"), "nullable");
    assert_eq!(clean_description("CARD XXXXXXXXXXXX1234 STORE"), "CARD STORE");
    assert_eq!(clean_description("CARD xxxx1234 STORE"), "CARD xxxx1234 STORE");
    assert_eq!(clean_description("a\t\nb"), "a b");
    assert_eq!(clean_description(""), "");
}

#[test]
fn the_first_column_of_a_name_is_found() {
    let hs = headers(&["Date", "Amount", "Date"]);
    assert_eq!(column_index(&hs, &"Date".to_string()), Some(0));
    assert_eq!(column_index(&hs, &"Amount".to_string()), Some(1));
    assert_eq!(column_index(&hs, &"date".to_string()), None);
}

#[test]
fn headers_are_read_from_a_file() {
    let r = CSVProvider::get_headers(FILE.as_bytes());
    assert!(r.success);
    assert_eq!(r.data, Some(headers(&["Date", "Description", "Amount"])));
    assert!(r.error.is_none());
}

#[test]
fn headers_that_cannot_be_read_fail() {
    let r = CSVProvider::get_headers(&[0xff, 0xfe, b',', b'a', b'\n']);
    assert!(!r.success);
    assert!(r.data.is_none());
    assert!(r.error.unwrap().starts_with("Failed to read headers: "));
    let t = CSVProvider::get_transactions(&[0xff, b'\n'], &ColumnMapping::new(), false, false);
    assert!(!t.success);
    assert!(t.error.unwrap().starts_with("Failed to read headers: "));
    assert!(!CSVProvider::detect_columns(&[0xff, b'\n']).success);
    assert!(!CSVProvider::should_negate_debits(&[0xff, b'\n'], "Debit").success);
    assert!(!CSVProvider::preview_transactions(&[0xff, b'\n'], &ColumnMapping::new(), 5, false, false).success);
}

#[test]
fn rows_become_transactions() {
    let r = CSVProvider::get_transactions(
        FILE.as_bytes(),
        &mapping("Date", "Description", "Amount"),
        false,
        false,
    );
    assert!(r.success);
    let txs = r.data.unwrap();
    assert_eq!(txs.len(), 3);
    assert_eq!(txs[0].transaction_date, day("2024-01-05"));
    assert_eq!(txs[0].amount, cents(-1234));
    assert_eq!(txs[0].description, Some("Coffee Shop".to_string()));
    assert_eq!(txs[1].transaction_date, day("2024-01-06"));
    assert_eq!(txs[1].amount, cents(350000));
    assert_eq!(txs[1].description, Some("Payroll".to_string()));
    assert_eq!(txs[2].transaction_date, day("2024-01-08"));
    assert_eq!(txs[2].amount, cents(-2000));
    for tx in &txs {
        assert_eq!(tx.account_id, 0);
        assert_eq!(tx.posted_date, tx.transaction_date);
        assert!(tx.external_ids.to_pairs().is_empty());
        assert!(tx.tags.is_empty());
        assert!(tx.is_valid());
    }
    assert_ne!(txs[0].id, txs[1].id);
}

#[test]
fn signs_are_flipped_on_demand() {
    let r = CSVProvider::get_transactions(
        FILE.as_bytes(),
        &mapping("Date", "Description", "Amount"),
        true,
        false,
    );
    let txs = r.data.unwrap();
    assert_eq!(txs[0].amount, cents(1234));
    assert_eq!(txs[1].amount, cents(-350000));
    assert_eq!(txs[2].amount, cents(2000));
}

#[test]
fn a_missing_description_column_gives_no_description() {
    let mut m = mapping("Date", "Description", "Amount");
    m.description = None;
    let txs = CSVProvider::get_transactions(FILE.as_bytes(), &m, false, false).data.unwrap();
    assert_eq!(txs.len(), 3);
    assert!(txs[0].description.is_none());
    m.description = Some("Not there".to_string());
    let txs = CSVProvider::get_transactions(FILE.as_bytes(), &m, false, false).data.unwrap();
    assert!(txs[0].description.is_none());
}

#[test]
fn without_a_date_column_no_row_counts() {
    let mut m = mapping("Date", "Description", "Amount");
    m.date = None;
    assert!(CSVProvider::get_transactions(FILE.as_bytes(), &m, false, false).data.unwrap().is_empty());
    m.date = Some("When".to_string());
    assert!(CSVProvider::get_transactions(FILE.as_bytes(), &m, false, false).data.unwrap().is_empty());
}

#[test]
fn debit_and_credit_columns_stand_in_for_an_amount() {
    let file = "Date,Memo,Debit,Credit\n2024-01-05,both,5.00,4.00\n2024-01-06,both,-3.00,4.00\n2024-01-07,debit,7.00,\n2024-01-08,credit,,9.00\n2024-01-09,none,,\n2024-01-10,equal,4.00,4.00\n";
    let mut m = ColumnMapping::new();
    m.date = Some("Date".to_string());
    m.debit = Some("Debit".to_string());
    m.credit = Some("Credit".to_string());
    let plain = CSVProvider::get_transactions(file.as_bytes(), &m, false, false).data.unwrap();
    let amounts: Vec<Amount> = plain.iter().map(|t| t.amount).collect();
    assert_eq!(amounts, vec![cents(500), cents(400), cents(700), cents(900), cents(400)]);
    let negated = CSVProvider::get_transactions(file.as_bytes(), &m, false, true).data.unwrap();
    let amounts: Vec<Amount> = negated.iter().map(|t| t.amount).collect();
    assert_eq!(amounts, vec![cents(500), cents(400), cents(-700), cents(900), cents(400)]);
}

#[test]
fn records_of_the_wrong_length_are_passed_over() {
    let file = "Date,Amount\n2024-01-05,1.00\n2024-01-06,2.00,extra\n2024-01-07,3.00\n";
    let mut m = ColumnMapping::new();
    m.date = Some("Date".to_string());
    m.amount = Some("Amount".to_string());
    let txs = CSVProvider::get_transactions(file.as_bytes(), &m, false, false).data.unwrap();
    let amounts: Vec<Amount> = txs.iter().map(|t| t.amount).collect();
    assert_eq!(amounts, vec![cents(100), cents(300)]);
}

#[test]
fn rows_that_were_read_already_become_transactions() {
    let hs = headers(&["Date", "Amount"]);
    let records = vec![
        Some(headers(&["2024-01-05", "1.00"])),
        None,
        Some(headers(&["2024-01-06"])),
        Some(headers(&["2024-01-07", "2.00"])),
    ];
    let mut m = ColumnMapping::new();
    m.date = Some("Date".to_string());
    m.amount = Some("Amount".to_string());
    let txs = transactions_of_rows(&hs, &records, &m, false, false);
    assert_eq!(txs.len(), 2);
    assert_eq!(txs[1].transaction_date, day("2024-01-07"));
}

#[test]
fn a_preview_shows_the_first_rows() {
    let m = mapping("Date", "Description", "Amount");
    let two = CSVProvider::preview_transactions(FILE.as_bytes(), &m, 2, false, false).data.unwrap();
    assert_eq!(two.len(), 2);
    assert_eq!(two[1].amount, cents(350000));
    let all = CSVProvider::preview_transactions(FILE.as_bytes(), &m, 10, false, false).data.unwrap();
    assert_eq!(all.len(), 3);
    let none = CSVProvider::preview_transactions(FILE.as_bytes(), &m, 0, false, false).data.unwrap();
    assert!(none.is_empty());
    let txs = CSVProvider::get_transactions(FILE.as_bytes(), &m, false, false).data.unwrap();
    assert_eq!(first_transactions(txs, 1).len(), 1);
}

#[test]
fn columns_are_guessed_from_their_names() {
    let m = detect_from_headers(&headers(&["Posting Date", "Payee", "Amount", "Category"]));
    assert_eq!(m.date, Some("Posting Date".to_string()));
    assert_eq!(m.description, Some("Payee".to_string()));
    assert_eq!(m.amount, Some("Amount".to_string()));
    assert_eq!(m.debit, None);
    assert_eq!(m.credit, None);
    assert_eq!(m.posted_date, None);
}

#[test]
fn debit_and_credit_are_the_last_that_fit() {
    let m = detect_from_headers(&headers(&[
        "Trans Date",
        "Debit",
        "Credit",
        "Withdrawal",
        "Deposit",
        "Reference",
    ]));
    assert_eq!(m.date, Some("Trans Date".to_string()));
    assert_eq!(m.amount, None);
    assert_eq!(m.debit, Some("Withdrawal".to_string()));
    assert_eq!(m.credit, Some("Deposit".to_string()));
    assert_eq!(m.description, Some("Reference".to_string()));
}

#[test]
fn the_date_column_is_never_the_description() {
    let m = detect_from_headers(&headers(&["Date Description", "Memo", "Total"]));
    assert_eq!(m.date, Some("Date Description".to_string()));
    assert_eq!(m.description, Some("Memo".to_string()));
    assert_eq!(m.amount, Some("Total".to_string()));
    let only = detect_from_headers(&headers(&["Date Description", "Total"]));
    assert_eq!(only.description, None);
}

#[test]
fn nothing_is_guessed_from_unknown_names() {
    let m = detect_from_headers(&headers(&["A", "B", "C"]));
    assert!(m.date.is_none() && m.amount.is_none() && m.description.is_none());
    assert!(m.debit.is_none() && m.credit.is_none());
    let detected = CSVProvider::detect_columns(FILE.as_bytes()).data.unwrap();
    assert_eq!(detected.date, Some("Date".to_string()));
    assert_eq!(detected.description, Some("Description".to_string()));
    assert_eq!(detected.amount, Some("Amount".to_string()));
}

#[test]
fn debits_are_negated_if_a_sample_is_all_positive() {
    let positive = "Date,Debit\n2024-01-05,5.00\n2024-01-06,3.00\n";
    let mixed = "Date,Debit\n2024-01-05,5.00\n2024-01-06,-3.00\n";
    let single = "Date,Debit\n2024-01-05,5.00\n";
    assert_eq!(CSVProvider::should_negate_debits(positive.as_bytes(), "Debit").data, Some(true));
    assert_eq!(CSVProvider::should_negate_debits(mixed.as_bytes(), "Debit").data, Some(false));
    assert_eq!(CSVProvider::should_negate_debits(single.as_bytes(), "Debit").data, Some(false));
    assert_eq!(CSVProvider::should_negate_debits(positive.as_bytes(), "Other").data, Some(false));
    assert!(all_positive_sample(&vec![cents(1), cents(2)]));
    assert!(!all_positive_sample(&vec![cents(1), cents(0)]));
    assert!(!all_positive_sample(&vec![cents(1)]));
}

#[test]
fn a_sample_takes_the_first_rows_only() {
    let mut records = Vec::new();
    for i in 0..12 {
        records.push(Some(vec![format!("{}.00", i + 1)]));
    }
    records.insert(1, None);
    records.insert(2, Some(vec!["n/a".to_string()]));
    let sample = sample_amounts(&records, 0, 10);
    assert_eq!(sample.len(), 8);
    assert_eq!(sample[0], cents(100));
    assert_eq!(sample[7], cents(800));
    assert!(sample_amounts(&records, 3, 10).is_empty());
}
