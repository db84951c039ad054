use treeline::desktop::{
    cli_demo_mode, csv_header_names, database_file_name, default_settings, demo_mode,
    failure_text, import_arguments, is_write_statement, plugin_entry_path, setup_arguments, split,
    strip, sync_arguments, ImportOptions,
};

fn text(s: &str) -> Option<String> {
    Some(s.to_string())
}

#[test]
fn the_environment_decides_the_demo_mode_where_it_speaks() {
    assert!(demo_mode(&text("true"), Some(false)));
    assert!(demo_mode(&text("YES"), None));
    assert!(demo_mode(&text("1"), None));
    assert!(!demo_mode(&text("false"), Some(true)));
    assert!(!demo_mode(&text("No"), Some(true)));
    assert!(!demo_mode(&text("0"), Some(true)));
}

#[test]
fn the_configuration_decides_the_demo_mode_otherwise() {
    assert!(demo_mode(&None, Some(true)));
    assert!(!demo_mode(&None, Some(false)));
    assert!(!demo_mode(&None, None));
    assert!(demo_mode(&text("maybe"), Some(true)));
    assert!(!demo_mode(&text(""), None));
}

#[test]
fn the_command_line_asks_the_environment_alone() {
    assert!(cli_demo_mode(&text("true")));
    assert!(cli_demo_mode(&text("Yes")));
    assert!(cli_demo_mode(&text("1")));
    assert!(!cli_demo_mode(&text("on")));
    assert!(!cli_demo_mode(&text("false")));
    assert!(!cli_demo_mode(&None));
    assert_eq!(database_file_name(true), "demo.duckdb");
    assert_eq!(database_file_name(false), "treeline.duckdb");
}

#[test]
fn statements_that_write_are_told_by_their_first_word() {
    assert!(is_write_statement("UPDATE t SET a = 1"));
    assert!(is_write_statement("  insert into t values (1)"));
    assert!(is_write_statement("\n\tDelete from t"));
    assert!(is_write_statement("create table t (a int)"));
    assert!(is_write_statement("DROP TABLE t"));
    assert!(is_write_statement("alter table t add b int"));
    assert!(is_write_statement("UPDATEX"));
    assert!(!is_write_statement("SELECT * FROM t"));
    assert!(!is_write_statement("WITH a AS (SELECT 1) SELECT * FROM a"));
    assert!(!is_write_statement("-- update\nSELECT 1"));
    assert!(!is_write_statement(""));
    assert!(!is_write_statement("UPDAT"));
}

#[test]
fn a_text_is_split_at_every_separator() {
    assert_eq!(split("a,b,c", ','), vec!["a", "b", "c"]);
    assert_eq!(split("", ','), vec![""]);
    assert_eq!(split(",", ','), vec!["", ""]);
    assert_eq!(split("a,,b,", ','), vec!["a", "", "b", ""]);
    assert_eq!(split("no separator", ','), vec!["no separator"]);
}

#[test]
fn quotes_are_taken_from_both_ends() {
    assert_eq!(strip("\"Date\"", '"'), "Date");
    assert_eq!(strip("\"\"a\"b\"\"", '"'), "a\"b");
    assert_eq!(strip("\"\"\"", '"'), "");
    assert_eq!(strip("", '"'), "");
    assert_eq!(strip("plain", '"'), "plain");
    assert_eq!(strip("\"open", '"'), "open");
}

#[test]
fn the_first_line_names_the_columns() {
    assert_eq!(
        csv_header_names("Date, \"Description\" ,Amount"),
        vec!["Date", "Description", "Amount"]
    );
    assert_eq!(csv_header_names("\" Date \""), vec![" Date "]);
    assert_eq!(csv_header_names(""), vec![""]);
}

#[test]
fn a_sync_is_invoked_with_json_output() {
    assert_eq!(sync_arguments(false), vec!["sync", "--json"]);
    assert_eq!(sync_arguments(true), vec!["sync", "--json", "--dry-run"]);
    assert_eq!(setup_arguments("tok"), vec!["setup", "simplefin", "--token", "tok"]);
}

#[test]
fn an_import_is_invoked_with_its_columns_and_switches() {
    let none = ImportOptions {
        date_column: None,
        amount_column: None,
        description_column: None,
        debit_column: None,
        credit_column: None,
        flip_signs: false,
        debit_negative: false,
    };
    assert_eq!(
        import_arguments("f.csv", "id-1", &none, false),
        vec!["import", "f.csv", "--account-id", "id-1", "--json"]
    );
    assert_eq!(
        import_arguments("f.csv", "id-1", &none, true),
        vec!["import", "f.csv", "--account-id", "id-1", "--preview", "--json"]
    );
    let all = ImportOptions {
        date_column: text("Date"),
        amount_column: text("Amount"),
        description_column: text("Memo"),
        debit_column: text("Debit"),
        credit_column: text("Credit"),
        flip_signs: true,
        debit_negative: true,
    };
    assert_eq!(
        import_arguments("f.csv", "id-1", &all, true),
        vec![
            "import",
            "f.csv",
            "--account-id",
            "id-1",
            "--preview",
            "--json",
            "--date-column",
            "Date",
            "--amount-column",
            "Amount",
            "--description-column",
            "Memo",
            "--debit-column",
            "Debit",
            "--credit-column",
            "Credit",
            "--flip-signs",
            "--debit-negative"
        ]
    );
}

#[test]
fn a_failure_shows_what_was_printed() {
    assert_eq!(failure_text("out".to_string(), "err".to_string()), "out");
    assert_eq!(failure_text(String::new(), "err".to_string()), "err");
    assert_eq!(failure_text(String::new(), String::new()), "");
    assert_eq!(plugin_entry_path("budget"), "plugins/budget/index.js");
}

#[test]
fn default_settings_are_json() {
    let parsed: serde_json::Value = serde_json::from_str(&default_settings()).unwrap();
    assert_eq!(parsed["app"]["theme"], "dark");
    assert_eq!(parsed["app"]["autoSyncOnStartup"], true);
    assert!(parsed["app"]["lastSyncDate"].is_null());
    assert!(parsed["plugins"].as_object().unwrap().is_empty());
}
