//! What a desktop shell around the command line program needs to decide:
//! which database file is in use, whether a statement writes, what the
//! columns of a file are called, and how the program is to be invoked.

use vstd::prelude::*;
use vstd::string::*;
use crate::text::{
    chars_of,
    lowercase_text,
    opt_text,
    starts_with_text,
    text_of,
    text_starts_with,
    texts,
    to_lowercase,
    to_uppercase,
    trim,
    trimmed_text,
    uppercase_text,
};

verus! {

/// Whether a setting, in lower case, says yes: `true`, `1` or `yes`.
pub open spec fn says_yes(lower: Seq<char>) -> bool {
    lower == "true"@ || lower == "1"@ || lower == "yes"@
}

/// Whether a setting, in lower case, says no: `false`, `0` or `no`.
pub open spec fn says_no(lower: Seq<char>) -> bool {
    lower == "false"@ || lower == "0"@ || lower == "no"@
}

/// Whether the demo database is in use, for the shell: the environment
/// decides where it says yes or no, and else the configuration file does.
pub open spec fn spec_demo_mode(env_value: Option<Seq<char>>, config_value: Option<bool>) -> bool {
    let fallback = match config_value {
        Some(b) => b,
        None => false,
    };
    match env_value {
        Some(v) => if says_yes(lowercase_text(v)) {
            true
        } else if says_no(lowercase_text(v)) {
            false
        } else {
            fallback
        },
        None => fallback,
    }
}

/// Whether the demo database is in use, for the command line program: it
/// is, if the environment says yes.
pub open spec fn spec_cli_demo_mode(env_value: Option<Seq<char>>) -> bool {
    match env_value {
        Some(v) => says_yes(lowercase_text(v)),
        None => false,
    }
}

/// The words a statement that writes starts with.
pub open spec fn write_keywords() -> Seq<Seq<char>> {
    seq!["UPDATE"@, "INSERT"@, "DELETE"@, "CREATE"@, "DROP"@, "ALTER"@]
}

/// Whether a statement writes: whether, trimmed and in upper case, it
/// starts with one of the words for writing.
pub open spec fn spec_is_write(query: Seq<char>) -> bool {
    let t = uppercase_text(trimmed_text(query));
    exists|k: int| 0 <= k < write_keywords().len() && starts_with_text(t, #[trigger] write_keywords()[k])
}

/// The pieces of a text between the separators.
pub open spec fn split_on(s: Seq<char>, sep: char) -> Seq<Seq<char>>
    decreases s.len(),
{
    if s.len() == 0 {
        seq![Seq::<char>::empty()]
    } else {
        let before = split_on(s.drop_last(), sep);
        if s.last() == sep {
            before.push(Seq::<char>::empty())
        } else {
            before.update(before.len() - 1, before.last().push(s.last()))
        }
    }
}

/// Whether `lo` and `hi` bound what is left of `s` once every `c` at its
/// two ends is taken away.
pub open spec fn bounds_without(s: Seq<char>, c: char, lo: int, hi: int) -> bool {
    &&& 0 <= lo <= hi <= s.len()
    &&& forall|k: int| 0 <= k < lo ==> s[k] == c
    &&& forall|k: int| hi <= k < s.len() ==> s[k] == c
    &&& (lo < hi ==> s[lo] != c && s[hi - 1] != c)
}

/// Whether `r` is `s` without every `c` at its two ends.
pub open spec fn is_stripped(r: Seq<char>, s: Seq<char>, c: char) -> bool {
    exists|lo: int, hi: int| #[trigger] bounds_without(s, c, lo, hi) && r == s.subrange(lo, hi)
}

/// Whether `name` is what a piece of a header line names: the piece
/// trimmed, without the double quotes at its two ends.
pub open spec fn is_header_name(name: Seq<char>, piece: Seq<char>) -> bool {
    is_stripped(name, trimmed_text(piece), '"')
}

/// The arguments to run a sync with.
pub open spec fn spec_sync_arguments(dry_run: bool) -> Seq<Seq<char>> {
    if dry_run {
        seq!["sync"@, "--json"@, "--dry-run"@]
    } else {
        seq!["sync"@, "--json"@]
    }
}

/// An option with its value, where the value is given.
pub open spec fn optional_argument(name: Seq<char>, value: Option<Seq<char>>) -> Seq<Seq<char>> {
    match value {
        Some(v) => seq![name, v],
        None => Seq::empty(),
    }
}

/// A flag, where it is set.
pub open spec fn flag_argument(name: Seq<char>, set: bool) -> Seq<Seq<char>> {
    if set {
        seq![name]
    } else {
        Seq::empty()
    }
}

/// The columns and switches of an import.
pub struct ImportOptions {
    pub date_column: Option<String>,
    pub amount_column: Option<String>,
    pub description_column: Option<String>,
    pub debit_column: Option<String>,
    pub credit_column: Option<String>,
    pub flip_signs: bool,
    pub debit_negative: bool,
}

/// The arguments to run an import with, or a preview of one.
pub open spec fn spec_import_arguments(
    file_path: Seq<char>,
    account_id: Seq<char>,
    options: ImportOptions,
    preview: bool,
) -> Seq<Seq<char>> {
    seq!["import"@, file_path, "--account-id"@, account_id] + flag_argument("--preview"@, preview)
        + seq!["--json"@] + optional_argument("--date-column"@, opt_text(options.date_column))
        + optional_argument("--amount-column"@, opt_text(options.amount_column))
        + optional_argument("--description-column"@, opt_text(options.description_column))
        + optional_argument("--debit-column"@, opt_text(options.debit_column))
        + optional_argument("--credit-column"@, opt_text(options.credit_column)) + flag_argument(
        "--flip-signs"@,
        options.flip_signs,
    ) + flag_argument("--debit-negative"@, options.debit_negative)
}

/// Whether a setting read from the environment says yes.
fn is_yes(lower: &String) -> (r: bool)
    ensures
        r == says_yes(lower@),
{
    *lower == "true".to_owned() || *lower == "1".to_owned() || *lower == "yes".to_owned()
}

/// Whether a setting read from the environment says no.
fn is_no(lower: &String) -> (r: bool)
    ensures
        r == says_no(lower@),
{
    *lower == "false".to_owned() || *lower == "0".to_owned() || *lower == "no".to_owned()
}

/// Whether the demo database is in use, for the shell. `env_value` is the
/// environment's setting, `config_value` the one of the configuration
/// file, each where there is one.
pub fn demo_mode(env_value: &Option<String>, config_value: Option<bool>) -> (r: bool)
    ensures
        r == spec_demo_mode(opt_text(*env_value), config_value),
{
    let fallback: bool = match config_value {
        Some(b) => b,
        None => false,
    };
    match env_value {
        Some(v) => {
            let lower = to_lowercase(v.as_str());
            if is_yes(&lower) {
                true
            } else if is_no(&lower) {
                false
            } else {
                fallback
            }
        },
        None => fallback,
    }
}

/// Whether the demo database is in use, for the command line program.
pub fn cli_demo_mode(env_value: &Option<String>) -> (r: bool)
    ensures
        r == spec_cli_demo_mode(opt_text(*env_value)),
{
    match env_value {
        Some(v) => {
            let lower = to_lowercase(v.as_str());
            is_yes(&lower)
        },
        None => false,
    }
}

/// The name of the database file: one for the demo, one for the user's
/// own data.
pub fn database_file_name(demo_mode: bool) -> (r: String)
    ensures
        r@ == if demo_mode {
            "demo.duckdb"@
        } else {
            "treeline.duckdb"@
        },
{
    if demo_mode {
        "demo.duckdb".to_owned()
    } else {
        "treeline.duckdb".to_owned()
    }
}

/// Whether a statement writes to the database.
pub fn is_write_statement(query: &str) -> (r: bool)
    ensures
        r == spec_is_write(query@),
{
    let trimmed = trim(query);
    let upper = to_uppercase(trimmed.as_str());
    let t = chars_of(upper.as_str());
    let ghost ks = write_keywords();
    let r = text_starts_with(&t, &chars_of("UPDATE")) || text_starts_with(&t, &chars_of("INSERT"))
        || text_starts_with(&t, &chars_of("DELETE")) || text_starts_with(&t, &chars_of("CREATE"))
        || text_starts_with(&t, &chars_of("DROP")) || text_starts_with(&t, &chars_of("ALTER"));
    proof {
        assert(ks[0] == "UPDATE"@ && ks[1] == "INSERT"@ && ks[2] == "DELETE"@ && ks[3]
            == "CREATE"@ && ks[4] == "DROP"@ && ks[5] == "ALTER"@);
        if r {
            let k = if starts_with_text(t@, "UPDATE"@) {
                0int
            } else if starts_with_text(t@, "INSERT"@) {
                1int
            } else if starts_with_text(t@, "DELETE"@) {
                2int
            } else if starts_with_text(t@, "CREATE"@) {
                3int
            } else if starts_with_text(t@, "DROP"@) {
                4int
            } else {
                5int
            };
            assert(starts_with_text(t@, ks[k]));
        }
    }
    r
}

/// The pieces of a text between the separators.
pub fn split(s: &str, sep: char) -> (r: Vec<String>)
    ensures
        texts(r@) == split_on(s@, sep),
{
    let cs = chars_of(s);
    let mut done: Vec<String> = Vec::new();
    let mut current = String::new();
    let mut i: usize = 0;
    assert(cs@.take(0) =~= Seq::<char>::empty());
    assert(texts(done@).push(current@) =~= seq![Seq::<char>::empty()]);
    while i < cs.len()
        invariant
            i <= cs@.len(),
            texts(done@).push(current@) == split_on(cs@.take(i as int), sep),
        decreases cs@.len() - i,
    {
        let ghost before = split_on(cs@.take(i as int), sep);
        proof {
            assert(cs@.take(i + 1).drop_last() =~= cs@.take(i as int));
            assert(cs@.take(i + 1).last() == cs@[i as int]);
            assert(before.last() == current@);
            assert(before.len() == done@.len() + 1);
        }
        if cs[i] == sep {
            let ghost finished = texts(done@);
            done.push(current);
            current = String::new();
            assert(texts(done@).push(current@) =~= before.push(Seq::<char>::empty()));
        } else {
            crate::text::push_char(&mut current, cs[i]);
            assert(texts(done@).push(current@) =~= before.update(
                before.len() - 1,
                before.last().push(cs@[i as int]),
            ));
        }
        i += 1;
    }
    assert(cs@.take(cs@.len() as int) =~= cs@);
    let ghost whole = texts(done@).push(current@);
    done.push(current);
    assert(texts(done@) =~= whole);
    done
}

/// A text without every `c` at its two ends.
pub fn strip(s: &str, c: char) -> (r: String)
    ensures
        is_stripped(r@, s@, c),
{
    let cs = chars_of(s);
    let n: usize = cs.len();
    let mut lo: usize = 0;
    while lo < n && cs[lo] == c
        invariant
            lo <= n,
            n == cs@.len(),
            forall|k: int| 0 <= k < lo ==> cs@[k] == c,
        decreases n - lo,
    {
        lo += 1;
    }
    let mut hi: usize = n;
    while hi > lo && cs[hi - 1] == c
        invariant
            lo <= hi <= n,
            n == cs@.len(),
            forall|k: int| hi <= k < n ==> cs@[k] == c,
        decreases hi,
    {
        hi -= 1;
    }
    let mut out: Vec<char> = Vec::new();
    let mut i: usize = lo;
    while i < hi
        invariant
            lo <= i <= hi <= n,
            n == cs@.len(),
            out@ == cs@.subrange(lo as int, i as int),
        decreases hi - i,
    {
        out.push(cs[i]);
        assert(cs@.subrange(lo as int, i + 1) =~= cs@.subrange(lo as int, i as int).push(
            cs@[i as int],
        ));
        i += 1;
    }
    assert(bounds_without(cs@, c, lo as int, hi as int));
    text_of(&out)
}

/// The column names in the first line of a file: the pieces between the
/// commas, each trimmed and without the double quotes around it.
pub fn csv_header_names(first_line: &str) -> (r: Vec<String>)
    ensures
        r@.len() == split_on(first_line@, ',').len(),
        forall|i: int|
            0 <= i < r@.len() ==> is_header_name((#[trigger] r@[i])@, split_on(first_line@, ',')[i]),
{
    let pieces = split(first_line, ',');
    let mut out: Vec<String> = Vec::new();
    let mut i: usize = 0;
    assert(texts(pieces@).len() == pieces@.len());
    while i < pieces.len()
        invariant
            i <= pieces@.len(),
            texts(pieces@) == split_on(first_line@, ','),
            out@.len() == i,
            forall|k: int|
                0 <= k < i ==> is_header_name(
                    (#[trigger] out@[k])@,
                    split_on(first_line@, ',')[k],
                ),
        decreases pieces@.len() - i,
    {
        assert(texts(pieces@)[i as int] == pieces@[i as int]@);
        let trimmed = trim(pieces[i].as_str());
        out.push(strip(trimmed.as_str(), '"'));
        i += 1;
    }
    out
}

/// The arguments to run a sync with.
pub fn sync_arguments(dry_run: bool) -> (r: Vec<String>)
    ensures
        texts(r@) == spec_sync_arguments(dry_run),
{
    let mut args: Vec<String> = Vec::new();
    args.push("sync".to_owned());
    args.push("--json".to_owned());
    if dry_run {
        args.push("--dry-run".to_owned());
    }
    assert(texts(args@) =~= spec_sync_arguments(dry_run));
    args
}

/// Adds an option with its value, where the value is given.
fn push_option(args: &mut Vec<String>, name: &str, value: &Option<String>)
    ensures
        texts(final(args)@) == texts(old(args)@) + optional_argument(name@, opt_text(*value)),
{
    let ghost before = texts(args@);
    match value {
        Some(v) => {
            args.push(name.to_owned());
            args.push(v.clone());
            assert(texts(args@) =~= before + seq![name@, v@]);
        },
        None => {
            assert(texts(args@) =~= before + Seq::<Seq<char>>::empty());
        },
    }
}

/// Adds a flag, where it is set.
fn push_flag(args: &mut Vec<String>, name: &str, set: bool)
    ensures
        texts(final(args)@) == texts(old(args)@) + flag_argument(name@, set),
{
    let ghost before = texts(args@);
    if set {
        args.push(name.to_owned());
        assert(texts(args@) =~= before + seq![name@]);
    } else {
        assert(texts(args@) =~= before + Seq::<Seq<char>>::empty());
    }
}

/// The arguments to run an import with, or a preview of one.
pub fn import_arguments(file_path: &str, account_id: &str, options: &ImportOptions, preview: bool) -> (r:
    Vec<String>)
    ensures
        texts(r@) == spec_import_arguments(file_path@, account_id@, *options, preview),
{
    let mut args: Vec<String> = Vec::new();
    args.push("import".to_owned());
    args.push(file_path.to_owned());
    args.push("--account-id".to_owned());
    args.push(account_id.to_owned());
    assert(texts(args@) =~= seq!["import"@, file_path@, "--account-id"@, account_id@]);
    push_flag(&mut args, "--preview", preview);
    let ghost head = texts(args@);
    args.push("--json".to_owned());
    assert(texts(args@) =~= head + seq!["--json"@]);
    push_option(&mut args, "--date-column", &options.date_column);
    push_option(&mut args, "--amount-column", &options.amount_column);
    push_option(&mut args, "--description-column", &options.description_column);
    push_option(&mut args, "--debit-column", &options.debit_column);
    push_option(&mut args, "--credit-column", &options.credit_column);
    push_flag(&mut args, "--flip-signs", options.flip_signs);
    push_flag(&mut args, "--debit-negative", options.debit_negative);
    args
}

/// The arguments to set the aggregator up with.
pub fn setup_arguments(token: &str) -> (r: Vec<String>)
    ensures
        texts(r@) == seq!["setup"@, "simplefin"@, "--token"@, token@],
{
    let mut args: Vec<String> = Vec::new();
    args.push("setup".to_owned());
    args.push("simplefin".to_owned());
    args.push("--token".to_owned());
    args.push(token.to_owned());
    assert(texts(args@) =~= seq!["setup"@, "simplefin"@, "--token"@, token@]);
    args
}

/// What to show of a run of the program that failed: what it printed, or
/// what it printed as errors where it printed nothing else.
pub fn failure_text(stdout: String, stderr: String) -> (r: String)
    ensures
        r == if stdout@.len() > 0 {
            stdout
        } else {
            stderr
        },
{
    if stdout.as_str().unicode_len() > 0 {
        stdout
    } else {
        stderr
    }
}

/// The path of a plugin's entry file, from the name of its directory.
pub fn plugin_entry_path(directory_name: &str) -> (r: String)
    ensures
        r@ == "plugins/"@ + directory_name@ + "/index.js"@,
{
    let mut path = "plugins/".to_owned();
    path.append(directory_name);
    path.append("/index.js");
    path
}

/// The settings of a shell that has none yet, as JSON.
pub fn default_settings() -> (r: String)
    ensures
        r@ == "{\"app\":{\"autoSyncOnStartup\":true,\"lastSyncDate\":null,\"theme\":\"dark\"},\"plugins\":{}}"@,
{
    "{\"app\":{\"autoSyncOnStartup\":true,\"lastSyncDate\":null,\"theme\":\"dark\"},\"plugins\":{}}".to_owned()
}

} // verus!
