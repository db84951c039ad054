//! Guessing what the columns of a spreadsheet file hold, from their names.
//!
//! A column's name is compared in lower case with a few words: the first
//! column whose name holds a word for dates is the date column, and so on.

use vstd::prelude::*;
use vstd::string::*;
use crate::domain::ServiceResult;
use crate::infra::csv_provider::{csv_header_row, CSVProvider, ColumnMapping, ColumnMappingView};
use crate::text::{chars_of, contains_text, lowercase_text, text_contains, texts, to_lowercase};

verus! {

/// The words that mark a date column.
pub open spec fn date_patterns() -> Seq<Seq<char>> {
    seq!["date"@, "transaction date"@, "trans date"@, "txn date"@, "posted"@, "post date"@]
}

/// The words that mark a description column.
pub open spec fn description_patterns() -> Seq<Seq<char>> {
    seq![
        "description"@,
        "desc"@,
        "memo"@,
        "payee"@,
        "merchant"@,
        "details"@,
        "narration"@,
    ]
}

/// The words that mark a description column where none of the first
/// choice is found.
pub open spec fn fallback_patterns() -> Seq<Seq<char>> {
    seq!["name"@, "type"@, "ref"@, "reference"@, "category"@]
}

/// The words that mark an amount column.
pub open spec fn amount_patterns() -> Seq<Seq<char>> {
    seq!["amount"@, "amt"@, "total"@, "transaction amount"@]
}

/// The words that mark a debit column.
pub open spec fn debit_patterns() -> Seq<Seq<char>> {
    seq!["debit"@, "dr"@, "withdrawal"@, "debit amount"@]
}

/// The words that mark a credit column.
pub open spec fn credit_patterns() -> Seq<Seq<char>> {
    seq!["credit"@, "cr"@, "deposit"@, "credit amount"@]
}

/// The texts of a list of words.
pub open spec fn words(patterns: Seq<Vec<char>>) -> Seq<Seq<char>> {
    patterns.map_values(|p: Vec<char>| p@)
}

/// Whether a column's name, in lower case, holds one of the words.
pub open spec fn matches_any(header: Seq<char>, patterns: Seq<Seq<char>>) -> bool {
    exists|k: int|
        0 <= k < patterns.len() && contains_text(lowercase_text(header), #[trigger] patterns[k])
}

/// The first column, from position `from` on, whose name holds one of the
/// words and is not the excluded name.
pub open spec fn first_header(
    headers: Seq<Seq<char>>,
    patterns: Seq<Seq<char>>,
    excluded: Option<Seq<char>>,
    from: int,
) -> Option<Seq<char>>
    decreases headers.len() - from,
{
    if from < 0 || from >= headers.len() {
        None
    } else if Some(headers[from]) != excluded && matches_any(headers[from], patterns) {
        Some(headers[from])
    } else {
        first_header(headers, patterns, excluded, from + 1)
    }
}

/// The last column whose name holds one of the words.
pub open spec fn last_header(headers: Seq<Seq<char>>, patterns: Seq<Seq<char>>) -> Option<
    Seq<char>,
>
    decreases headers.len(),
{
    if headers.len() == 0 {
        None
    } else if matches_any(headers.last(), patterns) {
        Some(headers.last())
    } else {
        last_header(headers.drop_last(), patterns)
    }
}

/// The mapping guessed from a file's column names.
///
/// The date and the amount column are the first that fit. Debit and credit
/// columns are looked for only where there is no amount column, and are the
/// last that fit. The description column is the first that fits and is not
/// the date column, by the first choice of words or else by the second.
pub open spec fn detected_mapping(headers: Seq<Seq<char>>) -> ColumnMappingView {
    let date = first_header(headers, date_patterns(), None, 0);
    let amount = first_header(headers, amount_patterns(), None, 0);
    let primary = first_header(headers, description_patterns(), date, 0);
    ColumnMappingView {
        date,
        description: if primary is Some {
            primary
        } else {
            first_header(headers, fallback_patterns(), date, 0)
        },
        amount,
        debit: if amount is None {
            last_header(headers, debit_patterns())
        } else {
            None
        },
        credit: if amount is None {
            last_header(headers, credit_patterns())
        } else {
            None
        },
        posted_date: None,
    }
}

fn date_words() -> (r: Vec<Vec<char>>)
    ensures
        words(r@) == date_patterns(),
{
    let mut v: Vec<Vec<char>> = Vec::new();
    v.push(chars_of("date"));
    v.push(chars_of("transaction date"));
    v.push(chars_of("trans date"));
    v.push(chars_of("txn date"));
    v.push(chars_of("posted"));
    v.push(chars_of("post date"));
    assert(words(v@) =~= date_patterns());
    v
}

fn description_words() -> (r: Vec<Vec<char>>)
    ensures
        words(r@) == description_patterns(),
{
    let mut v: Vec<Vec<char>> = Vec::new();
    v.push(chars_of("description"));
    v.push(chars_of("desc"));
    v.push(chars_of("memo"));
    v.push(chars_of("payee"));
    v.push(chars_of("merchant"));
    v.push(chars_of("details"));
    v.push(chars_of("narration"));
    assert(words(v@) =~= description_patterns());
    v
}

fn fallback_words() -> (r: Vec<Vec<char>>)
    ensures
        words(r@) == fallback_patterns(),
{
    let mut v: Vec<Vec<char>> = Vec::new();
    v.push(chars_of("name"));
    v.push(chars_of("type"));
    v.push(chars_of("ref"));
    v.push(chars_of("reference"));
    v.push(chars_of("category"));
    assert(words(v@) =~= fallback_patterns());
    v
}

fn amount_words() -> (r: Vec<Vec<char>>)
    ensures
        words(r@) == amount_patterns(),
{
    let mut v: Vec<Vec<char>> = Vec::new();
    v.push(chars_of("amount"));
    v.push(chars_of("amt"));
    v.push(chars_of("total"));
    v.push(chars_of("transaction amount"));
    assert(words(v@) =~= amount_patterns());
    v
}

fn debit_words() -> (r: Vec<Vec<char>>)
    ensures
        words(r@) == debit_patterns(),
{
    let mut v: Vec<Vec<char>> = Vec::new();
    v.push(chars_of("debit"));
    v.push(chars_of("dr"));
    v.push(chars_of("withdrawal"));
    v.push(chars_of("debit amount"));
    assert(words(v@) =~= debit_patterns());
    v
}

fn credit_words() -> (r: Vec<Vec<char>>)
    ensures
        words(r@) == credit_patterns(),
{
    let mut v: Vec<Vec<char>> = Vec::new();
    v.push(chars_of("credit"));
    v.push(chars_of("cr"));
    v.push(chars_of("deposit"));
    v.push(chars_of("credit amount"));
    assert(words(v@) =~= credit_patterns());
    v
}

/// Whether a column's name, in lower case, holds one of the words.
pub fn header_matches(header: &String, patterns: &Vec<Vec<char>>) -> (r: bool)
    ensures
        r == matches_any(header@, words(patterns@)),
{
    let lower = to_lowercase(header.as_str());
    let hay = chars_of(lower.as_str());
    let ghost ws = words(patterns@);
    let mut k: usize = 0;
    while k < patterns.len()
        invariant
            k <= patterns@.len(),
            ws == words(patterns@),
            hay@ == lowercase_text(header@),
            forall|j: int| 0 <= j < k ==> !contains_text(hay@, #[trigger] ws[j]),
        decreases patterns@.len() - k,
    {
        assert(ws[k as int] == patterns@[k as int]@);
        if text_contains(&hay, &patterns[k]) {
            return true;
        }
        k += 1;
    }
    false
}

/// The first column whose name holds one of the words and is not the
/// excluded name.
pub fn find_first_header(
    headers: &Vec<String>,
    patterns: &Vec<Vec<char>>,
    excluded: &Option<String>,
) -> (r: Option<String>)
    ensures
        crate::text::opt_text(r) == first_header(
            texts(headers@),
            words(patterns@),
            crate::text::opt_text(*excluded),
            0,
        ),
{
    let ghost hs = texts(headers@);
    let ghost ws = words(patterns@);
    let ghost ex = crate::text::opt_text(*excluded);
    let mut i: usize = 0;
    while i < headers.len()
        invariant
            i <= headers@.len(),
            hs == texts(headers@),
            ws == words(patterns@),
            ex == crate::text::opt_text(*excluded),
            first_header(hs, ws, ex, 0) == first_header(hs, ws, ex, i as int),
        decreases headers@.len() - i,
    {
        assert(hs[i as int] == headers@[i as int]@);
        let is_excluded: bool = match excluded {
            Some(e) => headers[i] == *e,
            None => false,
        };
        if !is_excluded && header_matches(&headers[i], patterns) {
            return Some(headers[i].clone());
        }
        i += 1;
    }
    None
}

/// The last column whose name holds one of the words.
pub fn find_last_header(headers: &Vec<String>, patterns: &Vec<Vec<char>>) -> (r: Option<String>)
    ensures
        crate::text::opt_text(r) == last_header(texts(headers@), words(patterns@)),
{
    let ghost hs = texts(headers@);
    let ghost ws = words(patterns@);
    let mut found: Option<String> = None;
    let mut i: usize = 0;
    assert(hs.take(0) =~= Seq::<Seq<char>>::empty());
    while i < headers.len()
        invariant
            i <= headers@.len(),
            hs == texts(headers@),
            ws == words(patterns@),
            crate::text::opt_text(found) == last_header(hs.take(i as int), ws),
        decreases headers@.len() - i,
    {
        proof {
            assert(hs[i as int] == headers@[i as int]@);
            assert(hs.take(i + 1).drop_last() =~= hs.take(i as int));
            assert(hs.take(i + 1).last() == hs[i as int]);
        }
        if header_matches(&headers[i], patterns) {
            found = Some(headers[i].clone());
        }
        i += 1;
    }
    assert(hs.take(headers@.len() as int) =~= hs);
    found
}

/// Guesses the mapping from the column names.
pub fn detect_from_headers(headers: &Vec<String>) -> (r: ColumnMapping)
    ensures
        r@ == detected_mapping(texts(headers@)),
{
    let nothing: Option<String> = None;
    let date = find_first_header(headers, &date_words(), &nothing);
    let amount = find_first_header(headers, &amount_words(), &nothing);
    let mut debit: Option<String> = None;
    let mut credit: Option<String> = None;
    if amount.is_none() {
        debit = find_last_header(headers, &debit_words());
        credit = find_last_header(headers, &credit_words());
    }
    let primary = find_first_header(headers, &description_words(), &date);
    let description = if primary.is_some() {
        primary
    } else {
        find_first_header(headers, &fallback_words(), &date)
    };
    ColumnMapping { date, description, amount, debit, credit, posted_date: None }
}

impl CSVProvider {
    /// Guesses the mapping of a file from its column names.
    pub fn detect_columns(content: &[u8]) -> (r: ServiceResult<ColumnMapping>)
        ensures
            match csv_header_row(content@) {
                Ok(hs) => {
                    &&& r.success
                    &&& r.data matches Some(m)
                    &&& m@ == detected_mapping(hs)
                },
                Err(e) => {
                    &&& !r.success
                    &&& r.data is None
                    &&& r.error matches Some(m)
                    &&& m@ == "Failed to read headers: "@ + e
                },
            },
    {
        let headers = CSVProvider::get_headers(content);
        match headers.data {
            Some(hs) => ServiceResult::ok(detect_from_headers(&hs)),
            None => ServiceResult { success: false, data: None, error: headers.error },
        }
    }
}

} // verus!
