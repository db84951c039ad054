//! Transactions from spreadsheet files.
//!
//! A file of comma-separated values is read by the `csv` crate; what its
//! columns mean is given by a [`ColumnMapping`], which can be guessed from
//! the column names. A row that yields no date or no amount is passed over
//! in silence.

use vstd::prelude::*;
use vstd::string::*;
use crate::amount::Amount;
use crate::calendar::{Date, Timestamp};
use crate::domain::{ServiceResult, Transaction};
use crate::ident::{fresh_id, NIL_ID};
use crate::string_map::StringMap;
use crate::text::{chars_of, opt_text, text_of, texts, trim, trimmed_text};

verus! {

/// Which column of a file holds what.
#[derive(Clone, Debug)]
pub struct ColumnMapping {
    pub date: Option<String>,
    pub description: Option<String>,
    pub amount: Option<String>,
    pub debit: Option<String>,
    pub credit: Option<String>,
    pub posted_date: Option<String>,
}

/// What a [`ColumnMapping`] says, as plain texts.
pub struct ColumnMappingView {
    pub date: Option<Seq<char>>,
    pub description: Option<Seq<char>>,
    pub amount: Option<Seq<char>>,
    pub debit: Option<Seq<char>>,
    pub credit: Option<Seq<char>>,
    pub posted_date: Option<Seq<char>>,
}

impl View for ColumnMapping {
    type V = ColumnMappingView;

    open spec fn view(&self) -> ColumnMappingView {
        ColumnMappingView {
            date: opt_text(self.date),
            description: opt_text(self.description),
            amount: opt_text(self.amount),
            debit: opt_text(self.debit),
            credit: opt_text(self.credit),
            posted_date: opt_text(self.posted_date),
        }
    }
}

impl ColumnMapping {
    /// The mapping that names no column.
    pub fn new() -> (r: ColumnMapping)
        ensures
            r.date is None,
            r.description is None,
            r.amount is None,
            r.debit is None,
            r.credit is None,
            r.posted_date is None,
    {
        ColumnMapping {
            date: None,
            description: None,
            amount: None,
            debit: None,
            credit: None,
            posted_date: None,
        }
    }
}

/// The header row the `csv` crate reads from a file's bytes, or the text of
/// its error.
pub uninterp spec fn csv_header_row(data: Seq<u8>) -> Result<Seq<Seq<char>>, Seq<char>>;

/// The records the `csv` crate reads from a file's bytes after the header
/// row, in order; `None` stands for a record it could not read.
pub uninterp spec fn csv_record_rows(data: Seq<u8>) -> Seq<Option<Seq<Seq<char>>>>;

/// The text in which the `regex` crate has replaced every match of a
/// pattern.
pub uninterp spec fn regex_replaced(
    pattern: Seq<char>,
    text: Seq<char>,
    replacement: Seq<char>,
) -> Seq<char>;

/// The date formats a file's dates are tried under, in this order.
pub open spec fn date_formats() -> Seq<Seq<char>> {
    seq!["%Y-%m-%d"@, "%m/%d/%Y"@, "%d/%m/%Y"@, "%Y/%m/%d"@, "%m-%d-%Y"@, "%d-%m-%Y"@]
}

/// The first date that `s` yields under the formats from position `from`
/// on.
pub open spec fn first_date(s: Seq<char>, formats: Seq<Seq<char>>, from: int) -> Option<Date>
    decreases formats.len() - from,
{
    if from < 0 || from >= formats.len() {
        None
    } else {
        match Date::spec_parse(s, formats[from]) {
            Some(d) => Some(d),
            None => first_date(s, formats, from + 1),
        }
    }
}

/// The date a cell holds: the trimmed text read under the first format
/// that fits.
pub open spec fn spec_parse_date(raw: Seq<char>) -> Option<Date> {
    let s = trimmed_text(raw);
    if s.len() == 0 {
        None
    } else {
        first_date(s, date_formats(), 0)
    }
}

/// Whether a character is dropped from an amount before it is read: the
/// dollar sign, the comma and the space.
pub open spec fn is_amount_filler(c: char) -> bool {
    c == '$' || c == ',' || c == ' '
}

/// An amount's text made ready to be read: without fillers, and with
/// `(1.00)` turned into `-1.00`.
pub open spec fn amount_cleaned(s: Seq<char>) -> Seq<char> {
    let bare = s.filter(|c: char| !is_amount_filler(c));
    if bare.len() >= 2 && bare[0] == '(' && bare[bare.len() - 1] == ')' {
        seq!['-'] + bare.subrange(1, bare.len() - 1)
    } else {
        bare
    }
}

/// The amount a cell holds.
pub open spec fn spec_parse_amount(raw: Seq<char>) -> Option<Amount> {
    let s = trimmed_text(raw);
    if s.len() == 0 {
        None
    } else {
        match crate::amount::decimal_parse(amount_cleaned(s)) {
            Some((m, sc)) => if (Amount { mantissa: m, scale: sc }).wf() {
                Some(Amount { mantissa: m, scale: sc })
            } else {
                None
            },
            None => None,
        }
    }
}

/// A description made clean: without the whole words `null` in any case,
/// without masked card numbers, with every run of white space turned into
/// one space, and trimmed.
pub open spec fn spec_clean_description(raw: Seq<char>) -> Seq<char> {
    let a = regex_replaced("(?i)\\bnull\\b"@, raw, ""@);
    let b = regex_replaced("(?i)x{10,}\\d+"@, a, ""@);
    let c = regex_replaced("\\s+"@, b, " "@);
    trimmed_text(c)
}

/// The position of the first column named `name`, from position `from` on.
pub open spec fn column_index_from(headers: Seq<Seq<char>>, name: Seq<char>, from: int) -> Option<
    int,
>
    decreases headers.len() - from,
{
    if from < 0 || from >= headers.len() {
        None
    } else if headers[from] == name {
        Some(from)
    } else {
        column_index_from(headers, name, from + 1)
    }
}

/// The cell of a row under the column named `column`.
pub open spec fn cell(headers: Seq<Seq<char>>, row: Seq<Seq<char>>, column: Option<Seq<char>>) -> Option<
    Seq<char>,
> {
    match column {
        Some(name) => match column_index_from(headers, name, 0) {
            Some(i) => if i < row.len() {
                Some(row[i])
            } else {
                None
            },
            None => None,
        },
        None => None,
    }
}

/// The amount a cell of a row holds, if the column is mapped and the cell
/// holds one.
pub open spec fn cell_amount(
    headers: Seq<Seq<char>>,
    row: Seq<Seq<char>>,
    column: Option<Seq<char>>,
) -> Option<Amount> {
    match cell(headers, row, column) {
        Some(raw) => spec_parse_amount(raw),
        None => None,
    }
}

/// The amount of a row before signs are flipped: what the amount column
/// holds, or else the weightier of debit and credit, or the one of them
/// that is there; a lone positive debit is negated on demand.
pub open spec fn row_amount(
    headers: Seq<Seq<char>>,
    row: Seq<Seq<char>>,
    mapping: ColumnMappingView,
    debit_negative: bool,
) -> Option<Amount> {
    if mapping.amount is Some {
        cell_amount(headers, row, mapping.amount)
    } else {
        match (
            cell_amount(headers, row, mapping.debit),
            cell_amount(headers, row, mapping.credit),
        ) {
            (Some(d), Some(c)) => if d.outweighs(c) {
                Some(d)
            } else {
                Some(c)
            },
            (Some(d), None) => if debit_negative && d.mantissa > 0 {
                Some(d.spec_neg())
            } else {
                Some(d)
            },
            (None, Some(c)) => Some(c),
            (None, None) => None,
        }
    }
}

/// What a row says: a date, an amount and maybe a description.
pub struct RowEntry {
    pub date: Date,
    pub amount: Amount,
    pub description: Option<Seq<char>>,
}

/// What a record says under a mapping, or nothing where it could not be
/// read, or yields no date or no amount.
pub open spec fn row_entry(
    headers: Seq<Seq<char>>,
    record: Option<Seq<Seq<char>>>,
    mapping: ColumnMappingView,
    flip_signs: bool,
    debit_negative: bool,
) -> Option<RowEntry> {
    match record {
        None => None,
        Some(row) => match cell(headers, row, mapping.date) {
            None => None,
            Some(raw_date) => match spec_parse_date(raw_date) {
                None => None,
                Some(date) => match row_amount(headers, row, mapping, debit_negative) {
                    None => None,
                    Some(amount) => Some(
                        RowEntry {
                            date,
                            amount: if flip_signs {
                                amount.spec_neg()
                            } else {
                                amount
                            },
                            description: match cell(headers, row, mapping.description) {
                                Some(raw) => Some(spec_clean_description(raw)),
                                None => None,
                            },
                        },
                    ),
                },
            },
        },
    }
}

/// What a transaction made from a row says.
pub open spec fn entry_of(tx: Transaction) -> RowEntry {
    RowEntry {
        date: tx.transaction_date,
        amount: tx.amount,
        description: opt_text(tx.description),
    }
}

/// The entries of a list of transactions.
pub open spec fn entries_of(txs: Seq<Transaction>) -> Seq<RowEntry> {
    txs.map_values(|t: Transaction| entry_of(t))
}

/// The entries of a file's records under a mapping, in the order of the
/// file.
pub open spec fn file_entries(
    headers: Seq<Seq<char>>,
    records: Seq<Option<Seq<Seq<char>>>>,
    mapping: ColumnMappingView,
    flip_signs: bool,
    debit_negative: bool,
) -> Seq<RowEntry> {
    records.filter_map(
        |r: Option<Seq<Seq<char>>>| row_entry(headers, r, mapping, flip_signs, debit_negative),
    )
}

/// The first `limit` entries of a list, or all where there are fewer.
pub open spec fn first_entries(entries: Seq<RowEntry>, limit: int) -> Seq<RowEntry> {
    if 0 <= limit < entries.len() {
        entries.take(limit)
    } else {
        entries
    }
}

/// The reader of spreadsheet files.
pub struct CSVProvider;

/// Reads the date a cell holds.
pub fn parse_date(raw: &str) -> (r: Option<Date>)
    ensures
        r == spec_parse_date(raw@),
        r matches Some(d) ==> d.wf(),
{
    let s = trim(raw);
    if s.as_str().unicode_len() == 0 {
        return None;
    }
    proof {
        reveal_with_fuel(first_date, 7);
    }
    match Date::parse(s.as_str(), "%Y-%m-%d") {
        Some(d) => {
            return Some(d);
        },
        None => {},
    }
    match Date::parse(s.as_str(), "%m/%d/%Y") {
        Some(d) => {
            return Some(d);
        },
        None => {},
    }
    match Date::parse(s.as_str(), "%d/%m/%Y") {
        Some(d) => {
            return Some(d);
        },
        None => {},
    }
    match Date::parse(s.as_str(), "%Y/%m/%d") {
        Some(d) => {
            return Some(d);
        },
        None => {},
    }
    match Date::parse(s.as_str(), "%m-%d-%Y") {
        Some(d) => {
            return Some(d);
        },
        None => {},
    }
    Date::parse(s.as_str(), "%d-%m-%Y")
}

/// Reads the amount a cell holds.
pub fn parse_amount(raw: &str) -> (r: Option<Amount>)
    ensures
        r == spec_parse_amount(raw@),
        r matches Some(a) ==> a.wf(),
{
    let s = trim(raw);
    let cs = chars_of(s.as_str());
    if cs.len() == 0 {
        return None;
    }
    let ghost pred = |c: char| !is_amount_filler(c);
    let mut bare: Vec<char> = Vec::new();
    let mut i: usize = 0;
    assert(cs@.take(0).filter(pred) =~= Seq::<char>::empty()) by {
        reveal(Seq::filter);
    }
    while i < cs.len()
        invariant
            i <= cs@.len(),
            pred == (|c: char| !is_amount_filler(c)),
            bare@ == cs@.take(i as int).filter(pred),
        decreases cs@.len() - i,
    {
        proof {
            assert(cs@.take(i + 1) =~= cs@.take(i as int).push(cs@[i as int]));
            cs@.take(i as int).lemma_filter_push(cs@[i as int], pred);
        }
        let c = cs[i];
        if !(c == '$' || c == ',' || c == ' ') {
            bare.push(c);
        }
        i += 1;
    }
    assert(cs@.take(cs@.len() as int) =~= cs@);
    let n: usize = bare.len();
    let cleaned: Vec<char> = if n >= 2 && bare[0] == '(' && bare[n - 1] == ')' {
        let mut out: Vec<char> = Vec::new();
        out.push('-');
        let mut k: usize = 1;
        while k < n - 1
            invariant
                n == bare@.len(),
                1 <= k <= n - 1,
                out@ == seq!['-'] + bare@.subrange(1, k as int),
            decreases n - 1 - k,
        {
            out.push(bare[k]);
            assert(bare@.subrange(1, k + 1) =~= bare@.subrange(1, k as int).push(bare@[k as int]));
            k += 1;
        }
        out
    } else {
        bare
    };
    let text = text_of(&cleaned);
    Amount::parse(text.as_str())
}

/// Makes a description clean.
pub fn clean_description(raw: &str) -> (r: String)
    ensures
        r@ == spec_clean_description(raw@),
{
    let a = replace_all("(?i)\\bnull\\b", raw, "");
    let b = replace_all("(?i)x{10,}\\d+", a.as_str(), "");
    let c = replace_all("\\s+", b.as_str(), " ");
    trim(c.as_str())
}

/// The position of the first column named `name`.
pub fn column_index(headers: &Vec<String>, name: &String) -> (r: Option<usize>)
    ensures
        match r {
            Some(i) => column_index_from(texts(headers@), name@, 0) == Some(i as int) && i
                < headers@.len(),
            None => column_index_from(texts(headers@), name@, 0) is None,
        },
{
    let ghost hs = texts(headers@);
    let mut i: usize = 0;
    while i < headers.len()
        invariant
            i <= headers@.len(),
            hs == texts(headers@),
            column_index_from(hs, name@, 0) == column_index_from(hs, name@, i as int),
        decreases headers@.len() - i,
    {
        assert(hs[i as int] == headers@[i as int]@);
        if headers[i] == *name {
            return Some(i);
        }
        i += 1;
    }
    None
}

/// The cell of a row under the column named `column`.
fn cell_of<'a>(headers: &Vec<String>, row: &'a Vec<String>, column: &Option<String>) -> (r: Option<
    &'a String,
>)
    ensures
        match r {
            Some(s) => cell(texts(headers@), texts(row@), opt_text(*column)) == Some(s@),
            None => cell(texts(headers@), texts(row@), opt_text(*column)) is None,
        },
{
    match column {
        Some(name) => match column_index(headers, name) {
            Some(i) => {
                if i < row.len() {
                    assert(texts(row@)[i as int] == row@[i as int]@);
                    Some(&row[i])
                } else {
                    None
                }
            },
            None => None,
        },
        None => None,
    }
}

/// The amount a cell of a row holds.
fn amount_of(headers: &Vec<String>, row: &Vec<String>, column: &Option<String>) -> (r: Option<
    Amount,
>)
    ensures
        r == cell_amount(texts(headers@), texts(row@), opt_text(*column)),
        r matches Some(a) ==> a.wf(),
{
    match cell_of(headers, row, column) {
        Some(raw) => parse_amount(raw.as_str()),
        None => None,
    }
}

/// The amount of a row before signs are flipped.
fn amount_of_row(
    headers: &Vec<String>,
    row: &Vec<String>,
    mapping: &ColumnMapping,
    debit_negative: bool,
) -> (r: Option<Amount>)
    ensures
        r == row_amount(texts(headers@), texts(row@), mapping@, debit_negative),
        r matches Some(a) ==> a.wf(),
{
    if mapping.amount.is_some() {
        amount_of(headers, row, &mapping.amount)
    } else {
        let debit = amount_of(headers, row, &mapping.debit);
        let credit = amount_of(headers, row, &mapping.credit);
        match (debit, credit) {
            (Some(d), Some(c)) => {
                if d.exceeds_in_magnitude(c) {
                    Some(d)
                } else {
                    Some(c)
                }
            },
            (Some(d), None) => {
                if debit_negative && d.is_positive() {
                    Some(d.neg())
                } else {
                    Some(d)
                }
            },
            (None, Some(c)) => Some(c),
            (None, None) => None,
        }
    }
}

/// The transaction a record yields, if it yields one. The transaction has
/// a fresh identifier, no account yet, no external ids and no tags, and is
/// posted on its own date.
fn transaction_of_row(
    headers: &Vec<String>,
    record: &Option<Vec<String>>,
    mapping: &ColumnMapping,
    flip_signs: bool,
    debit_negative: bool,
    now: Timestamp,
) -> (r: Option<Transaction>)
    ensures
        match r {
            Some(tx) => row_entry(
                texts(headers@),
                record_texts(*record),
                mapping@,
                flip_signs,
                debit_negative,
            ) == Some(entry_of(tx)) && is_fresh_row(tx),
            None => row_entry(
                texts(headers@),
                record_texts(*record),
                mapping@,
                flip_signs,
                debit_negative,
            ) is None,
        },
{
    let row = match record {
        Some(row) => row,
        None => {
            return None;
        },
    };
    let transaction_date = match cell_of(headers, row, &mapping.date) {
        Some(raw) => match parse_date(raw.as_str()) {
            Some(d) => d,
            None => {
                return None;
            },
        },
        None => {
            return None;
        },
    };
    let amount = match amount_of_row(headers, row, mapping, debit_negative) {
        Some(a) => a,
        None => {
            return None;
        },
    };
    let final_amount = if flip_signs {
        amount.neg()
    } else {
        amount
    };
    let description = match cell_of(headers, row, &mapping.description) {
        Some(raw) => Some(clean_description(raw.as_str())),
        None => None,
    };
    Some(
        Transaction {
            id: fresh_id(),
            account_id: NIL_ID,
            external_ids: StringMap::new(),
            amount: final_amount,
            description,
            transaction_date,
            posted_date: transaction_date,
            tags: Vec::new(),
            created_at: now,
            updated_at: now,
            deleted_at: None,
            parent_transaction_id: None,
        },
    )
}

/// The texts of a record.
pub open spec fn record_texts(record: Option<Vec<String>>) -> Option<Seq<Seq<char>>> {
    match record {
        Some(row) => Some(texts(row@)),
        None => None,
    }
}

/// The texts of a list of records.
pub open spec fn records_texts(records: Seq<Option<Vec<String>>>) -> Seq<Option<Seq<Seq<char>>>> {
    records.map_values(|r: Option<Vec<String>>| record_texts(r))
}

/// What holds of every transaction fresh from a row: it is well formed,
/// belongs to no account yet, carries no external id and no tag, and is
/// posted on its own date.
pub open spec fn is_fresh_row(tx: Transaction) -> bool {
    &&& tx.wf()
    &&& tx.account_id == NIL_ID
    &&& tx.external_ids@ == Map::<Seq<char>, Seq<char>>::empty()
    &&& tx.tags@.len() == 0
    &&& tx.posted_date == tx.transaction_date
    &&& tx.deleted_at is None
    &&& tx.parent_transaction_id is None
}

/// The transactions of a file whose header row and records have been read.
pub fn transactions_of_rows(
    headers: &Vec<String>,
    records: &Vec<Option<Vec<String>>>,
    mapping: &ColumnMapping,
    flip_signs: bool,
    debit_negative: bool,
) -> (r: Vec<Transaction>)
    ensures
        entries_of(r@) == file_entries(
            texts(headers@),
            records_texts(records@),
            mapping@,
            flip_signs,
            debit_negative,
        ),
        forall|i: int| 0 <= i < r@.len() ==> is_fresh_row(#[trigger] r@[i]),
        r@.len() <= records@.len(),
{
    let ghost hs = texts(headers@);
    let ghost rs = records_texts(records@);
    let ghost f = |r: Option<Seq<Seq<char>>>|
        row_entry(hs, r, mapping@, flip_signs, debit_negative);
    let now = Timestamp::now();
    let mut out: Vec<Transaction> = Vec::new();
    let mut i: usize = 0;
    assert(entries_of(out@) =~= rs.take(0).filter_map(f));
    while i < records.len()
        invariant
            i <= records@.len(),
            hs == texts(headers@),
            rs == records_texts(records@),
            f == (|r: Option<Seq<Seq<char>>>|
                row_entry(hs, r, mapping@, flip_signs, debit_negative)),
            entries_of(out@) == rs.take(i as int).filter_map(f),
            forall|k: int| 0 <= k < out@.len() ==> is_fresh_row(#[trigger] out@[k]),
            out@.len() <= i,
        decreases records@.len() - i,
    {
        proof {
            rs.lemma_filter_map_take_succ(f, i as int);
            assert(rs[i as int] == record_texts(records@[i as int]));
        }
        match transaction_of_row(headers, &records[i], mapping, flip_signs, debit_negative, now) {
            Some(tx) => {
                let ghost before = entries_of(out@);
                out.push(tx);
                assert(entries_of(out@) =~= before + seq![entry_of(tx)]);
            },
            None => {},
        }
        i += 1;
    }
    assert(rs.take(records@.len() as int) =~= rs);
    out
}

/// The first `limit` items of a list.
pub fn first_transactions(transactions: Vec<Transaction>, limit: usize) -> (r: Vec<Transaction>)
    ensures
        r@ == if limit < transactions@.len() {
            transactions@.take(limit as int)
        } else {
            transactions@
        },
{
    let mut out = transactions;
    if limit < out.len() {
        out.truncate(limit);
        assert(out@ =~= transactions@.take(limit as int));
    }
    out
}

/// Whether debits should be negated, judged by a sample of a debit
/// column's amounts: they should, if there are at least two and all are
/// positive.
pub fn all_positive_sample(sample: &Vec<Amount>) -> (r: bool)
    ensures
        r == is_positive_sample(sample@),
{
    if sample.len() < 2 {
        return false;
    }
    let mut i: usize = 0;
    while i < sample.len()
        invariant
            i <= sample@.len(),
            forall|k: int| 0 <= k < i ==> (#[trigger] sample@[k]).mantissa > 0,
        decreases sample@.len() - i,
    {
        if !sample[i].is_positive() {
            return false;
        }
        i += 1;
    }
    true
}

/// The amount a record holds in the column at position `column`.
pub open spec fn sampled_amount(record: Option<Seq<Seq<char>>>, column: int) -> Option<Amount> {
    match record {
        Some(row) => if 0 <= column < row.len() {
            spec_parse_amount(row[column])
        } else {
            None
        },
        None => None,
    }
}

/// The first `limit` records of a file, or all where there are fewer.
pub open spec fn first_records(records: Seq<Option<Seq<Seq<char>>>>, limit: int) -> Seq<
    Option<Seq<Seq<char>>>,
> {
    if 0 <= limit < records.len() {
        records.take(limit)
    } else {
        records
    }
}

/// The amounts that the first `limit` records hold in the column at
/// position `column`, in their order.
pub open spec fn sampled_amounts(
    records: Seq<Option<Seq<Seq<char>>>>,
    column: int,
    limit: int,
) -> Seq<Amount> {
    first_records(records, limit).filter_map(
        |r: Option<Seq<Seq<char>>>| sampled_amount(r, column),
    )
}

/// Whether the amounts of a sample are at least two, and all positive.
pub open spec fn is_positive_sample(sample: Seq<Amount>) -> bool {
    sample.len() >= 2 && forall|i: int| 0 <= i < sample.len() ==> (#[trigger] sample[i]).mantissa > 0
}

/// Whether the debits of a file should be negated: whether the first ten
/// records hold at least two amounts in the column named `debit_col`, all
/// of them positive.
pub open spec fn spec_should_negate(
    headers: Seq<Seq<char>>,
    records: Seq<Option<Seq<Seq<char>>>>,
    debit_col: Seq<char>,
) -> bool {
    match column_index_from(headers, debit_col, 0) {
        Some(idx) => is_positive_sample(sampled_amounts(records, idx, 10)),
        None => false,
    }
}

/// The amounts that the first `limit` records hold in the column at
/// position `column`.
pub fn sample_amounts(records: &Vec<Option<Vec<String>>>, column: usize, limit: usize) -> (r: Vec<
    Amount,
>)
    ensures
        r@ == sampled_amounts(records_texts(records@), column as int, limit as int),
        r@.len() <= limit,
        forall|i: int| 0 <= i < r@.len() ==> (#[trigger] r@[i]).wf(),
{
    let ghost rs = first_records(records_texts(records@), limit as int);
    let ghost f = |r: Option<Seq<Seq<char>>>| sampled_amount(r, column as int);
    let n: usize = if limit < records.len() {
        limit
    } else {
        records.len()
    };
    let mut out: Vec<Amount> = Vec::new();
    let mut i: usize = 0;
    assert(rs.take(0).filter_map(f) =~= Seq::<Amount>::empty());
    while i < n
        invariant
            i <= n,
            n == rs.len(),
            n <= records@.len(),
            n <= limit,
            forall|k: int| 0 <= k < n ==> #[trigger] rs[k] == record_texts(records@[k]),
            f == (|r: Option<Seq<Seq<char>>>| sampled_amount(r, column as int)),
            out@ == rs.take(i as int).filter_map(f),
            out@.len() <= i,
            forall|k: int| 0 <= k < out@.len() ==> (#[trigger] out@[k]).wf(),
        decreases n - i,
    {
        proof {
            rs.lemma_filter_map_take_succ(f, i as int);
        }
        match &records[i] {
            Some(row) => {
                if column < row.len() {
                    assert(texts(row@)[column as int] == row@[column as int]@);
                    match parse_amount(row[column].as_str()) {
                        Some(a) => {
                            out.push(a);
                        },
                        None => {},
                    }
                }
            },
            None => {},
        }
        i += 1;
    }
    assert(rs.take(n as int) =~= rs);
    out
}

impl CSVProvider {
    pub fn new() -> (r: CSVProvider)
        ensures
            r == CSVProvider,
    {
        CSVProvider
    }

    /// The column names of a file.
    pub fn get_headers(content: &[u8]) -> (r: ServiceResult<Vec<String>>)
        ensures
            match csv_header_row(content@) {
                Ok(hs) => {
                    &&& r.success
                    &&& r.data matches Some(v)
                    &&& texts(v@) == hs
                },
                Err(e) => {
                    &&& !r.success
                    &&& r.data is None
                    &&& r.error matches Some(m)
                    &&& m@ == "Failed to read headers: "@ + e
                },
            },
    {
        match read_headers(content) {
            Ok(hs) => ServiceResult::ok(hs),
            Err(e) => {
                let mut message = "Failed to read headers: ".to_owned();
                message.append(e.as_str());
                ServiceResult::fail(message)
            },
        }
    }

    /// The transactions of a file under a mapping, in the order of the
    /// file. A record that cannot be read, or yields no date or no amount,
    /// is passed over.
    pub fn get_transactions(
        content: &[u8],
        mapping: &ColumnMapping,
        flip_signs: bool,
        debit_negative: bool,
    ) -> (r: ServiceResult<Vec<Transaction>>)
        ensures
            match csv_header_row(content@) {
                Ok(hs) => {
                    &&& r.success
                    &&& r.data matches Some(v)
                    &&& entries_of(v@) == file_entries(
                        hs,
                        csv_record_rows(content@),
                        mapping@,
                        flip_signs,
                        debit_negative,
                    )
                    &&& forall|i: int| 0 <= i < v@.len() ==> is_fresh_row(#[trigger] v@[i])
                },
                Err(e) => {
                    &&& !r.success
                    &&& r.data is None
                    &&& r.error matches Some(m)
                    &&& m@ == "Failed to read headers: "@ + e
                },
            },
    {
        let headers = match read_headers(content) {
            Ok(hs) => hs,
            Err(e) => {
                let mut message = "Failed to read headers: ".to_owned();
                message.append(e.as_str());
                return ServiceResult::fail(message);
            },
        };
        let records = read_records(content);
        ServiceResult::ok(
            transactions_of_rows(&headers, &records, mapping, flip_signs, debit_negative),
        )
    }

    /// The first `limit` transactions of a file.
    pub fn preview_transactions(
        content: &[u8],
        mapping: &ColumnMapping,
        limit: usize,
        flip_signs: bool,
        debit_negative: bool,
    ) -> (r: ServiceResult<Vec<Transaction>>)
        ensures
            match csv_header_row(content@) {
                Ok(hs) => {
                    &&& r.success
                    &&& r.data matches Some(v)
                    &&& entries_of(v@) == first_entries(
                        file_entries(
                            hs,
                            csv_record_rows(content@),
                            mapping@,
                            flip_signs,
                            debit_negative,
                        ),
                        limit as int,
                    )
                    &&& v@.len() <= limit
                    &&& forall|i: int| 0 <= i < v@.len() ==> is_fresh_row(#[trigger] v@[i])
                },
                Err(e) => {
                    &&& !r.success
                    &&& r.data is None
                    &&& r.error matches Some(m)
                    &&& m@ == "Failed to read headers: "@ + e
                },
            },
    {
        let all = CSVProvider::get_transactions(content, mapping, flip_signs, debit_negative);
        match all.data {
            Some(txs) => {
                let ghost whole = entries_of(txs@);
                let shown = first_transactions(txs, limit);
                assert(entries_of(shown@) =~= first_entries(whole, limit as int));
                ServiceResult::ok(shown)
            },
            None => ServiceResult { success: all.success, data: None, error: all.error },
        }
    }

    /// Whether the debits of a file should be negated: whether the first
    /// ten records hold at least two amounts in the debit column, all of
    /// them positive.
    pub fn should_negate_debits(content: &[u8], debit_col: &str) -> (r: ServiceResult<bool>)
        ensures
            match csv_header_row(content@) {
                Ok(hs) => {
                    &&& r.success
                    &&& r.error is None
                    &&& r.data == Some(spec_should_negate(hs, csv_record_rows(content@), debit_col@))
                },
                Err(e) => {
                    &&& !r.success
                    &&& r.data is None
                    &&& r.error matches Some(m)
                    &&& m@ == "Failed to read headers: "@ + e
                },
            },
    {
        let headers = match read_headers(content) {
            Ok(hs) => hs,
            Err(e) => {
                let mut message = "Failed to read headers: ".to_owned();
                message.append(e.as_str());
                return ServiceResult::fail(message);
            },
        };
        let name = debit_col.to_owned();
        match column_index(&headers, &name) {
            None => ServiceResult::ok(false),
            Some(idx) => {
                let records = read_records(content);
                let sample = sample_amounts(&records, idx, 10);
                ServiceResult::ok(all_positive_sample(&sample))
            },
        }
    }
}

/// Reads the header row of a file with `csv::Reader::headers`. The result
/// is named by [`csv_header_row`]; an error comes as its text.
#[verifier::external_body]
fn read_headers(content: &[u8]) -> (r: Result<Vec<String>, String>)
    ensures
        match r {
            Ok(v) => csv_header_row(content@) == Ok::<Seq<Seq<char>>, Seq<char>>(texts(v@)),
            Err(e) => csv_header_row(content@) == Err::<Seq<Seq<char>>, Seq<char>>(e@),
        },
{
    let mut reader = csv::Reader::from_reader(content);
    match reader.headers() {
        Ok(h) => Ok(h.iter().map(String::from).collect()),
        Err(e) => Err(e.to_string()),
    }
}

/// Reads the records of a file with `csv::Reader::records`; a record that
/// the reader reports as an error comes as `None`. The result is named by
/// [`csv_record_rows`].
#[verifier::external_body]
fn read_records(content: &[u8]) -> (r: Vec<Option<Vec<String>>>)
    ensures
        records_texts(r@) == csv_record_rows(content@),
{
    let mut reader = csv::Reader::from_reader(content);
    let mut rows = Vec::new();
    for record in reader.records() {
        rows.push(
            match record {
                Ok(row) => Some(row.iter().map(String::from).collect()),
                Err(_) => None,
            },
        );
    }
    rows
}

/// Replaces every match of a pattern with `regex::Regex::replace_all`; a
/// pattern that is no regular expression leaves the text as it is. The
/// result is named by [`regex_replaced`].
#[verifier::external_body]
fn replace_all(pattern: &str, text: &str, replacement: &str) -> (r: String)
    ensures
        r@ == regex_replaced(pattern@, text@, replacement@),
{
    match regex::Regex::new(pattern) {
        Ok(re) => re.replace_all(text, replacement).into_owned(),
        Err(_) => text.to_owned(),
    }
}

} // verus!
