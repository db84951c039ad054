//! Content fingerprints.
//!
//! Where a source gives a transaction no lasting identifier of its own, the
//! transaction is known by a fingerprint of what it says: the account it
//! belongs to, its date, its amount and its description. The fingerprint is
//! the first eight bytes, in lower-case hexadecimal, of the SHA-256 digest of
//! `"{account}|{date}|{amount}|{description}"`.

use vstd::prelude::*;
use vstd::slice::*;
use vstd::string::*;
use vstd::utf8::encode_utf8;
use crate::amount::{decimal_two_places, Amount};
use crate::calendar::{iso_date_text, Date};
use crate::ident::{id_text, uuid_text};
use crate::text::{
    alphanumeric,
    chars_of,
    hex_digits,
    hex_text,
    is_alphanumeric,
    is_hex_digit,
    lowercase_text,
    push_char,
    to_lowercase,
};

verus! {

/// The number of digest bytes a fingerprint keeps.
pub const FINGERPRINT_BYTES: usize = 8;

/// The number of characters of a fingerprint.
pub const FINGERPRINT_LEN: usize = 16;

/// The SHA-256 digest of a sequence of bytes.
pub uninterp spec fn sha256(data: Seq<u8>) -> Seq<u8>;

/// A character that can stand inside a word: a letter, a digit or an
/// underscore.
pub open spec fn is_word_char(c: char) -> bool {
    alphanumeric(c) || c == '_'
}

/// Whether the word `null` stands at position `i` of `s` as a whole word:
/// the four letters, each in either case, with no word character next to
/// them on either side.
pub open spec fn null_word_at(s: Seq<char>, i: int) -> bool {
    &&& 0 <= i
    &&& i + 4 <= s.len()
    &&& (s[i] == 'n' || s[i] == 'N')
    &&& (s[i + 1] == 'u' || s[i + 1] == 'U')
    &&& (s[i + 2] == 'l' || s[i + 2] == 'L')
    &&& (s[i + 3] == 'l' || s[i + 3] == 'L')
    &&& (i == 0 || !is_word_char(s[i - 1]))
    &&& (i + 4 == s.len() || !is_word_char(s[i + 4]))
}

/// The part of `s` from position `i` on, without the whole words `null`.
pub open spec fn without_null_words_from(s: Seq<char>, i: int) -> Seq<char>
    decreases s.len() - i,
{
    if i < 0 || i >= s.len() {
        Seq::empty()
    } else if null_word_at(s, i) {
        without_null_words_from(s, i + 4)
    } else {
        seq![s[i]] + without_null_words_from(s, i + 1)
    }
}

/// A text without its whole words `null`.
pub open spec fn without_null_words(s: Seq<char>) -> Seq<char> {
    without_null_words_from(s, 0)
}

/// The normal form of a description: the text without its whole words
/// `null`, and of what is left the letters and digits only, in their order
/// and in their case. A fingerprint takes the normal form of the
/// description in lower case.
pub open spec fn normalized_description(desc: Seq<char>) -> Seq<char> {
    without_null_words(desc).filter(|c: char| alphanumeric(c))
}

/// Whether `picks` gives, in rising order, positions of `whole` at which
/// the characters of `part` stand, one position for each character.
pub open spec fn picked_from(part: Seq<char>, whole: Seq<char>, picks: Seq<int>) -> bool {
    &&& picks.len() == part.len()
    &&& forall|j: int|
        0 <= j < picks.len() ==> 0 <= #[trigger] picks[j] < whole.len() && part[j]
            == whole[picks[j]]
    &&& forall|j: int, k: int| 0 <= j < k < picks.len() ==> picks[j] < picks[k]
}

/// Whether `part` is what is left of `whole` once some of its characters
/// are taken out: nothing is added, changed or moved.
pub open spec fn is_subsequence(part: Seq<char>, whole: Seq<char>) -> bool {
    exists|picks: Seq<int>| picked_from(part, whole, picks)
}

/// The amount as the fingerprint writes it: two fractional digits, and
/// every zero as the one canonical zero.
pub open spec fn amount_text(amount: Amount) -> Seq<char> {
    if amount.mantissa == 0 {
        decimal_two_places(0, 0)
    } else {
        decimal_two_places(amount.mantissa as int, amount.scale as nat)
    }
}

/// The text that is hashed: `"{account}|{date}|{amount}|{description}"`,
/// the description in lower case and brought to its normal form.
pub open spec fn fingerprint_input(
    account_id: u128,
    date: Date,
    amount: Amount,
    description: Option<Seq<char>>,
) -> Seq<char> {
    uuid_text(account_id) + "|"@ + iso_date_text(date.days as int) + "|"@ + amount_text(amount)
        + "|"@ + normalized_description(
        lowercase_text(
            match description {
                Some(d) => d,
                None => Seq::empty(),
            },
        ),
    )
}

/// The fingerprint of a transaction's content.
pub open spec fn spec_fingerprint(
    account_id: u128,
    date: Date,
    amount: Amount,
    description: Option<Seq<char>>,
) -> Seq<char> {
    hex_text(
        sha256(encode_utf8(fingerprint_input(account_id, date, amount, description))).take(
            FINGERPRINT_BYTES as int,
        ),
    )
}

/// A hexadecimal text has two characters per byte, all of them digits.
pub proof fn lemma_hex_text_shape(bytes: Seq<u8>)
    ensures
        hex_text(bytes).len() == 2 * bytes.len(),
        forall|i: int| 0 <= i < 2 * bytes.len() ==> is_hex_digit(#[trigger] hex_text(bytes)[i]),
{
    assert forall|i: int| 0 <= i < 2 * bytes.len() implies is_hex_digit(
        #[trigger] hex_text(bytes)[i],
    ) by {
        let b = bytes[i / 2] as int;
        let d = if i % 2 == 0 {
            b / 16
        } else {
            b % 16
        };
        assert(0 <= d < 16);
        assert(hex_text(bytes)[i] == hex_digits()[d]);
    }
}

/// Brings a description to its normal form: the whole words `null`, in
/// either case, are taken out, and of what is left the letters and digits
/// are kept as they stand. Nothing is put in the place of what leaves, so
/// the result is a subsequence of the description.
pub fn normalize_description(desc: &str) -> (r: String)
    ensures
        r@ == normalized_description(desc@),
        forall|j: int| 0 <= j < r@.len() ==> alphanumeric(#[trigger] r@[j]),
        is_subsequence(r@, desc@),
{
    let cs = chars_of(desc);
    let n: usize = cs.len();
    let mut out = String::new();
    let ghost pred = |c: char| alphanumeric(c);
    let ghost mut kept: Seq<char> = Seq::empty();
    let ghost mut picks: Seq<int> = Seq::empty();
    let mut i: usize = 0;
    while i < n
        invariant
            n == cs@.len(),
            i <= n,
            kept + without_null_words_from(cs@, i as int) == without_null_words(cs@),
            out@ == kept.filter(pred),
            pred == (|c: char| alphanumeric(c)),
            forall|j: int| 0 <= j < out@.len() ==> alphanumeric(#[trigger] out@[j]),
            picked_from(out@, cs@, picks),
            forall|j: int| 0 <= j < picks.len() ==> #[trigger] picks[j] < i,
        decreases n - i,
    {
        let at_null: bool = n - i >= 4 && is_either(cs[i], 'n', 'N') && is_either(
            cs[i + 1],
            'u',
            'U',
        ) && is_either(cs[i + 2], 'l', 'L') && is_either(cs[i + 3], 'l', 'L') && (i == 0
            || !is_word(cs[i - 1])) && (i + 4 == n || !is_word(cs[i + 4]));
        assert(at_null == null_word_at(cs@, i as int));
        if at_null {
            i += 4;
        } else {
            let c = cs[i];
            proof {
                kept.lemma_filter_push(c, pred);
                assert(kept.push(c) + without_null_words_from(cs@, i + 1) =~= kept + (seq![c]
                    + without_null_words_from(cs@, i + 1)));
                kept = kept.push(c);
            }
            if is_alphanumeric(c) {
                push_char(&mut out, c);
                proof {
                    picks = picks.push(i as int);
                }
            }
            i += 1;
        }
    }
    assert(kept + Seq::<char>::empty() =~= kept);
    out
}

/// Whether a character is one of two.
fn is_either(c: char, a: char, b: char) -> (r: bool)
    ensures
        r == (c == a || c == b),
{
    c == a || c == b
}

/// Whether a character can stand inside a word.
fn is_word(c: char) -> (r: bool)
    ensures
        r == is_word_char(c),
{
    is_alphanumeric(c) || c == '_'
}

/// The fingerprint of a transaction's content: sixteen lower-case
/// hexadecimal digits that depend on nothing but the four arguments.
pub fn fingerprint(
    account_id: u128,
    date: Date,
    amount: Amount,
    description: &Option<String>,
) -> (r: String)
    requires
        date.wf(),
        amount.wf(),
    ensures
        r@ == spec_fingerprint(account_id, date, amount, crate::text::opt_text(*description)),
        r@.len() == FINGERPRINT_LEN,
        forall|i: int| 0 <= i < FINGERPRINT_LEN ==> is_hex_digit(#[trigger] r@[i]),
{
    let canonical: Amount = if amount.is_zero() {
        Amount::zero()
    } else {
        amount
    };
    let amount_part = canonical.to_fixed2();
    proof {
        reveal_strlit("");
        assert(""@ =~= Seq::<char>::empty());
    }
    let lowered = match description {
        Some(d) => to_lowercase(d.as_str()),
        None => to_lowercase(""),
    };
    let desc_part = normalize_description(lowered.as_str());
    let mut input = id_text(account_id);
    input.append("|");
    input.append(date.to_iso().as_str());
    input.append("|");
    input.append(amount_part.as_str());
    input.append("|");
    input.append(desc_part.as_str());
    let digest = sha256_digest(input.as_str().as_bytes());
    let head = slice_subrange(digest.as_slice(), 0, FINGERPRINT_BYTES);
    proof {
        lemma_hex_text_shape(head@);
        assert(head@ == sha256(encode_utf8(input@)).take(FINGERPRINT_BYTES as int));
    }
    hex_encode(head)
}

/// Hashes bytes with `sha2::Sha256`. The digest is named by [`sha256`]; it
/// is 32 bytes long.
#[verifier::external_body]
fn sha256_digest(data: &[u8]) -> (r: Vec<u8>)
    ensures
        r@ == sha256(data@),
        r@.len() == 32,
{
    <sha2::Sha256 as sha2::Digest>::digest(data).to_vec()
}

/// Writes bytes in hexadecimal with `hex::encode`: two lower-case digits per
/// byte, the high half first.
#[verifier::external_body]
fn hex_encode(data: &[u8]) -> (r: String)
    ensures
        r@ == hex_text(data@),
{
    hex::encode(data)
}

} // verus!
