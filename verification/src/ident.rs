//! Record identifiers.
//!
//! Accounts, transactions and snapshots are identified by 128-bit numbers,
//! drawn at random and written as hyphenated lower-case UUID text. The
//! number zero is the placeholder of a record whose owner is not yet known.

use vstd::prelude::*;
use crate::text::hex_text;

verus! {

/// The placeholder identifier.
pub const NIL_ID: u128 = 0;

/// 256 to the power `n`.
pub open spec fn pow256(n: nat) -> int
    decreases n,
{
    if n == 0 {
        1
    } else {
        256 * pow256((n - 1) as nat)
    }
}

/// The sixteen bytes of an identifier, the most significant first.
pub open spec fn id_bytes(id: u128) -> Seq<u8> {
    Seq::new(16, |i: int| ((id as int / pow256((15 - i) as nat)) % 256) as u8)
}

/// An identifier as text: its sixteen bytes in lower-case hexadecimal, in
/// groups of 8, 4, 4, 4 and 12 digits with hyphens between, such as
/// `67e55044-10b1-426f-9247-bb680e5fe0c8`.
pub open spec fn uuid_text(id: u128) -> Seq<char> {
    let h = hex_text(id_bytes(id));
    h.subrange(0, 8) + seq!['-'] + h.subrange(8, 12) + seq!['-'] + h.subrange(12, 16) + seq!['-']
        + h.subrange(16, 20) + seq!['-'] + h.subrange(20, 32)
}

/// Draws a fresh random identifier with `uuid::Uuid::new_v4`. Two draws
/// may differ; every draw has the version and variant bits of a random
/// UUID set, so none is the placeholder.
#[verifier::external_body]
pub(crate) fn fresh_id() -> (r: u128)
    ensures
        r != NIL_ID,
{
    uuid::Uuid::new_v4().as_u128()
}

/// Writes an identifier through the `Display` of `uuid::Uuid`, which is the
/// hyphenated lower-case form of the identifier's bytes, the most
/// significant first.
#[verifier::external_body]
pub(crate) fn id_text(id: u128) -> (r: String)
    ensures
        r@ == uuid_text(id),
{
    uuid::Uuid::from_u128(id).to_string()
}

} // verus!
