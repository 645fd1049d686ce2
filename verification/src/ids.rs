//! Identifiers: ULID texts, decoded and made by the `ulid` crate.

use vstd::prelude::*;

verus! {

/// What `ulid::Ulid::from_string` makes of a text: the 128-bit number that
/// the text encodes, or `None` where it reports a decoding error.
pub uninterp spec fn ulid_decoded(text: Seq<char>) -> Option<u128>;

/// The creation time, in milliseconds since the Unix epoch, that an
/// identifier carries in its upper 48 bits; `None` where the text is no ULID.
pub open spec fn creation_time(id: Seq<char>) -> Option<u64> {
    match ulid_decoded(id) {
        Some(value) => Some((value >> 80) as u64),
        None => None,
    }
}

/// Calls `ulid::Ulid::from_string` and hands back the number inside the
/// `Ulid`. Not proved: that the call is a function of the text alone, which
/// `ulid_decoded` names. The call reads the text's bytes against a fixed
/// table and does not panic on any text.
#[verifier::external_body]
pub(crate) fn decode_ulid(text: &str) -> (r: Option<u128>)
    ensures
        r == ulid_decoded(text@),
{
    match ulid::Ulid::from_string(text) {
        Ok(id) => Some(id.0),
        Err(_) => None,
    }
}

/// Calls `ulid::Ulid::timestamp_ms`. Not proved: that it returns the number
/// shifted right by the 80 bits of its random part.
#[verifier::external_body]
pub(crate) fn ulid_timestamp_ms(value: u128) -> (r: u64)
    ensures
        r == (value >> 80) as u64,
{
    ulid::Ulid(value).timestamp_ms()
}

/// Calls `ulid::Ulid::new` and hands back the number inside the `Ulid`.
/// The number is made of the clock's time and of random bits, so nothing is
/// said of it.
#[verifier::external_body]
pub(crate) fn fresh_ulid() -> (r: u128) {
    ulid::Ulid::new().0
}

/// Calls `ulid::Ulid::to_string`. Not proved: that the text has the 26
/// characters of an encoded ULID, and that `ulid::Ulid::from_string` decodes
/// it to the number it was made of.
#[verifier::external_body]
pub(crate) fn ulid_text(value: u128) -> (id: String)
    ensures
        id@.len() == 26,
        ulid_decoded(id@) == Some(value),
{
    ulid::Ulid(value).to_string()
}

/// A new identifier: the text of a ULID made now.
pub fn new_id() -> (id: String)
    ensures
        id@.len() == 26,
        creation_time(id@).is_some(),
{
    ulid_text(fresh_ulid())
}

/// The creation time that an identifier carries, if it is a ULID.
pub fn created_at(id: &str) -> (r: Option<u64>)
    ensures
        r == creation_time(id@),
{
    match decode_ulid(id) {
        Some(value) => Some(ulid_timestamp_ms(value)),
        None => None,
    }
}

} // verus!
