//! Identifiers as UUIDs: minting fresh ones, and their text form.

use uuid::Uuid;
use vstd::prelude::*;

verus! {

/// The text that a UUID with the given 128-bit value is written as.
pub uninterp spec fn uuid_text_of(id: u128) -> Seq<char>;

/// The 128-bit value of the UUID that a text denotes, if it denotes one.
pub uninterp spec fn uuid_parsed(text: Seq<char>) -> Option<u128>;

/// Whether the version and variant bits are those of a random (version 4)
/// UUID.
pub open spec fn is_random_uuid(id: u128) -> bool {
    id & 0xF000_C000_0000_0000_0000u128 == 0x4000_8000_0000_0000_0000u128
}

/// `Uuid::new_v4`, as a 128-bit value: a random UUID. Nothing is known of it
/// but its version and variant bits.
#[verifier::external_body]
pub(crate) fn mint_id() -> (id: u128)
    ensures
        is_random_uuid(id),
{
    Uuid::new_v4().as_u128()
}

/// `Uuid::to_string` on the UUID with the value `id`: its hyphenated text,
/// which parses back to the same value.
#[verifier::external_body]
pub(crate) fn uuid_text(id: u128) -> (r: String)
    ensures
        r@ == uuid_text_of(id),
        uuid_parsed(r@) == Some(id),
{
    Uuid::from_u128(id).to_string()
}

/// `Uuid::parse_str`: the value of the UUID that `text` denotes, or `None`
/// where it denotes none.
#[verifier::external_body]
pub(crate) fn parse_uuid(text: &str) -> (r: Option<u128>)
    ensures
        r == uuid_parsed(text@),
{
    Uuid::parse_str(text).ok().map(|u| u.as_u128())
}

} // verus!
