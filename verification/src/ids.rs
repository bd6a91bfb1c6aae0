//! Identifiers: UUIDs held as their 128-bit value, and their textual forms.

use uuid::Uuid;
use vstd::prelude::*;
use crate::text::hex_lower;

verus! {

/// The hyphenated form of a UUID: its 32 lower-case hexadecimal digits, most
/// significant first, grouped 8-4-4-4-12.
pub open spec fn hyphenated(id: u128) -> Seq<char> {
    let h = hex_lower(id as nat, 32);
    h.subrange(0, 8) + "-"@ + h.subrange(8, 12) + "-"@ + h.subrange(12, 16) + "-"@
        + h.subrange(16, 20) + "-"@ + h.subrange(20, 32)
}

/// What `Uuid::parse_str` gives for a text, as the UUID's value (none when it fails).
pub uninterp spec fn parsed_uuid(text: Seq<char>) -> Option<u128>;

/// Calls `Uuid::to_string`, whose `Display` form is the hyphenated lower-case form
/// (`67e55044-10b1-426f-9247-bb680e5fe0c8`).
#[verifier::external_body]
pub(crate) fn uuid_string(id: u128) -> (s: String)
    ensures
        s@ == hyphenated(id),
{
    Uuid::from_u128(id).to_string()
}

/// Calls `Uuid::simple` and formats it: the 32 lower-case hexadecimal digits.
#[verifier::external_body]
pub(crate) fn uuid_simple(id: u128) -> (s: String)
    ensures
        s@ == hex_lower(id as nat, 32),
{
    Uuid::from_u128(id).simple().to_string()
}

/// Calls `Uuid::parse_str`; the result is named `parsed_uuid`. Its documentation says
/// it accepts the forms this crate formats, so the hyphenated form of a UUID parses
/// back to that UUID.
#[verifier::external_body]
pub(crate) fn parse_uuid(text: &str) -> (r: Option<u128>)
    ensures
        r == parsed_uuid(text@),
        forall|id: u128| text@ == hyphenated(id) ==> r == Some(id),
{
    Uuid::parse_str(text).ok().map(|u| u.as_u128())
}

/// The UUID a text names, in any form `Uuid::parse_str` accepts; the hyphenated form of
/// a UUID gives that UUID back.
pub fn parse_id(text: &str) -> (r: Option<u128>)
    ensures
        r == parsed_uuid(text@),
        forall|id: u128| text@ == hyphenated(id) ==> r == Some(id),
{
    parse_uuid(text)
}

/// A UUID is of version 4 (random) and of the RFC variant: its version nibble is 4 and
/// its variant bits are `10`.
pub open spec fn is_random_uuid(id: u128) -> bool {
    (id >> 76u128) & 0xfu128 == 4 && (id >> 62u128) & 0x3u128 == 2
}

/// Calls `Uuid::new_v4`: a random UUID, whose version and variant bits are set as a
/// version 4 UUID's; which random value is not stated.
#[verifier::external_body]
pub(crate) fn new_uuid() -> (r: u128)
    ensures
        is_random_uuid(r),
{
    Uuid::new_v4().as_u128()
}

} // verus!
