//! Identifiers: 128-bit values that travel as UUID text.

use vstd::prelude::*;
use vstd::string::*;
use crate::error::{ErrorKind, Status};

verus! {

/// The identifier that `text` spells, in any of the spellings that the
/// `uuid` crate reads; `None` where it reads none.
pub uninterp spec fn uuid_of_text(text: Seq<char>) -> Option<u128>;

/// The hyphenated lower-case spelling that the `uuid` crate writes for `id`.
pub uninterp spec fn uuid_text(id: u128) -> Seq<char>;

/// Calls `uuid::Uuid::parse_str` and hands back the 128 bits of what it
/// read. The contract only names the result.
#[verifier::external_body]
fn uuid_parse(text: &str) -> (id: Option<u128>)
    ensures
        id == uuid_of_text(text@),
{
    match uuid::Uuid::parse_str(text) {
        Ok(parsed) => Some(parsed.as_u128()),
        Err(_) => None,
    }
}

/// Calls `to_string` of `uuid::Uuid`, which writes the hyphenated form. The
/// contract names the text and claims that `parse_str` reads it back as the
/// same identifier, as the crate documents for every form it writes.
#[verifier::external_body]
fn uuid_render(id: u128) -> (text: String)
    ensures
        text@ == uuid_text(id),
        uuid_of_text(text@) == Some(id),
{
    uuid::Uuid::from_u128(id).to_string()
}

/// Whether `id` is marked as a random identifier: its version, the four
/// bits from bit 76 on, is four, and its variant, the two bits from bit 62
/// on, is the one of the standard.
pub open spec fn is_random_id(id: u128) -> bool {
    (id >> 76) & 0xf == 4 && (id >> 62) & 0x3 == 2
}

/// Calls `uuid::Uuid::new_v4`, which draws 128 random bits and sets the
/// version to four and the variant to the one of the standard. The contract
/// claims those six bits, which are the same whatever was drawn, and
/// nothing of the rest. Where the operating system hands out no random
/// bytes the call stops the program; nothing that a caller passes decides
/// that, so no condition on the call leaves it out.
#[verifier::external_body]
fn uuid_random() -> (id: u128)
    ensures
        is_random_id(id),
{
    uuid::Uuid::new_v4().as_u128()
}

/// Reads an identifier from its text.
pub fn parse_id(text: &str) -> (id: Option<u128>)
    ensures
        id == uuid_of_text(text@),
{
    uuid_parse(text)
}

/// What a caller is answered when an identifier was read from what it
/// sent, or none was: text that spells no identifier is an invalid
/// argument.
pub fn id_or_refusal(parsed: Option<u128>) -> (id: Result<u128, Status>)
    ensures
        match id {
            Ok(value) => parsed == Some(value),
            Err(status) => parsed is None && status.is(
                ErrorKind::InvalidArgument,
                "'id' was not a valid uuid"@,
            ),
        },
{
    match parsed {
        Some(value) => Ok(value),
        None => Err(Status::new(ErrorKind::InvalidArgument, "'id' was not a valid uuid")),
    }
}

/// Reads an identifier that a caller sent. Text that spells none is an
/// invalid argument.
pub fn require_id(text: &str) -> (id: Result<u128, Status>)
    ensures
        match id {
            Ok(value) => uuid_of_text(text@) == Some(value),
            Err(status) => uuid_of_text(text@) is None && status.is(
                ErrorKind::InvalidArgument,
                "'id' was not a valid uuid"@,
            ),
        },
{
    id_or_refusal(uuid_parse(text))
}

/// Writes an identifier as text. Reading the text gives the identifier
/// back.
pub fn id_text(id: u128) -> (text: String)
    ensures
        text@ == uuid_text(id),
        uuid_of_text(text@) == Some(id),
{
    uuid_render(id)
}

/// A fresh identifier, drawn at random and marked as such: of version four
/// and of the variant of the standard.
pub fn fresh_id() -> (id: u128)
    ensures
        is_random_id(id),
{
    uuid_random()
}

} // verus!
