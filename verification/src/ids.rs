//! Identifiers of workflows, tasks, triggers, plugins and runs.
//!
//! Identifiers are random version-4 UUIDs, held as their 128-bit value.
use vstd::prelude::*;

verus! {

/// A fresh random identifier: `uuid::Uuid::new_v4`, taken as its 128-bit value.
///
/// Nothing is promised of the value: it is random.
#[verifier::external_body]
pub fn new_id() -> u128 {
    uuid::Uuid::new_v4().as_u128()
}

/// The lowercase hexadecimal digit for a value below sixteen.
pub open spec fn hex_digit(d: int) -> char {
    if d < 10 {
        (('0' as int) + d) as char
    } else {
        (('a' as int) + d - 10) as char
    }
}

/// The number of hyphens that precede position `i` of a hyphenated UUID.
pub open spec fn hyphens_before(i: int) -> int {
    if i > 23 {
        4
    } else if i > 18 {
        3
    } else if i > 13 {
        2
    } else if i > 8 {
        1
    } else {
        0
    }
}

/// The hyphenated lowercase text of a UUID: thirty-two hex digits, most significant
/// first, in groups of 8, 4, 4, 4 and 12 separated by hyphens.
pub open spec fn uuid_hyphenated(id: u128) -> Seq<char> {
    Seq::new(
        36,
        |i: int|
            if i == 8 || i == 13 || i == 18 || i == 23 {
                '-'
            } else {
                hex_digit(((id >> ((4 * (31 - (i - hyphens_before(i)))) as u128)) & 0xf) as int)
            },
    )
}

/// The text of an identifier as `uuid::Uuid`'s `Display` writes it (hyphenated, lowercase).
#[verifier::external_body]
pub fn id_text(id: u128) -> (s: String)
    ensures
        s@ == uuid_hyphenated(id),
{
    uuid::Uuid::from_u128(id).to_string()
}

} // verus!
