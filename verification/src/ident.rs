//! Task identifiers: 128-bit values, written as hyphenated UUIDs.

use vstd::prelude::*;

verus! {

/// Length of the textual form of an identifier.
pub const ID_TEXT_LEN: usize = 36;

/// The sixteen hexadecimal digits, lower case.
pub open spec fn hex_digits() -> Seq<char> {
    seq!['0', '1', '2', '3', '4', '5', '6', '7', '8', '9', 'a', 'b', 'c', 'd', 'e', 'f']
}

/// The character at position `i` of an identifier's text: a hyphen after the
/// 8th, 12th, 16th and 20th digit, and elsewhere the hexadecimal digits of
/// the number, most significant first.
pub open spec fn id_char(id: u128, i: int) -> char {
    if i == 8 || i == 13 || i == 18 || i == 23 {
        '-'
    } else {
        let k = if i < 8 {
            i
        } else if i < 13 {
            i - 1
        } else if i < 18 {
            i - 2
        } else if i < 23 {
            i - 3
        } else {
            i - 4
        };
        hex_digits()[((id >> ((4 * (31 - k)) as u128)) & 0xf) as int]
    }
}

/// The textual form of an identifier: 32 hexadecimal digits in groups of
/// 8, 4, 4, 4 and 12, joined by hyphens.
pub open spec fn id_text(id: u128) -> Seq<char> {
    Seq::new(ID_TEXT_LEN as nat, |i: int| id_char(id, i))
}

/// The bits of an identifier that say how it was made.
pub const MARK_BITS: u128 = 0x0000_0000_0000_f000_c000_0000_0000_0000;

/// The value of those bits in an identifier that was drawn at random.
pub const RANDOM_MARK: u128 = 0x0000_0000_0000_4000_8000_0000_0000_0000;

/// Whether an identifier is marked as drawn at random: version 4, in the
/// standard variant.
pub open spec fn marked_random(id: u128) -> bool {
    id & MARK_BITS == RANDOM_MARK
}

/// Draws a fresh identifier with `uuid::Uuid::new_v4`, taken as a number by
/// `Uuid::as_u128`. The value is random; all that holds of every outcome is
/// the mark that `new_v4` sets in it.
#[verifier::external_body]
fn random_id() -> (id: u128)
    ensures
        marked_random(id),
{
    uuid::Uuid::new_v4().as_u128()
}

/// Writes an identifier as `uuid::Uuid::from_u128` displays it: in the
/// lower-case hyphenated form.
#[verifier::external_body]
fn display_id(id: u128) -> (text: String)
    ensures
        text@ == id_text(id),
{
    uuid::Uuid::from_u128(id).to_string()
}

/// A fresh, unpredictable task identifier.
pub fn fresh_task_id() -> (id: u128)
    ensures
        marked_random(id),
{
    random_id()
}

/// The text under which a task identifier appears in keys and index sets.
pub fn task_id_text(id: u128) -> (text: String)
    ensures
        text@ == id_text(id),
        text@.len() == ID_TEXT_LEN,
{
    display_id(id)
}

} // verus!
