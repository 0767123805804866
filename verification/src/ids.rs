//! Identifiers.
use vstd::prelude::*;

use crate::text::{digit, Text};

verus! {

/// A 128-bit identifier.
#[derive(Debug, Clone, Copy, PartialEq, Eq, Hash, Structural)]
pub struct Uuid {
    pub bits: u128,
}

/// `16^n`.
pub open spec fn pow16(n: nat) -> nat
    decreases n,
{
    if n == 0 {
        1
    } else {
        16 * pow16((n - 1) as nat)
    }
}

/// A hexadecimal digit in lower case.
pub open spec fn hex_digit(d: nat) -> char {
    if d < 10 {
        digit(d)
    } else if d == 10 {
        'a'
    } else if d == 11 {
        'b'
    } else if d == 12 {
        'c'
    } else if d == 13 {
        'd'
    } else if d == 14 {
        'e'
    } else {
        'f'
    }
}

/// Which of the 32 hexadecimal digits stands at a place of the written form.
pub open spec fn digit_at(i: int) -> int {
    if i < 8 {
        i
    } else if i < 13 {
        i - 1
    } else if i < 18 {
        i - 2
    } else if i < 23 {
        i - 3
    } else {
        i - 4
    }
}

/// An identifier as it is written: 32 hexadecimal digits, most significant
/// first, in groups of 8, 4, 4, 4 and 12.
pub open spec fn uuid_text(bits: u128) -> Text {
    Seq::new(
        36,
        |i: int|
            if i == 8 || i == 13 || i == 18 || i == 23 {
                '-'
            } else {
                hex_digit(((bits as nat) / pow16((31 - digit_at(i)) as nat)) % 16)
            },
    )
}

/// `uuid::Uuid`'s text: the hyphenated form in lower case.
#[verifier::external_body]
fn hyphenated(bits: u128) -> (s: String)
    ensures
        s@ == uuid_text(bits),
{
    uuid::Uuid::from_u128(bits).to_string()
}

impl Uuid {
    /// The identifier of which every bit is zero.
    pub fn nil() -> (u: Uuid)
        ensures
            u.bits == 0,
    {
        Uuid { bits: 0 }
    }

    /// The identifier as it is written.
    pub fn text(&self) -> (s: String)
        ensures
            s@ == uuid_text(self.bits),
    {
        hyphenated(self.bits)
    }
}

/// An identifier is written in lower-case hexadecimal, most significant digit
/// first, with hyphens behind the eighth, twelfth, sixteenth and twentieth digit.
pub proof fn law_an_identifier_is_written_in_hexadecimal(bits: u128)
    ensures
        uuid_text(bits).len() == 36,
        uuid_text(bits)[8] == '-' && uuid_text(bits)[13] == '-' && uuid_text(bits)[18] == '-'
            && uuid_text(bits)[23] == '-',
        uuid_text(bits)[35] == hex_digit((bits % 16) as nat),
{
    reveal_with_fuel(pow16, 1);
    assert(pow16(0) == 1);
    assert((bits as nat) / 1 == bits);
}

} // verus!
