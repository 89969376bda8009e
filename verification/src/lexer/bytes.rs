//! The bytes that the grammar names, and the classes it sorts bytes into.
//!
//! The lexer reads its source as UTF-8 bytes. Everything the grammar gives a
//! meaning to is ASCII; a character outside ASCII can only stand inside a
//! comment or a literal, or be reported as unrecognized. To keep such a
//! character in one piece, the grammar tells continuation bytes apart: a
//! character is one byte that is no continuation byte, and the continuation
//! bytes that follow it.

use vstd::prelude::*;

verus! {

pub const NEWLINE: u8 = '\n' as u8;

pub const TAB: u8 = '\t' as u8;

pub const SPACE: u8 = ' ' as u8;

pub const QUOTE: u8 = '"' as u8;

pub const APOSTROPHE: u8 = '\'' as u8;

pub const BACKSLASH: u8 = '\\' as u8;

pub const SLASH: u8 = '/' as u8;

pub const STAR: u8 = '*' as u8;

pub const DOT: u8 = '.' as u8;

pub const UNDERSCORE: u8 = '_' as u8;

/// An ASCII letter.
pub open spec fn is_letter(b: u8) -> bool {
    ('a' as u8 <= b && b <= 'z' as u8) || ('A' as u8 <= b && b <= 'Z' as u8)
}

/// An ASCII decimal digit.
pub open spec fn is_digit(b: u8) -> bool {
    '0' as u8 <= b && b <= '9' as u8
}

/// A space, a tab or a newline: the bytes that separate tokens.
pub open spec fn is_whitespace(b: u8) -> bool {
    b == SPACE || b == TAB || b == NEWLINE
}

/// A byte that may begin an identifier: a letter or an underscore.
pub open spec fn is_identifier_start(b: u8) -> bool {
    is_letter(b) || b == UNDERSCORE
}

/// A byte that may continue an identifier: a letter, a digit or an underscore.
pub open spec fn is_identifier_part(b: u8) -> bool {
    is_identifier_start(b) || is_digit(b)
}

/// A UTF-8 continuation byte: one that belongs to the character begun before it.
pub open spec fn is_continuation(b: u8) -> bool {
    0x80 <= b && b <= 0xBF
}

/// The classes of bytes of which the grammar takes maximal runs.
#[derive(Clone, Copy, Debug, PartialEq, Eq)]
pub enum ByteClass {
    /// Decimal digits.
    Digit,
    /// Decimal digits and dots: what a number, well formed or not, is made of.
    NumberPart,
    /// Letters, digits and underscores.
    IdentifierPart,
    /// UTF-8 continuation bytes.
    Continuation,
    /// Every byte but the newline: what is left of a line.
    LineRest,
}

impl ByteClass {
    /// Whether `b` belongs to the class.
    pub open spec fn has(self, b: u8) -> bool {
        match self {
            ByteClass::Digit => is_digit(b),
            ByteClass::NumberPart => is_digit(b) || b == DOT,
            ByteClass::IdentifierPart => is_identifier_part(b),
            ByteClass::Continuation => is_continuation(b),
            ByteClass::LineRest => b != NEWLINE,
        }
    }

    /// Decides `has`.
    pub fn contains(self, b: u8) -> (r: bool)
        ensures
            r == self.has(b),
    {
        match self {
            ByteClass::Digit => digit(b),
            ByteClass::NumberPart => digit(b) || b == DOT,
            ByteClass::IdentifierPart => identifier_start(b) || digit(b),
            ByteClass::Continuation => 0x80 <= b && b <= 0xBF,
            ByteClass::LineRest => b != NEWLINE,
        }
    }
}

/// Decides `is_digit`.
pub fn digit(b: u8) -> (r: bool)
    ensures
        r == is_digit(b),
{
    '0' as u8 <= b && b <= '9' as u8
}

/// Decides `is_whitespace`.
pub fn whitespace(b: u8) -> (r: bool)
    ensures
        r == is_whitespace(b),
{
    b == SPACE || b == TAB || b == NEWLINE
}

/// Decides `is_identifier_start`.
pub fn identifier_start(b: u8) -> (r: bool)
    ensures
        r == is_identifier_start(b),
{
    ('a' as u8 <= b && b <= 'z' as u8) || ('A' as u8 <= b && b <= 'Z' as u8) || b == UNDERSCORE
}

} // verus!
