//! Lines and columns.
//!
//! Both are counted from 1. A newline ends its line: the byte behind it stands
//! in column 1 of the next line. Every other character takes one column; the
//! continuation bytes of a character take none, so that a column counts
//! characters while an offset counts bytes.

use vstd::prelude::*;
use crate::lexer::bytes::{is_continuation, ByteClass, NEWLINE};
use crate::lexer::token::Position;

verus! {

/// The line of offset `i`: one more than the newlines before it.
pub open spec fn line_at(s: Seq<u8>, i: int) -> int
    decreases i,
{
    if i <= 0 {
        1
    } else if s[i - 1] == NEWLINE {
        line_at(s, i - 1) + 1
    } else {
        line_at(s, i - 1)
    }
}

/// The column of offset `i`: one more than the characters that stand before it
/// in its line.
pub open spec fn column_at(s: Seq<u8>, i: int) -> int
    decreases i,
{
    if i <= 0 {
        1
    } else if s[i - 1] == NEWLINE {
        1
    } else if is_continuation(s[i - 1]) {
        column_at(s, i - 1)
    } else {
        column_at(s, i - 1) + 1
    }
}

/// `p` is the position of offset `i` in `s`.
pub open spec fn is_position_of(p: Position, s: Seq<u8>, i: int) -> bool {
    &&& p.offset == i
    &&& p.line == line_at(s, i)
    &&& p.column == column_at(s, i)
}

/// Lines and columns begin at 1, and neither outruns the offset.
pub proof fn lemma_position_bounds(s: Seq<u8>, i: int)
    requires
        0 <= i,
    ensures
        1 <= line_at(s, i) <= i + 1,
        1 <= column_at(s, i) <= i + 1,
    decreases i,
{
    if i > 0 {
        lemma_position_bounds(s, i - 1);
    }
}

/// The position at which a scan begins.
pub(crate) fn start_position() -> (p: Position)
    ensures
        p.offset == 0,
        p.line == 1,
        p.column == 1,
{
    Position { line: 1, column: 1, offset: 0 }
}

/// Moves a position forward to the offset `to`, byte by byte over what lies
/// between.
pub(crate) fn advance(src: &[u8], from: Position, to: usize) -> (p: Position)
    requires
        is_position_of(from, src@, from.offset as int),
        from.offset <= to <= src@.len(),
        src@.len() < usize::MAX,
    ensures
        is_position_of(p, src@, to as int),
{
    let mut p = from;
    while p.offset < to
        invariant
            is_position_of(p, src@, p.offset as int),
            from.offset <= p.offset <= to <= src@.len(),
            src@.len() < usize::MAX,
        decreases to - p.offset,
    {
        proof {
            lemma_position_bounds(src@, p.offset as int);
        }
        let b = src[p.offset];
        if b == NEWLINE {
            p = Position { line: p.line + 1, column: 1, offset: p.offset + 1 };
        } else if ByteClass::Continuation.contains(b) {
            p = Position { line: p.line, column: p.column, offset: p.offset + 1 };
        } else {
            p = Position { line: p.line, column: p.column + 1, offset: p.offset + 1 };
        }
    }
    p
}

} // verus!
