//! Source positions: byte offset, line and column, and ranges over them.
//!
//! Positions are zero-based. The line of an offset is the number of newline
//! characters strictly before it; the column is the distance from the most
//! recent newline (or from the start of the buffer).

use vstd::prelude::*;

verus! {

/// A point in the input buffer: offset in characters, plus the line and
/// column that offset falls on.
#[derive(Copy, Clone, Debug, PartialEq, Eq, Structural)]
pub struct Position {
    pub Offset: usize,
    pub Line: usize,
    pub Column: usize,
}

/// A half-open span of input: `Begin` is the first consumed position,
/// `End` the position just past the last consumed character.
#[derive(Copy, Clone, Debug, PartialEq, Eq, Structural)]
pub struct PosRange {
    pub Begin: Position,
    pub End: Position,
}

/// Number of newline characters of `buf` strictly before offset `off`.
pub open spec fn line_at(buf: Seq<char>, off: int) -> nat
    decreases off,
{
    if off <= 0 || off > buf.len() {
        0
    } else {
        line_at(buf, off - 1) + if buf[off - 1] == '\n' {
            1nat
        } else {
            0nat
        }
    }
}

/// Distance of offset `off` from the most recent newline of `buf` before it.
pub open spec fn col_at(buf: Seq<char>, off: int) -> nat
    decreases off,
{
    if off <= 0 || off > buf.len() {
        0
    } else if buf[off - 1] == '\n' {
        0
    } else {
        col_at(buf, off - 1) + 1
    }
}

/// The full `Position` denoted by offset `off` of `buf`.
pub open spec fn pos_at(buf: Seq<char>, off: int) -> Position {
    Position { Offset: off as usize, Line: line_at(buf, off) as usize, Column: col_at(
        buf,
        off,
    ) as usize }
}

/// Line and column counts never exceed the offset they describe.
pub proof fn lemma_line_col_bounds(buf: Seq<char>, off: int)
    requires
        0 <= off,
    ensures
        line_at(buf, off) <= off,
        col_at(buf, off) <= off,
    decreases off,
{
    if 0 < off <= buf.len() {
        lemma_line_col_bounds(buf, off - 1);
    }
}

} // verus!
