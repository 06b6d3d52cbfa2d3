//! Positions and ranges, both as a parser reports them and as an editor
//! addresses them.

use vstd::prelude::*;

verus! {

/// A row and column as a parser reports them.
#[derive(Clone, Copy, Debug, PartialEq, Eq, Structural)]
pub struct Point {
    pub row: usize,
    pub column: usize,
}

/// A line and character as an editor addresses them.
#[derive(Clone, Copy, Debug, PartialEq, Eq, Structural)]
pub struct Position {
    pub line: u32,
    pub character: u32,
}

/// The span of a node in parser coordinates.
#[derive(Clone, Copy, Debug, PartialEq, Eq, Structural)]
pub struct SourceRange {
    pub start_byte: usize,
    pub end_byte: usize,
    pub start_point: Point,
    pub end_point: Point,
}

/// A start and end position in editor coordinates.
#[derive(Clone, Copy, Debug, PartialEq, Eq, Structural)]
pub struct Range {
    pub start: Position,
    pub end: Position,
}

/// The low 32 bits of a machine word.
pub open spec fn low_bits(n: usize) -> u32 {
    n as u32
}

/// Narrows a machine word to its low 32 bits.
pub fn narrow(n: usize) -> (r: u32)
    ensures
        r == low_bits(n),
        n <= u32::MAX ==> r == n,
{
    #[verifier::truncate]
    (n as u32)
}

/// The editor position of a parser point; each coordinate keeps its low
/// 32 bits.
pub open spec fn position_of(point: Point) -> Position {
    Position { line: low_bits(point.row), character: low_bits(point.column) }
}

/// The editor range of a parser range.
pub open spec fn range_of(range: SourceRange) -> Range {
    Range { start: position_of(range.start_point), end: position_of(range.end_point) }
}

/// Converts a parser point to an editor position.
pub fn to_position(point: Point) -> (r: Position)
    ensures
        r == position_of(point),
{
    Position { line: narrow(point.row), character: narrow(point.column) }
}

/// Converts a parser range to an editor range.
pub fn to_range(range: SourceRange) -> (r: Range)
    ensures
        r == range_of(range),
{
    Range { start: to_position(range.start_point), end: to_position(range.end_point) }
}

} // verus!
