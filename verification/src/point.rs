use vstd::prelude::*;

verus! {

/// A position in a document: a row and a column, both counted from zero.
/// Points are ordered by row first and then by column.
#[derive(Clone, Copy, PartialEq, Eq, Structural, Debug, Default)]
pub struct Point {
    pub row: usize,
    pub column: usize,
}

/// `a` comes strictly before `b`.
pub open spec fn p_lt(a: Point, b: Point) -> bool {
    a.row < b.row || (a.row == b.row && a.column < b.column)
}

/// `a` comes before `b` or equals it.
pub open spec fn p_le(a: Point, b: Point) -> bool {
    p_lt(a, b) || a == b
}

impl Point {
    pub fn new(row: usize, column: usize) -> (p: Point)
        ensures
            p.row == row,
            p.column == column,
    {
        Point { row, column }
    }

    pub fn zero() -> (p: Point)
        ensures
            p.row == 0,
            p.column == 0,
    {
        Point { row: 0, column: 0 }
    }

    pub fn lt(&self, other: &Point) -> (b: bool)
        ensures
            b == p_lt(*self, *other),
    {
        self.row < other.row || (self.row == other.row && self.column < other.column)
    }

    pub fn le(&self, other: &Point) -> (b: bool)
        ensures
            b == p_le(*self, *other),
    {
        self.row < other.row || (self.row == other.row && self.column <= other.column)
    }

    pub fn same(&self, other: &Point) -> (b: bool)
        ensures
            b == (*self == *other),
    {
        self.row == other.row && self.column == other.column
    }
}

/// The order on points is total.
pub proof fn lemma_point_total(a: Point, b: Point)
    ensures
        p_le(a, b) || p_le(b, a),
        !(p_lt(a, b) && p_le(b, a)),
{
}

/// The order on points is transitive.
pub proof fn lemma_point_trans(a: Point, b: Point, c: Point)
    ensures
        p_le(a, b) && p_le(b, c) ==> p_le(a, c),
        p_lt(a, b) && p_le(b, c) ==> p_lt(a, c),
        p_le(a, b) && p_lt(b, c) ==> p_lt(a, c),
{
}

/// A position as the language-server protocol counts it: a line and a
/// character offset within it.
#[derive(Clone, Copy, PartialEq, Eq, Structural, Debug, Default)]
pub struct Position {
    pub line: u32,
    pub character: u32,
}

/// A range between two positions.
#[derive(Clone, Copy, PartialEq, Eq, Structural, Debug, Default)]
pub struct Range {
    pub start: Position,
    pub end: Position,
}

impl Position {
    pub fn new(line: u32, character: u32) -> (p: Position)
        ensures
            p.line == line,
            p.character == character,
    {
        Position { line, character }
    }
}

impl Range {
    pub fn new(start: Position, end: Position) -> (r: Range)
        ensures
            r.start == start,
            r.end == end,
    {
        Range { start, end }
    }
}

/// The protocol position of a point; each coordinate keeps its low 32 bits.
pub open spec fn spec_to_position(p: Point) -> Position {
    Position { line: p.row as u32, character: p.column as u32 }
}

/// Converts a point to a protocol position.
pub fn to_position2(point: Point) -> (p: Position)
    ensures
        p == spec_to_position(point),
{
    Position { line: point.row as u32, character: point.column as u32 }
}

/// The protocol range between two points.
pub open spec fn spec_to_range(points: (Point, Point)) -> Range {
    Range { start: spec_to_position(points.0), end: spec_to_position(points.1) }
}

/// Converts a pair of points to a protocol range.
pub fn to_range(points: (Point, Point)) -> (r: Range)
    ensures
        r == spec_to_range(points),
{
    Range::new(to_position2(points.0), to_position2(points.1))
}

} // verus!
