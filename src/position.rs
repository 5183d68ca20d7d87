//! Source locations and spans (one-based) and the editor's positions and ranges
//! (zero-based).
use vstd::prelude::*;

verus! {

/// A one-based (row, column) location in a source file.
#[derive(Clone, Copy, Debug, PartialEq, Eq, Structural)]
pub struct SourceLocation {
    pub row: usize,
    pub col: usize,
}

/// A range of a source file, inclusive on both ends.
#[derive(Clone, Debug)]
pub struct SourceSpan {
    pub start: SourceLocation,
    pub end: SourceLocation,
    pub file: String,
}

/// What a span denotes: its two ends and the text of its file path.
pub struct SpanView {
    pub start: SourceLocation,
    pub end: SourceLocation,
    pub file: Seq<char>,
}

impl View for SourceSpan {
    type V = SpanView;

    open spec fn view(&self) -> SpanView {
        SpanView { start: self.start, end: self.end, file: self.file@ }
    }
}

/// A zero-based (line, character) position, as the editor protocol counts.
#[derive(Clone, Copy, Debug, PartialEq, Eq, Structural)]
pub struct Position {
    pub line: u32,
    pub character: u32,
}

/// A range between two editor positions.
#[derive(Clone, Copy, Debug, PartialEq, Eq, Structural)]
pub struct Range {
    pub start: Position,
    pub end: Position,
}

/// `a` comes at or before `b`, rows first, then columns.
pub open spec fn location_le(a: SourceLocation, b: SourceLocation) -> bool {
    a.row < b.row || (a.row == b.row && a.col <= b.col)
}

/// `loc` lies within `span`, both ends included.
pub open spec fn within(loc: SourceLocation, span: SpanView) -> bool {
    location_le(span.start, loc) && location_le(loc, span.end)
}

/// A one-based index as a zero-based one, kept within `u32` (0 stays 0).
pub open spec fn zero_based(n: usize) -> u32 {
    if n == 0 {
        0
    } else if n - 1 > u32::MAX {
        u32::MAX
    } else {
        (n - 1) as u32
    }
}

/// A zero-based index as a one-based one, kept within `usize`.
pub open spec fn one_based(n: u32) -> usize {
    if n + 1 > usize::MAX {
        usize::MAX
    } else {
        (n + 1) as usize
    }
}

/// The editor position of a source location.
pub open spec fn position_of(loc: SourceLocation) -> Position {
    Position { line: zero_based(loc.row), character: zero_based(loc.col) }
}

/// The editor range of a span.
pub open spec fn range_of(span: SpanView) -> Range {
    Range { start: position_of(span.start), end: position_of(span.end) }
}

/// The source location of an editor position.
pub open spec fn location_of(position: Position) -> SourceLocation {
    SourceLocation { row: one_based(position.line), col: one_based(position.character) }
}

impl SourceSpan {
    /// A copy of this span.
    pub fn duplicate(&self) -> (r: SourceSpan)
        ensures
            r@ == self@,
    {
        SourceSpan { start: self.start, end: self.end, file: self.file.clone() }
    }
}

/// Whether `loc` lies within `span`, both ends included.
pub fn is_within(loc: SourceLocation, span: &SourceSpan) -> (r: bool)
    ensures
        r == within(loc, span@),
{
    let after_start = span.start.row < loc.row || (span.start.row == loc.row && span.start.col <= loc.col);
    let before_end = loc.row < span.end.row || (loc.row == span.end.row && loc.col <= span.end.col);
    after_start && before_end
}

fn to_zero_based(n: usize) -> (r: u32)
    ensures
        r == zero_based(n),
{
    if n == 0 {
        0
    } else if n - 1 > u32::MAX as usize {
        u32::MAX
    } else {
        (n - 1) as u32
    }
}

fn to_one_based(n: u32) -> (r: usize)
    ensures
        r == one_based(n),
{
    let m = n as usize;
    if m == usize::MAX {
        usize::MAX
    } else {
        m + 1
    }
}

/// Converts a one-based span into the editor's zero-based range.
pub fn span_to_range(span: &SourceSpan) -> (r: Range)
    ensures
        r == range_of(span@),
{
    let start = Position { line: to_zero_based(span.start.row), character: to_zero_based(span.start.col) };
    let end = Position { line: to_zero_based(span.end.row), character: to_zero_based(span.end.col) };
    Range { start, end }
}

/// Converts the editor's zero-based position into a one-based source location.
pub fn position_to_location(position: Position) -> (r: SourceLocation)
    ensures
        r == location_of(position),
{
    SourceLocation { row: to_one_based(position.line), col: to_one_based(position.character) }
}

} // verus!
