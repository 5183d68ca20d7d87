use slice_lsp::position::{is_within, position_to_location, span_to_range, Position, Range, SourceLocation, SourceSpan};

fn span(r1: usize, c1: usize, r2: usize, c2: usize) -> SourceSpan {
    SourceSpan {
        start: SourceLocation { row: r1, col: c1 },
        end: SourceLocation { row: r2, col: c2 },
        file: "/f.slice".to_string(),
    }
}

#[test]
fn within_is_inclusive_and_lexicographic() {
    let s = span(1, 5, 3, 2);
    assert!(is_within(SourceLocation { row: 1, col: 5 }, &s));
    assert!(is_within(SourceLocation { row: 3, col: 2 }, &s));
    assert!(is_within(SourceLocation { row: 2, col: 1 }, &s));
    assert!(is_within(SourceLocation { row: 2, col: 100 }, &s));
    assert!(!is_within(SourceLocation { row: 1, col: 4 }, &s));
    assert!(!is_within(SourceLocation { row: 3, col: 3 }, &s));
    assert!(!is_within(SourceLocation { row: 4, col: 1 }, &s));
}

#[test]
fn span_to_range_is_zero_based() {
    let r = span_to_range(&span(1, 1, 3, 7));
    assert_eq!(
        r,
        Range { start: Position { line: 0, character: 0 }, end: Position { line: 2, character: 6 } }
    );
}

#[test]
fn span_to_range_keeps_zero_at_zero() {
    let r = span_to_range(&span(0, 0, 1, 1));
    assert_eq!(r.start, Position { line: 0, character: 0 });
    assert_eq!(r.end, Position { line: 0, character: 0 });
}

#[test]
fn position_to_location_is_one_based() {
    let l = position_to_location(Position { line: 2, character: 4 });
    assert_eq!(l, SourceLocation { row: 3, col: 5 });
}
