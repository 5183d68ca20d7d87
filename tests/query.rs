use slice_lsp::position::{Position, SourceLocation, SourceSpan};
use slice_lsp::query::{
    construct_message, describe_primitive_type, find_node, get_definition_span, get_hover_message, Primitive,
    PrimitiveRef, QueryNode,
};

fn span(r1: usize, c1: usize, r2: usize, c2: usize) -> SourceSpan {
    SourceSpan {
        start: SourceLocation { row: r1, col: c1 },
        end: SourceLocation { row: r2, col: c2 },
        file: "/f.slice".to_string(),
    }
}

fn container(s: SourceSpan) -> QueryNode {
    QueryNode { span: s, is_leaf: false, primitive: None, definition: None }
}

fn primitive_ref(s: SourceSpan, primitive: Primitive, is_optional: bool) -> QueryNode {
    QueryNode { span: s, is_leaf: true, primitive: Some(PrimitiveRef { primitive, is_optional }), definition: None }
}

#[test]
fn reference_inside_struct_wins() {
    let nodes = vec![container(span(1, 1, 5, 2)), primitive_ref(span(3, 10, 3, 14), Primitive::Int32, false)];
    let hover = get_hover_message(&nodes, Position { line: 2, character: 11 });
    assert_eq!(hover, Some("A 32-bit signed integer type.".to_string()));
}

#[test]
fn container_alone_gives_no_hover() {
    let nodes = vec![container(span(1, 1, 5, 2)), primitive_ref(span(3, 10, 3, 14), Primitive::Int32, false)];
    assert_eq!(get_hover_message(&nodes, Position { line: 1, character: 0 }), None);
    assert_eq!(find_node(&nodes, SourceLocation { row: 2, col: 1 }), Some(0));
}

#[test]
fn no_node_no_result() {
    let nodes = vec![container(span(1, 1, 5, 2))];
    assert_eq!(get_hover_message(&nodes, Position { line: 9, character: 0 }), None);
    assert_eq!(find_node(&nodes, SourceLocation { row: 10, col: 1 }), None);
    assert!(get_definition_span(&nodes, Position { line: 9, character: 0 }).is_none());
}

#[test]
fn optional_reference_hover() {
    let nodes = vec![primitive_ref(span(1, 1, 1, 7), Primitive::String, true)];
    assert_eq!(get_hover_message(&nodes, Position { line: 0, character: 3 }), Some("An optional UTF-8 string.".to_string()));
}

#[test]
fn primitive_descriptions() {
    assert_eq!(describe_primitive_type(Primitive::Int8), ("An", "8-bit signed integer type."));
    assert_eq!(describe_primitive_type(Primitive::Bool), ("A", "boolean type."));
    assert_eq!(describe_primitive_type(Primitive::AnyClass), ("A", "instance of any Slice class."));
    assert_eq!(
        construct_message(PrimitiveRef { primitive: Primitive::UInt8, is_optional: false }),
        "An 8-bit unsigned integer type."
    );
    assert_eq!(
        construct_message(PrimitiveRef { primitive: Primitive::VarUInt62, is_optional: true }),
        "An optional variable-length unsigned integer type."
    );
}

#[test]
fn definition_of_type_reference() {
    let target = span(10, 8, 10, 12);
    let nodes = vec![
        container(span(1, 1, 5, 2)),
        QueryNode { span: span(3, 10, 3, 14), is_leaf: true, primitive: None, definition: Some(target.clone()) },
    ];
    let found = get_definition_span(&nodes, Position { line: 2, character: 9 }).unwrap();
    assert_eq!(found.start, target.start);
    assert_eq!(found.end, target.end);
    assert_eq!(found.file, target.file);
}

#[test]
fn first_matching_leaf_is_selected() {
    let nodes = vec![
        primitive_ref(span(1, 1, 1, 9), Primitive::Bool, false),
        primitive_ref(span(1, 1, 1, 9), Primitive::Int64, false),
    ];
    assert_eq!(find_node(&nodes, SourceLocation { row: 1, col: 2 }), Some(0));
}
