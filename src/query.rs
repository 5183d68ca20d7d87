//! Position queries (hover text and go-to-definition) over the addressable nodes of
//! a compiled file, listed in traversal order.
use vstd::prelude::*;
use crate::position::{SourceLocation, Position, SourceSpan, SpanView, within, location_of, is_within, position_to_location};

verus! {

/// The primitive types of the Slice language.
#[derive(Clone, Copy, Debug, PartialEq, Eq, Structural)]
pub enum Primitive {
    Bool,
    Int8,
    UInt8,
    Int16,
    UInt16,
    Int32,
    UInt32,
    VarInt32,
    VarUInt32,
    Int64,
    UInt64,
    VarInt62,
    VarUInt62,
    Float32,
    Float64,
    String,
    AnyClass,
}

/// A reference to a primitive type, which hover describes.
#[derive(Clone, Copy, Debug, PartialEq, Eq, Structural)]
pub struct PrimitiveRef {
    pub primitive: Primitive,
    pub is_optional: bool,
}

/// An addressable node of a file: a definition, or a reference (a type reference, a
/// base type, a documentation link). A leaf never contains another addressable span.
#[derive(Clone, Debug)]
pub struct QueryNode {
    pub span: SourceSpan,
    pub is_leaf: bool,
    /// The primitive type that the node refers to, if it is one.
    pub primitive: Option<PrimitiveRef>,
    /// The identifier span of the definition that the node refers to, if any.
    pub definition: Option<SourceSpan>,
}

/// Node `i` of `nodes` contains `loc`.
pub open spec fn node_matches(nodes: Seq<QueryNode>, loc: SourceLocation, i: int) -> bool {
    within(loc, nodes[i].span@)
}

/// Node `j` is the one a query at `loc` answers from: the traversal reaches it, it
/// contains `loc`, and it is either the first leaf that contains `loc` or, when no
/// leaf does, the last node that does.
pub open spec fn is_selected(nodes: Seq<QueryNode>, loc: SourceLocation, j: int) -> bool {
    &&& 0 <= j < nodes.len()
    &&& node_matches(nodes, loc, j)
    &&& forall|i: int| 0 <= i < j ==> !(#[trigger] node_matches(nodes, loc, i) && nodes[i].is_leaf)
    &&& (nodes[j].is_leaf || forall|i: int| j < i < nodes.len() ==> !#[trigger] node_matches(nodes, loc, i))
}

/// No node contains `loc`.
pub open spec fn no_match(nodes: Seq<QueryNode>, loc: SourceLocation) -> bool {
    forall|i: int| 0 <= i < nodes.len() ==> !#[trigger] node_matches(nodes, loc, i)
}

/// The article that starts the description of a primitive type.
pub open spec fn article_of(p: Primitive) -> Seq<char> {
    match p {
        Primitive::Int8 | Primitive::UInt8 => "An"@,
        _ => "A"@,
    }
}

/// The description of a primitive type.
pub open spec fn description_of(p: Primitive) -> Seq<char> {
    match p {
        Primitive::Bool => "boolean type."@,
        Primitive::Int8 => "8-bit signed integer type."@,
        Primitive::UInt8 => "8-bit unsigned integer type."@,
        Primitive::Int16 => "16-bit signed integer type."@,
        Primitive::UInt16 => "16-bit unsigned integer type."@,
        Primitive::Int32 => "32-bit signed integer type."@,
        Primitive::UInt32 => "32-bit unsigned integer type."@,
        Primitive::VarInt32 => "variable-length signed integer type."@,
        Primitive::VarUInt32 => "variable-length unsigned integer type."@,
        Primitive::Int64 => "64-bit signed integer type."@,
        Primitive::UInt64 => "64-bit unsigned integer type."@,
        Primitive::VarInt62 => "variable-length signed integer type."@,
        Primitive::VarUInt62 => "variable-length unsigned integer type."@,
        Primitive::Float32 => "32-bit floating point type."@,
        Primitive::Float64 => "64-bit floating point type."@,
        Primitive::String => "UTF-8 string."@,
        Primitive::AnyClass => "instance of any Slice class."@,
    }
}

/// The hover text of a primitive type reference.
pub open spec fn hover_text(r: PrimitiveRef) -> Seq<char> {
    if r.is_optional {
        "An optional "@ + description_of(r.primitive)
    } else {
        article_of(r.primitive) + " "@ + description_of(r.primitive)
    }
}

/// The article and the description of a primitive type.
pub fn describe_primitive_type(p: Primitive) -> (r: (&'static str, &'static str))
    ensures
        r.0@ == article_of(p),
        r.1@ == description_of(p),
{
    match p {
        Primitive::Bool => ("A", "boolean type."),
        Primitive::Int8 => ("An", "8-bit signed integer type."),
        Primitive::UInt8 => ("An", "8-bit unsigned integer type."),
        Primitive::Int16 => ("A", "16-bit signed integer type."),
        Primitive::UInt16 => ("A", "16-bit unsigned integer type."),
        Primitive::Int32 => ("A", "32-bit signed integer type."),
        Primitive::UInt32 => ("A", "32-bit unsigned integer type."),
        Primitive::VarInt32 => ("A", "variable-length signed integer type."),
        Primitive::VarUInt32 => ("A", "variable-length unsigned integer type."),
        Primitive::Int64 => ("A", "64-bit signed integer type."),
        Primitive::UInt64 => ("A", "64-bit unsigned integer type."),
        Primitive::VarInt62 => ("A", "variable-length signed integer type."),
        Primitive::VarUInt62 => ("A", "variable-length unsigned integer type."),
        Primitive::Float32 => ("A", "32-bit floating point type."),
        Primitive::Float64 => ("A", "64-bit floating point type."),
        Primitive::String => ("A", "UTF-8 string."),
        Primitive::AnyClass => ("A", "instance of any Slice class."),
    }
}

/// The hover text of a primitive type reference, optional references included.
pub fn construct_message(r: PrimitiveRef) -> (s: String)
    ensures
        s@ == hover_text(r),
{
    let (article, description) = describe_primitive_type(r.primitive);
    if r.is_optional {
        String::from_str("An optional ").concat(description)
    } else {
        String::from_str(article).concat(" ").concat(description)
    }
}

/// The node that a query at `loc` answers from, as `is_selected` states; `None`
/// when no node contains `loc`.
pub fn find_node(nodes: &Vec<QueryNode>, loc: SourceLocation) -> (r: Option<usize>)
    ensures
        match r {
            Some(j) => is_selected(nodes@, loc, j as int),
            None => no_match(nodes@, loc),
        },
{
    let mut found: Option<usize> = None;
    let mut i: usize = 0;
    while i < nodes.len()
        invariant
            i <= nodes@.len(),
            forall|k: int| 0 <= k < i ==> !(#[trigger] node_matches(nodes@, loc, k) && nodes@[k].is_leaf),
            match found {
                Some(j) => j < i && node_matches(nodes@, loc, j as int) && !nodes@[j as int].is_leaf
                    && forall|k: int| j < k < i ==> !#[trigger] node_matches(nodes@, loc, k),
                None => forall|k: int| 0 <= k < i ==> !#[trigger] node_matches(nodes@, loc, k),
            },
        decreases nodes@.len() - i,
    {
        if is_within(loc, &nodes[i].span) {
            if nodes[i].is_leaf {
                return Some(i);
            }
            found = Some(i);
        }
        i = i + 1;
    }
    found
}

/// At most one node is selected, so the result of a query is determined.
pub proof fn lemma_selection_unique(nodes: Seq<QueryNode>, loc: SourceLocation, a: int, b: int)
    requires
        is_selected(nodes, loc, a),
        is_selected(nodes, loc, b),
    ensures
        a == b,
{
    if a < b {
        assert(!(node_matches(nodes, loc, a) && nodes[a].is_leaf));
        assert(!node_matches(nodes, loc, b));
    } else if b < a {
        assert(!(node_matches(nodes, loc, b) && nodes[b].is_leaf));
        assert(!node_matches(nodes, loc, a));
    }
}

/// A leaf that contains the location wins over every container before it that also
/// contains it: a nested reference is preferred to its enclosing definition.
pub proof fn lemma_leaf_preferred(nodes: Seq<QueryNode>, loc: SourceLocation, container: int, leaf: int)
    requires
        0 <= container < leaf < nodes.len(),
        node_matches(nodes, loc, container),
        node_matches(nodes, loc, leaf),
        nodes[leaf].is_leaf,
        forall|i: int| 0 <= i < leaf && #[trigger] node_matches(nodes, loc, i) ==> !nodes[i].is_leaf,
    ensures
        is_selected(nodes, loc, leaf),
        !is_selected(nodes, loc, container),
{
}

/// The hover text at an editor position: the description of the primitive type that
/// the selected node refers to, if it refers to one.
pub fn get_hover_message(nodes: &Vec<QueryNode>, position: Position) -> (r: Option<String>)
    ensures
        match r {
            Some(s) => exists|j: int| #[trigger] is_selected(nodes@, location_of(position), j)
                && nodes@[j].primitive is Some && s@ == hover_text(nodes@[j].primitive->0),
            None => no_match(nodes@, location_of(position)) || exists|j: int|
                #[trigger] is_selected(nodes@, location_of(position), j) && nodes@[j].primitive is None,
        },
{
    let loc = position_to_location(position);
    match find_node(nodes, loc) {
        Some(j) => match nodes[j].primitive {
            Some(p) => Some(construct_message(p)),
            None => None,
        },
        None => None,
    }
}

/// The span of the definition that the selected node at an editor position refers
/// to, if it refers to one.
pub fn get_definition_span(nodes: &Vec<QueryNode>, position: Position) -> (r: Option<SourceSpan>)
    ensures
        match r {
            Some(s) => exists|j: int| #[trigger] is_selected(nodes@, location_of(position), j)
                && nodes@[j].definition is Some && s@ == nodes@[j].definition->0@,
            None => no_match(nodes@, location_of(position)) || exists|j: int|
                #[trigger] is_selected(nodes@, location_of(position), j) && nodes@[j].definition is None,
        },
{
    let loc = position_to_location(position);
    match find_node(nodes, loc) {
        Some(j) => match &nodes[j].definition {
            Some(d) => Some(d.duplicate()),
            None => None,
        },
        None => None,
    }
}

} // verus!
