//! The parsed document tree: nodes with typed, optionally named entries and
//! nested children. An upstream parser produces this tree; the converters
//! turn it into the canonical JSON shape.

use vstd::prelude::*;

verus! {

/// What the renderer may read of a parsed double. A finite double is
/// carried as its plain decimal rendering plus whether its fractional part
/// is exactly zero; infinities and NaN are carried symbolically.
#[derive(Debug)]
pub enum FloatRepr {
    Infinite { negative: bool },
    NotANumber,
    Finite { decimal: String, fract_is_zero: bool },
}

/// A literal value of an entry. A float keeps the optional source text of
/// the literal: when that text used scientific notation it is the only
/// channel through which precision beyond double resolution survives, and
/// the renderer prefers it over the parsed double.
#[derive(Debug)]
pub enum Value {
    Text(String),
    Integer(i128),
    Float { repr: FloatRepr, original: Option<String> },
    Bool(bool),
    Null,
}

/// One argument of a node: named when `name` is present, positional
/// otherwise, optionally type-annotated, holding exactly one value.
#[derive(Debug)]
pub struct Entry {
    pub name: Option<String>,
    pub ty: Option<String>,
    pub value: Value,
}

/// A named, optionally type-annotated tree element with ordered entries
/// and an optional child document. A missing child document and an empty
/// one both canonicalize to an empty children array.
#[derive(Debug)]
pub struct Node {
    pub ty: Option<String>,
    pub name: String,
    pub entries: Vec<Entry>,
    pub children: Option<Document>,
}

/// An ordered sequence of nodes; insertion order is significant and is
/// preserved end to end.
#[derive(Debug)]
pub struct Document {
    pub nodes: Vec<Node>,
}

} // verus!
