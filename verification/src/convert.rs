//! The converters: one canonical JSON object per value, entry and node,
//! and one canonical JSON array per document, preserving order throughout.

use vstd::prelude::*;

use crate::json::Json;
use crate::json::JsonV;
use crate::json::json_view;
use crate::model::Document;
use crate::model::Entry;
use crate::model::Node;
use crate::model::Value;
use crate::render::RenderError;
use crate::render::float_ok;
use crate::render::opt_str_view;
use crate::render::spec_render_float;
use crate::render::spec_render_integer;
use crate::render::render_float;
use crate::render::render_integer;

verus! {

broadcast use vstd::std_specs::vec::axiom_vec_index_decreases;

/// The object key `type`.
pub open spec fn key_type() -> Seq<char> {
    seq!['t', 'y', 'p', 'e']
}

/// The object key `name`.
pub open spec fn key_name() -> Seq<char> {
    seq!['n', 'a', 'm', 'e']
}

/// The object key `value`.
pub open spec fn key_value() -> Seq<char> {
    seq!['v', 'a', 'l', 'u', 'e']
}

/// The object key `entries`.
pub open spec fn key_entries() -> Seq<char> {
    seq!['e', 'n', 't', 'r', 'i', 'e', 's']
}

/// The object key `children`.
pub open spec fn key_children() -> Seq<char> {
    seq!['c', 'h', 'i', 'l', 'd', 'r', 'e', 'n']
}

/// The kind tag `string`.
pub open spec fn kind_string() -> Seq<char> {
    seq!['s', 't', 'r', 'i', 'n', 'g']
}

/// The kind tag `number`.
pub open spec fn kind_number() -> Seq<char> {
    seq!['n', 'u', 'm', 'b', 'e', 'r']
}

/// The kind tag `boolean`.
pub open spec fn kind_boolean() -> Seq<char> {
    seq!['b', 'o', 'o', 'l', 'e', 'a', 'n']
}

/// The kind tag `null`.
pub open spec fn kind_null() -> Seq<char> {
    seq!['n', 'u', 'l', 'l']
}

/// The boolean token `true`.
pub open spec fn lit_true() -> Seq<char> {
    seq!['t', 'r', 'u', 'e']
}

/// The boolean token `false`.
pub open spec fn lit_false() -> Seq<char> {
    seq!['f', 'a', 'l', 's', 'e']
}

proof fn keys_facts()
    ensures
        "type"@ == key_type(),
        "name"@ == key_name(),
        "value"@ == key_value(),
        "entries"@ == key_entries(),
        "children"@ == key_children(),
        "string"@ == kind_string(),
        "number"@ == kind_number(),
        "boolean"@ == kind_boolean(),
        "null"@ == kind_null(),
        "true"@ == lit_true(),
        "false"@ == lit_false(),
{
    reveal_strlit("type");
    reveal_strlit("name");
    reveal_strlit("value");
    reveal_strlit("entries");
    reveal_strlit("children");
    reveal_strlit("string");
    reveal_strlit("number");
    reveal_strlit("boolean");
    reveal_strlit("null");
    reveal_strlit("true");
    reveal_strlit("false");
    assert("type"@ =~= key_type());
    assert("name"@ =~= key_name());
    assert("value"@ =~= key_value());
    assert("entries"@ =~= key_entries());
    assert("children"@ =~= key_children());
    assert("string"@ =~= kind_string());
    assert("number"@ =~= kind_number());
    assert("boolean"@ =~= kind_boolean());
    assert("null"@ =~= kind_null());
    assert("true"@ =~= lit_true());
    assert("false"@ =~= lit_false());
}

/// The view of an optional owned string.
pub open spec fn opt_string_view(o: Option<String>) -> Option<Seq<char>> {
    match o {
        Option::Some(s) => Option::Some(s@),
        Option::None => Option::None,
    }
}

/// An optional text as JSON: the text itself, or JSON null when absent.
pub open spec fn opt_text(o: Option<String>) -> JsonV {
    match o {
        Option::Some(s) => JsonV::Text(s@),
        Option::None => JsonV::Null,
    }
}

/// Whether a value renders: only a float whose scientific-notation
/// original has unusable exponent text is rejected.
pub open spec fn value_ok(v: Value) -> bool {
    match v {
        Value::Float { repr, original } => float_ok(repr, opt_string_view(original)),
        _ => true,
    }
}

/// What a value converts to: a `type`-tagged object whose `value` field
/// holds the rendered text. A null value carries no `value` field at all.
pub open spec fn spec_value_json(v: Value) -> JsonV {
    match v {
        Value::Text(s) => JsonV::Object(
            seq![
                (key_type(), JsonV::Text(kind_string())),
                (key_value(), JsonV::Text(s@)),
            ],
        ),
        Value::Integer(n) => JsonV::Object(
            seq![
                (key_type(), JsonV::Text(kind_number())),
                (key_value(), JsonV::Text(spec_render_integer(n as int))),
            ],
        ),
        Value::Float { repr, original } => JsonV::Object(
            seq![
                (key_type(), JsonV::Text(kind_number())),
                (key_value(), JsonV::Text(spec_render_float(repr, opt_string_view(original)))),
            ],
        ),
        Value::Bool(b) => JsonV::Object(
            seq![
                (key_type(), JsonV::Text(kind_boolean())),
                (
                    key_value(),
                    JsonV::Text(
                        if b {
                            lit_true()
                        } else {
                            lit_false()
                        },
                    ),
                ),
            ],
        ),
        Value::Null => JsonV::Object(seq![(key_type(), JsonV::Text(kind_null()))]),
    }
}

/// Whether an entry converts: exactly when its value does.
pub open spec fn entry_ok(e: Entry) -> bool {
    value_ok(e.value)
}

/// What an entry converts to: its optional name, its optional type
/// annotation, and its converted value.
pub open spec fn spec_entry_json(e: Entry) -> JsonV {
    JsonV::Object(
        seq![
            (key_name(), opt_text(e.name)),
            (key_type(), opt_text(e.ty)),
            (key_value(), spec_value_json(e.value)),
        ],
    )
}

/// Whether a node converts: exactly when all its entries and all its
/// children do.
pub open spec fn node_ok(n: Node) -> bool
    decreases n,
{
    &&& forall|i: int| 0 <= i < n.entries@.len() ==> entry_ok(#[trigger] n.entries@[i])
    &&& match n.children {
        Option::Some(d) => doc_ok(d),
        Option::None => true,
    }
}

/// Whether a document converts: exactly when all its nodes do.
pub open spec fn doc_ok(d: Document) -> bool
    decreases d,
{
    forall|i: int| 0 <= i < d.nodes@.len() ==> node_ok(#[trigger] d.nodes@[i])
}

/// What a node converts to: its optional type annotation, its name, its
/// entries in order, and its children in order — an empty array both for
/// no children and for an explicitly empty child document.
pub open spec fn spec_node_json(n: Node) -> JsonV
    decreases n,
{
    JsonV::Object(
        seq![
            (key_type(), opt_text(n.ty)),
            (key_name(), JsonV::Text(n.name@)),
            (
                key_entries(),
                JsonV::Array(
                    Seq::new(
                        n.entries@.len(),
                        |i: int|
                            if 0 <= i < n.entries@.len() {
                                spec_entry_json(n.entries@[i])
                            } else {
                                JsonV::Null
                            },
                    ),
                ),
            ),
            (
                key_children(),
                match n.children {
                    Option::Some(d) => spec_doc_json(d),
                    Option::None => JsonV::Array(Seq::empty()),
                },
            ),
        ],
    )
}

/// What a document converts to: the array of its converted nodes, in
/// order.
pub open spec fn spec_doc_json(d: Document) -> JsonV
    decreases d,
{
    JsonV::Array(
        Seq::new(
            d.nodes@.len(),
            |i: int|
                if 0 <= i < d.nodes@.len() {
                    spec_node_json(d.nodes@[i])
                } else {
                    JsonV::Null
                },
        ),
    )
}

/// An optional text as an executable JSON value.
fn opt_text_json(o: &Option<String>) -> (r: Json)
    ensures
        r@ == opt_text(*o),
{
    match o {
        Option::Some(s) => Json::Text(s.clone()),
        Option::None => Json::Null,
    }
}

/// Converts one value to its canonical JSON object. Fails exactly when
/// the value is a float whose scientific-notation exponent text does not
/// parse.
pub fn convert_value(v: &Value) -> (r: Result<Json, RenderError>)
    ensures
        r is Ok <==> value_ok(*v),
        r is Ok ==> r.unwrap()@ == spec_value_json(*v),
        r is Err ==> r.unwrap_err() == RenderError::BadExponent,
{
    proof {
        keys_facts();
    }
    match v {
        Value::Text(s) => {
            let mut fields: Vec<(String, Json)> = Vec::new();
            fields.push((String::from_str("type"), Json::Text(String::from_str("string"))));
            fields.push((String::from_str("value"), Json::Text(s.clone())));
            let r = Json::Object(fields);
            proof {
                reveal_with_fuel(json_view, 3);
                assert(r@->Object_0 =~= spec_value_json(*v)->Object_0);
                assert(r@ =~= spec_value_json(*v));
            }
            Ok(r)
        },
        Value::Integer(n) => {
            let text = render_integer(*n);
            let mut fields: Vec<(String, Json)> = Vec::new();
            fields.push((String::from_str("type"), Json::Text(String::from_str("number"))));
            fields.push((String::from_str("value"), Json::Text(text)));
            let r = Json::Object(fields);
            proof {
                reveal_with_fuel(json_view, 3);
                assert(r@->Object_0 =~= spec_value_json(*v)->Object_0);
                assert(r@ =~= spec_value_json(*v));
            }
            Ok(r)
        },
        Value::Float { repr, original } => {
            let orig: Option<&str> = match original {
                Option::Some(s) => Option::Some(s.as_str()),
                Option::None => Option::None,
            };
            proof {
                assert(opt_str_view(orig) == opt_string_view(*original));
            }
            match render_float(repr, orig) {
                Ok(text) => {
                    let mut fields: Vec<(String, Json)> = Vec::new();
                    fields.push(
                        (String::from_str("type"), Json::Text(String::from_str("number"))),
                    );
                    fields.push((String::from_str("value"), Json::Text(text)));
                    let r = Json::Object(fields);
                    proof {
                        reveal_with_fuel(json_view, 3);
                        assert(r@->Object_0 =~= spec_value_json(*v)->Object_0);
                        assert(r@ =~= spec_value_json(*v));
                    }
                    Ok(r)
                },
                Err(e) => Err(e),
            }
        },
        Value::Bool(b) => {
            let token = if *b {
                String::from_str("true")
            } else {
                String::from_str("false")
            };
            let mut fields: Vec<(String, Json)> = Vec::new();
            fields.push((String::from_str("type"), Json::Text(String::from_str("boolean"))));
            fields.push((String::from_str("value"), Json::Text(token)));
            let r = Json::Object(fields);
            proof {
                reveal_with_fuel(json_view, 3);
                assert(r@->Object_0 =~= spec_value_json(*v)->Object_0);
                assert(r@ =~= spec_value_json(*v));
            }
            Ok(r)
        },
        Value::Null => {
            let mut fields: Vec<(String, Json)> = Vec::new();
            fields.push((String::from_str("type"), Json::Text(String::from_str("null"))));
            let r = Json::Object(fields);
            proof {
                reveal_with_fuel(json_view, 3);
                assert(r@->Object_0 =~= spec_value_json(*v)->Object_0);
                assert(r@ =~= spec_value_json(*v));
            }
            Ok(r)
        },
    }
}

/// Converts one entry to its canonical JSON object.
pub fn convert_entry(e: &Entry) -> (r: Result<Json, RenderError>)
    ensures
        r is Ok <==> entry_ok(*e),
        r is Ok ==> r.unwrap()@ == spec_entry_json(*e),
        r is Err ==> r.unwrap_err() == RenderError::BadExponent,
{
    proof {
        keys_facts();
    }
    match convert_value(&e.value) {
        Ok(value_json) => {
            let mut fields: Vec<(String, Json)> = Vec::new();
            fields.push((String::from_str("name"), opt_text_json(&e.name)));
            fields.push((String::from_str("type"), opt_text_json(&e.ty)));
            fields.push((String::from_str("value"), value_json));
            let r = Json::Object(fields);
            proof {
                reveal_with_fuel(json_view, 3);
                assert(r@->Object_0 =~= spec_entry_json(*e)->Object_0);
                assert(r@ =~= spec_entry_json(*e));
            }
            Ok(r)
        },
        Err(err) => Err(err),
    }
}

/// Converts one node to its canonical JSON object, recursing into its
/// children.
pub fn convert_node(n: &Node) -> (r: Result<Json, RenderError>)
    ensures
        r is Ok <==> node_ok(*n),
        r is Ok ==> r.unwrap()@ == spec_node_json(*n),
        r is Err ==> r.unwrap_err() == RenderError::BadExponent,
    decreases n,
{
    proof {
        keys_facts();
    }
    let mut entries: Vec<Json> = Vec::new();
    let count = n.entries.len();
    let mut i: usize = 0;
    while i < count
        invariant
            i <= count,
            count == n.entries@.len(),
            entries@.len() == i,
            forall|k: int| 0 <= k < i ==> entry_ok(#[trigger] n.entries@[k]),
            forall|k: int| 0 <= k < i ==> entries@[k]@ == spec_entry_json(n.entries@[k]),
        decreases count - i,
    {
        match convert_entry(&n.entries[i]) {
            Ok(j) => {
                entries.push(j);
            },
            Err(err) => {
                proof {
                    assert(!entry_ok(n.entries@[i as int]));
                    assert(!node_ok(*n));
                }
                return Err(err);
            },
        }
        i = i + 1;
    }
    let children: Json = match &n.children {
        Option::Some(d) => {
            proof {
                assert(decreases_to!(*n => n.children));
                assert(decreases_to!(n.children => n.children->Some_0));
            }
            match convert_document(d) {
                Ok(j) => j,
                Err(err) => {
                    proof {
                        assert(!node_ok(*n));
                    }
                    return Err(err);
                },
            }
        },
        Option::None => Json::Array(Vec::new()),
    };
    let mut fields: Vec<(String, Json)> = Vec::new();
    fields.push((String::from_str("type"), opt_text_json(&n.ty)));
    fields.push((String::from_str("name"), Json::Text(n.name.clone())));
    fields.push((String::from_str("entries"), Json::Array(entries)));
    fields.push((String::from_str("children"), children));
    let r = Json::Object(fields);
    proof {
        reveal_with_fuel(json_view, 3);
        assert(json_view(fields@[2].1)->Array_0 =~= spec_node_json(*n)->Object_0[2].1->Array_0);
        assert(json_view(fields@[2].1) =~= spec_node_json(*n)->Object_0[2].1);
        if n.children is None {
            assert(json_view(fields@[3].1)->Array_0 =~= Seq::<JsonV>::empty());
            assert(json_view(fields@[3].1) =~= spec_node_json(*n)->Object_0[3].1);
        }
        assert(r@->Object_0 =~= spec_node_json(*n)->Object_0);
        assert(r@ =~= spec_node_json(*n));
        assert(node_ok(*n));
    }
    Ok(r)
}

/// Converts a whole document: the single entry point of the conversion
/// pipeline. Succeeds on every tree whose float literals carry usable
/// original text, and then yields exactly the canonical JSON array of the
/// converted nodes, in document order.
pub fn convert_document(d: &Document) -> (r: Result<Json, RenderError>)
    ensures
        r is Ok <==> doc_ok(*d),
        r is Ok ==> r.unwrap()@ == spec_doc_json(*d),
        r is Err ==> r.unwrap_err() == RenderError::BadExponent,
    decreases d,
{
    let mut nodes: Vec<Json> = Vec::new();
    let count = d.nodes.len();
    let mut i: usize = 0;
    while i < count
        invariant
            i <= count,
            count == d.nodes@.len(),
            nodes@.len() == i,
            forall|k: int| 0 <= k < i ==> node_ok(#[trigger] d.nodes@[k]),
            forall|k: int| 0 <= k < i ==> nodes@[k]@ == spec_node_json(d.nodes@[k]),
        decreases count - i,
    {
        proof {
            assert(decreases_to!(*d => d.nodes));
            assert(decreases_to!(d.nodes => d.nodes@));
            assert(decreases_to!(d.nodes@ => d.nodes@[i as int]));
        }
        match convert_node(&d.nodes[i]) {
            Ok(j) => {
                nodes.push(j);
            },
            Err(err) => {
                proof {
                    assert(!node_ok(d.nodes@[i as int]));
                    assert(!doc_ok(*d));
                }
                return Err(err);
            },
        }
        i = i + 1;
    }
    let r = Json::Array(nodes);
    proof {
        reveal_with_fuel(json_view, 3);
        assert(r@->Array_0 =~= spec_doc_json(*d)->Array_0);
        assert(r@ =~= spec_doc_json(*d));
        assert(doc_ok(*d));
    }
    Ok(r)
}

/// Every converted value always includes a `value` field, except a null
/// value, which always omits it.
pub proof fn lemma_value_field_shape(v: Value)
    ensures
        spec_value_json(v) is Object,
        (exists|i: int|
            0 <= i < spec_value_json(v)->Object_0.len() && spec_value_json(v)->Object_0[i].0
                == key_value()) <==> !(v is Null),
{
    if !(v is Null) {
        assert(spec_value_json(v)->Object_0[1].0 == key_value());
    }
}

/// Converted entries appear in the output in the same order as in the
/// node, and converted nodes in the same order as in the document.
pub proof fn lemma_order_preservation(d: Document)
    ensures
        spec_doc_json(d) is Array,
        spec_doc_json(d)->Array_0.len() == d.nodes@.len(),
        forall|i: int|
            0 <= i < d.nodes@.len() ==> spec_doc_json(d)->Array_0[i] == spec_node_json(
                #[trigger] d.nodes@[i],
            ),
{
}

/// The entries array of a converted node lists the converted entries in
/// entry order.
pub proof fn lemma_entry_order(n: Node)
    ensures
        spec_node_json(n)->Object_0[2].1 is Array,
        spec_node_json(n)->Object_0[2].1->Array_0.len() == n.entries@.len(),
        forall|i: int|
            0 <= i < n.entries@.len() ==> spec_node_json(n)->Object_0[2].1->Array_0[i]
                == spec_entry_json(#[trigger] n.entries@[i]),
{
}

/// A node with no children and a node with an explicitly empty child
/// document canonicalize identically: both get an empty children array.
pub proof fn lemma_empty_children(a: Node, b: Node)
    requires
        a.ty == b.ty,
        a.name@ == b.name@,
        a.entries@ == b.entries@,
        a.children is None,
        b.children matches Some(d) && d.nodes@.len() == 0,
    ensures
        spec_node_json(a) == spec_node_json(b),
{
    let d = b.children->Some_0;
    assert(spec_doc_json(d)->Array_0 =~= Seq::<JsonV>::empty());
    assert(spec_node_json(a)->Object_0[3].1 =~= spec_node_json(b)->Object_0[3].1);
    assert(spec_node_json(a)->Object_0[2].1->Array_0 =~= spec_node_json(b)->Object_0[2].1->Array_0);
    assert(spec_node_json(a)->Object_0[2].1 =~= spec_node_json(b)->Object_0[2].1);
    assert(spec_node_json(a)->Object_0 =~= spec_node_json(b)->Object_0);
    assert(spec_node_json(a) =~= spec_node_json(b));
}

} // verus!
