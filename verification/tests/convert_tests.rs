use kdl_test::{
    convert_document, convert_value, json_eq, Document, Entry, FloatRepr, Json, Node,
    RenderError, Value,
};

fn txt(s: &str) -> Json {
    Json::Text(String::from(s))
}

fn obj(fields: Vec<(&str, Json)>) -> Json {
    Json::Object(fields.into_iter().map(|(k, v)| (String::from(k), v)).collect())
}

fn positional_entry(value: Value) -> Entry {
    Entry { name: None, ty: None, value }
}

fn simple_node(name: &str, entries: Vec<Entry>) -> Node {
    Node { ty: None, name: String::from(name), entries, children: None }
}

fn value_object(kind: &str, value: &str) -> Json {
    obj(vec![("type", txt(kind)), ("value", txt(value))])
}

fn entry_object(value: Json) -> Json {
    obj(vec![("name", Json::Null), ("type", Json::Null), ("value", value)])
}

fn node_object(name: &str, entries: Vec<Json>) -> Json {
    obj(vec![
        ("type", Json::Null),
        ("name", txt(name)),
        ("entries", Json::Array(entries)),
        ("children", Json::Array(Vec::new())),
    ])
}

fn single_node_doc(value: Value) -> Document {
    Document { nodes: vec![simple_node("foo", vec![positional_entry(value)])] }
}

#[test]
fn scenario_integer_argument() {
    let doc = single_node_doc(Value::Integer(1));
    let json = convert_document(&doc).unwrap();
    let expected = Json::Array(vec![node_object(
        "foo",
        vec![entry_object(value_object("number", "1.0"))],
    )]);
    assert!(json_eq(&json, &expected));
}

#[test]
fn scenario_scientific_positive() {
    let value = Value::Float {
        repr: FloatRepr::Finite { decimal: String::from("15000000000"), fract_is_zero: true },
        original: Some(String::from("1.5e10")),
    };
    let doc = single_node_doc(value);
    let json = convert_document(&doc).unwrap();
    let expected = Json::Array(vec![node_object(
        "foo",
        vec![entry_object(value_object("number", "15000000000.0"))],
    )]);
    assert!(json_eq(&json, &expected));
}

#[test]
fn scenario_scientific_negative() {
    let value = Value::Float {
        repr: FloatRepr::Finite { decimal: String::from("0.00000000015"), fract_is_zero: false },
        original: Some(String::from("1.5e-10")),
    };
    let doc = single_node_doc(value);
    let json = convert_document(&doc).unwrap();
    let expected = Json::Array(vec![node_object(
        "foo",
        vec![entry_object(value_object("number", "0.00000000015"))],
    )]);
    assert!(json_eq(&json, &expected));
}

#[test]
fn scenario_boolean_argument() {
    let doc = single_node_doc(Value::Bool(true));
    let json = convert_document(&doc).unwrap();
    let expected = Json::Array(vec![node_object(
        "foo",
        vec![entry_object(value_object("boolean", "true"))],
    )]);
    assert!(json_eq(&json, &expected));
}

#[test]
fn scenario_null_argument_omits_value() {
    let doc = single_node_doc(Value::Null);
    let json = convert_document(&doc).unwrap();
    let expected = Json::Array(vec![node_object(
        "foo",
        vec![entry_object(obj(vec![("type", txt("null"))]))],
    )]);
    assert!(json_eq(&json, &expected));
}

#[test]
fn null_value_has_no_value_key() {
    let json = convert_value(&Value::Null).unwrap();
    match json {
        Json::Object(fields) => {
            assert_eq!(fields.len(), 1);
            assert_eq!(fields[0].0, "type");
        }
        _ => panic!("expected an object"),
    }
}

#[test]
fn non_null_values_have_value_key() {
    for value in [
        Value::Text(String::from("x")),
        Value::Integer(3),
        Value::Bool(false),
        Value::Float { repr: FloatRepr::NotANumber, original: None },
    ] {
        let json = convert_value(&value).unwrap();
        match json {
            Json::Object(fields) => {
                assert_eq!(fields.len(), 2);
                assert_eq!(fields[1].0, "value");
            }
            _ => panic!("expected an object"),
        }
    }
}

#[test]
fn entry_and_node_order_preserved() {
    let entries = vec![
        positional_entry(Value::Integer(1)),
        positional_entry(Value::Integer(2)),
        positional_entry(Value::Integer(3)),
    ];
    let doc = Document {
        nodes: vec![simple_node("a", entries), simple_node("b", Vec::new())],
    };
    let json = convert_document(&doc).unwrap();
    let expected = Json::Array(vec![
        node_object(
            "a",
            vec![
                entry_object(value_object("number", "1.0")),
                entry_object(value_object("number", "2.0")),
                entry_object(value_object("number", "3.0")),
            ],
        ),
        node_object("b", Vec::new()),
    ]);
    assert!(json_eq(&json, &expected));
}

#[test]
fn empty_children_normalized() {
    let without = simple_node("n", Vec::new());
    let with_empty = Node {
        ty: None,
        name: String::from("n"),
        entries: Vec::new(),
        children: Some(Document { nodes: Vec::new() }),
    };
    let a = convert_document(&Document { nodes: vec![without] }).unwrap();
    let b = convert_document(&Document { nodes: vec![with_empty] }).unwrap();
    assert!(json_eq(&a, &b));
}

#[test]
fn nested_children_converted() {
    let leaf = simple_node("leaf", vec![positional_entry(Value::Text(String::from("v")))]);
    let root = Node {
        ty: Some(String::from("T")),
        name: String::from("root"),
        entries: Vec::new(),
        children: Some(Document { nodes: vec![leaf] }),
    };
    let json = convert_document(&Document { nodes: vec![root] }).unwrap();
    let expected = Json::Array(vec![obj(vec![
        ("type", txt("T")),
        ("name", txt("root")),
        ("entries", Json::Array(Vec::new())),
        (
            "children",
            Json::Array(vec![node_object(
                "leaf",
                vec![entry_object(value_object("string", "v"))],
            )]),
        ),
    ])]);
    assert!(json_eq(&json, &expected));
}

#[test]
fn named_typed_entry_converted() {
    let entry = Entry {
        name: Some(String::from("key")),
        ty: Some(String::from("u8")),
        value: Value::Integer(9),
    };
    let doc = Document { nodes: vec![simple_node("foo", vec![entry])] };
    let json = convert_document(&doc).unwrap();
    let expected = Json::Array(vec![node_object(
        "foo",
        vec![obj(vec![
            ("name", txt("key")),
            ("type", txt("u8")),
            ("value", value_object("number", "9.0")),
        ])],
    )]);
    assert!(json_eq(&json, &expected));
}

#[test]
fn bad_exponent_aborts_conversion() {
    let value = Value::Float {
        repr: FloatRepr::Finite { decimal: String::from("0"), fract_is_zero: false },
        original: Some(String::from("1.5eQ")),
    };
    let doc = single_node_doc(value);
    assert_eq!(convert_document(&doc).unwrap_err(), RenderError::BadExponent);
}
