//! Reading parsed values and joining lines.

use json_table::document::{Document, Element, Entry, Field};
use json_table::reader::{join_lines, parse};
use serde_json::{Number, Value};

#[test]
fn a_string_reads_as_text() {
    assert_eq!(Field::from_value(&Value::String("x y".to_string())), Field::Text("x y".to_string()));
    assert_eq!(Field::from_value(&Value::String(String::new())), Field::Text(String::new()));
}

#[test]
fn a_number_reads_as_its_text() {
    assert_eq!(Field::from_value(&Value::Number(Number::from(42u64))), Field::Number("42".to_string()));
    assert_eq!(Field::from_value(&Value::Number(Number::from(-7i64))), Field::Number("-7".to_string()));
    let half = Number::from_f64(0.5).expect("finite");
    assert_eq!(Field::from_value(&Value::Number(half)), Field::Number("0.5".to_string()));
    let whole = Number::from_f64(3.0).expect("finite");
    assert_eq!(Field::from_value(&Value::Number(whole)), Field::Number("3.0".to_string()));
}

#[test]
fn other_values_read_as_no_scalar() {
    assert_eq!(Field::from_value(&Value::Null), Field::NonScalar);
    assert_eq!(Field::from_value(&Value::Bool(true)), Field::NonScalar);
    assert_eq!(Field::from_value(&Value::Array(vec![Value::from(1)])), Field::NonScalar);
    assert_eq!(Field::from_value(&Value::Object(serde_json::Map::new())), Field::NonScalar);
}

#[test]
fn an_object_reads_as_its_entries() {
    let mut map = serde_json::Map::new();
    map.insert("n".to_string(), Value::from(1));
    map.insert("t".to_string(), Value::from("one"));
    map.insert("z".to_string(), Value::Null);
    let element = Element::from_value(&Value::Object(map));
    assert_eq!(
        element,
        Element::Object(vec![
            Entry { key: "n".to_string(), field: Field::Number("1".to_string()) },
            Entry { key: "t".to_string(), field: Field::Text("one".to_string()) },
            Entry { key: "z".to_string(), field: Field::NonScalar },
        ])
    );
}

#[test]
fn an_empty_object_reads_as_no_entries() {
    assert_eq!(Element::from_value(&Value::Object(serde_json::Map::new())), Element::Object(Vec::new()));
}

#[test]
fn what_is_no_object_reads_as_no_object() {
    assert_eq!(Element::from_value(&Value::Null), Element::NonObject);
    assert_eq!(Element::from_value(&Value::from("skip-me")), Element::NonObject);
    assert_eq!(Element::from_value(&Value::from(3)), Element::NonObject);
    assert_eq!(Element::from_value(&Value::Array(Vec::new())), Element::NonObject);
}

#[test]
fn an_array_reads_as_its_elements() {
    let mut map = serde_json::Map::new();
    map.insert("a".to_string(), Value::from(1));
    let value = Value::Array(vec![Value::Object(map), Value::from("skip-me"), Value::Array(Vec::new())]);
    assert_eq!(
        Document::from_value(&value),
        Document::Array(vec![
            Element::Object(vec![Entry { key: "a".to_string(), field: Field::Number("1".to_string()) }]),
            Element::NonObject,
            Element::NonObject,
        ])
    );
    assert_eq!(Document::from_value(&Value::Array(Vec::new())), Document::Array(Vec::new()));
}

#[test]
fn what_is_no_array_reads_as_no_array() {
    assert_eq!(Document::from_value(&Value::Object(serde_json::Map::new())), Document::NonArray);
    assert_eq!(Document::from_value(&Value::Null), Document::NonArray);
    assert_eq!(Document::from_value(&Value::from(1.5)), Document::NonArray);
    assert_eq!(Document::from_value(&Value::from("[]")), Document::NonArray);
}

#[test]
fn a_parsed_value_becomes_a_document() {
    let parsed = serde_json::from_str::<Value>(r#"[{"k":"v"}]"#);
    let document = Document::from_parsed(parsed).expect("the text is JSON");
    assert_eq!(
        document,
        Document::Array(vec![Element::Object(vec![Entry {
            key: "k".to_string(),
            field: Field::Text("v".to_string()),
        }])])
    );
}

#[test]
fn a_parser_error_is_handed_on() {
    let parsed = serde_json::from_str::<Value>("[1,");
    let expected = format!("{}", parsed.as_ref().expect_err("the text is no JSON"));
    let failure = Document::from_parsed(parsed).expect_err("the error is kept");
    assert_eq!(format!("{}", failure.source), expected);
}

#[test]
fn parse_reads_text_into_the_document() {
    let document = parse(r#"[{"a":1,"b":"x"},7]"#).expect("the text is JSON");
    assert_eq!(
        document,
        Document::Array(vec![
            Element::Object(vec![
                Entry { key: "a".to_string(), field: Field::Number("1".to_string()) },
                Entry { key: "b".to_string(), field: Field::Text("x".to_string()) },
            ]),
            Element::NonObject,
        ])
    );
    assert_eq!(parse("null").expect("the text is JSON"), Document::NonArray);
}

#[test]
fn join_lines_puts_the_lines_together() {
    let lines = vec![Some("ab".to_string()), Some(String::new()), Some("c".to_string())];
    assert_eq!(join_lines(&lines), "abc");
}

#[test]
fn join_lines_adds_no_separator() {
    let lines = vec![Some("[1,".to_string()), Some("2]".to_string())];
    assert_eq!(join_lines(&lines), "[1,2]");
}

#[test]
fn join_lines_passes_over_unreadable_lines() {
    let lines = vec![None, Some("a".to_string()), None, None, Some("b".to_string()), None];
    assert_eq!(join_lines(&lines), "ab");
}

#[test]
fn join_lines_of_nothing_is_empty() {
    assert_eq!(join_lines(&Vec::new()), "");
    assert_eq!(join_lines(&vec![None]), "");
}
