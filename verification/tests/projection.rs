//! The projector on documents written out by hand.

use json_table::columns::{discover_columns, has_column};
use json_table::document::{Document, Element, Entry, Field};
use json_table::rows::{cell_text, find_field, project_row, project_rows};
use json_table::table::{alternate_row, divider_before, project};

fn text(key: &str, content: &str) -> Entry {
    Entry { key: key.to_string(), field: Field::Text(content.to_string()) }
}

fn number(key: &str, digits: &str) -> Entry {
    Entry { key: key.to_string(), field: Field::Number(digits.to_string()) }
}

fn other(key: &str) -> Entry {
    Entry { key: key.to_string(), field: Field::NonScalar }
}

fn names(items: &[&str]) -> Vec<String> {
    items.iter().map(|item| item.to_string()).collect()
}

#[test]
fn columns_keep_the_order_inside_an_object() {
    // First-seen order, not sorted order: "z" stands before "a".
    let document = Document::Array(vec![Element::Object(vec![number("z", "1"), text("a", "x")])]);
    let table = project(&document);
    assert_eq!(table.columns, names(&["z", "a"]));
    assert_eq!(table.rows, vec![names(&["1", "x"])]);
}

#[test]
fn columns_keep_the_order_across_objects() {
    let document = Document::Array(vec![
        Element::Object(vec![text("m", "1"), text("c", "2")]),
        Element::NonObject,
        Element::Object(vec![text("c", "3"), text("a", "4"), text("m", "5")]),
        Element::Object(vec![text("b", "6")]),
    ]);
    assert_eq!(discover_columns(&document), names(&["m", "c", "a", "b"]));
}

#[test]
fn columns_of_a_document_that_is_no_array_are_none() {
    assert_eq!(discover_columns(&Document::NonArray), Vec::<String>::new());
    assert_eq!(discover_columns(&Document::Array(Vec::new())), Vec::<String>::new());
    assert_eq!(
        discover_columns(&Document::Array(vec![Element::NonObject, Element::NonObject])),
        Vec::<String>::new()
    );
}

#[test]
fn has_column_finds_what_is_there() {
    let columns = names(&["a", "bb", ""]);
    assert!(has_column(&columns, &"a".to_string()));
    assert!(has_column(&columns, &"bb".to_string()));
    assert!(has_column(&columns, &String::new()));
    assert!(!has_column(&columns, &"b".to_string()));
    assert!(!has_column(&columns, &"A".to_string()));
    assert!(!has_column(&Vec::new(), &"a".to_string()));
}

#[test]
fn find_field_takes_the_first_entry_with_the_key() {
    let entries = vec![text("a", "first"), number("b", "2"), text("a", "second")];
    assert_eq!(find_field(&entries, &"a".to_string()), Some(&Field::Text("first".to_string())));
    assert_eq!(find_field(&entries, &"b".to_string()), Some(&Field::Number("2".to_string())));
    assert_eq!(find_field(&entries, &"c".to_string()), None);
    assert_eq!(find_field(&Vec::new(), &"a".to_string()), None);
}

#[test]
fn cell_text_of_each_kind_of_field() {
    let entries = vec![text("t", "hello"), number("n", "2.5"), other("o")];
    assert_eq!(cell_text(&entries, &"t".to_string()), "hello");
    assert_eq!(cell_text(&entries, &"n".to_string()), "2.5");
    assert_eq!(cell_text(&entries, &"o".to_string()), "❌");
    assert_eq!(cell_text(&entries, &"missing".to_string()), "❌");
}

#[test]
fn project_row_follows_the_columns() {
    let entries = vec![text("b", "bee"), number("a", "1")];
    assert_eq!(project_row(&entries, &names(&["a", "b", "c"])), names(&["1", "bee", "❌"]));
    assert_eq!(project_row(&entries, &names(&["c", "b"])), names(&["❌", "bee"]));
    assert_eq!(project_row(&entries, &Vec::new()), Vec::<String>::new());
}

#[test]
fn project_rows_passes_over_what_is_no_object() {
    let document = Document::Array(vec![
        Element::NonObject,
        Element::Object(vec![text("a", "1")]),
        Element::NonObject,
        Element::Object(vec![other("a")]),
        Element::Object(Vec::new()),
    ]);
    let rows = project_rows(&document, &names(&["a"]));
    assert_eq!(rows, vec![names(&["1"]), names(&["❌"]), names(&["❌"])]);
    assert_eq!(project_rows(&Document::NonArray, &names(&["a"])), Vec::<Vec<String>>::new());
}

#[test]
fn project_of_a_document_that_is_no_array_is_empty() {
    let table = project(&Document::NonArray);
    assert!(table.columns.is_empty());
    assert!(table.rows.is_empty());
}

#[test]
fn project_gives_aligned_rows_and_distinct_columns() {
    let document = Document::Array(vec![
        Element::Object(vec![text("a", "1"), text("b", "2")]),
        Element::Object(vec![text("b", "3"), text("c", "4")]),
        Element::NonObject,
        Element::Object(vec![text("a", "5"), text("a", "6"), text("d", "7")]),
    ]);
    let table = project(&document);
    assert_eq!(table.columns, names(&["a", "b", "c", "d"]));
    assert_eq!(table.rows.len(), 3);
    for row in &table.rows {
        assert_eq!(row.len(), 4);
    }
    assert_eq!(table.rows[0], names(&["1", "2", "❌", "❌"]));
    assert_eq!(table.rows[1], names(&["❌", "3", "4", "❌"]));
    assert_eq!(table.rows[2], names(&["5", "❌", "❌", "7"]));
}

#[test]
fn project_is_repeatable() {
    let document = Document::Array(vec![
        Element::Object(vec![text("k", "v"), other("x")]),
        Element::NonObject,
    ]);
    assert_eq!(project(&document), project(&document));
}

#[test]
fn dividers_stand_between_cells() {
    assert!(!divider_before(0));
    assert!(divider_before(1));
    assert!(divider_before(2));
    assert!(divider_before(usize::MAX));
}

#[test]
fn rows_alternate_from_the_first() {
    assert!(alternate_row(0));
    assert!(!alternate_row(1));
    assert!(alternate_row(2));
    assert!(!alternate_row(usize::MAX));
}
