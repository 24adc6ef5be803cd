//! Reading: from the lines of the input to the text, and from the text to
//! the document.

use crate::document::{
    Document, DocumentView, Element, ElementView, Entry, EntryView, Field, FieldView,
};
use crate::json::{
    array_elements, collect_entries, map_entries, number_of, number_text, object_map, parse_value,
    parsed, string_content, text_of_number,
};
use vstd::prelude::*;

verus! {

/// The input is no JSON value.
#[derive(Debug)]
pub struct ParseError {
    /// What the parser reported.
    pub source: serde_json::Error,
}

/// The text of a line; nothing for a line that could not be read.
pub open spec fn line_text(line: Option<Seq<char>>) -> Seq<char> {
    match line {
        Some(text) => text,
        None => Seq::empty(),
    }
}

/// The lines one after the other, with nothing between them.
pub open spec fn joined(lines: Seq<Option<Seq<char>>>) -> Seq<char> {
    lines.flat_map(|line: Option<Seq<char>>| line_text(line))
}

/// What a value is as a field: text for a string, a number by the text that
/// the parser prints for it, and no scalar otherwise.
pub open spec fn field_in(value: serde_json::Value) -> FieldView {
    match string_content(value) {
        Some(content) => FieldView::Text(content),
        None => match number_of(value) {
            Some(number) => FieldView::Number(number_text(number)),
            None => FieldView::NonScalar,
        },
    }
}

/// The entries of an object, in the order of its map.
pub open spec fn entries_in(map: serde_json::Map<String, serde_json::Value>) -> Seq<EntryView> {
    map_entries(map).map_values(
        |entry: (Seq<char>, serde_json::Value)| EntryView { key: entry.0, field: field_in(entry.1) },
    )
}

/// What a value is as an element of the array.
pub open spec fn element_in(value: serde_json::Value) -> ElementView {
    match object_map(value) {
        Some(map) => ElementView::Object(entries_in(map)),
        None => ElementView::NonObject,
    }
}

/// What a value is as a document.
pub open spec fn document_in(value: serde_json::Value) -> DocumentView {
    match array_elements(value) {
        Some(elements) => DocumentView::Array(
            elements.map_values(|element: serde_json::Value| element_in(element)),
        ),
        None => DocumentView::NonArray,
    }
}

/// The document that a text holds; none where the text is no JSON value.
pub open spec fn document_of_text(text: Seq<char>) -> Option<DocumentView> {
    match parsed(text) {
        Some(value) => Some(document_in(value)),
        None => None,
    }
}

impl Field {
    /// Reads a value as a field.
    pub fn from_value(value: &serde_json::Value) -> (field: Field)
        ensures
            field.deep_view() == field_in(*value),
    {
        if let Some(content) = value.as_str() {
            Field::Text(content.to_owned())
        } else if let Some(number) = value.as_number() {
            Field::Number(text_of_number(number))
        } else {
            Field::NonScalar
        }
    }
}

impl Element {
    /// Reads a value as an element of the array.
    pub fn from_value(value: &serde_json::Value) -> (element: Element)
        ensures
            element.deep_view() == element_in(*value),
    {
        match value.as_object() {
            Some(map) => {
                let pairs = collect_entries(map);
                let mut entries: Vec<Entry> = Vec::new();
                let mut at: usize = 0;
                while at < pairs.len()
                    invariant
                        at <= pairs.len(),
                        pairs@.len() == map_entries(*map).len(),
                        forall|i: int|
                            0 <= i < pairs@.len() ==> (#[trigger] pairs@[i]).0@ == map_entries(
                                *map,
                            )[i].0 && *pairs@[i].1 == map_entries(*map)[i].1,
                        entries.len() == at,
                        forall|i: int|
                            0 <= i < at ==> entries.deep_view()[i] == entries_in(*map)[i],
                    decreases pairs.len() - at,
                {
                    let (key, value) = pairs[at];
                    let entry = Entry { key: key.clone(), field: Field::from_value(value) };
                    let ghost before = entries.deep_view();
                    entries.push(entry);
                    assert(entries.deep_view() =~= before.push(entry.deep_view()));
                    at += 1;
                }
                assert(entries.deep_view() =~= entries_in(*map));
                Element::Object(entries)
            },
            None => Element::NonObject,
        }
    }
}

impl Document {
    /// Reads a parsed value as a document.
    pub fn from_value(value: &serde_json::Value) -> (document: Document)
        ensures
            document@ == document_in(*value),
    {
        match value.as_array() {
            Some(values) => {
                let mut elements: Vec<Element> = Vec::new();
                let mut at: usize = 0;
                while at < values.len()
                    invariant
                        at <= values.len(),
                        elements.len() == at,
                        forall|i: int|
                            0 <= i < at ==> elements.deep_view()[i] == element_in(values@[i]),
                    decreases values.len() - at,
                {
                    let element = Element::from_value(&values[at]);
                    let ghost before = elements.deep_view();
                    elements.push(element);
                    assert(elements.deep_view() =~= before.push(element.deep_view()));
                    at += 1;
                }
                assert(elements.deep_view() =~= values@.map_values(
                    |element: serde_json::Value| element_in(element),
                ));
                Document::Array(elements)
            },
            None => Document::NonArray,
        }
    }

    /// What the parser made of a text, as a document: the value read as a
    /// document, or the parser's error.
    pub fn from_parsed(result: Result<serde_json::Value, serde_json::Error>) -> (document: Result<
        Document,
        ParseError,
    >)
        ensures
            match result {
                Ok(value) => document matches Ok(read) && read@ == document_in(value),
                Err(error) => document matches Err(failure) && failure.source == error,
            },
    {
        match result {
            Ok(value) => Ok(Document::from_value(&value)),
            Err(error) => Err(ParseError { source: error }),
        }
    }
}

/// Joins the lines of the input, in order and with no separator between
/// them. A line that could not be read contributes nothing.
pub fn join_lines(lines: &Vec<Option<String>>) -> (text: String)
    ensures
        text@ == joined(lines.deep_view()),
{
    let ghost all = lines.deep_view();
    let ghost text_of = |line: Option<Seq<char>>| line_text(line);
    let mut text = String::new();
    assert(all.take(0).map_values(text_of) =~= Seq::<Seq<char>>::empty());
    let mut at: usize = 0;
    while at < lines.len()
        invariant
            at <= lines.len(),
            all == lines.deep_view(),
            text_of == |line: Option<Seq<char>>| line_text(line),
            text@ == all.take(at as int).flat_map(text_of),
        decreases lines.len() - at,
    {
        proof {
            all.lemma_flat_map_take_append(text_of, at as int);
        }
        if let Some(line) = &lines[at] {
            text.append(line.as_str());
        }
        at += 1;
    }
    assert(all.take(lines.len() as int) =~= all);
    text
}

/// Parses a text as one JSON value and reads the value as a document.
/// Fails exactly where the text is no JSON value.
pub fn parse(text: &str) -> (document: Result<Document, ParseError>)
    ensures
        match document {
            Ok(read) => document_of_text(text@) == Some(read@),
            Err(_) => document_of_text(text@) is None,
        },
{
    Document::from_parsed(parse_value(text))
}

/// Loads the document from the lines of the input: joins them and parses
/// the text.
pub fn load(lines: &Vec<Option<String>>) -> (document: Result<Document, ParseError>)
    ensures
        match document {
            Ok(read) => document_of_text(joined(lines.deep_view())) == Some(read@),
            Err(_) => document_of_text(joined(lines.deep_view())) is None,
        },
{
    let text = join_lines(lines);
    parse(text.as_str())
}

} // verus!
