//! The document as the table reads it: an array of objects whose fields are
//! text, numbers, or something the table does not display.

use vstd::prelude::*;

verus! {

/// The value of one field of an object.
#[derive(Debug, Clone, PartialEq, Eq)]
pub enum Field {
    /// A JSON string, held by its content.
    Text(String),
    /// A JSON number, held by its canonical text.
    Number(String),
    /// A boolean, null, array or object.
    NonScalar,
}

/// A field as a mathematical value.
pub enum FieldView {
    Text(Seq<char>),
    Number(Seq<char>),
    NonScalar,
}

impl DeepView for Field {
    type V = FieldView;

    open spec fn deep_view(&self) -> FieldView {
        match self {
            Field::Text(content) => FieldView::Text(content@),
            Field::Number(text) => FieldView::Number(text@),
            Field::NonScalar => FieldView::NonScalar,
        }
    }
}

/// One key of an object together with its value.
#[derive(Debug, Clone, PartialEq, Eq)]
pub struct Entry {
    pub key: String,
    pub field: Field,
}

/// An entry as a mathematical value.
pub struct EntryView {
    pub key: Seq<char>,
    pub field: FieldView,
}

impl DeepView for Entry {
    type V = EntryView;

    open spec fn deep_view(&self) -> EntryView {
        EntryView { key: self.key@, field: self.field.deep_view() }
    }
}

/// One element of the top-level array.
#[derive(Debug, Clone, PartialEq, Eq)]
pub enum Element {
    /// An object, held by its entries in the order the object lists them.
    Object(Vec<Entry>),
    /// Anything else; it gives no row.
    NonObject,
}

/// An element as a mathematical value.
pub enum ElementView {
    Object(Seq<EntryView>),
    NonObject,
}

impl DeepView for Element {
    type V = ElementView;

    open spec fn deep_view(&self) -> ElementView {
        match self {
            Element::Object(entries) => ElementView::Object(entries.deep_view()),
            Element::NonObject => ElementView::NonObject,
        }
    }
}

/// The top-level value.
#[derive(Debug, Clone, PartialEq, Eq)]
pub enum Document {
    /// An array, held by its elements in order.
    Array(Vec<Element>),
    /// Any other value; it gives an empty table.
    NonArray,
}

/// A document as a mathematical value.
pub enum DocumentView {
    Array(Seq<ElementView>),
    NonArray,
}

impl DeepView for Document {
    type V = DocumentView;

    open spec fn deep_view(&self) -> DocumentView {
        match self {
            Document::Array(elements) => DocumentView::Array(elements.deep_view()),
            Document::NonArray => DocumentView::NonArray,
        }
    }
}

impl View for Document {
    type V = DocumentView;

    open spec fn view(&self) -> DocumentView {
        self.deep_view()
    }
}

} // verus!
