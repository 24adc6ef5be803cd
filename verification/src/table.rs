//! The table: a column list and a row matrix, projected from a document.

use crate::columns::{
    all_keys, columns_of, discover_columns, has_key, lemma_all_keys_contains,
    lemma_first_seen_contains, lemma_first_seen_no_duplicates, lemma_first_seen_order,
};
use crate::document::{Document, DocumentView, ElementView};
use crate::rows::{objects_of, project_rows, rows_of};
use vstd::prelude::*;

verus! {

/// A table of display strings. Row `r` holds in place `c` the cell of
/// column `c`.
#[derive(Debug, Clone, PartialEq, Eq)]
pub struct Table {
    pub columns: Vec<String>,
    pub rows: Vec<Vec<String>>,
}

/// A table as a mathematical value.
pub struct TableView {
    pub columns: Seq<Seq<char>>,
    pub rows: Seq<Seq<Seq<char>>>,
}

impl DeepView for Table {
    type V = TableView;

    open spec fn deep_view(&self) -> TableView {
        TableView { columns: self.columns.deep_view(), rows: self.rows.deep_view() }
    }
}

impl View for Table {
    type V = TableView;

    open spec fn view(&self) -> TableView {
        self.deep_view()
    }
}

impl TableView {
    /// No column occurs twice, and every row has one cell for each column.
    pub open spec fn well_formed(self) -> bool {
        &&& self.columns.no_duplicates()
        &&& forall|r: int| 0 <= r < self.rows.len() ==> (#[trigger] self.rows[r]).len() == self.columns.len()
    }
}

/// The number of objects among the elements of a document; none where the
/// document is no array.
pub open spec fn object_count(document: DocumentView) -> nat {
    match document {
        DocumentView::Array(elements) => objects_of(elements).len(),
        DocumentView::NonArray => 0,
    }
}

/// The table of a document: its columns in first-seen order, and under them
/// one row for each object.
pub open spec fn projection(document: DocumentView) -> TableView {
    TableView {
        columns: columns_of(document),
        rows: rows_of(document, columns_of(document)),
    }
}

/// A document gives one row for each object among its elements, and a
/// document that is no array gives neither rows nor columns.
pub proof fn lemma_row_count(document: DocumentView)
    ensures
        projection(document).rows.len() == object_count(document),
        document is NonArray ==> projection(document).columns.len() == 0 && projection(
            document,
        ).rows.len() == 0,
{
}

/// The columns are the keys of the objects: a key is a column exactly when
/// some object has it, and no column occurs twice.
pub proof fn lemma_columns_are_the_keys(document: DocumentView, key: Seq<char>)
    ensures
        projection(document).columns.contains(key) <==> has_key(document, key),
        projection(document).columns.no_duplicates(),
{
    match document {
        DocumentView::Array(elements) => {
            lemma_first_seen_contains(all_keys(elements), key);
            lemma_first_seen_no_duplicates(all_keys(elements));
            lemma_all_keys_contains(elements, key);
        },
        DocumentView::NonArray => {},
    }
}

/// The columns stand in the order in which a reader meets their keys first:
/// of two columns, the one to the left occurs among the keys in reading
/// order before the one to the right occurs at all.
pub proof fn lemma_columns_in_reading_order(elements: Seq<ElementView>, left: int, right: int)
    requires
        0 <= left < right < projection(DocumentView::Array(elements)).columns.len(),
    ensures
        exists|p: int|
            0 <= p < all_keys(elements).len() && all_keys(elements)[p] == projection(
                DocumentView::Array(elements),
            ).columns[left] && forall|q: int|
                0 <= q <= p ==> all_keys(elements)[q] != projection(
                    DocumentView::Array(elements),
                ).columns[right],
{
    lemma_first_seen_order(all_keys(elements), left, right);
}

/// Every row has as many cells as there are columns.
pub proof fn lemma_rows_aligned(document: DocumentView, row: int)
    requires
        0 <= row < projection(document).rows.len(),
    ensures
        projection(document).rows[row].len() == projection(document).columns.len(),
{
}

/// The table depends on the contents of the document alone: documents with
/// the same contents have the same columns and the same rows.
pub proof fn lemma_projection_repeats(first: Document, second: Document)
    requires
        first@ == second@,
    ensures
        projection(first@).columns == projection(second@).columns,
        projection(first@).rows == projection(second@).rows,
{
}

/// The table of `document`.
pub fn project(document: &Document) -> (table: Table)
    ensures
        table@ == projection(document@),
        table@.well_formed(),
        table@.rows.len() == object_count(document@),
        forall|key: Seq<char>| #[trigger] table@.columns.contains(key) <==> has_key(document@, key),
{
    let columns = discover_columns(document);
    let rows = project_rows(document, &columns);
    proof {
        lemma_row_count(document@);
        assert forall|key: Seq<char>| #[trigger]
            columns.deep_view().contains(key) <==> has_key(document@, key) by {
            lemma_columns_are_the_keys(document@, key);
        }
        lemma_columns_are_the_keys(document@, Seq::empty());
        assert forall|r: int| 0 <= r < rows.deep_view().len() implies (#[trigger] rows.deep_view()[r]).len()
            == columns.deep_view().len() by {
            lemma_rows_aligned(document@, r);
        }
    }
    Table { columns, rows }
}

/// Whether a divider stands before the cell in place `column` of a row:
/// between neighbouring cells, so before every cell but the first.
pub fn divider_before(column: usize) -> (divider: bool)
    ensures
        divider == (column > 0),
{
    column > 0
}

/// Whether body row `row` takes the alternate background: the rows at even
/// places do, counted from zero.
pub fn alternate_row(row: usize) -> (alternate: bool)
    ensures
        alternate == (row % 2 == 0),
{
    row % 2 == 0
}

} // verus!
