//! Row projection: one display string for each column of each object.

use crate::columns::entries_of;
use crate::document::{Document, DocumentView, Element, ElementView, Entry, EntryView, Field, FieldView};
use vstd::prelude::*;

verus! {

/// The text of a cell whose field is missing or is neither text nor number.
pub const PLACEHOLDER: &'static str = "\u{274c}";

/// The placeholder as a sequence of characters: one cross mark.
pub open spec fn placeholder() -> Seq<char> {
    seq!['\u{274c}']
}

/// The field that `entries` gives for `key`: that of the first entry with
/// this key, if there is one.
pub open spec fn field_of(entries: Seq<EntryView>, key: Seq<char>) -> Option<FieldView>
    decreases entries.len(),
{
    if entries.len() == 0 {
        None
    } else if entries.first().key == key {
        Some(entries.first().field)
    } else {
        field_of(entries.drop_first(), key)
    }
}

/// What a cell shows for a field, or for none.
pub open spec fn display_of(field: Option<FieldView>) -> Seq<char> {
    match field {
        Some(FieldView::Text(content)) => content,
        Some(FieldView::Number(text)) => text,
        Some(FieldView::NonScalar) => placeholder(),
        None => placeholder(),
    }
}

/// The cell of an object in one column.
pub open spec fn cell_of(entries: Seq<EntryView>, column: Seq<char>) -> Seq<char> {
    display_of(field_of(entries, column))
}

/// The row of an object: one cell for each column, in column order.
pub open spec fn row_of(entries: Seq<EntryView>, columns: Seq<Seq<char>>) -> Seq<Seq<char>> {
    columns.map_values(|column: Seq<char>| cell_of(entries, column))
}

/// The objects among `elements`, each by its entries, in order.
pub open spec fn objects_of(elements: Seq<ElementView>) -> Seq<Seq<EntryView>> {
    elements.filter(|element: ElementView| element is Object).map_values(
        |element: ElementView| entries_of(element),
    )
}

/// The rows of a document under the given columns: one for each object among
/// its elements, in order. A document that is no array has no rows.
pub open spec fn rows_of(document: DocumentView, columns: Seq<Seq<char>>) -> Seq<Seq<Seq<char>>> {
    match document {
        DocumentView::Array(elements) => objects_of(elements).map_values(
            |entries: Seq<EntryView>| row_of(entries, columns),
        ),
        DocumentView::NonArray => Seq::empty(),
    }
}

/// The placeholder constant is the cross mark.
pub proof fn lemma_placeholder()
    ensures
        PLACEHOLDER@ == placeholder(),
{
    reveal_strlit("\u{274c}");
    assert(PLACEHOLDER@ =~= placeholder());
}

/// The entry at `index` decides the field for its key when no earlier entry
/// has that key.
pub proof fn lemma_field_of_first(entries: Seq<EntryView>, index: int)
    requires
        0 <= index < entries.len(),
        forall|i: int| 0 <= i < index ==> entries[i].key != entries[index].key,
    ensures
        field_of(entries, entries[index].key) == Some(entries[index].field),
    decreases index,
{
    if index > 0 {
        let rest = entries.drop_first();
        assert(rest[index - 1] == entries[index]);
        assert forall|i: int| 0 <= i < index - 1 implies (#[trigger] rest[i]).key != rest[index - 1].key by {
            assert(rest[i] == entries[i + 1]);
        }
        lemma_field_of_first(rest, index - 1);
    }
}

/// A key that no entry has gives no field.
pub proof fn lemma_field_of_absent(entries: Seq<EntryView>, key: Seq<char>)
    requires
        forall|i: int| 0 <= i < entries.len() ==> entries[i].key != key,
    ensures
        field_of(entries, key) is None,
    decreases entries.len(),
{
    if entries.len() > 0 {
        let rest = entries.drop_first();
        assert forall|i: int| 0 <= i < rest.len() implies (#[trigger] rest[i]).key != key by {
            assert(rest[i] == entries[i + 1]);
        }
        lemma_field_of_absent(rest, key);
    }
}

/// Reading one more element adds its entries to the objects if it is an
/// object, and nothing otherwise.
proof fn lemma_objects_of_take(elements: Seq<ElementView>, count: int)
    requires
        0 <= count < elements.len(),
    ensures
        objects_of(elements.take(count + 1)) == if elements[count] is Object {
            objects_of(elements.take(count)).push(entries_of(elements[count]))
        } else {
            objects_of(elements.take(count))
        },
{
    let is_object = |element: ElementView| element is Object;
    let longer = elements.take(count + 1);
    reveal(Seq::filter);
    assert(longer.drop_last() =~= elements.take(count));
    assert(longer.last() == elements[count]);
    if elements[count] is Object {
        assert(objects_of(longer) =~= objects_of(elements.take(count)).push(
            entries_of(elements[count]),
        ));
    }
}

/// The field that `entries` holds for `key`, if any.
pub fn find_field<'a>(entries: &'a Vec<Entry>, key: &String) -> (found: Option<&'a Field>)
    ensures
        found.deep_view() == field_of(entries.deep_view(), key@),
{
    let mut at: usize = 0;
    while at < entries.len()
        invariant
            at <= entries.len(),
            forall|i: int| 0 <= i < at ==> entries.deep_view()[i].key != key@,
        decreases entries.len() - at,
    {
        if entries[at].key == *key {
            proof {
                lemma_field_of_first(entries.deep_view(), at as int);
            }
            return Some(&entries[at].field);
        }
        at += 1;
    }
    proof {
        lemma_field_of_absent(entries.deep_view(), key@);
    }
    None
}

/// The text that the cell of an object shows in `column`: the content of a
/// string, the text of a number, and the placeholder for anything else or
/// for a field that the object does not have.
pub fn cell_text(entries: &Vec<Entry>, column: &String) -> (text: String)
    ensures
        text@ == cell_of(entries.deep_view(), column@),
{
    match find_field(entries, column) {
        Some(Field::Text(content)) => content.clone(),
        Some(Field::Number(number)) => number.clone(),
        _ => {
            proof {
                lemma_placeholder();
            }
            PLACEHOLDER.to_owned()
        },
    }
}

/// The row of an object under `columns`.
pub fn project_row(entries: &Vec<Entry>, columns: &Vec<String>) -> (row: Vec<String>)
    ensures
        row.deep_view() == row_of(entries.deep_view(), columns.deep_view()),
{
    let mut row: Vec<String> = Vec::new();
    let mut at: usize = 0;
    while at < columns.len()
        invariant
            at <= columns.len(),
            row.len() == at,
            forall|i: int|
                0 <= i < at ==> row.deep_view()[i] == cell_of(
                    entries.deep_view(),
                    columns.deep_view()[i],
                ),
        decreases columns.len() - at,
    {
        let text = cell_text(entries, &columns[at]);
        let ghost before = row.deep_view();
        row.push(text);
        assert(row.deep_view() =~= before.push(text@));
        at += 1;
    }
    assert(row.deep_view() =~= row_of(entries.deep_view(), columns.deep_view()));
    row
}

/// The rows of `document` under `columns`: one for each object among its
/// elements, in order; other elements are passed over.
pub fn project_rows(document: &Document, columns: &Vec<String>) -> (rows: Vec<Vec<String>>)
    ensures
        rows.deep_view() == rows_of(document@, columns.deep_view()),
{
    let mut rows: Vec<Vec<String>> = Vec::new();
    assert(rows.deep_view() =~= Seq::<Seq<Seq<char>>>::empty());
    if let Document::Array(elements) = document {
        let ghost all = elements.deep_view();
        let ghost to_row = |entries: Seq<EntryView>| row_of(entries, columns.deep_view());
        proof {
            reveal(Seq::filter);
            assert(objects_of(all.take(0)) =~= Seq::<Seq<EntryView>>::empty());
        }
        let mut index: usize = 0;
        while index < elements.len()
            invariant
                index <= elements.len(),
                all == elements.deep_view(),
                to_row == |entries: Seq<EntryView>| row_of(entries, columns.deep_view()),
                rows.deep_view() == objects_of(all.take(index as int)).map_values(to_row),
            decreases elements.len() - index,
        {
            proof {
                lemma_objects_of_take(all, index as int);
            }
            if let Element::Object(entries) = &elements[index] {
                let row = project_row(entries, columns);
                let ghost before = rows.deep_view();
                rows.push(row);
                assert(rows.deep_view() =~= before.push(row.deep_view()));
                assert(rows.deep_view() =~= objects_of(all.take(index + 1)).map_values(to_row));
            }
            index += 1;
        }
        assert(all.take(elements.len() as int) =~= all);
    }
    rows
}

} // verus!
