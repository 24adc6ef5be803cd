//! Column discovery: the distinct keys of all objects, each at the place
//! where it was first seen.

use crate::document::{Document, DocumentView, Element, ElementView, EntryView};
use vstd::prelude::*;

verus! {

/// The entries of an element; none for an element that is no object.
pub open spec fn entries_of(element: ElementView) -> Seq<EntryView> {
    match element {
        ElementView::Object(entries) => entries,
        ElementView::NonObject => Seq::empty(),
    }
}

/// The keys of an element, in the order the object lists them.
pub open spec fn keys_of(element: ElementView) -> Seq<Seq<char>> {
    entries_of(element).map_values(|entry: EntryView| entry.key)
}

/// Every key of every object, in reading order, repetitions included.
pub open spec fn all_keys(elements: Seq<ElementView>) -> Seq<Seq<char>> {
    elements.flat_map(|element: ElementView| keys_of(element))
}

/// The items of `items` without repetitions: each one stands where it
/// occurs first.
pub open spec fn first_seen<A>(items: Seq<A>) -> Seq<A>
    decreases items.len(),
{
    if items.len() == 0 {
        Seq::empty()
    } else {
        let earlier = first_seen(items.drop_last());
        if earlier.contains(items.last()) {
            earlier
        } else {
            earlier.push(items.last())
        }
    }
}

/// Whether some object among `elements` has `key`.
pub open spec fn occurs_as_key(elements: Seq<ElementView>, key: Seq<char>) -> bool {
    exists|i: int, j: int|
        0 <= i < elements.len() && 0 <= j < entries_of(elements[i]).len() && (
        #[trigger] entries_of(elements[i])[j]).key == key
}

/// Whether some object of the document has `key`.
pub open spec fn has_key(document: DocumentView, key: Seq<char>) -> bool {
    match document {
        DocumentView::Array(elements) => occurs_as_key(elements, key),
        DocumentView::NonArray => false,
    }
}

/// The column list of a document: the keys of its objects in first-seen
/// order. A document that is no array has no columns.
pub open spec fn columns_of(document: DocumentView) -> Seq<Seq<char>> {
    match document {
        DocumentView::Array(elements) => first_seen(all_keys(elements)),
        DocumentView::NonArray => Seq::empty(),
    }
}

/// Reading one more item either appends it or changes nothing.
pub proof fn lemma_first_seen_push<A>(items: Seq<A>, item: A)
    ensures
        first_seen(items.push(item)) == if first_seen(items).contains(item) {
            first_seen(items)
        } else {
            first_seen(items).push(item)
        },
{
    assert(items.push(item).drop_last() =~= items);
}

/// `first_seen` keeps exactly the items that occur.
pub proof fn lemma_first_seen_contains<A>(items: Seq<A>, item: A)
    ensures
        first_seen(items).contains(item) <==> items.contains(item),
    decreases items.len(),
{
    if items.len() > 0 {
        let front = items.drop_last();
        lemma_first_seen_contains(front, item);
        lemma_first_seen_contains(front, items.last());
        if items.contains(item) {
            let i = choose|i: int| 0 <= i < items.len() && items[i] == item;
            if i < front.len() {
                assert(front[i] == item);
            }
        }
        if first_seen(items).contains(item) {
            let i = choose|i: int| 0 <= i < first_seen(items).len() && first_seen(items)[i] == item;
            if i < first_seen(front).len() {
                assert(first_seen(front)[i] == item);
                let j = choose|j: int| 0 <= j < front.len() && front[j] == item;
                assert(items[j] == item);
            } else {
                assert(items[items.len() - 1] == item);
            }
        }
        if first_seen(front).contains(item) {
            let i = choose|i: int| 0 <= i < first_seen(front).len() && first_seen(front)[i] == item;
            assert(first_seen(items)[i] == item);
        }
        if items.last() == item && !first_seen(front).contains(item) {
            assert(first_seen(items)[first_seen(items).len() - 1] == item);
        }
    }
}

/// `first_seen` lists nothing twice.
pub proof fn lemma_first_seen_no_duplicates<A>(items: Seq<A>)
    ensures
        first_seen(items).no_duplicates(),
    decreases items.len(),
{
    if items.len() > 0 {
        lemma_first_seen_no_duplicates(items.drop_last());
    }
}

/// `first_seen` keeps the order of first occurrence: of two items it lists,
/// the earlier one occurs in `items` before the later one occurs at all.
pub proof fn lemma_first_seen_order<A>(items: Seq<A>, i: int, j: int)
    requires
        0 <= i < j < first_seen(items).len(),
    ensures
        exists|p: int|
            0 <= p < items.len() && items[p] == first_seen(items)[i] && forall|q: int|
                0 <= q <= p ==> items[q] != first_seen(items)[j],
    decreases items.len(),
{
    let front = items.drop_last();
    let seen = first_seen(front);
    if j < seen.len() {
        lemma_first_seen_order(front, i, j);
        let p = choose|p: int|
            0 <= p < front.len() && front[p] == seen[i] && forall|q: int|
                0 <= q <= p ==> front[q] != seen[j];
        assert(items[p] == first_seen(items)[i]);
        assert forall|q: int| 0 <= q <= p implies items[q] != first_seen(items)[j] by {
            assert(front[q] == items[q]);
        }
    } else {
        let last = items.last();
        assert(first_seen(items)[j] == last);
        assert(seen.contains(seen[i]));
        lemma_first_seen_contains(front, seen[i]);
        lemma_first_seen_contains(front, last);
        let p = choose|p: int| 0 <= p < front.len() && front[p] == seen[i];
        assert(items[p] == first_seen(items)[i]);
        assert forall|q: int| 0 <= q <= p implies items[q] != first_seen(items)[j] by {
            assert(front[q] == items[q]);
        }
    }
}

/// The keys of the first `count` elements, in reading order.
proof fn lemma_all_keys_take(elements: Seq<ElementView>, count: int)
    requires
        0 <= count < elements.len(),
    ensures
        all_keys(elements.take(count + 1)) == all_keys(elements.take(count)) + keys_of(
            elements[count],
        ),
        all_keys(elements.take(0)) == Seq::<Seq<char>>::empty(),
        all_keys(elements.take(elements.len() as int)) == all_keys(elements),
{
    let keys = |element: ElementView| keys_of(element);
    elements.lemma_flat_map_take_append(keys, count);
    assert(elements.take(0).map_values(keys) =~= Seq::<Seq<Seq<char>>>::empty());
    assert(elements.take(elements.len() as int) =~= elements);
}

/// The keys in reading order are exactly the keys that occur.
pub proof fn lemma_all_keys_contains(elements: Seq<ElementView>, key: Seq<char>)
    ensures
        all_keys(elements).contains(key) <==> occurs_as_key(elements, key),
    decreases elements.len(),
{
    if elements.len() == 0 {
        assert(elements.map_values(|element: ElementView| keys_of(element)) =~= Seq::<
            Seq<Seq<char>>,
        >::empty());
    } else {
        let count = elements.len() - 1;
        let front = elements.take(count);
        let last_keys = keys_of(elements[count]);
        lemma_all_keys_take(elements, count);
        lemma_all_keys_contains(front, key);
        if all_keys(elements).contains(key) {
            let at = choose|at: int| 0 <= at < all_keys(elements).len() && all_keys(elements)[at] == key;
            if at < all_keys(front).len() {
                assert(all_keys(front)[at] == key);
                let (i, j) = choose|i: int, j: int|
                    0 <= i < front.len() && 0 <= j < entries_of(front[i]).len() && (
                    #[trigger] entries_of(front[i])[j]).key == key;
                assert(entries_of(elements[i])[j].key == key);
            } else {
                let j = at - all_keys(front).len();
                assert(last_keys[j] == key);
                assert(entries_of(elements[count])[j].key == key);
            }
        }
        if occurs_as_key(elements, key) {
            let (i, j) = choose|i: int, j: int|
                0 <= i < elements.len() && 0 <= j < entries_of(elements[i]).len() && (
                #[trigger] entries_of(elements[i])[j]).key == key;
            if i < count {
                assert(entries_of(front[i])[j].key == key);
                let at = choose|at: int| 0 <= at < all_keys(front).len() && all_keys(front)[at] == key;
                assert(all_keys(elements)[at] == key);
            } else {
                assert(last_keys[j] == key);
                assert(all_keys(elements)[all_keys(front).len() + j] == key);
            }
        }
    }
}

/// Whether `columns` holds `key`.
pub fn has_column(columns: &Vec<String>, key: &String) -> (found: bool)
    ensures
        found == columns.deep_view().contains(key@),
{
    let mut at: usize = 0;
    while at < columns.len()
        invariant
            at <= columns.len(),
            forall|i: int| 0 <= i < at ==> columns.deep_view()[i] != key@,
        decreases columns.len() - at,
    {
        if columns[at] == *key {
            assert(columns.deep_view()[at as int] == key@);
            return true;
        }
        at += 1;
    }
    false
}

/// The columns of `document`: every key of every object among its elements,
/// once, in the order in which a reader of the document meets them first.
pub fn discover_columns(document: &Document) -> (columns: Vec<String>)
    ensures
        columns.deep_view() == columns_of(document@),
{
    let mut columns: Vec<String> = Vec::new();
    assert(columns.deep_view() =~= Seq::<Seq<char>>::empty());
    if let Document::Array(elements) = document {
        let ghost all = elements.deep_view();
        proof {
            if all.len() > 0 {
                lemma_all_keys_take(all, 0);
            } else {
                assert(all.take(0) =~= all);
                assert(all.map_values(|element: ElementView| keys_of(element)) =~= Seq::<
                    Seq<Seq<char>>,
                >::empty());
            }
        }
        let mut index: usize = 0;
        while index < elements.len()
            invariant
                index <= elements.len(),
                all == elements.deep_view(),
                columns.deep_view() == first_seen(all_keys(all.take(index as int))),
            decreases elements.len() - index,
        {
            let ghost before = all_keys(all.take(index as int));
            proof {
                lemma_all_keys_take(all, index as int);
            }
            if let Element::Object(entries) = &elements[index] {
                let ghost keys = keys_of(all[index as int]);
                assert(keys == entries.deep_view().map_values(|entry: EntryView| entry.key));
                assert(before + keys.take(0) =~= before);
                let mut at: usize = 0;
                while at < entries.len()
                    invariant
                        at <= entries.len(),
                        keys == entries.deep_view().map_values(|entry: EntryView| entry.key),
                        columns.deep_view() == first_seen(before + keys.take(at as int)),
                    decreases entries.len() - at,
                {
                    let key = &entries[at].key;
                    proof {
                        lemma_first_seen_push(before + keys.take(at as int), key@);
                        assert((before + keys.take(at as int)).push(key@) =~= before + keys.take(
                            at + 1,
                        ));
                    }
                    if !has_column(&columns, key) {
                        let ghost held = columns.deep_view();
                        columns.push(key.clone());
                        assert(columns.deep_view() =~= held.push(key@));
                    }
                    at += 1;
                }
                assert(keys.take(entries.len() as int) =~= keys);
            } else {
                assert(before + keys_of(all[index as int]) =~= before);
            }
            index += 1;
        }
        proof {
            assert(all.take(elements.len() as int) =~= all);
        }
    }
    columns
}

} // verus!
