//! The boundary to `serde_json`: its parser and the accessors of a parsed
//! value. Nothing here is proved. Each contract gives the result of one
//! function of `serde_json` a name, and claims that the function returns the
//! same for the same argument.

use vstd::prelude::*;

verus! {

/// A parsed JSON value.
#[verifier::external_type_specification]
#[verifier::external_body]
pub struct ExValue(serde_json::Value);

/// The map from keys to values that a JSON object holds.
#[verifier::external_type_specification]
#[verifier::external_body]
#[verifier::reject_recursive_types(K)]
#[verifier::reject_recursive_types(V)]
pub struct ExMap<K, V>(serde_json::Map<K, V>);

/// A JSON number.
#[verifier::external_type_specification]
#[verifier::external_body]
pub struct ExNumber(serde_json::Number);

/// What the parser reports for a text that is no JSON value.
#[verifier::external_type_specification]
#[verifier::external_body]
pub struct ExError(serde_json::Error);

/// The value that `serde_json::from_str` reads from `text`; none where it
/// reports an error.
pub uninterp spec fn parsed(text: Seq<char>) -> Option<serde_json::Value>;

/// The elements of `value` if it is an array, as `Value::as_array` gives them.
pub uninterp spec fn array_elements(value: serde_json::Value) -> Option<Seq<serde_json::Value>>;

/// The map of `value` if it is an object, as `Value::as_object` gives it.
pub uninterp spec fn object_map(value: serde_json::Value) -> Option<
    serde_json::Map<String, serde_json::Value>,
>;

/// The content of `value` if it is a string, as `Value::as_str` gives it.
pub uninterp spec fn string_content(value: serde_json::Value) -> Option<Seq<char>>;

/// The number of `value` if it is one, as `Value::as_number` gives it.
pub uninterp spec fn number_of(value: serde_json::Value) -> Option<serde_json::Number>;

/// The entries of `map`, key and value, in the order in which `Map::iter`
/// walks them.
pub uninterp spec fn map_entries(map: serde_json::Map<String, serde_json::Value>) -> Seq<
    (Seq<char>, serde_json::Value),
>;

/// The text that `serde_json` prints for `number`.
pub uninterp spec fn number_text(number: serde_json::Number) -> Seq<char>;

/// `Value::as_array` returns the elements that `array_elements` names.
pub assume_specification[ serde_json::Value::as_array ](value: &serde_json::Value) -> (elements:
    Option<&Vec<serde_json::Value>>)
    ensures
        match elements {
            Some(elements) => array_elements(*value) == Some(elements@),
            None => array_elements(*value) is None,
        },
;

/// `Value::as_object` returns the map that `object_map` names.
pub assume_specification[ serde_json::Value::as_object ](value: &serde_json::Value) -> (map:
    Option<&serde_json::Map<String, serde_json::Value>>)
    ensures
        match map {
            Some(map) => object_map(*value) == Some(*map),
            None => object_map(*value) is None,
        },
;

/// `Value::as_str` returns the content that `string_content` names.
pub assume_specification[ serde_json::Value::as_str ](value: &serde_json::Value) -> (content:
    Option<&str>)
    ensures
        match content {
            Some(content) => string_content(*value) == Some(content@),
            None => string_content(*value) is None,
        },
;

/// `Value::as_number` returns the number that `number_of` names.
pub assume_specification[ serde_json::Value::as_number ](value: &serde_json::Value) -> (number:
    Option<&serde_json::Number>)
    ensures
        match number {
            Some(number) => number_of(*value) == Some(*number),
            None => number_of(*value) is None,
        },
;

/// Calls `serde_json::from_str` for a `Value`. The result is the value that
/// `parsed` names, or an error where `parsed` names none.
#[verifier::external_body]
pub(crate) fn parse_value(text: &str) -> (result: Result<serde_json::Value, serde_json::Error>)
    ensures
        match result {
            Ok(value) => parsed(text@) == Some(value),
            Err(_) => parsed(text@) is None,
        },
{
    serde_json::from_str::<serde_json::Value>(text)
}

/// Calls `Map::iter` and collects what it yields. The result holds the
/// entries that `map_entries` names, in the same order.
#[verifier::external_body]
pub(crate) fn collect_entries<'a>(map: &'a serde_json::Map<String, serde_json::Value>) -> (entries:
    Vec<(&'a String, &'a serde_json::Value)>)
    ensures
        entries@.len() == map_entries(*map).len(),
        forall|i: int|
            0 <= i < entries@.len() ==> (#[trigger] entries@[i]).0@ == map_entries(*map)[i].0
                && *entries@[i].1 == map_entries(*map)[i].1,
{
    map.iter().collect()
}

/// Calls `to_string` on a number, which prints it through its `Display`.
/// The result is the text that `number_text` names.
#[verifier::external_body]
pub(crate) fn text_of_number(number: &serde_json::Number) -> (text: String)
    ensures
        text@ == number_text(*number),
{
    number.to_string()
}

} // verus!
