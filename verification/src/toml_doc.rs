//! What the library takes from the `toml` crate: the reading of a TOML text
//! and the reading of the values in it. Verus does not check the contracts in
//! this file; each says what the crate's function returns.
use vstd::prelude::*;

verus! {

/// A value of a TOML document.
#[verifier::external_type_specification]
#[verifier::external_body]
pub struct ExTomlValue(toml::Value);

/// The error of a TOML text that cannot be read.
#[verifier::external_type_specification]
#[verifier::external_body]
pub struct ExTomlError(toml::de::Error);

/// The document that `toml::from_str` reads from a text, if it reads one.
pub uninterp spec fn parsed_document(text: Seq<char>) -> Option<toml::Value>;

/// The value that `toml::Value::get` finds under a key.
pub uninterp spec fn member(value: toml::Value, key: Seq<char>) -> Option<toml::Value>;

/// The elements of a value that is an array, as `toml::Value::as_array`
/// gives them.
pub uninterp spec fn items(value: toml::Value) -> Option<Seq<toml::Value>>;

/// The keys and values of a value that is a table, in the order in which the
/// table hands them out.
pub uninterp spec fn entries(value: toml::Value) -> Option<Seq<(Seq<char>, toml::Value)>>;

/// The number in a value that is an integer, as `toml::Value::as_integer`
/// gives it.
pub uninterp spec fn integer(value: toml::Value) -> Option<i64>;

/// The text in a value that is a string, as `toml::Value::as_str` gives it.
pub uninterp spec fn text(value: toml::Value) -> Option<Seq<char>>;

/// Calls `toml::from_str` for a `toml::Value`. The contract names the
/// document that the text stands for and says that the call returns it, or
/// an error where the text stands for none.
#[verifier::external_body]
pub(crate) fn parse_document(source: &str) -> (read: Result<toml::Value, toml::de::Error>)
    ensures
        match read {
            Ok(document) => parsed_document(source@) == Some(document),
            Err(_) => parsed_document(source@) is None,
        },
{
    toml::from_str::<toml::Value>(source)
}

/// Calls `toml::Value::get` with a text key: the value under that key where
/// the value is a table that holds the key.
#[verifier::external_body]
pub(crate) fn value_member<'a>(value: &'a toml::Value, key: &str) -> (found: Option<
    &'a toml::Value,
>)
    ensures
        match found {
            Some(inner) => member(*value, key@) == Some(*inner),
            None => member(*value, key@) is None,
        },
{
    value.get(key)
}

/// Calls `toml::Value::as_array`: the elements where the value is an array.
#[verifier::external_body]
pub(crate) fn value_items<'a>(value: &'a toml::Value) -> (found: Option<&'a Vec<toml::Value>>)
    ensures
        match found {
            Some(elements) => items(*value) == Some(elements@),
            None => items(*value) is None,
        },
{
    value.as_array()
}

/// Calls `toml::Value::as_table` and walks the table: each key with a
/// reference to its value, in the table's order, where the value is a table.
#[verifier::external_body]
pub(crate) fn value_entries<'a>(value: &'a toml::Value) -> (found: Option<
    Vec<(String, &'a toml::Value)>,
>)
    ensures
        match found {
            Some(pairs) => entries(*value) == Some(
                Seq::new(pairs@.len(), |i: int| (pairs@[i].0@, *pairs@[i].1)),
            ),
            None => entries(*value) is None,
        },
{
    let table = value.as_table()?;
    Some(table.iter().map(|(key, inner)| (key.clone(), inner)).collect())
}

/// Calls `toml::Value::as_integer`: the number where the value is an
/// integer.
#[verifier::external_body]
pub(crate) fn value_integer(value: &toml::Value) -> (found: Option<i64>)
    ensures
        found == integer(*value),
{
    value.as_integer()
}

/// Calls `toml::Value::as_str`: the text where the value is a string.
#[verifier::external_body]
pub(crate) fn value_text<'a>(value: &'a toml::Value) -> (found: Option<&'a str>)
    ensures
        match found {
            Some(inner) => text(*value) == Some(inner@),
            None => text(*value) is None,
        },
{
    value.as_str()
}

} // verus!
