//! Free tables of the configuration document.
//!
//! A table whose keys the venue defines stays the TOML table it was parsed
//! into. What the runtime reads of one is its entries, in the order the table
//! is walked, and whether two of them are equal.

use vstd::prelude::*;
use vstd::string::*;

verus! {

/// The TOML table type, carried as it is.
#[verifier::external_type_specification]
#[verifier::external_body]
#[verifier::reject_recursive_types(K)]
#[verifier::reject_recursive_types(V)]
pub struct TomlTable<K, V>(toml::map::Map<K, V>);

/// The TOML value type, carried as it is.
#[verifier::external_type_specification]
#[verifier::external_body]
pub struct TomlValue(toml::Value);

/// A table's entries in the order it is walked: each key, and the text of its
/// value where the value is a string.
pub uninterp spec fn entries(table: toml::map::Map<String, toml::Value>) -> Seq<
    (Seq<char>, Option<Seq<char>>),
>;

/// Whether two tables are equal, key for key and value for value.
pub uninterp spec fn tables_equal(
    one: toml::map::Map<String, toml::Value>,
    other: toml::map::Map<String, toml::Value>,
) -> bool;

/// Whether every value of a table is a string.
pub open spec fn holds_only_text(table: toml::map::Map<String, toml::Value>) -> bool {
    forall|i: int| 0 <= i < entries(table).len() ==> (#[trigger] entries(table)[i]).1 is Some
}

/// One entry as values to reason about.
pub open spec fn entry_view(entry: (String, Option<String>)) -> (Seq<char>, Option<Seq<char>>) {
    (
        entry.0@,
        match entry.1 {
            Some(text) => Some(text@),
            None => None,
        },
    )
}

/// Calls `toml::map::Map::is_empty`, which says whether the table has no entry.
#[verifier::external_body]
pub(crate) fn is_empty(table: &toml::map::Map<String, toml::Value>) -> (empty: bool)
    ensures
        empty == (entries(*table).len() == 0),
{
    table.is_empty()
}

/// Calls `toml::map::Map::iter`, which walks the entries of the table, and
/// hands each out with its text where `toml::Value::as_str` finds one: in a
/// string, and in no other value.
#[verifier::external_body]
pub(crate) fn rows(table: &toml::map::Map<String, toml::Value>) -> (listed: Vec<
    (String, Option<String>),
>)
    ensures
        listed@.map_values(|entry: (String, Option<String>)| entry_view(entry)) == entries(*table),
{
    table.iter().map(|(key, value)| (key.clone(), value.as_str().map(str::to_owned))).collect()
}

/// Calls the `==` of `toml::map::Map`, which compares key for key and value for
/// value; the map is a `BTreeMap` in this build and is walked by key, so equal
/// tables have the same entries, and tables of nothing but strings that have the
/// same entries are equal.
#[verifier::external_body]
pub(crate) fn equal(
    one: &toml::map::Map<String, toml::Value>,
    other: &toml::map::Map<String, toml::Value>,
) -> (same: bool)
    ensures
        same == tables_equal(*one, *other),
        same ==> entries(*one) == entries(*other),
        holds_only_text(*one) && entries(*one) == entries(*other) ==> same,
{
    one == other
}

} // verus!
