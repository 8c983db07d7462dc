//! Configuration trees and their TOML text.

use vstd::prelude::*;

verus! {

/// What a configuration value says. A table gives each of its keys a value.
pub ghost enum ConfigView {
    Integer(int),
    Text(Seq<char>),
    List(Seq<ConfigView>),
    Table(Map<Seq<char>, ConfigView>),
}

/// `toml::Value`: a value of a configuration.
#[verifier::external_type_specification]
#[verifier::external_body]
pub struct ExTomlValue(toml::Value);

/// `toml::ser::Error`: why a table has no text.
#[verifier::external_type_specification]
#[verifier::external_body]
pub struct ExTomlSerError(toml::ser::Error);

/// What a `toml::Value` holds.
pub uninterp spec fn config_of(value: toml::Value) -> ConfigView;

/// The text that `toml::to_string` gives a table, where it gives one.
pub uninterp spec fn toml_text(table: Map<Seq<char>, ConfigView>) -> Option<Seq<char>>;

/// What entries hold.
pub open spec fn entries_of(entries: Seq<(String, toml::Value)>) -> Seq<(Seq<char>, ConfigView)> {
    entries.map_values(|e: (String, toml::Value)| (e.0@, config_of(e.1)))
}

/// Whether no two entries have the same key.
pub open spec fn keys_differ(entries: Seq<(Seq<char>, ConfigView)>) -> bool {
    forall|i: int, j: int|
        0 <= i < j < entries.len() ==> (#[trigger] entries[i]).0 != (#[trigger] entries[j]).0
}

/// The table with the entries, whose keys differ.
pub open spec fn table_of(entries: Seq<(Seq<char>, ConfigView)>) -> Map<Seq<char>, ConfigView>
    decreases entries.len(),
{
    if entries.len() == 0 {
        Map::empty()
    } else {
        table_of(entries.drop_last()).insert(entries.last().0, entries.last().1)
    }
}

/// What values hold.
pub open spec fn values_of(values: Seq<toml::Value>) -> Seq<ConfigView> {
    values.map_values(|v: toml::Value| config_of(v))
}

/// The text of a table, where it has one.
pub open spec fn rendered(text: Result<String, toml::ser::Error>) -> Option<Seq<char>> {
    match text {
        Ok(s) => Some(s@),
        Err(_) => None,
    }
}

/// `toml::Value::Integer`: the value that holds the number.
#[verifier::external_body]
pub(crate) fn integer_value(n: i64) -> (r: toml::Value)
    ensures
        config_of(r) == ConfigView::Integer(n as int),
{
    toml::Value::Integer(n)
}

/// `toml::Value::String`: the value that holds the text.
#[verifier::external_body]
pub(crate) fn text_value(s: &str) -> (r: toml::Value)
    ensures
        config_of(r) == ConfigView::Text(s@),
{
    toml::Value::String(s.to_owned())
}

/// `toml::Value::Array`: the value that holds the list.
#[verifier::external_body]
pub(crate) fn list_value(values: Vec<toml::Value>) -> (r: toml::Value)
    ensures
        config_of(r) == ConfigView::List(values_of(values@)),
{
    toml::Value::Array(values)
}

/// `toml::Value::Table` of a `toml::Table` made by `from_iter`: the value that
/// holds the entries, whose keys must differ.
#[verifier::external_body]
pub(crate) fn table_value(entries: Vec<(String, toml::Value)>) -> (r: toml::Value)
    requires
        keys_differ(entries_of(entries@)),
    ensures
        config_of(r) == ConfigView::Table(table_of(entries_of(entries@))),
{
    toml::Value::Table(toml::Table::from_iter(entries))
}

/// `toml::to_string` of a `toml::Table` made by `from_iter` from entries whose
/// keys differ: a text that depends on the table alone and not on the order of
/// the entries.
#[verifier::external_body]
pub(crate) fn table_text(entries: Vec<(String, toml::Value)>) -> (r: Result<
    String,
    toml::ser::Error,
>)
    requires
        keys_differ(entries_of(entries@)),
    ensures
        rendered(r) == toml_text(table_of(entries_of(entries@))),
{
    toml::to_string(&toml::Table::from_iter(entries))
}

} // verus!
