//! A TOML document read field by field.
//!
//! The document is parsed by the `toml` crate; what the library reads of it
//! are the top-level keys whose values are strings, lists or date-times.

use vstd::prelude::*;
use crate::text::option_text;

verus! {

/// Trusted: `toml::map::Map`, of which `toml::Table` is an instance: a
/// parsed document, kept as an opaque value.
#[verifier::external_type_specification]
#[verifier::external_body]
#[verifier::reject_recursive_types(K)]
#[verifier::reject_recursive_types(V)]
pub struct ExTomlMap<K, V>(toml::map::Map<K, V>);

/// Trusted: `toml::Value`, what a key of a document holds, kept as an
/// opaque value.
#[verifier::external_type_specification]
#[verifier::external_body]
pub struct ExTomlValue(toml::Value);

/// Trusted: `toml::de::Error`, the parser's error, carried through as an
/// opaque value.
#[verifier::external_type_specification]
#[verifier::external_body]
pub struct ExTomlError(toml::de::Error);

/// A calendar date as written in a document.
#[derive(Debug, Clone, Copy, PartialEq, Eq, Structural)]
pub struct RawDate {
    pub year: u16,
    pub month: u8,
    pub day: u8,
}

/// A time of day as written in a document.
#[derive(Debug, Clone, Copy, PartialEq, Eq, Structural)]
pub struct RawTime {
    pub hour: u8,
    pub minute: u8,
    pub second: u8,
    pub nanosecond: u32,
}

/// A UTC offset as written in a document: `Z`, or hours and minutes given
/// here in minutes.
#[derive(Debug, Clone, Copy, PartialEq, Eq, Structural)]
pub enum RawOffset {
    Z,
    Custom { minutes: i16 },
}

/// A date-time as written in a document; each part may be left out.
#[derive(Debug, Clone, Copy, PartialEq, Eq, Structural)]
pub struct RawDatetime {
    pub date: Option<RawDate>,
    pub time: Option<RawTime>,
    pub offset: Option<RawOffset>,
}

/// What a top-level key of a document holds, as far as the library reads
/// it: a string, a list (each item its string, or `None` for an item that is
/// no string), a date-time, or something else.
pub enum FieldView {
    Text(Seq<char>),
    List(Seq<Option<Seq<char>>>),
    Moment(RawDatetime),
    Other,
}

/// The top-level keys of the document that `input` is, each with what it
/// holds; `None` where `input` is not a TOML document.
pub uninterp spec fn spec_toml_fields(input: Seq<char>) -> Option<Map<Seq<char>, FieldView>>;

/// The top-level keys of a parsed document, each with what it holds.
pub uninterp spec fn table_fields(table: toml::Table) -> Map<Seq<char>, FieldView>;

/// The string under `key`, where there is one.
pub open spec fn spec_text_of(fields: Map<Seq<char>, FieldView>, key: Seq<char>) -> Option<
    Seq<char>,
> {
    if fields.contains_key(key) && fields[key] is Text {
        Some(fields[key]->Text_0)
    } else {
        None
    }
}

/// The list under `key`, where there is one.
pub open spec fn spec_list_of(fields: Map<Seq<char>, FieldView>, key: Seq<char>) -> Option<
    Seq<Option<Seq<char>>>,
> {
    if fields.contains_key(key) && fields[key] is List {
        Some(fields[key]->List_0)
    } else {
        None
    }
}

/// The date-time under `key`, where there is one.
pub open spec fn spec_moment_of(fields: Map<Seq<char>, FieldView>, key: Seq<char>) -> Option<
    RawDatetime,
> {
    if fields.contains_key(key) && fields[key] is Moment {
        Some(fields[key]->Moment_0)
    } else {
        None
    }
}

/// The items of a list of optional strings, each by its characters.
pub open spec fn list_view(items: Seq<Option<String>>) -> Seq<Option<Seq<char>>> {
    items.map_values(|item: Option<String>| option_text(item))
}

/// Parses a TOML document.
///
/// Trusted: calls `toml::from_str` for a `toml::Table`. Whether it succeeds
/// and what the table holds are a function of the input alone; that
/// function is named, not described.
#[verifier::external_body]
pub(crate) fn parse_table(input: &str) -> (parsed: Result<toml::Table, toml::de::Error>)
    ensures
        parsed is Ok <==> spec_toml_fields(input@) is Some,
        parsed matches Ok(table) ==> spec_toml_fields(input@) == Some(table_fields(table)),
{
    toml::from_str::<toml::Table>(input)
}

/// Whether the document has the key.
///
/// Trusted: calls `toml::map::Map::contains_key`.
#[verifier::external_body]
pub(crate) fn has_key(table: &toml::Table, key: &str) -> (present: bool)
    ensures
        present == table_fields(*table).contains_key(key@),
{
    table.contains_key(key)
}

/// The string under a key; `None` where the key is absent or holds
/// something else.
///
/// Trusted: calls `toml::map::Map::get` and copies the string out of a
/// `toml::Value::String`.
#[verifier::external_body]
pub(crate) fn text_of(table: &toml::Table, key: &str) -> (text: Option<String>)
    ensures
        option_text(text) == spec_text_of(table_fields(*table), key@),
{
    table.get(key)?.as_str().map(String::from)
}

/// The list under a key, each item its string or `None` for an item that is
/// no string; `None` where the key is absent or holds something else.
///
/// Trusted: calls `toml::map::Map::get` and copies the items out of a
/// `toml::Value::Array`, in order.
#[verifier::external_body]
pub(crate) fn list_of(table: &toml::Table, key: &str) -> (items: Option<Vec<Option<String>>>)
    ensures
        items is Some <==> spec_list_of(table_fields(*table), key@) is Some,
        items matches Some(list) ==> spec_list_of(table_fields(*table), key@) == Some(
            list_view(list@),
        ),
{
    let array = table.get(key)?.as_array()?;
    Some(array.iter().map(|item| item.as_str().map(String::from)).collect())
}

/// The date-time under a key; `None` where the key is absent or holds
/// something else.
///
/// Trusted: calls `toml::map::Map::get` and copies the parts out of a
/// `toml::Value::Datetime`.
#[verifier::external_body]
pub(crate) fn moment_of(table: &toml::Table, key: &str) -> (moment: Option<RawDatetime>)
    ensures
        moment == spec_moment_of(table_fields(*table), key@),
{
    let d = table.get(key)?.as_datetime()?;
    Some(RawDatetime {
        date: d.date.map(|x| RawDate { year: x.year, month: x.month, day: x.day }),
        time: d.time.map(|x| RawTime {
            hour: x.hour, minute: x.minute, second: x.second, nanosecond: x.nanosecond,
        }),
        offset: d.offset.map(|x| match x {
            toml::value::Offset::Z => RawOffset::Z,
            toml::value::Offset::Custom { minutes } => RawOffset::Custom { minutes },
        }),
    })
}

} // verus!
