//! The TOML documents that command definitions are written in, read through
//! the `toml` crate.
use vstd::prelude::*;
use vstd::string::StringExecFns;

verus! {

#[verifier::external_type_specification]
#[verifier::external_body]
#[verifier::reject_recursive_types(K)]
#[verifier::reject_recursive_types(V)]
pub struct ExTomlMap<K, V>(toml::map::Map<K, V>);

#[verifier::external_type_specification]
#[verifier::external_body]
pub struct ExTomlValue(toml::Value);

#[verifier::external_type_specification]
#[verifier::external_body]
pub struct ExTomlError(toml::de::Error);

/// The top-level entries of `text` read as a TOML document: each key with
/// its value's text where that value is a string, `None` where it is not.
/// The whole result is `None` where `text` is not a well-formed document.
pub uninterp spec fn toml_document(text: Seq<char>) -> Option<Map<Seq<char>, Option<Seq<char>>>>;

/// What a parsed table holds: each top-level key with its value's text
/// where that value is a string, `None` where it is not.
pub uninterp spec fn table_entries(t: toml::Table) -> Map<Seq<char>, Option<Seq<char>>>;

/// The text of a TOML value that is a string; `None` for any other value.
pub uninterp spec fn value_text(v: toml::Value) -> Option<Seq<char>>;

/// Relies on `toml::Table`'s `FromStr` impl (which is `toml::from_str`):
/// it yields the document's top-level table, or an error for text that is
/// not a well-formed document.
#[verifier::external_body]
pub(crate) fn parse_table(text: &str) -> (r: Result<toml::Table, toml::de::Error>)
    ensures
        match r {
            Ok(t) => toml_document(text@) == Some(table_entries(t)),
            Err(_) => toml_document(text@) is None,
        },
{
    text.parse::<toml::Table>()
}

/// Relies on `toml::map::Map::get`: the value stored under `key`, if any.
#[verifier::external_body]
pub(crate) fn table_get<'a>(t: &'a toml::Table, key: &str) -> (r: Option<&'a toml::Value>)
    ensures
        r is Some <==> table_entries(*t).contains_key(key@),
        r matches Some(v) ==> value_text(*v) == table_entries(*t)[key@],
{
    t.get(key)
}

/// Relies on `toml::Value::as_str`: the text of a string value, `None` for
/// any other kind of value.
pub assume_specification[ toml::Value::as_str ](v: &toml::Value) -> (r: Option<&str>)
    ensures
        match r {
            Some(s) => value_text(*v) == Some(s@),
            None => value_text(*v) is None,
        },
;

/// The text of a top-level entry, where the entry exists and is a string.
pub open spec fn field_text(doc: Map<Seq<char>, Option<Seq<char>>>, key: Seq<char>) -> Option<Seq<char>> {
    if doc.contains_key(key) {
        doc[key]
    } else {
        None
    }
}

/// Reads the string stored under `key` in a parsed table.
pub(crate) fn string_field(t: &toml::Table, key: &str) -> (r: Option<String>)
    ensures
        match r {
            Some(s) => field_text(table_entries(*t), key@) == Some(s@),
            None => field_text(table_entries(*t), key@) is None,
        },
{
    match table_get(t, key) {
        Some(v) => match v.as_str() {
            Some(s) => Some(String::from_str(s)),
            None => None,
        },
        None => None,
    }
}

} // verus!
