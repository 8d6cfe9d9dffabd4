//! Objects as JSON text, by way of `serde_json`.
use vstd::prelude::*;
use crate::object::{distinct_names, field_views, Field, FieldView, Value};

verus! {

/// The fields of the JSON object that `text` is, in the order in which
/// their names first occur; `None` where `text` is not one JSON object.
///
/// A value that is a string comes as a text, an array of strings as a list
/// of texts, any other value as `Other`.
pub uninterp spec fn json_fields(text: Seq<char>) -> Option<Seq<FieldView>>;

/// The JSON text of the object that has `fields`, in their order. A text is
/// written as a string, a list of texts as an array of strings, `Other` as
/// `null`.
pub uninterp spec fn json_text(fields: Seq<FieldView>) -> Seq<char>;

/// `serde_json::from_str` into a `serde_json::Map`, each entry handed on as
/// a field: a `Value::String` as a text, else what `serde_json::from_value`
/// reads as a list of strings, else `Other`.
///
/// Trusted: the outcome depends on the text alone, and `json_fields` is its
/// name; the names of the fields that come back are distinct, as the keys of
/// a map are.
#[verifier::external_body]
pub(crate) fn read_fields(text: &str) -> (fields: Option<Vec<Field>>)
    ensures
        fields is Some <==> json_fields(text@) is Some,
        fields matches Some(f) ==> json_fields(text@) == Some(field_views(f@)),
        fields matches Some(f) ==> distinct_names(field_views(f@)),
{
    let object: serde_json::Map<String, serde_json::Value> = serde_json::from_str(text).ok()?;
    let fields = object.into_iter().map(|(name, value)| Field {
        name,
        value: match value {
            serde_json::Value::String(text) => Value::Text(text),
            other => match serde_json::from_value(other) {
                Ok(list) => Value::TextList(list),
                Err(_) => Value::Other,
            },
        },
    });
    Some(fields.collect())
}

/// The `to_string` of a `serde_json::Value::Object` that is filled with
/// `fields` in their order.
///
/// Trusted: the text depends on the names and values alone, and `json_text`
/// is its name.
#[verifier::external_body]
pub(crate) fn write_fields(fields: &Vec<Field>) -> (text: String)
    ensures
        text@ == json_text(field_views(fields@)),
{
    let mut object = serde_json::Map::new();
    for field in fields {
        let value = match &field.value {
            Value::Text(text) => serde_json::Value::from(text.as_str()),
            Value::TextList(list) => serde_json::Value::from(list.as_slice()),
            Value::Other => serde_json::Value::Null,
        };
        object.insert(field.name.clone(), value);
    }
    serde_json::Value::Object(object).to_string()
}

} // verus!
