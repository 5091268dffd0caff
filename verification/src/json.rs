//! Reading a blob as a JSON document, and the one field of it that says
//! which format the blob is in.

use vstd::prelude::*;
use vstd::utf8::*;

use crate::error::ArtifactError;

verus! {

/// `serde_json::Value`, opaque here: a parsed JSON document or a part of one.
#[verifier::external_type_specification]
#[verifier::external_body]
pub struct ExJsonValue(serde_json::Value);

/// `serde_json::Error`, opaque here: why a text or a blob did not parse.
#[verifier::external_type_specification]
#[verifier::external_body]
pub struct ExJsonError(serde_json::Error);

/// The document that `text` writes, where it is JSON: what
/// `serde_json::from_str` parses it to.
pub uninterp spec fn json_document(text: Seq<char>) -> Option<serde_json::Value>;

/// The member that the JSON object `value` holds under `key`: what
/// `serde_json::Value::get` finds.
pub uninterp spec fn json_member(value: serde_json::Value, key: Seq<char>) -> Option<
    serde_json::Value,
>;

/// The text of `value`, where it is a JSON string: what
/// `serde_json::Value::as_str` returns.
pub uninterp spec fn json_text(value: serde_json::Value) -> Option<Seq<char>>;

/// The items of `value`, where it is a JSON array: what
/// `serde_json::Value::as_array` returns.
pub uninterp spec fn json_items(value: serde_json::Value) -> Option<Seq<serde_json::Value>>;

/// The values of the members of `value`, where it is a JSON object, in the
/// order in which the object hands them out: what `serde_json::Map::values`
/// walks over.
pub uninterp spec fn json_member_values(value: serde_json::Value) -> Option<
    Seq<serde_json::Value>,
>;

/// The text of `value`, where it is a JSON number: what its `Display` writes.
pub uninterp spec fn json_number_text(value: serde_json::Value) -> Option<Seq<char>>;

/// `String::from_utf8`: the bytes as a string exactly when they are valid
/// UTF-8, and then the string they encode.
#[verifier::external_body]
fn text_from_utf8(bytes: Vec<u8>) -> (text: Option<String>)
    ensures
        text is Some <==> valid_utf8(bytes@),
        text matches Some(t) ==> t@ == decode_utf8(bytes@),
{
    String::from_utf8(bytes).ok()
}

/// `serde_json::from_str` at type `serde_json::Value`: succeeds exactly on
/// the texts that `json_document` knows, with that document.
#[verifier::external_body]
fn parse_document(text: &str) -> (parsed: Result<serde_json::Value, serde_json::Error>)
    ensures
        match parsed {
            Ok(value) => json_document(text@) == Some(value),
            Err(_) => json_document(text@) is None,
        },
{
    serde_json::from_str(text)
}

/// `serde_json::Value::get` with a string index: the member under `key`,
/// `None` where `value` is no object or holds no such key.
#[verifier::external_body]
pub(crate) fn member<'a>(value: &'a serde_json::Value, key: &str) -> (found: Option<&'a serde_json::Value>)
    ensures
        match found {
            Some(inner) => json_member(*value, key@) == Some(*inner),
            None => json_member(*value, key@) is None,
        },
{
    value.get(key)
}

/// `serde_json::Value::as_str`: the text of a JSON string, and `None` for
/// every other value.
pub assume_specification[ serde_json::Value::as_str ](value: &serde_json::Value) -> (text: Option<
    &str,
>)
    ensures
        match text {
            Some(t) => json_text(*value) == Some(t@),
            None => json_text(*value) is None,
        },
;

/// `serde_json::Value::as_array`: the items of a JSON array, and `None` for
/// every other value.
pub assume_specification[ serde_json::Value::as_array ](value: &serde_json::Value) -> (items:
    Option<&Vec<serde_json::Value>>)
    ensures
        match items {
            Some(v) => json_items(*value) == Some(v@),
            None => json_items(*value) is None,
        },
;

/// The values behind a sequence of references.
pub open spec fn referents(values: Seq<&serde_json::Value>) -> Seq<serde_json::Value> {
    Seq::new(values.len(), |i: int| *values[i])
}

/// `serde_json::Value::as_object` and `serde_json::Map::values`: the values
/// of the members of a JSON object, and `None` for every other value.
#[verifier::external_body]
pub(crate) fn member_values<'a>(value: &'a serde_json::Value) -> (values: Option<
    Vec<&'a serde_json::Value>,
>)
    ensures
        match values {
            Some(v) => json_member_values(*value) == Some(referents(v@)),
            None => json_member_values(*value) is None,
        },
{
    value.as_object().map(|members| members.values().collect())
}

/// `serde_json::Value::as_number` and the number's `to_string`: the text of
/// a JSON number, and `None` for every other value.
#[verifier::external_body]
pub(crate) fn number_text(value: &serde_json::Value) -> (text: Option<String>)
    ensures
        match text {
            Some(t) => json_number_text(*value) == Some(t@),
            None => json_number_text(*value) is None,
        },
{
    value.as_number().map(|number| number.to_string())
}

/// The document that `bytes` write: they are UTF-8, and the text is JSON.
pub open spec fn document_of(bytes: Seq<u8>) -> Option<serde_json::Value> {
    if valid_utf8(bytes) {
        json_document(decode_utf8(bytes))
    } else {
        None
    }
}

/// Reads `bytes` as a JSON document.
pub fn read_document(bytes: Vec<u8>) -> (document: Option<serde_json::Value>)
    ensures
        document == document_of(bytes@),
{
    match text_from_utf8(bytes) {
        Some(text) => match parse_document(text.as_str()) {
            Ok(document) => Some(document),
            Err(_) => None,
        },
        None => None,
    }
}

/// What a structure finds as its field when it is read from `value`: the
/// item at `position` where `value` is an array, and its member under `name`
/// where it is an object.
pub open spec fn json_field(value: serde_json::Value, name: Seq<char>, position: int) -> Option<
    serde_json::Value,
> {
    match json_items(value) {
        Some(items) => if 0 <= position < items.len() {
            Some(items[position])
        } else {
            None
        },
        None => json_member(value, name),
    }
}

/// The field of a structure that is read from `value`.
pub fn field<'a>(value: &'a serde_json::Value, name: &str, position: usize) -> (found: Option<
    &'a serde_json::Value,
>)
    ensures
        match found {
            Some(inner) => json_field(*value, name@, position as int) == Some(*inner),
            None => json_field(*value, name@, position as int) is None,
        },
{
    match value.as_array() {
        Some(items) => if position < items.len() {
            Some(&items[position])
        } else {
            None
        },
        None => member(value, name),
    }
}

/// The version text that `bytes` declare, by their `"compiler_version"` field.
///
/// `Ok(None)` where the document holds no such member, which is so of every
/// document that is no object; an error where the bytes are no JSON document
/// or the member is not a string.
pub open spec fn declared_version(bytes: Seq<u8>) -> Result<Option<Seq<char>>, ArtifactError> {
    match document_of(bytes) {
        None => Err(ArtifactError::Classification),
        Some(document) => match json_member(document, "compiler_version"@) {
            None => Ok(None),
            Some(field) => match json_text(field) {
                None => Err(ArtifactError::Classification),
                Some(text) => Ok(Some(text)),
            },
        },
    }
}

/// The version text or the error in `version`, the text by its view.
pub open spec fn version_view(version: Result<Option<String>, ArtifactError>) -> Result<
    Option<Seq<char>>,
    ArtifactError,
> {
    match version {
        Ok(Some(text)) => Ok(Some(text@)),
        Ok(None) => Ok(None),
        Err(e) => Err(e),
    }
}

/// Reads the `"compiler_version"` field of a blob.
pub fn get_compiler_version(bytes: Vec<u8>) -> (version: Result<Option<String>, ArtifactError>)
    ensures
        version_view(version) == declared_version(bytes@),
{
    let document = match read_document(bytes) {
        Some(document) => document,
        None => {
            return Err(ArtifactError::Classification);
        },
    };
    match member(&document, "compiler_version") {
        None => Ok(None),
        Some(field) => match field.as_str() {
            None => Err(ArtifactError::Classification),
            Some(version) => Ok(Some(version.to_owned())),
        },
    }
}

} // verus!
