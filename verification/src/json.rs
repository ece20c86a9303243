//! The boundary to the JSON parser: `serde_json` decodes request
//! bodies; verified code reads the decoded document through a plain
//! one-level shape and never re-implements the JSON grammar.
//!
//! What a body decodes to is named by the uninterpreted functions
//! [`json_doc`] and [`value_shape`]; the trusted wrappers below state
//! how the outside calls relate to those names, and everything else is
//! proved from them.

use vstd::prelude::*;

verus! {

#[verifier::external_type_specification]
#[verifier::external_body]
pub struct ExValue(serde_json::Value);

/// The model of one element of a JSON array: the characters of a JSON
/// string, or `None` for an element of any other kind.
pub type ElemModel = Option<Seq<char>>;

/// The model of one field value of a JSON object: the elements of a
/// JSON array, or `None` for a value of any other kind.
pub type FieldModel = Option<Seq<ElemModel>>;

/// The model of one field of a JSON object: its key and its value.
pub type EntryModel = (Seq<char>, FieldModel);

/// The model of a JSON document one level deep: the fields of a JSON
/// object in the order the parser hands them out, or `None` for a
/// document of any other kind.
pub type DocModel = Option<Seq<EntryModel>>;

/// A JSON document read one level deep, as plain values: the exec
/// counterpart of [`DocModel`].
pub enum DocShape {
    /// The document is not a JSON object.
    NotObject,
    /// The fields of the object: each key with its value, a value
    /// being `Some` array whose string elements are `Some` characters.
    Object(Vec<(String, Option<Vec<Option<String>>>)>),
}

pub open spec fn elem_model(e: Option<String>) -> ElemModel {
    match e {
        None => None,
        Some(s) => Some(s@),
    }
}

pub open spec fn field_model(f: Option<Vec<Option<String>>>) -> FieldModel {
    match f {
        None => None,
        Some(v) => Some(v@.map(|i: int, e: Option<String>| elem_model(e))),
    }
}

pub open spec fn entry_model(e: (String, Option<Vec<Option<String>>>)) -> EntryModel {
    (e.0@, field_model(e.1))
}

pub open spec fn shape_model(d: DocShape) -> DocModel {
    match d {
        DocShape::NotObject => None,
        DocShape::Object(entries) => Some(
            entries@.map(|i: int, e: (String, Option<Vec<Option<String>>>)| entry_model(e)),
        ),
    }
}

/// What `serde_json::from_slice::<serde_json::Value>` decodes the bytes
/// to, one level deep: `None` where the bytes are not a JSON document,
/// otherwise the document's shape. A function of the bytes alone.
pub uninterp spec fn json_doc(bytes: Seq<u8>) -> Option<DocModel>;

/// The one-level shape of a decoded document. A function of the
/// document alone.
pub uninterp spec fn value_shape(v: serde_json::Value) -> DocModel;

/// Relies on `serde_json::from_slice::<serde_json::Value>`: decoding
/// succeeds exactly on a syntactically valid JSON document, and the
/// document depends on the bytes alone. A failure is handed on as the
/// parser's own message, through `serde_json::Error`'s `Display`.
#[verifier::external_body]
pub(crate) fn json_from_slice(body: &[u8]) -> (r: Result<serde_json::Value, String>)
    ensures
        r is Ok <==> json_doc(body@) is Some,
        r matches Ok(v) ==> Some(value_shape(v)) == json_doc(body@),
{
    serde_json::from_slice(body).map_err(|e| e.to_string())
}

/// Relies on `serde_json::Value`'s variants and `serde_json::Map::iter`:
/// reads the document one level deep, each variant to its shape, each
/// field in the order `iter` hands them out.
#[verifier::external_body]
pub(crate) fn doc_shape(v: &serde_json::Value) -> (r: DocShape)
    ensures
        shape_model(r) == value_shape(*v),
{
    match v {
        serde_json::Value::Object(m) => DocShape::Object(
            m.iter().map(|(k, f)| (k.clone(), match f {
                serde_json::Value::Array(a) => Some(a.iter().map(|e| match e {
                    serde_json::Value::String(s) => Some(s.clone()),
                    _ => None,
                }).collect()),
                _ => None,
            })).collect(),
        ),
        _ => DocShape::NotObject,
    }
}

} // verus!
