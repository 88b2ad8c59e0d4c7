//! Lookups into CBOR maps and JSON objects, as the decoders of the
//! attestation object, COSE keys and client data need them.
use vstd::prelude::*;
use serde_cbor::Value as CborValue;
use serde_json::Value as JsonValue;

verus! {

/// A key of a CBOR map.
#[derive(Debug, Clone)]
pub enum CborKey {
    Int(i64),
    Text(String),
}

pub enum CborKeyView {
    Int(int),
    Text(Seq<char>),
}

impl View for CborKey {
    type V = CborKeyView;

    open spec fn view(&self) -> CborKeyView {
        match self {
            CborKey::Int(i) => CborKeyView::Int(*i as int),
            CborKey::Text(t) => CborKeyView::Text(t@),
        }
    }
}

/// What a CBOR document holds under a key of its top-level map.
#[derive(Debug, Clone)]
pub enum CborLookup {
    /// The document does not begin with a valid CBOR map.
    NotMap,
    /// The map has no such key.
    Absent,
    Int(i128),
    Bytes(Vec<u8>),
    Text(String),
    /// A value of another kind (array, map, float, ...).
    Other,
}

pub enum CborLookupView {
    NotMap,
    Absent,
    Int(int),
    Bytes(Seq<u8>),
    Text(Seq<char>),
    Other,
}

impl View for CborLookup {
    type V = CborLookupView;

    open spec fn view(&self) -> CborLookupView {
        match self {
            CborLookup::NotMap => CborLookupView::NotMap,
            CborLookup::Absent => CborLookupView::Absent,
            CborLookup::Int(i) => CborLookupView::Int(*i as int),
            CborLookup::Bytes(b) => CborLookupView::Bytes(b@),
            CborLookup::Text(t) => CborLookupView::Text(t@),
            CborLookup::Other => CborLookupView::Other,
        }
    }
}

/// What a JSON document holds under a key of its top-level object.
#[derive(Debug, Clone)]
pub enum JsonLookup {
    /// The document is not valid JSON, or not an object.
    NotObject,
    /// The key is absent, or its value is not a string.
    NotString,
    Text(String),
}

pub enum JsonLookupView {
    NotObject,
    NotString,
    Text(Seq<char>),
}

impl View for JsonLookup {
    type V = JsonLookupView;

    open spec fn view(&self) -> JsonLookupView {
        match self {
            JsonLookup::NotObject => JsonLookupView::NotObject,
            JsonLookup::NotString => JsonLookupView::NotString,
            JsonLookup::Text(t) => JsonLookupView::Text(t@),
        }
    }
}

/// The value under `key` in the CBOR map that `doc` begins with (whatever
/// follows that first item is not read).
pub uninterp spec fn cbor_lookup_of(doc: Seq<u8>, key: CborKeyView) -> CborLookupView;

/// The string under `key` in the JSON object encoded by `doc`.
pub uninterp spec fn json_lookup_of(doc: Seq<u8>, key: Seq<char>) -> JsonLookupView;

/// Relies on serde_cbor's `Deserializer::from_slice`, reading the first item
/// into a `Value`, and on the map's `get`: the outcome depends on the
/// document and the key alone.
#[verifier::external_body]
pub(crate) fn cbor_lookup(doc: &[u8], key: &CborKey) -> (r: CborLookup)
    ensures
        r@ == cbor_lookup_of(doc@, key@),
{
    let k = match key {
        CborKey::Int(i) => CborValue::Integer(*i as i128),
        CborKey::Text(t) => CborValue::Text(t.clone()),
    };
    match serde_cbor::Deserializer::from_slice(doc).into_iter::<CborValue>().next() {
        Some(Ok(CborValue::Map(m))) => match m.get(&k) {
            None => CborLookup::Absent,
            Some(CborValue::Integer(i)) => CborLookup::Int(*i),
            Some(CborValue::Bytes(b)) => CborLookup::Bytes(b.clone()),
            Some(CborValue::Text(t)) => CborLookup::Text(t.clone()),
            Some(_) => CborLookup::Other,
        },
        _ => CborLookup::NotMap,
    }
}

/// Relies on serde_json's `from_slice` into a `Value` and the object's `get`:
/// the outcome depends on the document and the key alone.
#[verifier::external_body]
pub(crate) fn json_lookup(doc: &[u8], key: &str) -> (r: JsonLookup)
    ensures
        r@ == json_lookup_of(doc@, key@),
{
    match serde_json::from_slice::<JsonValue>(doc) {
        Ok(JsonValue::Object(m)) => match m.get(key) {
            Some(JsonValue::String(s)) => JsonLookup::Text(s.clone()),
            _ => JsonLookup::NotString,
        },
        _ => JsonLookup::NotObject,
    }
}

} // verus!
