//! The trusted boundary to the JSON parser. Each item here crosses the
//! boundary once — it parses a byte string and converts what was read to
//! plain values — and each reading is a function of the bytes alone, given
//! a name that the verified contracts above speak of exactly.
use vstd::prelude::*;

use crate::records::InfoJson;
use crate::records::JsonField;
use crate::records::PayloadJson;

verus! {

/// Whether a byte string is a well-formed JSON document, as the JSON
/// parser's acceptance defines it; it depends on the bytes alone.
pub uninterp spec fn json_wf(s: Seq<u8>) -> bool;

/// How a message body reads as JSON: invalid with the parse error's text,
/// a document that is no object, or an object with its `mint` and `image`
/// fields; it depends on the bytes alone.
pub uninterp spec fn json_payload_of(s: Seq<u8>) -> crate::records::PayloadModel;

/// Relies on `serde_json::from_slice::<Value>`, `Value::as_object` and
/// `Map::get`: parses the bytes as one JSON document and reads the `mint`
/// and `image` fields of an object, keeping a string's bytes, serialising
/// any other value, and telling a null or absent field apart. The whole
/// reading is a function of the bytes alone, named `json_payload_of`;
/// acceptance is named `json_wf`.
#[verifier::external_body]
pub(crate) fn json_classify(b: &Vec<u8>) -> (r: PayloadJson)
    ensures
        r@ == json_payload_of(b@),
        r@ is Invalid <==> !json_wf(b@),
{
    let doc: serde_json::Value = match serde_json::from_slice(b.as_slice()) {
        Ok(v) => v,
        Err(e) => return PayloadJson::Invalid { error: e.to_string().into_bytes() },
    };
    let obj = match doc.as_object() {
        Some(m) => m,
        None => return PayloadJson::NonObject,
    };
    let read = |key: &str| match obj.get(key) {
        None => JsonField::Absent,
        Some(serde_json::Value::Null) => JsonField::Null,
        Some(serde_json::Value::String(s)) => JsonField::Text(s.clone().into_bytes()),
        Some(other) => JsonField::Other(other.to_string().into_bytes()),
    };
    PayloadJson::Object { mint: read("mint"), image: read("image") }
}

/// How an INFO payload reads as JSON: invalid, a document that is no
/// object, or an object with its top-level keys in the document map's
/// order; it depends on the bytes alone.
pub uninterp spec fn json_info_keys_of(s: Seq<u8>) -> crate::records::InfoJsonModel;

/// Relies on `serde_json::from_slice::<Value>`, `Value::as_object` and
/// `Map::keys`: parses the bytes as one JSON document and lists an
/// object's top-level keys. The reading is a function of the bytes alone,
/// named `json_info_keys_of`; acceptance is named `json_wf`.
#[verifier::external_body]
pub(crate) fn json_info_keys(b: &Vec<u8>) -> (r: InfoJson)
    ensures
        r@ == json_info_keys_of(b@),
        r@ is Invalid <==> !json_wf(b@),
{
    let doc: serde_json::Value = match serde_json::from_slice(b.as_slice()) {
        Ok(v) => v,
        Err(_) => return InfoJson::Invalid,
    };
    match doc.as_object() {
        Some(m) => InfoJson::Object(m.keys().map(|k| k.clone().into_bytes()).collect()),
        None => InfoJson::NotObject,
    }
}

/// What a byte string holds when read as one JSON string literal; it
/// depends on the bytes alone.
pub uninterp spec fn json_text_decode(s: Seq<u8>) -> Option<Seq<u8>>;

/// Relies on `serde_json::from_slice::<String>`: decodes the bytes as one
/// JSON string literal; the result depends on the bytes alone and is named
/// `json_text_decode`.
#[verifier::external_body]
pub(crate) fn json_decode_string(b: &Vec<u8>) -> (r: Option<Vec<u8>>)
    ensures
        r is Some <==> json_text_decode(b@) is Some,
        r matches Some(v) ==> json_text_decode(b@) == Some(v@),
{
    match serde_json::from_slice::<String>(b.as_slice()) {
        Ok(s) => Some(s.into_bytes()),
        Err(_) => None,
    }
}

} // verus!
