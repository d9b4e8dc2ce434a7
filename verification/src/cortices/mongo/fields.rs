//! Fields of BSON documents, read out as plain values.

use crate::cortices::mongo::utils::BsonDocument;
use bson::{Bson, Document};
use vstd::prelude::*;

verus! {

/// The value of a field, as the front end reads it: a double by the bits of
/// the float, an `i32`, a string, an embedded document, JavaScript code, an
/// object id by its bytes, or a value of another type.
#[derive(Debug, Clone)]
pub enum BsonField {
    Double(u64),
    Int32(i32),
    Str(String),
    Document,
    JavaScriptCode(String),
    ObjectId(Vec<u8>),
    Other,
}

/// A field's value taken as plain values.
pub enum BsonFieldModel {
    Double(u64),
    Int32(i32),
    Str(Seq<char>),
    Document,
    JavaScriptCode(Seq<char>),
    ObjectId(Seq<u8>),
    Other,
}

pub open spec fn bson_field_view(f: BsonField) -> BsonFieldModel {
    match f {
        BsonField::Double(bits) => BsonFieldModel::Double(bits),
        BsonField::Int32(v) => BsonFieldModel::Int32(v),
        BsonField::Str(s) => BsonFieldModel::Str(s@),
        BsonField::Document => BsonFieldModel::Document,
        BsonField::JavaScriptCode(c) => BsonFieldModel::JavaScriptCode(c@),
        BsonField::ObjectId(b) => BsonFieldModel::ObjectId(b@),
        BsonField::Other => BsonFieldModel::Other,
    }
}

/// The bits of the double 1.0.
pub const DOUBLE_ONE_BITS: u64 = 0x3ff0_0000_0000_0000;

/// The field `key` of the BSON document encoded in `doc`, as the bson crate
/// decodes it; nothing where the key is absent or the bytes do not decode.
pub uninterp spec fn bson_field(doc: Seq<u8>, key: Seq<char>) -> Option<BsonFieldModel>;

/// `bson::decode_document` on `doc`, then `Document::get(key)`; the value is
/// told apart by its variant and handed out both as plain values and as the
/// bson value itself. Claimed: what comes out is what `bson_field` names for
/// the bytes and the key, which it depends on alone. Which bytes decode and
/// what they decode to is not stated here.
#[verifier::external_body]
pub(crate) fn read_bson_field(doc: &[u8], key: &str) -> (res: Option<(BsonField, Bson)>)
    ensures
        match bson_field(doc@, key@) {
            None => res is None,
            Some(m) => res matches Some((f, _)) && bson_field_view(f) == m,
        },
{
    let document = bson::decode_document(&mut &doc[..]).ok()?;
    let value = document.get(key)?.clone();
    let field = match &value {
        Bson::FloatingPoint(v) => BsonField::Double(v.to_bits()),
        Bson::I32(v) => BsonField::Int32(*v),
        Bson::String(s) => BsonField::Str(s.clone()),
        Bson::Document(_) => BsonField::Document,
        Bson::JavaScriptCode(c) => BsonField::JavaScriptCode(c.clone()),
        Bson::ObjectId(id) => BsonField::ObjectId(id.bytes().to_vec()),
        _ => BsonField::Other,
    };
    Some((field, value))
}

/// The embedded document held by the field `key` of the BSON document
/// encoded in `doc`, encoded again by the bson crate, and whether it has no
/// fields; nothing where the key is absent, holds no document, or the bytes
/// do not decode.
pub uninterp spec fn bson_subdocument(doc: Seq<u8>, key: Seq<char>) -> Option<(Seq<u8>, bool)>;

/// `bson::decode_document` on `doc`, then `Document::get_document(key)`, the
/// embedded document handed out encoded by `bson::encode_document`, with
/// `Document::is_empty` and as the bson value itself. Claimed: what comes
/// out is what `bson_subdocument` names for the bytes and the key, which it
/// depends on alone.
#[verifier::external_body]
pub(crate) fn read_bson_subdocument(doc: &[u8], key: &str) -> (res: Option<
    (BsonDocument, bool, Document),
>)
    ensures
        match bson_subdocument(doc@, key@) {
            None => res is None,
            Some((bytes, empty)) => res matches Some((d, e, _)) && d.bytes@ == bytes && e == empty,
        },
{
    let document = bson::decode_document(&mut &doc[..]).ok()?;
    let embedded = document.get_document(key).ok()?.clone();
    let mut bytes: Vec<u8> = Vec::new();
    bson::encode_document(&mut bytes, &embedded).ok()?;
    Some((BsonDocument { bytes }, embedded.is_empty(), embedded))
}

} // verus!
