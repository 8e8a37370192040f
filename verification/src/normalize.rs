//! The checksum normalizer: every field named `checksum` that holds an
//! array of bytes is rewritten as lowercase hexadecimal text, at every
//! depth of a document.

use vstd::prelude::*;
use vstd::string::StringExecFns;
use crate::hex::{hex_encode, hex_text};
use crate::json::{JsonModel, JsonValue};

verus! {

/// The name of the field that is rewritten.
pub open spec fn checksum_key() -> Seq<char> {
    "checksum"@
}

/// Whether `v` is a number that is an integer between 0 and 255.
pub open spec fn is_byte_item(v: JsonModel) -> bool {
    match v {
        JsonModel::Number(n) => n.is_byte(),
        _ => false,
    }
}

/// The byte that `v` stands for; meaningful where `is_byte_item` holds.
pub open spec fn byte_of(v: JsonModel) -> u8 {
    match v {
        JsonModel::Number(n) => n.byte_value(),
        _ => 0u8,
    }
}

/// Whether `v` is an array all of whose elements are bytes. The empty
/// array is one.
pub open spec fn is_byte_array(v: JsonModel) -> bool {
    match v {
        JsonModel::Array(items) => forall|i: int|
            0 <= i < items.len() ==> is_byte_item(#[trigger] items[i]),
        _ => false,
    }
}

/// The bytes of a byte array, in its order.
pub open spec fn bytes_of(v: JsonModel) -> Seq<u8> {
    match v {
        JsonModel::Array(items) => Seq::new(items.len(), |i: int| byte_of(items[i])),
        _ => Seq::empty(),
    }
}

/// Whether a field with this name and value is one that is rewritten.
pub open spec fn is_checksum_field(name: Seq<char>, value: JsonModel) -> bool {
    name == checksum_key() && is_byte_array(value)
}

/// The normalized form of a document. In an object, a checksum field
/// becomes its hexadecimal text and every other field's value is
/// normalized; in an array every element is normalized; any other value
/// stays as it is.
pub open spec fn normalize_model(v: JsonModel) -> JsonModel
    decreases v,
{
    match v {
        JsonModel::Object(fields) => JsonModel::Object(
            Seq::new(
                fields.len(),
                |i: int|
                    if 0 <= i < fields.len() {
                        (
                            fields[i].0,
                            if is_checksum_field(fields[i].0, fields[i].1) {
                                JsonModel::String(hex_text(bytes_of(fields[i].1)))
                            } else {
                                normalize_model(fields[i].1)
                            },
                        )
                    } else {
                        (Seq::<char>::empty(), JsonModel::Null)
                    },
            ),
        ),
        JsonModel::Array(items) => JsonModel::Array(
            Seq::new(
                items.len(),
                |i: int|
                    if 0 <= i < items.len() {
                        normalize_model(items[i])
                    } else {
                        JsonModel::Null
                    },
            ),
        ),
        _ => v,
    }
}

/// Whether `name` is exactly `checksum`.
pub fn is_checksum_name(name: &String) -> (out: bool)
    ensures
        out == (name@ == checksum_key()),
{
    let key = String::from_str("checksum");
    *name == key
}

/// The bytes of `value`, where it is an array of bytes and of nothing
/// else.
pub fn as_byte_array(value: &JsonValue) -> (out: Option<Vec<u8>>)
    ensures
        out.is_some() == is_byte_array(value@),
        out.is_some() ==> out.unwrap()@ == bytes_of(value@),
{
    match value {
        JsonValue::Array(items) => {
            let mut bytes: Vec<u8> = Vec::new();
            let mut i: usize = 0;
            while i < items.len()
                invariant
                    i <= items.len(),
                    value@ is Array,
                    value@->Array_0.len() == items.len(),
                    forall|k: int| 0 <= k < items.len() ==> value@->Array_0[k] == #[trigger] items[k]@,
                    bytes@.len() == i,
                    forall|k: int| 0 <= k < i ==> is_byte_item(#[trigger] items[k]@),
                    forall|k: int| 0 <= k < i ==> bytes@[k] == byte_of(#[trigger] items[k]@),
                decreases items.len() - i,
            {
                let byte = match &items[i] {
                    JsonValue::Number(n) => n.as_byte(),
                    _ => None,
                };
                assert(byte.is_some() == is_byte_item(items[i as int]@));
                match byte {
                    Some(b) => bytes.push(b),
                    None => {
                        assert(value@->Array_0[i as int] == items[i as int]@);
                        return None;
                    },
                }
                i += 1;
            }
            proof {
                assert forall|k: int| 0 <= k < items.len() implies is_byte_item(
                    #[trigger] value@->Array_0[k],
                ) by {
                    assert(value@->Array_0[k] == items[k]@);
                }
                assert forall|k: int| 0 <= k < items.len() implies bytes@[k] == bytes_of(
                    value@,
                )[k] by {
                    assert(value@->Array_0[k] == items[k]@);
                }
                assert(bytes@ =~= bytes_of(value@));
            }
            Some(bytes)
        },
        _ => None,
    }
}

/// Normalizes a document: the result is a new document in which every
/// checksum field, at every depth, holds its hexadecimal text.
pub fn normalize(value: &JsonValue) -> (out: JsonValue)
    ensures
        out@ == normalize_model(value@),
    decreases value,
{
    match value {
        JsonValue::Object(fields) => {
            let mut out: Vec<(String, JsonValue)> = Vec::new();
            let mut i: usize = 0;
            while i < fields.len()
                invariant
                    i <= fields.len(),
                    *value == JsonValue::Object(*fields),
                    out@.len() == i,
                    forall|k: int|
                        0 <= k < i ==> (#[trigger] out@[k]).0@ == fields[k].0@ && out@[k].1@ == (
                        if is_checksum_field(fields[k].0@, fields[k].1@) {
                            JsonModel::String(hex_text(bytes_of(fields[k].1@)))
                        } else {
                            normalize_model(fields[k].1@)
                        }),
                decreases fields.len() - i,
            {
                let name = fields[i].0.clone();
                let rewritten = if is_checksum_name(&name) {
                    as_byte_array(&fields[i].1)
                } else {
                    None
                };
                assert(value->Object_0 == *fields);
                let field = match rewritten {
                    Some(bytes) => JsonValue::String(hex_encode(&bytes)),
                    None => normalize(&fields[i].1),
                };
                out.push((name, field));
                i += 1;
            }
            let result = JsonValue::Object(out);
            proof {
                let got = result@->Object_0;
                let want = normalize_model(value@)->Object_0;
                assert forall|k: int| 0 <= k < got.len() implies got[k] == want[k] by {
                    assert(got[k].0 == out@[k].0@ && got[k].1 == out@[k].1@);
                    assert(value@->Object_0[k] == (fields[k].0@, fields[k].1@));
                }
                assert(got =~= want);
            }
            result
        },
        JsonValue::Array(items) => {
            let mut out: Vec<JsonValue> = Vec::new();
            let mut i: usize = 0;
            while i < items.len()
                invariant
                    i <= items.len(),
                    *value == JsonValue::Array(*items),
                    out@.len() == i,
                    forall|k: int| 0 <= k < i ==> (#[trigger] out@[k])@ == normalize_model(items[k]@),
                decreases items.len() - i,
            {
                assert(value->Array_0 == *items);
                let item = normalize(&items[i]);
                out.push(item);
                i += 1;
            }
            let result = JsonValue::Array(out);
            proof {
                let got = result@->Array_0;
                let want = normalize_model(value@)->Array_0;
                assert forall|k: int| 0 <= k < got.len() implies got[k] == want[k] by {
                    assert(got[k] == out@[k]@);
                    assert(value@->Array_0[k] == items[k]@);
                }
                assert(got =~= want);
            }
            result
        },
        JsonValue::Null => JsonValue::Null,
        JsonValue::Bool(b) => JsonValue::Bool(*b),
        JsonValue::Number(n) => JsonValue::Number(*n),
        JsonValue::String(s) => JsonValue::String(s.clone()),
    }
}

/// Normalizes a document in place.
pub fn process_checksums(value: &mut JsonValue)
    ensures
        final(value)@ == normalize_model(old(value)@),
{
    let out = normalize(value);
    *value = out;
}

} // verus!
