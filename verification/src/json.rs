//! The JSON document tree and its mathematical model.

use vstd::prelude::*;

verus! {

/// A JSON number. A non-negative integer is a `PosInt`, a negative one a
/// `NegInt`; any other number is carried as the bit pattern of its
/// double-precision value.
#[derive(Clone, Copy, Debug, PartialEq, Eq, Structural)]
pub enum Number {
    PosInt(u64),
    NegInt(i64),
    Float(u64),
}

impl Number {
    /// The integer this number stands for, if it is one.
    pub open spec fn int_value(self) -> Option<int> {
        match self {
            Number::PosInt(n) => Some(n as int),
            Number::NegInt(n) => Some(n as int),
            Number::Float(_) => None,
        }
    }

    /// Whether this number is an integer between 0 and 255.
    pub open spec fn is_byte(self) -> bool {
        match self.int_value() {
            Some(n) => 0 <= n <= 255,
            None => false,
        }
    }

    /// The byte this number stands for; meaningful where `is_byte` holds.
    pub open spec fn byte_value(self) -> u8 {
        match self.int_value() {
            Some(n) => if 0 <= n <= 255 { n as u8 } else { 0u8 },
            None => 0u8,
        }
    }

    /// The number as a byte, where it is an integer between 0 and 255.
    pub fn as_byte(&self) -> (out: Option<u8>)
        ensures
            out.is_some() == self.is_byte(),
            out.is_some() ==> out.unwrap() == self.byte_value(),
    {
        match *self {
            Number::PosInt(n) => if n <= 255 { Some(n as u8) } else { None },
            Number::NegInt(n) => if 0 <= n && n <= 255 { Some(n as u8) } else { None },
            Number::Float(_) => None,
        }
    }
}

/// The mathematical value of a JSON document: what contracts speak of.
pub enum JsonModel {
    Null,
    Bool(bool),
    Number(Number),
    String(Seq<char>),
    Array(Seq<JsonModel>),
    Object(Seq<(Seq<char>, JsonModel)>),
}

/// A JSON document. An object keeps its fields in the order in which they
/// were written.
#[derive(Debug, PartialEq, Eq)]
pub enum JsonValue {
    Null,
    Bool(bool),
    Number(Number),
    String(String),
    Array(Vec<JsonValue>),
    Object(Vec<(String, JsonValue)>),
}

/// The model of a document: the same tree, with each string and each
/// vector taken by its view.
pub open spec fn model_of(v: JsonValue) -> JsonModel
    decreases v,
{
    match v {
        JsonValue::Null => JsonModel::Null,
        JsonValue::Bool(b) => JsonModel::Bool(b),
        JsonValue::Number(n) => JsonModel::Number(n),
        JsonValue::String(s) => JsonModel::String(s@),
        JsonValue::Array(items) => JsonModel::Array(
            Seq::new(
                items@.len(),
                |i: int|
                    if 0 <= i < items@.len() {
                        model_of(items@[i])
                    } else {
                        JsonModel::Null
                    },
            ),
        ),
        JsonValue::Object(fields) => JsonModel::Object(
            Seq::new(
                fields@.len(),
                |i: int|
                    if 0 <= i < fields@.len() {
                        (fields@[i].0@, model_of(fields@[i].1))
                    } else {
                        (Seq::<char>::empty(), JsonModel::Null)
                    },
            ),
        ),
    }
}

impl View for JsonValue {
    type V = JsonModel;

    open spec fn view(&self) -> JsonModel {
        model_of(*self)
    }
}

/// The model of an object's fields: each name and each value by its view.
pub open spec fn fields_model(fields: Seq<(String, JsonValue)>) -> Seq<(Seq<char>, JsonModel)> {
    Seq::new(fields.len(), |i: int| (fields[i].0@, fields[i].1@))
}

/// The view of an object is the object of its fields' views.
pub proof fn lemma_object_view(fields: Vec<(String, JsonValue)>)
    ensures
        JsonValue::Object(fields)@ == JsonModel::Object(fields_model(fields@)),
{
    assert(JsonValue::Object(fields)@->Object_0 =~= fields_model(fields@));
}

impl Clone for JsonValue {
    /// A copy of the document, with the same view.
    fn clone(&self) -> (out: JsonValue)
        ensures
            out@ == self@,
        decreases self,
    {
        match self {
            JsonValue::Null => JsonValue::Null,
            JsonValue::Bool(b) => JsonValue::Bool(*b),
            JsonValue::Number(n) => JsonValue::Number(*n),
            JsonValue::String(s) => JsonValue::String(s.clone()),
            JsonValue::Array(items) => {
                let mut out: Vec<JsonValue> = Vec::new();
                let mut i: usize = 0;
                while i < items.len()
                    invariant
                        i <= items.len(),
                        *self == JsonValue::Array(*items),
                        out@.len() == i,
                        forall|k: int| 0 <= k < i ==> (#[trigger] out@[k])@ == items[k]@,
                    decreases items.len() - i,
                {
                    assert(self->Array_0 == *items);
                    let item = items[i].clone();
                    out.push(item);
                    i += 1;
                }
                let result = JsonValue::Array(out);
                assert(result@->Array_0 =~= self@->Array_0);
                result
            },
            JsonValue::Object(fields) => {
                let mut out: Vec<(String, JsonValue)> = Vec::new();
                let mut i: usize = 0;
                while i < fields.len()
                    invariant
                        i <= fields.len(),
                        *self == JsonValue::Object(*fields),
                        out@.len() == i,
                        forall|k: int|
                            0 <= k < i ==> (#[trigger] out@[k]).0@ == fields[k].0@ && out@[k].1@
                                == fields[k].1@,
                    decreases fields.len() - i,
                {
                    assert(self->Object_0 == *fields);
                    let name = fields[i].0.clone();
                    let value = fields[i].1.clone();
                    out.push((name, value));
                    i += 1;
                }
                let result = JsonValue::Object(out);
                assert(result@->Object_0 =~= self@->Object_0);
                result
            },
        }
    }
}

} // verus!
