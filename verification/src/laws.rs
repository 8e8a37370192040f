//! What holds of normalization on every document.

use vstd::prelude::*;
use crate::hex::{hex_text, is_lower_hex, lemma_hex_text_shape};
use crate::json::{JsonModel, Number};
use crate::retrieval::{
    collected, document_model, exit_code_model, has_key, is_first_at, next_action, phase_after,
    ActionModel, EventModel, Phase, QueryModel,
};
use crate::normalize::{
    bytes_of, checksum_key, is_byte_array, is_byte_item, is_checksum_field, normalize_model,
};

verus! {

/// Whether some object inside `v`, at any depth, has a field named
/// `checksum`.
pub open spec fn mentions_checksum(v: JsonModel) -> bool
    decreases v,
{
    match v {
        JsonModel::Object(fields) => exists|i: int|
            0 <= i < fields.len() && ((#[trigger] fields[i]).0 == checksum_key()
                || mentions_checksum(fields[i].1)),
        JsonModel::Array(items) => exists|i: int|
            0 <= i < items.len() && mentions_checksum(#[trigger] items[i]),
        _ => false,
    }
}

/// Whether `v` is in normal form: no object inside it, at any depth, has
/// a field named `checksum` that holds an array of bytes.
pub open spec fn is_normal(v: JsonModel) -> bool
    decreases v,
{
    match v {
        JsonModel::Object(fields) => forall|i: int|
            0 <= i < fields.len() ==> !is_checksum_field(
                (#[trigger] fields[i]).0,
                fields[i].1,
            ) && is_normal(fields[i].1),
        JsonModel::Array(items) => forall|i: int|
            0 <= i < items.len() ==> is_normal(#[trigger] items[i]),
        _ => true,
    }
}

/// The array of numbers that stands for a byte sequence.
pub open spec fn byte_array(bytes: Seq<u8>) -> JsonModel {
    JsonModel::Array(
        Seq::new(bytes.len(), |i: int| JsonModel::Number(Number::PosInt(bytes[i] as u64))),
    )
}

/// An object with the one field `name`, holding `value`.
pub open spec fn record(name: Seq<char>, value: JsonModel) -> JsonModel {
    JsonModel::Object(seq![(name, value)])
}

/// A document in normal form is left as it is.
pub proof fn lemma_normal_unchanged(v: JsonModel)
    requires
        is_normal(v),
    ensures
        normalize_model(v) == v,
    decreases v,
{
    match v {
        JsonModel::Object(fields) => {
            let out = normalize_model(v)->Object_0;
            assert forall|i: int| 0 <= i < fields.len() implies out[i] == fields[i] by {
                assert(is_normal(fields[i].1));
                lemma_normal_unchanged(fields[i].1);
            }
            assert(out =~= fields);
        },
        JsonModel::Array(items) => {
            let out = normalize_model(v)->Array_0;
            assert forall|i: int| 0 <= i < items.len() implies out[i] == items[i] by {
                assert(is_normal(items[i]));
                lemma_normal_unchanged(items[i]);
            }
            assert(out =~= items);
        },
        _ => {},
    }
}

/// The result of normalization is in normal form.
pub proof fn lemma_normalize_is_normal(v: JsonModel)
    ensures
        is_normal(normalize_model(v)),
    decreases v,
{
    match v {
        JsonModel::Object(fields) => {
            let out = normalize_model(v)->Object_0;
            assert forall|i: int| 0 <= i < out.len() implies !is_checksum_field(
                (#[trigger] out[i]).0,
                out[i].1,
            ) && is_normal(out[i].1) by {
                if !is_checksum_field(fields[i].0, fields[i].1) {
                    lemma_normalize_is_normal(fields[i].1);
                    lemma_normalize_keeps_byte_arrays(fields[i].1);
                }
            }
        },
        JsonModel::Array(items) => {
            let out = normalize_model(v)->Array_0;
            assert forall|i: int| 0 <= i < out.len() implies is_normal(#[trigger] out[i]) by {
                lemma_normalize_is_normal(items[i]);
            }
        },
        _ => {},
    }
}

/// Normalization neither makes nor unmakes an array of bytes.
pub proof fn lemma_normalize_keeps_byte_arrays(v: JsonModel)
    ensures
        is_byte_array(normalize_model(v)) == is_byte_array(v),
{
    match v {
        JsonModel::Array(items) => {
            let out = normalize_model(v)->Array_0;
            reveal_with_fuel(normalize_model, 2);
            assert forall|i: int| 0 <= i < items.len() implies ((#[trigger] out[i]) is Number) == (
            items[i] is Number) && (items[i] is Number ==> out[i] == items[i]) by {}
            if is_byte_array(v) {
                assert forall|i: int| 0 <= i < out.len() implies is_byte_item(
                    #[trigger] out[i],
                ) by {
                    assert(is_byte_item(items[i]));
                }
            } else {
                let i = choose|i: int|
                    0 <= i < items.len() && !is_byte_item(#[trigger] items[i]);
                assert(!is_byte_item(out[i]));
            }
        },
        _ => {},
    }
}

/// Normalizing twice gives what normalizing once gives.
pub proof fn lemma_normalize_idempotent(v: JsonModel)
    ensures
        normalize_model(normalize_model(v)) == normalize_model(v),
{
    lemma_normalize_is_normal(v);
    lemma_normal_unchanged(normalize_model(v));
}

/// A document without any field named `checksum` is in normal form.
pub proof fn lemma_without_checksum_is_normal(v: JsonModel)
    requires
        !mentions_checksum(v),
    ensures
        is_normal(v),
    decreases v,
{
    match v {
        JsonModel::Object(fields) => {
            assert forall|i: int| 0 <= i < fields.len() implies !is_checksum_field(
                (#[trigger] fields[i]).0,
                fields[i].1,
            ) && is_normal(fields[i].1) by {
                assert(!(fields[i].0 == checksum_key() || mentions_checksum(fields[i].1)));
                lemma_without_checksum_is_normal(fields[i].1);
            }
        },
        JsonModel::Array(items) => {
            assert forall|i: int| 0 <= i < items.len() implies is_normal(#[trigger] items[i]) by {
                assert(!mentions_checksum(items[i]));
                lemma_without_checksum_is_normal(items[i]);
            }
        },
        _ => {},
    }
}

/// On a document without any field named `checksum`, normalization is the
/// identity.
pub proof fn lemma_without_checksum_unchanged(v: JsonModel)
    requires
        !mentions_checksum(v),
    ensures
        normalize_model(v) == v,
{
    lemma_without_checksum_is_normal(v);
    lemma_normal_unchanged(v);
}

/// A document whose one field `checksum` holds the bytes `bytes` becomes
/// the document whose `checksum` is their hexadecimal text: twice as many
/// characters as there are bytes, each a lowercase hexadecimal digit.
pub proof fn lemma_checksum_becomes_hex(bytes: Seq<u8>)
    ensures
        normalize_model(record(checksum_key(), byte_array(bytes))) == record(
            checksum_key(),
            JsonModel::String(hex_text(bytes)),
        ),
        hex_text(bytes).len() == 2 * bytes.len(),
        forall|i: int| 0 <= i < hex_text(bytes).len() ==> is_lower_hex(#[trigger] hex_text(bytes)[i]),
{
    lemma_hex_text_shape(bytes);
    let doc = record(checksum_key(), byte_array(bytes));
    assert(is_byte_array(byte_array(bytes)));
    assert(bytes_of(byte_array(bytes)) =~= bytes);
    assert(normalize_model(doc)->Object_0 =~= seq![
        (checksum_key(), JsonModel::String(hex_text(bytes))),
    ]);
}

/// A `checksum` field whose value is not an array of bytes is not turned
/// into text: it holds the normalized form of its value, which is the
/// value itself where that is in normal form (a string, say, or an array
/// of numbers one of which is above 255).
pub proof fn lemma_other_checksum_kept(value: JsonModel)
    requires
        !is_byte_array(value),
    ensures
        normalize_model(record(checksum_key(), value)) == record(
            checksum_key(),
            normalize_model(value),
        ),
        is_normal(value) ==> normalize_model(record(checksum_key(), value)) == record(
            checksum_key(),
            value,
        ),
{
    assert(normalize_model(record(checksum_key(), value))->Object_0 =~= seq![
        (checksum_key(), normalize_model(value)),
    ]);
    if is_normal(value) {
        lemma_normal_unchanged(value);
    }
}

/// Normalization keeps the outline of a document: the kind of value, the
/// number of elements of an array, and the fields' names and number in an
/// object.
pub proof fn lemma_normalize_keeps_outline(v: JsonModel)
    ensures
        match v {
            JsonModel::Object(fields) => {
                &&& normalize_model(v) is Object
                &&& normalize_model(v)->Object_0.len() == fields.len()
                &&& forall|i: int|
                    0 <= i < fields.len() ==> (#[trigger] normalize_model(v)->Object_0[i]).0
                        == fields[i].0
            },
            JsonModel::Array(items) => {
                &&& normalize_model(v) is Array
                &&& normalize_model(v)->Array_0.len() == items.len()
            },
            _ => normalize_model(v) == v,
        },
{
}

/// Normalization reaches through every level of nesting: inside an array
/// each element is normalized, and inside an object each field that is
/// not itself rewritten.
pub proof fn lemma_normalize_nested(v: JsonModel)
    ensures
        match v {
            JsonModel::Object(fields) => forall|i: int|
                0 <= i < fields.len() && !is_checksum_field(fields[i].0, fields[i].1) ==> (
                #[trigger] normalize_model(v)->Object_0[i]).1 == normalize_model(fields[i].1),
            JsonModel::Array(items) => forall|i: int|
                0 <= i < items.len() ==> #[trigger] normalize_model(v)->Array_0[i]
                    == normalize_model(items[i]),
            _ => true,
        },
{
}

/// Whether no two documents of `docs` have the same key.
pub open spec fn distinct_keys(docs: Seq<(Seq<char>, Option<JsonModel>)>) -> bool {
    forall|i: int, j: int|
        0 <= i < j < docs.len() ==> (#[trigger] docs[i]).0 != (#[trigger] docs[j]).0
}

/// Each document of `docs` in its shown form, under its key and in its
/// place.
pub open spec fn shown(docs: Seq<(Seq<char>, Option<JsonModel>)>) -> Seq<(Seq<char>, JsonModel)> {
    Seq::new(docs.len(), |i: int| (docs[i].0, document_model(docs[i].1)))
}

/// Where no two documents have the same key, the object that collects
/// them has one field for each, in their order, and each document is
/// normalized by itself.
pub proof fn lemma_collected_distinct(docs: Seq<(Seq<char>, Option<JsonModel>)>)
    requires
        distinct_keys(docs),
    ensures
        collected(docs) == shown(docs),
    decreases docs.len(),
{
    if docs.len() == 0 {
        assert(collected(docs) =~= shown(docs));
    } else {
        let rest = docs.drop_last();
        assert(distinct_keys(rest)) by {
            assert forall|i: int, j: int| 0 <= i < j < rest.len() implies (#[trigger] rest[i]).0 != (
            #[trigger] rest[j]).0 by {
                assert(rest[i] == docs[i] && rest[j] == docs[j]);
            }
        }
        lemma_collected_distinct(rest);
        let last = docs.len() - 1;
        assert(!has_key(shown(rest), docs.last().0)) by {
            if has_key(shown(rest), docs.last().0) {
                let i = choose|i: int|
                    0 <= i < shown(rest).len() && (#[trigger] shown(rest)[i]).0 == docs.last().0;
                assert(docs[i].0 != docs[last].0);
            }
        }
        assert(collected(docs) =~= shown(docs));
    }
}

/// The object that collects documents never has two fields of one name,
/// and has a field of a name exactly where some document has that key.
pub proof fn lemma_collected_keys(docs: Seq<(Seq<char>, Option<JsonModel>)>)
    ensures
        forall|i: int, j: int|
            0 <= i < j < collected(docs).len() ==> (#[trigger] collected(docs)[i]).0 != (
            #[trigger] collected(docs)[j]).0,
        forall|key: Seq<char>| #[trigger]
            has_key(collected(docs), key) <==> exists|i: int|
                0 <= i < docs.len() && (#[trigger] docs[i]).0 == key,
    decreases docs.len(),
{
    if docs.len() == 0 {
    } else {
        let rest = docs.drop_last();
        lemma_collected_keys(rest);
        let before = collected(rest);
        let after = collected(docs);
        let key = docs.last().0;
        if has_key(before, key) {
            let c = choose|c: int| is_first_at(before, key, c);
            let w = choose|w: int| 0 <= w < before.len() && (#[trigger] before[w]).0 == key;
            lemma_first_exists(before, key, w);
            assert(after =~= before.update(c, (key, document_model(docs.last().1))));
            assert(forall|i: int| 0 <= i < after.len() ==> (#[trigger] after[i]).0 == before[i].0);
        } else {
            assert(after =~= before.push((key, document_model(docs.last().1))));
            assert(forall|i: int| 0 <= i < before.len() ==> (#[trigger] after[i]).0 == before[i].0);
            assert(after[before.len() as int].0 == key);
        }
        assert forall|i: int, j: int| 0 <= i < j < after.len() implies (#[trigger] after[i]).0 != (
        #[trigger] after[j]).0 by {
            if j < before.len() {
                assert(before[i].0 != before[j].0);
            } else {
                assert(before[i].0 == after[i].0);
            }
        }
        assert forall|k: Seq<char>| #[trigger]
            has_key(after, k) <==> exists|i: int|
                0 <= i < docs.len() && (#[trigger] docs[i]).0 == k by {
            if has_key(after, k) {
                let a = choose|a: int| 0 <= a < after.len() && (#[trigger] after[a]).0 == k;
                if k == key {
                    assert(docs[docs.len() - 1].0 == k);
                } else {
                    assert(before[a].0 == k);
                    assert(has_key(before, k));
                    let i = choose|i: int| 0 <= i < rest.len() && (#[trigger] rest[i]).0 == k;
                    assert(docs[i].0 == k);
                }
            }
            if exists|i: int| 0 <= i < docs.len() && (#[trigger] docs[i]).0 == k {
                let i = choose|i: int| 0 <= i < docs.len() && (#[trigger] docs[i]).0 == k;
                if k == key {
                    if has_key(before, key) {
                        let c = choose|c: int| is_first_at(before, key, c);
                        assert(after[c].0 == k);
                    } else {
                        assert(after[before.len() as int].0 == k);
                    }
                } else {
                    assert(rest[i].0 == k);
                    assert(has_key(before, k));
                    let b = choose|b: int| 0 <= b < before.len() && (#[trigger] before[b]).0 == k;
                    assert(after[b].0 == k);
                }
            }
        }
    }
}

/// Where a field of some name exists, a first one exists.
pub proof fn lemma_first_exists(fields: Seq<(Seq<char>, JsonModel)>, key: Seq<char>, at: int)
    requires
        0 <= at < fields.len(),
        fields[at].0 == key,
    ensures
        exists|c: int| is_first_at(fields, key, c),
    decreases at,
{
    if exists|j: int| 0 <= j < at && (#[trigger] fields[j]).0 == key {
        let j = choose|j: int| 0 <= j < at && (#[trigger] fields[j]).0 == key;
        lemma_first_exists(fields, key, j);
    } else {
        assert(is_first_at(fields, key, at));
    }
}

/// A run ends with each action that shows a document or reports a
/// failure, and with no other; it ends with status 0 exactly where a
/// document is shown.
pub proof fn lemma_run_ends(action: ActionModel)
    ensures
        phase_after(action) == Phase::Finished <==> exit_code_model(action).is_some(),
        exit_code_model(action) == Some(0u8) <==> action is Emit,
        exit_code_model(action) == Some(1u8) <==> action is Fail,
{
}

/// Whatever the query and the phase, a failure of the store ends the run
/// as a failure: nothing is shown.
pub proof fn lemma_store_failure_fails(query: QueryModel, phase: Phase, detail: Seq<char>)
    ensures
        next_action(query, phase, EventModel::Failed(detail)) is Fail,
        exit_code_model(next_action(query, phase, EventModel::Failed(detail))) == Some(1u8),
{
}

/// A run for all keys shows documents only after both the enumeration and
/// the fetch have been answered: an event shows a document only in the
/// phase that waits for that document.
pub proof fn lemma_emit_only_on_documents(query: QueryModel, phase: Phase, event: EventModel)
    requires
        next_action(query, phase, event) is Emit,
    ensures
        query is Single ==> phase == Phase::FetchingOne && event is Found,
        query is All ==> phase == Phase::FetchingAll && event is Documents,
{
}

} // verus!
