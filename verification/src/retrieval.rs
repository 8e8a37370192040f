//! The decisions of a retrieval run. A run asks the metadata store for one
//! document or for all of them; what the store answers comes back as an
//! event, and each event decides the next request, the document to print,
//! or the failure to report.

use vstd::prelude::*;
use vstd::string::StringExecFns;
use crate::json::{fields_model, lemma_object_view, JsonModel, JsonValue};
use crate::normalize::{normalize, normalize_model};

verus! {

/// What a run is asked for: the document of one key, or every document.
#[derive(Debug, PartialEq, Eq)]
pub enum Query {
    Single(String),
    All,
}

/// The model of a query: its key by its view.
pub enum QueryModel {
    Single(Seq<char>),
    All,
}

impl View for Query {
    type V = QueryModel;

    open spec fn view(&self) -> QueryModel {
        match *self {
            Query::Single(key) => QueryModel::Single(key@),
            Query::All => QueryModel::All,
        }
    }
}

/// Where a run stands: which answer of the store it waits for.
#[derive(Clone, Copy, Debug, PartialEq, Eq, Structural)]
pub enum Phase {
    FetchingOne,
    Enumerating,
    FetchingAll,
    Finished,
}

/// Why a run failed. Each variant but the last carries the key or the
/// store's own words.
#[derive(Debug, PartialEq, Eq)]
pub enum Failure {
    NotFound(String),
    Fetch(String),
    Enumerate(String),
    FetchAll(String),
    OutOfTurn,
}

/// The model of a failure: its text by its view.
pub enum FailureModel {
    NotFound(Seq<char>),
    Fetch(Seq<char>),
    Enumerate(Seq<char>),
    FetchAll(Seq<char>),
    OutOfTurn,
}

impl View for Failure {
    type V = FailureModel;

    open spec fn view(&self) -> FailureModel {
        match *self {
            Failure::NotFound(key) => FailureModel::NotFound(key@),
            Failure::Fetch(detail) => FailureModel::Fetch(detail@),
            Failure::Enumerate(detail) => FailureModel::Enumerate(detail@),
            Failure::FetchAll(detail) => FailureModel::FetchAll(detail@),
            Failure::OutOfTurn => FailureModel::OutOfTurn,
        }
    }
}

/// What the store answered. A document arrives as the JSON tree it
/// serializes to, or as `None` where it could not be serialized.
#[derive(Debug, PartialEq, Eq)]
pub enum Event {
    Found(Option<JsonValue>),
    Missing,
    Keys(Vec<String>),
    Documents(Vec<(String, Option<JsonValue>)>),
    Failed(String),
}

/// The model of an event: each key, text and document by its view.
pub enum EventModel {
    Found(Option<JsonModel>),
    Missing,
    Keys(Seq<Seq<char>>),
    Documents(Seq<(Seq<char>, Option<JsonModel>)>),
    Failed(Seq<char>),
}

/// The model of a serialized document.
pub open spec fn serialized_model(doc: Option<JsonValue>) -> Option<JsonModel> {
    match doc {
        Some(v) => Some(v@),
        None => None,
    }
}

/// The model of a list of keyed documents.
pub open spec fn documents_model(docs: Seq<(String, Option<JsonValue>)>) -> Seq<
    (Seq<char>, Option<JsonModel>),
> {
    Seq::new(docs.len(), |i: int| (docs[i].0@, serialized_model(docs[i].1)))
}

impl View for Event {
    type V = EventModel;

    open spec fn view(&self) -> EventModel {
        match *self {
            Event::Found(doc) => EventModel::Found(serialized_model(doc)),
            Event::Missing => EventModel::Missing,
            Event::Keys(keys) => EventModel::Keys(Seq::new(keys@.len(), |i: int| keys@[i]@)),
            Event::Documents(docs) => EventModel::Documents(documents_model(docs@)),
            Event::Failed(detail) => EventModel::Failed(detail@),
        }
    }
}

/// What the caller does next: ask the store for one document, for the
/// list of all keys (unfiltered and unbounded) or for all documents, print
/// a document and end with success, or report a failure and end without
/// printing.
#[derive(Debug, PartialEq, Eq)]
pub enum Action {
    FetchOne(String),
    EnumerateKeys,
    FetchAll,
    Emit(JsonValue),
    Fail(Failure),
}

/// The model of an action: its key, document or failure by its view.
pub enum ActionModel {
    FetchOne(Seq<char>),
    EnumerateKeys,
    FetchAll,
    Emit(JsonModel),
    Fail(FailureModel),
}

impl View for Action {
    type V = ActionModel;

    open spec fn view(&self) -> ActionModel {
        match *self {
            Action::FetchOne(key) => ActionModel::FetchOne(key@),
            Action::EnumerateKeys => ActionModel::EnumerateKeys,
            Action::FetchAll => ActionModel::FetchAll,
            Action::Emit(doc) => ActionModel::Emit(doc@),
            Action::Fail(failure) => ActionModel::Fail(failure@),
        }
    }
}

/// The document that is shown for a serialized one: its normalized form,
/// or null where it could not be serialized.
pub open spec fn document_model(doc: Option<JsonModel>) -> JsonModel {
    match doc {
        Some(v) => normalize_model(v),
        None => JsonModel::Null,
    }
}

/// Whether some field of `fields` is named `key`.
pub open spec fn has_key(fields: Seq<(Seq<char>, JsonModel)>, key: Seq<char>) -> bool {
    exists|i: int| 0 <= i < fields.len() && (#[trigger] fields[i]).0 == key
}

/// Whether `i` is the place of the first field of `fields` named `key`.
pub open spec fn is_first_at(fields: Seq<(Seq<char>, JsonModel)>, key: Seq<char>, i: int) -> bool {
    &&& 0 <= i < fields.len()
    &&& fields[i].0 == key
    &&& forall|j: int| 0 <= j < i ==> (#[trigger] fields[j]).0 != key
}

/// `fields` with `key` set to `value`: the first field of that name gets
/// the value and keeps its place; where there is none, the field is added
/// at the end.
pub open spec fn upsert_model(
    fields: Seq<(Seq<char>, JsonModel)>,
    key: Seq<char>,
    value: JsonModel,
) -> Seq<(Seq<char>, JsonModel)> {
    if has_key(fields, key) {
        fields.update(choose|i: int| is_first_at(fields, key, i), (key, value))
    } else {
        fields.push((key, value))
    }
}

/// The fields of the object that holds every document of `docs` under its
/// key: the documents are entered one after the other, each in its shown
/// form.
pub open spec fn collected(docs: Seq<(Seq<char>, Option<JsonModel>)>) -> Seq<
    (Seq<char>, JsonModel),
>
    decreases docs.len(),
{
    if docs.len() == 0 {
        Seq::empty()
    } else {
        upsert_model(collected(docs.drop_last()), docs.last().0, document_model(docs.last().1))
    }
}

/// The phase in which an action leaves the run: waiting for the answer
/// to a request, or finished.
pub open spec fn phase_after(action: ActionModel) -> Phase {
    match action {
        ActionModel::FetchOne(_) => Phase::FetchingOne,
        ActionModel::EnumerateKeys => Phase::Enumerating,
        ActionModel::FetchAll => Phase::FetchingAll,
        ActionModel::Emit(_) => Phase::Finished,
        ActionModel::Fail(_) => Phase::Finished,
    }
}

/// The request that opens a run.
pub open spec fn first_action(query: QueryModel) -> ActionModel {
    match query {
        QueryModel::Single(key) => ActionModel::FetchOne(key),
        QueryModel::All => ActionModel::EnumerateKeys,
    }
}

/// The action that follows an event.
///
/// For one key: a document is shown, a missing one is reported with the
/// key, a failure of the store is reported with its words. For all keys:
/// once the keys are enumerated the documents are fetched, whatever keys
/// came; the documents that arrive are shown as one object; a failure of
/// either request is reported. An event that the phase does not wait for
/// ends the run as a failure.
pub open spec fn next_action(query: QueryModel, phase: Phase, event: EventModel) -> ActionModel {
    match (query, phase, event) {
        (QueryModel::Single(_), Phase::FetchingOne, EventModel::Found(doc)) => ActionModel::Emit(
            document_model(doc),
        ),
        (QueryModel::Single(key), Phase::FetchingOne, EventModel::Missing) => ActionModel::Fail(
            FailureModel::NotFound(key),
        ),
        (QueryModel::Single(_), Phase::FetchingOne, EventModel::Failed(detail)) => ActionModel::Fail(
            FailureModel::Fetch(detail),
        ),
        (QueryModel::All, Phase::Enumerating, EventModel::Keys(_)) => ActionModel::FetchAll,
        (QueryModel::All, Phase::Enumerating, EventModel::Failed(detail)) => ActionModel::Fail(
            FailureModel::Enumerate(detail),
        ),
        (QueryModel::All, Phase::FetchingAll, EventModel::Documents(docs)) => ActionModel::Emit(
            JsonModel::Object(collected(docs)),
        ),
        (QueryModel::All, Phase::FetchingAll, EventModel::Failed(detail)) => ActionModel::Fail(
            FailureModel::FetchAll(detail),
        ),
        _ => ActionModel::Fail(FailureModel::OutOfTurn),
    }
}

/// The text that reports a failure.
pub open spec fn message_model(failure: FailureModel) -> Seq<char> {
    match failure {
        FailureModel::NotFound(key) => "No metadata found for file: "@ + key,
        FailureModel::Fetch(detail) => "Error: "@ + detail,
        FailureModel::Enumerate(detail) => "Error scanning keys: "@ + detail,
        FailureModel::FetchAll(detail) => "Error retrieving metadata for all files: "@ + detail,
        FailureModel::OutOfTurn => "Error: unexpected answer from the metadata store"@,
    }
}

/// The query that the arguments ask for: every document where `all` is
/// set, else the document of `file`; none where neither is given.
pub open spec fn query_of(file: Option<Seq<char>>, all: bool) -> Option<QueryModel> {
    if all {
        Some(QueryModel::All)
    } else {
        match file {
            Some(key) => Some(QueryModel::Single(key)),
            None => None,
        }
    }
}

impl Query {
    /// Chooses the query from the arguments of a run.
    pub fn from_arguments(file: Option<String>, all: bool) -> (out: Option<Query>)
        ensures
            match query_of(
                match file {
                    Some(key) => Some(key@),
                    None => None,
                },
                all,
            ) {
                Some(q) => out.is_some() && out.unwrap()@ == q,
                None => out.is_none(),
            },
    {
        if all {
            Some(Query::All)
        } else {
            match file {
                Some(key) => Some(Query::Single(key)),
                None => None,
            }
        }
    }
}

impl Failure {
    /// The text that reports this failure.
    pub fn message(&self) -> (out: String)
        ensures
            out@ == message_model(self@),
    {
        match self {
            Failure::NotFound(key) => String::from_str("No metadata found for file: ").concat(
                key.as_str(),
            ),
            Failure::Fetch(detail) => String::from_str("Error: ").concat(detail.as_str()),
            Failure::Enumerate(detail) => String::from_str("Error scanning keys: ").concat(
                detail.as_str(),
            ),
            Failure::FetchAll(detail) => String::from_str(
                "Error retrieving metadata for all files: ",
            ).concat(detail.as_str()),
            Failure::OutOfTurn => String::from_str(
                "Error: unexpected answer from the metadata store",
            ),
        }
    }
}

/// The exit status with which an action ends the run: 0 after a document
/// was shown, 1 after a failure; none while the run goes on.
pub open spec fn exit_code_model(action: ActionModel) -> Option<u8> {
    match action {
        ActionModel::Emit(_) => Some(0u8),
        ActionModel::Fail(_) => Some(1u8),
        _ => None,
    }
}

impl Action {
    /// The exit status with which this action ends the run, if it ends it.
    pub fn exit_code(&self) -> (out: Option<u8>)
        ensures
            out == exit_code_model(self@),
    {
        match self {
            Action::Emit(_) => Some(0),
            Action::Fail(_) => Some(1),
            _ => None,
        }
    }
}

/// Turns a serialized document into the document that is shown: its
/// normalized form, or null where it could not be serialized.
pub fn metadata_to_json(serialized: &Option<JsonValue>) -> (out: JsonValue)
    ensures
        out@ == document_model(serialized_model(*serialized)),
{
    match serialized {
        Some(value) => normalize(value),
        None => JsonValue::Null,
    }
}

/// Sets `key` to `value` in `fields`: the first field of that name gets
/// the value, or a new field is added at the end.
pub fn upsert(fields: &mut Vec<(String, JsonValue)>, key: String, value: JsonValue)
    ensures
        fields_model(final(fields)@) == upsert_model(fields_model(old(fields)@), key@, value@),
{
    let ghost before = fields_model(fields@);
    let mut i: usize = 0;
    while i < fields.len()
        invariant
            i <= fields.len(),
            fields@ == old(fields)@,
            before == fields_model(fields@),
            forall|j: int| 0 <= j < i ==> (#[trigger] before[j]).0 != key@,
        decreases fields.len() - i,
    {
        if fields[i].0 == key {
            proof {
                assert(before[i as int].0 == key@);
                assert(is_first_at(before, key@, i as int));
                let c = choose|c: int| is_first_at(before, key@, c);
                assert(c == i) by {
                    if c < i {
                        assert(before[c].0 != key@);
                    }
                    if i < c {
                        assert(before[i as int].0 == key@);
                    }
                }
            }
            fields.set(i, (key, value));
            assert(fields_model(fields@) =~= upsert_model(before, key@, value@));
            return ;
        }
        i += 1;
    }
    fields.push((key, value));
    proof {
        assert(!has_key(before, key@));
        assert(fields_model(fields@) =~= upsert_model(before, key@, value@));
    }
}

/// Builds the object that holds every document of `docs` under its key,
/// each in its shown form.
pub fn assemble(docs: &Vec<(String, Option<JsonValue>)>) -> (out: JsonValue)
    ensures
        out@ == JsonModel::Object(collected(documents_model(docs@))),
{
    let mut fields: Vec<(String, JsonValue)> = Vec::new();
    let mut i: usize = 0;
    proof {
        assert(documents_model(docs@).subrange(0, 0) =~= Seq::empty());
        assert(fields_model(fields@) =~= Seq::empty());
    }
    while i < docs.len()
        invariant
            i <= docs.len(),
            fields_model(fields@) == collected(documents_model(docs@).subrange(0, i as int)),
        decreases docs.len() - i,
    {
        let key = docs[i].0.clone();
        let value = metadata_to_json(&docs[i].1);
        proof {
            let all = documents_model(docs@);
            let next = all.subrange(0, i + 1);
            assert(next.drop_last() =~= all.subrange(0, i as int));
            assert(next.last() == all[i as int]);
        }
        upsert(&mut fields, key, value);
        i += 1;
    }
    proof {
        assert(documents_model(docs@).subrange(0, i as int) =~= documents_model(docs@));
        lemma_object_view(fields);
    }
    JsonValue::Object(fields)
}

/// Opens a run: the first request, and the phase that waits for its
/// answer.
pub fn start(query: &Query) -> (out: (Phase, Action))
    ensures
        out.1@ == first_action(query@),
        out.0 == phase_after(out.1@),
{
    match query {
        Query::Single(key) => (Phase::FetchingOne, Action::FetchOne(key.clone())),
        Query::All => (Phase::Enumerating, Action::EnumerateKeys),
    }
}

/// Takes the store's answer and decides how the run goes on.
pub fn step(query: &Query, phase: Phase, event: Event) -> (out: (Phase, Action))
    ensures
        out.1@ == next_action(query@, phase, event@),
        out.0 == phase_after(out.1@),
{
    match (query, phase, event) {
        (Query::Single(_), Phase::FetchingOne, Event::Found(doc)) => (
            Phase::Finished,
            Action::Emit(metadata_to_json(&doc)),
        ),
        (Query::Single(key), Phase::FetchingOne, Event::Missing) => (
            Phase::Finished,
            Action::Fail(Failure::NotFound(key.clone())),
        ),
        (Query::Single(_), Phase::FetchingOne, Event::Failed(detail)) => (
            Phase::Finished,
            Action::Fail(Failure::Fetch(detail)),
        ),
        (Query::All, Phase::Enumerating, Event::Keys(_)) => (Phase::FetchingAll, Action::FetchAll),
        (Query::All, Phase::Enumerating, Event::Failed(detail)) => (
            Phase::Finished,
            Action::Fail(Failure::Enumerate(detail)),
        ),
        (Query::All, Phase::FetchingAll, Event::Documents(docs)) => (
            Phase::Finished,
            Action::Emit(assemble(&docs)),
        ),
        (Query::All, Phase::FetchingAll, Event::Failed(detail)) => (
            Phase::Finished,
            Action::Fail(Failure::FetchAll(detail)),
        ),
        _ => (Phase::Finished, Action::Fail(Failure::OutOfTurn)),
    }
}

} // verus!
