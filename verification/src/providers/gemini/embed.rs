//! Gemini's `batchEmbedContents` API.
//!
//! # Three things this shape does that the OpenAI one does not
//!
//! **It has a place for [`Purpose`].** `taskType` distinguishes text being stored from text
//! being searched with, and the two are meant to be used together: a query vector is built to
//! land near the documents that answer it.
//!
//! **Its reply carries no index.** OpenAI sends one on every row and this crate lines up by it.
//! There is nothing to line up by here: `batchEmbedContents` answers an array whose order *is*
//! the promise. So the check that remains is the count, and it is the one that matters: `n`
//! requests that come back as anything other than `n` embeddings cannot be lined up with their
//! inputs at all, and every vector after the gap would be filed under the wrong text.
//!
//! **It reports no usage.** No token block, in either the batch or the single form. So every
//! call answers [`crate::Usage::absent`], and a [`crate::Ledger`] holding one says "at least"
//! for the whole run.
//!
//! # The model name is written twice
//!
//! Once in the path and once inside every element of the batch, because this API requires it
//! in both places and rejects a request carrying only one. Both are written from the same
//! [`crate::ModelId`], so they cannot disagree.

use crate::cost::usage::Usage;
use crate::embed::{
    find_wrong_width, known_of, no_other_width_is_one_width, numbers_in, read_numbers,
    refuse_early, refused_early, wrong_width, EmbedRequest, Embedding, EmbeddingCapabilities,
    Embeddings, Purpose, Vector, Vectors, Wanted,
};
use crate::error::{outcome, Error, Failure};
use crate::json::{json_text, trees, Json, Tree};
use crate::model::{ModelId, Reach};
use crate::order::Table;
use crate::provider::{doubt, doubt_or_refusal, Access, Answer};
use crate::providers::api::{document_in, read_document, written};
use crate::providers::wire::{key_not_text, key_text};
use crate::secret::{Credential, Secret};
use crate::text::{decimal, decimal_text, followed_by, trim_end_matches, without_trailing};
use crate::transport::{HttpRequest, HttpResponse, Method, Received, Sent};
use vstd::prelude::*;
use vstd::utf8::*;

verus! {

/// Google's own endpoint, the same one [`super::api`] uses.
pub const DEFAULT_BASE_URL: &'static str = "https://generativelanguage.googleapis.com/v1beta";

/// Gemini's embeddings API.
///
/// Immutable once built, so one instance serves any number of concurrent calls with nothing to
/// contend on.
pub struct GeminiEmbeddings {
    base_url: String,
    key: Secret,
    known: Table<EmbeddingCapabilities>,
}

/// What [`GeminiEmbeddings`] hold.
#[verifier::ext_equal]
pub struct BatchEndpoint {
    pub base_url: Seq<char>,
    pub key: Credential,
    pub known: Map<Seq<char>, EmbeddingCapabilities>,
}

impl DeepView for GeminiEmbeddings {
    type V = BatchEndpoint;

    closed spec fn deep_view(&self) -> BatchEndpoint {
        BatchEndpoint { base_url: self.base_url@, key: self.key@, known: self.known@ }
    }
}

/// How this API spells a purpose.
pub open spec fn task_of(purpose: Purpose) -> Seq<char> {
    match purpose {
        Purpose::Document => "RETRIEVAL_DOCUMENT"@,
        Purpose::Query => "RETRIEVAL_QUERY"@,
    }
}

/// How this API spells a [`Purpose`].
///
/// Only the two the crate has. `taskType` has more values (classification, clustering,
/// similarity) and adding one here without a caller who needs it would be guessing at what
/// somebody meant.
pub fn task_type(purpose: Purpose) -> (task: &'static str)
    ensures
        task@ == task_of(purpose),
{
    match purpose {
        Purpose::Document => "RETRIEVAL_DOCUMENT",
        Purpose::Query => "RETRIEVAL_QUERY",
    }
}

/// One element of a batch. It names the model again, and says what the text is for only where
/// the caller did.
pub open spec fn element_of(wanted: Wanted, text: Seq<char>) -> Tree {
    let base = Tree::empty_object().with("model"@, Tree::Text("models/"@ + wanted.model)).with(
        "content"@,
        Tree::empty_object().with(
            "parts"@,
            Tree::Array(seq![Tree::empty_object().with("text"@, Tree::Text(text))]),
        ),
    );
    let base = match wanted.purpose {
        Some(purpose) => base.with("taskType"@, Tree::Text(task_of(purpose))),
        None => base,
    };
    match wanted.dimensions {
        Some(dimensions) => base.with("outputDimensionality"@, Tree::Integer(dimensions as int)),
        None => base,
    }
}

/// The elements of a batch, one per input.
pub open spec fn elements_of(wanted: Wanted) -> Seq<Tree> {
    Seq::new(wanted.inputs.len(), |i: int| element_of(wanted, wanted.inputs[i]))
}

/// A request as this shape writes it.
pub open spec fn batch_body(wanted: Wanted) -> Tree {
    Tree::empty_object().with("requests"@, Tree::Array(elements_of(wanted)))
}

/// One row of a reply. The reply does not name what served it, so what is recorded is the model
/// that was asked for.
pub open spec fn row_in(row: Tree, position: nat, model: Seq<char>) -> Result<Vector, Failure> {
    match row.array_at("values"@) {
        None => Err(
            Failure::Unreadable(
                "the embedding at position "@ + decimal(position) + " had no values"@,
            ),
        ),
        Some(items) => match numbers_in(items) {
            None => Err(
                Failure::Unreadable(
                    "the vector at position "@ + decimal(position)
                        + " held something that was not a number"@,
                ),
            ),
            Some(numbers) => Ok(Vector { model, numbers }),
        },
    }
}

/// The rows of a reply, or what is wrong with the first that is wrong.
pub open spec fn rows_in(rows: Seq<Tree>, model: Seq<char>) -> Result<Seq<Vector>, Failure>
    decreases rows.len(),
{
    if rows.len() == 0 {
        Ok(Seq::empty())
    } else {
        match rows_in(rows.drop_last(), model) {
            Err(why) => Err(why),
            Ok(before) => match row_in(rows.last(), (rows.len() - 1) as nat, model) {
                Err(why) => Err(why),
                Ok(row) => Ok(before.push(row)),
            },
        }
    }
}

/// The vectors that a document gives.
pub open spec fn vectors_in(body: Tree, wanted: Wanted) -> Result<Vectors, Failure> {
    match body.array_at("embeddings"@) {
        None => Err(Failure::Unreadable("the reply had no embeddings array"@)),
        Some(rows) => if rows.len() != wanted.inputs.len() {
            Err(
                Failure::Unreadable(
                    decimal(wanted.inputs.len()) + " inputs were sent and "@ + decimal(rows.len())
                        + " vectors came back. This API carries no index, so position is all there is and nothing can be lined up"@,
                ),
            )
        } else {
            match rows_in(rows, wanted.model) {
                Err(why) => Err(why),
                Ok(vectors) => match wrong_width(wanted.dimensions, vectors) {
                    Some((got, asked)) => Err(
                        Failure::Unsupported(
                            "gemini-embeddings: vectors came back with "@ + decimal(got)
                                + " dimensions after "@ + decimal(asked)
                                + " were asked for, so "@ + wanted.model + " does not resize"@,
                        ),
                    ),
                    None => Ok(
                        Vectors { vectors, model: wanted.model, usage: Usage::nothing() },
                    ),
                },
            }
        },
    }
}

impl BatchEndpoint {
    /// What is sent for a request.
    pub open spec fn sent(self, wanted: Wanted) -> Result<Sent, Failure> {
        match refused_early(wanted, known_of(self.known, wanted.model, true)) {
            Some(why) => Err(why),
            None => if valid_utf8(self.key.bytes) {
                Ok(
                    Sent {
                        method: Method::Post,
                        url: self.base_url + "/models/"@ + wanted.model + ":batchEmbedContents"@,
                        headers: seq![
                            ("x-goog-api-key"@, decode_utf8(self.key.bytes)),
                            ("content-type"@, "application/json"@),
                        ],
                        body: encode_utf8(json_text(batch_body(wanted))),
                    },
                )
            } else {
                Err(key_not_text())
            },
        }
    }

    /// The vectors that a reply gives.
    pub open spec fn reply_in(self, reply: Received, wanted: Wanted) -> Result<Vectors, Failure> {
        match document_in(reply) {
            Err(why) => Err(why),
            Ok(body) => vectors_in(body, wanted),
        }
    }

    /// What is asked to find out whether a model can be reached.
    pub open spec fn check_sent(self, model: Seq<char>) -> Result<Sent, Answer> {
        if valid_utf8(self.key.bytes) {
            Ok(
                Sent {
                    method: Method::Get,
                    url: self.base_url + "/models/"@ + model,
                    headers: seq![("x-goog-api-key"@, decode_utf8(self.key.bytes))],
                    body: Seq::empty(),
                },
            )
        } else {
            Err(Answer::Denied("gemini-embeddings"@ + ": "@ + key_not_text().line()))
        }
    }
}

/// What the outcome of a check says.
pub open spec fn check_answer(outcome: Result<Received, Failure>) -> Answer {
    match outcome {
        Err(why) => doubt("gemini-embeddings"@, why),
        Ok(reply) => match reply.checked() {
            Err(why) => doubt("gemini-embeddings"@, why),
            Ok(_) => Answer::Ready,
        },
    }
}

/// An embedder at Google's endpoint, with a key you supply.
///
/// It knows no models to begin with. Add what you have checked with
/// [`GeminiEmbeddings::knowing`].
///
/// The reach is [`Reach::FirstPartyApi`] and is not a parameter. Unlike the OpenAI shape,
/// which a dozen vendors and a laptop all speak, this endpoint is Google's.
pub fn with(key: Secret) -> (embedder: GeminiEmbeddings)
    ensures
        embedder.deep_view() == (BatchEndpoint {
            base_url: "https://generativelanguage.googleapis.com/v1beta"@,
            key: key@,
            known: Map::empty(),
        }),
{
    GeminiEmbeddings { base_url: DEFAULT_BASE_URL.to_owned(), key, known: Table::new() }
}

/// Writes one element of a batch.
fn write_element(request: &EmbedRequest, text: &str) -> (json: Json)
    ensures
        json.tree() == element_of(request.deep_view(), text@),
{
    let mut parts: Vec<Json> = Vec::new();
    parts.push(Json::object().with("text", Json::text(text)));
    assert(trees(parts@) == seq![Tree::empty_object().with("text"@, Tree::Text(text@))]);
    let mut one = Json::object().with(
        "model",
        Json::text(followed_by("models/", request.model.as_str()).as_str()),
    ).with("content", Json::object().with("parts", Json::Array(parts)));
    if let Some(purpose) = request.purpose {
        one = one.with("taskType", Json::text(task_type(purpose)));
    }
    if let Some(dimensions) = request.dimensions {
        one = one.with("outputDimensionality", Json::Unsigned(dimensions as u64));
    }
    one
}

/// Writes a request.
pub fn write_body(request: &EmbedRequest) -> (body: Json)
    ensures
        body.tree() == batch_body(request.deep_view()),
{
    let ghost wanted = request.deep_view();
    let mut elements: Vec<Json> = Vec::new();
    let mut i: usize = 0;
    while i < request.inputs.len()
        invariant
            i <= request.inputs.len(),
            wanted == request.deep_view(),
            elements.len() == i,
            forall|j: int| 0 <= j < i ==> (#[trigger] elements[j]).tree() == elements_of(wanted)[j],
        decreases request.inputs.len() - i,
    {
        elements.push(write_element(request, request.inputs[i].as_str()));
        assert(wanted.inputs[i as int] == request.inputs[i as int]@);
        i += 1;
    }
    assert(trees(elements@) == elements_of(wanted));
    Json::object().with("requests", Json::Array(elements))
}

/// A row that is wrong, early on, is what is wrong with all of them.
proof fn wrong_further_on(rows: Seq<Tree>, model: Seq<char>, count: int)
    requires
        0 <= count <= rows.len(),
        rows_in(rows.take(count), model) is Err,
    ensures
        rows_in(rows, model) == rows_in(rows.take(count), model),
    decreases rows.len() - count,
{
    if count < rows.len() {
        assert(rows.take(count + 1).drop_last() == rows.take(count));
        wrong_further_on(rows, model, count + 1);
    } else {
        assert(rows.take(count) == rows);
    }
}

/// Reads one row.
fn read_row(row: &Json, position: usize, model: &ModelId) -> (read: Result<Embedding, Error>)
    ensures
        outcome(read) == row_in(row.tree(), position as nat, model@),
{
    let items = match row.array_at("values") {
        Some(items) => items,
        None => {
            return Err(
                Error::Unreadable(
                    followed_by(
                        "the embedding at position ",
                        decimal_text(position as u128).as_str(),
                    ).concat(" had no values"),
                ),
            );
        },
    };
    match read_numbers(items) {
        // The model the caller asked for. This reply does not name what served it, so there is
        // nothing better to record, and recording nothing is not an option: a vector with no
        // model is one that will be compared against a space it does not belong to.
        Some(numbers) => Ok(Embedding::new(model.copied(), numbers)),
        None => Err(
            Error::Unreadable(
                followed_by(
                    "the vector at position ",
                    decimal_text(position as u128).as_str(),
                ).concat(" held something that was not a number"),
            ),
        ),
    }
}

/// Reads the rows of a reply.
fn read_rows(items: &Vec<Json>, model: &ModelId) -> (read: Result<Vec<Embedding>, Error>)
    ensures
        outcome(read) == rows_in(trees(items@), model@),
{
    let ghost all = trees(items@);
    let mut rows: Vec<Embedding> = Vec::new();
    assert(rows.deep_view() == Seq::<Vector>::empty());
    assert(all.take(0) == Seq::<Tree>::empty());
    let mut i: usize = 0;
    while i < items.len()
        invariant
            i <= items.len(),
            all == trees(items@),
            rows_in(all.take(i as int), model@) == Ok::<Seq<Vector>, Failure>(rows.deep_view()),
        decreases items.len() - i,
    {
        proof {
            assert(all.take(i + 1).drop_last() == all.take(i as int));
            assert(all.take(i + 1).last() == items[i as int].tree());
        }
        match read_row(&items[i], i, model) {
            Ok(row) => {
                let ghost before = rows.deep_view();
                rows.push(row);
                assert(rows.deep_view() == before.push(row.deep_view()));
            },
            Err(why) => {
                proof {
                    wrong_further_on(all, model@, i + 1);
                }
                return Err(why);
            },
        }
        i += 1;
    }
    assert(all.take(i as int) == all);
    Ok(rows)
}

/// Reads the vectors that a document gives.
pub fn read_vectors(body: &Json, request: &EmbedRequest) -> (reply: Result<Embeddings, Error>)
    ensures
        outcome(reply) == vectors_in(body.tree(), request.deep_view()),
{
    let rows = match body.array_at("embeddings") {
        Some(rows) => rows,
        None => {
            return Err(Error::Unreadable("the reply had no embeddings array".to_owned()));
        },
    };
    // Before anything is read. This API carries no index, so position is the only thing tying
    // a vector to its text, which makes a count that does not match unrecoverable rather than
    // merely wrong.
    assert(trees(rows@).len() == rows.len());
    if rows.len() != request.inputs.len() {
        return Err(
            Error::Unreadable(
                decimal_text(request.inputs.len() as u128).concat(
                    " inputs were sent and ",
                ).concat(decimal_text(rows.len() as u128).as_str()).concat(
                    " vectors came back. This API carries no index, so position is all there is and nothing can be lined up",
                ),
            ),
        );
    }
    let vectors = match read_rows(rows, &request.model) {
        Ok(vectors) => vectors,
        Err(why) => {
            return Err(why);
        },
    };
    if let Some((got, asked)) = find_wrong_width(request.dimensions, &vectors) {
        return Err(
            Error::Unsupported(
                followed_by(
                    "gemini-embeddings: vectors came back with ",
                    decimal_text(got as u128).as_str(),
                ).concat(" dimensions after ").concat(
                    decimal_text(asked as u128).as_str(),
                ).concat(" were asked for, so ").concat(request.model.as_str()).concat(
                    " does not resize",
                ),
            ),
        );
    }
    // No token block in this shape, in either form. Absent, never zeros: a cost nobody measured
    // written as nought is a call that reads as free in whatever adds it up.
    Ok(Embeddings::new(vectors, request.model.copied(), Usage::absent()))
}

impl GeminiEmbeddings {
    /// Records what you have checked about a model.
    ///
    /// Yours to supply and yours to date, exactly like [`crate::Registry`]. A dimension count
    /// this crate invented would be a database column of the wrong width.
    #[must_use]
    pub fn knowing(self, model: &str, capabilities: EmbeddingCapabilities) -> (embedder:
        GeminiEmbeddings)
        ensures
            embedder.deep_view() == (BatchEndpoint {
                known: self.deep_view().known.insert(model@, capabilities),
                ..self.deep_view()
            }),
    {
        let mut embedder = self;
        embedder.known.put(model.to_owned(), capabilities);
        embedder
    }

    /// Where this embedder's data goes.
    ///
    /// Not a parameter and not a guess: this endpoint is Google's.
    pub fn reach(&self) -> (reach: Reach)
        ensures
            reach == Reach::FirstPartyApi,
    {
        Reach::FirstPartyApi
    }

    /// A different base URL, for a proxy or a recorded endpoint.
    #[must_use]
    pub fn at(self, base_url: &str) -> (embedder: GeminiEmbeddings)
        ensures
            embedder.deep_view() == (BatchEndpoint {
                base_url: without_trailing(base_url@, '/'),
                ..self.deep_view()
            }),
    {
        GeminiEmbeddings { base_url: trim_end_matches(base_url, '/'), ..self }
    }

    /// A short name for this embedder, used in records and reports.
    pub fn id(&self) -> (id: &str)
        ensures
            id@ == "gemini-embeddings"@,
    {
        "gemini-embeddings"
    }

    /// What a model can do when reached through this embedder, where somebody said.
    ///
    /// This shape has a place for a purpose, so it changes the vector.
    pub fn capabilities(&self, model: &ModelId) -> (have: Option<EmbeddingCapabilities>)
        ensures
            have == known_of(self.deep_view().known, model@, true),
    {
        match self.known.get(model.as_str()) {
            Some(have) => Some(EmbeddingCapabilities { purposes: true, ..*have }),
            None => None,
        }
    }

    /// What to send for a request.
    pub fn embed_request(&self, request: &EmbedRequest) -> (sent: Result<HttpRequest, Error>)
        ensures
            outcome(sent) == self.deep_view().sent(request.deep_view()),
    {
        if let Some(why) = refuse_early(request, self.capabilities(&request.model)) {
            return Err(why);
        }
        let key = match key_text(&self.key) {
            Ok(key) => key,
            Err(why) => {
                return Err(why);
            },
        };
        let sent = HttpRequest::new(
            followed_by(self.base_url.as_str(), "/models/").concat(
                request.model.as_str(),
            ).concat(":batchEmbedContents").as_str(),
            written(&write_body(request)),
        ).with_header("x-goog-api-key", key.as_str()).with_header(
            "content-type",
            "application/json",
        );
        assert(sent.deep_view().headers == seq![
            ("x-goog-api-key"@, decode_utf8(self.key@.bytes)),
            ("content-type"@, "application/json"@),
        ]);
        Ok(sent)
    }

    /// Reads the vectors that a reply gives.
    pub fn read_reply(&self, response: &HttpResponse, request: &EmbedRequest) -> (reply: Result<
        Embeddings,
        Error,
    >)
        ensures
            outcome(reply) == self.deep_view().reply_in(
                response.deep_view(),
                request.deep_view(),
            ),
    {
        match read_document(response) {
            Ok(body) => read_vectors(&body, request),
            Err(why) => Err(why),
        }
    }

    /// What to ask to find out whether a model can be reached, or the answer where it is settled
    /// already.
    ///
    /// Asking for one model rather than the whole list. It costs nothing, it establishes the
    /// credential and the entitlement together, and a name that is not there answers 404 rather
    /// than an empty list somebody has to interpret.
    pub fn check_request(&self, model: &ModelId) -> (sent: Result<HttpRequest, Access>)
        ensures
            outcome(sent) == self.deep_view().check_sent(model@),
    {
        match key_text(&self.key) {
            Ok(key) => {
                let sent = HttpRequest::get(
                    followed_by(self.base_url.as_str(), "/models/").concat(
                        model.as_str(),
                    ).as_str(),
                ).with_header("x-goog-api-key", key.as_str());
                assert(sent.deep_view().headers == seq![
                    ("x-goog-api-key"@, decode_utf8(self.key@.bytes)),
                ]);
                Ok(sent)
            },
            Err(why) => Err(
                Access::denied(
                    followed_by("gemini-embeddings", ": ").concat(
                        why.to_string().as_str(),
                    ).as_str(),
                ),
            ),
        }
    }

    /// Reads what the outcome of a check says.
    pub fn read_check(&self, sent: &Result<HttpResponse, Error>) -> (access: Access)
        ensures
            access.deep_view() == check_answer(outcome(*sent)),
    {
        match sent {
            Ok(response) => match response.check() {
                Ok(_) => Access::Ready,
                Err(why) => doubt_or_refusal("gemini-embeddings", &why),
            },
            Err(why) => doubt_or_refusal("gemini-embeddings", why),
        }
    }
}

/// One vector per input or nothing at all: where a document gives vectors there are as many of
/// them as inputs, each carries the model that was asked for, and nothing is claimed of what the
/// call consumed.
pub proof fn one_vector_per_input(body: Tree, wanted: Wanted)
    ensures
        vectors_in(body, wanted) matches Ok(reply) ==> reply.vectors.len() == wanted.inputs.len()
            && reply.usage == Usage::nothing() && forall|i: int|
            0 <= i < reply.vectors.len() ==> (#[trigger] reply.vectors[i]).model == wanted.model,
{
    if let Some(rows) = body.array_at("embeddings"@) {
        rows_keep_their_model(rows, wanted.model);
    }
}

/// A width that was asked for is had or refused: where a document gives vectors, each of them
/// has the width that was asked for.
pub proof fn a_width_asked_for_is_had_or_refused(body: Tree, wanted: Wanted)
    ensures
        vectors_in(body, wanted) matches Ok(reply) ==> (wanted.dimensions matches Some(
            asked,
        ) ==> forall|i: int|
            0 <= i < reply.vectors.len() ==> (#[trigger] reply.vectors[i]).numbers.len() == asked),
{
    if let Ok(reply) = vectors_in(body, wanted) {
        if let Some(asked) = wanted.dimensions {
            no_other_width_is_one_width(reply.vectors, asked as nat);
        }
    }
}

/// Rows that can be read are as many as there were, and carry the model they were read for.
proof fn rows_keep_their_model(rows: Seq<Tree>, model: Seq<char>)
    ensures
        rows_in(rows, model) matches Ok(vectors) ==> vectors.len() == rows.len() && forall|i: int|
            0 <= i < vectors.len() ==> (#[trigger] vectors[i]).model == model,
    decreases rows.len(),
{
    if rows.len() > 0 {
        rows_keep_their_model(rows.drop_last(), model);
    }
}

/// The members of a request are told apart.
proof fn members_differ()
    ensures
        "model"@ != "content"@,
        "model"@ != "taskType"@,
        "model"@ != "outputDimensionality"@,
        "content"@ != "taskType"@,
        "content"@ != "outputDimensionality"@,
        "taskType"@ != "outputDimensionality"@,
{
    reveal_strlit("model");
    reveal_strlit("content");
    reveal_strlit("taskType");
    reveal_strlit("outputDimensionality");
    assert("model"@.len() != "content"@.len());
    assert("model"@.len() != "taskType"@.len());
    assert("model"@.len() != "outputDimensionality"@.len());
    assert("content"@.len() != "taskType"@.len());
    assert("content"@.len() != "outputDimensionality"@.len());
    assert("taskType"@.len() != "outputDimensionality"@.len());
}

/// A request for vectors holds an element for each input in its order, each with the model, the
/// text, the purpose where one is given and the width where one is asked for.
pub proof fn a_request_holds_its_inputs_in_order(wanted: Wanted, i: int)
    requires
        0 <= i < wanted.inputs.len(),
    ensures
        ({
            let elements = batch_body(wanted).array_at("requests"@);
            let element = elements->0[i];
            let parts = element.get("content"@)->0.array_at("parts"@);
            &&& elements is Some
            &&& elements->0.len() == wanted.inputs.len()
            &&& element.text_at("model"@) == Some("models/"@ + wanted.model)
            &&& element.get("content"@) is Some
            &&& parts is Some
            &&& parts->0.len() == 1
            &&& parts->0[0].text_at("text"@) == Some(wanted.inputs[i])
            &&& element.text_at("taskType"@) == (match wanted.purpose {
                Some(Purpose::Document) => Some("RETRIEVAL_DOCUMENT"@),
                Some(Purpose::Query) => Some("RETRIEVAL_QUERY"@),
                None => None,
            })
            &&& element.get("outputDimensionality"@) == (match wanted.dimensions {
                Some(dimensions) => Some(Tree::Integer(dimensions as int)),
                None => None,
            })
        }),
{
    members_differ();
}

/// Where requests for vectors go, and that they carry the key and the body.
pub proof fn requests_go_where_the_protocol_says(
    endpoint: BatchEndpoint,
    wanted: Wanted,
    model: Seq<char>,
)
    requires
        valid_utf8(endpoint.key.bytes),
        wanted.inputs.len() > 0,
        wanted.dimensions is None,
    ensures
        ({
            let sent = endpoint.sent(wanted)->Ok_0;
            &&& endpoint.sent(wanted) is Ok
            &&& sent.method is Post
            &&& sent.url == endpoint.base_url + "/models/"@ + wanted.model + ":batchEmbedContents"@
            &&& sent.body == encode_utf8(json_text(batch_body(wanted)))
            &&& sent.headers.len() > 0
            &&& sent.headers[0] == ("x-goog-api-key"@, decode_utf8(endpoint.key.bytes))
        }),
        ({
            let asked = endpoint.check_sent(model)->Ok_0;
            &&& endpoint.check_sent(model) is Ok
            &&& asked.method is Get
            &&& asked.url == endpoint.base_url + "/models/"@ + model
            &&& asked.headers.len() > 0
            &&& asked.headers[0] == ("x-goog-api-key"@, decode_utf8(endpoint.key.bytes))
        }),
{
}

/// Rows are read one for each in their order, each with its own numbers.
proof fn rows_are_read_in_order(rows: Seq<Tree>, model: Seq<char>, i: int)
    requires
        rows_in(rows, model) is Ok,
        0 <= i < rows.len(),
    ensures
        rows_in(rows, model)->Ok_0.len() == rows.len(),
        rows_in(rows, model)->Ok_0[i].model == model,
        rows[i].array_at("values"@) is Some,
        numbers_in(rows[i].array_at("values"@)->0) == Some(
            rows_in(rows, model)->Ok_0[i].numbers,
        ),
    decreases rows.len(),
{
    if i < rows.len() - 1 {
        rows_are_read_in_order(rows.drop_last(), model, i);
    } else if rows.len() > 1 {
        rows_are_read_in_order(rows.drop_last(), model, 0);
    } else {
        assert(rows.drop_last() == Seq::<Tree>::empty());
        assert(rows_in(rows.drop_last(), model)->Ok_0.len() == 0);
    }
}

/// A reply that is read has the vector of each input in the place of the input, and reports no
/// tokens.
pub proof fn a_reply_has_a_vector_for_each_input(body: Tree, wanted: Wanted, i: int)
    requires
        vectors_in(body, wanted) is Ok,
        0 <= i < wanted.inputs.len(),
    ensures
        ({
            let read = vectors_in(body, wanted)->Ok_0;
            let rows = body.array_at("embeddings"@);
            &&& rows is Some
            &&& rows->0.len() == wanted.inputs.len()
            &&& read.vectors.len() == wanted.inputs.len()
            &&& read.vectors[i].model == wanted.model
            &&& read.model == wanted.model
            &&& rows->0[i].array_at("values"@) is Some
            &&& numbers_in(rows->0[i].array_at("values"@)->0) == Some(read.vectors[i].numbers)
            &&& read.usage == Usage::nothing()
        }),
{
    rows_are_read_in_order(body.array_at("embeddings"@)->0, wanted.model, i);
}

} // verus!
