//! Any endpoint speaking the OpenAI embeddings shape.
//!
//! The same bargain as [`super::api`]: a shape rather than a vendor. OpenAI, vLLM, Ollama,
//! LM Studio, Together and the rest answer at `/v1/embeddings` with the same envelope, so
//! the base URL is a constructor argument and the reach is given rather than guessed.
//!
//! # What this checks that the endpoint does not
//!
//! **The reply is put back in the order the inputs were given.** OpenAI sends an `index` on
//! every row precisely because the array is not promised to be ordered. Trusting arrival
//! order pairs every document with another document's vector, and nothing downstream fails:
//! the index builds, the queries run, and the results are wrong.
//!
//! **A short batch is an error rather than a short list.** Fewer vectors than inputs cannot
//! be lined up, and guessing which input was dropped is worse than failing.
//!
//! **A dimension count that was asked for and not honoured is refused.** A caller asking for
//! 256 has sized something for 256. An endpoint that ignores the parameter returns full
//! length vectors with a 200.

use crate::cost::usage::Usage;
use crate::embed::{
    find_wrong_width, known_of, no_other_width_is_one_width, numbers_in, read_numbers,
    refuse_early, refused_early, wrong_width, EmbedRequest, Embedding, EmbeddingCapabilities,
    Embeddings, Vector, Vectors, Wanted,
};
use crate::error::{outcome, Error, Failure};
use crate::json::{json_parsed_bytes, json_text, trees, Json, Number, Tree};
use crate::model::{ModelId, Reach};
use crate::order::Table;
use crate::provider::{doubt, doubt_or_refusal, Access, Answer};
use crate::providers::api::{document_in, read_document, written};
use crate::providers::wire::{ids_in, key_not_text, key_text, read_ids, served_by};
use crate::secret::{Credential, Secret};
use crate::text::{decimal, decimal_text, followed_by, is_among, trim_end_matches, without_trailing};
use crate::transport::{HttpRequest, HttpResponse, Method, Received, Sent};
use vstd::prelude::*;
use vstd::utf8::*;

verus! {

/// Anything speaking the OpenAI embeddings shape.
///
/// Immutable once built, so one instance serves any number of concurrent calls with nothing to
/// contend on.
pub struct OpenAiEmbeddings {
    id: &'static str,
    base_url: String,
    key: Secret,
    reach: Reach,
    known: Table<EmbeddingCapabilities>,
}

/// What [`OpenAiEmbeddings`] hold.
#[verifier::ext_equal]
pub struct EmbedEndpoint {
    pub id: Seq<char>,
    pub base_url: Seq<char>,
    pub key: Credential,
    pub reach: Reach,
    pub known: Map<Seq<char>, EmbeddingCapabilities>,
}

impl DeepView for OpenAiEmbeddings {
    type V = EmbedEndpoint;

    closed spec fn deep_view(&self) -> EmbedEndpoint {
        EmbedEndpoint {
            id: self.id@,
            base_url: self.base_url@,
            key: self.key@,
            reach: self.reach,
            known: self.known@,
        }
    }
}

/// Texts as documents.
pub open spec fn text_trees(texts: Seq<Seq<char>>) -> Seq<Tree> {
    Seq::new(texts.len(), |i: int| Tree::Text(texts[i]))
}

/// A request as this shape writes it. The encoding is said explicitly rather than left to the
/// endpoint's default: some servers answer base64 unless told otherwise.
pub open spec fn embed_body(wanted: Wanted) -> Tree {
    let base = Tree::empty_object().with("model"@, Tree::Text(wanted.model)).with(
        "input"@,
        Tree::Array(text_trees(wanted.inputs)),
    ).with("encoding_format"@, Tree::Text("float"@));
    match wanted.dimensions {
        Some(dimensions) => base.with("dimensions"@, Tree::Integer(dimensions as int)),
        None => base,
    }
}

/// Which input a row belongs to, where it says.
pub open spec fn index_in(row: Tree) -> Option<usize> {
    match row.u64_at("index"@) {
        Some(index) => if index <= usize::MAX {
            Some(index as usize)
        } else {
            None
        },
        None => None,
    }
}

/// One row of a reply: which input it belongs to, and its vector.
pub open spec fn row_in(row: Tree, position: nat) -> Result<(usize, Seq<Seq<char>>), Failure> {
    match index_in(row) {
        None => Err(
            Failure::Unreadable(
                "the embedding at position "@ + decimal(position)
                    + " carried no index, so nothing says which input it belongs to"@,
            ),
        ),
        Some(index) => match row.array_at("embedding"@) {
            None => Err(
                Failure::Unreadable(
                    "the embedding at index "@ + decimal(index as nat) + " had no vector"@,
                ),
            ),
            Some(items) => match numbers_in(items) {
                None => Err(
                    Failure::Unreadable(
                        "the vector at index "@ + decimal(index as nat)
                            + " held something that was not a number. An endpoint answering base64 does this"@,
                    ),
                ),
                Some(numbers) => Ok((index, numbers)),
            },
        },
    }
}

/// The rows of a reply as they arrived, or what is wrong with the first that is wrong.
pub open spec fn rows_in(rows: Seq<Tree>) -> Result<Seq<(usize, Seq<Seq<char>>)>, Failure>
    decreases rows.len(),
{
    if rows.len() == 0 {
        Ok(Seq::empty())
    } else {
        match rows_in(rows.drop_last()) {
            Err(why) => Err(why),
            Ok(before) => match row_in(rows.last(), (rows.len() - 1) as nat) {
                Err(why) => Err(why),
                Ok(row) => Ok(before.push(row)),
            },
        }
    }
}

/// The vector of the first row that belongs to an input.
pub open spec fn vector_for(rows: Seq<(usize, Seq<Seq<char>>)>, input: int) -> Option<
    Seq<Seq<char>>,
>
    decreases rows.len(),
{
    if rows.len() == 0 {
        None
    } else {
        match vector_for(rows.drop_last(), input) {
            Some(vector) => Some(vector),
            None => if rows.last().0 == input {
                Some(rows.last().1)
            } else {
                None
            },
        }
    }
}

/// Whether each of some inputs has a row.
pub open spec fn one_per_input(rows: Seq<(usize, Seq<Seq<char>>)>, count: nat) -> bool {
    forall|k: int| 0 <= k < count ==> (#[trigger] vector_for(rows, k)) is Some
}

/// The vectors of some inputs, in the order of the inputs.
pub open spec fn lined_up(
    rows: Seq<(usize, Seq<Seq<char>>)>,
    count: nat,
    model: Seq<char>,
) -> Seq<Vector> {
    Seq::new(count, |k: int| Vector { model, numbers: vector_for(rows, k)->0 })
}

/// What a call consumed, when the endpoint said. A reply with no usage is absent, never zeros.
pub open spec fn embed_usage(body: Tree) -> Usage {
    match body.get("usage"@) {
        Some(usage) => match usage.u64_at("prompt_tokens"@) {
            Some(tokens) => Usage {
                input_tokens: Some(tokens),
                cache_read_tokens: Some(0),
                cache_write_tokens: Some(0),
                output_tokens: Some(0),
                estimated: false,
            },
            None => Usage::nothing(),
        },
        None => Usage::nothing(),
    }
}

impl EmbedEndpoint {
    /// What is sent for a request.
    pub open spec fn sent(self, wanted: Wanted) -> Result<Sent, Failure> {
        match refused_early(wanted, known_of(self.known, wanted.model, false)) {
            Some(why) => Err(why),
            None => if valid_utf8(self.key.bytes) {
                Ok(
                    Sent {
                        method: Method::Post,
                        url: self.base_url + "/embeddings"@,
                        headers: seq![
                            ("authorization"@, "Bearer "@ + decode_utf8(self.key.bytes)),
                            ("content-type"@, "application/json"@),
                        ],
                        body: encode_utf8(json_text(embed_body(wanted))),
                    },
                )
            } else {
                Err(key_not_text())
            },
        }
    }

    /// How a width that was not honoured is reported.
    pub open spec fn width_line(self, got: nat, asked: nat) -> Seq<char> {
        self.id + " vectors came back with "@ + decimal(got) + " dimensions after "@ + decimal(
            asked,
        ) + " were asked for, so this model does not resize"@
    }

    /// The vectors that a document gives, in the order of the inputs.
    pub open spec fn vectors_in(self, body: Tree, wanted: Wanted) -> Result<Vectors, Failure> {
        let served = served_by(body.text_at("model"@), wanted.model);
        match body.array_at("data"@) {
            None => Err(Failure::Unreadable("the reply had no data array"@)),
            Some(items) => match rows_in(items) {
                Err(why) => Err(why),
                Ok(rows) => if rows.len() != wanted.inputs.len() {
                    Err(
                        Failure::Unreadable(
                            decimal(wanted.inputs.len()) + " inputs were sent and "@ + decimal(
                                rows.len(),
                            ) + " vectors came back, so nothing can be lined up"@,
                        ),
                    )
                } else if !one_per_input(rows, rows.len()) {
                    Err(
                        Failure::Unreadable(
                            "the reply's indices are not one per input, so nothing can be lined up"@,
                        ),
                    )
                } else {
                    let vectors = lined_up(rows, rows.len(), served);
                    match wrong_width(wanted.dimensions, vectors) {
                        Some((got, asked)) => Err(
                            Failure::Unsupported(self.width_line(got, asked)),
                        ),
                        None => Ok(
                            Vectors { vectors, model: served, usage: embed_usage(body) },
                        ),
                    }
                },
            },
        }
    }

    /// The vectors that a reply gives.
    pub open spec fn reply_in(self, reply: Received, wanted: Wanted) -> Result<Vectors, Failure> {
        match document_in(reply) {
            Err(why) => Err(why),
            Ok(body) => self.vectors_in(body, wanted),
        }
    }

    /// What is asked to find out whether this endpoint can be reached.
    pub open spec fn check_sent(self) -> Result<Sent, Answer> {
        if valid_utf8(self.key.bytes) {
            Ok(
                Sent {
                    method: Method::Get,
                    url: self.base_url + "/models"@,
                    headers: seq![("authorization"@, "Bearer "@ + decode_utf8(self.key.bytes))],
                    body: Seq::empty(),
                },
            )
        } else {
            Err(Answer::Denied("the API key is not valid UTF-8"@))
        }
    }

    /// Whether a document lists a model.
    pub open spec fn lists(self, body: Tree, model: Seq<char>) -> bool {
        match body.array_at("data"@) {
            Some(items) => ids_in(items, "id"@).contains(model),
            None => false,
        }
    }

    /// What the outcome of a check says about a model.
    pub open spec fn answer_for(self, outcome: Result<Received, Failure>, model: Seq<char>) -> Answer {
        match outcome {
            Err(why) => doubt(self.id, why),
            Ok(reply) => match reply.checked() {
                Err(why) => doubt(self.id, why),
                Ok(_) => match json_parsed_bytes(reply.body) {
                    Err(why) => Answer::Unknown(self.id + ": the list was not JSON: "@ + why),
                    Ok(body) => if self.lists(body, model) {
                        Answer::Ready
                    } else {
                        Answer::Denied(
                            self.id + " does not list "@ + model
                                + ". Either the name is wrong or this key cannot reach it"@,
                        )
                    },
                },
            },
        }
    }
}

/// An embedder at a base URL.
///
/// The id goes into every record beside the calls it made. The base URL should have the
/// version prefix the endpoint expects, usually `/v1`.
///
/// It knows no models to begin with. Add what you have checked with
/// [`OpenAiEmbeddings::knowing`].
pub fn at(id: &'static str, base_url: &str, key: Secret, reach: Reach) -> (embedder:
    OpenAiEmbeddings)
    ensures
        embedder.deep_view() == (EmbedEndpoint {
            id: id@,
            base_url: without_trailing(base_url@, '/'),
            key: key@,
            reach,
            known: Map::empty(),
        }),
{
    OpenAiEmbeddings {
        id,
        base_url: trim_end_matches(base_url, '/'),
        key,
        reach,
        known: Table::new(),
    }
}

/// Writes texts as documents.
fn write_texts(texts: &Vec<String>) -> (json: Json)
    ensures
        json.tree() == Tree::Array(text_trees(texts.deep_view())),
{
    let mut items: Vec<Json> = Vec::new();
    let mut i: usize = 0;
    while i < texts.len()
        invariant
            i <= texts.len(),
            items.len() == i,
            forall|j: int|
                0 <= j < i ==> (#[trigger] items[j]).tree() == text_trees(texts.deep_view())[j],
        decreases texts.len() - i,
    {
        items.push(Json::text(texts[i].as_str()));
        i += 1;
    }
    assert(trees(items@) == text_trees(texts.deep_view()));
    Json::Array(items)
}

/// Writes a request.
pub fn write_body(request: &EmbedRequest) -> (body: Json)
    ensures
        body.tree() == embed_body(request.deep_view()),
{
    let body = Json::object().with("model", Json::text(request.model.as_str())).with(
        "input",
        write_texts(&request.inputs),
    ).with("encoding_format", Json::text("float"));
    match request.dimensions {
        Some(dimensions) => body.with("dimensions", Json::Unsigned(dimensions as u64)),
        None => body,
    }
}

/// Reads one row.
fn read_row(row: &Json, position: usize) -> (read: Result<(usize, Vec<Number>), Error>)
    ensures
        outcome(read) == row_in(row.tree(), position as nat),
{
    let index: usize = match row.u64_at("index") {
        Some(index) if index <= usize::MAX as u64 => index as usize,
        _ => {
            return Err(
                Error::Unreadable(
                    followed_by(
                        "the embedding at position ",
                        decimal_text(position as u128).as_str(),
                    ).concat(
                        " carried no index, so nothing says which input it belongs to",
                    ),
                ),
            );
        },
    };
    let items = match row.array_at("embedding") {
        Some(items) => items,
        None => {
            return Err(
                Error::Unreadable(
                    followed_by(
                        "the embedding at index ",
                        decimal_text(index as u128).as_str(),
                    ).concat(" had no vector"),
                ),
            );
        },
    };
    match read_numbers(items) {
        Some(numbers) => Ok((index, numbers)),
        None => Err(
            Error::Unreadable(
                followed_by(
                    "the vector at index ",
                    decimal_text(index as u128).as_str(),
                ).concat(
                    " held something that was not a number. An endpoint answering base64 does this",
                ),
            ),
        ),
    }
}

/// A row that is wrong, early on, is what is wrong with all of them.
proof fn wrong_further_on(rows: Seq<Tree>, count: int)
    requires
        0 <= count <= rows.len(),
        rows_in(rows.take(count)) is Err,
    ensures
        rows_in(rows) == rows_in(rows.take(count)),
    decreases rows.len() - count,
{
    if count < rows.len() {
        assert(rows.take(count + 1).drop_last() == rows.take(count));
        wrong_further_on(rows, count + 1);
    } else {
        assert(rows.take(count) == rows);
    }
}

/// Reads the rows of a reply as they arrived.
fn read_rows(items: &Vec<Json>) -> (read: Result<Vec<(usize, Vec<Number>)>, Error>)
    ensures
        outcome(read) == rows_in(trees(items@)),
{
    let ghost all = trees(items@);
    let mut rows: Vec<(usize, Vec<Number>)> = Vec::new();
    assert(rows.deep_view() == Seq::<(usize, Seq<Seq<char>>)>::empty());
    assert(all.take(0) == Seq::<Tree>::empty());
    let mut i: usize = 0;
    while i < items.len()
        invariant
            i <= items.len(),
            all == trees(items@),
            rows_in(all.take(i as int)) == Ok::<Seq<(usize, Seq<Seq<char>>)>, Failure>(
                rows.deep_view(),
            ),
        decreases items.len() - i,
    {
        proof {
            assert(all.take(i + 1).drop_last() == all.take(i as int));
            assert(all.take(i + 1).last() == items[i as int].tree());
        }
        match read_row(&items[i], i) {
            Ok(row) => {
                let ghost before = rows.deep_view();
                rows.push(row);
                assert(rows.deep_view() == before.push(row.deep_view()));
            },
            Err(why) => {
                proof {
                    wrong_further_on(all, i + 1);
                }
                return Err(why);
            },
        }
        i += 1;
    }
    assert(all.take(i as int) == all);
    Ok(rows)
}

/// Puts rows in the order of the inputs: nothing where they are not one per input.
fn line_up(rows: Vec<(usize, Vec<Number>)>, model: &ModelId) -> (vectors: Option<Vec<Embedding>>)
    ensures
        match vectors {
            Some(vectors) => one_per_input(rows.deep_view(), rows.len() as nat)
                && vectors.deep_view() == lined_up(rows.deep_view(), rows.len() as nat, model@),
            None => !one_per_input(rows.deep_view(), rows.len() as nat),
        },
{
    let ghost all = rows.deep_view();
    let ghost given = rows@;
    let count: usize = rows.len();
    let mut places: Vec<Option<Vec<Number>>> = Vec::new();
    let mut i: usize = 0;
    while i < count
        invariant
            i <= count,
            places.len() == i,
            forall|k: int| 0 <= k < i ==> (#[trigger] places[k]) is None,
        decreases count - i,
    {
        places.push(None);
        i += 1;
    }
    assert(all.take(0) == Seq::<(usize, Seq<Seq<char>>)>::empty());
    for row in each: rows
        invariant
            each.seq() == given,
            given.len() == count,
            all.len() == count,
            all == Seq::new(given.len(), |k: int| given[k].deep_view()),
            places.len() == count,
            forall|k: int|
                0 <= k < count ==> (#[trigger] places[k]).deep_view() == vector_for(
                    all.take(each.index() as int),
                    k,
                ),
    {
        let ghost done = each.index() as int;
        proof {
            assert(all.take(done + 1).drop_last() == all.take(done));
            assert(all.take(done + 1).last() == given[done].deep_view());
        }
        let (index, vector): (usize, Vec<Number>) = row;
        if index < count {
            if places[index].is_none() {
                places.set(index, Some(vector));
            }
        }
    }
    assert(all.take(count as int) == all);
    let ghost filled = places@;
    let mut vectors: Vec<Embedding> = Vec::new();
    for place in each: places
        invariant
            each.seq() == filled,
            filled.len() == count,
            all == rows.deep_view(),
            all.len() == count,
            forall|k: int|
                0 <= k < count ==> (#[trigger] filled[k]).deep_view() == vector_for(all, k),
            vectors.len() == each.index(),
            forall|k: int| 0 <= k < each.index() ==> (#[trigger] filled[k]) is Some,
            forall|k: int|
                0 <= k < vectors.len() ==> (#[trigger] vectors[k]).deep_view() == lined_up(
                    all,
                    count as nat,
                    model@,
                )[k],
    {
        let ghost done = each.index() as int;
        match place {
            Some(vector) => {
                assert(filled[done].deep_view() == vector_for(all, done));
                vectors.push(Embedding::new(model.copied(), vector));
            },
            None => {
                proof {
                    assert(filled[done].deep_view() == vector_for(all, done));
                    assert(vector_for(all, done) is None);
                }
                return None;
            },
        }
    }
    proof {
        assert forall|k: int| 0 <= k < count implies (#[trigger] vector_for(all, k)) is Some by {
            assert(filled[k].deep_view() == vector_for(all, k));
        }
        assert(vectors.deep_view() == lined_up(all, count as nat, model@));
    }
    Some(vectors)
}

/// Reads what a call consumed.
fn read_usage(body: &Json) -> (usage: Usage)
    ensures
        usage == embed_usage(body.tree()),
{
    match body.get("usage") {
        Some(usage) => match usage.u64_at("prompt_tokens") {
            Some(tokens) => Usage::embedding(tokens),
            None => Usage::absent(),
        },
        None => Usage::absent(),
    }
}

impl OpenAiEmbeddings {
    /// Records what you have checked about a model.
    ///
    /// Yours to supply and yours to date, exactly like [`crate::Registry`]. A dimension count
    /// this crate invented would be a database column of the wrong width.
    #[must_use]
    pub fn knowing(self, model: &str, capabilities: EmbeddingCapabilities) -> (embedder:
        OpenAiEmbeddings)
        ensures
            embedder.deep_view() == (EmbedEndpoint {
                known: self.deep_view().known.insert(model@, capabilities),
                ..self.deep_view()
            }),
    {
        let mut embedder = self;
        embedder.known.put(model.to_owned(), capabilities);
        embedder
    }

    /// Where this embedder's data goes.
    pub fn reach(&self) -> (reach: Reach)
        ensures
            reach == self.deep_view().reach,
    {
        self.reach
    }

    /// A short name for this embedder, used in records and reports.
    pub fn id(&self) -> (id: &str)
        ensures
            id@ == self.deep_view().id,
    {
        self.id
    }

    /// What a model can do when reached through this embedder, where somebody said.
    ///
    /// A purpose has no place to go in this shape, so it never changes the vector.
    pub fn capabilities(&self, model: &ModelId) -> (have: Option<EmbeddingCapabilities>)
        ensures
            have == known_of(self.deep_view().known, model@, false),
    {
        match self.known.get(model.as_str()) {
            Some(have) => Some(EmbeddingCapabilities { purposes: false, ..*have }),
            None => None,
        }
    }

    /// What to send for a request.
    pub fn embed_request(&self, request: &EmbedRequest) -> (sent: Result<HttpRequest, Error>)
        ensures
            outcome(sent) == self.deep_view().sent(request.deep_view()),
    {
        if let Some(why) = refuse_early(request, self.capabilities(&request.model)) {
            return Err(why);
        }
        let key = match key_text(&self.key) {
            Ok(key) => key,
            Err(why) => {
                return Err(why);
            },
        };
        let sent = HttpRequest::new(
            followed_by(self.base_url.as_str(), "/embeddings").as_str(),
            written(&write_body(request)),
        ).with_header("authorization", followed_by("Bearer ", key.as_str()).as_str()).with_header(
            "content-type",
            "application/json",
        );
        assert(sent.deep_view().headers == seq![
            ("authorization"@, "Bearer "@ + decode_utf8(self.key@.bytes)),
            ("content-type"@, "application/json"@),
        ]);
        Ok(sent)
    }

    /// Reads the vectors that a document gives, in the order the inputs were given.
    pub fn read(&self, body: &Json, request: &EmbedRequest) -> (reply: Result<Embeddings, Error>)
        ensures
            outcome(reply) == self.deep_view().vectors_in(body.tree(), request.deep_view()),
    {
        let served = match body.text_at("model") {
            Some(model) => ModelId(model.to_owned()),
            None => request.model.copied(),
        };
        let items = match body.array_at("data") {
            Some(items) => items,
            None => {
                return Err(Error::Unreadable("the reply had no data array".to_owned()));
            },
        };
        let rows = match read_rows(items) {
            Ok(rows) => rows,
            Err(why) => {
                return Err(why);
            },
        };
        let ghost all = rows.deep_view();
        // Not a warning. A batch that comes back short cannot be lined up with its inputs, and
        // a caller storing the result would attach every vector after the gap to the wrong
        // text.
        if rows.len() != request.inputs.len() {
            return Err(
                Error::Unreadable(
                    decimal_text(request.inputs.len() as u128).concat(
                        " inputs were sent and ",
                    ).concat(decimal_text(rows.len() as u128).as_str()).concat(
                        " vectors came back, so nothing can be lined up",
                    ),
                ),
            );
        }
        let vectors = match line_up(rows, &served) {
            Some(vectors) => vectors,
            None => {
                return Err(
                    Error::Unreadable(
                        "the reply's indices are not one per input, so nothing can be lined up".to_owned(),
                    ),
                );
            },
        };
        // Asked for and not honoured. The endpoint answered 200 with vectors of the wrong
        // width, and a caller who sized a database for the number they asked for has no other
        // way to find out.
        if let Some((got, asked)) = find_wrong_width(request.dimensions, &vectors) {
            return Err(
                Error::Unsupported(
                    followed_by(self.id, " vectors came back with ").concat(
                        decimal_text(got as u128).as_str(),
                    ).concat(" dimensions after ").concat(
                        decimal_text(asked as u128).as_str(),
                    ).concat(" were asked for, so this model does not resize"),
                ),
            );
        }
        Ok(Embeddings::new(vectors, served, read_usage(body)))
    }

    /// Reads the vectors that a reply gives.
    pub fn read_reply(&self, response: &HttpResponse, request: &EmbedRequest) -> (reply: Result<
        Embeddings,
        Error,
    >)
        ensures
            outcome(reply) == self.deep_view().reply_in(
                response.deep_view(),
                request.deep_view(),
            ),
    {
        match read_document(response) {
            Ok(body) => self.read(&body, request),
            Err(why) => Err(why),
        }
    }

    /// What to ask to find out whether this endpoint can be reached, or the answer where it is
    /// settled already. The model list is free, and it is the one thing that establishes the
    /// credential and the entitlement together.
    pub fn check_request(&self) -> (sent: Result<HttpRequest, Access>)
        ensures
            outcome(sent) == self.deep_view().check_sent(),
    {
        match key_text(&self.key) {
            Ok(key) => {
                let sent = HttpRequest::get(
                    followed_by(self.base_url.as_str(), "/models").as_str(),
                ).with_header("authorization", followed_by("Bearer ", key.as_str()).as_str());
                assert(sent.deep_view().headers == seq![
                    ("authorization"@, "Bearer "@ + decode_utf8(self.key@.bytes)),
                ]);
                Ok(sent)
            },
            Err(_) => Err(Access::denied("the API key is not valid UTF-8")),
        }
    }

    /// Reads what the outcome of a check says about a model.
    pub fn read_check(&self, sent: &Result<HttpResponse, Error>, model: &ModelId) -> (access:
        Access)
        ensures
            access.deep_view() == self.deep_view().answer_for(outcome(*sent), model@),
    {
        let response = match sent {
            Ok(response) => response,
            Err(why) => {
                return doubt_or_refusal(self.id, why);
            },
        };
        if let Err(why) = response.check() {
            return doubt_or_refusal(self.id, &why);
        }
        let body = match Json::parse_bytes(response.body.as_slice()) {
            Ok(body) => body,
            Err(why) => {
                return Access::unknown(
                    followed_by(self.id, ": the list was not JSON: ").concat(
                        why.as_str(),
                    ).as_str(),
                );
            },
        };
        let listed = match body.array_at("data") {
            Some(items) => is_among(&read_ids(items, "id"), model.as_str()),
            None => false,
        };
        if listed {
            Access::Ready
        } else {
            Access::denied(
                followed_by(self.id, " does not list ").concat(model.as_str()).concat(
                    ". Either the name is wrong or this key cannot reach it",
                ).as_str(),
            )
        }
    }
}

/// The row that gives the vector of an input.
proof fn vector_comes_from_a_row(rows: Seq<(usize, Seq<Seq<char>>)>, input: int)
    ensures
        vector_for(rows, input) matches Some(vector) ==> exists|r: int|
            0 <= r < rows.len() && (#[trigger] rows[r]).0 == input && rows[r].1 == vector,
    decreases rows.len(),
{
    if rows.len() > 0 {
        let front = rows.drop_last();
        vector_comes_from_a_row(front, input);
        if let Some(vector) = vector_for(front, input) {
            let r = choose|r: int|
                0 <= r < front.len() && (#[trigger] front[r]).0 == input && front[r].1 == vector;
            assert(rows[r] == front[r]);
        } else {
            assert(rows[rows.len() - 1] == rows.last());
        }
    }
}

/// Vectors come back index for index with the inputs, whatever order the rows arrived in: where
/// each input has a row, no two rows belong to one input, and the vector of every row stands at
/// the index that the row gives.
pub proof fn vectors_stand_where_their_rows_say(
    rows: Seq<(usize, Seq<Seq<char>>)>,
    model: Seq<char>,
    r: int,
)
    requires
        one_per_input(rows, rows.len()),
        0 <= r < rows.len(),
    ensures
        rows[r].0 < rows.len(),
        lined_up(rows, rows.len(), model)[rows[r].0 as int] == (Vector {
            model,
            numbers: rows[r].1,
        }),
        forall|q: int| 0 <= q < rows.len() && q != r ==> (#[trigger] rows[q]).0 != rows[r].0,
{
    let n = rows.len();
    let indices = Seq::new(n, |i: int| rows[i].0 as int);
    let all = vstd::set_lib::set_int_range(0, n as int);
    vstd::set_lib::lemma_int_range(0, n as int);
    assert forall|k: int| all.contains(k) implies indices.to_set().contains(k) by {
        assert(vector_for(rows, k) is Some);
        vector_comes_from_a_row(rows, k);
        let at = choose|at: int|
            0 <= at < rows.len() && (#[trigger] rows[at]).0 == k && rows[at].1 == vector_for(
                rows,
                k,
            )->0;
        assert(indices[at] == k);
    }
    assert(all.subset_of(indices.to_set()));
    indices.lemma_cardinality_of_set();
    vstd::set_lib::lemma_len_subset(all, indices.to_set());
    indices.lemma_no_dup_set_cardinality();
    assert(indices.no_duplicates());
    vstd::set_lib::lemma_subset_equality(all, indices.to_set());
    assert(indices[r] == rows[r].0);
    assert(indices.to_set().contains(indices[r]));
    assert(all.contains(indices[r]));
    let k = rows[r].0 as int;
    vector_comes_from_a_row(rows, k);
    let at = choose|at: int|
        0 <= at < rows.len() && (#[trigger] rows[at]).0 == k && rows[at].1 == vector_for(
            rows,
            k,
        )->0;
    assert(indices[at] == indices[r]);
    assert(at == r);
    assert forall|q: int| 0 <= q < rows.len() && q != r implies (#[trigger] rows[q]).0
        != rows[r].0 by {
        assert(indices[q] != indices[r]);
    }
}

/// A width that was asked for is had or refused: where a document gives vectors, each of them
/// has the width that was asked for.
pub proof fn a_width_asked_for_is_had_or_refused(endpoint: EmbedEndpoint, body: Tree, wanted: Wanted)
    ensures
        endpoint.vectors_in(body, wanted) matches Ok(reply) ==> (wanted.dimensions matches Some(
            asked,
        ) ==> forall|i: int|
            0 <= i < reply.vectors.len() ==> (#[trigger] reply.vectors[i]).numbers.len() == asked),
{
    if let Ok(reply) = endpoint.vectors_in(body, wanted) {
        if let Some(asked) = wanted.dimensions {
            no_other_width_is_one_width(reply.vectors, asked as nat);
        }
    }
}

/// The members of a request are told apart.
proof fn members_differ()
    ensures
        "model"@ != "input"@,
        "model"@ != "encoding_format"@,
        "model"@ != "dimensions"@,
        "input"@ != "encoding_format"@,
        "input"@ != "dimensions"@,
        "encoding_format"@ != "dimensions"@,
{
    reveal_strlit("model");
    reveal_strlit("input");
    reveal_strlit("encoding_format");
    reveal_strlit("dimensions");
    assert("model"@[0] != "input"@[0]);
    assert("model"@.len() != "encoding_format"@.len());
    assert("model"@.len() != "dimensions"@.len());
    assert("input"@.len() != "encoding_format"@.len());
    assert("input"@.len() != "dimensions"@.len());
    assert("encoding_format"@.len() != "dimensions"@.len());
}

/// A request for vectors names the model, holds the inputs in their order, asks for numbers, and
/// asks for a width exactly where one was asked for.
pub proof fn a_request_holds_its_inputs_in_order(wanted: Wanted, i: int)
    requires
        0 <= i < wanted.inputs.len(),
    ensures
        ({
            let body = embed_body(wanted);
            let inputs = body.array_at("input"@);
            &&& body.text_at("model"@) == Some(wanted.model)
            &&& inputs is Some
            &&& inputs->0.len() == wanted.inputs.len()
            &&& inputs->0[i] == Tree::Text(wanted.inputs[i])
            &&& body.text_at("encoding_format"@) == Some("float"@)
            &&& body.get("dimensions"@) == (match wanted.dimensions {
                Some(dimensions) => Some(Tree::Integer(dimensions as int)),
                None => None,
            })
        }),
{
    members_differ();
}

/// Where requests for vectors go, and that they carry the key and the body.
pub proof fn requests_go_where_the_protocol_says(endpoint: EmbedEndpoint, wanted: Wanted)
    requires
        valid_utf8(endpoint.key.bytes),
        wanted.inputs.len() > 0,
        wanted.dimensions is None,
    ensures
        ({
            let sent = endpoint.sent(wanted)->Ok_0;
            &&& endpoint.sent(wanted) is Ok
            &&& sent.method is Post
            &&& sent.url == endpoint.base_url + "/embeddings"@
            &&& sent.body == encode_utf8(json_text(embed_body(wanted)))
            &&& sent.headers.len() > 0
            &&& sent.headers[0] == ("authorization"@, "Bearer "@ + decode_utf8(endpoint.key.bytes))
        }),
        ({
            let asked = endpoint.check_sent()->Ok_0;
            &&& endpoint.check_sent() is Ok
            &&& asked.method is Get
            &&& asked.url == endpoint.base_url + "/models"@
            &&& asked.headers.len() > 0
            &&& asked.headers[0] == ("authorization"@, "Bearer "@ + decode_utf8(endpoint.key.bytes))
        }),
{
}

/// A reply that is read has one vector for each input, under the model that served it, and the
/// tokens it reports: all of them went in.
pub proof fn a_reply_has_a_vector_for_each_input(
    endpoint: EmbedEndpoint,
    body: Tree,
    wanted: Wanted,
    i: int,
)
    requires
        endpoint.vectors_in(body, wanted) is Ok,
        0 <= i < wanted.inputs.len(),
    ensures
        ({
            let read = endpoint.vectors_in(body, wanted)->Ok_0;
            let model = if body.text_at("model"@) is Some {
                body.text_at("model"@)->0
            } else {
                wanted.model
            };
            let tokens = match body.get("usage"@) {
                Some(usage) => usage.u64_at("prompt_tokens"@),
                None => None,
            };
            &&& read.vectors.len() == wanted.inputs.len()
            &&& read.vectors[i].model == model
            &&& read.model == model
            &&& read.usage.input_tokens == tokens
            &&& tokens is Some ==> read.usage.output_tokens == Some(0u64)
                && read.usage.cache_read_tokens == Some(0u64) && read.usage.cache_write_tokens
                == Some(0u64)
            &&& !read.usage.estimated
        }),
{
}

/// A row is read under the index it gives, with its own numbers.
pub proof fn a_row_is_read_under_its_index(row: Tree, position: nat)
    requires
        row_in(row, position) is Ok,
    ensures
        row.u64_at("index"@) == Some(row_in(row, position)->Ok_0.0 as u64),
        row.array_at("embedding"@) is Some,
        numbers_in(row.array_at("embedding"@)->0) == Some(row_in(row, position)->Ok_0.1),
{
}

/// A model is reachable exactly where the list names it.
pub proof fn only_a_listed_model_is_ready(endpoint: EmbedEndpoint, reply: Received, model: Seq<char>)
    requires
        reply.checked() is Ok,
        json_parsed_bytes(reply.body) is Ok,
    ensures
        ({
            let body = json_parsed_bytes(reply.body)->Ok_0;
            let answer = endpoint.answer_for(Ok(reply), model);
            &&& answer is Ready <==> body.array_at("data"@) is Some && ids_in(
                body.array_at("data"@)->0,
                "id"@,
            ).contains(model)
            &&& answer is Ready || answer is Denied
        }),
{
}

/// A list that did not come, or was no list, leaves access in doubt as the failure does.
pub proof fn a_list_that_did_not_come_is_a_doubt(
    endpoint: EmbedEndpoint,
    why: Failure,
    reply: Received,
    model: Seq<char>,
)
    ensures
        endpoint.answer_for(Err(why), model) == doubt(endpoint.id, why),
        reply.checked() is Err ==> endpoint.answer_for(Ok(reply), model) == doubt(
            endpoint.id,
            reply.checked()->Err_0,
        ),
        reply.checked() is Ok && json_parsed_bytes(reply.body) is Err ==> endpoint.answer_for(
            Ok(reply),
            model,
        ) is Unknown,
{
}

/// A reply that cannot be lined up with its inputs is not read.
pub proof fn what_cannot_be_lined_up_is_not_read(
    endpoint: EmbedEndpoint,
    body: Tree,
    wanted: Wanted,
)
    ensures
        body.array_at("data"@) is None ==> endpoint.vectors_in(body, wanted) is Err
            && endpoint.vectors_in(body, wanted)->Err_0 is Unreadable,
        (body.array_at("data"@) is Some && rows_in(body.array_at("data"@)->0) is Ok && rows_in(
            body.array_at("data"@)->0,
        )->Ok_0.len() != wanted.inputs.len()) ==> endpoint.vectors_in(body, wanted) is Err
            && endpoint.vectors_in(body, wanted)->Err_0 is Unreadable,
{
}

/// What is said of vectors that came back with another width, or in another number, than was asked
/// for.
pub proof fn what_does_not_fit_is_said_so(
    endpoint: EmbedEndpoint,
    got: nat,
    asked: nat,
    body: Tree,
    wanted: Wanted,
)
    ensures
        endpoint.width_line(got, asked) == endpoint.id + " vectors came back with "@ + decimal(got)
            + " dimensions after "@ + decimal(asked)
            + " were asked for, so this model does not resize"@,
        (body.array_at("data"@) is Some && rows_in(body.array_at("data"@)->0) is Ok && rows_in(
            body.array_at("data"@)->0,
        )->Ok_0.len() != wanted.inputs.len()) ==> endpoint.vectors_in(body, wanted) == Err::<
            Vectors,
            Failure,
        >(
            Failure::Unreadable(
                decimal(wanted.inputs.len()) + " inputs were sent and "@ + decimal(
                    rows_in(body.array_at("data"@)->0)->Ok_0.len(),
                ) + " vectors came back, so nothing can be lined up"@,
            ),
        ),
{
}

} // verus!
