//! Text as vectors, which is a different question from chat.
//!
//! Different request, different reply, different usage shape. No messages, no stop reason,
//! no reasoning, no tools. What it *does* share is everything a caller relies on: [`Reach`],
//! [`crate::Error`] and its retry advice, [`Usage`] with its absent-is-not-zero rule, and the
//! transport boundary.
//!
//! # A vector belongs to the model that made it
//!
//! This is the rule the module is built around. Two vectors of the same length from two
//! different models are not comparable, and nothing about them says so: cosine similarity
//! computes happily and returns a number between -1 and 1 that means nothing at all. It is
//! the same failure as adding dollars to euros, and it is caught the same way.
//!
//! So [`Embedding`] carries the model that produced it, and [`Embedding::is_comparable`]
//! answers no across models.
//!
//! # Order is the contract
//!
//! [`Embeddings`] comes back index for index with the inputs that produced it. Several
//! vendors return an `index` field precisely because their replies are not ordered, and a
//! provider that trusts arrival order silently pairs every document with the wrong vector.

use crate::cost::usage::Usage;
use crate::error::{Error, Failure};
use crate::json::{trees, Json, Number, Tree};
use crate::model::{ModelId, Reach};
use crate::text::{decimal, decimal_text, same};
use vstd::prelude::*;

verus! {

/// What the text is for, when a model distinguishes.
///
/// Several models produce a different vector for "store this document" than for "search
/// with this query", and the two are meant to be used together: a query vector is built to
/// land near the documents that answer it. Embedding a query as a document is not an error
/// anywhere: it returns vectors, retrieval still runs, and the results are quietly worse.
///
/// Read [`EmbeddingCapabilities::purposes`] to find out whether a pairing distinguishes them
/// at all.
#[derive(Debug, Clone, Copy, PartialEq, Eq, Hash, Structural)]
pub enum Purpose {
    /// Text being stored, to be found later.
    Document,
    /// Text being searched with, to find stored documents.
    Query,
}

impl Purpose {
    /// How a purpose is written down, in a record or a report.
    pub open spec fn name(self) -> Seq<char> {
        match self {
            Purpose::Document => "document"@,
            Purpose::Query => "query"@,
        }
    }

    /// How a purpose is written down, in a record or a report.
    pub fn as_str(self) -> (name: &'static str)
        ensures
            name@ == self.name(),
    {
        match self {
            Purpose::Document => "document",
            Purpose::Query => "query",
        }
    }

    /// How a purpose is written down, in a record or a report.
    pub fn to_string(&self) -> (name: String)
        ensures
            name@ == self.name(),
    {
        self.as_str().to_owned()
    }
}

/// Some text to turn into vectors.
#[derive(Debug, Clone, PartialEq)]
pub struct EmbedRequest {
    /// Which model to ask.
    pub model: ModelId,
    /// The texts, in the order the vectors will come back in.
    pub inputs: Vec<String>,
    /// What the text is for, when the caller knows and the model cares.
    ///
    /// `None` means the caller did not say, and a provider sends nothing rather than
    /// choosing: a guessed purpose is a retrieval quality problem that never shows up as an
    /// error.
    pub purpose: Option<Purpose>,
    /// How many dimensions to ask for, when the model can be asked.
    ///
    /// `None` means the model's own size. Read [`EmbeddingCapabilities::resizable`] first: a
    /// provider that cannot honour this refuses rather than returning full length vectors a
    /// caller has already sized a database for.
    pub dimensions: Option<u32>,
}

/// What an [`EmbedRequest`] holds.
#[verifier::ext_equal]
pub struct Wanted {
    pub model: Seq<char>,
    pub inputs: Seq<Seq<char>>,
    pub purpose: Option<Purpose>,
    pub dimensions: Option<u32>,
}

impl DeepView for EmbedRequest {
    type V = Wanted;

    open spec fn deep_view(&self) -> Wanted {
        Wanted {
            model: self.model@,
            inputs: self.inputs.deep_view(),
            purpose: self.purpose,
            dimensions: self.dimensions,
        }
    }
}

impl EmbedRequest {
    /// A request for one model over some texts.
    pub fn new(model: ModelId, inputs: Vec<String>) -> (request: EmbedRequest)
        ensures
            request.deep_view() == (Wanted {
                model: model@,
                inputs: inputs.deep_view(),
                purpose: None,
                dimensions: None,
            }),
    {
        EmbedRequest { model, inputs, purpose: None, dimensions: None }
    }

    /// A request for one piece of text.
    pub fn one(model: &str, input: &str) -> (request: EmbedRequest)
        ensures
            request.deep_view() == (Wanted {
                model: model@,
                inputs: seq![input@],
                purpose: None,
                dimensions: None,
            }),
    {
        let mut inputs: Vec<String> = Vec::new();
        inputs.push(input.to_owned());
        assert(inputs.deep_view() == seq![input@]);
        EmbedRequest::new(ModelId(model.to_owned()), inputs)
    }

    /// Says what the text is for.
    #[must_use]
    pub fn for_purpose(self, purpose: Purpose) -> (request: EmbedRequest)
        ensures
            request.deep_view() == (Wanted { purpose: Some(purpose), ..self.deep_view() }),
    {
        EmbedRequest { purpose: Some(purpose), ..self }
    }

    /// Asks for a particular number of dimensions.
    #[must_use]
    pub fn with_dimensions(self, dimensions: u32) -> (request: EmbedRequest)
        ensures
            request.deep_view() == (Wanted { dimensions: Some(dimensions), ..self.deep_view() }),
    {
        EmbedRequest { dimensions: Some(dimensions), ..self }
    }

    /// How many texts are in here.
    pub fn len(&self) -> (count: usize)
        ensures
            count == self.deep_view().inputs.len(),
    {
        self.inputs.len()
    }

    /// Whether there is nothing to embed.
    ///
    /// Worth checking before sending: several endpoints answer an empty batch with a 400,
    /// and a loop over an empty collection reaching the network at all is a bug upstream.
    pub fn is_empty(&self) -> (yes: bool)
        ensures
            yes == (self.deep_view().inputs.len() == 0),
    {
        self.inputs.len() == 0
    }
}

/// One vector, and the model that produced it.
///
/// The model is not decoration. Vectors from two models occupy unrelated spaces, and every
/// operation anybody performs on them (similarity, clustering, a nearest neighbour index)
/// works perfectly and means nothing. Carrying the name is what lets a comparison be refused.
///
/// The numbers are held as JSON writes them.
#[derive(Debug, Clone, PartialEq)]
pub struct Embedding {
    /// Which model produced this vector.
    ///
    /// The model that *served* the call, as the reply said, not the one that was asked for.
    pub model: ModelId,
    /// The vector.
    pub vector: Vec<Number>,
}

/// What an [`Embedding`] holds.
#[verifier::ext_equal]
pub struct Vector {
    pub model: Seq<char>,
    pub numbers: Seq<Seq<char>>,
}

impl DeepView for Embedding {
    type V = Vector;

    open spec fn deep_view(&self) -> Vector {
        Vector { model: self.model@, numbers: self.vector.deep_view() }
    }
}

impl Vector {
    /// Whether a similarity with another vector means anything.
    pub open spec fn compares_with(self, other: Vector) -> bool {
        self.model == other.model && self.numbers.len() == other.numbers.len()
            && self.numbers.len() > 0
    }
}

impl Embedding {
    /// A vector from a model.
    pub fn new(model: ModelId, vector: Vec<Number>) -> (embedding: Embedding)
        ensures
            embedding.deep_view() == (Vector { model: model@, numbers: vector.deep_view() }),
    {
        Embedding { model, vector }
    }

    /// How many dimensions it has.
    pub fn dimensions(&self) -> (count: usize)
        ensures
            count == self.deep_view().numbers.len(),
    {
        self.vector.len()
    }

    /// Whether this vector and another can be compared at all.
    ///
    /// They cannot in the two cases where a similarity would be meaningless rather than wrong:
    ///
    /// - **Different models.** Two embedding spaces with no relation to each other. This is
    ///   the case worth refusing, because it is the one that produces a perfectly plausible
    ///   number.
    /// - **Different lengths, or either one empty.** No such number exists. A model asked
    ///   for fewer dimensions produces a vector that is not comparable with a full length one
    ///   from the same model either.
    pub fn is_comparable(&self, other: &Embedding) -> (yes: bool)
        ensures
            yes == self.deep_view().compares_with(other.deep_view()),
    {
        same(self.model.as_str(), other.model.as_str()) && self.vector.len() == other.vector.len()
            && self.vector.len() > 0
    }
}

/// What came back from one embedding call.
#[derive(Debug, Clone, PartialEq)]
pub struct Embeddings {
    /// One vector per input, in the order the inputs were given.
    pub vectors: Vec<Embedding>,
    /// Which model actually served this.
    ///
    /// Can differ from the one asked for, exactly as it can for chat. Price against this
    /// one, and store it beside the vectors: a database of vectors whose model nobody wrote
    /// down cannot be re-embedded when the model is retired.
    pub model: ModelId,
    /// What the call consumed, as far as the provider reported it.
    ///
    /// [`Usage::absent`] when it reported nothing. Not zeros: see [`Usage::embedding`] for
    /// the shape an embedding endpoint reports, which is prompt tokens and nothing else.
    pub usage: Usage,
}

/// What [`Embeddings`] hold.
#[verifier::ext_equal]
pub struct Vectors {
    pub vectors: Seq<Vector>,
    pub model: Seq<char>,
    pub usage: Usage,
}

impl DeepView for Embeddings {
    type V = Vectors;

    open spec fn deep_view(&self) -> Vectors {
        Vectors { vectors: self.vectors.deep_view(), model: self.model@, usage: self.usage }
    }
}

impl Vectors {
    /// How many dimensions the vectors have, when they agree.
    pub open spec fn dimensions(self) -> Option<nat> {
        if self.vectors.len() > 0 && forall|i: int|
            0 <= i < self.vectors.len() ==> (#[trigger] self.vectors[i]).numbers.len()
                == self.vectors[0].numbers.len() {
            Some(self.vectors[0].numbers.len())
        } else {
            None
        }
    }
}

impl Embeddings {
    /// A reply.
    pub fn new(vectors: Vec<Embedding>, model: ModelId, usage: Usage) -> (reply: Embeddings)
        ensures
            reply.deep_view() == (Vectors {
                vectors: vectors.deep_view(),
                model: model@,
                usage,
            }),
    {
        Embeddings { vectors, model, usage }
    }

    /// How many vectors came back.
    pub fn len(&self) -> (count: usize)
        ensures
            count == self.deep_view().vectors.len(),
    {
        self.vectors.len()
    }

    /// Whether nothing came back.
    pub fn is_empty(&self) -> (yes: bool)
        ensures
            yes == (self.deep_view().vectors.len() == 0),
    {
        self.vectors.len() == 0
    }

    /// The vector for the input at this position.
    pub fn get(&self, index: usize) -> (vector: Option<&Embedding>)
        ensures
            match vector {
                Some(vector) => index < self.deep_view().vectors.len() && vector.deep_view()
                    == self.deep_view().vectors[index as int],
                None => index >= self.deep_view().vectors.len(),
            },
    {
        if index < self.vectors.len() {
            Some(&self.vectors[index])
        } else {
            None
        }
    }

    /// How many dimensions the vectors have, when they agree.
    ///
    /// `None` for an empty reply, and for the pathological case of a batch whose vectors are
    /// not all the same length. The second should never happen and is worth finding out
    /// about rather than averaging over.
    pub fn dimensions(&self) -> (count: Option<usize>)
        ensures
            match count {
                Some(count) => self.deep_view().dimensions() == Some(count as nat),
                None => self.deep_view().dimensions() is None,
            },
    {
        if self.vectors.len() == 0 {
            return None;
        }
        let first: usize = self.vectors[0].dimensions();
        let ghost all = self.deep_view().vectors;
        assert(all[0] == self.vectors[0].deep_view());
        let mut i: usize = 0;
        while i < self.vectors.len()
            invariant
                i <= self.vectors.len(),
                all == self.vectors.deep_view(),
                self.vectors.len() > 0,
                first == all[0].numbers.len(),
                forall|j: int| 0 <= j < i ==> (#[trigger] all[j]).numbers.len() == first,
            decreases self.vectors.len() - i,
        {
            assert(all[i as int] == self.vectors[i as int].deep_view());
            if self.vectors[i].dimensions() != first {
                return None;
            }
            i += 1;
        }
        Some(first)
    }

    /// Just the numbers, when the caller is writing them somewhere that already knows the
    /// model.
    ///
    /// Named rather than a `From`, because dropping the model is the one thing this module
    /// is careful about and it should be something a reader can see happening.
    pub fn into_vectors(self) -> (vectors: Vec<Vec<Number>>)
        ensures
            vectors.len() == self.deep_view().vectors.len(),
            forall|i: int|
                0 <= i < vectors.len() ==> (#[trigger] vectors[i]).deep_view()
                    == self.deep_view().vectors[i].numbers,
    {
        let ghost given = self.vectors@;
        let mut vectors: Vec<Vec<Number>> = Vec::new();
        for embedding in each: self.vectors
            invariant
                each.seq() == given,
                vectors.len() == each.index(),
                forall|i: int|
                    0 <= i < vectors.len() ==> (#[trigger] vectors[i]).deep_view()
                        == given[i].deep_view().numbers,
        {
            vectors.push(embedding.vector);
        }
        vectors
    }
}

/// What an embedding model can do when reached this way.
///
/// The same bargain [`crate::ModelCapabilities`] makes for chat: ask before you send, rather
/// than find out from a reply that is subtly not what you wanted.
#[derive(Debug, Clone, Copy, PartialEq, Eq, Structural)]
pub struct EmbeddingCapabilities {
    /// How many dimensions the vectors have by default.
    ///
    /// Zero means unknown, following [`crate::ModelCapabilities::none`]: a guessed dimension
    /// is a database column of the wrong width, and the caller has no way to know the number
    /// was invented.
    pub dimensions: u32,
    /// The most tokens one input may be.
    pub max_input_tokens: u32,
    /// The most inputs one call may carry.
    ///
    /// Zero means unknown. A caller batching against an unknown limit should batch small.
    pub max_batch: u32,
    /// Whether [`EmbedRequest::dimensions`] is honoured.
    pub resizable: bool,
    /// Whether [`Purpose`] changes the vector.
    ///
    /// False is a real answer, not a missing one: for most models the vector is the same
    /// either way, and a caller who knows that can stop threading the distinction through.
    pub purposes: bool,
    /// Where this pairing runs.
    pub reach: Reach,
}

impl EmbeddingCapabilities {
    /// A capability set with everything off and no size, for a provider to fill in.
    ///
    /// Zeros rather than plausible defaults, for the same reason
    /// [`crate::ModelCapabilities::none`] uses them.
    pub fn none(reach: Reach) -> (have: EmbeddingCapabilities)
        ensures
            have == (EmbeddingCapabilities {
                dimensions: 0,
                max_input_tokens: 0,
                max_batch: 0,
                resizable: false,
                purposes: false,
                reach,
            }),
    {
        EmbeddingCapabilities {
            dimensions: 0,
            max_input_tokens: 0,
            max_batch: 0,
            resizable: false,
            purposes: false,
            reach,
        }
    }

    /// Says how many dimensions the vectors have.
    #[must_use]
    pub fn with_dimensions(self, dimensions: u32) -> (have: EmbeddingCapabilities)
        ensures
            have == (EmbeddingCapabilities { dimensions, ..self }),
    {
        EmbeddingCapabilities { dimensions, ..self }
    }

    /// Says how long one input may be.
    #[must_use]
    pub fn with_max_input_tokens(self, tokens: u32) -> (have: EmbeddingCapabilities)
        ensures
            have == (EmbeddingCapabilities { max_input_tokens: tokens, ..self }),
    {
        EmbeddingCapabilities { max_input_tokens: tokens, ..self }
    }

    /// Says how many inputs one call may carry.
    #[must_use]
    pub fn with_max_batch(self, inputs: u32) -> (have: EmbeddingCapabilities)
        ensures
            have == (EmbeddingCapabilities { max_batch: inputs, ..self }),
    {
        EmbeddingCapabilities { max_batch: inputs, ..self }
    }

    /// Says the dimension count can be asked for.
    #[must_use]
    pub fn resizable(self) -> (have: EmbeddingCapabilities)
        ensures
            have == (EmbeddingCapabilities { resizable: true, ..self }),
    {
        EmbeddingCapabilities { resizable: true, ..self }
    }

    /// Says [`Purpose`] changes the vector.
    #[must_use]
    pub fn with_purposes(self) -> (have: EmbeddingCapabilities)
        ensures
            have == (EmbeddingCapabilities { purposes: true, ..self }),
    {
        EmbeddingCapabilities { purposes: true, ..self }
    }
}

/// Why a request is refused before anything is sent, where it is: there is nothing to embed, or
/// a number of dimensions is asked of a model that is known not to resize.
pub open spec fn refused_early(wanted: Wanted, known: Option<EmbeddingCapabilities>) -> Option<
    Failure,
> {
    if wanted.inputs.len() == 0 {
        Some(Failure::InvalidRequest("there is nothing to embed"@))
    } else {
        match (wanted.dimensions, known) {
            (Some(asked), Some(known)) => if known.resizable {
                None
            } else {
                Some(
                    Failure::Unsupported(
                        decimal(asked as nat) + " dimensions were asked for and "@ + wanted.model
                            + " does not resize"@,
                    ),
                )
            },
            _ => None,
        }
    }
}

/// Says why a request is refused before anything is sent, where it is.
pub fn refuse_early(request: &EmbedRequest, known: Option<EmbeddingCapabilities>) -> (refused:
    Option<Error>)
    ensures
        refused.deep_view() == refused_early(request.deep_view(), known),
{
    // Before the network, because an empty batch is a 400 from most endpoints and a loop that
    // reached the wire with nothing to say is a bug further up.
    if request.is_empty() {
        return Some(Error::InvalidRequest("there is nothing to embed".to_owned()));
    }
    if let (Some(asked), Some(known)) = (request.dimensions, known) {
        if !known.resizable {
            return Some(
                Error::Unsupported(
                    decimal_text(asked as u128).concat(
                        " dimensions were asked for and ",
                    ).concat(request.model.as_str()).concat(" does not resize"),
                ),
            );
        }
    }
    None
}

/// What is known of a model, where somebody said. Whether a purpose changes the vector goes by
/// the shape, which has a place for one or has none.
pub open spec fn known_of(
    known: Map<Seq<char>, EmbeddingCapabilities>,
    model: Seq<char>,
    purposes: bool,
) -> Option<EmbeddingCapabilities> {
    if known.contains_key(model) {
        Some(EmbeddingCapabilities { purposes, ..known[model] })
    } else {
        None
    }
}

/// The width of the first vector that is not as wide as this, where there is one.
pub open spec fn other_width(vectors: Seq<Vector>, width: nat) -> Option<nat>
    decreases vectors.len(),
{
    if vectors.len() == 0 {
        None
    } else {
        match other_width(vectors.drop_last(), width) {
            Some(other) => Some(other),
            None => if vectors.last().numbers.len() == width {
                None
            } else {
                Some(vectors.last().numbers.len())
            },
        }
    }
}

/// The width of the first vector that came back with another one than was asked for, and the
/// width that was.
pub open spec fn wrong_width(asked: Option<u32>, vectors: Seq<Vector>) -> Option<(nat, nat)> {
    match asked {
        Some(asked) => match other_width(vectors, asked as nat) {
            Some(got) => Some((got, asked as nat)),
            None => None,
        },
        None => None,
    }
}

/// Vectors among which none has another width all have this one, and the other way round.
pub proof fn no_other_width_is_one_width(vectors: Seq<Vector>, width: nat)
    ensures
        other_width(vectors, width) is None <==> forall|i: int|
            0 <= i < vectors.len() ==> (#[trigger] vectors[i]).numbers.len() == width,
    decreases vectors.len(),
{
    if vectors.len() > 0 {
        let less = vectors.drop_last();
        no_other_width_is_one_width(less, width);
        if other_width(vectors, width) is None {
            assert forall|i: int| 0 <= i < vectors.len() implies (
            #[trigger] vectors[i]).numbers.len() == width by {
                if i < less.len() {
                    assert(less[i] == vectors[i]);
                }
            }
        }
        if forall|i: int|
            0 <= i < vectors.len() ==> (#[trigger] vectors[i]).numbers.len() == width {
            assert forall|i: int| 0 <= i < less.len() implies (#[trigger] less[i]).numbers.len()
                == width by {
                assert(less[i] == vectors[i]);
            }
            assert(vectors[vectors.len() - 1].numbers.len() == width);
        }
    }
}

/// A vector early on that has another width is the one that all of them give.
proof fn other_width_further_on(vectors: Seq<Vector>, width: nat, count: int)
    requires
        0 <= count <= vectors.len(),
        other_width(vectors.take(count), width) is Some,
    ensures
        other_width(vectors, width) == other_width(vectors.take(count), width),
    decreases vectors.len() - count,
{
    if count < vectors.len() {
        assert(vectors.take(count + 1).drop_last() == vectors.take(count));
        other_width_further_on(vectors, width, count + 1);
    } else {
        assert(vectors.take(count) == vectors);
    }
}

/// The width of the first vector that came back with another one than was asked for, and the
/// width that was.
pub fn find_wrong_width(asked: Option<u32>, vectors: &Vec<Embedding>) -> (wrong: Option<
    (usize, u32),
>)
    ensures
        match wrong {
            Some((got, asked_for)) => wrong_width(asked, vectors.deep_view()) == Some(
                (got as nat, asked_for as nat),
            ),
            None => wrong_width(asked, vectors.deep_view()) is None,
        },
{
    let width: u32 = match asked {
        Some(width) => width,
        None => {
            return None;
        },
    };
    let ghost all = vectors.deep_view();
    let mut i: usize = 0;
    assert(all.take(0) == Seq::<Vector>::empty());
    while i < vectors.len()
        invariant
            i <= vectors.len(),
            all == vectors.deep_view(),
            asked == Some(width),
            other_width(all.take(i as int), width as nat) is None,
        decreases vectors.len() - i,
    {
        let got: usize = vectors[i].dimensions();
        proof {
            assert(all.take(i + 1).drop_last() == all.take(i as int));
            assert(all.take(i + 1).last() == vectors[i as int].deep_view());
        }
        if got as u64 != width as u64 {
            proof {
                other_width_further_on(all, width as nat, i + 1);
            }
            return Some((got, width));
        }
        i += 1;
    }
    assert(all.take(i as int) == all);
    None
}

/// The numbers in an array, where it holds nothing else.
pub open spec fn numbers_in(items: Seq<Tree>) -> Option<Seq<Seq<char>>>
    decreases items.len(),
{
    if items.len() == 0 {
        Some(Seq::empty())
    } else {
        match (numbers_in(items.drop_last()), items.last().as_number()) {
            (Some(numbers), Some(number)) => Some(numbers.push(number)),
            _ => None,
        }
    }
}

/// An array with something in it that is no number, early on, gives no numbers.
proof fn no_numbers_further_on(items: Seq<Tree>, count: int)
    requires
        0 <= count <= items.len(),
        numbers_in(items.take(count)) is None,
    ensures
        numbers_in(items) is None,
    decreases items.len() - count,
{
    if count < items.len() {
        assert(items.take(count + 1).drop_last() == items.take(count));
        no_numbers_further_on(items, count + 1);
    } else {
        assert(items.take(count) == items);
    }
}

/// Reads the numbers in an array.
pub fn read_numbers(items: &Vec<Json>) -> (numbers: Option<Vec<Number>>)
    ensures
        numbers.deep_view() == numbers_in(trees(items@)),
{
    let ghost all = trees(items@);
    let mut numbers: Vec<Number> = Vec::new();
    assert(numbers.deep_view() == Seq::<Seq<char>>::empty());
    assert(all.take(0) == Seq::<Tree>::empty());
    let mut i: usize = 0;
    while i < items.len()
        invariant
            i <= items.len(),
            all == trees(items@),
            numbers_in(all.take(i as int)) == Some(numbers.deep_view()),
        decreases items.len() - i,
    {
        proof {
            assert(all.take(i + 1).drop_last() == all.take(i as int));
            assert(all.take(i + 1).last() == items[i as int].tree());
        }
        match items[i].as_number() {
            Some(number) => {
                let ghost before = numbers.deep_view();
                numbers.push(number);
                assert(numbers.deep_view() == before.push(number@));
            },
            None => {
                proof {
                    no_numbers_further_on(all, i + 1);
                }
                return None;
            },
        }
        i += 1;
    }
    assert(all.take(i as int) == all);
    Some(numbers)
}

/// Whether two vectors can be compared does not depend on which comes first, and never holds
/// across models.
pub proof fn comparing_needs_one_model(a: Vector, b: Vector)
    ensures
        a.compares_with(b) == b.compares_with(a),
        a.compares_with(b) ==> a.model == b.model,
{
}

/// A request is refused before it is sent exactly where there is nothing to embed or a width is
/// asked for of a model that is known not to resize.
pub proof fn only_what_cannot_be_served_is_refused(
    wanted: Wanted,
    known: Option<EmbeddingCapabilities>,
)
    ensures
        refused_early(wanted, known) is Some <==> wanted.inputs.len() == 0 || (wanted.dimensions
            is Some && known is Some && !known->0.resizable),
        wanted.inputs.len() == 0 ==> refused_early(wanted, known)->0 is InvalidRequest,
        wanted.inputs.len() > 0 && refused_early(wanted, known) is Some ==> refused_early(
            wanted,
            known,
        )->0 is Unsupported,
{
}

/// What is known of a model is what was told of it, but for whether purposes are told apart, which
/// the provider answers for all its models.
pub proof fn what_is_known_is_what_was_told(
    known: Map<Seq<char>, EmbeddingCapabilities>,
    model: Seq<char>,
    purposes: bool,
)
    ensures
        known_of(known, model, purposes) is Some <==> known.contains_key(model),
        known.contains_key(model) ==> ({
            let have = known_of(known, model, purposes)->0;
            &&& have.dimensions == known[model].dimensions
            &&& have.max_input_tokens == known[model].max_input_tokens
            &&& have.resizable == known[model].resizable
            &&& have.purposes == purposes
        }),
{
}

/// A vector is read number by number, and not at all where one of them is no number.
pub proof fn numbers_are_read_in_order(items: Seq<Tree>, item: Tree)
    ensures
        numbers_in(Seq::<Tree>::empty()) == Some(Seq::<Seq<char>>::empty()),
        numbers_in(items.push(item)) is Some <==> numbers_in(items) is Some && item.as_number()
            is Some,
        numbers_in(items.push(item)) is Some ==> numbers_in(items.push(item))->0 == numbers_in(
            items,
        )->0.push(item.as_number()->0),
{
    assert(items.push(item).drop_last() == items);
}

/// A purpose is written under its own name.
pub proof fn a_purpose_has_its_own_name()
    ensures
        Purpose::Document.name() == "document"@,
        Purpose::Query.name() == "query"@,
{
}

/// Vectors have a width where there are some and all have one, which is theirs.
pub proof fn vectors_of_one_width_have_it(vectors: Vectors, i: int)
    requires
        0 <= i < vectors.vectors.len(),
    ensures
        vectors.dimensions() is Some ==> vectors.dimensions()->0 == vectors.vectors[i].numbers.len(),
        vectors.dimensions() is None ==> exists|a: int, b: int|
            0 <= a < vectors.vectors.len() && 0 <= b < vectors.vectors.len() && (
            #[trigger] vectors.vectors[a]).numbers.len() != (
            #[trigger] vectors.vectors[b]).numbers.len(),
{
    if vectors.dimensions() is None {
        let a = choose|a: int|
            0 <= a < vectors.vectors.len() && (#[trigger] vectors.vectors[a]).numbers.len()
                != vectors.vectors[0].numbers.len();
        assert(vectors.vectors[a].numbers.len() != vectors.vectors[0].numbers.len());
    }
}

/// What is said of a request that is refused before it is sent.
pub proof fn what_is_refused_is_said_so(wanted: Wanted, known: Option<EmbeddingCapabilities>)
    ensures
        wanted.inputs.len() == 0 ==> refused_early(wanted, known) == Some(
            Failure::InvalidRequest("there is nothing to embed"@),
        ),
        (wanted.inputs.len() > 0 && wanted.dimensions is Some && known is Some
            && !known->0.resizable) ==> refused_early(wanted, known) == Some(
            Failure::Unsupported(
                decimal(wanted.dimensions->0 as nat) + " dimensions were asked for and "@
                    + wanted.model + " does not resize"@,
            ),
        ),
{
}

/// Where a width that was asked for is not had, what is said is the width that was asked for and
/// one that a vector has instead.
pub proof fn a_wrong_width_is_one_that_a_vector_has(asked: Option<u32>, vectors: Seq<Vector>)
    ensures
        asked is None ==> wrong_width(asked, vectors) is None,
        wrong_width(asked, vectors) is Some ==> (wrong_width(asked, vectors)->0).1 == asked->0 && (
        wrong_width(asked, vectors)->0).0 != asked->0 && exists|i: int|
            0 <= i < vectors.len() && (#[trigger] vectors[i]).numbers.len() == (wrong_width(
                asked,
                vectors,
            )->0).0,
{
    if asked is Some {
        another_width_is_that_of_a_vector(vectors, asked->0 as nat);
    }
}

/// Another width is that of one of the vectors.
proof fn another_width_is_that_of_a_vector(vectors: Seq<Vector>, width: nat)
    ensures
        other_width(vectors, width) is Some ==> other_width(vectors, width)->0 != width
            && exists|i: int|
            0 <= i < vectors.len() && (#[trigger] vectors[i]).numbers.len() == other_width(
                vectors,
                width,
            )->0,
    decreases vectors.len(),
{
    if vectors.len() > 0 {
        let rest = vectors.drop_last();
        another_width_is_that_of_a_vector(rest, width);
        if other_width(rest, width) is Some {
            let i = choose|i: int|
                0 <= i < rest.len() && (#[trigger] rest[i]).numbers.len() == other_width(
                    rest,
                    width,
                )->0;
            assert(vectors[i] == rest[i]);
        } else {
            assert(vectors[vectors.len() - 1] == vectors.last());
        }
    }
}

} // verus!
