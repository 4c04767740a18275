//! What the protocols write and read alike.

use crate::chat::stream::{Event, Happening};
use crate::cost::usage::{Usage, UsageCoverage};
use crate::error::{Error, Failure};
use crate::json::{trees, Json, Tree};
use crate::model::ModelId;
use crate::order::{ordered, sort};
use crate::secret::Secret;
use crate::text::start_of;
use vstd::prelude::*;
use vstd::utf8::*;

verus! {

/// A document, or an object without members where there is none.
pub open spec fn object_or_empty(tree: Option<Tree>) -> Tree {
    match tree {
        Some(tree) => tree,
        None => Tree::empty_object(),
    }
}

/// A name, or the one that was asked for where there is none.
pub open spec fn served_by(model: Option<Seq<char>>, asked_for: Seq<char>) -> Seq<char> {
    match model {
        Some(model) => model,
        None => asked_for,
    }
}

/// An event for tokens, where some were reported.
pub open spec fn metered(usage: Usage) -> Seq<Happening> {
    if usage.covers() == UsageCoverage::Absent {
        Seq::empty()
    } else {
        seq![Happening::Metered(usage)]
    }
}

/// The message for a frame that holds no document.
pub open spec fn not_json(data: Seq<char>) -> Failure {
    Failure::Unreadable("a frame that was not JSON: "@ + start_of(data, 120))
}

/// The names that the rows of a model list give in this field, in the order given.
pub open spec fn ids_in(items: Seq<Tree>, field: Seq<char>) -> Seq<Seq<char>>
    decreases items.len(),
{
    if items.len() == 0 {
        Seq::empty()
    } else {
        match items.last().text_at(field) {
            Some(id) => ids_in(items.drop_last(), field).push(id),
            None => ids_in(items.drop_last(), field),
        }
    }
}

/// The names that a model list gives.
pub open spec fn listed_in(body: Tree) -> Result<Seq<Seq<char>>, Failure> {
    match body.array_at("data"@) {
        None => Err(Failure::Unreadable("the model list had no data array"@)),
        Some(items) => Ok(ids_in(items, "id"@)),
    }
}

/// A document of its own, or an object without members where there is none.
pub(crate) fn copied_or_empty(json: Option<&Json>) -> (copy: Json)
    ensures
        copy.tree() == object_or_empty(json.deep_view()),
{
    match json {
        Some(json) => json.clone(),
        None => Json::object(),
    }
}

/// Puts an event for tokens behind others, where some were reported.
pub(crate) fn meter(events: &mut Vec<Event>, usage: Usage)
    ensures
        final(events).deep_view() == old(events).deep_view() + metered(usage),
{
    let ghost before = events.deep_view();
    if usage.coverage() != UsageCoverage::Absent {
        events.push(Event::Metered(usage));
        assert(events.deep_view() == before + seq![Happening::Metered(usage)]);
    } else {
        assert(events.deep_view() == before + Seq::<Happening>::empty());
    }
}

/// No events, or one.
pub(crate) fn at_most_one(event: Option<Event>) -> (events: Vec<Event>)
    ensures
        events.deep_view() == (match event {
            Some(event) => seq![event.deep_view()],
            None => Seq::empty(),
        }),
{
    let mut events: Vec<Event> = Vec::new();
    match event {
        Some(event) => {
            events.push(event);
            assert(events.deep_view() == seq![event.deep_view()]);
        },
        None => {
            assert(events.deep_view() == Seq::<Happening>::empty());
        },
    }
    events
}

/// Reads the names that the rows of a model list give in this field.
pub(crate) fn read_ids(items: &Vec<Json>, field: &str) -> (names: Vec<String>)
    ensures
        names.deep_view() == ids_in(trees(items@), field@),
{
    let mut names: Vec<String> = Vec::new();
    let mut i: usize = 0;
    assert(trees(items@).take(0) == Seq::<Tree>::empty());
    assert(names.deep_view() == Seq::<Seq<char>>::empty());
    while i < items.len()
        invariant
            i <= items.len(),
            names.deep_view() == ids_in(trees(items@).take(i as int), field@),
        decreases items.len() - i,
    {
        let ghost before = names.deep_view();
        proof {
            let some = trees(items@).take(i + 1);
            assert(some.drop_last() == trees(items@).take(i as int));
            assert(some.last() == items[i as int].tree());
        }
        if let Some(id) = items[i].text_at(field) {
            names.push(id.to_owned());
            assert(names.deep_view() == before.push(id@));
        }
        i += 1;
    }
    assert(trees(items@).take(i as int) == trees(items@));
    names
}

/// Names as model names.
pub(crate) fn as_models(names: Vec<String>) -> (ids: Vec<ModelId>)
    ensures
        ids.deep_view() == names.deep_view(),
{
    let mut ids: Vec<ModelId> = Vec::new();
    let mut i: usize = 0;
    while i < names.len()
        invariant
            i <= names.len(),
            ids.deep_view() == names.deep_view().take(i as int),
        decreases names.len() - i,
    {
        let ghost before = ids.deep_view();
        ids.push(ModelId(names[i].clone()));
        assert(ids.deep_view() == before.push(names[i as int]@));
        i += 1;
    }
    assert(ids.deep_view() == names.deep_view());
    ids
}

/// Reads a model list that gives its names under `data`, in the order of the names.
pub fn read_model_list(body: &Json) -> (ids: Result<Vec<ModelId>, Error>)
    ensures
        match (ids, listed_in(body.tree())) {
            (Ok(ids), Ok(names)) => ordered(ids.deep_view()) && ids.deep_view().to_multiset()
                == names.to_multiset(),
            (Err(why), Err(failure)) => why.deep_view() == failure,
            _ => false,
        },
{
    match body.array_at("data") {
        None => Err(Error::Unreadable("the model list had no data array".to_owned())),
        Some(items) => Ok(as_models(sort(read_ids(items, "id")))),
    }
}

/// The message for a credential that is not text.
pub open spec fn key_not_text() -> Failure {
    Failure::Auth("the API key is not valid UTF-8"@)
}

/// The value of a credential as text.
pub(crate) fn key_text(key: &Secret) -> (text: Result<String, Error>)
    ensures
        text is Ok <==> valid_utf8(key@.bytes),
        text matches Ok(text) ==> text@ == decode_utf8(key@.bytes),
        text matches Err(why) ==> why.deep_view() == key_not_text(),
{
    match key.expose_str() {
        Some(text) => {
            proof {
                encode_utf8_decode_utf8(text@);
            }
            Ok(text)
        },
        None => Err(Error::Auth("the API key is not valid UTF-8".to_owned())),
    }
}

/// What the standard base64 alphabet with padding writes for bytes.
pub uninterp spec fn base64_text(bytes: Seq<u8>) -> Seq<char>;

/// Calls `encode` of base64's `STANDARD` engine. The text depends on the bytes alone, and is
/// four characters for every three bytes or part of three.
#[verifier::external_body]
pub(crate) fn base64(bytes: &Vec<u8>) -> (text: String)
    ensures
        text@ == base64_text(bytes@),
        text@.len() == (bytes@.len() + 2) / 3 * 4,
{
    base64::Engine::encode(&base64::engine::general_purpose::STANDARD, bytes)
}

/// The first item of a list, where there is a list and it has one.
pub open spec fn first_of(items: Option<Seq<Tree>>) -> Option<Tree> {
    match items {
        Some(items) => if items.len() > 0 {
            Some(items[0])
        } else {
            None
        },
        None => None,
    }
}

/// The first item of the list under this name, where there is one.
pub(crate) fn first_at<'a>(json: &'a Json, name: &str) -> (first: Option<&'a Json>)
    ensures
        first.deep_view() == first_of(json.tree().array_at(name@)),
{
    match json.array_at(name) {
        Some(items) => if items.len() > 0 {
            assert(trees(items@)[0] == items[0].tree());
            Some(&items[0])
        } else {
            None
        },
        None => None,
    }
}

/// A part of a prompt that was not served from cache: the whole less the cached part, and
/// nothing where a provider reports more cached than there was.
pub open spec fn uncached(whole: Option<u64>, cached: Option<u64>) -> Option<u64> {
    match (whole, cached) {
        (None, _) => None,
        (Some(whole), None) => Some(whole),
        (Some(whole), Some(cached)) => if cached > whole {
            Some(0)
        } else {
            Some((whole - cached) as u64)
        },
    }
}

/// The part of a prompt that was not served from cache.
pub(crate) fn less_cached(whole: Option<u64>, cached: Option<u64>) -> (rest: Option<u64>)
    ensures
        rest == uncached(whole, cached),
{
    match whole {
        None => None,
        Some(whole) => match cached {
            None => Some(whole),
            Some(cached) => Some(whole.saturating_sub(cached)),
        },
    }
}

/// The cached part and the rest of a prompt come to the whole of it, where a provider does not
/// report more cached than there was.
pub proof fn a_prompt_is_split_without_loss(whole: u64, cached: u64)
    requires
        cached <= whole,
    ensures
        uncached(Some(whole), Some(cached)) matches Some(rest) && rest + cached == whole,
{
}

/// A list of models is read name by name in its order, and an entry without one is left out.
pub proof fn a_list_is_read_name_by_name(items: Seq<Tree>, item: Tree, field: Seq<char>)
    ensures
        ids_in(Seq::<Tree>::empty(), field).len() == 0,
        item.text_at(field) is None ==> ids_in(items.push(item), field) == ids_in(items, field),
        item.text_at(field) is Some ==> ids_in(items.push(item), field) == ids_in(
            items,
            field,
        ).push(item.text_at(field)->0),
{
    assert(items.push(item).drop_last() == items);
}

/// A catalogue is the names of its data.
pub proof fn a_catalogue_is_the_names_of_its_data(body: Tree)
    ensures
        listed_in(body) is Ok <==> body.array_at("data"@) is Some,
        listed_in(body) is Ok ==> listed_in(body)->Ok_0 == ids_in(body.array_at("data"@)->0, "id"@),
        listed_in(body) is Err ==> listed_in(body)->Err_0 is Unreadable,
{
}

/// Tokens are told of exactly where some were reported, as they were.
pub proof fn only_reported_tokens_are_told_of(usage: Usage)
    ensures
        metered(usage).len() == 1 <==> usage.input_tokens is Some || usage.cache_read_tokens is Some
            || usage.cache_write_tokens is Some || usage.output_tokens is Some,
        metered(usage).len() <= 1,
        metered(usage).len() == 1 ==> metered(usage)[0] == Happening::Metered(usage),
{
}

/// What is said of a frame that cannot be read begins with its start, and what is said of a key or
/// a list that cannot be is always the same.
pub proof fn what_cannot_be_read_is_said_so(data: Seq<char>, body: Tree)
    ensures
        not_json(data) == Failure::Unreadable(
            "a frame that was not JSON: "@ + (if data.len() <= 120 {
                data
            } else {
                data.take(120)
            }),
        ),
        key_not_text() == Failure::Auth("the API key is not valid UTF-8"@),
        body.array_at("data"@) is None ==> listed_in(body) == Err::<Seq<Seq<char>>, Failure>(
            Failure::Unreadable("the model list had no data array"@),
        ),
{
}

} // verus!
