//! The OpenAI chat completions shape, written against the shape rather than the vendor.
//!
//! OpenAI, Groq, Together, vLLM, Ollama, LM Studio and many others answer at
//! `/chat/completions` with the same envelope, so the base URL is a constructor argument and
//! one provider covers them all. It is the one provider whose reach you supply: a model on
//! your laptop and a hosted API look identical from here and are not the same place for your
//! data to go.
//!
//! # Usage
//!
//! `prompt_tokens` here is the whole prompt including the cached part, and this crate's
//! `input_tokens` is the part that was not cached, so the cached part is subtracted.

use crate::chat::message::{answers, Block, ContentBlock, ImageSource, Message, Role, Source, StopReason, Turn};
use crate::chat::request::{Asked, ChatRequest, Tool, ToolSchema};
use crate::chat::response::{ChatResponse, Reply};
use crate::chat::stream::{
    after_in_parts, arrived_input, input_of, one_event_is_taken_in, tool_input, with_text,
    with_thinking, Event, Happening, Taken,
};
use crate::cost::usage::Usage;
use crate::error::{outcome, Error, Failure};
use crate::json::{json_text, trees, Json, Tree};
use crate::model::{ModelId, Reach};
use crate::providers::anthropic::api::role_name;
use crate::providers::api::{ApiProvider, Endpoint, Frame, Protocol, SseFrame};
use crate::providers::wire::{
    base64, base64_text, first_at, first_of, key_not_text, key_text, less_cached, listed_in, meter,
    metered, read_model_list, served_by, uncached,
};
use crate::registry::Registry;
use crate::secret::{Credential, Secret};
use crate::text::{
    first_chars, followed_by, join, joined, or_empty, owned, owned_or_empty, same, start_of, trim,
    trimmed, without_trailing,
};
use std::sync::Arc;
use vstd::prelude::*;
use vstd::utf8::*;

verus! {

/// The chat completions protocol, under the name of whoever speaks it.
#[derive(Debug, Clone, Copy, PartialEq, Eq)]
pub struct ChatCompletions {
    id: &'static str,
}

/// The address of an image: its own, or one that holds its bytes.
pub open spec fn image_url_of(media_type: Seq<char>, source: Source) -> Seq<char> {
    match source {
        Source::Url(url) => url,
        Source::Bytes(bytes) => "data:"@ + media_type + ";base64,"@ + base64_text(bytes),
    }
}

/// An image as it goes on the wire.
pub open spec fn wire_image_of(media_type: Seq<char>, source: Source) -> Tree {
    Tree::empty_object().with("type"@, Tree::Text("image_url"@)).with(
        "image_url"@,
        Tree::empty_object().with("url"@, Tree::Text(image_url_of(media_type, source))),
    )
}

/// A tool call as it goes on the wire, its arguments as text.
pub open spec fn wire_call_of(id: Seq<char>, name: Seq<char>, input: Tree) -> Tree {
    Tree::empty_object().with("id"@, Tree::Text(id)).with("type"@, Tree::Text("function"@)).with(
        "function"@,
        Tree::empty_object().with("name"@, Tree::Text(name)).with(
            "arguments"@,
            Tree::Text(json_text(input)),
        ),
    )
}

/// What a tool produced as it goes on the wire. The protocol has no error flag, so a failure is
/// said in the content: a model told a tool failed can work around it.
pub open spec fn wire_result_of(
    tool_use_id: Seq<char>,
    content: Seq<char>,
    is_error: bool,
) -> Tree {
    Tree::empty_object().with("role"@, Tree::Text("tool"@)).with(
        "tool_call_id"@,
        Tree::Text(tool_use_id),
    ).with(
        "content"@,
        Tree::Text(
            if is_error {
                "error: "@ + content
            } else {
                content
            },
        ),
    )
}

/// What tools produced, in the order of the blocks.
pub open spec fn results_of(blocks: Seq<Block>) -> Seq<Tree>
    decreases blocks.len(),
{
    if blocks.len() == 0 {
        Seq::empty()
    } else {
        match blocks.last() {
            Block::ToolResult { tool_use_id, content, is_error } => results_of(
                blocks.drop_last(),
            ).push(wire_result_of(tool_use_id, content, is_error)),
            _ => results_of(blocks.drop_last()),
        }
    }
}

/// The tool calls, in the order of the blocks.
pub open spec fn calls_of(blocks: Seq<Block>) -> Seq<Tree>
    decreases blocks.len(),
{
    if blocks.len() == 0 {
        Seq::empty()
    } else {
        match blocks.last() {
            Block::ToolUse { id, name, input } => calls_of(blocks.drop_last()).push(
                wire_call_of(id, name, input),
            ),
            _ => calls_of(blocks.drop_last()),
        }
    }
}

/// The images, in the order of the blocks.
pub open spec fn images_of(blocks: Seq<Block>) -> Seq<Tree>
    decreases blocks.len(),
{
    if blocks.len() == 0 {
        Seq::empty()
    } else {
        match blocks.last() {
            Block::Image { media_type, source } => images_of(blocks.drop_last()).push(
                wire_image_of(media_type, source),
            ),
            _ => images_of(blocks.drop_last()),
        }
    }
}

/// Texts as parts of a turn.
pub open spec fn text_parts_of(texts: Seq<Seq<char>>) -> Seq<Tree> {
    Seq::new(
        texts.len(),
        |i: int|
            Tree::empty_object().with("type"@, Tree::Text("text"@)).with(
                "text"@,
                Tree::Text(texts[i]),
            ),
    )
}

/// The content of a turn: its texts in one where there is no image, and as parts with the
/// images behind them where there is one.
pub open spec fn content_of(blocks: Seq<Block>) -> Tree {
    if images_of(blocks).len() == 0 {
        Tree::Text(joined(answers(blocks), "\n"@))
    } else {
        Tree::Array(text_parts_of(answers(blocks)) + images_of(blocks))
    }
}

/// A turn as it goes on the wire: what tools produced, each in a turn of its own, and then the
/// rest where there is any. Reasoning and verbatim blocks of other protocols have no place
/// here, and nothing in this protocol checks the history against a signature.
pub open spec fn wire_message_of(turn: Turn) -> Seq<Tree> {
    let blocks = turn.content;
    if answers(blocks).len() == 0 && calls_of(blocks).len() == 0 && images_of(blocks).len() == 0 {
        results_of(blocks)
    } else {
        let said = Tree::empty_object().with("role"@, Tree::Text(role_name(turn.role))).with(
            "content"@,
            content_of(blocks),
        );
        results_of(blocks).push(
            if calls_of(blocks).len() == 0 {
                said
            } else {
                said.with("tool_calls"@, Tree::Array(calls_of(blocks)))
            },
        )
    }
}

/// The conversation as it goes on the wire.
pub open spec fn wire_messages_of(turns: Seq<Turn>) -> Seq<Tree>
    decreases turns.len(),
{
    if turns.len() == 0 {
        Seq::empty()
    } else {
        wire_messages_of(turns.drop_last()) + wire_message_of(turns.last())
    }
}

/// The system instructions as a turn of their own.
pub open spec fn system_of(system: Option<Seq<char>>) -> Seq<Tree> {
    match system {
        Some(system) => seq![
            Tree::empty_object().with("role"@, Tree::Text("system"@)).with(
                "content"@,
                Tree::Text(system),
            ),
        ],
        None => Seq::empty(),
    }
}

/// A tool as it goes on the wire.
pub open spec fn wire_tool_of(tool: Tool) -> Tree {
    Tree::empty_object().with("type"@, Tree::Text("function"@)).with(
        "function"@,
        Tree::empty_object().with("name"@, Tree::Text(tool.name)).with(
            "description"@,
            Tree::Text(tool.description),
        ).with("parameters"@, tool.parameters),
    )
}

/// The tools of a request as they go on the wire.
pub open spec fn wire_tools_of(tools: Seq<Tool>) -> Seq<Tree> {
    Seq::new(tools.len(), |i: int| wire_tool_of(tools[i]))
}

/// A request as it goes on the wire.
pub open spec fn request_tree(request: Asked) -> Tree {
    let base = Tree::empty_object().with("model"@, Tree::Text(request.model)).with(
        "messages"@,
        Tree::Array(system_of(request.system) + wire_messages_of(request.messages)),
    );
    let base = match request.generation.max_tokens {
        Some(max) => base.with("max_completion_tokens"@, Tree::Integer(max as int)),
        None => base,
    };
    let base = match request.generation.temperature {
        Some(temperature) => base.with("temperature"@, Tree::Float(temperature)),
        None => base,
    };
    let base = match request.generation.top_p {
        Some(top_p) => base.with("top_p"@, Tree::Float(top_p)),
        None => base,
    };
    let base = if request.tools.len() > 0 {
        base.with("tools"@, Tree::Array(wire_tools_of(request.tools)))
    } else {
        base
    };
    match request.response_schema {
        Some(schema) => base.with(
            "response_format"@,
            Tree::empty_object().with("type"@, Tree::Text("json_schema"@)).with(
                "json_schema"@,
                Tree::empty_object().with("name"@, Tree::Text("response"@)).with(
                    "schema"@,
                    schema,
                ).with("strict"@, Tree::Bool(true)),
            ),
        ),
        None => base,
    }
}

/// A request as it goes on the wire when its reply is to arrive in pieces. Usage is asked for
/// explicitly, because this shape reports none in a streamed call otherwise.
pub open spec fn stream_tree(request: Asked) -> Tree {
    request_tree(request).with("stream"@, Tree::Bool(true)).with(
        "stream_options"@,
        Tree::empty_object().with("include_usage"@, Tree::Bool(true)),
    )
}

/// The member of a member, where both are there.
pub open spec fn within(tree: Option<Tree>, name: Seq<char>) -> Option<Tree> {
    match tree {
        Some(tree) => tree.get(name),
        None => None,
    }
}

/// The text of a member of a member, where both are there and it is a string.
pub open spec fn text_within(tree: Option<Tree>, name: Seq<char>) -> Option<Seq<char>> {
    match tree {
        Some(tree) => tree.text_at(name),
        None => None,
    }
}

/// The tool call that a document gives. Arguments that do not parse are kept as text.
pub open spec fn call_in(call: Tree) -> Block {
    let function = call.get("function"@);
    Block::ToolUse {
        id: or_empty(call.text_at("id"@)),
        name: or_empty(text_within(function, "name"@)),
        input: match text_within(function, "arguments"@) {
            Some(arguments) => input_of(arguments),
            None => Tree::empty_object(),
        },
    }
}

/// The answer in a message, where there is some.
pub open spec fn said_in(message: Tree) -> Seq<Block> {
    let text = or_empty(message.text_at("content"@));
    if text.len() > 0 {
        seq![Block::Text(text)]
    } else {
        Seq::empty()
    }
}

/// The reasoning in a message, where a backend behind this shape gives some. It goes by either
/// of two names.
pub open spec fn thought_in(message: Tree) -> Seq<Block> {
    let text = or_empty(message.text_at("reasoning_content"@)) + or_empty(
        message.text_at("reasoning"@),
    );
    if text.len() > 0 {
        seq![Block::Thinking { text, signature: None }]
    } else {
        Seq::empty()
    }
}

/// The tool calls in a message.
pub open spec fn calls_in(message: Tree) -> Seq<Tree> {
    match message.array_at("tool_calls"@) {
        Some(calls) => calls,
        None => Seq::empty(),
    }
}

/// The blocks that a message gives: its text and its reasoning where it has some, and its tool
/// calls.
pub open spec fn blocks_in(message: Tree) -> Seq<Block> {
    said_in(message) + thought_in(message) + calls_in(message).map_values(
        |call: Tree| call_in(call),
    )
}

/// What a stop reason means.
pub open spec fn stop_of(reason: Option<Seq<char>>) -> StopReason {
    match reason {
        None => StopReason::Other,
        Some(reason) => if reason == "stop"@ {
            StopReason::EndTurn
        } else if reason == "tool_calls"@ || reason == "function_call"@ {
            StopReason::ToolUse
        } else if reason == "length"@ {
            StopReason::MaxTokens
        } else if reason == "content_filter"@ {
            StopReason::Refusal
        } else if reason == "context_length_exceeded"@ {
            StopReason::ContextWindowExceeded
        } else {
            StopReason::Other
        },
    }
}

/// The tokens that a document reports. This protocol has no cache write count: absent rather
/// than zero, because a zero would price a cache write as free.
pub open spec fn usage_in(tree: Option<Tree>) -> Usage {
    match tree {
        None => Usage::nothing(),
        Some(usage) => {
            let cached = match usage.get("prompt_tokens_details"@) {
                Some(details) => details.u64_at("cached_tokens"@),
                None => None,
            };
            Usage {
                input_tokens: uncached(usage.u64_at("prompt_tokens"@), cached),
                cache_read_tokens: cached,
                cache_write_tokens: None,
                output_tokens: usage.u64_at("completion_tokens"@),
                estimated: false,
            }
        },
    }
}

/// The reply that a document gives.
pub open spec fn reply_of(body: Tree, asked_for: Seq<char>) -> Result<Reply, Failure> {
    match first_of(body.array_at("choices"@)) {
        None => Err(Failure::Unreadable("the reply carried no choices"@)),
        Some(choice) => match choice.get("message"@) {
            None => Err(Failure::Unreadable("the choice carried no message"@)),
            Some(message) => if blocks_in(message).len() == 0 {
                Err(Failure::Unreadable("the reply carried no content this crate could read"@))
            } else {
                Ok(
                    Reply {
                        message: Turn { role: Role::Assistant, content: blocks_in(message) },
                        stop_reason: stop_of(choice.text_at("finish_reason"@)),
                        stop_details: choice.text_at("finish_reason"@),
                        usage: usage_in(body.get("usage"@)),
                        model: served_by(body.text_at("model"@), asked_for),
                    },
                )
            },
        },
    }
}

/// An event of one kind for a text that is not empty.
pub open spec fn text_event(text: Option<Seq<char>>, thinking: bool) -> Seq<Happening> {
    match text {
        Some(text) => if text.len() == 0 {
            Seq::empty()
        } else if thinking {
            seq![Happening::ThinkingDelta(text)]
        } else {
            seq![Happening::TextDelta(text)]
        },
        None => Seq::empty(),
    }
}

/// The events of one tool call in a frame. A name means a new call; later frames for the same
/// call carry only more arguments.
pub open spec fn call_events(call: Tree) -> Seq<Happening> {
    let function = call.get("function"@);
    (match text_within(function, "name"@) {
        Some(name) => seq![
            Happening::ToolUseStarted { id: or_empty(call.text_at("id"@)), name },
        ],
        None => Seq::empty(),
    }) + (match text_within(function, "arguments"@) {
        Some(arguments) => if arguments.len() > 0 {
            seq![Happening::ToolArgumentsDelta(arguments)]
        } else {
            Seq::empty()
        },
        None => Seq::empty(),
    })
}

/// The events of the tool calls in a frame, in turn.
pub open spec fn calls_events(calls: Seq<Tree>) -> Seq<Happening>
    decreases calls.len(),
{
    if calls.len() == 0 {
        Seq::empty()
    } else {
        calls_events(calls.drop_last()) + call_events(calls.last())
    }
}

/// The events of what a frame adds.
pub open spec fn delta_events(delta: Option<Tree>) -> Seq<Happening> {
    match delta {
        None => Seq::empty(),
        Some(delta) => text_event(delta.text_at("content"@), false) + text_event(
            delta.text_at("reasoning_content"@),
            true,
        ) + text_event(delta.text_at("reasoning"@), true) + calls_events(calls_in(delta)),
    }
}

/// The event for why the model stopped, with the provider's own word for it. A `null` there
/// means "not yet".
pub open spec fn stop_events(reason: Option<Tree>) -> Seq<Happening> {
    match reason {
        None => Seq::empty(),
        Some(reason) => if reason is Null {
            Seq::empty()
        } else {
            seq![
                Happening::Stopped { reason: stop_of(reason.as_str()), details: reason.as_str() },
            ]
        },
    }
}

/// The event for which model answers. Every frame repeats the model, and it is said once, where
/// the role is.
pub open spec fn started_events(body: Tree) -> Seq<Happening> {
    let role = within(within(first_of(body.array_at("choices"@)), "delta"@), "role"@);
    match body.text_at("model"@) {
        Some(model) => if role is Some {
            seq![Happening::Started { model }]
        } else {
            Seq::empty()
        },
        None => Seq::empty(),
    }
}

/// The events of a frame that carries this document. Usage arrives in a frame of its own, after
/// the one that says why the model stopped.
pub open spec fn frame_events(body: Tree) -> Seq<Happening> {
    let choice = first_of(body.array_at("choices"@));
    started_events(body) + delta_events(within(choice, "delta"@)) + stop_events(
        within(choice, "finish_reason"@),
    ) + metered(usage_in(body.get("usage"@)))
}

/// The address of an image.
fn image_url(media_type: &str, source: &ImageSource) -> (url: String)
    ensures
        url@ == image_url_of(media_type@, source.deep_view()),
{
    match source {
        ImageSource::Url(url) => url.clone(),
        ImageSource::Bytes(bytes) => followed_by("data:", media_type).concat(";base64,").concat(
            base64(bytes).as_str(),
        ),
    }
}

/// A text as a part of a turn, for each of these.
fn text_parts(texts: &Vec<String>) -> (parts: Vec<Json>)
    ensures
        trees(parts@) == text_parts_of(texts.deep_view()),
{
    let mut parts: Vec<Json> = Vec::new();
    let mut i: usize = 0;
    while i < texts.len()
        invariant
            i <= texts.len(),
            parts.len() == i,
            forall|j: int|
                0 <= j < i ==> (#[trigger] parts[j]).tree() == text_parts_of(texts.deep_view())[j],
        decreases texts.len() - i,
    {
        parts.push(
            Json::object().with("type", Json::text("text")).with("text", Json::text(&texts[i])),
        );
        i += 1;
    }
    assert(trees(parts@) == text_parts_of(texts.deep_view()));
    parts
}

/// A list of documents with one more behind it.
proof fn pushed_tree(items: Seq<Json>, item: Json)
    ensures
        trees(items.push(item)) == trees(items).push(item.tree()),
{
    assert(trees(items.push(item)) =~= trees(items).push(item.tree()));
}

/// Writes a turn.
fn wire_message(message: &Message) -> (out: Vec<Json>)
    ensures
        trees(out@) == wire_message_of(message.deep_view()),
{
    let mut out: Vec<Json> = Vec::new();
    let mut texts: Vec<String> = Vec::new();
    let mut calls: Vec<Json> = Vec::new();
    let mut images: Vec<Json> = Vec::new();
    let ghost blocks = message.deep_view().content;
    let mut i: usize = 0;
    proof {
        assert(blocks.take(0) == Seq::<Block>::empty());
        assert(trees(out@) == Seq::<Tree>::empty());
        assert(texts.deep_view() == Seq::<Seq<char>>::empty());
    }
    while i < message.content.len()
        invariant
            i <= message.content.len(),
            blocks == message.content.deep_view(),
            trees(out@) == results_of(blocks.take(i as int)),
            texts.deep_view() == answers(blocks.take(i as int)),
            trees(calls@) == calls_of(blocks.take(i as int)),
            trees(images@) == images_of(blocks.take(i as int)),
        decreases message.content.len() - i,
    {
        let ghost said = texts.deep_view();
        let ghost results = out@;
        let ghost called = calls@;
        let ghost shown = images@;
        proof {
            let some = blocks.take(i + 1);
            assert(some.drop_last() == blocks.take(i as int));
            assert(some.last() == message.content[i as int].deep_view());
        }
        match &message.content[i] {
            ContentBlock::Text(text) => {
                texts.push(text.clone());
                assert(texts.deep_view() == said.push(text@));
            },
            ContentBlock::Thinking { .. } => {},
            ContentBlock::Opaque { .. } => {},
            ContentBlock::Image { media_type, source } => {
                images.push(
                    Json::object().with("type", Json::text("image_url")).with(
                        "image_url",
                        Json::object().with(
                            "url",
                            Json::text(image_url(media_type, source).as_str()),
                        ),
                    ),
                );
                proof {
                    pushed_tree(shown, images@.last());
                    assert(images@ == shown.push(images@.last()));
                }
            },
            ContentBlock::ToolUse { id, name, input } => {
                calls.push(
                    Json::object().with("id", Json::text(id)).with(
                        "type",
                        Json::text("function"),
                    ).with(
                        "function",
                        Json::object().with("name", Json::text(name)).with(
                            "arguments",
                            Json::text(input.to_text().as_str()),
                        ),
                    ),
                );
                proof {
                    pushed_tree(called, calls@.last());
                    assert(calls@ == called.push(calls@.last()));
                }
            },
            ContentBlock::ToolResult { tool_use_id, content, is_error } => {
                let content = if *is_error {
                    followed_by("error: ", content)
                } else {
                    content.clone()
                };
                out.push(
                    Json::object().with("role", Json::text("tool")).with(
                        "tool_call_id",
                        Json::text(tool_use_id),
                    ).with("content", Json::text(content.as_str())),
                );
                proof {
                    pushed_tree(results, out@.last());
                    assert(out@ == results.push(out@.last()));
                }
            },
        }
        i += 1;
    }
    assert(blocks.take(i as int) == blocks);
    assert(trees(calls@).len() == calls.len());
    assert(trees(images@).len() == images.len());
    assert(texts.deep_view().len() == texts.len());
    if texts.len() > 0 || calls.len() > 0 || images.len() > 0 {
        let role = match message.role {
            Role::User => "user",
            Role::Assistant => "assistant",
        };
        // A turn with an image has to carry its content as parts. A turn without one keeps
        // the plain string, because that is what every endpoint speaking this shape accepts
        // and some of the smaller ones accept nothing else.
        let content = if images.len() == 0 {
            Json::text(join(&texts, "\n").as_str())
        } else {
            let mut parts = text_parts(&texts);
            let ghost before = parts@;
            let ghost more = images@;
            parts.append(&mut images);
            assert(parts@ == before + more);
            assert(trees(parts@) == trees(before) + trees(more));
            Json::Array(parts)
        };
        let mut turn = Json::object().with("role", Json::text(role)).with("content", content);
        if calls.len() > 0 {
            turn = turn.with("tool_calls", Json::Array(calls));
        }
        let ghost results = out@;
        out.push(turn);
        proof {
            pushed_tree(results, turn);
        }
    }
    out
}

/// Writes the tools of a request.
fn wire_tools(tools: &Vec<ToolSchema>) -> (json: Json)
    ensures
        json.tree() == Tree::Array(wire_tools_of(tools.deep_view())),
{
    let mut out: Vec<Json> = Vec::new();
    let mut i: usize = 0;
    while i < tools.len()
        invariant
            i <= tools.len(),
            out.len() == i,
            forall|j: int|
                0 <= j < i ==> (#[trigger] out[j]).tree() == wire_tools_of(tools.deep_view())[j],
        decreases tools.len() - i,
    {
        out.push(
            Json::object().with("type", Json::text("function")).with(
                "function",
                Json::object().with("name", Json::text(&tools[i].name)).with(
                    "description",
                    Json::text(&tools[i].description),
                ).with("parameters", tools[i].parameters.clone()),
            ),
        );
        i += 1;
    }
    assert(trees(out@) == wire_tools_of(tools.deep_view()));
    Json::Array(out)
}

/// Writes the conversation, the system instructions in front of it.
fn wire_messages(request: &ChatRequest) -> (json: Json)
    ensures
        json.tree() == Tree::Array(
            system_of(request.deep_view().system) + wire_messages_of(
                request.deep_view().messages,
            ),
        ),
{
    let mut out: Vec<Json> = Vec::new();
    if let Some(system) = &request.system {
        out.push(
            Json::object().with("role", Json::text("system")).with("content", Json::text(system)),
        );
    }
    assert(trees(out@) == system_of(request.deep_view().system));
    let ghost first = trees(out@);
    let ghost turns = request.deep_view().messages;
    let mut i: usize = 0;
    proof {
        assert(turns.take(0) == Seq::<Turn>::empty());
        assert(first + Seq::<Tree>::empty() == first);
    }
    while i < request.messages.len()
        invariant
            i <= request.messages.len(),
            turns == request.messages.deep_view(),
            trees(out@) == first + wire_messages_of(turns.take(i as int)),
        decreases request.messages.len() - i,
    {
        let mut more = wire_message(&request.messages[i]);
        let ghost before = out@;
        let ghost added = more@;
        out.append(&mut more);
        proof {
            let some = turns.take(i + 1);
            assert(some.drop_last() == turns.take(i as int));
            assert(some.last() == request.messages[i as int].deep_view());
            assert(out@ == before + added);
            assert(trees(out@) == trees(before) + trees(added));
            assert((first + wire_messages_of(turns.take(i as int))) + trees(added) == first + (
            wire_messages_of(turns.take(i as int)) + trees(added)));
        }
        i += 1;
    }
    assert(turns.take(i as int) == turns);
    Json::Array(out)
}

/// Writes a request.
pub fn write_request(request: &ChatRequest) -> (body: Json)
    ensures
        body.tree() == request_tree(request.deep_view()),
{
    let mut body = Json::object().with("model", Json::text(request.model.as_str())).with(
        "messages",
        wire_messages(request),
    );
    if let Some(max) = request.generation.max_tokens {
        body = body.with("max_completion_tokens", Json::Unsigned(max as u64));
    }
    if let Some(temperature) = &request.generation.temperature {
        body = body.with("temperature", Json::Float(temperature.copied()));
    }
    if let Some(top_p) = &request.generation.top_p {
        body = body.with("top_p", Json::Float(top_p.copied()));
    }
    if request.tools.len() > 0 {
        body = body.with("tools", wire_tools(&request.tools));
    }
    if let Some(schema) = &request.response_schema {
        body = body.with(
            "response_format",
            Json::object().with("type", Json::text("json_schema")).with(
                "json_schema",
                Json::object().with("name", Json::text("response")).with(
                    "schema",
                    schema.clone(),
                ).with("strict", Json::Bool(true)),
            ),
        );
    }
    body
}

/// The text of a member of a member, where both are there and it is a string.
fn text_in<'a>(json: Option<&'a Json>, name: &str) -> (text: Option<&'a str>)
    ensures
        text.deep_view() == text_within(json.deep_view(), name@),
{
    match json {
        Some(json) => json.text_at(name),
        None => None,
    }
}

/// The member of a member, where both are there.
fn member_in<'a>(json: Option<&'a Json>, name: &str) -> (member: Option<&'a Json>)
    ensures
        member.deep_view() == within(json.deep_view(), name@),
{
    match json {
        Some(json) => json.get(name),
        None => None,
    }
}

/// Reads a tool call.
fn read_call(call: &Json) -> (block: ContentBlock)
    ensures
        block.deep_view() == call_in(call.tree()),
{
    let function = call.get("function");
    // Arguments arrive as a JSON string and a model can produce one that does not parse. The
    // call is kept with the raw text rather than dropped, so a caller can see what was
    // attempted.
    ContentBlock::ToolUse {
        id: owned_or_empty(call.text_at("id")),
        name: owned_or_empty(text_in(function, "name")),
        input: match text_in(function, "arguments") {
            Some(arguments) => tool_input(arguments),
            None => Json::object(),
        },
    }
}

/// Reads the blocks of a message.
fn read_blocks(message: &Json) -> (blocks: Vec<ContentBlock>)
    ensures
        blocks.deep_view() == blocks_in(message.tree()),
{
    let mut blocks: Vec<ContentBlock> = Vec::new();
    let text = owned_or_empty(message.text_at("content"));
    if !text.as_str().is_empty() {
        blocks.push(ContentBlock::Text(text));
    }
    assert(blocks.deep_view() == said_in(message.tree()));
    // The same blocks a streamed reply puts together. There is no signature in this shape, so
    // there is none to lose.
    let text = owned_or_empty(message.text_at("reasoning_content")).concat(
        owned_or_empty(message.text_at("reasoning")).as_str(),
    );
    if !text.as_str().is_empty() {
        blocks.push(ContentBlock::Thinking { text, signature: None });
    }
    let ghost said = said_in(message.tree()) + thought_in(message.tree());
    assert(blocks.deep_view() == said);
    assert(said + Seq::<Block>::empty() == said);
    if let Some(calls) = message.array_at("tool_calls") {
        let ghost all = trees(calls@).map_values(|call: Tree| call_in(call));
        let mut i: usize = 0;
        assert(said + all.take(0) == said);
        while i < calls.len()
            invariant
                i <= calls.len(),
                all == trees(calls@).map_values(|call: Tree| call_in(call)),
                blocks.deep_view() == said + all.take(i as int),
            decreases calls.len() - i,
        {
            let ghost before = blocks.deep_view();
            blocks.push(read_call(&calls[i]));
            proof {
                assert(all[i as int] == call_in(calls[i as int].tree()));
                assert(blocks.deep_view() == before.push(all[i as int]));
                assert(said + all.take(i + 1) == (said + all.take(i as int)).push(all[i as int]));
            }
            i += 1;
        }
        assert(all.take(i as int) == all);
    }
    blocks
}

/// Reads a stop reason.
fn read_stop(reason: Option<&str>) -> (stop: StopReason)
    ensures
        stop == stop_of(reason.deep_view()),
{
    match reason {
        None => StopReason::Other,
        Some(reason) => if same(reason, "stop") {
            StopReason::EndTurn
        } else if same(reason, "tool_calls") || same(reason, "function_call") {
            StopReason::ToolUse
        } else if same(reason, "length") {
            StopReason::MaxTokens
        } else if same(reason, "content_filter") {
            StopReason::Refusal
        } else if same(reason, "context_length_exceeded") {
            StopReason::ContextWindowExceeded
        } else {
            StopReason::Other
        },
    }
}

/// Reads the tokens a document reports.
fn read_usage(value: Option<&Json>) -> (usage: Usage)
    ensures
        usage == usage_in(value.deep_view()),
{
    match value {
        None => Usage::absent(),
        Some(usage) => {
            let cached: Option<u64> = match usage.get("prompt_tokens_details") {
                Some(details) => details.u64_at("cached_tokens"),
                None => None,
            };
            Usage {
                input_tokens: less_cached(usage.u64_at("prompt_tokens"), cached),
                cache_read_tokens: cached,
                cache_write_tokens: None,
                output_tokens: usage.u64_at("completion_tokens"),
                estimated: false,
            }
        },
    }
}

/// Reads a reply.
pub fn read_reply(body: &Json, asked_for: &ModelId) -> (reply: Result<ChatResponse, Error>)
    ensures
        outcome(reply) == reply_of(body.tree(), asked_for@),
{
    let choice = match first_at(body, "choices") {
        Some(choice) => choice,
        None => {
            return Err(Error::Unreadable("the reply carried no choices".to_owned()));
        },
    };
    let message = match choice.get("message") {
        Some(message) => message,
        None => {
            return Err(Error::Unreadable("the choice carried no message".to_owned()));
        },
    };
    let blocks = read_blocks(message);
    if blocks.len() == 0 {
        return Err(
            Error::Unreadable("the reply carried no content this crate could read".to_owned()),
        );
    }
    Ok(
        ChatResponse {
            message: Message { role: Role::Assistant, content: blocks },
            stop_reason: read_stop(choice.text_at("finish_reason")),
            // The provider's own word, including one this crate does not know.
            stop_details: owned(choice.text_at("finish_reason")),
            usage: read_usage(body.get("usage")),
            model: match body.text_at("model") {
                Some(model) => ModelId(model.to_owned()),
                None => asked_for.copied(),
            },
        },
    )
}

/// Puts an event behind others for a text that is not empty.
fn add_text(events: &mut Vec<Event>, text: Option<&str>, thinking: bool)
    ensures
        final(events).deep_view() == old(events).deep_view() + text_event(
            text.deep_view(),
            thinking,
        ),
{
    let ghost before = events.deep_view();
    if let Some(text) = text {
        if !text.is_empty() {
            if thinking {
                events.push(Event::ThinkingDelta(text.to_owned()));
            } else {
                events.push(Event::TextDelta(text.to_owned()));
            }
        }
    }
    assert(events.deep_view() == before + text_event(text.deep_view(), thinking));
}

/// Puts the events of the tool calls in a frame behind others.
fn add_calls(events: &mut Vec<Event>, calls: &Vec<Json>)
    ensures
        final(events).deep_view() == old(events).deep_view() + calls_events(trees(calls@)),
{
    let ghost before = events.deep_view();
    let ghost all = trees(calls@);
    let mut i: usize = 0;
    proof {
        assert(all.take(0) == Seq::<Tree>::empty());
        assert(before + Seq::<Happening>::empty() == before);
    }
    while i < calls.len()
        invariant
            i <= calls.len(),
            all == trees(calls@),
            events.deep_view() == before + calls_events(all.take(i as int)),
        decreases calls.len() - i,
    {
        let ghost so_far = events.deep_view();
        let call = &calls[i];
        let function = call.get("function");
        if let Some(name) = text_in(function, "name") {
            events.push(
                Event::ToolUseStarted {
                    id: owned_or_empty(call.text_at("id")),
                    name: name.to_owned(),
                },
            );
        }
        if let Some(arguments) = text_in(function, "arguments") {
            if !arguments.is_empty() {
                events.push(Event::ToolArgumentsDelta(arguments.to_owned()));
            }
        }
        proof {
            assert(all.take(i + 1).drop_last() == all.take(i as int));
            assert(all.take(i + 1).last() == calls[i as int].tree());
            assert(events.deep_view() == so_far + call_events(calls[i as int].tree()));
            assert((before + calls_events(all.take(i as int))) + call_events(
                calls[i as int].tree(),
            ) == before + (calls_events(all.take(i as int)) + call_events(
                calls[i as int].tree(),
            )));
        }
        i += 1;
    }
    assert(all.take(i as int) == all);
}

/// Reads a frame that carries this document.
pub fn read_frame(body: &Json) -> (events: Vec<Event>)
    ensures
        events.deep_view() == frame_events(body.tree()),
{
    let mut events: Vec<Event> = Vec::new();
    let choice = first_at(body, "choices");
    let delta = member_in(choice, "delta");
    if let Some(model) = body.text_at("model") {
        if member_in(delta, "role").is_some() {
            events.push(Event::Started { model: ModelId(model.to_owned()) });
        }
    }
    assert(events.deep_view() == started_events(body.tree()));
    let ghost started = events.deep_view();
    if let Some(delta) = delta {
        add_text(&mut events, delta.text_at("content"), false);
        // Reasoning, where a backend behind this shape produces it. There is no signature in
        // this shape, so there is none to lose.
        add_text(&mut events, delta.text_at("reasoning_content"), true);
        add_text(&mut events, delta.text_at("reasoning"), true);
        if let Some(calls) = delta.array_at("tool_calls") {
            add_calls(&mut events, calls);
        }
    }
    assert(events.deep_view() == started + delta_events(delta.deep_view()));
    let ghost added = events.deep_view();
    let reason = member_in(choice, "finish_reason");
    if let Some(reason) = reason {
        if !reason.is_null() {
            events.push(
                Event::Stopped {
                    reason: read_stop(reason.as_str()),
                    details: owned(reason.as_str()),
                },
            );
        }
    }
    assert(events.deep_view() == added + stop_events(reason.deep_view()));
    // Read through the same function the whole call uses, so the cached part is subtracted
    // the same way and a streamed and a non streamed call report the same numbers.
    meter(&mut events, read_usage(body.get("usage")));
    events
}

/// Anything speaking the OpenAI chat completions shape.
pub type OpenAiCompatible = ApiProvider<ChatCompletions>;

impl ChatCompletions {
    /// This protocol as this provider speaks it.
    pub fn named(id: &'static str) -> (protocol: ChatCompletions)
        ensures
            protocol.name() == id@,
    {
        ChatCompletions { id }
    }

    /// The name of the provider that speaks this protocol.
    pub closed spec fn spoken_by(self) -> Seq<char> {
        self.id@
    }
}

impl Protocol for ChatCompletions {
    open spec fn name(&self) -> Seq<char> {
        self.spoken_by()
    }

    open spec fn chat_address(&self, base_url: Seq<char>, model: Seq<char>) -> Seq<char> {
        base_url + "/chat/completions"@
    }

    open spec fn stream_address(&self, base_url: Seq<char>, model: Seq<char>) -> Seq<char> {
        base_url + "/chat/completions"@
    }

    open spec fn catalogue_address(&self, base_url: Seq<char>) -> Option<Seq<char>> {
        Some(base_url + "/models"@)
    }

    open spec fn header_list(&self, key: Credential) -> Result<
        Seq<(Seq<char>, Seq<char>)>,
        Failure,
    > {
        if valid_utf8(key.bytes) {
            Ok(
                seq![
                    ("authorization"@, "Bearer "@ + decode_utf8(key.bytes)),
                    ("content-type"@, "application/json"@),
                ],
            )
        } else {
            Err(key_not_text())
        }
    }

    open spec fn writes(&self, request: Asked) -> bool {
        true
    }

    open spec fn body_of(&self, request: Asked) -> Result<Tree, Failure> {
        Ok(request_tree(request))
    }

    open spec fn stream_body_of(&self, request: Asked) -> Result<Option<Tree>, Failure> {
        Ok(Some(stream_tree(request)))
    }

    open spec fn reply_in(&self, body: Tree, asked_for: Seq<char>) -> Result<Reply, Failure> {
        reply_of(body, asked_for)
    }

    open spec fn names_in(&self, body: Tree) -> Result<Seq<Seq<char>>, Failure> {
        listed_in(body)
    }

    open spec fn events_in(&self, frame: Frame) -> Result<Seq<Happening>, Failure> {
        if trimmed(frame.data) == "[DONE]"@ {
            Ok(Seq::empty())
        } else {
            match frame.json() {
                None => Err(
                    Failure::Unreadable(
                        "a frame that was neither JSON nor [DONE]: "@ + start_of(frame.data, 120),
                    ),
                ),
                Some(body) => Ok(frame_events(body)),
            }
        }
    }

    fn id(&self) -> (id: &str) {
        self.id
    }

    fn chat_url(&self, base_url: &str, model: &ModelId) -> (url: String) {
        followed_by(base_url, "/chat/completions")
    }

    fn stream_url(&self, base_url: &str, model: &ModelId) -> (url: String) {
        followed_by(base_url, "/chat/completions")
    }

    fn catalogue_url(&self, base_url: &str) -> (url: Option<String>) {
        Some(followed_by(base_url, "/models"))
    }

    fn headers(&self, key: &Secret) -> (headers: Result<Vec<(String, String)>, Error>) {
        match key_text(key) {
            Err(why) => Err(why),
            Ok(key) => {
                let ghost value = key@;
                let mut headers: Vec<(String, String)> = Vec::new();
                headers.push(("authorization".to_owned(), followed_by("Bearer ", key.as_str())));
                headers.push(("content-type".to_owned(), "application/json".to_owned()));
                assert(headers.deep_view() == seq![
                    ("authorization"@, "Bearer "@ + value),
                    ("content-type"@, "application/json"@),
                ]);
                Ok(headers)
            },
        }
    }

    fn body(&self, request: &ChatRequest) -> (body: Result<Json, Error>) {
        Ok(write_request(request))
    }

    fn stream_body(&self, request: &ChatRequest) -> (body: Result<Option<Json>, Error>) {
        Ok(
            Some(
                write_request(request).with("stream", Json::Bool(true)).with(
                    "stream_options",
                    Json::object().with("include_usage", Json::Bool(true)),
                ),
            ),
        )
    }

    fn read(&self, body: &Json, asked_for: &ModelId) -> (reply: Result<ChatResponse, Error>) {
        read_reply(body, asked_for)
    }

    fn read_catalogue(&self, body: &Json) -> (ids: Result<Vec<ModelId>, Error>) {
        read_model_list(body)
    }

    fn read_event(&self, frame: &SseFrame) -> (events: Result<Vec<Event>, Error>) {
        // This shape names no frames and terminates with a sentinel that is not JSON.
        if same(trim(frame.data.as_str()).as_str(), "[DONE]") {
            let events: Vec<Event> = Vec::new();
            assert(events.deep_view() == Seq::<Happening>::empty());
            return Ok(events);
        }
        match frame.json() {
            None => Err(
                Error::Unreadable(
                    followed_by(
                        "a frame that was neither JSON nor [DONE]: ",
                        first_chars(frame.data.as_str(), 120).as_str(),
                    ),
                ),
            ),
            Some(body) => Ok(read_frame(&body)),
        }
    }
}

/// Anything that speaks this shape, at its address, under its name and with the reach you say
/// it has.
pub fn at(
    id: &'static str,
    base_url: &str,
    key: Secret,
    reach: Reach,
    registry: Arc<Registry>,
) -> (provider: ApiProvider<ChatCompletions>)
    ensures
        provider.speaks().name() == id@,
        provider.holds() == (Endpoint {
            key: key@,
            base_url: without_trailing(base_url@, '/'),
            reach,
            registry: registry.deep_view(),
        }),
{
    ApiProvider::new(ChatCompletions { id }, base_url, key, reach, registry)
}

/// A tool call that arrived in pieces: its id, its name and the text of its arguments so far.
pub type Called = (Seq<char>, Seq<char>, Seq<char>);

/// What some frames have said so far.
#[verifier::ext_equal]
pub struct Heard {
    /// The answer.
    pub text: Seq<char>,
    /// The reasoning.
    pub reasoning: Seq<char>,
    /// The tool calls, one after another.
    pub calls: Seq<Called>,
    /// Why the model stopped, and the provider's own word for it.
    pub stop: Option<(StopReason, Option<Seq<char>>)>,
    /// The model that was named last.
    pub model: Option<Seq<char>>,
    /// The tokens that were reported, a later report in the place of an earlier one.
    pub usage: Option<Usage>,
}

/// What a frame adds.
pub open spec fn delta_of(frame: Tree) -> Option<Tree> {
    within(first_of(frame.array_at("choices"@)), "delta"@)
}

/// The text that a frame adds under this name.
pub open spec fn piece_of(frame: Tree, name: Seq<char>) -> Seq<char> {
    or_empty(text_within(delta_of(frame), name))
}

/// The pieces of tool calls in a frame.
pub open spec fn call_pieces(frame: Tree) -> Seq<Tree> {
    match delta_of(frame) {
        Some(delta) => calls_in(delta),
        None => Seq::empty(),
    }
}

/// Tool calls after one more piece: a name opens a call, and arguments go to the last.
pub open spec fn with_piece(calls: Seq<Called>, piece: Tree) -> Seq<Called> {
    let function = piece.get("function"@);
    let arguments = or_empty(text_within(function, "arguments"@));
    let opened = match text_within(function, "name"@) {
        Some(name) => calls.push((or_empty(piece.text_at("id"@)), name, Seq::empty())),
        None => calls,
    };
    if opened.len() == 0 {
        opened
    } else {
        let last = opened.last();
        opened.drop_last().push((last.0, last.1, last.2 + arguments))
    }
}

/// Tool calls after some more pieces in turn.
pub open spec fn with_pieces(calls: Seq<Called>, pieces: Seq<Tree>) -> Seq<Called>
    decreases pieces.len(),
{
    if pieces.len() == 0 {
        calls
    } else {
        with_piece(with_pieces(calls, pieces.drop_last()), pieces.last())
    }
}

/// An answer as a block, where there is one.
pub open spec fn said_block(text: Seq<char>) -> Seq<Block> {
    if text.len() > 0 {
        seq![Block::Text(text)]
    } else {
        Seq::empty()
    }
}

/// Reasoning as a block, where there is some.
pub open spec fn thought_block(text: Seq<char>) -> Seq<Block> {
    if text.len() > 0 {
        seq![Block::Thinking { text, signature: None }]
    } else {
        Seq::empty()
    }
}

/// A tool call that arrived as a block.
pub open spec fn called_block(call: Called) -> Block {
    Block::ToolUse { id: call.0, name: call.1, input: arrived_input(call.2) }
}

/// Tool calls that arrived as blocks.
pub open spec fn called_blocks(calls: Seq<Called>) -> Seq<Block> {
    calls.map_values(|call: Called| called_block(call))
}

/// A tool call of a message, as it arrives.
pub open spec fn called_in(call: Tree) -> Called {
    let function = call.get("function"@);
    (
        or_empty(call.text_at("id"@)),
        or_empty(text_within(function, "name"@)),
        or_empty(text_within(function, "arguments"@)),
    )
}

/// Whether a tool call says which tool it asks for, and gives text for its arguments where it
/// gives any. One that does not say is more of the call before it where it arrives in a frame,
/// and arguments without a text do not arrive.
pub open spec fn is_named(call: Tree) -> bool {
    &&& text_within(call.get("function"@), "name"@) is Some
    &&& text_within(call.get("function"@), "arguments"@) matches Some(arguments)
        ==> arguments.len() > 0
}

impl Heard {
    /// Nothing yet.
    pub open spec fn nothing() -> Heard {
        Heard {
            text: Seq::empty(),
            reasoning: Seq::empty(),
            calls: Seq::empty(),
            stop: None,
            model: None,
            usage: None,
        }
    }

    /// The same after one more frame: what it adds goes behind what was there.
    pub open spec fn hears(self, frame: Tree) -> Heard {
        let reason = within(first_of(frame.array_at("choices"@)), "finish_reason"@);
        let usage = usage_in(frame.get("usage"@));
        Heard {
            text: self.text + piece_of(frame, "content"@),
            reasoning: self.reasoning + piece_of(frame, "reasoning_content"@) + piece_of(
                frame,
                "reasoning"@,
            ),
            calls: with_pieces(self.calls, call_pieces(frame)),
            stop: match reason {
                Some(reason) => if reason is Null {
                    self.stop
                } else {
                    Some((stop_of(reason.as_str()), reason.as_str()))
                },
                None => self.stop,
            },
            model: if started_events(frame).len() > 0 {
                frame.text_at("model"@)
            } else {
                self.model
            },
            usage: if metered(usage).len() == 0 {
                self.usage
            } else {
                match self.usage {
                    Some(earlier) => Some(earlier.revised(usage)),
                    None => Some(usage),
                }
            },
        }
    }

    /// Whether a frame adds only what can follow: the answer comes before the reasoning and the
    /// tool calls, the reasoning before the tool calls, and nothing once the model has stopped.
    pub open spec fn is_followed_by(self, frame: Tree) -> bool {
        let says = piece_of(frame, "content"@).len() > 0;
        let thinks = piece_of(frame, "reasoning_content"@).len() > 0 || piece_of(
            frame,
            "reasoning"@,
        ).len() > 0;
        let calls = call_pieces(frame).len() > 0;
        &&& says ==> self.reasoning.len() == 0
        &&& says || thinks ==> self.calls.len() == 0
        &&& says || thinks || calls ==> self.stop is None
    }

    /// What a transcript has taken in once it has taken in the events of these frames.
    pub open spec fn taken(self, asked_for: Seq<char>) -> Taken {
        let spoken = said_block(self.text) + thought_block(self.reasoning);
        let open = self.calls.len() > 0 && self.stop is None;
        Taken {
            blocks: spoken + called_blocks(
                if open {
                    self.calls.drop_last()
                } else {
                    self.calls
                },
            ),
            pending_tool: if open {
                Some(self.calls.last())
            } else {
                None
            },
            stop: self.stop,
            usage: self.usage,
            served_by: self.model,
            asked_for,
        }
    }

    /// Whether this is what a document says: its answer, its reasoning, its tool calls, its model,
    /// its stop reason and its tokens.
    pub open spec fn makes_up(self, body: Tree) -> bool {
        let choice = first_of(body.array_at("choices"@));
        let message = within(choice, "message"@)->0;
        let reason = text_within(choice, "finish_reason"@);
        &&& self.text == or_empty(message.text_at("content"@))
        &&& self.reasoning == or_empty(message.text_at("reasoning_content"@)) + or_empty(
            message.text_at("reasoning"@),
        )
        &&& self.calls == calls_in(message).map_values(|call: Tree| called_in(call))
        &&& forall|i: int|
            0 <= i < calls_in(message).len() ==> is_named(#[trigger] calls_in(message)[i])
        &&& self.stop == Some((stop_of(reason), reason))
        &&& self.model == body.text_at("model"@)
        &&& usage_in(body.get("usage"@)) == (match self.usage {
            Some(usage) => usage,
            None => Usage::nothing(),
        })
    }
}

/// What some frames say in turn.
pub open spec fn heard(frames: Seq<Tree>) -> Heard
    decreases frames.len(),
{
    if frames.len() == 0 {
        Heard::nothing()
    } else {
        heard(frames.drop_last()).hears(frames.last())
    }
}

/// Whether each of some frames adds only what can follow those before it.
pub open spec fn in_order(frames: Seq<Tree>) -> bool
    decreases frames.len(),
{
    frames.len() == 0 || (in_order(frames.drop_last()) && heard(
        frames.drop_last(),
    ).is_followed_by(frames.last()))
}

/// The events of some frames in turn.
pub open spec fn events_of(frames: Seq<Tree>) -> Seq<Happening>
    decreases frames.len(),
{
    if frames.len() == 0 {
        Seq::empty()
    } else {
        events_of(frames.drop_last()) + frame_events(frames.last())
    }
}

/// More of the answer is taken in behind the answer.
proof fn an_answer_is_taken_in(heard: Heard, text: Option<Seq<char>>, asked_for: Seq<char>)
    requires
        or_empty(text).len() > 0 ==> heard.reasoning.len() == 0 && heard.calls.len() == 0
            && heard.stop is None,
    ensures
        heard.taken(asked_for).after(text_event(text, false)) == (Heard {
            text: heard.text + or_empty(text),
            ..heard
        }).taken(asked_for),
{
    let more = or_empty(text);
    let taken = heard.taken(asked_for);
    let then = Heard { text: heard.text + more, ..heard };
    one_event_is_taken_in(taken, Happening::TextDelta(more));
    if more.len() == 0 {
        assert(heard.text + more =~= heard.text);
        assert(then =~= heard);
    } else {
        assert(thought_block(heard.reasoning) =~= Seq::<Block>::empty());
        assert(called_blocks(heard.calls) =~= Seq::<Block>::empty());
        assert(taken.blocks =~= said_block(heard.text));
        assert(then.taken(asked_for).blocks =~= said_block(then.text));
        assert(with_text(taken.blocks, more) =~= said_block(then.text)) by {
            if heard.text.len() == 0 {
                assert(heard.text + more =~= more);
            } else {
                assert(said_block(heard.text).drop_last() =~= Seq::<Block>::empty());
            }
        }
    }
}

/// More reasoning is taken in behind the reasoning.
proof fn reasoning_is_taken_in(heard: Heard, text: Option<Seq<char>>, asked_for: Seq<char>)
    requires
        or_empty(text).len() > 0 ==> heard.calls.len() == 0 && heard.stop is None,
    ensures
        heard.taken(asked_for).after(text_event(text, true)) == (Heard {
            reasoning: heard.reasoning + or_empty(text),
            ..heard
        }).taken(asked_for),
{
    let more = or_empty(text);
    let taken = heard.taken(asked_for);
    let then = Heard { reasoning: heard.reasoning + more, ..heard };
    one_event_is_taken_in(taken, Happening::ThinkingDelta(more));
    if more.len() == 0 {
        assert(heard.reasoning + more =~= heard.reasoning);
        assert(then =~= heard);
    } else {
        let said = said_block(heard.text);
        assert(called_blocks(heard.calls) =~= Seq::<Block>::empty());
        assert(taken.blocks =~= said + thought_block(heard.reasoning));
        assert(then.taken(asked_for).blocks =~= said + thought_block(then.reasoning));
        assert(with_thinking(taken.blocks, more) =~= said + thought_block(then.reasoning)) by {
            if heard.reasoning.len() == 0 {
                assert(heard.reasoning + more =~= more);
                assert(taken.blocks =~= said);
            } else {
                assert(taken.blocks.drop_last() =~= said);
                assert(taken.blocks.last() == thought_block(heard.reasoning)[0]);
            }
        }
    }
}

/// One more piece of a tool call is taken in where it belongs.
proof fn a_call_piece_is_taken_in(heard: Heard, piece: Tree, asked_for: Seq<char>)
    requires
        heard.stop is None,
    ensures
        heard.taken(asked_for).after(call_events(piece)) == (Heard {
            calls: with_piece(heard.calls, piece),
            ..heard
        }).taken(asked_for),
{
    let function = piece.get("function"@);
    let arguments = or_empty(text_within(function, "arguments"@));
    let taken = heard.taken(asked_for);
    let spoken = said_block(heard.text) + thought_block(heard.reasoning);
    let begun = match text_within(function, "name"@) {
        Some(name) => seq![
            Happening::ToolUseStarted { id: or_empty(piece.text_at("id"@)), name },
        ],
        None => Seq::empty(),
    };
    let added = if arguments.len() > 0 {
        seq![Happening::ToolArgumentsDelta(arguments)]
    } else {
        Seq::empty()
    };
    assert(call_events(piece) =~= begun + added);
    after_in_parts(taken, begun, added);
    let opened = match text_within(function, "name"@) {
        Some(name) => heard.calls.push((or_empty(piece.text_at("id"@)), name, Seq::empty())),
        None => heard.calls,
    };
    let middle = (Heard { calls: opened, ..heard }).taken(asked_for);
    assert(taken.after(begun) == middle) by {
        match text_within(function, "name"@) {
            Some(name) => {
                let event = Happening::ToolUseStarted { id: or_empty(piece.text_at("id"@)), name };
                one_event_is_taken_in(taken, event);
                assert(opened.drop_last() =~= heard.calls);
                if heard.calls.len() > 0 {
                    assert(called_blocks(heard.calls) =~= called_blocks(
                        heard.calls.drop_last(),
                    ).push(called_block(heard.calls.last())));
                }
                assert(taken.closed().blocks =~= spoken + called_blocks(heard.calls));
                assert(taken.pushed(event) =~= middle);
            },
            None => {
                one_event_is_taken_in(taken, Happening::ToolArgumentsDelta(arguments));
            },
        }
    }
    let then = with_piece(heard.calls, piece);
    let end = (Heard { calls: then, ..heard }).taken(asked_for);
    one_event_is_taken_in(middle, Happening::ToolArgumentsDelta(arguments));
    if opened.len() > 0 {
        assert(then.drop_last() =~= opened.drop_last());
        if arguments.len() == 0 {
            assert(opened.last().2 + arguments =~= opened.last().2);
            assert(then =~= opened);
        } else {
            assert(middle.pushed(Happening::ToolArgumentsDelta(arguments)) =~= end);
        }
    }
}

/// More pieces of tool calls are taken in where they belong.
proof fn call_pieces_are_taken_in(heard: Heard, pieces: Seq<Tree>, asked_for: Seq<char>)
    requires
        pieces.len() > 0 ==> heard.stop is None,
    ensures
        heard.taken(asked_for).after(calls_events(pieces)) == (Heard {
            calls: with_pieces(heard.calls, pieces),
            ..heard
        }).taken(asked_for),
    decreases pieces.len(),
{
    let taken = heard.taken(asked_for);
    if pieces.len() == 0 {
        one_event_is_taken_in(taken, Happening::ToolArgumentsDelta(Seq::empty()));
        assert((Heard { calls: with_pieces(heard.calls, pieces), ..heard }) =~= heard);
    } else {
        let less = pieces.drop_last();
        let before = Heard { calls: with_pieces(heard.calls, less), ..heard };
        call_pieces_are_taken_in(heard, less, asked_for);
        a_call_piece_is_taken_in(before, pieces.last(), asked_for);
        after_in_parts(taken, calls_events(less), call_events(pieces.last()));
    }
}

/// What a frame adds is taken in where it belongs.
proof fn a_delta_is_taken_in(heard: Heard, frame: Tree, asked_for: Seq<char>)
    requires
        heard.is_followed_by(frame),
    ensures
        heard.taken(asked_for).after(delta_events(delta_of(frame))) == (Heard {
            text: heard.text + piece_of(frame, "content"@),
            reasoning: heard.reasoning + piece_of(frame, "reasoning_content"@) + piece_of(
                frame,
                "reasoning"@,
            ),
            calls: with_pieces(heard.calls, call_pieces(frame)),
            ..heard
        }).taken(asked_for),
{
    let delta = delta_of(frame);
    let content = text_within(delta, "content"@);
    let first = text_within(delta, "reasoning_content"@);
    let second = text_within(delta, "reasoning"@);
    let taken = heard.taken(asked_for);
    let h1 = Heard { text: heard.text + or_empty(content), ..heard };
    let h2 = Heard { reasoning: heard.reasoning + or_empty(first), ..h1 };
    let h3 = Heard { reasoning: h2.reasoning + or_empty(second), ..h2 };
    an_answer_is_taken_in(heard, content, asked_for);
    reasoning_is_taken_in(h1, first, asked_for);
    reasoning_is_taken_in(h2, second, asked_for);
    call_pieces_are_taken_in(h3, call_pieces(frame), asked_for);
    let e1 = text_event(content, false);
    let e2 = text_event(first, true);
    let e3 = text_event(second, true);
    let e4 = calls_events(call_pieces(frame));
    after_in_parts(taken, e1, e2);
    after_in_parts(taken, e1 + e2, e3);
    after_in_parts(taken, e1 + e2 + e3, e4);
    if delta is None {
        assert(e1 + e2 + e3 + e4 =~= Seq::<Happening>::empty());
    }
}

/// Which model answers is taken in.
proof fn a_name_is_taken_in(heard: Heard, frame: Tree, asked_for: Seq<char>)
    ensures
        heard.taken(asked_for).after(started_events(frame)) == (Heard {
            model: heard.hears(frame).model,
            ..heard
        }).taken(asked_for),
{
    let taken = heard.taken(asked_for);
    let then = Heard { model: heard.hears(frame).model, ..heard };
    if started_events(frame).len() > 0 {
        one_event_is_taken_in(taken, started_events(frame)[0]);
        assert(started_events(frame) =~= seq![started_events(frame)[0]]);
        assert(taken.pushed(started_events(frame)[0]) =~= then.taken(asked_for));
    } else {
        one_event_is_taken_in(taken, Happening::TextDelta(Seq::empty()));
        assert(started_events(frame) =~= Seq::<Happening>::empty());
        assert(then =~= heard);
    }
}

/// Why the model stopped is taken in.
proof fn a_stop_is_taken_in(heard: Heard, frame: Tree, asked_for: Seq<char>)
    ensures
        heard.taken(asked_for).after(
            stop_events(within(first_of(frame.array_at("choices"@)), "finish_reason"@)),
        ) == (Heard { stop: heard.hears(frame).stop, ..heard }).taken(asked_for),
{
    let events = stop_events(within(first_of(frame.array_at("choices"@)), "finish_reason"@));
    let taken = heard.taken(asked_for);
    let then = Heard { stop: heard.hears(frame).stop, ..heard };
    if events.len() > 0 {
        one_event_is_taken_in(taken, events[0]);
        assert(events =~= seq![events[0]]);
        if heard.calls.len() > 0 {
            assert(called_blocks(heard.calls) =~= called_blocks(heard.calls.drop_last()).push(
                called_block(heard.calls.last()),
            ));
        }
        assert(taken.closed().blocks =~= then.taken(asked_for).blocks);
        assert(taken.pushed(events[0]) =~= then.taken(asked_for));
    } else {
        one_event_is_taken_in(taken, Happening::TextDelta(Seq::empty()));
        assert(events =~= Seq::<Happening>::empty());
        assert(then =~= heard);
    }
}

/// The tokens that a frame reports are taken in.
proof fn tokens_are_taken_in(heard: Heard, frame: Tree, asked_for: Seq<char>)
    ensures
        heard.taken(asked_for).after(metered(usage_in(frame.get("usage"@)))) == (Heard {
            usage: heard.hears(frame).usage,
            ..heard
        }).taken(asked_for),
{
    let usage = usage_in(frame.get("usage"@));
    let taken = heard.taken(asked_for);
    let then = Heard { usage: heard.hears(frame).usage, ..heard };
    one_event_is_taken_in(taken, Happening::Metered(usage));
    if metered(usage).len() > 0 {
        assert(taken.pushed(Happening::Metered(usage)) =~= then.taken(asked_for));
    } else {
        assert(metered(usage) =~= Seq::<Happening>::empty());
        assert(then =~= heard);
    }
}

/// A frame is taken in as what it says.
proof fn a_frame_is_taken_in(heard: Heard, frame: Tree, asked_for: Seq<char>)
    requires
        heard.is_followed_by(frame),
    ensures
        heard.taken(asked_for).after(frame_events(frame)) == heard.hears(frame).taken(asked_for),
{
    let taken = heard.taken(asked_for);
    let then = heard.hears(frame);
    let choice = first_of(frame.array_at("choices"@));
    let e1 = started_events(frame);
    let e2 = delta_events(delta_of(frame));
    let e3 = stop_events(within(choice, "finish_reason"@));
    let e4 = metered(usage_in(frame.get("usage"@)));
    let h1 = Heard { model: then.model, ..heard };
    let h2 = Heard { text: then.text, reasoning: then.reasoning, calls: then.calls, ..h1 };
    let h3 = Heard { stop: then.stop, ..h2 };
    a_name_is_taken_in(heard, frame, asked_for);
    a_delta_is_taken_in(h1, frame, asked_for);
    a_stop_is_taken_in(h2, frame, asked_for);
    tokens_are_taken_in(h3, frame, asked_for);
    after_in_parts(taken, e1, e2);
    after_in_parts(taken, e1 + e2, e3);
    after_in_parts(taken, e1 + e2 + e3, e4);
    assert((Heard { usage: h3.hears(frame).usage, ..h3 }) =~= then);
}

/// Frames are taken in as what they say.
proof fn frames_are_taken_in(frames: Seq<Tree>, asked_for: Seq<char>)
    requires
        in_order(frames),
    ensures
        Taken::nothing(asked_for).after(events_of(frames)) == heard(frames).taken(asked_for),
    decreases frames.len(),
{
    let start = Taken::nothing(asked_for);
    if frames.len() == 0 {
        one_event_is_taken_in(start, Happening::TextDelta(Seq::empty()));
        assert(heard(frames).taken(asked_for) =~= start);
    } else {
        let less = frames.drop_last();
        frames_are_taken_in(less, asked_for);
        a_frame_is_taken_in(heard(less), frames.last(), asked_for);
        after_in_parts(start, events_of(less), frame_events(frames.last()));
    }
}

/// A streamed reply is the whole one: frames that add up to what a document says put together the
/// reply that the document gives, wherever the answer, the reasoning and the arguments of the
/// tool calls are cut, and whether the tokens are reported once or as a running total.
///
/// The frames have to be in the order of the blocks. Each tool call of the document has to say
/// which tool it asks for, and to give text for its arguments where it gives any.
pub proof fn a_streamed_reply_is_the_whole_one(
    body: Tree,
    frames: Seq<Tree>,
    asked_for: Seq<char>,
)
    requires
        reply_of(body, asked_for) is Ok,
        in_order(frames),
        heard(frames).makes_up(body),
    ensures
        Taken::nothing(asked_for).after(events_of(frames)).finished() == reply_of(
            body,
            asked_for,
        )->Ok_0,
{
    frames_are_taken_in(frames, asked_for);
    let all = heard(frames);
    let choice = first_of(body.array_at("choices"@));
    let message = within(choice, "message"@)->0;
    let calls = calls_in(message);
    let given = calls.map_values(|call: Tree| call_in(call));
    assert(called_blocks(all.calls) =~= given) by {
        assert forall|i: int| 0 <= i < calls.len() implies called_blocks(all.calls)[i]
            == given[i] by {
            assert(is_named(calls[i]));
            assert(all.calls[i] == called_in(calls[i]));
        }
    }
    assert(said_block(all.text) == said_in(message));
    assert(thought_block(all.reasoning) == thought_in(message));
}

/// A reply and a frame that report the same tokens report them as the same usage.
pub proof fn streaming_counts_the_same(body: Tree, frame: Tree, asked_for: Seq<char>)
    requires
        body.get("usage"@) == frame.get("usage"@),
        reply_of(body, asked_for) is Ok,
    ensures
        metered(reply_of(body, asked_for)->Ok_0.usage) == metered(usage_in(frame.get("usage"@))),
{
}

/// The members of a request are told apart.
proof fn members_differ()
    ensures
        "model"@ != "messages"@,
        "model"@ != "max_completion_tokens"@,
        "model"@ != "temperature"@,
        "model"@ != "top_p"@,
        "model"@ != "tools"@,
        "model"@ != "response_format"@,
        "model"@ != "stream"@,
        "model"@ != "stream_options"@,
        "messages"@ != "max_completion_tokens"@,
        "messages"@ != "temperature"@,
        "messages"@ != "top_p"@,
        "messages"@ != "tools"@,
        "messages"@ != "response_format"@,
        "messages"@ != "stream"@,
        "messages"@ != "stream_options"@,
        "max_completion_tokens"@ != "temperature"@,
        "max_completion_tokens"@ != "top_p"@,
        "max_completion_tokens"@ != "tools"@,
        "max_completion_tokens"@ != "response_format"@,
        "max_completion_tokens"@ != "stream"@,
        "max_completion_tokens"@ != "stream_options"@,
        "temperature"@ != "top_p"@,
        "temperature"@ != "tools"@,
        "temperature"@ != "response_format"@,
        "temperature"@ != "stream"@,
        "temperature"@ != "stream_options"@,
        "top_p"@ != "tools"@,
        "top_p"@ != "response_format"@,
        "top_p"@ != "stream"@,
        "top_p"@ != "stream_options"@,
        "tools"@ != "response_format"@,
        "tools"@ != "stream"@,
        "tools"@ != "stream_options"@,
        "response_format"@ != "stream"@,
        "response_format"@ != "stream_options"@,
        "stream"@ != "stream_options"@,
{
    reveal_strlit("model");
    reveal_strlit("messages");
    reveal_strlit("max_completion_tokens");
    reveal_strlit("temperature");
    reveal_strlit("top_p");
    reveal_strlit("tools");
    reveal_strlit("response_format");
    reveal_strlit("stream");
    reveal_strlit("stream_options");
    assert("model"@.len() != "messages"@.len());
    assert("model"@.len() != "max_completion_tokens"@.len());
    assert("model"@.len() != "temperature"@.len());
    assert("model"@[0] != "top_p"@[0]);
    assert("model"@[0] != "tools"@[0]);
    assert("model"@.len() != "response_format"@.len());
    assert("model"@.len() != "stream"@.len());
    assert("model"@.len() != "stream_options"@.len());
    assert("messages"@.len() != "max_completion_tokens"@.len());
    assert("messages"@.len() != "temperature"@.len());
    assert("messages"@.len() != "top_p"@.len());
    assert("messages"@.len() != "tools"@.len());
    assert("messages"@.len() != "response_format"@.len());
    assert("messages"@.len() != "stream"@.len());
    assert("messages"@.len() != "stream_options"@.len());
    assert("max_completion_tokens"@.len() != "temperature"@.len());
    assert("max_completion_tokens"@.len() != "top_p"@.len());
    assert("max_completion_tokens"@.len() != "tools"@.len());
    assert("max_completion_tokens"@.len() != "response_format"@.len());
    assert("max_completion_tokens"@.len() != "stream"@.len());
    assert("max_completion_tokens"@.len() != "stream_options"@.len());
    assert("temperature"@.len() != "top_p"@.len());
    assert("temperature"@.len() != "tools"@.len());
    assert("temperature"@.len() != "response_format"@.len());
    assert("temperature"@.len() != "stream"@.len());
    assert("temperature"@.len() != "stream_options"@.len());
    assert("top_p"@[2] != "tools"@[2]);
    assert("top_p"@.len() != "response_format"@.len());
    assert("top_p"@.len() != "stream"@.len());
    assert("top_p"@.len() != "stream_options"@.len());
    assert("tools"@.len() != "response_format"@.len());
    assert("tools"@.len() != "stream"@.len());
    assert("tools"@.len() != "stream_options"@.len());
    assert("response_format"@.len() != "stream"@.len());
    assert("response_format"@.len() != "stream_options"@.len());
    assert("stream"@.len() != "stream_options"@.len());
}

/// The members of what a request holds are told apart.
proof fn parts_differ()
    ensures
        "type"@ != "function"@,
        "type"@ != "name"@,
        "type"@ != "description"@,
        "type"@ != "parameters"@,
        "type"@ != "arguments"@,
        "type"@ != "id"@,
        "type"@ != "role"@,
        "type"@ != "content"@,
        "type"@ != "tool_call_id"@,
        "type"@ != "tool_calls"@,
        "type"@ != "json_schema"@,
        "type"@ != "schema"@,
        "type"@ != "strict"@,
        "function"@ != "name"@,
        "function"@ != "description"@,
        "function"@ != "parameters"@,
        "function"@ != "arguments"@,
        "function"@ != "id"@,
        "function"@ != "role"@,
        "function"@ != "content"@,
        "function"@ != "tool_call_id"@,
        "function"@ != "tool_calls"@,
        "function"@ != "json_schema"@,
        "function"@ != "schema"@,
        "function"@ != "strict"@,
        "name"@ != "description"@,
        "name"@ != "parameters"@,
        "name"@ != "arguments"@,
        "name"@ != "id"@,
        "name"@ != "role"@,
        "name"@ != "content"@,
        "name"@ != "tool_call_id"@,
        "name"@ != "tool_calls"@,
        "name"@ != "json_schema"@,
        "name"@ != "schema"@,
        "name"@ != "strict"@,
        "description"@ != "parameters"@,
        "description"@ != "arguments"@,
        "description"@ != "id"@,
        "description"@ != "role"@,
        "description"@ != "content"@,
        "description"@ != "tool_call_id"@,
        "description"@ != "tool_calls"@,
        "description"@ != "json_schema"@,
        "description"@ != "schema"@,
        "description"@ != "strict"@,
        "parameters"@ != "arguments"@,
        "parameters"@ != "id"@,
        "parameters"@ != "role"@,
        "parameters"@ != "content"@,
        "parameters"@ != "tool_call_id"@,
        "parameters"@ != "tool_calls"@,
        "parameters"@ != "json_schema"@,
        "parameters"@ != "schema"@,
        "parameters"@ != "strict"@,
        "arguments"@ != "id"@,
        "arguments"@ != "role"@,
        "arguments"@ != "content"@,
        "arguments"@ != "tool_call_id"@,
        "arguments"@ != "tool_calls"@,
        "arguments"@ != "json_schema"@,
        "arguments"@ != "schema"@,
        "arguments"@ != "strict"@,
        "id"@ != "role"@,
        "id"@ != "content"@,
        "id"@ != "tool_call_id"@,
        "id"@ != "tool_calls"@,
        "id"@ != "json_schema"@,
        "id"@ != "schema"@,
        "id"@ != "strict"@,
        "role"@ != "content"@,
        "role"@ != "tool_call_id"@,
        "role"@ != "tool_calls"@,
        "role"@ != "json_schema"@,
        "role"@ != "schema"@,
        "role"@ != "strict"@,
        "content"@ != "tool_call_id"@,
        "content"@ != "tool_calls"@,
        "content"@ != "json_schema"@,
        "content"@ != "schema"@,
        "content"@ != "strict"@,
        "tool_call_id"@ != "tool_calls"@,
        "tool_call_id"@ != "json_schema"@,
        "tool_call_id"@ != "schema"@,
        "tool_call_id"@ != "strict"@,
        "tool_calls"@ != "json_schema"@,
        "tool_calls"@ != "schema"@,
        "tool_calls"@ != "strict"@,
        "json_schema"@ != "schema"@,
        "json_schema"@ != "strict"@,
        "schema"@ != "strict"@,
{
    reveal_strlit("type");
    reveal_strlit("function");
    reveal_strlit("name");
    reveal_strlit("description");
    reveal_strlit("parameters");
    reveal_strlit("arguments");
    reveal_strlit("id");
    reveal_strlit("role");
    reveal_strlit("content");
    reveal_strlit("tool_call_id");
    reveal_strlit("tool_calls");
    reveal_strlit("json_schema");
    reveal_strlit("schema");
    reveal_strlit("strict");
    assert("type"@.len() != "function"@.len());
    assert("type"@[0] != "name"@[0]);
    assert("type"@.len() != "description"@.len());
    assert("type"@.len() != "parameters"@.len());
    assert("type"@.len() != "arguments"@.len());
    assert("type"@.len() != "id"@.len());
    assert("type"@[0] != "role"@[0]);
    assert("type"@.len() != "content"@.len());
    assert("type"@.len() != "tool_call_id"@.len());
    assert("type"@.len() != "tool_calls"@.len());
    assert("type"@.len() != "json_schema"@.len());
    assert("type"@.len() != "schema"@.len());
    assert("type"@.len() != "strict"@.len());
    assert("function"@.len() != "name"@.len());
    assert("function"@.len() != "description"@.len());
    assert("function"@.len() != "parameters"@.len());
    assert("function"@.len() != "arguments"@.len());
    assert("function"@.len() != "id"@.len());
    assert("function"@.len() != "role"@.len());
    assert("function"@.len() != "content"@.len());
    assert("function"@.len() != "tool_call_id"@.len());
    assert("function"@.len() != "tool_calls"@.len());
    assert("function"@.len() != "json_schema"@.len());
    assert("function"@.len() != "schema"@.len());
    assert("function"@.len() != "strict"@.len());
    assert("name"@.len() != "description"@.len());
    assert("name"@.len() != "parameters"@.len());
    assert("name"@.len() != "arguments"@.len());
    assert("name"@.len() != "id"@.len());
    assert("name"@[0] != "role"@[0]);
    assert("name"@.len() != "content"@.len());
    assert("name"@.len() != "tool_call_id"@.len());
    assert("name"@.len() != "tool_calls"@.len());
    assert("name"@.len() != "json_schema"@.len());
    assert("name"@.len() != "schema"@.len());
    assert("name"@.len() != "strict"@.len());
    assert("description"@.len() != "parameters"@.len());
    assert("description"@.len() != "arguments"@.len());
    assert("description"@.len() != "id"@.len());
    assert("description"@.len() != "role"@.len());
    assert("description"@.len() != "content"@.len());
    assert("description"@.len() != "tool_call_id"@.len());
    assert("description"@.len() != "tool_calls"@.len());
    assert("description"@[0] != "json_schema"@[0]);
    assert("description"@.len() != "schema"@.len());
    assert("description"@.len() != "strict"@.len());
    assert("parameters"@.len() != "arguments"@.len());
    assert("parameters"@.len() != "id"@.len());
    assert("parameters"@.len() != "role"@.len());
    assert("parameters"@.len() != "content"@.len());
    assert("parameters"@.len() != "tool_call_id"@.len());
    assert("parameters"@[0] != "tool_calls"@[0]);
    assert("parameters"@.len() != "json_schema"@.len());
    assert("parameters"@.len() != "schema"@.len());
    assert("parameters"@.len() != "strict"@.len());
    assert("arguments"@.len() != "id"@.len());
    assert("arguments"@.len() != "role"@.len());
    assert("arguments"@.len() != "content"@.len());
    assert("arguments"@.len() != "tool_call_id"@.len());
    assert("arguments"@.len() != "tool_calls"@.len());
    assert("arguments"@.len() != "json_schema"@.len());
    assert("arguments"@.len() != "schema"@.len());
    assert("arguments"@.len() != "strict"@.len());
    assert("id"@.len() != "role"@.len());
    assert("id"@.len() != "content"@.len());
    assert("id"@.len() != "tool_call_id"@.len());
    assert("id"@.len() != "tool_calls"@.len());
    assert("id"@.len() != "json_schema"@.len());
    assert("id"@.len() != "schema"@.len());
    assert("id"@.len() != "strict"@.len());
    assert("role"@.len() != "content"@.len());
    assert("role"@.len() != "tool_call_id"@.len());
    assert("role"@.len() != "tool_calls"@.len());
    assert("role"@.len() != "json_schema"@.len());
    assert("role"@.len() != "schema"@.len());
    assert("role"@.len() != "strict"@.len());
    assert("content"@.len() != "tool_call_id"@.len());
    assert("content"@.len() != "tool_calls"@.len());
    assert("content"@.len() != "json_schema"@.len());
    assert("content"@.len() != "schema"@.len());
    assert("content"@.len() != "strict"@.len());
    assert("tool_call_id"@.len() != "tool_calls"@.len());
    assert("tool_call_id"@.len() != "json_schema"@.len());
    assert("tool_call_id"@.len() != "schema"@.len());
    assert("tool_call_id"@.len() != "strict"@.len());
    assert("tool_calls"@.len() != "json_schema"@.len());
    assert("tool_calls"@.len() != "schema"@.len());
    assert("tool_calls"@.len() != "strict"@.len());
    assert("json_schema"@.len() != "schema"@.len());
    assert("json_schema"@.len() != "strict"@.len());
    assert("schema"@[1] != "strict"@[1]);
}

/// The words for why a model stopped are told apart.
proof fn words_differ()
    ensures
        "stop"@ != "tool_calls"@,
        "stop"@ != "function_call"@,
        "stop"@ != "length"@,
        "stop"@ != "content_filter"@,
        "stop"@ != "context_length_exceeded"@,
        "tool_calls"@ != "function_call"@,
        "tool_calls"@ != "length"@,
        "tool_calls"@ != "content_filter"@,
        "tool_calls"@ != "context_length_exceeded"@,
        "function_call"@ != "length"@,
        "function_call"@ != "content_filter"@,
        "function_call"@ != "context_length_exceeded"@,
        "length"@ != "content_filter"@,
        "length"@ != "context_length_exceeded"@,
        "content_filter"@ != "context_length_exceeded"@,
{
    reveal_strlit("stop");
    reveal_strlit("tool_calls");
    reveal_strlit("function_call");
    reveal_strlit("length");
    reveal_strlit("content_filter");
    reveal_strlit("context_length_exceeded");
    assert("stop"@.len() != "tool_calls"@.len());
    assert("stop"@.len() != "function_call"@.len());
    assert("stop"@.len() != "length"@.len());
    assert("stop"@.len() != "content_filter"@.len());
    assert("stop"@.len() != "context_length_exceeded"@.len());
    assert("tool_calls"@.len() != "function_call"@.len());
    assert("tool_calls"@.len() != "length"@.len());
    assert("tool_calls"@.len() != "content_filter"@.len());
    assert("tool_calls"@.len() != "context_length_exceeded"@.len());
    assert("function_call"@.len() != "length"@.len());
    assert("function_call"@.len() != "content_filter"@.len());
    assert("function_call"@.len() != "context_length_exceeded"@.len());
    assert("length"@.len() != "content_filter"@.len());
    assert("length"@.len() != "context_length_exceeded"@.len());
    assert("content_filter"@.len() != "context_length_exceeded"@.len());
}

/// A request goes on the wire setting by setting: what was asked for stands under its own name as
/// it was written, and a setting that was not made is left out.
pub proof fn a_request_is_written_setting_by_setting(request: Asked, schema: Tree)
    ensures
        request_tree(request).text_at("model"@) == Some(request.model),
        request_tree(request).get("max_completion_tokens"@) == (
        match request.generation.max_tokens {
            Some(max) => Some(Tree::Integer(max as int)),
            None => None,
        }),
        request_tree(request).get("temperature"@) == (match request.generation.temperature {
            Some(temperature) => Some(Tree::Float(temperature)),
            None => None,
        }),
        request_tree(request).get("top_p"@) == (match request.generation.top_p {
            Some(top_p) => Some(Tree::Float(top_p)),
            None => None,
        }),
        request.response_schema is None ==> request_tree(request).get("response_format"@) is None,
        request.response_schema == Some(schema) ==> ({
            let format = request_tree(request).get("response_format"@);
            &&& text_within(format, "type"@) == Some("json_schema"@)
            &&& within(within(format, "json_schema"@), "schema"@) == Some(schema)
            &&& within(within(format, "json_schema"@), "strict"@) == Some(Tree::Bool(true))
        }),
        request_tree(request).get("stream"@) is None,
{
    members_differ();
    parts_differ();
}

/// A streamed request asks for a stream that ends with what it used, and is the whole request in
/// everything else.
pub proof fn a_streamed_request_asks_for_a_stream(
    protocol: ChatCompletions,
    request: Asked,
    name: Seq<char>,
)
    ensures
        protocol.body_of(request) is Ok,
        protocol.stream_body_of(request) is Ok,
        protocol.stream_body_of(request)->Ok_0 is Some,
        ({
            let whole = protocol.body_of(request)->Ok_0;
            let body = protocol.stream_body_of(request)->Ok_0->0;
            &&& body.get("stream"@) == Some(Tree::Bool(true))
            &&& within(body.get("stream_options"@), "include_usage"@) == Some(Tree::Bool(true))
            &&& name != "stream"@ && name != "stream_options"@ ==> body.get(name) == whole.get(name)
            &&& body.text_at("model"@) == Some(request.model)
        }),
{
    members_differ();
}

/// Each tool stands on the wire in its place, with its own name, description and parameters, and
/// nothing stands there where there is none.
pub proof fn each_tool_is_written_as_it_is(request: Asked, i: int)
    requires
        0 <= i < request.tools.len(),
    ensures
        ({
            let written = request_tree(request).array_at("tools"@);
            &&& written is Some
            &&& written->0.len() == request.tools.len()
            &&& written->0[i].text_at("type"@) == Some("function"@)
            &&& text_within(written->0[i].get("function"@), "name"@) == Some(request.tools[i].name)
            &&& text_within(written->0[i].get("function"@), "description"@) == Some(
                request.tools[i].description,
            )
            &&& within(written->0[i].get("function"@), "parameters"@) == Some(
                request.tools[i].parameters,
            )
        }),
{
    members_differ();
    parts_differ();
}

/// A request without tools offers none.
pub proof fn no_tools_are_written_where_there_are_none(request: Asked)
    requires
        request.tools.len() == 0,
    ensures
        request_tree(request).get("tools"@) is None,
{
    members_differ();
}

/// The conversation follows the instructions in its order: instructions come first, in a turn of
/// the system, and another turn of the conversation comes behind all that is there.
pub proof fn a_conversation_is_written_in_order(request: Asked, turn: Turn)
    ensures
        ({
            let written = request_tree(request).array_at("messages"@);
            let longer = request_tree(
                Asked { messages: request.messages.push(turn), ..request },
            ).array_at("messages"@);
            &&& written is Some
            &&& longer is Some
            &&& written->0.len() <= longer->0.len()
            &&& longer->0.take(written->0.len() as int) == written->0
            &&& longer->0.skip(written->0.len() as int) == wire_message_of(turn)
            &&& request.system is Some ==> written->0.len() > 0 && written->0[0].text_at("role"@)
                == Some("system"@) && written->0[0].text_at("content"@) == Some(request.system->0)
            &&& request.messages.len() == 0 ==> written->0.len() == (if request.system is Some {
                1int
            } else {
                0
            })
        }),
{
    members_differ();
    parts_differ();
    let before = system_of(request.system) + wire_messages_of(request.messages);
    assert(request.messages.push(turn).drop_last() == request.messages);
    let after = system_of(request.system) + wire_messages_of(request.messages.push(turn));
    assert(after == before + wire_message_of(turn));
    assert(after.take(before.len() as int) == before);
    assert(after.skip(before.len() as int) == wire_message_of(turn));
}

/// A turn of text is one turn on the wire, by whoever said it, with what was said.
pub proof fn text_is_written_as_it_was_said(role: Role, text: Seq<char>)
    ensures
        ({
            let written = wire_message_of(Turn { role, content: seq![Block::Text(text)] });
            &&& written.len() == 1
            &&& written[0].text_at("content"@) == Some(text)
            &&& written[0].text_at("role"@) == Some(
                if role is User {
                    "user"@
                } else {
                    "assistant"@
                },
            )
            &&& written[0].get("tool_calls"@) is None
        }),
{
    parts_differ();
    let blocks = seq![Block::Text(text)];
    let nothing = Seq::<Block>::empty();
    assert(blocks.drop_last() == nothing);
    assert(answers(nothing).len() == 0 && calls_of(nothing).len() == 0 && images_of(nothing).len()
        == 0 && results_of(nothing).len() == 0);
    assert(answers(blocks) == seq![text]);
    assert(images_of(blocks).len() == 0);
    assert(calls_of(blocks).len() == 0);
    assert(results_of(blocks).len() == 0);
    assert(joined(answers(blocks), "\n"@) == text);
}

/// A tool call that a turn ends with is the last call of what is written of the turn, under its
/// own id and name, with its arguments as text.
pub proof fn a_call_is_written_as_it_was_made(
    role: Role,
    blocks: Seq<Block>,
    id: Seq<char>,
    name: Seq<char>,
    input: Tree,
)
    ensures
        ({
            let written = wire_message_of(
                Turn { role, content: blocks.push(Block::ToolUse { id, name, input }) },
            );
            let calls = written.last().array_at("tool_calls"@);
            &&& written.len() > 0
            &&& calls is Some
            &&& calls->0.len() > 0
            &&& calls->0.last().text_at("id"@) == Some(id)
            &&& calls->0.last().text_at("type"@) == Some("function"@)
            &&& text_within(calls->0.last().get("function"@), "name"@) == Some(name)
            &&& text_within(calls->0.last().get("function"@), "arguments"@) == Some(
                json_text(input),
            )
        }),
{
    parts_differ();
    assert(blocks.push(Block::ToolUse { id, name, input }).drop_last() == blocks);
}

/// What a tool produced is a turn of the tool on the wire, for the call it answers, and one that
/// failed says so in what it produced.
pub proof fn a_result_is_written_for_its_call(
    role: Role,
    tool_use_id: Seq<char>,
    content: Seq<char>,
    is_error: bool,
)
    ensures
        ({
            let written = wire_message_of(
                Turn {
                    role,
                    content: seq![Block::ToolResult { tool_use_id, content, is_error }],
                },
            );
            &&& written.len() == 1
            &&& written[0].text_at("role"@) == Some("tool"@)
            &&& written[0].text_at("tool_call_id"@) == Some(tool_use_id)
            &&& written[0].text_at("content"@) == Some(
                if is_error {
                    "error: "@ + content
                } else {
                    content
                },
            )
        }),
{
    parts_differ();
    let blocks = seq![Block::ToolResult { tool_use_id, content, is_error }];
    let nothing = Seq::<Block>::empty();
    assert(blocks.drop_last() == nothing);
    assert(results_of(nothing).len() == 0 && answers(nothing).len() == 0 && calls_of(nothing).len()
        == 0 && images_of(nothing).len() == 0);
    assert(answers(blocks).len() == 0);
    assert(calls_of(blocks).len() == 0);
    assert(images_of(blocks).len() == 0);
    assert(results_of(blocks) == seq![wire_result_of(tool_use_id, content, is_error)]);
}

/// An image that a turn ends with is the last part of what is written of the turn, by its own
/// address where it has one and with its bytes where it has not.
pub proof fn an_image_is_written_as_it_is(
    role: Role,
    blocks: Seq<Block>,
    media_type: Seq<char>,
    source: Source,
)
    ensures
        ({
            let written = wire_message_of(
                Turn { role, content: blocks.push(Block::Image { media_type, source }) },
            );
            let parts = written.last().array_at("content"@);
            &&& written.len() > 0
            &&& parts is Some
            &&& parts->0.len() > 0
            &&& parts->0.last().text_at("type"@) == Some("image_url"@)
            &&& text_within(parts->0.last().get("image_url"@), "url"@) == Some(
                match source {
                    Source::Url(url) => url,
                    Source::Bytes(bytes) => "data:"@ + media_type + ";base64,"@ + base64_text(
                        bytes,
                    ),
                },
            )
        }),
{
    parts_differ();
    reveal_strlit("type");
    reveal_strlit("image_url");
    assert("type"@.len() != "image_url"@.len());
    let more = blocks.push(Block::Image { media_type, source });
    assert(more.drop_last() == blocks);
    let parts = text_parts_of(answers(more)) + images_of(more);
    assert(parts.last() == images_of(more).last());
}

/// Reasoning and what another protocol keeps verbatim leave no trace on the wire.
pub proof fn reasoning_is_not_written(role: Role, blocks: Seq<Block>, block: Block)
    requires
        block is Thinking || block is Opaque,
    ensures
        wire_message_of(Turn { role, content: blocks.push(block) }) == wire_message_of(
            Turn { role, content: blocks },
        ),
{
    assert(blocks.push(block).drop_last() == blocks);
}

/// What a word for why the model stopped means, in a whole reply and in a streamed one, and that
/// the word itself is kept.
pub proof fn a_stop_reason_means_what_its_word_says(
    body: Tree,
    asked_for: Seq<char>,
    word: Seq<char>,
    reason: StopReason,
)
    requires
        body.array_at("choices"@) is Some,
        body.array_at("choices"@)->0.len() > 0,
        body.array_at("choices"@)->0[0].text_at("finish_reason"@) == Some(word),
        (word == "stop"@ && reason is EndTurn) || (word == "tool_calls"@ && reason is ToolUse) || (word == "function_call"@ && reason is ToolUse) || (word == "length"@ && reason is MaxTokens) || (word == "content_filter"@ && reason is Refusal) || (word == "context_length_exceeded"@ && reason is ContextWindowExceeded) || (reason is Other && word != "stop"@ && word != "tool_calls"@ && word != "function_call"@ && word != "length"@ && word != "content_filter"@ && word != "context_length_exceeded"@),
    ensures
        reply_of(body, asked_for) is Ok ==> reply_of(body, asked_for)->Ok_0.stop_reason == reason
            && reply_of(body, asked_for)->Ok_0.stop_details == Some(word),
        frame_events(body).contains(Happening::Stopped { reason, details: Some(word) }),
{
    words_differ();
    let choice = first_of(body.array_at("choices"@));
    let before = started_events(body) + delta_events(within(choice, "delta"@));
    let stop = stop_events(within(choice, "finish_reason"@));
    assert(stop == seq![Happening::Stopped { reason, details: Some(word) }]);
    assert(frame_events(body) == before + stop + metered(usage_in(body.get("usage"@))));
    assert(frame_events(body)[before.len() as int] == stop[0]);
}

/// A reply is complete only where the model said that it had finished or wants a tool.
pub proof fn only_a_finished_reply_is_complete(body: Tree, asked_for: Seq<char>)
    requires
        reply_of(body, asked_for) is Ok,
        ({
            let reason = reply_of(body, asked_for)->Ok_0.stop_reason;
            reason is EndTurn || reason is ToolUse || reason is StopSequence
        }),
    ensures
        ({
            let word = body.array_at("choices"@)->0[0].text_at("finish_reason"@);
            word == Some("stop"@) || word == Some("tool_calls"@) || word == Some("function_call"@)
        }),
{
    words_differ();
}

/// The tokens of the prompt that came from the cache and the others are together what was
/// reported of the prompt, and what was not reported is not made up.
pub proof fn the_tokens_are_those_reported(body: Tree, usage: Tree)
    requires
        body.get("usage"@) == Some(usage),
    ensures
        ({
            let used = usage_in(body.get("usage"@));
            let cached = match usage.get("prompt_tokens_details"@) {
                Some(details) => details.u64_at("cached_tokens"@),
                None => None,
            };
            &&& used.cache_read_tokens == cached
            &&& used.cache_write_tokens is None
            &&& used.output_tokens == usage.u64_at("completion_tokens"@)
            &&& !used.estimated
            &&& used.input_tokens is Some <==> usage.u64_at("prompt_tokens"@) is Some
            &&& cached is None ==> used.input_tokens == usage.u64_at("prompt_tokens"@)
            &&& used.input_tokens is Some && cached is Some && cached->0 <= usage.u64_at(
                "prompt_tokens"@,
            )->0 ==> used.input_tokens->0 + cached->0 == usage.u64_at("prompt_tokens"@)->0
            &&& used.input_tokens is Some && cached is Some && cached->0 > usage.u64_at(
                "prompt_tokens"@,
            )->0 ==> used.input_tokens->0 == 0
        }),
{
}

/// A reply holds what the message of its first choice says: its text, then its reasoning, then
/// its calls in their order, with the model that served it and the tokens it reports.
pub proof fn a_reply_is_read_part_by_part(body: Tree, asked_for: Seq<char>, i: int)
    requires
        reply_of(body, asked_for) is Ok,
    ensures
        ({
            let reply = reply_of(body, asked_for)->Ok_0;
            let message = body.array_at("choices"@)->0[0].get("message"@)->0;
            let said = message.text_at("content"@);
            let calls = message.array_at("tool_calls"@);
            let blocks = reply.message.content;
            &&& reply.message.role is Assistant
            &&& said is Some && said->0.len() > 0 ==> blocks.len() > 0 && blocks[0] == Block::Text(
                said->0,
            )
            &&& (calls is Some && 0 <= i < calls->0.len()) ==> ({
                let block = blocks[blocks.len() - calls->0.len() + i];
                let function = calls->0[i].get("function"@);
                &&& block is ToolUse
                &&& calls->0[i].text_at("id"@) is Some ==> block->ToolUse_id
                    == calls->0[i].text_at("id"@)->0
                &&& text_within(function, "name"@) is Some ==> block->ToolUse_name == text_within(
                    function,
                    "name"@,
                )->0
                &&& text_within(function, "arguments"@) is Some ==> block->ToolUse_input
                    == input_of(text_within(function, "arguments"@)->0)
                &&& text_within(function, "arguments"@) is None ==> block->ToolUse_input
                    == Tree::empty_object()
            })
            &&& body.text_at("model"@) is Some ==> reply.model == body.text_at("model"@)->0
            &&& body.text_at("model"@) is None ==> reply.model == asked_for
            &&& reply.usage == usage_in(body.get("usage"@))
        }),
{
    let message = body.array_at("choices"@)->0[0].get("message"@)->0;
    let calls = calls_in(message).map_values(|call: Tree| call_in(call));
    let before = said_in(message) + thought_in(message);
    assert(blocks_in(message) == before + calls);
    if 0 <= i < calls.len() {
        assert(blocks_in(message)[before.len() + i] == calls[i]);
    }
}

/// A message without text whose backend gives reasoning begins with the reasoning, under either
/// of its names.
pub proof fn reasoning_is_read_under_either_name(message: Tree, text: Seq<char>)
    requires
        text.len() > 0,
        message.text_at("content"@) is None,
        (message.text_at("reasoning_content"@) == Some(text) && message.text_at("reasoning"@)
            is None) || (message.text_at("reasoning"@) == Some(text) && message.text_at(
            "reasoning_content"@,
        ) is None),
    ensures
        blocks_in(message).len() > 0,
        blocks_in(message)[0] == (Block::Thinking { text, signature: None }),
{
    let read = or_empty(message.text_at("reasoning_content"@)) + or_empty(
        message.text_at("reasoning"@),
    );
    assert(read == text);
}

/// What stands in front of other events, or behind them, is among them.
proof fn events_are_kept(
    started: Seq<Happening>,
    text: Seq<Happening>,
    thought: Seq<Happening>,
    reasoned: Seq<Happening>,
    calls: Seq<Happening>,
    stop: Seq<Happening>,
    tokens: Seq<Happening>,
)
    ensures
        ({
            let all = started + (text + thought + reasoned + calls) + stop + tokens;
            &&& started.len() > 0 ==> all.contains(started[0])
            &&& text.len() > 0 ==> all.contains(text[0])
            &&& thought.len() > 0 ==> all.contains(thought[0])
            &&& reasoned.len() > 0 ==> all.contains(reasoned[0])
        }),
{
    let all = started + (text + thought + reasoned + calls) + stop + tokens;
    let i = started.len() as int;
    let j = i + text.len();
    let k = j + thought.len();
    if started.len() > 0 {
        assert(all[0] == started[0]);
    }
    if text.len() > 0 {
        assert(all[i] == text[0]);
    }
    if thought.len() > 0 {
        assert(all[j] == thought[0]);
    }
    if reasoned.len() > 0 {
        assert(all[k] == reasoned[0]);
    }
}

/// A frame says what it adds: an answer as text, reasoning as reasoning, a new call by its id and
/// name and the arguments that come behind it.
pub proof fn a_frame_says_what_it_adds(frame: Tree, delta: Tree)
    requires
        within(first_of(frame.array_at("choices"@)), "delta"@) == Some(delta),
    ensures
        delta.text_at("content"@) is Some && delta.text_at("content"@)->0.len() > 0
            ==> frame_events(frame).contains(
            Happening::TextDelta(delta.text_at("content"@)->0),
        ),
        delta.text_at("reasoning_content"@) is Some && delta.text_at(
            "reasoning_content"@,
        )->0.len() > 0 ==> frame_events(frame).contains(
            Happening::ThinkingDelta(delta.text_at("reasoning_content"@)->0),
        ),
        delta.text_at("reasoning"@) is Some && delta.text_at("reasoning"@)->0.len() > 0
            ==> frame_events(frame).contains(
            Happening::ThinkingDelta(delta.text_at("reasoning"@)->0),
        ),
        delta.get("role"@) is Some && frame.text_at("model"@) is Some ==> frame_events(
            frame,
        ).contains(Happening::Started { model: frame.text_at("model"@)->0 }),
{
    let choice = first_of(frame.array_at("choices"@));
    let started = started_events(frame);
    let text = text_event(delta.text_at("content"@), false);
    let thought = text_event(delta.text_at("reasoning_content"@), true);
    let reasoned = text_event(delta.text_at("reasoning"@), true);
    let calls = calls_events(calls_in(delta));
    let stop = stop_events(within(choice, "finish_reason"@));
    let tokens = metered(usage_in(frame.get("usage"@)));
    assert(frame_events(frame) == started + (text + thought + reasoned + calls) + stop + tokens);
    events_are_kept(started, text, thought, reasoned, calls, stop, tokens);
}

/// A piece of a tool call starts a call where it gives a name and adds arguments where it gives
/// some.
pub proof fn a_piece_of_a_call_says_what_it_adds(piece: Tree)
    ensures
        ({
            let function = piece.get("function"@);
            let name = text_within(function, "name"@);
            let arguments = text_within(function, "arguments"@);
            let events = call_events(piece);
            &&& name is Some ==> events.len() > 0 && events[0] is ToolUseStarted
                && events[0]->ToolUseStarted_name == name->0 && (piece.text_at("id"@) is Some
                ==> events[0]->ToolUseStarted_id == piece.text_at("id"@)->0)
            &&& arguments is Some && arguments->0.len() > 0 ==> events.len() > 0 && events.last()
                == Happening::ToolArgumentsDelta(arguments->0)
            &&& name is None && (arguments is None || arguments->0.len() == 0) ==> events.len() == 0
        }),
{
}

/// Where requests go, and that they carry the key.
pub proof fn requests_go_where_the_protocol_says(
    protocol: ChatCompletions,
    base_url: Seq<char>,
    model: Seq<char>,
    key: Credential,
)
    ensures
        protocol.chat_address(base_url, model) == base_url + "/chat/completions"@,
        protocol.stream_address(base_url, model) == protocol.chat_address(base_url, model),
        protocol.catalogue_address(base_url) == Some(base_url + "/models"@),
        protocol.header_list(key) is Ok <==> valid_utf8(key.bytes),
        valid_utf8(key.bytes) ==> protocol.header_list(key)->Ok_0.contains(
            ("authorization"@, "Bearer "@ + decode_utf8(key.bytes)),
        ) && protocol.header_list(key)->Ok_0.contains(("content-type"@, "application/json"@)),
{
    if valid_utf8(key.bytes) {
        let headers = protocol.header_list(key)->Ok_0;
        assert(headers[0] == ("authorization"@, "Bearer "@ + decode_utf8(key.bytes)));
        assert(headers[1] == ("content-type"@, "application/json"@));
    }
}

/// A turn that says something says it in one text where it shows no image, and where it shows one
/// in a part for each answer, in their order and before the images.
pub proof fn each_answer_is_written_in_its_place(turn: Turn, k: int)
    requires
        0 <= k < answers(turn.content).len(),
    ensures
        ({
            let written = wire_message_of(turn).last();
            let parts = written.array_at("content"@);
            &&& wire_message_of(turn).len() > 0
            &&& images_of(turn.content).len() == 0 ==> written.text_at("content"@) == Some(
                turn.text(),
            )
            &&& images_of(turn.content).len() > 0 ==> parts is Some && parts->0.len() == answers(
                turn.content,
            ).len() + images_of(turn.content).len() && parts->0[k].text_at("type"@) == Some(
                "text"@,
            ) && parts->0[k].text_at("text"@) == Some(answers(turn.content)[k])
        }),
{
    parts_differ();
    reveal_strlit("type");
    reveal_strlit("text");
    assert("type"@[1] != "text"@[1]);
    if images_of(turn.content).len() > 0 {
        let parts = text_parts_of(answers(turn.content)) + images_of(turn.content);
        assert(parts[k] == text_parts_of(answers(turn.content))[k]);
    }
}

/// A document is a reply exactly where its first choice carries a message with something in it;
/// any other cannot be read, and is never an empty answer.
pub proof fn a_reply_without_content_cannot_be_read(body: Tree, asked_for: Seq<char>)
    ensures
        reply_of(body, asked_for) is Err ==> reply_of(body, asked_for)->Err_0 is Unreadable,
        reply_of(body, asked_for) is Ok ==> reply_of(body, asked_for)->Ok_0.message.content.len()
            > 0,
        reply_of(body, asked_for) is Ok <==> (body.array_at("choices"@) is Some && body.array_at(
            "choices"@,
        )->0.len() > 0 && body.array_at("choices"@)->0[0].get("message"@) is Some && blocks_in(
            body.array_at("choices"@)->0[0].get("message"@)->0,
        ).len() > 0),
{
}

/// The frame that ends a stream says nothing, and one that is neither that nor a document cannot
/// be read.
pub proof fn a_frame_is_a_document_or_the_end(protocol: ChatCompletions, frame: Frame)
    ensures
        trimmed(frame.data) == "[DONE]"@ ==> protocol.events_in(frame) == Ok::<
            Seq<Happening>,
            Failure,
        >(Seq::empty()),
        trimmed(frame.data) != "[DONE]"@ && frame.json() is Some ==> protocol.events_in(frame)
            == Ok::<Seq<Happening>, Failure>(frame_events(frame.json()->0)),
        trimmed(frame.data) != "[DONE]"@ && frame.json() is None ==> protocol.events_in(frame)
            is Err && protocol.events_in(frame)->Err_0 is Unreadable,
{
}

/// The pieces of calls in a frame say what they add in their order.
pub proof fn pieces_of_calls_are_told_in_order(pieces: Seq<Tree>, piece: Tree)
    ensures
        calls_events(Seq::<Tree>::empty()).len() == 0,
        calls_events(pieces.push(piece)) == calls_events(pieces) + call_events(piece),
{
    assert(pieces.push(piece).drop_last() == pieces);
}

/// A frame without a word for why the model stopped does not say that it stopped.
pub proof fn no_word_is_no_stop(reason: Option<Tree>)
    ensures
        reason is None || reason->0 is Null ==> stop_events(reason).len() == 0,
        reason is Some && reason->0 is Text ==> stop_events(reason).len() == 1 && stop_events(
            reason,
        )[0] is Stopped,
{
}

/// What is said of a reply or a frame that cannot be read.
pub proof fn what_cannot_be_read_is_said_so(
    protocol: ChatCompletions,
    body: Tree,
    asked_for: Seq<char>,
    frame: Frame,
)
    ensures
        body.array_at("choices"@) is None ==> reply_of(body, asked_for) == Err::<Reply, Failure>(
            Failure::Unreadable("the reply carried no choices"@),
        ),
        (body.array_at("choices"@) is Some && body.array_at("choices"@)->0.len() > 0
            && body.array_at("choices"@)->0[0].get("message"@) is None) ==> reply_of(body, asked_for)
            == Err::<Reply, Failure>(Failure::Unreadable("the choice carried no message"@)),
        (trimmed(frame.data) != "[DONE]"@ && frame.json() is None && frame.data.len() <= 120)
            ==> protocol.events_in(frame) == Err::<Seq<Happening>, Failure>(
            Failure::Unreadable("a frame that was neither JSON nor [DONE]: "@ + frame.data),
        ),
{
}

} // verus!
