//! Anthropic's Messages API.
//!
//! # What it carries that a common subset would not
//!
//! Reasoning blocks keep their signature, so a conversation with thinking in it can be
//! continued. Cache breakpoints land where you asked for them. Blocks this crate does not
//! model come back verbatim and go out again unchanged. All three are the difference between
//! a conversation that works on turn four and one that does not.
//!
//! Images are not among them: a request that carries one is refused rather than sent without
//! it.
//!
//! # Usage
//!
//! Anthropic reports `input_tokens` as the part of the prompt that was **not** served from
//! cache, and the cached parts separately. That is exactly what [`Usage`] means, so nothing is
//! adjusted here.

use crate::chat::message::{Block, ContentBlock, Message, Role, StopReason, Turn};
use crate::chat::request::{Asked, ChatRequest, Effort, Thinking, Tool, ToolSchema};
use crate::chat::response::{ChatResponse, Reply};
use crate::chat::stream::{
    after_in_parts, arrived_input, one_event_is_taken_in, reasoning_keeps_its_signature,
    where_arguments_are_cut_changes_nothing, where_reasoning_is_cut_changes_nothing,
    where_text_is_cut_changes_nothing, Event, Happening, Taken,
};
use crate::cost::usage::{Usage, UsageCoverage};
use crate::error::{outcome, Error, Failure};
use crate::json::{trees, Json, Tree};
use crate::model::{ModelId, Reach};
use crate::provider::{is_produced, named, stay_apart, streamable};
use crate::providers::api::{ApiProvider, Endpoint, Frame, Protocol, SseFrame};
use crate::providers::wire::{
    at_most_one, copied_or_empty, key_not_text, key_text, listed_in, meter, metered, not_json,
    object_or_empty, read_model_list, served_by,
};
use crate::registry::Registry;
use crate::secret::{Credential, Secret};
use crate::text::{
    first_chars, followed_by, or_empty, owned, owned_or_empty, same, without_trailing,
};
use std::sync::Arc;
use vstd::prelude::*;
use vstd::utf8::*;

verus! {

/// The Messages protocol.
#[derive(Debug, Clone, Copy, PartialEq, Eq, Structural)]
pub struct Messages;

impl Default for Messages {
    fn default() -> (protocol: Messages)
        ensures
            protocol == Messages,
    {
        Messages
    }
}

/// Anthropic's own hosted API.
pub const DEFAULT_BASE_URL: &'static str = "https://api.anthropic.com";

/// Anthropic, ready to call.
pub type Anthropic = ApiProvider<Messages>;

/// The budget of reasoning tokens for a level.
pub open spec fn budget_of(effort: Effort) -> u32 {
    match effort {
        Effort::Low => 2_048,
        Effort::Medium => 8_192,
        Effort::High => 24_576,
        Effort::XHigh => 49_152,
        Effort::Max => 98_304,
    }
}

/// The budget of reasoning tokens for a level.
///
/// The mapping is here so that one number does not end up copied into every caller, where it
/// would be tuned against one model and wrong on the next.
pub fn budget(effort: Effort) -> (tokens: u32)
    ensures
        tokens == budget_of(effort),
{
    match effort {
        Effort::Low => 2_048,
        Effort::Medium => 8_192,
        Effort::High => 24_576,
        Effort::XHigh => 49_152,
        Effort::Max => 98_304,
    }
}

/// A block as it goes on the wire. An image has no form here.
pub open spec fn wire_block_of(block: Block) -> Tree {
    match block {
        Block::Text(text) => Tree::empty_object().with("type"@, Tree::Text("text"@)).with(
            "text"@,
            Tree::Text(text),
        ),
        Block::Thinking { text, signature } => {
            let out = Tree::empty_object().with("type"@, Tree::Text("thinking"@)).with(
                "thinking"@,
                Tree::Text(text),
            );
            match signature {
                Some(signature) => out.with("signature"@, Tree::Text(signature)),
                None => out,
            }
        },
        Block::ToolUse { id, name, input } => Tree::empty_object().with(
            "type"@,
            Tree::Text("tool_use"@),
        ).with("id"@, Tree::Text(id)).with("name"@, Tree::Text(name)).with("input"@, input),
        Block::Opaque { raw, .. } => raw,
        Block::ToolResult { tool_use_id, content, is_error } => Tree::empty_object().with(
            "type"@,
            Tree::Text("tool_result"@),
        ).with("tool_use_id"@, Tree::Text(tool_use_id)).with("content"@, Tree::Text(content)).with(
            "is_error"@,
            Tree::Bool(is_error),
        ),
        Block::Image { .. } => Tree::Null,
    }
}

/// The mark of a cache breakpoint.
pub open spec fn ephemeral() -> Tree {
    Tree::empty_object().with("type"@, Tree::Text("ephemeral"@))
}

/// The blocks of a turn as they go on the wire. A breakpoint marks the last of them: everything
/// before it is cached, so putting it anywhere else changes what you are billed for.
pub open spec fn wire_blocks_of(blocks: Seq<Block>, marked: bool) -> Seq<Tree> {
    Seq::new(
        blocks.len(),
        |i: int|
            if marked && i == blocks.len() - 1 {
                wire_block_of(blocks[i]).with("cache_control"@, ephemeral())
            } else {
                wire_block_of(blocks[i])
            },
    )
}

/// How a role is called.
pub open spec fn role_name(role: Role) -> Seq<char> {
    match role {
        Role::User => "user"@,
        Role::Assistant => "assistant"@,
    }
}

/// A turn as it goes on the wire.
pub open spec fn wire_turn_of(turn: Turn, marked: bool) -> Tree {
    Tree::empty_object().with("role"@, Tree::Text(role_name(turn.role))).with(
        "content"@,
        Tree::Array(wire_blocks_of(turn.content, marked)),
    )
}

/// The conversation as it goes on the wire.
pub open spec fn wire_turns_of(turns: Seq<Turn>, breakpoints: Seq<usize>) -> Seq<Tree> {
    Seq::new(
        turns.len(),
        |i: int| wire_turn_of(turns[i], breakpoints.contains(i as usize)),
    )
}

/// A tool as it goes on the wire.
pub open spec fn wire_tool_of(tool: Tool) -> Tree {
    Tree::empty_object().with("name"@, Tree::Text(tool.name)).with(
        "description"@,
        Tree::Text(tool.description),
    ).with("input_schema"@, tool.parameters)
}

/// The tools of a request as they go on the wire.
pub open spec fn wire_tools_of(tools: Seq<Tool>) -> Seq<Tree> {
    Seq::new(tools.len(), |i: int| wire_tool_of(tools[i]))
}

/// The most tokens a reply to this request may have.
pub open spec fn limit_of(request: Asked) -> u32 {
    match request.generation.max_tokens {
        Some(max) => max,
        None => 4_096,
    }
}

/// The tokens to reason with at a level, so that at least one is left of the limit.
pub open spec fn thinking_budget(effort: Effort, limit: u32) -> int {
    let most = if limit == 0 {
        0
    } else {
        limit - 1
    };
    if budget_of(effort) <= most {
        budget_of(effort) as int
    } else {
        most
    }
}

/// Reasoning leaves room for the answer: what a request grants it is less than the limit of the
/// reply, and no more than its level asks for.
pub proof fn reasoning_leaves_room_for_the_answer(effort: Effort, limit: u32)
    requires
        limit > 0,
    ensures
        0 <= thinking_budget(effort, limit) < limit,
        thinking_budget(effort, limit) <= budget_of(effort),
{
}

/// A request as it goes on the wire, for a request without an image.
pub open spec fn request_tree(request: Asked) -> Tree {
    let base = Tree::empty_object().with("model"@, Tree::Text(request.model)).with(
        "max_tokens"@,
        Tree::Integer(limit_of(request) as int),
    ).with(
        "messages"@,
        Tree::Array(wire_turns_of(request.messages, request.cache_breakpoints)),
    );
    let base = match request.system {
        Some(system) => base.with("system"@, Tree::Text(system)),
        None => base,
    };
    let base = match request.generation.temperature {
        Some(temperature) => base.with("temperature"@, Tree::Float(temperature)),
        None => base,
    };
    let base = match request.generation.top_p {
        Some(top_p) => base.with("top_p"@, Tree::Float(top_p)),
        None => base,
    };
    let base = if request.tools.len() > 0 {
        base.with("tools"@, Tree::Array(wire_tools_of(request.tools)))
    } else {
        base
    };
    match request.thinking {
        Thinking::On(effort) => base.with(
            "thinking"@,
            Tree::empty_object().with("type"@, Tree::Text("enabled"@)).with(
                "budget_tokens"@,
                Tree::Integer(thinking_budget(effort, limit_of(request))),
            ),
        ),
        _ => base,
    }
}

/// A request as it goes on the wire. One that carries an image is refused.
pub open spec fn request_body(request: Asked) -> Result<Tree, Failure> {
    if request.needs().images {
        Err(Failure::Unsupported("images cannot be sent through this protocol"@))
    } else {
        Ok(request_tree(request))
    }
}

/// Whether a breakpoint behind this turn has an object to go into. Only a block that is kept
/// verbatim can be anything else.
pub open spec fn markable(turn: Turn) -> bool {
    turn.content.len() > 0 ==> (turn.content.last() matches Block::Opaque { raw, .. } ==> raw
        is Object || raw is Null)
}

/// Whether every breakpoint of a request has an object to go into.
pub open spec fn breakpoints_fit(request: Asked) -> bool {
    forall|i: int|
        0 <= i < request.messages.len() && request.cache_breakpoints.contains(i as usize)
            ==> markable(#[trigger] request.messages[i])
}

/// The block that a document of a reply gives.
pub open spec fn block_in(tree: Tree) -> Option<Block> {
    match tree.text_at("type"@) {
        None => None,
        Some(kind) => if kind == "text"@ {
            match tree.text_at("text"@) {
                Some(text) => Some(Block::Text(text)),
                None => None,
            }
        } else if kind == "thinking"@ {
            Some(
                Block::Thinking {
                    text: or_empty(tree.text_at("thinking"@)),
                    signature: tree.text_at("signature"@),
                },
            )
        } else if kind == "tool_use"@ {
            match (tree.text_at("id"@), tree.text_at("name"@)) {
                (Some(id), Some(name)) => Some(
                    Block::ToolUse { id, name, input: object_or_empty(tree.get("input"@)) },
                ),
                _ => None,
            }
        } else {
            Some(Block::Opaque { kind, raw: tree })
        },
    }
}

/// The blocks that the documents of a reply give, those left out that give none.
pub open spec fn blocks_in(items: Seq<Tree>) -> Seq<Block>
    decreases items.len(),
{
    if items.len() == 0 {
        Seq::empty()
    } else {
        match block_in(items.last()) {
            Some(block) => blocks_in(items.drop_last()).push(block),
            None => blocks_in(items.drop_last()),
        }
    }
}

/// What a stop reason means. One this crate does not know is kept as unknown: guessing would
/// report a complete answer for a truncated reply.
pub open spec fn stop_of(reason: Option<Seq<char>>) -> StopReason {
    match reason {
        None => StopReason::Other,
        Some(reason) => if reason == "end_turn"@ {
            StopReason::EndTurn
        } else if reason == "tool_use"@ {
            StopReason::ToolUse
        } else if reason == "stop_sequence"@ {
            StopReason::StopSequence
        } else if reason == "max_tokens"@ {
            StopReason::MaxTokens
        } else if reason == "refusal"@ {
            StopReason::Refusal
        } else if reason == "pause_turn"@ {
            StopReason::PauseTurn
        } else if reason == "model_context_window_exceeded"@ {
            StopReason::ContextWindowExceeded
        } else {
            StopReason::Other
        },
    }
}

/// The tokens that a document reports.
pub open spec fn usage_in(tree: Option<Tree>) -> Usage {
    match tree {
        None => Usage::nothing(),
        Some(usage) => Usage {
            input_tokens: usage.u64_at("input_tokens"@),
            cache_read_tokens: usage.u64_at("cache_read_input_tokens"@),
            cache_write_tokens: usage.u64_at("cache_creation_input_tokens"@),
            output_tokens: usage.u64_at("output_tokens"@),
            estimated: false,
        },
    }
}

/// The reply that a document gives. One with nothing readable in it is a failure, not an empty
/// answer.
pub open spec fn reply_of(body: Tree, asked_for: Seq<char>) -> Result<Reply, Failure> {
    let blocks = match body.array_at("content"@) {
        Some(items) => blocks_in(items),
        None => Seq::empty(),
    };
    if blocks.len() == 0 {
        Err(Failure::Unreadable("the reply carried no content this crate could read"@))
    } else {
        Ok(
            Reply {
                message: Turn { role: Role::Assistant, content: blocks },
                stop_reason: stop_of(body.text_at("stop_reason"@)),
                stop_details: body.text_at("stop_sequence"@),
                usage: usage_in(body.get("usage"@)),
                model: served_by(body.text_at("model"@), asked_for),
            },
        )
    }
}

/// The events of a frame that opens a message: which model answers, and the prompt half of the
/// usage.
pub open spec fn start_events(message: Option<Tree>) -> Seq<Happening> {
    match message {
        None => Seq::empty(),
        Some(message) => (match message.text_at("model"@) {
            Some(model) => seq![Happening::Started { model }],
            None => Seq::empty(),
        }) + metered(usage_in(message.get("usage"@))),
    }
}

/// The events of a frame that opens a block. Text and thinking open empty and are filled later;
/// a block this crate does not model is kept verbatim.
pub open spec fn block_start_events(block: Option<Tree>) -> Seq<Happening> {
    match block {
        None => Seq::empty(),
        Some(block) => match block.text_at("type"@) {
            None => Seq::empty(),
            Some(kind) => if kind == "text"@ || kind == "thinking"@ {
                Seq::empty()
            } else if kind == "tool_use"@ {
                seq![
                    Happening::ToolUseStarted {
                        id: or_empty(block.text_at("id"@)),
                        name: or_empty(block.text_at("name"@)),
                    },
                ]
            } else {
                seq![Happening::Opaque { kind, raw: block }]
            },
        },
    }
}

/// The events of a frame that adds to a block.
pub open spec fn delta_events(delta: Option<Tree>) -> Seq<Happening> {
    match delta {
        None => Seq::empty(),
        Some(delta) => match delta.text_at("type"@) {
            None => Seq::empty(),
            Some(kind) => if kind == "text_delta"@ {
                match delta.text_at("text"@) {
                    Some(text) => seq![Happening::TextDelta(text)],
                    None => Seq::empty(),
                }
            } else if kind == "thinking_delta"@ {
                match delta.text_at("thinking"@) {
                    Some(text) => seq![Happening::ThinkingDelta(text)],
                    None => Seq::empty(),
                }
            } else if kind == "signature_delta"@ {
                match delta.text_at("signature"@) {
                    Some(text) => seq![Happening::ThinkingSignature(text)],
                    None => Seq::empty(),
                }
            } else if kind == "input_json_delta"@ {
                match delta.text_at("partial_json"@) {
                    Some(text) => seq![Happening::ToolArgumentsDelta(text)],
                    None => Seq::empty(),
                }
            } else {
                Seq::empty()
            },
        },
    }
}

/// The event of a frame that says why the model stopped. A `null` there means "not yet".
pub open spec fn stop_events(delta: Option<Tree>) -> Seq<Happening> {
    match delta {
        None => Seq::empty(),
        Some(delta) => match delta.get("stop_reason"@) {
            None => Seq::empty(),
            Some(reason) => if reason is Null {
                Seq::empty()
            } else {
                seq![
                    Happening::Stopped {
                        reason: stop_of(reason.as_str()),
                        details: delta.text_at("stop_sequence"@),
                    },
                ]
            },
        },
    }
}

/// Why a stream stopped, as a frame says.
pub open spec fn stream_failure(body: Tree) -> Failure {
    let reason = match body.get("error"@) {
        Some(error) => error.text_at("message"@),
        None => None,
    };
    Failure::Transient(
        "the stream stopped: "@ + (match reason {
            Some(reason) => reason,
            None => "no reason given"@,
        }),
    )
}

/// The events of a frame of this kind that carries this document.
pub open spec fn frame_events(kind: Seq<char>, body: Tree) -> Result<Seq<Happening>, Failure> {
    if kind == "message_start"@ {
        Ok(start_events(body.get("message"@)))
    } else if kind == "content_block_start"@ {
        Ok(block_start_events(body.get("content_block"@)))
    } else if kind == "content_block_delta"@ {
        Ok(delta_events(body.get("delta"@)))
    } else if kind == "message_delta"@ {
        Ok(stop_events(body.get("delta"@)) + metered(usage_in(body.get("usage"@))))
    } else if kind == "error"@ {
        Err(stream_failure(body))
    } else {
        Ok(Seq::empty())
    }
}

/// Writes a block.
fn wire_block(block: &ContentBlock) -> (json: Json)
    ensures
        json.tree() == wire_block_of(block.deep_view()),
{
    match block {
        ContentBlock::Text(text) => Json::object().with("type", Json::text("text")).with(
            "text",
            Json::text(text),
        ),
        ContentBlock::Thinking { text, signature } => {
            // The signature goes back untouched. A thinking block replayed without it is
            // rejected on arrival, and dropping the block changes the turn the model sees.
            let out = Json::object().with("type", Json::text("thinking")).with(
                "thinking",
                Json::text(text),
            );
            match signature {
                Some(signature) => out.with("signature", Json::text(signature)),
                None => out,
            }
        },
        ContentBlock::ToolUse { id, name, input } => Json::object().with(
            "type",
            Json::text("tool_use"),
        ).with("id", Json::text(id)).with("name", Json::text(name)).with("input", input.clone()),
        // Byte for byte. The provider checks the history against what it produced, so a
        // block reshaped here is a block it will not recognise.
        ContentBlock::Opaque { raw, .. } => raw.clone(),
        ContentBlock::ToolResult { tool_use_id, content, is_error } => Json::object().with(
            "type",
            Json::text("tool_result"),
        ).with("tool_use_id", Json::text(tool_use_id)).with("content", Json::text(content)).with(
            "is_error",
            Json::Bool(*is_error),
        ),
        ContentBlock::Image { .. } => Json::Null,
    }
}

/// Writes a turn.
fn wire_turn(message: &Message, marked: bool) -> (json: Json)
    ensures
        json.tree() == wire_turn_of(message.deep_view(), marked),
{
    let mut blocks: Vec<Json> = Vec::new();
    let count = message.content.len();
    let mut i: usize = 0;
    while i < count
        invariant
            i <= count == message.content.len(),
            blocks.len() == i,
            forall|j: int|
                0 <= j < i ==> (#[trigger] blocks[j]).tree() == wire_blocks_of(
                    message.deep_view().content,
                    marked,
                )[j],
        decreases count - i,
    {
        let block = wire_block(&message.content[i]);
        if marked && i == count - 1 {
            blocks.push(
                block.with(
                    "cache_control",
                    Json::object().with("type", Json::text("ephemeral")),
                ),
            );
        } else {
            blocks.push(block);
        }
        i += 1;
    }
    assert(trees(blocks@) == wire_blocks_of(message.deep_view().content, marked));
    let role = match message.role {
        Role::User => "user",
        Role::Assistant => "assistant",
    };
    Json::object().with("role", Json::text(role)).with("content", Json::Array(blocks))
}

/// Whether a breakpoint stands behind the message at this place.
fn is_breakpoint(breakpoints: &Vec<usize>, at: usize) -> (yes: bool)
    ensures
        yes == breakpoints@.contains(at),
{
    let mut i: usize = 0;
    while i < breakpoints.len()
        invariant
            i <= breakpoints.len(),
            forall|j: int| 0 <= j < i ==> breakpoints@[j] != at,
        decreases breakpoints.len() - i,
    {
        if breakpoints[i] == at {
            assert(breakpoints@[i as int] == at);
            return true;
        }
        i += 1;
    }
    false
}

/// Writes the conversation.
fn messages(request: &ChatRequest) -> (json: Json)
    ensures
        json.tree() == Tree::Array(
            wire_turns_of(request.deep_view().messages, request.deep_view().cache_breakpoints),
        ),
{
    let mut out: Vec<Json> = Vec::new();
    let mut i: usize = 0;
    while i < request.messages.len()
        invariant
            i <= request.messages.len(),
            out.len() == i,
            forall|j: int|
                0 <= j < i ==> (#[trigger] out[j]).tree() == wire_turns_of(
                    request.deep_view().messages,
                    request.deep_view().cache_breakpoints,
                )[j],
        decreases request.messages.len() - i,
    {
        let marked = is_breakpoint(&request.cache_breakpoints, i);
        out.push(wire_turn(&request.messages[i], marked));
        i += 1;
    }
    assert(trees(out@) == wire_turns_of(
        request.deep_view().messages,
        request.deep_view().cache_breakpoints,
    ));
    Json::Array(out)
}

/// Writes the tools of a request.
fn wire_tools(tools: &Vec<ToolSchema>) -> (json: Json)
    ensures
        json.tree() == Tree::Array(wire_tools_of(tools.deep_view())),
{
    let mut out: Vec<Json> = Vec::new();
    let mut i: usize = 0;
    while i < tools.len()
        invariant
            i <= tools.len(),
            out.len() == i,
            forall|j: int|
                0 <= j < i ==> (#[trigger] out[j]).tree() == wire_tools_of(tools.deep_view())[j],
        decreases tools.len() - i,
    {
        out.push(
            Json::object().with("name", Json::text(&tools[i].name)).with(
                "description",
                Json::text(&tools[i].description),
            ).with("input_schema", tools[i].parameters.clone()),
        );
        i += 1;
    }
    assert(trees(out@) == wire_tools_of(tools.deep_view()));
    Json::Array(out)
}

/// Writes a request.
pub fn write_request(request: &ChatRequest) -> (body: Result<Json, Error>)
    requires
        breakpoints_fit(request.deep_view()),
    ensures
        outcome(body) == request_body(request.deep_view()),
{
    if request.needs().images {
        return Err(
            Error::Unsupported("images cannot be sent through this protocol".to_owned()),
        );
    }
    // The API requires a limit. Sending none is a request it refuses, so this is the one
    // place a default beats an error: 4096 is small enough not to surprise a bill and
    // large enough for most replies.
    let max_tokens: u32 = match request.generation.max_tokens {
        Some(max) => max,
        None => 4_096,
    };
    let mut body = Json::object().with("model", Json::text(request.model.as_str())).with(
        "max_tokens",
        Json::Unsigned(max_tokens as u64),
    ).with("messages", messages(request));
    if let Some(system) = &request.system {
        body = body.with("system", Json::text(system));
    }
    if let Some(temperature) = &request.generation.temperature {
        body = body.with("temperature", Json::Float(temperature.copied()));
    }
    if let Some(top_p) = &request.generation.top_p {
        body = body.with("top_p", Json::Float(top_p.copied()));
    }
    if request.tools.len() > 0 {
        body = body.with("tools", wire_tools(&request.tools));
    }
    // `Unset` sends nothing. On a model that reasons by default that leaves it on, which
    // is what no opinion means; sending "off" here would be a decision the caller did
    // not make.

    if let Thinking::On(effort) = request.thinking {
        let most: u32 = max_tokens.saturating_sub(1);
        let asked: u32 = budget(effort);
        let tokens: u32 = if asked <= most {
            asked
        } else {
            most
        };
        body = body.with(
            "thinking",
            Json::object().with("type", Json::text("enabled")).with(
                "budget_tokens",
                Json::Unsigned(tokens as u64),
            ),
        );
    }
    Ok(body)
}

/// Whether every breakpoint of a request has an object to go into, which is what
/// [`write_request`] asks for.
pub fn can_write(request: &ChatRequest) -> (yes: bool)
    ensures
        yes == breakpoints_fit(request.deep_view()),
{
    let mut i: usize = 0;
    while i < request.messages.len()
        invariant
            i <= request.messages.len(),
            forall|j: int|
                0 <= j < i && request.deep_view().cache_breakpoints.contains(j as usize)
                    ==> markable(#[trigger] request.deep_view().messages[j]),
        decreases request.messages.len() - i,
    {
        let content = &request.messages[i].content;
        assert(request.deep_view().messages[i as int].content == content.deep_view());
        if content.len() > 0 && is_breakpoint(&request.cache_breakpoints, i) {
            assert(request.deep_view().messages[i as int].content.last()
                == content[content.len() - 1].deep_view());
            if let ContentBlock::Opaque { raw, .. } = &content[content.len() - 1] {
                match raw {
                    Json::Object(_) | Json::Null => {},
                    _ => {
                        assert(!markable(request.deep_view().messages[i as int]));
                        return false;
                    },
                }
            }
        }
        i += 1;
    }
    true
}

/// Reads a block.
fn read_block(value: &Json) -> (block: Option<ContentBlock>)
    ensures
        block.deep_view() == block_in(value.tree()),
{
    let kind = match value.text_at("type") {
        Some(kind) => kind,
        None => {
            return None;
        },
    };
    if same(kind, "text") {
        match value.text_at("text") {
            Some(text) => Some(ContentBlock::Text(text.to_owned())),
            None => None,
        }
    } else if same(kind, "thinking") {
        // Absent when the provider elides the reasoning. Not an error, and the block
        // still matters because the signature is on it.
        Some(
            ContentBlock::Thinking {
                text: owned_or_empty(value.text_at("thinking")),
                signature: owned(value.text_at("signature")),
            },
        )
    } else if same(kind, "tool_use") {
        match (value.text_at("id"), value.text_at("name")) {
            (Some(id), Some(name)) => Some(
                ContentBlock::ToolUse {
                    id: id.to_owned(),
                    name: name.to_owned(),
                    input: copied_or_empty(value.get("input")),
                },
            ),
            _ => None,
        }
    } else {
        // Kept rather than dropped. A redacted reasoning blob replayed without this block is
        // a continuation the provider rejects, one turn after the mistake.
        Some(ContentBlock::Opaque { kind: kind.to_owned(), raw: value.clone() })
    }
}

/// Reads the blocks of a reply.
fn read_blocks(items: &Vec<Json>) -> (blocks: Vec<ContentBlock>)
    ensures
        blocks.deep_view() == blocks_in(trees(items@)),
{
    let mut blocks: Vec<ContentBlock> = Vec::new();
    let mut i: usize = 0;
    assert(trees(items@).take(0) == Seq::<Tree>::empty());
    assert(blocks.deep_view() == Seq::<Block>::empty());
    while i < items.len()
        invariant
            i <= items.len(),
            blocks.deep_view() == blocks_in(trees(items@).take(i as int)),
        decreases items.len() - i,
    {
        let ghost before = blocks.deep_view();
        proof {
            let some = trees(items@).take(i + 1);
            assert(some.drop_last() == trees(items@).take(i as int));
            assert(some.last() == items[i as int].tree());
        }
        if let Some(block) = read_block(&items[i]) {
            blocks.push(block);
            assert(blocks.deep_view() == before.push(block.deep_view()));
        }
        i += 1;
    }
    assert(trees(items@).take(i as int) == trees(items@));
    blocks
}

/// Reads a stop reason.
pub(crate) fn read_stop(reason: Option<&str>) -> (stop: StopReason)
    ensures
        stop == stop_of(reason.deep_view()),
{
    match reason {
        None => StopReason::Other,
        Some(reason) => if same(reason, "end_turn") {
            StopReason::EndTurn
        } else if same(reason, "tool_use") {
            StopReason::ToolUse
        } else if same(reason, "stop_sequence") {
            StopReason::StopSequence
        } else if same(reason, "max_tokens") {
            StopReason::MaxTokens
        } else if same(reason, "refusal") {
            StopReason::Refusal
        } else if same(reason, "pause_turn") {
            StopReason::PauseTurn
        } else if same(reason, "model_context_window_exceeded") {
            StopReason::ContextWindowExceeded
        } else {
            StopReason::Other
        },
    }
}

/// Reads the tokens a document reports.
///
/// `input_tokens` is already the uncached remainder here, so nothing is subtracted.
fn read_usage(value: Option<&Json>) -> (usage: Usage)
    ensures
        usage == usage_in(value.deep_view()),
{
    match value {
        None => Usage::absent(),
        Some(usage) => Usage {
            input_tokens: usage.u64_at("input_tokens"),
            cache_read_tokens: usage.u64_at("cache_read_input_tokens"),
            cache_write_tokens: usage.u64_at("cache_creation_input_tokens"),
            output_tokens: usage.u64_at("output_tokens"),
            estimated: false,
        },
    }
}

/// Reads a reply.
pub fn read_reply(body: &Json, asked_for: &ModelId) -> (reply: Result<ChatResponse, Error>)
    ensures
        outcome(reply) == reply_of(body.tree(), asked_for@),
{
    let blocks = match body.array_at("content") {
        Some(items) => read_blocks(items),
        None => Vec::new(),
    };
    assert(body.tree().array_at("content"@) is None ==> blocks.deep_view()
        == Seq::<Block>::empty());
    if blocks.len() == 0 {
        return Err(
            Error::Unreadable("the reply carried no content this crate could read".to_owned()),
        );
    }
    Ok(
        ChatResponse {
            message: Message { role: Role::Assistant, content: blocks },
            stop_reason: read_stop(body.text_at("stop_reason")),
            stop_details: owned(body.text_at("stop_sequence")),
            usage: read_usage(body.get("usage")),
            model: match body.text_at("model") {
                Some(model) => ModelId(model.to_owned()),
                None => asked_for.copied(),
            },
        },
    )
}

/// Reads a frame that opens a message.
fn read_start(message: Option<&Json>) -> (events: Vec<Event>)
    ensures
        events.deep_view() == start_events(message.deep_view()),
{
    match message {
        None => at_most_one(None),
        Some(message) => {
            let mut events = at_most_one(
                match message.text_at("model") {
                    Some(model) => Some(Event::Started { model: ModelId(model.to_owned()) }),
                    None => None,
                },
            );
            meter(&mut events, read_usage(message.get("usage")));
            events
        },
    }
}

/// Reads a frame that opens a block.
fn read_block_start(block: Option<&Json>) -> (events: Vec<Event>)
    ensures
        events.deep_view() == block_start_events(block.deep_view()),
{
    let block = match block {
        Some(block) => block,
        None => {
            return at_most_one(None);
        },
    };
    match block.text_at("type") {
        None => at_most_one(None),
        Some(kind) => if same(kind, "text") || same(kind, "thinking") {
            at_most_one(None)
        } else if same(kind, "tool_use") {
            at_most_one(
                Some(
                    Event::ToolUseStarted {
                        id: owned_or_empty(block.text_at("id")),
                        name: owned_or_empty(block.text_at("name")),
                    },
                ),
            )
        } else {
            at_most_one(Some(Event::Opaque { kind: kind.to_owned(), raw: block.clone() }))
        },
    }
}

/// Reads a frame that adds to a block.
fn read_delta(delta: Option<&Json>) -> (events: Vec<Event>)
    ensures
        events.deep_view() == delta_events(delta.deep_view()),
{
    let delta = match delta {
        Some(delta) => delta,
        None => {
            return at_most_one(None);
        },
    };
    let kind = match delta.text_at("type") {
        Some(kind) => kind,
        None => {
            return at_most_one(None);
        },
    };
    if same(kind, "text_delta") {
        match delta.text_at("text") {
            Some(text) => at_most_one(Some(Event::TextDelta(text.to_owned()))),
            None => at_most_one(None),
        }
    } else if same(kind, "thinking_delta") {
        match delta.text_at("thinking") {
            Some(text) => at_most_one(Some(Event::ThinkingDelta(text.to_owned()))),
            None => at_most_one(None),
        }
    } else if same(kind, "signature_delta") {
        // The proof for the thinking block that just ended. Losing this is not visible now;
        // it is visible one turn later, when the provider rejects the history it is missing
        // from.
        match delta.text_at("signature") {
            Some(text) => at_most_one(Some(Event::ThinkingSignature(text.to_owned()))),
            None => at_most_one(None),
        }
    } else if same(kind, "input_json_delta") {
        match delta.text_at("partial_json") {
            Some(text) => at_most_one(Some(Event::ToolArgumentsDelta(text.to_owned()))),
            None => at_most_one(None),
        }
    } else {
        at_most_one(None)
    }
}

/// Reads why the model stopped.
fn read_stopped(delta: Option<&Json>) -> (events: Vec<Event>)
    ensures
        events.deep_view() == stop_events(delta.deep_view()),
{
    let delta = match delta {
        Some(delta) => delta,
        None => {
            return at_most_one(None);
        },
    };
    match delta.get("stop_reason") {
        None => at_most_one(None),
        Some(reason) => if reason.is_null() {
            at_most_one(None)
        } else {
            at_most_one(
                Some(
                    Event::Stopped {
                        reason: read_stop(reason.as_str()),
                        details: owned(delta.text_at("stop_sequence")),
                    },
                ),
            )
        },
    }
}

/// Reads a frame of this kind that carries this document.
///
/// The kind is on the `event:` line, and repeated inside the document. The line is what the
/// format says is authoritative, so that is what this reads.
pub fn read_frame(kind: &str, body: &Json) -> (events: Result<Vec<Event>, Error>)
    ensures
        outcome(events) == frame_events(kind@, body.tree()),
{
    if same(kind, "message_start") {
        Ok(read_start(body.get("message")))
    } else if same(kind, "content_block_start") {
        Ok(read_block_start(body.get("content_block")))
    } else if same(kind, "content_block_delta") {
        Ok(read_delta(body.get("delta")))
    } else if same(kind, "message_delta") {
        let mut events = read_stopped(body.get("delta"));
        meter(&mut events, read_usage(body.get("usage")));
        Ok(events)
    } else if same(kind, "error") {
        // An error mid stream. The provider is telling us the rest is not coming, and
        // saying so is the difference between a truncated answer and a known failure.
        let reason = match body.get("error") {
            Some(error) => error.text_at("message"),
            None => None,
        };
        Err(
            Error::Transient(
                followed_by(
                    "the stream stopped: ",
                    match reason {
                        Some(reason) => reason,
                        None => "no reason given",
                    },
                ),
            ),
        )
    } else {
        Ok(at_most_one(None))
    }
}

impl Protocol for Messages {
    open spec fn name(&self) -> Seq<char> {
        "anthropic"@
    }

    open spec fn chat_address(&self, base_url: Seq<char>, model: Seq<char>) -> Seq<char> {
        base_url + "/v1/messages"@
    }

    open spec fn stream_address(&self, base_url: Seq<char>, model: Seq<char>) -> Seq<char> {
        base_url + "/v1/messages"@
    }

    open spec fn catalogue_address(&self, base_url: Seq<char>) -> Option<Seq<char>> {
        Some(base_url + "/v1/models"@)
    }

    open spec fn header_list(&self, key: Credential) -> Result<
        Seq<(Seq<char>, Seq<char>)>,
        Failure,
    > {
        if valid_utf8(key.bytes) {
            Ok(
                seq![
                    ("x-api-key"@, decode_utf8(key.bytes)),
                    ("anthropic-version"@, "2023-06-01"@),
                    ("content-type"@, "application/json"@),
                ],
            )
        } else {
            Err(key_not_text())
        }
    }

    open spec fn writes(&self, request: Asked) -> bool {
        breakpoints_fit(request)
    }

    open spec fn body_of(&self, request: Asked) -> Result<Tree, Failure> {
        request_body(request)
    }

    open spec fn stream_body_of(&self, request: Asked) -> Result<Option<Tree>, Failure> {
        match request_body(request) {
            Ok(body) => Ok(Some(body.with("stream"@, Tree::Bool(true)))),
            Err(why) => Err(why),
        }
    }

    open spec fn reply_in(&self, body: Tree, asked_for: Seq<char>) -> Result<Reply, Failure> {
        reply_of(body, asked_for)
    }

    open spec fn names_in(&self, body: Tree) -> Result<Seq<Seq<char>>, Failure> {
        listed_in(body)
    }

    open spec fn events_in(&self, frame: Frame) -> Result<Seq<Happening>, Failure> {
        match frame.json() {
            None => Err(not_json(frame.data)),
            Some(body) => frame_events(frame.event, body),
        }
    }

    fn id(&self) -> (id: &str) {
        "anthropic"
    }

    fn chat_url(&self, base_url: &str, model: &ModelId) -> (url: String) {
        followed_by(base_url, "/v1/messages")
    }

    fn stream_url(&self, base_url: &str, model: &ModelId) -> (url: String) {
        followed_by(base_url, "/v1/messages")
    }

    fn catalogue_url(&self, base_url: &str) -> (url: Option<String>) {
        Some(followed_by(base_url, "/v1/models"))
    }

    fn headers(&self, key: &Secret) -> (headers: Result<Vec<(String, String)>, Error>) {
        match key_text(key) {
            Err(why) => Err(why),
            Ok(key) => {
                let ghost value = key@;
                let mut headers: Vec<(String, String)> = Vec::new();
                headers.push(("x-api-key".to_owned(), key));
                headers.push(("anthropic-version".to_owned(), "2023-06-01".to_owned()));
                headers.push(("content-type".to_owned(), "application/json".to_owned()));
                assert(headers.deep_view() == seq![
                    ("x-api-key"@, value),
                    ("anthropic-version"@, "2023-06-01"@),
                    ("content-type"@, "application/json"@),
                ]);
                Ok(headers)
            },
        }
    }

    fn body(&self, request: &ChatRequest) -> (body: Result<Json, Error>) {
        write_request(request)
    }

    fn stream_body(&self, request: &ChatRequest) -> (body: Result<Option<Json>, Error>) {
        match write_request(request) {
            Ok(body) => Ok(Some(body.with("stream", Json::Bool(true)))),
            Err(why) => Err(why),
        }
    }

    fn read(&self, body: &Json, asked_for: &ModelId) -> (reply: Result<ChatResponse, Error>) {
        read_reply(body, asked_for)
    }

    fn read_catalogue(&self, body: &Json) -> (ids: Result<Vec<ModelId>, Error>) {
        read_model_list(body)
    }

    fn read_event(&self, frame: &SseFrame) -> (events: Result<Vec<Event>, Error>) {
        match frame.json() {
            // Anthropic sends no non JSON frames. One that arrives is a frame this code
            // cannot read, and dropping it silently loses whatever it carried.
            None => Err(
                Error::Unreadable(
                    followed_by(
                        "a frame that was not JSON: ",
                        first_chars(frame.data.as_str(), 120).as_str(),
                    ),
                ),
            ),
            Some(body) => read_frame(frame.event.as_str(), &body),
        }
    }
}

/// The Messages API at its own address, with a credential and a model table of your own.
pub fn with(key: Secret, registry: Arc<Registry>) -> (provider: ApiProvider<Messages>)
    ensures
        provider.speaks() == Messages,
        provider.holds() == (Endpoint {
            key: key@,
            base_url: without_trailing("https://api.anthropic.com"@, '/'),
            reach: Reach::FirstPartyApi,
            registry: registry.deep_view(),
        }),
{
    ApiProvider::new(Messages, DEFAULT_BASE_URL, key, Reach::FirstPartyApi, registry)
}

/// Whether frames of this kind say anything that a reply is put together from.
pub open spec fn speaks(kind: Seq<char>) -> bool {
    kind == "message_start"@ || kind == "content_block_start"@ || kind == "content_block_delta"@
        || kind == "message_delta"@ || kind == "error"@
}

/// The events of some frames in turn, each with its kind and its document, while none fails.
pub open spec fn events_of(frames: Seq<(Seq<char>, Tree)>) -> Seq<Happening>
    decreases frames.len(),
{
    if frames.len() == 0 {
        Seq::empty()
    } else {
        events_of(frames.drop_last()) + (match frame_events(frames.last().0, frames.last().1) {
            Ok(events) => events,
            Err(_) => Seq::empty(),
        })
    }
}

/// A block on its way: the document of the frame that opens it, and those of the frames that add
/// to it.
pub struct Opening {
    pub start: Tree,
    pub deltas: Seq<Tree>,
}

/// A message on its way: the document of the frame that opens it, its blocks, and the document of
/// the frame that says why the model stopped.
pub struct Arrival {
    pub start: Tree,
    pub blocks: Seq<Opening>,
    pub end: Tree,
}

/// The text that a frame adds to a block, where it adds this kind of it.
pub open spec fn piece_in(delta: Tree, kind: Seq<char>, field: Seq<char>) -> Option<Seq<char>> {
    match delta.get("delta"@) {
        Some(delta) => if delta.text_at("type"@) == Some(kind) {
            delta.text_at(field)
        } else {
            None
        },
        None => None,
    }
}

/// The text that some frames add to a block, where all of them add this kind of it.
pub open spec fn pieces_in(deltas: Seq<Tree>, kind: Seq<char>, field: Seq<char>) -> Option<
    Seq<char>,
>
    decreases deltas.len(),
{
    if deltas.len() == 0 {
        Some(Seq::empty())
    } else {
        match (pieces_in(deltas.drop_last(), kind, field), piece_in(deltas.last(), kind, field)) {
            (Some(text), Some(more)) => Some(text + more),
            _ => None,
        }
    }
}

impl Opening {
    /// The frames of this block.
    pub open spec fn frames(self) -> Seq<(Seq<char>, Tree)> {
        seq![("content_block_start"@, self.start)] + self.deltas.map_values(
            |delta: Tree| ("content_block_delta"@, delta),
        )
    }

    /// The kind of this block.
    pub open spec fn kind(self) -> Option<Seq<char>> {
        match self.start.get("content_block"@) {
            Some(block) => block.text_at("type"@),
            None => None,
        }
    }

    /// Whether this makes up the block of a message that this document gives: the text of one in
    /// any pieces, the reasoning of one in any pieces and its proof behind them, the name of a
    /// tool and its arguments in any pieces, and a block that is kept verbatim at once.
    pub open spec fn makes_up(self, item: Tree) -> bool {
        match block_in(item) {
            Some(Block::Text(text)) => self.kind() == Some("text"@) && self.deltas.len() > 0
                && pieces_in(self.deltas, "text_delta"@, "text"@) == Some(text),
            Some(Block::Thinking { text, signature: None }) => self.kind() == Some("thinking"@)
                && self.deltas.len() > 0 && pieces_in(
                self.deltas,
                "thinking_delta"@,
                "thinking"@,
            ) == Some(text),
            Some(Block::Thinking { text, signature: Some(signature) }) => self.kind() == Some(
                "thinking"@,
            ) && self.deltas.len() > 1 && pieces_in(
                self.deltas.drop_last(),
                "thinking_delta"@,
                "thinking"@,
            ) == Some(text) && piece_in(self.deltas.last(), "signature_delta"@, "signature"@)
                == Some(signature),
            Some(Block::ToolUse { id, name, input }) => self.kind() == Some("tool_use"@)
                && self.start.get("content_block"@)->0.text_at("id"@) == Some(id)
                && self.start.get("content_block"@)->0.text_at("name"@) == Some(name) && (pieces_in(
                self.deltas,
                "input_json_delta"@,
                "partial_json"@,
            ) matches Some(arguments) && arrived_input(arguments) == input),
            Some(Block::Opaque { .. }) => self.start.get("content_block"@) == Some(item)
                && self.deltas.len() == 0,
            _ => false,
        }
    }
}

/// The frames of some blocks in turn.
pub open spec fn blocks_frames(blocks: Seq<Opening>) -> Seq<(Seq<char>, Tree)>
    decreases blocks.len(),
{
    if blocks.len() == 0 {
        Seq::empty()
    } else {
        blocks_frames(blocks.drop_last()) + blocks.last().frames()
    }
}

impl Arrival {
    /// The frames of this message.
    pub open spec fn frames(self) -> Seq<(Seq<char>, Tree)> {
        seq![("message_start"@, self.start)] + blocks_frames(self.blocks) + seq![
            ("message_delta"@, self.end),
        ]
    }

    /// Whether this makes up the message that a document gives: the same model, the blocks one by
    /// one, the same stop reason, and the same tokens once both reports of them were taken in.
    pub open spec fn makes_up(self, body: Tree) -> bool {
        let items = body.array_at("content"@)->0;
        let message = self.start.get("message"@);
        let delta = self.end.get("delta"@);
        &&& message is Some && message->0.text_at("model"@) == body.text_at("model"@)
        &&& self.blocks.len() == items.len()
        &&& forall|i: int|
            0 <= i < items.len() ==> (#[trigger] self.blocks[i]).makes_up(items[i])
        &&& delta is Some && delta->0.get("stop_reason"@) is Some && !(delta->0.get(
            "stop_reason"@,
        )->0 is Null)
        &&& delta->0.get("stop_reason"@) == body.get("stop_reason"@)
        &&& delta->0.text_at("stop_sequence"@) == body.text_at("stop_sequence"@)
        &&& usage_in(message->0.get("usage"@)).revised(usage_in(self.end.get("usage"@)))
            == usage_in(body.get("usage"@))
    }
}

/// The kinds of frames are told apart.
proof fn kinds_differ()
    ensures
        "content_block_start"@ != "message_start"@,
        "content_block_delta"@ != "message_start"@,
        "content_block_delta"@ != "content_block_start"@,
        "message_delta"@ != "message_start"@,
        "message_delta"@ != "content_block_start"@,
        "message_delta"@ != "content_block_delta"@,
        "thinking_delta"@ != "text_delta"@,
        "signature_delta"@ != "text_delta"@,
        "signature_delta"@ != "thinking_delta"@,
        "input_json_delta"@ != "text_delta"@,
        "input_json_delta"@ != "thinking_delta"@,
        "input_json_delta"@ != "signature_delta"@,
        "tool_use"@ != "text"@,
        "tool_use"@ != "thinking"@,
{
    reveal_strlit("message_start");
    reveal_strlit("content_block_start");
    reveal_strlit("content_block_delta");
    reveal_strlit("message_delta");
    reveal_strlit("text_delta");
    reveal_strlit("thinking_delta");
    reveal_strlit("signature_delta");
    reveal_strlit("input_json_delta");
    reveal_strlit("text");
    reveal_strlit("thinking");
    reveal_strlit("tool_use");
    assert("message_start"@.len() == 13 && "message_delta"@.len() == 13);
    assert("message_start"@[8] == 's' && "message_delta"@[8] == 'd');
    assert("content_block_start"@.len() == 19 && "content_block_delta"@.len() == 19);
    assert("content_block_start"@[14] == 's' && "content_block_delta"@[14] == 'd');
    assert("text_delta"@.len() == 10 && "thinking_delta"@.len() == 14 && "signature_delta"@.len()
        == 15 && "input_json_delta"@.len() == 16);
    assert("text"@.len() == 4 && "thinking"@.len() == 8 && "tool_use"@.len() == 8);
    assert("thinking"@[1] == 'h' && "tool_use"@[1] == 'o');
}

/// Frames one lot after another give the events of the first and those of the rest.
proof fn events_in_parts(first: Seq<(Seq<char>, Tree)>, rest: Seq<(Seq<char>, Tree)>)
    ensures
        events_of(first + rest) == events_of(first) + events_of(rest),
    decreases rest.len(),
{
    if rest.len() == 0 {
        assert(first + rest =~= first);
        assert(events_of(first) + Seq::<Happening>::empty() =~= events_of(first));
    } else {
        assert((first + rest).drop_last() =~= first + rest.drop_last());
        events_in_parts(first, rest.drop_last());
        let last = match frame_events(rest.last().0, rest.last().1) {
            Ok(events) => events,
            Err(_) => Seq::empty(),
        };
        assert((events_of(first) + events_of(rest.drop_last())) + last =~= events_of(first) + (
        events_of(rest.drop_last()) + last));
    }
}

/// One frame gives its own events.
proof fn events_of_one_frame(kind: Seq<char>, body: Tree)
    requires
        frame_events(kind, body) is Ok,
    ensures
        events_of(seq![(kind, body)]) == frame_events(kind, body)->Ok_0,
{
    let frames = seq![(kind, body)];
    assert(frames.drop_last() =~= Seq::<(Seq<char>, Tree)>::empty());
    assert(events_of(frames.drop_last()) == Seq::<Happening>::empty());
    assert(Seq::<Happening>::empty() + frame_events(kind, body)->Ok_0 =~= frame_events(
        kind,
        body,
    )->Ok_0);
}

/// The events of the frames that open a block, open a message and say why the model stopped.
proof fn events_at_the_edges(body: Tree)
    ensures
        events_of(seq![("content_block_start"@, body)]) == block_start_events(
            body.get("content_block"@),
        ),
        events_of(seq![("message_start"@, body)]) == start_events(body.get("message"@)),
        events_of(seq![("message_delta"@, body)]) == stop_events(body.get("delta"@)) + metered(
            usage_in(body.get("usage"@)),
        ),
{
    kinds_differ();
    events_of_one_frame("content_block_start"@, body);
    events_of_one_frame("message_start"@, body);
    events_of_one_frame("message_delta"@, body);
}

/// Frames of other kinds say nothing, wherever they stand.
proof fn other_frames_say_nothing(frames: Seq<(Seq<char>, Tree)>)
    ensures
        events_of(frames) == events_of(
            frames.filter(|frame: (Seq<char>, Tree)| speaks(frame.0)),
        ),
    decreases frames.len(),
{
    reveal(Seq::filter);
    let kept = frames.filter(|frame: (Seq<char>, Tree)| speaks(frame.0));
    if frames.len() > 0 {
        other_frames_say_nothing(frames.drop_last());
        if speaks(frames.last().0) {
            assert(kept.drop_last() =~= frames.drop_last().filter(
                |frame: (Seq<char>, Tree)| speaks(frame.0),
            ));
        } else {
            assert(events_of(frames) =~= events_of(frames.drop_last()));
        }
    }
}

/// The event that one frame which adds to a block gives.
proof fn a_piece_is_one_event(delta: Tree)
    ensures
        piece_in(delta, "text_delta"@, "text"@) matches Some(text) ==> delta_events(
            delta.get("delta"@),
        ) == seq![Happening::TextDelta(text)],
        piece_in(delta, "thinking_delta"@, "thinking"@) matches Some(text) ==> delta_events(
            delta.get("delta"@),
        ) == seq![Happening::ThinkingDelta(text)],
        piece_in(delta, "signature_delta"@, "signature"@) matches Some(text) ==> delta_events(
            delta.get("delta"@),
        ) == seq![Happening::ThinkingSignature(text)],
        piece_in(delta, "input_json_delta"@, "partial_json"@) matches Some(text) ==> delta_events(
            delta.get("delta"@),
        ) == seq![Happening::ToolArgumentsDelta(text)],
{
    kinds_differ();
}

/// The frames that add to a block.
spec fn delta_frames(deltas: Seq<Tree>) -> Seq<(Seq<char>, Tree)> {
    deltas.map_values(|delta: Tree| ("content_block_delta"@, delta))
}

/// One more frame that adds to a block gives its events behind those before it.
proof fn delta_events_in_turn(taken: Taken, deltas: Seq<Tree>)
    requires
        deltas.len() > 0,
    ensures
        taken.after(events_of(delta_frames(deltas))) == taken.after(
            events_of(delta_frames(deltas.drop_last())),
        ).after(delta_events(deltas.last().get("delta"@))),
{
    kinds_differ();
    assert(delta_frames(deltas).drop_last() =~= delta_frames(deltas.drop_last()));
    after_in_parts(
        taken,
        events_of(delta_frames(deltas.drop_last())),
        delta_events(deltas.last().get("delta"@)),
    );
}

/// Pieces of text are taken in as the whole text.
proof fn text_is_taken_in(taken: Taken, deltas: Seq<Tree>)
    requires
        deltas.len() > 0,
        pieces_in(deltas, "text_delta"@, "text"@) is Some,
    ensures
        taken.after(events_of(delta_frames(deltas))) == taken.pushed(
            Happening::TextDelta(pieces_in(deltas, "text_delta"@, "text"@)->0),
        ),
    decreases deltas.len(),
{
    let less = deltas.drop_last();
    let more = piece_in(deltas.last(), "text_delta"@, "text"@)->0;
    delta_events_in_turn(taken, deltas);
    a_piece_is_one_event(deltas.last());
    if less.len() == 0 {
        assert(Seq::<char>::empty() + more =~= more);
        assert(delta_frames(less) =~= Seq::<(Seq<char>, Tree)>::empty());
        one_event_is_taken_in(taken, Happening::TextDelta(more));
    } else {
        let text = pieces_in(less, "text_delta"@, "text"@)->0;
        text_is_taken_in(taken, less);
        one_event_is_taken_in(
            taken.pushed(Happening::TextDelta(text)),
            Happening::TextDelta(more),
        );
        where_text_is_cut_changes_nothing(taken, text, more);
    }
}

/// Pieces of reasoning are taken in as the whole of it.
proof fn reasoning_is_taken_in(taken: Taken, deltas: Seq<Tree>)
    requires
        deltas.len() > 0,
        pieces_in(deltas, "thinking_delta"@, "thinking"@) is Some,
    ensures
        taken.after(events_of(delta_frames(deltas))) == taken.pushed(
            Happening::ThinkingDelta(pieces_in(deltas, "thinking_delta"@, "thinking"@)->0),
        ),
    decreases deltas.len(),
{
    let less = deltas.drop_last();
    let more = piece_in(deltas.last(), "thinking_delta"@, "thinking"@)->0;
    delta_events_in_turn(taken, deltas);
    a_piece_is_one_event(deltas.last());
    if less.len() == 0 {
        assert(Seq::<char>::empty() + more =~= more);
        assert(delta_frames(less) =~= Seq::<(Seq<char>, Tree)>::empty());
        one_event_is_taken_in(taken, Happening::ThinkingDelta(more));
    } else {
        let text = pieces_in(less, "thinking_delta"@, "thinking"@)->0;
        reasoning_is_taken_in(taken, less);
        one_event_is_taken_in(
            taken.pushed(Happening::ThinkingDelta(text)),
            Happening::ThinkingDelta(more),
        );
        where_reasoning_is_cut_changes_nothing(taken, text, more);
    }
}

/// Pieces of the arguments of a tool call are taken in as the whole of them.
proof fn arguments_are_taken_in(taken: Taken, deltas: Seq<Tree>)
    requires
        taken.pending_tool is Some,
        pieces_in(deltas, "input_json_delta"@, "partial_json"@) is Some,
    ensures
        taken.after(events_of(delta_frames(deltas))) == taken.pushed(
            Happening::ToolArgumentsDelta(
                pieces_in(deltas, "input_json_delta"@, "partial_json"@)->0,
            ),
        ),
    decreases deltas.len(),
{
    if deltas.len() == 0 {
        let (id, name, arguments) = taken.pending_tool->0;
        assert(arguments + Seq::<char>::empty() =~= arguments);
        assert(delta_frames(deltas) =~= Seq::<(Seq<char>, Tree)>::empty());
        one_event_is_taken_in(taken, Happening::ToolArgumentsDelta(Seq::empty()));
        assert(taken.pushed(Happening::ToolArgumentsDelta(Seq::empty())) =~= taken);
    } else {
        let less = deltas.drop_last();
        let more = piece_in(deltas.last(), "input_json_delta"@, "partial_json"@)->0;
        let text = pieces_in(less, "input_json_delta"@, "partial_json"@)->0;
        delta_events_in_turn(taken, deltas);
        a_piece_is_one_event(deltas.last());
        arguments_are_taken_in(taken, less);
        one_event_is_taken_in(
            taken.pushed(Happening::ToolArgumentsDelta(text)),
            Happening::ToolArgumentsDelta(more),
        );
        where_arguments_are_cut_changes_nothing(taken, text, more);
    }
}

/// What makes up a block is taken in as the block.
proof fn a_block_is_taken_in(taken: Taken, opening: Opening, item: Tree)
    requires
        opening.makes_up(item),
        taken.closed().blocks.len() > 0 ==> stay_apart(
            taken.closed().blocks.last(),
            block_in(item)->0,
        ),
    ensures
        taken.after(events_of(opening.frames())).closed() == (Taken {
            blocks: taken.closed().blocks.push(block_in(item)->0),
            ..taken.closed()
        }),
{
    kinds_differ();
    let start = seq![("content_block_start"@, opening.start)];
    let begun = block_start_events(opening.start.get("content_block"@));
    let rest = delta_frames(opening.deltas);
    assert(opening.frames() =~= start + rest);
    events_in_parts(start, rest);
    events_at_the_edges(opening.start);
    after_in_parts(taken, begun, events_of(rest));
    assert(taken.after(Seq::<Happening>::empty()) == taken);
    let blocks = taken.closed().blocks;
    match block_in(item)->0 {
        Block::Text(text) => {
            text_is_taken_in(taken, opening.deltas);
        },
        Block::Thinking { text, signature: None } => {
            reasoning_is_taken_in(taken, opening.deltas);
        },
        Block::Thinking { text, signature: Some(signature) } => {
            let less = opening.deltas.drop_last();
            reasoning_is_taken_in(taken, less);
            delta_events_in_turn(taken, opening.deltas);
            a_piece_is_one_event(opening.deltas.last());
            let thought = taken.pushed(Happening::ThinkingDelta(text));
            one_event_is_taken_in(thought, Happening::ThinkingSignature(signature));
            reasoning_keeps_its_signature(taken, text, signature, Seq::empty());
            let signed = thought.pushed(Happening::ThinkingSignature(signature));
            assert(thought.blocks =~= blocks.push(Block::Thinking { text, signature: None }));
            assert(thought.blocks.drop_last() =~= blocks);
            assert(signed.blocks =~= signed.blocks.drop_last().push(signed.blocks.last()));
        },
        Block::ToolUse { id, name, input } => {
            let open = taken.pushed(Happening::ToolUseStarted { id, name });
            one_event_is_taken_in(taken, Happening::ToolUseStarted { id, name });
            arguments_are_taken_in(open, opening.deltas);
            let arguments = pieces_in(
                opening.deltas,
                "input_json_delta"@,
                "partial_json"@,
            )->0;
            assert(Seq::<char>::empty() + arguments =~= arguments);
        },
        Block::Opaque { kind, raw } => {
            one_event_is_taken_in(taken, Happening::Opaque { kind, raw });
            assert(rest =~= Seq::<(Seq<char>, Tree)>::empty());
            let kept = taken.pushed(Happening::Opaque { kind, raw });
            assert(kept.after(Seq::<Happening>::empty()) == kept);
        },
        _ => {},
    }
}

/// What makes up the blocks of a message is taken in as the blocks.
proof fn blocks_are_taken_in(taken: Taken, blocks: Seq<Opening>, items: Seq<Tree>)
    requires
        taken.blocks == Seq::<Block>::empty(),
        taken.pending_tool is None,
        blocks.len() == items.len(),
        forall|i: int| 0 <= i < items.len() ==> (#[trigger] blocks[i]).makes_up(items[i]),
        streamable(blocks_in(items)),
    ensures
        taken.after(events_of(blocks_frames(blocks))).closed() == (Taken {
            blocks: blocks_in(items),
            ..taken
        }),
    decreases items.len(),
{
    if items.len() == 0 {
        assert(taken.after(Seq::<Happening>::empty()) == taken);
    } else {
        let fewer = blocks.drop_last();
        let less = items.drop_last();
        let given = blocks_in(items);
        let before = blocks_in(less);
        assert(blocks[blocks.len() - 1].makes_up(items[items.len() - 1]));
        assert(given == before.push(block_in(items.last())->0));
        assert forall|i: int| 0 <= i < less.len() implies (#[trigger] fewer[i]).makes_up(
            less[i],
        ) by {
            assert(blocks[i].makes_up(items[i]));
        }
        assert(streamable(before)) by {
            assert forall|i: int| 0 <= i < before.len() implies is_produced(
                #[trigger] before[i],
            ) by {
                assert(is_produced(given[i]));
            }
            assert forall|i: int| 0 < i < before.len() implies stay_apart(
                before[i - 1],
                #[trigger] before[i],
            ) by {
                assert(stay_apart(given[i - 1], given[i]));
            }
        }
        blocks_are_taken_in(taken, fewer, less);
        let so_far = taken.after(events_of(blocks_frames(fewer)));
        if before.len() > 0 {
            assert(stay_apart(given[before.len() - 1], given[before.len() as int]));
        }
        a_block_is_taken_in(so_far, blocks.last(), items.last());
        events_in_parts(blocks_frames(fewer), blocks.last().frames());
        after_in_parts(
            taken,
            events_of(blocks_frames(fewer)),
            events_of(blocks.last().frames()),
        );
    }
}

/// What opens a message is taken in as the model it names and the tokens it reports.
proof fn a_start_is_taken_in(asked_for: Seq<char>, model: Option<Seq<char>>, usage: Usage)
    ensures
        Taken::nothing(asked_for).after(named(model) + metered(usage)) == (Taken {
            served_by: model,
            usage: if metered(usage).len() > 0 {
                Some(usage)
            } else {
                None
            },
            ..Taken::nothing(asked_for)
        }),
{
    let t0 = Taken::nothing(asked_for);
    let t1 = Taken { served_by: model, ..t0 };
    after_in_parts(t0, named(model), metered(usage));
    match model {
        Some(model) => one_event_is_taken_in(t0, Happening::Started { model }),
        None => one_event_is_taken_in(t0, Happening::Metered(usage)),
    }
    assert(t0.after(named(model)) =~= t1);
    one_event_is_taken_in(t1, Happening::Metered(usage));
}

/// What ends a message is taken in as why the model stopped and the tokens it reports.
proof fn an_end_is_taken_in(taken: Taken, stopped: Happening, usage: Usage)
    requires
        stopped is Stopped,
        usage.covers() == UsageCoverage::Absent ==> usage == Usage::nothing(),
    ensures
        taken.after(seq![stopped] + metered(usage)).finished() == (Reply {
            usage: taken.finished().usage.revised(usage),
            ..taken.pushed(stopped).finished()
        }),
{
    let t1 = taken.pushed(stopped);
    after_in_parts(taken, seq![stopped], metered(usage));
    one_event_is_taken_in(taken, stopped);
    one_event_is_taken_in(t1, Happening::Metered(usage));
    assert(t1.finished().usage == taken.finished().usage);
}

/// A streamed reply is the whole one: the frames that make up a message put together the reply
/// that the message gives as one document, whatever frames of other kinds stand between them.
///
/// The blocks of the message have to be such as events can carry, which runs neighbours of one
/// kind together.
pub proof fn a_streamed_reply_is_the_whole_one(
    body: Tree,
    arrival: Arrival,
    frames: Seq<(Seq<char>, Tree)>,
    asked_for: Seq<char>,
)
    requires
        reply_of(body, asked_for) is Ok,
        streamable(reply_of(body, asked_for)->Ok_0.message.content),
        arrival.makes_up(body),
        frames.filter(|frame: (Seq<char>, Tree)| speaks(frame.0)) == arrival.frames(),
    ensures
        Taken::nothing(asked_for).after(events_of(frames)).finished() == reply_of(
            body,
            asked_for,
        )->Ok_0,
{
    kinds_differ();
    other_frames_say_nothing(frames);
    let reply = reply_of(body, asked_for)->Ok_0;
    let items = body.array_at("content"@)->0;
    let message = arrival.start.get("message"@)->0;
    let model = body.text_at("model"@);
    let first = usage_in(message.get("usage"@));
    let second = usage_in(arrival.end.get("usage"@));
    let start = seq![("message_start"@, arrival.start)];
    let middle = blocks_frames(arrival.blocks);
    let end = seq![("message_delta"@, arrival.end)];
    let begun = named(model) + metered(first);
    let stopped = seq![
        Happening::Stopped { reason: reply.stop_reason, details: reply.stop_details },
    ];
    events_in_parts(start + middle, end);
    events_in_parts(start, middle);
    events_at_the_edges(arrival.start);
    events_at_the_edges(arrival.end);
    assert(events_of(start) == begun);
    assert(events_of(end) == stopped + metered(second));
    let t0 = Taken::nothing(asked_for);
    a_start_is_taken_in(asked_for, model, first);
    let t1 = t0.after(begun);
    blocks_are_taken_in(t1, arrival.blocks, items);
    let t2 = t1.after(events_of(middle));
    assert(t2.closed().usage == t2.usage && t2.closed().served_by == t2.served_by
        && t2.closed().asked_for == t2.asked_for);
    an_end_is_taken_in(t2, stopped[0], second);
    assert(seq![stopped[0]] =~= stopped);
    after_in_parts(t0, begun, events_of(middle));
    after_in_parts(t0, begun + events_of(middle), stopped + metered(second));
    assert(t2.finished().usage == first);
    assert(t0.after(events_of(arrival.frames())).finished() =~= reply);
}

/// A turn that a provider sent back as blocks goes out again with its signatures and its
/// verbatim blocks unchanged: what is written for a block that was read is a document the block
/// reads from again.
pub proof fn a_block_survives_the_wire(tree: Tree)
    requires
        block_in(tree) is Some,
    ensures
        block_in(wire_block_of(block_in(tree)->0)) == block_in(tree),
{
    reveal_strlit("type");
    reveal_strlit("text");
    reveal_strlit("thinking");
    reveal_strlit("signature");
    reveal_strlit("tool_use");
    reveal_strlit("id");
    reveal_strlit("name");
    reveal_strlit("input");
    assert("type"@.len() == 4 && "text"@.len() == 4 && "thinking"@.len() == 8 && "signature"@.len()
        == 9 && "tool_use"@.len() == 8 && "id"@.len() == 2 && "name"@.len() == 4 && "input"@.len()
        == 5);
    assert("type"@[0] == 't' && "text"@[1] == 'e' && "type"@[1] == 'y');
    assert("name"@[0] == 'n' && "thinking"@[1] == 'h' && "tool_use"@[1] == 'o');
    let block = block_in(tree)->0;
    let out = wire_block_of(block);
    match block {
        Block::Text(text) => {
            assert(out.text_at("type"@) == Some("text"@));
            assert(out.text_at("text"@) == Some(text));
        },
        Block::Thinking { text, signature } => {
            assert(out.text_at("type"@) == Some("thinking"@));
            assert(out.text_at("thinking"@) == Some(text));
            assert(out.text_at("signature"@) == signature);
            assert("thinking"@ != "text"@);
        },
        Block::ToolUse { id, name, input } => {
            assert(out.text_at("type"@) == Some("tool_use"@));
            assert(out.text_at("id"@) == Some(id));
            assert(out.text_at("name"@) == Some(name));
            assert(out.get("input"@) == Some(input));
            assert("tool_use"@ != "text"@ && "tool_use"@ != "thinking"@);
        },
        _ => {},
    }
}

/// The members of a request are told apart.
pub proof fn members_differ()
    ensures
        "model"@ != "max_tokens"@,
        "model"@ != "messages"@,
        "model"@ != "system"@,
        "model"@ != "temperature"@,
        "model"@ != "top_p"@,
        "model"@ != "tools"@,
        "model"@ != "thinking"@,
        "model"@ != "stream"@,
        "model"@ != "anthropic_version"@,
        "max_tokens"@ != "messages"@,
        "max_tokens"@ != "system"@,
        "max_tokens"@ != "temperature"@,
        "max_tokens"@ != "top_p"@,
        "max_tokens"@ != "tools"@,
        "max_tokens"@ != "thinking"@,
        "max_tokens"@ != "stream"@,
        "max_tokens"@ != "anthropic_version"@,
        "messages"@ != "system"@,
        "messages"@ != "temperature"@,
        "messages"@ != "top_p"@,
        "messages"@ != "tools"@,
        "messages"@ != "thinking"@,
        "messages"@ != "stream"@,
        "messages"@ != "anthropic_version"@,
        "system"@ != "temperature"@,
        "system"@ != "top_p"@,
        "system"@ != "tools"@,
        "system"@ != "thinking"@,
        "system"@ != "stream"@,
        "system"@ != "anthropic_version"@,
        "temperature"@ != "top_p"@,
        "temperature"@ != "tools"@,
        "temperature"@ != "thinking"@,
        "temperature"@ != "stream"@,
        "temperature"@ != "anthropic_version"@,
        "top_p"@ != "tools"@,
        "top_p"@ != "thinking"@,
        "top_p"@ != "stream"@,
        "top_p"@ != "anthropic_version"@,
        "tools"@ != "thinking"@,
        "tools"@ != "stream"@,
        "tools"@ != "anthropic_version"@,
        "thinking"@ != "stream"@,
        "thinking"@ != "anthropic_version"@,
        "stream"@ != "anthropic_version"@,
{
    reveal_strlit("model");
    reveal_strlit("max_tokens");
    reveal_strlit("messages");
    reveal_strlit("system");
    reveal_strlit("temperature");
    reveal_strlit("top_p");
    reveal_strlit("tools");
    reveal_strlit("thinking");
    reveal_strlit("stream");
    reveal_strlit("anthropic_version");
    assert("model"@.len() != "max_tokens"@.len());
    assert("model"@.len() != "messages"@.len());
    assert("model"@.len() != "system"@.len());
    assert("model"@.len() != "temperature"@.len());
    assert("model"@[0] != "top_p"@[0]);
    assert("model"@[0] != "tools"@[0]);
    assert("model"@.len() != "thinking"@.len());
    assert("model"@.len() != "stream"@.len());
    assert("model"@.len() != "anthropic_version"@.len());
    assert("max_tokens"@.len() != "messages"@.len());
    assert("max_tokens"@.len() != "system"@.len());
    assert("max_tokens"@.len() != "temperature"@.len());
    assert("max_tokens"@.len() != "top_p"@.len());
    assert("max_tokens"@.len() != "tools"@.len());
    assert("max_tokens"@.len() != "thinking"@.len());
    assert("max_tokens"@.len() != "stream"@.len());
    assert("max_tokens"@.len() != "anthropic_version"@.len());
    assert("messages"@.len() != "system"@.len());
    assert("messages"@.len() != "temperature"@.len());
    assert("messages"@.len() != "top_p"@.len());
    assert("messages"@.len() != "tools"@.len());
    assert("messages"@[0] != "thinking"@[0]);
    assert("messages"@.len() != "stream"@.len());
    assert("messages"@.len() != "anthropic_version"@.len());
    assert("system"@.len() != "temperature"@.len());
    assert("system"@.len() != "top_p"@.len());
    assert("system"@.len() != "tools"@.len());
    assert("system"@.len() != "thinking"@.len());
    assert("system"@[1] != "stream"@[1]);
    assert("system"@.len() != "anthropic_version"@.len());
    assert("temperature"@.len() != "top_p"@.len());
    assert("temperature"@.len() != "tools"@.len());
    assert("temperature"@.len() != "thinking"@.len());
    assert("temperature"@.len() != "stream"@.len());
    assert("temperature"@.len() != "anthropic_version"@.len());
    assert("top_p"@[2] != "tools"@[2]);
    assert("top_p"@.len() != "thinking"@.len());
    assert("top_p"@.len() != "stream"@.len());
    assert("top_p"@.len() != "anthropic_version"@.len());
    assert("tools"@.len() != "thinking"@.len());
    assert("tools"@.len() != "stream"@.len());
    assert("tools"@.len() != "anthropic_version"@.len());
    assert("thinking"@.len() != "stream"@.len());
    assert("thinking"@.len() != "anthropic_version"@.len());
    assert("stream"@.len() != "anthropic_version"@.len());
}

/// The members of what a request holds are told apart.
proof fn parts_differ()
    ensures
        "type"@ != "text"@,
        "type"@ != "thinking"@,
        "type"@ != "signature"@,
        "type"@ != "id"@,
        "type"@ != "name"@,
        "type"@ != "input"@,
        "type"@ != "tool_use_id"@,
        "type"@ != "content"@,
        "type"@ != "is_error"@,
        "type"@ != "role"@,
        "type"@ != "description"@,
        "type"@ != "input_schema"@,
        "type"@ != "budget_tokens"@,
        "type"@ != "cache_control"@,
        "text"@ != "thinking"@,
        "text"@ != "signature"@,
        "text"@ != "id"@,
        "text"@ != "name"@,
        "text"@ != "input"@,
        "text"@ != "tool_use_id"@,
        "text"@ != "content"@,
        "text"@ != "is_error"@,
        "text"@ != "role"@,
        "text"@ != "description"@,
        "text"@ != "input_schema"@,
        "text"@ != "budget_tokens"@,
        "text"@ != "cache_control"@,
        "thinking"@ != "signature"@,
        "thinking"@ != "id"@,
        "thinking"@ != "name"@,
        "thinking"@ != "input"@,
        "thinking"@ != "tool_use_id"@,
        "thinking"@ != "content"@,
        "thinking"@ != "is_error"@,
        "thinking"@ != "role"@,
        "thinking"@ != "description"@,
        "thinking"@ != "input_schema"@,
        "thinking"@ != "budget_tokens"@,
        "thinking"@ != "cache_control"@,
        "signature"@ != "id"@,
        "signature"@ != "name"@,
        "signature"@ != "input"@,
        "signature"@ != "tool_use_id"@,
        "signature"@ != "content"@,
        "signature"@ != "is_error"@,
        "signature"@ != "role"@,
        "signature"@ != "description"@,
        "signature"@ != "input_schema"@,
        "signature"@ != "budget_tokens"@,
        "signature"@ != "cache_control"@,
        "id"@ != "name"@,
        "id"@ != "input"@,
        "id"@ != "tool_use_id"@,
        "id"@ != "content"@,
        "id"@ != "is_error"@,
        "id"@ != "role"@,
        "id"@ != "description"@,
        "id"@ != "input_schema"@,
        "id"@ != "budget_tokens"@,
        "id"@ != "cache_control"@,
        "name"@ != "input"@,
        "name"@ != "tool_use_id"@,
        "name"@ != "content"@,
        "name"@ != "is_error"@,
        "name"@ != "role"@,
        "name"@ != "description"@,
        "name"@ != "input_schema"@,
        "name"@ != "budget_tokens"@,
        "name"@ != "cache_control"@,
        "input"@ != "tool_use_id"@,
        "input"@ != "content"@,
        "input"@ != "is_error"@,
        "input"@ != "role"@,
        "input"@ != "description"@,
        "input"@ != "input_schema"@,
        "input"@ != "budget_tokens"@,
        "input"@ != "cache_control"@,
        "tool_use_id"@ != "content"@,
        "tool_use_id"@ != "is_error"@,
        "tool_use_id"@ != "role"@,
        "tool_use_id"@ != "description"@,
        "tool_use_id"@ != "input_schema"@,
        "tool_use_id"@ != "budget_tokens"@,
        "tool_use_id"@ != "cache_control"@,
        "content"@ != "is_error"@,
        "content"@ != "role"@,
        "content"@ != "description"@,
        "content"@ != "input_schema"@,
        "content"@ != "budget_tokens"@,
        "content"@ != "cache_control"@,
        "is_error"@ != "role"@,
        "is_error"@ != "description"@,
        "is_error"@ != "input_schema"@,
        "is_error"@ != "budget_tokens"@,
        "is_error"@ != "cache_control"@,
        "role"@ != "description"@,
        "role"@ != "input_schema"@,
        "role"@ != "budget_tokens"@,
        "role"@ != "cache_control"@,
        "description"@ != "input_schema"@,
        "description"@ != "budget_tokens"@,
        "description"@ != "cache_control"@,
        "input_schema"@ != "budget_tokens"@,
        "input_schema"@ != "cache_control"@,
        "budget_tokens"@ != "cache_control"@,
{
    reveal_strlit("type");
    reveal_strlit("text");
    reveal_strlit("thinking");
    reveal_strlit("signature");
    reveal_strlit("id");
    reveal_strlit("name");
    reveal_strlit("input");
    reveal_strlit("tool_use_id");
    reveal_strlit("content");
    reveal_strlit("is_error");
    reveal_strlit("role");
    reveal_strlit("description");
    reveal_strlit("input_schema");
    reveal_strlit("budget_tokens");
    reveal_strlit("cache_control");
    assert("type"@[1] != "text"@[1]);
    assert("type"@.len() != "thinking"@.len());
    assert("type"@.len() != "signature"@.len());
    assert("type"@.len() != "id"@.len());
    assert("type"@[0] != "name"@[0]);
    assert("type"@.len() != "input"@.len());
    assert("type"@.len() != "tool_use_id"@.len());
    assert("type"@.len() != "content"@.len());
    assert("type"@.len() != "is_error"@.len());
    assert("type"@[0] != "role"@[0]);
    assert("type"@.len() != "description"@.len());
    assert("type"@.len() != "input_schema"@.len());
    assert("type"@.len() != "budget_tokens"@.len());
    assert("type"@.len() != "cache_control"@.len());
    assert("text"@.len() != "thinking"@.len());
    assert("text"@.len() != "signature"@.len());
    assert("text"@.len() != "id"@.len());
    assert("text"@[0] != "name"@[0]);
    assert("text"@.len() != "input"@.len());
    assert("text"@.len() != "tool_use_id"@.len());
    assert("text"@.len() != "content"@.len());
    assert("text"@.len() != "is_error"@.len());
    assert("text"@[0] != "role"@[0]);
    assert("text"@.len() != "description"@.len());
    assert("text"@.len() != "input_schema"@.len());
    assert("text"@.len() != "budget_tokens"@.len());
    assert("text"@.len() != "cache_control"@.len());
    assert("thinking"@.len() != "signature"@.len());
    assert("thinking"@.len() != "id"@.len());
    assert("thinking"@.len() != "name"@.len());
    assert("thinking"@.len() != "input"@.len());
    assert("thinking"@.len() != "tool_use_id"@.len());
    assert("thinking"@.len() != "content"@.len());
    assert("thinking"@[0] != "is_error"@[0]);
    assert("thinking"@.len() != "role"@.len());
    assert("thinking"@.len() != "description"@.len());
    assert("thinking"@.len() != "input_schema"@.len());
    assert("thinking"@.len() != "budget_tokens"@.len());
    assert("thinking"@.len() != "cache_control"@.len());
    assert("signature"@.len() != "id"@.len());
    assert("signature"@.len() != "name"@.len());
    assert("signature"@.len() != "input"@.len());
    assert("signature"@.len() != "tool_use_id"@.len());
    assert("signature"@.len() != "content"@.len());
    assert("signature"@.len() != "is_error"@.len());
    assert("signature"@.len() != "role"@.len());
    assert("signature"@.len() != "description"@.len());
    assert("signature"@.len() != "input_schema"@.len());
    assert("signature"@.len() != "budget_tokens"@.len());
    assert("signature"@.len() != "cache_control"@.len());
    assert("id"@.len() != "name"@.len());
    assert("id"@.len() != "input"@.len());
    assert("id"@.len() != "tool_use_id"@.len());
    assert("id"@.len() != "content"@.len());
    assert("id"@.len() != "is_error"@.len());
    assert("id"@.len() != "role"@.len());
    assert("id"@.len() != "description"@.len());
    assert("id"@.len() != "input_schema"@.len());
    assert("id"@.len() != "budget_tokens"@.len());
    assert("id"@.len() != "cache_control"@.len());
    assert("name"@.len() != "input"@.len());
    assert("name"@.len() != "tool_use_id"@.len());
    assert("name"@.len() != "content"@.len());
    assert("name"@.len() != "is_error"@.len());
    assert("name"@[0] != "role"@[0]);
    assert("name"@.len() != "description"@.len());
    assert("name"@.len() != "input_schema"@.len());
    assert("name"@.len() != "budget_tokens"@.len());
    assert("name"@.len() != "cache_control"@.len());
    assert("input"@.len() != "tool_use_id"@.len());
    assert("input"@.len() != "content"@.len());
    assert("input"@.len() != "is_error"@.len());
    assert("input"@.len() != "role"@.len());
    assert("input"@.len() != "description"@.len());
    assert("input"@.len() != "input_schema"@.len());
    assert("input"@.len() != "budget_tokens"@.len());
    assert("input"@.len() != "cache_control"@.len());
    assert("tool_use_id"@.len() != "content"@.len());
    assert("tool_use_id"@.len() != "is_error"@.len());
    assert("tool_use_id"@.len() != "role"@.len());
    assert("tool_use_id"@[0] != "description"@[0]);
    assert("tool_use_id"@.len() != "input_schema"@.len());
    assert("tool_use_id"@.len() != "budget_tokens"@.len());
    assert("tool_use_id"@.len() != "cache_control"@.len());
    assert("content"@.len() != "is_error"@.len());
    assert("content"@.len() != "role"@.len());
    assert("content"@.len() != "description"@.len());
    assert("content"@.len() != "input_schema"@.len());
    assert("content"@.len() != "budget_tokens"@.len());
    assert("content"@.len() != "cache_control"@.len());
    assert("is_error"@.len() != "role"@.len());
    assert("is_error"@.len() != "description"@.len());
    assert("is_error"@.len() != "input_schema"@.len());
    assert("is_error"@.len() != "budget_tokens"@.len());
    assert("is_error"@.len() != "cache_control"@.len());
    assert("role"@.len() != "description"@.len());
    assert("role"@.len() != "input_schema"@.len());
    assert("role"@.len() != "budget_tokens"@.len());
    assert("role"@.len() != "cache_control"@.len());
    assert("description"@.len() != "input_schema"@.len());
    assert("description"@.len() != "budget_tokens"@.len());
    assert("description"@.len() != "cache_control"@.len());
    assert("input_schema"@.len() != "budget_tokens"@.len());
    assert("input_schema"@.len() != "cache_control"@.len());
    assert("budget_tokens"@[0] != "cache_control"@[0]);
}

/// The words for why a model stopped are told apart.
pub proof fn words_differ()
    ensures
        "end_turn"@ != "tool_use"@,
        "end_turn"@ != "stop_sequence"@,
        "end_turn"@ != "max_tokens"@,
        "end_turn"@ != "refusal"@,
        "end_turn"@ != "pause_turn"@,
        "end_turn"@ != "model_context_window_exceeded"@,
        "tool_use"@ != "stop_sequence"@,
        "tool_use"@ != "max_tokens"@,
        "tool_use"@ != "refusal"@,
        "tool_use"@ != "pause_turn"@,
        "tool_use"@ != "model_context_window_exceeded"@,
        "stop_sequence"@ != "max_tokens"@,
        "stop_sequence"@ != "refusal"@,
        "stop_sequence"@ != "pause_turn"@,
        "stop_sequence"@ != "model_context_window_exceeded"@,
        "max_tokens"@ != "refusal"@,
        "max_tokens"@ != "pause_turn"@,
        "max_tokens"@ != "model_context_window_exceeded"@,
        "refusal"@ != "pause_turn"@,
        "refusal"@ != "model_context_window_exceeded"@,
        "pause_turn"@ != "model_context_window_exceeded"@,
{
    reveal_strlit("end_turn");
    reveal_strlit("tool_use");
    reveal_strlit("stop_sequence");
    reveal_strlit("max_tokens");
    reveal_strlit("refusal");
    reveal_strlit("pause_turn");
    reveal_strlit("model_context_window_exceeded");
    assert("end_turn"@[0] != "tool_use"@[0]);
    assert("end_turn"@.len() != "stop_sequence"@.len());
    assert("end_turn"@.len() != "max_tokens"@.len());
    assert("end_turn"@.len() != "refusal"@.len());
    assert("end_turn"@.len() != "pause_turn"@.len());
    assert("end_turn"@.len() != "model_context_window_exceeded"@.len());
    assert("tool_use"@.len() != "stop_sequence"@.len());
    assert("tool_use"@.len() != "max_tokens"@.len());
    assert("tool_use"@.len() != "refusal"@.len());
    assert("tool_use"@.len() != "pause_turn"@.len());
    assert("tool_use"@.len() != "model_context_window_exceeded"@.len());
    assert("stop_sequence"@.len() != "max_tokens"@.len());
    assert("stop_sequence"@.len() != "refusal"@.len());
    assert("stop_sequence"@.len() != "pause_turn"@.len());
    assert("stop_sequence"@.len() != "model_context_window_exceeded"@.len());
    assert("max_tokens"@.len() != "refusal"@.len());
    assert("max_tokens"@[0] != "pause_turn"@[0]);
    assert("max_tokens"@.len() != "model_context_window_exceeded"@.len());
    assert("refusal"@.len() != "pause_turn"@.len());
    assert("refusal"@.len() != "model_context_window_exceeded"@.len());
    assert("pause_turn"@.len() != "model_context_window_exceeded"@.len());
}

/// A request goes on the wire setting by setting: what was asked for stands under its own name as
/// it was written, and a setting that was not made is left out.
pub proof fn a_request_is_written_setting_by_setting(request: Asked)
    ensures
        request_tree(request).text_at("model"@) == Some(request.model),
        request_tree(request).get("max_tokens"@) == Some(
            Tree::Integer(
                match request.generation.max_tokens {
                    Some(max) => max as int,
                    None => 4096,
                },
            ),
        ),
        request_tree(request).get("system"@) == (match request.system {
            Some(system) => Some(Tree::Text(system)),
            None => None,
        }),
        request_tree(request).get("temperature"@) == (match request.generation.temperature {
            Some(temperature) => Some(Tree::Float(temperature)),
            None => None,
        }),
        request_tree(request).get("top_p"@) == (match request.generation.top_p {
            Some(top_p) => Some(Tree::Float(top_p)),
            None => None,
        }),
        request.thinking is On <==> request_tree(request).get("thinking"@) is Some,
        request_tree(request).get("stream"@) is None,
{
    members_differ();
}

/// Reasoning that is asked for is switched on with a budget of its own, which the limit on the
/// reply can lower, and more effort never gets less.
pub proof fn more_effort_gets_no_smaller_budget(request: Asked, effort: Effort, limit: u32)
    requires
        request.thinking == Thinking::On(effort),
        request.generation.max_tokens == Some(limit),
    ensures
        ({
            let switched = request_tree(request).get("thinking"@);
            &&& switched is Some
            &&& switched->0.text_at("type"@) == Some("enabled"@)
            &&& switched->0.get("budget_tokens"@) is Some
            &&& switched->0.get("budget_tokens"@)->0 is Integer
            &&& limit > 0 ==> 0 <= switched->0.get("budget_tokens"@)->0->Integer_0 < limit
            &&& limit > 98_304 ==> switched->0.get("budget_tokens"@)->0->Integer_0 == (
            match effort {
                Effort::Low => 2_048int,
                Effort::Medium => 8_192,
                Effort::High => 24_576,
                Effort::XHigh => 49_152,
                Effort::Max => 98_304,
            })
        }),
        thinking_budget(Effort::Low, limit) <= thinking_budget(Effort::Medium, limit)
            <= thinking_budget(Effort::High, limit) <= thinking_budget(Effort::XHigh, limit)
            <= thinking_budget(Effort::Max, limit),
{
    members_differ();
    parts_differ();
}

/// A streamed request asks for a stream and is the whole request in everything else, and one that
/// cannot be written is refused either way.
pub proof fn a_streamed_request_asks_for_a_stream(
    protocol: Messages,
    request: Asked,
    name: Seq<char>,
)
    ensures
        protocol.body_of(request) is Ok <==> protocol.stream_body_of(request) is Ok,
        protocol.body_of(request) is Err ==> protocol.stream_body_of(request)->Err_0
            == protocol.body_of(request)->Err_0,
        protocol.body_of(request) is Ok <==> !request.needs().images,
        protocol.body_of(request) is Ok ==> ({
            let whole = protocol.body_of(request)->Ok_0;
            let streamed = protocol.stream_body_of(request)->Ok_0;
            &&& streamed is Some
            &&& streamed->0.get("stream"@) == Some(Tree::Bool(true))
            &&& name != "stream"@ ==> streamed->0.get(name) == whole.get(name)
            &&& streamed->0.text_at("model"@) == Some(request.model)
        }),
{
    members_differ();
}

/// Each tool stands on the wire in its place, with its own name, description and parameters.
pub proof fn each_tool_is_written_as_it_is(request: Asked, i: int)
    requires
        0 <= i < request.tools.len(),
    ensures
        ({
            let written = request_tree(request).array_at("tools"@);
            &&& written is Some
            &&& written->0.len() == request.tools.len()
            &&& written->0[i].text_at("name"@) == Some(request.tools[i].name)
            &&& written->0[i].text_at("description"@) == Some(request.tools[i].description)
            &&& written->0[i].get("input_schema"@) == Some(request.tools[i].parameters)
        }),
{
    members_differ();
    parts_differ();
}

/// A request without tools offers none.
pub proof fn no_tools_are_written_where_there_are_none(request: Asked)
    requires
        request.tools.len() == 0,
    ensures
        request_tree(request).get("tools"@) is None,
{
    members_differ();
}

/// Each turn stands on the wire in its place, by whoever said it, with each of its blocks in its
/// place.
pub proof fn each_turn_is_written_in_its_place(request: Asked, i: int, k: int)
    requires
        0 <= i < request.messages.len(),
        0 <= k < request.messages[i].content.len(),
    ensures
        ({
            let written = request_tree(request).array_at("messages"@);
            let blocks = written->0[i].array_at("content"@);
            &&& written is Some
            &&& written->0.len() == request.messages.len()
            &&& written->0[i].text_at("role"@) == Some(
                if request.messages[i].role is User {
                    "user"@
                } else {
                    "assistant"@
                },
            )
            &&& blocks is Some
            &&& blocks->0.len() == request.messages[i].content.len()
            &&& blocks->0[k] == wire_block_of(request.messages[i].content[k])
                || blocks->0[k] == wire_block_of(request.messages[i].content[k]).with(
                "cache_control"@,
                ephemeral(),
            )
        }),
{
    members_differ();
    parts_differ();
}

/// A block is marked for the cache exactly where it is the last of a turn that the request names
/// for it.
pub proof fn only_the_end_of_a_named_turn_is_marked(request: Asked, i: int, k: int)
    requires
        0 <= i < request.messages.len() <= usize::MAX,
        0 <= k < request.messages[i].content.len(),
        !(request.messages[i].content[k] is Opaque),
    ensures
        ({
            let block = request_tree(request).array_at("messages"@)->0[i].array_at(
                "content"@,
            )->0[k];
            let named = request.cache_breakpoints.contains(i as usize) && k
                == request.messages[i].content.len() - 1;
            &&& named <==> block.get("cache_control"@) is Some
            &&& named ==> block.get("cache_control"@)->0.text_at("type"@) == Some("ephemeral"@)
        }),
{
    members_differ();
    parts_differ();
}

/// A block goes on the wire by its kind, with all that it holds under the names of its kind.
pub proof fn a_block_is_written_by_its_kind(block: Block)
    ensures
        ({
            let written = wire_block_of(block);
            match block {
                Block::Text(text) => written.text_at("type"@) == Some("text"@) && written.text_at(
                    "text"@,
                ) == Some(text),
                Block::Thinking { text, signature } => written.text_at("type"@) == Some(
                    "thinking"@,
                ) && written.text_at("thinking"@) == Some(text) && written.text_at("signature"@)
                    == signature,
                Block::ToolUse { id, name, input } => written.text_at("type"@) == Some("tool_use"@)
                    && written.text_at("id"@) == Some(id) && written.text_at("name"@) == Some(name)
                    && written.get("input"@) == Some(input),
                Block::ToolResult { tool_use_id, content, is_error } => written.text_at("type"@)
                    == Some("tool_result"@) && written.text_at("tool_use_id"@) == Some(tool_use_id)
                    && written.text_at("content"@) == Some(content) && written.get("is_error"@)
                    == Some(Tree::Bool(is_error)),
                Block::Opaque { raw, .. } => written == raw,
                Block::Image { .. } => true,
            }
        }),
{
    parts_differ();
}

/// A block that was written is read back as it was.
pub proof fn a_written_block_reads_back(block: Block)
    requires
        block is Text || block is Thinking || block is ToolUse,
    ensures
        block_in(wire_block_of(block)) == Some(block),
{
    parts_differ();
    kinds_differ();
    reveal_strlit("text");
    reveal_strlit("thinking");
    reveal_strlit("tool_use");
    assert("text"@.len() != "thinking"@.len());
}

/// What a word for why the model stopped means, in a whole reply and in a streamed one.
pub proof fn a_stop_reason_means_what_its_word_says(
    body: Tree,
    asked_for: Seq<char>,
    end: Tree,
    word: Seq<char>,
    reason: StopReason,
)
    requires
        body.text_at("stop_reason"@) == Some(word),
        end.get("delta"@) is Some,
        end.get("delta"@)->0.text_at("stop_reason"@) == Some(word),
        (word == "end_turn"@ && reason is EndTurn) || (word == "tool_use"@ && reason is ToolUse) || (word == "stop_sequence"@ && reason is StopSequence) || (word == "max_tokens"@ && reason is MaxTokens) || (word == "refusal"@ && reason is Refusal) || (word == "pause_turn"@ && reason is PauseTurn) || (word == "model_context_window_exceeded"@ && reason is ContextWindowExceeded) || (reason is Other && word != "end_turn"@ && word != "tool_use"@ && word != "stop_sequence"@ && word != "max_tokens"@ && word != "refusal"@ && word != "pause_turn"@ && word != "model_context_window_exceeded"@),
    ensures
        reply_of(body, asked_for) is Ok ==> reply_of(body, asked_for)->Ok_0.stop_reason == reason
            && reply_of(body, asked_for)->Ok_0.stop_details == body.text_at("stop_sequence"@),
        frame_events("message_delta"@, end) is Ok,
        frame_events("message_delta"@, end)->Ok_0.len() > 0,
        frame_events("message_delta"@, end)->Ok_0[0] == (Happening::Stopped {
            reason,
            details: end.get("delta"@)->0.text_at("stop_sequence"@),
        }),
{
    words_differ();
    kinds_differ();
}

/// A reply is complete only where the model said that it had finished its turn, wants a tool or
/// met a sequence to stop at, and one that was cut off is not.
pub proof fn only_a_finished_reply_is_complete(body: Tree, asked_for: Seq<char>)
    requires
        reply_of(body, asked_for) is Ok,
    ensures
        ({
            let reason = reply_of(body, asked_for)->Ok_0.stop_reason;
            let word = body.text_at("stop_reason"@);
            reason is EndTurn || reason is ToolUse || reason is StopSequence <==> word == Some(
                "end_turn"@,
            ) || word == Some("tool_use"@) || word == Some("stop_sequence"@)
        }),
{
    words_differ();
}

/// The tokens of each kind are those reported under its name.
pub proof fn the_tokens_are_those_reported(body: Tree, usage: Tree)
    requires
        body.get("usage"@) == Some(usage),
    ensures
        usage_in(body.get("usage"@)).input_tokens == usage.u64_at("input_tokens"@),
        usage_in(body.get("usage"@)).cache_read_tokens == usage.u64_at("cache_read_input_tokens"@),
        usage_in(body.get("usage"@)).cache_write_tokens == usage.u64_at(
            "cache_creation_input_tokens"@,
        ),
        usage_in(body.get("usage"@)).output_tokens == usage.u64_at("output_tokens"@),
        !usage_in(body.get("usage"@)).estimated,
{
}

/// A reply holds the blocks of its document in their order, each read by its kind, with the model
/// that served it and the tokens it reports.
pub proof fn a_reply_is_read_block_by_block(items: Seq<Tree>, item: Tree)
    ensures
        blocks_in(Seq::<Tree>::empty()).len() == 0,
        block_in(item) is None ==> blocks_in(items.push(item)) == blocks_in(items),
        block_in(item) is Some ==> blocks_in(items.push(item)) == blocks_in(items).push(
            block_in(item)->0,
        ),
        item.text_at("type"@) is None ==> block_in(item) is None,
        (item.text_at("type"@) == Some("text"@) && item.text_at("text"@) is Some) ==> block_in(item)
            == Some(Block::Text(item.text_at("text"@)->0)),
        (item.text_at("type"@) == Some("tool_use"@) && item.text_at("id"@) is Some && item.text_at(
            "name"@,
        ) is Some && item.get("input"@) is Some) ==> block_in(item) == Some(
            Block::ToolUse {
                id: item.text_at("id"@)->0,
                name: item.text_at("name"@)->0,
                input: item.get("input"@)->0,
            },
        ),
        (item.text_at("type"@) == Some("thinking"@) && item.text_at("thinking"@) is Some)
            ==> block_in(item) == Some(
            Block::Thinking {
                text: item.text_at("thinking"@)->0,
                signature: item.text_at("signature"@),
            },
        ),
        (item.text_at("type"@) is Some && item.text_at("type"@)->0 != "text"@ && item.text_at(
            "type"@,
        )->0 != "thinking"@ && item.text_at("type"@)->0 != "tool_use"@) ==> block_in(item) == Some(
            Block::Opaque { kind: item.text_at("type"@)->0, raw: item },
        ),
{
    assert(items.push(item).drop_last() == items);
    kinds_differ();
    reveal_strlit("text");
    reveal_strlit("thinking");
    assert("text"@.len() != "thinking"@.len());
}

/// A reply that can be read is the model's, with what its document gives.
pub proof fn a_reply_is_what_its_document_gives(body: Tree, asked_for: Seq<char>, items: Seq<Tree>)
    requires
        body.array_at("content"@) == Some(items),
    ensures
        reply_of(body, asked_for) is Ok <==> blocks_in(items).len() > 0,
        reply_of(body, asked_for) is Ok ==> ({
            let reply = reply_of(body, asked_for)->Ok_0;
            &&& reply.message.role is Assistant
            &&& reply.message.content == blocks_in(items)
            &&& body.text_at("model"@) is Some ==> reply.model == body.text_at("model"@)->0
            &&& body.text_at("model"@) is None ==> reply.model == asked_for
            &&& reply.usage == usage_in(body.get("usage"@))
        }),
{
}

/// A frame says what it adds, by the kind of what it adds.
pub proof fn a_frame_says_what_it_adds(frame: Tree, delta: Tree, text: Seq<char>)
    requires
        frame.get("delta"@) == Some(delta),
    ensures
        (delta.text_at("type"@) == Some("text_delta"@) && delta.text_at("text"@) == Some(text))
            ==> frame_events("content_block_delta"@, frame) == Ok::<Seq<Happening>, Failure>(
            seq![Happening::TextDelta(text)],
        ),
        (delta.text_at("type"@) == Some("thinking_delta"@) && delta.text_at("thinking"@) == Some(
            text,
        )) ==> frame_events("content_block_delta"@, frame) == Ok::<Seq<Happening>, Failure>(
            seq![Happening::ThinkingDelta(text)],
        ),
        (delta.text_at("type"@) == Some("signature_delta"@) && delta.text_at("signature"@) == Some(
            text,
        )) ==> frame_events("content_block_delta"@, frame) == Ok::<Seq<Happening>, Failure>(
            seq![Happening::ThinkingSignature(text)],
        ),
        (delta.text_at("type"@) == Some("input_json_delta"@) && delta.text_at("partial_json"@)
            == Some(text)) ==> frame_events("content_block_delta"@, frame) == Ok::<
            Seq<Happening>,
            Failure,
        >(seq![Happening::ToolArgumentsDelta(text)]),
{
    kinds_differ();
}

/// A frame that opens a message says which model answers, one that opens a block says which tool
/// is called or keeps what it cannot read, and one that reports a failure ends the stream.
pub proof fn a_frame_says_what_it_opens(frame: Tree, kind: Seq<char>)
    ensures
        (frame.get("message"@) is Some && frame.get("message"@)->0.text_at("model"@) is Some) ==> (
        frame_events("message_start"@, frame) is Ok && frame_events(
            "message_start"@,
            frame,
        )->Ok_0.len() > 0 && frame_events("message_start"@, frame)->Ok_0[0] == (Happening::Started {
            model: frame.get("message"@)->0.text_at("model"@)->0,
        })),
        frame.get("content_block"@) is Some ==> ({
            let block = frame.get("content_block"@)->0;
            let said = frame_events("content_block_start"@, frame);
            &&& said is Ok
            &&& (block.text_at("type"@) == Some("tool_use"@) && block.text_at("id"@) is Some
                && block.text_at("name"@) is Some) ==> said->Ok_0 == seq![
                Happening::ToolUseStarted {
                    id: block.text_at("id"@)->0,
                    name: block.text_at("name"@)->0,
                },
            ]
            &&& (block.text_at("type"@) == Some("text"@) || block.text_at("type"@) == Some(
                "thinking"@,
            )) ==> said->Ok_0.len() == 0
            &&& (block.text_at("type"@) == Some(kind) && kind != "text"@ && kind != "thinking"@
                && kind != "tool_use"@) ==> said->Ok_0 == seq![
                Happening::Opaque { kind, raw: block },
            ]
        }),
        frame_events("error"@, frame) is Err,
        frame_events("error"@, frame)->Err_0 is Transient,
{
    kinds_differ();
    reveal_strlit("error");
    reveal_strlit("message_start");
    reveal_strlit("message_delta");
    reveal_strlit("content_block_start");
    reveal_strlit("content_block_delta");
    assert("error"@.len() == 5);
    assert("message_start"@.len() != 5 && "message_delta"@.len() != 5 && "content_block_start"@.len()
        != 5 && "content_block_delta"@.len() != 5);
}

/// Where requests go, and that they carry the key and the version they are written in.
pub proof fn requests_go_where_the_protocol_says(
    protocol: Messages,
    base_url: Seq<char>,
    model: Seq<char>,
    key: Credential,
)
    ensures
        protocol.chat_address(base_url, model) == base_url + "/v1/messages"@,
        protocol.stream_address(base_url, model) == protocol.chat_address(base_url, model),
        protocol.catalogue_address(base_url) == Some(base_url + "/v1/models"@),
        protocol.header_list(key) is Ok <==> valid_utf8(key.bytes),
        valid_utf8(key.bytes) ==> protocol.header_list(key)->Ok_0.contains(
            ("x-api-key"@, decode_utf8(key.bytes)),
        ) && protocol.header_list(key)->Ok_0.contains(("anthropic-version"@, "2023-06-01"@))
            && protocol.header_list(key)->Ok_0.contains(("content-type"@, "application/json"@)),
{
    if valid_utf8(key.bytes) {
        let headers = protocol.header_list(key)->Ok_0;
        assert(headers[0] == ("x-api-key"@, decode_utf8(key.bytes)));
        assert(headers[1] == ("anthropic-version"@, "2023-06-01"@));
        assert(headers[2] == ("content-type"@, "application/json"@));
    }
}

/// A document is a reply exactly where it has content that can be read; any other cannot be read,
/// and is never an empty answer.
pub proof fn a_reply_without_content_cannot_be_read(body: Tree, asked_for: Seq<char>)
    ensures
        reply_of(body, asked_for) is Err ==> reply_of(body, asked_for)->Err_0 is Unreadable,
        reply_of(body, asked_for) is Ok ==> reply_of(body, asked_for)->Ok_0.message.content.len()
            > 0,
        body.array_at("content"@) is None ==> reply_of(body, asked_for) is Err,
{
}

/// A frame that is no document cannot be read, and one that is says what its kind says.
pub proof fn a_frame_is_a_document(protocol: Messages, frame: Frame)
    ensures
        frame.json() is Some ==> protocol.events_in(frame) == frame_events(
            frame.event,
            frame.json()->0,
        ),
        frame.json() is None ==> protocol.events_in(frame) is Err && protocol.events_in(
            frame,
        )->Err_0 is Unreadable,
{
}

/// A frame that ends a message says why it stopped and what it used, each where it is given, and
/// a frame of a kind that is not known says nothing.
pub proof fn a_frame_says_what_it_ends(frame: Tree, kind: Seq<char>)
    ensures
        frame_events("message_delta"@, frame) is Ok,
        (frame.get("delta"@) is None || frame.get("delta"@)->0.get("stop_reason"@) is None
            || frame.get("delta"@)->0.get("stop_reason"@)->0 is Null) ==> frame_events(
            "message_delta"@,
            frame,
        )->Ok_0 == metered(usage_in(frame.get("usage"@))),
        metered(usage_in(frame.get("usage"@))).len() > 0 ==> frame_events(
            "message_delta"@,
            frame,
        )->Ok_0.last() == Happening::Metered(usage_in(frame.get("usage"@))),
        (kind != "message_start"@ && kind != "content_block_start"@ && kind
            != "content_block_delta"@ && kind != "message_delta"@ && kind != "error"@)
            ==> frame_events(kind, frame) == Ok::<Seq<Happening>, Failure>(Seq::empty()),
{
    kinds_differ();
    let told = stop_events(frame.get("delta"@)) + metered(usage_in(frame.get("usage"@)));
    if stop_events(frame.get("delta"@)).len() == 0 {
        assert(told == metered(usage_in(frame.get("usage"@))));
    }
}

/// A stream that the provider stopped says with what words it did.
pub proof fn a_stopped_stream_says_why(frame: Tree, error: Tree, said: Seq<char>)
    requires
        frame.get("error"@) == Some(error),
        error.text_at("message"@) == Some(said),
    ensures
        frame_events("error"@, frame) == Err::<Seq<Happening>, Failure>(
            Failure::Transient("the stream stopped: "@ + said),
        ),
{
    a_frame_says_what_it_opens(frame, said);
}

/// What is said of a request that cannot be written and a reply that cannot be read.
pub proof fn what_cannot_be_carried_is_said_so(request: Asked, body: Tree, asked_for: Seq<char>)
    ensures
        request.needs().images ==> request_body(request) == Err::<Tree, Failure>(
            Failure::Unsupported("images cannot be sent through this protocol"@),
        ),
        !request.needs().images ==> request_body(request) == Ok::<Tree, Failure>(
            request_tree(request),
        ),
        reply_of(body, asked_for) is Err ==> reply_of(body, asked_for)->Err_0
            == Failure::Unreadable("the reply carried no content this crate could read"@),
{
}

} // verus!
