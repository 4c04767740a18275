//! Gemini's `generateContent`.
//!
//! # Usage
//!
//! The prompt count includes the cached part, which is subtracted, and reasoning tokens are
//! reported apart from the visible ones. They are billed whether or not they are shown, so they
//! are added to the number that gets priced.

use crate::chat::message::{Block, ContentBlock, ImageSource, Message, Role, Source, StopReason, Turn};
use crate::chat::request::{Asked, ChatRequest, Effort, Thinking, Tool, ToolSchema};
use crate::chat::response::{ChatResponse, Reply};
use crate::chat::stream::{
    after_in_parts, arrived_input, is_unsigned, one_event_is_taken_in, with_text, with_thinking,
    Event, Happening, Taken,
};
use crate::cost::usage::{added, Usage};
use crate::error::{outcome, Error, Failure};
use crate::json::{json_text, trees, Json, Tree};
use crate::model::{ModelId, Reach};
use crate::order::{ordered, sort};
use crate::provider::{
    add_block, block_events, content_events, events_of_blocks_make_the_reply, input_reads_back,
    named, streamable,
};
use crate::providers::api::{ApiProvider, Endpoint, Frame, Protocol, SseFrame};
use crate::providers::wire::{
    as_models, base64, base64_text, copied_or_empty, first_at, first_of, ids_in, key_not_text,
    key_text, less_cached, meter, metered, not_json, object_or_empty, read_ids, served_by,
    uncached,
};
use crate::registry::Registry;
use crate::secret::{Credential, Secret};
use crate::text::{
    chars_of, first_chars, followed_by, or_empty, piece, same, without_trailing,
};
use std::sync::Arc;
use vstd::prelude::*;
use vstd::utf8::*;

verus! {

/// The `generateContent` protocol.
#[derive(Debug, Clone, Copy, PartialEq, Eq, Structural)]
pub struct GenerateContent;

impl Default for GenerateContent {
    fn default() -> (protocol: GenerateContent)
        ensures
            protocol == GenerateContent,
    {
        GenerateContent
    }
}

/// Google's own endpoint.
pub const DEFAULT_BASE_URL: &'static str = "https://generativelanguage.googleapis.com/v1beta";

/// Gemini, ready to call.
pub type Gemini = ApiProvider<GenerateContent>;

/// The budget of reasoning tokens for a level.
pub open spec fn budget_of(effort: Effort) -> u32 {
    match effort {
        Effort::Low => 2_048,
        Effort::Medium => 8_192,
        Effort::High => 24_576,
        Effort::XHigh => 32_768,
        Effort::Max => 32_768,
    }
}

/// The budget of reasoning tokens for a level. The last is the documented ceiling for this
/// family: asking for more is rejected.
pub fn budget(effort: Effort) -> (tokens: u32)
    ensures
        tokens == budget_of(effort),
{
    match effort {
        Effort::Low => 2_048,
        Effort::Medium => 8_192,
        Effort::High => 24_576,
        Effort::XHigh => 32_768,
        Effort::Max => 32_768,
    }
}

/// An image as it goes on the wire.
pub open spec fn wire_image_of(media_type: Seq<char>, source: Source) -> Tree {
    match source {
        Source::Bytes(bytes) => Tree::empty_object().with(
            "inlineData"@,
            Tree::empty_object().with("mimeType"@, Tree::Text(media_type)).with(
                "data"@,
                Tree::Text(base64_text(bytes)),
            ),
        ),
        Source::Url(url) => Tree::empty_object().with(
            "fileData"@,
            Tree::empty_object().with("mimeType"@, Tree::Text(media_type)).with(
                "fileUri"@,
                Tree::Text(url),
            ),
        ),
    }
}

/// A block as it goes on the wire. A verbatim block came from a different protocol and has no
/// form here.
pub open spec fn wire_part_of(block: Block) -> Option<Tree> {
    match block {
        Block::Text(text) => Some(Tree::empty_object().with("text"@, Tree::Text(text))),
        Block::Thinking { text, .. } => Some(
            Tree::empty_object().with("text"@, Tree::Text(text)).with("thought"@, Tree::Bool(true)),
        ),
        Block::ToolUse { name, input, .. } => Some(
            Tree::empty_object().with(
                "functionCall"@,
                Tree::empty_object().with("name"@, Tree::Text(name)).with("args"@, input),
            ),
        ),
        Block::ToolResult { tool_use_id, content, is_error } => Some(
            Tree::empty_object().with(
                "functionResponse"@,
                Tree::empty_object().with("name"@, Tree::Text(tool_use_id)).with(
                    "response"@,
                    Tree::empty_object().with(
                        if is_error {
                            "error"@
                        } else {
                            "result"@
                        },
                        Tree::Text(content),
                    ),
                ),
            ),
        ),
        Block::Image { media_type, source } => Some(wire_image_of(media_type, source)),
        Block::Opaque { .. } => None,
    }
}

/// The blocks of a turn as they go on the wire, those left out that have no form here.
pub open spec fn wire_parts_of(blocks: Seq<Block>) -> Seq<Tree>
    decreases blocks.len(),
{
    if blocks.len() == 0 {
        Seq::empty()
    } else {
        match wire_part_of(blocks.last()) {
            Some(part) => wire_parts_of(blocks.drop_last()).push(part),
            None => wire_parts_of(blocks.drop_last()),
        }
    }
}

/// A turn as it goes on the wire. The model's turns are called `model` here.
pub open spec fn wire_turn_of(turn: Turn) -> Tree {
    Tree::empty_object().with(
        "role"@,
        Tree::Text(
            match turn.role {
                Role::User => "user"@,
                Role::Assistant => "model"@,
            },
        ),
    ).with("parts"@, Tree::Array(wire_parts_of(turn.content)))
}

/// The conversation as it goes on the wire.
pub open spec fn wire_turns_of(turns: Seq<Turn>) -> Seq<Tree> {
    Seq::new(turns.len(), |i: int| wire_turn_of(turns[i]))
}

/// The settings of a request as they go on the wire. No opinion about reasoning says nothing,
/// which leaves the model's own default in place; a budget of nought is how this API is told
/// not to reason.
pub open spec fn generation_tree(request: Asked) -> Tree {
    let base = Tree::empty_object();
    let base = match request.generation.max_tokens {
        Some(max) => base.with("maxOutputTokens"@, Tree::Integer(max as int)),
        None => base,
    };
    let base = match request.generation.temperature {
        Some(temperature) => base.with("temperature"@, Tree::Float(temperature)),
        None => base,
    };
    let base = match request.generation.top_p {
        Some(top_p) => base.with("topP"@, Tree::Float(top_p)),
        None => base,
    };
    let base = match request.response_schema {
        Some(schema) => base.with("responseMimeType"@, Tree::Text("application/json"@)).with(
            "responseSchema"@,
            schema,
        ),
        None => base,
    };
    match request.thinking {
        Thinking::On(effort) => base.with(
            "thinkingConfig"@,
            Tree::empty_object().with(
                "thinkingBudget"@,
                Tree::Integer(budget_of(effort) as int),
            ).with("includeThoughts"@, Tree::Bool(true)),
        ),
        Thinking::Off => base.with(
            "thinkingConfig"@,
            Tree::empty_object().with("thinkingBudget"@, Tree::Integer(0)),
        ),
        Thinking::Unset => base,
    }
}

/// A tool as it goes on the wire.
pub open spec fn wire_tool_of(tool: Tool) -> Tree {
    Tree::empty_object().with("name"@, Tree::Text(tool.name)).with(
        "description"@,
        Tree::Text(tool.description),
    ).with("parameters"@, tool.parameters)
}

/// The tools of a request as they go on the wire.
pub open spec fn wire_tools_of(tools: Seq<Tool>) -> Seq<Tree> {
    Seq::new(tools.len(), |i: int| wire_tool_of(tools[i]))
}

/// A request as it goes on the wire.
pub open spec fn request_tree(request: Asked) -> Tree {
    let base = Tree::empty_object().with("contents"@, Tree::Array(wire_turns_of(request.messages)));
    let base = match request.system {
        Some(system) => base.with(
            "systemInstruction"@,
            Tree::empty_object().with(
                "parts"@,
                Tree::Array(seq![Tree::empty_object().with("text"@, Tree::Text(system))]),
            ),
        ),
        None => base,
    };
    let base = if generation_tree(request) == Tree::empty_object() {
        base
    } else {
        base.with("generationConfig"@, generation_tree(request))
    };
    if request.tools.len() > 0 {
        base.with(
            "tools"@,
            Tree::Array(
                seq![
                    Tree::empty_object().with(
                        "functionDeclarations"@,
                        Tree::Array(wire_tools_of(request.tools)),
                    ),
                ],
            ),
        )
    } else {
        base
    }
}

/// Whether a part is the model's working out rather than its answer.
pub open spec fn is_thought(part: Tree) -> bool {
    match part.get("thought"@) {
        Some(thought) => thought.as_bool() == Some(true),
        None => false,
    }
}

/// The first of two texts that is there, or none.
pub open spec fn either(a: Option<Seq<char>>, b: Option<Seq<char>>) -> Seq<char> {
    match a {
        Some(a) => a,
        None => or_empty(b),
    }
}

/// The block that a part of a reply gives, whole or as it arrives. A call without an id goes by
/// its name, which keeps a result routable. A text with nothing in it gives none: it would be a
/// block the model has not spoken into.
pub open spec fn part_in(part: Tree) -> Option<Block> {
    match part.get("functionCall"@) {
        Some(call) => match call.text_at("name"@) {
            Some(name) => Some(
                Block::ToolUse {
                    id: either(call.text_at("id"@), call.text_at("name"@)),
                    name,
                    input: object_or_empty(call.get("args"@)),
                },
            ),
            None => None,
        },
        None => match part.text_at("text"@) {
            Some(text) => if is_thought(part) {
                Some(Block::Thinking { text, signature: None })
            } else if text.len() > 0 {
                Some(Block::Text(text))
            } else {
                None
            },
            None => None,
        },
    }
}

/// The blocks that the parts of a reply give, those left out that give none.
pub open spec fn parts_in(parts: Seq<Tree>) -> Seq<Block>
    decreases parts.len(),
{
    if parts.len() == 0 {
        Seq::empty()
    } else {
        match part_in(parts.last()) {
            Some(block) => parts_in(parts.drop_last()).push(block),
            None => parts_in(parts.drop_last()),
        }
    }
}

/// The parts of a candidate.
pub open spec fn parts_of(candidate: Tree) -> Seq<Tree> {
    match candidate.get("content"@) {
        Some(content) => match content.array_at("parts"@) {
            Some(parts) => parts,
            None => Seq::empty(),
        },
        None => Seq::empty(),
    }
}

/// What a stop reason means.
pub open spec fn stop_of(reason: Option<Seq<char>>) -> StopReason {
    match reason {
        None => StopReason::Other,
        Some(reason) => if reason == "STOP"@ {
            StopReason::EndTurn
        } else if reason == "MAX_TOKENS"@ {
            StopReason::MaxTokens
        } else if reason == "SAFETY"@ || reason == "PROHIBITED_CONTENT"@ || reason == "BLOCKLIST"@
            || reason == "RECITATION"@ {
            StopReason::Refusal
        } else {
            StopReason::Other
        },
    }
}

/// The tokens that a document reports. The two output counts together stop at the largest there
/// is.
pub open spec fn usage_in(tree: Option<Tree>) -> Usage {
    match tree {
        None => Usage::nothing(),
        Some(usage) => {
            let cached = usage.u64_at("cachedContentTokenCount"@);
            Usage {
                input_tokens: uncached(usage.u64_at("promptTokenCount"@), cached),
                cache_read_tokens: cached,
                cache_write_tokens: None,
                output_tokens: added(
                    usage.u64_at("candidatesTokenCount"@),
                    usage.u64_at("thoughtsTokenCount"@),
                ),
                estimated: false,
            }
        },
    }
}

/// The reply that a document gives.
pub open spec fn reply_of(body: Tree, asked_for: Seq<char>) -> Result<Reply, Failure> {
    match first_of(body.array_at("candidates"@)) {
        None => Err(Failure::Unreadable("the reply carried no candidates"@)),
        Some(candidate) => {
            let blocks = parts_in(parts_of(candidate));
            if blocks.len() == 0 {
                Err(Failure::Unreadable("the reply carried no content this crate could read"@))
            } else {
                Ok(
                    Reply {
                        message: Turn { role: Role::Assistant, content: blocks },
                        stop_reason: stop_of(candidate.text_at("finishReason"@)),
                        stop_details: None,
                        usage: usage_in(body.get("usageMetadata"@)),
                        model: served_by(body.text_at("modelVersion"@), asked_for),
                    },
                )
            }
        },
    }
}

/// The events of one part of a frame, which are those of the block it gives. A call arrives
/// whole in one frame.
pub open spec fn part_events(part: Tree) -> Seq<Happening> {
    match part_in(part) {
        Some(block) => block_events(block),
        None => Seq::empty(),
    }
}

/// The events of the parts of a frame, in turn.
pub open spec fn parts_events(parts: Seq<Tree>) -> Seq<Happening>
    decreases parts.len(),
{
    if parts.len() == 0 {
        Seq::empty()
    } else {
        parts_events(parts.drop_last()) + part_events(parts.last())
    }
}

/// The events of a candidate: its parts, and why the model stopped where it says.
pub open spec fn candidate_events(candidate: Option<Tree>) -> Seq<Happening> {
    match candidate {
        None => Seq::empty(),
        Some(candidate) => parts_events(parts_of(candidate)) + (match candidate.text_at(
            "finishReason"@,
        ) {
            Some(reason) => seq![
                Happening::Stopped { reason: stop_of(Some(reason)), details: None },
            ],
            None => Seq::empty(),
        }),
    }
}

/// The events of a frame that carries this document.
pub open spec fn frame_events(body: Tree) -> Seq<Happening> {
    (match body.text_at("modelVersion"@) {
        Some(model) => seq![Happening::Started { model }],
        None => Seq::empty(),
    }) + candidate_events(first_of(body.array_at("candidates"@))) + metered(
        usage_in(body.get("usageMetadata"@)),
    )
}

/// A listed name without the path in front of it.
pub open spec fn short_name(name: Seq<char>) -> Seq<char> {
    if name.len() >= 7 && name.take(7) == "models/"@ {
        name.skip(7)
    } else {
        name
    }
}

/// The names that a model list gives.
pub open spec fn models_in(body: Tree) -> Result<Seq<Seq<char>>, Failure> {
    match body.array_at("models"@) {
        None => Err(Failure::Unreadable("the model list had no models array"@)),
        Some(items) => Ok(
            ids_in(items, "name"@).map_values(|name: Seq<char>| short_name(name)),
        ),
    }
}

/// Writes a block.
fn wire_part(block: &ContentBlock) -> (json: Option<Json>)
    ensures
        json.deep_view() == wire_part_of(block.deep_view()),
{
    match block {
        ContentBlock::Text(text) => Some(Json::object().with("text", Json::text(text))),
        // Sent back marked as what it is. This API has no signature to preserve, so a
        // dropped thinking part costs context rather than breaking the next turn.
        ContentBlock::Thinking { text, .. } => Some(
            Json::object().with("text", Json::text(text)).with("thought", Json::Bool(true)),
        ),
        ContentBlock::ToolUse { name, input, .. } => Some(
            Json::object().with(
                "functionCall",
                Json::object().with("name", Json::text(name)).with("args", input.clone()),
            ),
        ),
        // This API keys a result by the tool's name rather than by a call id, and the id is
        // what this crate carries. Sent as the name it is.
        ContentBlock::ToolResult { tool_use_id, content, is_error } => Some(
            Json::object().with(
                "functionResponse",
                Json::object().with("name", Json::text(tool_use_id)).with(
                    "response",
                    Json::object().with(
                        if *is_error {
                            "error"
                        } else {
                            "result"
                        },
                        Json::text(content),
                    ),
                ),
            ),
        ),
        ContentBlock::Image { media_type, source } => Some(
            match source {
                ImageSource::Bytes(bytes) => Json::object().with(
                    "inlineData",
                    Json::object().with("mimeType", Json::text(media_type)).with(
                        "data",
                        Json::text(base64(bytes).as_str()),
                    ),
                ),
                ImageSource::Url(url) => Json::object().with(
                    "fileData",
                    Json::object().with("mimeType", Json::text(media_type)).with(
                        "fileUri",
                        Json::text(url),
                    ),
                ),
            },
        ),
        ContentBlock::Opaque { .. } => None,
    }
}

/// Writes a turn.
fn wire_turn(message: &Message) -> (json: Json)
    ensures
        json.tree() == wire_turn_of(message.deep_view()),
{
    let mut parts: Vec<Json> = Vec::new();
    let ghost blocks = message.deep_view().content;
    let mut i: usize = 0;
    assert(blocks.take(0) == Seq::<Block>::empty());
    assert(trees(parts@) == Seq::<Tree>::empty());
    while i < message.content.len()
        invariant
            i <= message.content.len(),
            blocks == message.content.deep_view(),
            trees(parts@) == wire_parts_of(blocks.take(i as int)),
        decreases message.content.len() - i,
    {
        let ghost before = parts@;
        proof {
            assert(blocks.take(i + 1).drop_last() == blocks.take(i as int));
            assert(blocks.take(i + 1).last() == message.content[i as int].deep_view());
        }
        if let Some(part) = wire_part(&message.content[i]) {
            parts.push(part);
            assert(trees(parts@) == trees(before).push(part.tree()));
        }
        i += 1;
    }
    assert(blocks.take(i as int) == blocks);
    let role = match message.role {
        // Not "assistant". A turn sent with that role is rejected outright.
        Role::User => "user",
        Role::Assistant => "model",
    };
    Json::object().with("role", Json::text(role)).with("parts", Json::Array(parts))
}

/// Writes the conversation.
fn wire_turns(messages: &Vec<Message>) -> (json: Json)
    ensures
        json.tree() == Tree::Array(wire_turns_of(messages.deep_view())),
{
    let mut out: Vec<Json> = Vec::new();
    let mut i: usize = 0;
    while i < messages.len()
        invariant
            i <= messages.len(),
            out.len() == i,
            forall|j: int|
                0 <= j < i ==> (#[trigger] out[j]).tree() == wire_turns_of(messages.deep_view())[j],
        decreases messages.len() - i,
    {
        out.push(wire_turn(&messages[i]));
        i += 1;
    }
    assert(trees(out@) == wire_turns_of(messages.deep_view()));
    Json::Array(out)
}

/// A list of one document.
fn list_of(item: Json) -> (json: Json)
    ensures
        json.tree() == Tree::Array(seq![item.tree()]),
{
    let mut items: Vec<Json> = Vec::new();
    items.push(item);
    assert(trees(items@) == seq![item.tree()]);
    Json::Array(items)
}

/// Writes the tools of a request.
fn wire_tools(tools: &Vec<ToolSchema>) -> (json: Json)
    ensures
        json.tree() == Tree::Array(wire_tools_of(tools.deep_view())),
{
    let mut out: Vec<Json> = Vec::new();
    let mut i: usize = 0;
    while i < tools.len()
        invariant
            i <= tools.len(),
            out.len() == i,
            forall|j: int|
                0 <= j < i ==> (#[trigger] out[j]).tree() == wire_tools_of(tools.deep_view())[j],
        decreases tools.len() - i,
    {
        out.push(
            Json::object().with("name", Json::text(&tools[i].name)).with(
                "description",
                Json::text(&tools[i].description),
            ).with("parameters", tools[i].parameters.clone()),
        );
        i += 1;
    }
    assert(trees(out@) == wire_tools_of(tools.deep_view()));
    Json::Array(out)
}

/// Writes the settings of a request.
fn wire_generation(request: &ChatRequest) -> (json: Json)
    ensures
        json.tree() == generation_tree(request.deep_view()),
{
    let mut generation = Json::object();
    if let Some(max) = request.generation.max_tokens {
        generation = generation.with("maxOutputTokens", Json::Unsigned(max as u64));
    }
    if let Some(temperature) = &request.generation.temperature {
        generation = generation.with("temperature", Json::Float(temperature.copied()));
    }
    if let Some(top_p) = &request.generation.top_p {
        generation = generation.with("topP", Json::Float(top_p.copied()));
    }
    if let Some(schema) = &request.response_schema {
        generation = generation.with("responseMimeType", Json::text("application/json")).with(
            "responseSchema",
            schema.clone(),
        );
    }
    match request.thinking {
        // Thoughts are asked for explicitly. Without it the reasoning is billed and not
        // returned, which is the worst of both.
        Thinking::On(effort) => generation.with(
            "thinkingConfig",
            Json::object().with("thinkingBudget", Json::Unsigned(budget(effort) as u64)).with(
                "includeThoughts",
                Json::Bool(true),
            ),
        ),
        Thinking::Off => generation.with(
            "thinkingConfig",
            Json::object().with("thinkingBudget", Json::Unsigned(0)),
        ),
        Thinking::Unset => generation,
    }
}

/// Writes a request.
pub fn write_request(request: &ChatRequest) -> (body: Json)
    ensures
        body.tree() == request_tree(request.deep_view()),
{
    let mut body = Json::object().with("contents", wire_turns(&request.messages));
    if let Some(system) = &request.system {
        body = body.with(
            "systemInstruction",
            Json::object().with(
                "parts",
                list_of(Json::object().with("text", Json::text(system))),
            ),
        );
    }
    let generation = wire_generation(request);
    if generation != Json::object() {
        body = body.with("generationConfig", generation);
    }
    if request.tools.len() > 0 {
        body = body.with(
            "tools",
            list_of(Json::object().with("functionDeclarations", wire_tools(&request.tools))),
        );
    }
    body
}

/// Whether a part is the model's working out.
fn thought(part: &Json) -> (yes: bool)
    ensures
        yes == is_thought(part.tree()),
{
    match part.get("thought") {
        Some(thought) => match thought.as_bool() {
            Some(b) => b,
            None => false,
        },
        None => false,
    }
}

/// Reads a part of a reply.
fn read_part(part: &Json) -> (block: Option<ContentBlock>)
    ensures
        block.deep_view() == part_in(part.tree()),
{
    if let Some(call) = part.get("functionCall") {
        return match call.text_at("name") {
            Some(name) => Some(
                ContentBlock::ToolUse {
                    id: match call.text_at("id") {
                        Some(id) => id.to_owned(),
                        None => name.to_owned(),
                    },
                    name: name.to_owned(),
                    input: copied_or_empty(call.get("args")),
                },
            ),
            None => None,
        };
    }
    match part.text_at("text") {
        // A part marked `thought` is the model's working out. Read as ordinary text it lands
        // in the answer, and somebody sees on a screen what the model was only thinking.
        Some(text) => if thought(part) {
            Some(ContentBlock::Thinking { text: text.to_owned(), signature: None })
        } else if !text.is_empty() {
            Some(ContentBlock::Text(text.to_owned()))
        } else {
            None
        },
        None => None,
    }
}

/// The parts of a candidate.
fn candidate_parts(candidate: &Json) -> (parts: Option<&Vec<Json>>)
    ensures
        parts is None ==> parts_of(candidate.tree()) == Seq::<Tree>::empty(),
        parts matches Some(parts) ==> trees(parts@) == parts_of(candidate.tree()),
{
    match candidate.get("content") {
        Some(content) => content.array_at("parts"),
        None => None,
    }
}

/// Reads the blocks of a candidate.
fn read_parts(candidate: &Json) -> (blocks: Vec<ContentBlock>)
    ensures
        blocks.deep_view() == parts_in(parts_of(candidate.tree())),
{
    let mut blocks: Vec<ContentBlock> = Vec::new();
    assert(blocks.deep_view() == Seq::<Block>::empty());
    if let Some(parts) = candidate_parts(candidate) {
        let ghost all = trees(parts@);
        let mut i: usize = 0;
        assert(all.take(0) == Seq::<Tree>::empty());
        while i < parts.len()
            invariant
                i <= parts.len(),
                all == trees(parts@),
                blocks.deep_view() == parts_in(all.take(i as int)),
            decreases parts.len() - i,
        {
            let ghost before = blocks.deep_view();
            proof {
                assert(all.take(i + 1).drop_last() == all.take(i as int));
                assert(all.take(i + 1).last() == parts[i as int].tree());
            }
            if let Some(block) = read_part(&parts[i]) {
                blocks.push(block);
                assert(blocks.deep_view() == before.push(block.deep_view()));
            }
            i += 1;
        }
        assert(all.take(i as int) == all);
    }
    blocks
}

/// Reads a stop reason.
fn read_stop(reason: Option<&str>) -> (stop: StopReason)
    ensures
        stop == stop_of(reason.deep_view()),
{
    match reason {
        None => StopReason::Other,
        Some(reason) => if same(reason, "STOP") {
            StopReason::EndTurn
        } else if same(reason, "MAX_TOKENS") {
            StopReason::MaxTokens
        } else if same(reason, "SAFETY") || same(reason, "PROHIBITED_CONTENT") || same(
            reason,
            "BLOCKLIST",
        ) || same(reason, "RECITATION") {
            // All are the model declining, for different reasons it does not always separate.
            StopReason::Refusal
        } else {
            StopReason::Other
        },
    }
}

/// Reads the tokens a document reports.
fn read_usage(value: Option<&Json>) -> (usage: Usage)
    ensures
        usage == usage_in(value.deep_view()),
{
    match value {
        None => Usage::absent(),
        Some(usage) => {
            let cached: Option<u64> = usage.u64_at("cachedContentTokenCount");
            let visible: Option<u64> = usage.u64_at("candidatesTokenCount");
            let thoughts: Option<u64> = usage.u64_at("thoughtsTokenCount");
            Usage {
                input_tokens: less_cached(usage.u64_at("promptTokenCount"), cached),
                cache_read_tokens: cached,
                cache_write_tokens: None,
                output_tokens: match (visible, thoughts) {
                    (None, None) => None,
                    (Some(visible), None) => Some(visible),
                    (None, Some(thoughts)) => Some(thoughts),
                    (Some(visible), Some(thoughts)) => Some(visible.saturating_add(thoughts)),
                },
                estimated: false,
            }
        },
    }
}

/// Reads a reply.
pub fn read_reply(body: &Json, asked_for: &ModelId) -> (reply: Result<ChatResponse, Error>)
    ensures
        outcome(reply) == reply_of(body.tree(), asked_for@),
{
    let candidate = match first_at(body, "candidates") {
        Some(candidate) => candidate,
        None => {
            return Err(Error::Unreadable("the reply carried no candidates".to_owned()));
        },
    };
    let blocks = read_parts(candidate);
    if blocks.len() == 0 {
        return Err(
            Error::Unreadable("the reply carried no content this crate could read".to_owned()),
        );
    }
    Ok(
        ChatResponse::new(
            Message { role: Role::Assistant, content: blocks },
            read_stop(candidate.text_at("finishReason")),
            read_usage(body.get("usageMetadata")),
            match body.text_at("modelVersion") {
                Some(model) => ModelId(model.to_owned()),
                None => asked_for.copied(),
            },
        ),
    )
}

/// Puts the events of one part behind others.
fn add_part(events: &mut Vec<Event>, part: &Json)
    ensures
        final(events).deep_view() == old(events).deep_view() + part_events(part.tree()),
{
    let ghost before = events.deep_view();
    assert(before + Seq::<Happening>::empty() == before);
    // The same split as for a whole reply, and for the same reason: reasoning read as ordinary
    // text ends up on a screen as though the model had said it.
    if let Some(block) = read_part(part) {
        add_block(events, &block);
    }
}

/// Puts the events of a candidate behind others.
fn add_candidate(events: &mut Vec<Event>, candidate: &Json)
    ensures
        final(events).deep_view() == old(events).deep_view() + candidate_events(
            Some(candidate.tree()),
        ),
{
    let ghost before = events.deep_view();
    let ghost all = parts_of(candidate.tree());
    assert(before + Seq::<Happening>::empty() == before);
    if let Some(parts) = candidate_parts(candidate) {
        let mut i: usize = 0;
        assert(all.take(0) == Seq::<Tree>::empty());
        while i < parts.len()
            invariant
                i <= parts.len(),
                all == trees(parts@),
                events.deep_view() == before + parts_events(all.take(i as int)),
            decreases parts.len() - i,
        {
            add_part(events, &parts[i]);
            proof {
                assert(all.take(i + 1).drop_last() == all.take(i as int));
                assert(all.take(i + 1).last() == parts[i as int].tree());
                assert((before + parts_events(all.take(i as int))) + part_events(
                    parts[i as int].tree(),
                ) == before + (parts_events(all.take(i as int)) + part_events(
                    parts[i as int].tree(),
                )));
            }
            i += 1;
        }
        assert(all.take(i as int) == all);
    }
    let ghost so_far = events.deep_view();
    if let Some(reason) = candidate.text_at("finishReason") {
        events.push(Event::Stopped { reason: read_stop(Some(reason)), details: None });
    }
    proof {
        let stopped = match candidate.tree().text_at("finishReason"@) {
            Some(reason) => seq![
                Happening::Stopped { reason: stop_of(Some(reason)), details: None },
            ],
            None => Seq::empty(),
        };
        assert(events.deep_view() == so_far + stopped);
        assert((before + parts_events(all)) + stopped == before + (parts_events(all) + stopped));
    }
}

/// Reads a frame that carries this document.
pub fn read_frame(body: &Json) -> (events: Vec<Event>)
    ensures
        events.deep_view() == frame_events(body.tree()),
{
    let mut events: Vec<Event> = Vec::new();
    if let Some(model) = body.text_at("modelVersion") {
        events.push(Event::Started { model: ModelId(model.to_owned()) });
    }
    let ghost started = match body.tree().text_at("modelVersion"@) {
        Some(model) => seq![Happening::Started { model }],
        None => Seq::empty(),
    };
    assert(events.deep_view() == started);
    assert(started + Seq::<Happening>::empty() == started);
    if let Some(candidate) = first_at(body, "candidates") {
        add_candidate(&mut events, candidate);
    }
    meter(&mut events, read_usage(body.get("usageMetadata")));
    events
}

/// A listed name without the path in front of it. A caller names the model, not the path.
fn shorten(name: &str) -> (short: String)
    ensures
        short@ == short_name(name@),
{
    let chars = chars_of(name);
    proof {
        reveal_strlit("models/");
    }
    if chars.len() >= 7 && same(piece(&chars, 0, 7).as_str(), "models/") {
        assert(chars@.subrange(0, 7) == chars@.take(7));
        assert(chars@.subrange(7, chars.len() as int) == chars@.skip(7));
        piece(&chars, 7, chars.len())
    } else {
        if chars.len() >= 7 {
            assert(chars@.subrange(0, 7) == chars@.take(7));
        }
        name.to_owned()
    }
}

/// Reads a model list, in the order of the names.
pub fn read_list(body: &Json) -> (ids: Result<Vec<ModelId>, Error>)
    ensures
        match (ids, models_in(body.tree())) {
            (Ok(ids), Ok(names)) => ordered(ids.deep_view()) && ids.deep_view().to_multiset()
                == names.to_multiset(),
            (Err(why), Err(failure)) => why.deep_view() == failure,
            _ => false,
        },
{
    let items = match body.array_at("models") {
        Some(items) => items,
        None => {
            return Err(Error::Unreadable("the model list had no models array".to_owned()));
        },
    };
    let paths = read_ids(items, "name");
    let ghost all = ids_in(trees(items@), "name"@).map_values(
        |name: Seq<char>| short_name(name),
    );
    let mut names: Vec<String> = Vec::new();
    let mut i: usize = 0;
    while i < paths.len()
        invariant
            i <= paths.len(),
            all == paths.deep_view().map_values(|name: Seq<char>| short_name(name)),
            names.deep_view() == all.take(i as int),
        decreases paths.len() - i,
    {
        let ghost before = names.deep_view();
        names.push(shorten(paths[i].as_str()));
        assert(names.deep_view() == before.push(all[i as int]));
        i += 1;
    }
    assert(names.deep_view() == all);
    Ok(as_models(sort(names)))
}

impl Protocol for GenerateContent {
    open spec fn name(&self) -> Seq<char> {
        "gemini"@
    }

    open spec fn chat_address(&self, base_url: Seq<char>, model: Seq<char>) -> Seq<char> {
        base_url + "/models/"@ + model + ":generateContent"@
    }

    open spec fn stream_address(&self, base_url: Seq<char>, model: Seq<char>) -> Seq<char> {
        base_url + "/models/"@ + model + ":streamGenerateContent?alt=sse"@
    }

    open spec fn catalogue_address(&self, base_url: Seq<char>) -> Option<Seq<char>> {
        Some(base_url + "/models"@)
    }

    open spec fn header_list(&self, key: Credential) -> Result<
        Seq<(Seq<char>, Seq<char>)>,
        Failure,
    > {
        if valid_utf8(key.bytes) {
            Ok(
                seq![
                    ("x-goog-api-key"@, decode_utf8(key.bytes)),
                    ("content-type"@, "application/json"@),
                ],
            )
        } else {
            Err(key_not_text())
        }
    }

    open spec fn writes(&self, request: Asked) -> bool {
        true
    }

    open spec fn body_of(&self, request: Asked) -> Result<Tree, Failure> {
        Ok(request_tree(request))
    }

    open spec fn stream_body_of(&self, request: Asked) -> Result<Option<Tree>, Failure> {
        Ok(Some(request_tree(request)))
    }

    open spec fn reply_in(&self, body: Tree, asked_for: Seq<char>) -> Result<Reply, Failure> {
        reply_of(body, asked_for)
    }

    open spec fn names_in(&self, body: Tree) -> Result<Seq<Seq<char>>, Failure> {
        models_in(body)
    }

    open spec fn events_in(&self, frame: Frame) -> Result<Seq<Happening>, Failure> {
        match frame.json() {
            None => Err(not_json(frame.data)),
            Some(body) => Ok(frame_events(body)),
        }
    }

    fn id(&self) -> (id: &str) {
        "gemini"
    }

    fn chat_url(&self, base_url: &str, model: &ModelId) -> (url: String) {
        followed_by(base_url, "/models/").concat(model.as_str()).concat(":generateContent")
    }

    fn stream_url(&self, base_url: &str, model: &ModelId) -> (url: String) {
        followed_by(base_url, "/models/").concat(model.as_str()).concat(
            ":streamGenerateContent?alt=sse",
        )
    }

    fn catalogue_url(&self, base_url: &str) -> (url: Option<String>) {
        Some(followed_by(base_url, "/models"))
    }

    fn headers(&self, key: &Secret) -> (headers: Result<Vec<(String, String)>, Error>) {
        match key_text(key) {
            Err(why) => Err(why),
            Ok(key) => {
                let ghost value = key@;
                let mut headers: Vec<(String, String)> = Vec::new();
                headers.push(("x-goog-api-key".to_owned(), key));
                headers.push(("content-type".to_owned(), "application/json".to_owned()));
                assert(headers.deep_view() == seq![
                    ("x-goog-api-key"@, value),
                    ("content-type"@, "application/json"@),
                ]);
                Ok(headers)
            },
        }
    }

    fn body(&self, request: &ChatRequest) -> (body: Result<Json, Error>) {
        Ok(write_request(request))
    }

    fn stream_body(&self, request: &ChatRequest) -> (body: Result<Option<Json>, Error>) {
        Ok(Some(write_request(request)))
    }

    fn read(&self, body: &Json, asked_for: &ModelId) -> (reply: Result<ChatResponse, Error>) {
        read_reply(body, asked_for)
    }

    fn read_catalogue(&self, body: &Json) -> (ids: Result<Vec<ModelId>, Error>) {
        read_list(body)
    }

    fn read_event(&self, frame: &SseFrame) -> (events: Result<Vec<Event>, Error>) {
        match frame.json() {
            None => Err(
                Error::Unreadable(
                    followed_by(
                        "a frame that was not JSON: ",
                        first_chars(frame.data.as_str(), 120).as_str(),
                    ),
                ),
            ),
            Some(body) => Ok(read_frame(&body)),
        }
    }
}

/// Gemini at its own address, with a credential and a model table of your own.
pub fn with(key: Secret, registry: Arc<Registry>) -> (provider: ApiProvider<GenerateContent>)
    ensures
        provider.speaks() == GenerateContent,
        provider.holds() == (Endpoint {
            key: key@,
            base_url: without_trailing(
                "https://generativelanguage.googleapis.com/v1beta"@,
                '/',
            ),
            reach: Reach::FirstPartyApi,
            registry: registry.deep_view(),
        }),
{
    ApiProvider::new(GenerateContent, DEFAULT_BASE_URL, key, Reach::FirstPartyApi, registry)
}

/// The events of parts are those of the blocks they give.
proof fn parts_make_the_events_of_their_blocks(parts: Seq<Tree>)
    ensures
        parts_events(parts) == content_events(parts_in(parts)),
    decreases parts.len(),
{
    if parts.len() > 0 {
        parts_make_the_events_of_their_blocks(parts.drop_last());
        if let Some(block) = part_in(parts.last()) {
            assert(parts_in(parts).drop_last() == parts_in(parts.drop_last()));
        } else {
            assert(parts_events(parts) == parts_events(parts.drop_last()));
        }
    }
}

/// A reply that arrives in one frame is the whole one: a frame that carries a document puts
/// together the reply that the document gives.
///
/// The document has to say why the model stopped, which is what ends a stream. Its blocks have
/// to be such as events can carry, and the arguments of its tool calls such as read back from
/// their text.
pub proof fn a_reply_in_one_frame_is_the_whole_one(body: Tree, asked_for: Seq<char>)
    requires
        reply_of(body, asked_for) is Ok,
        first_of(body.array_at("candidates"@))->0.text_at("finishReason"@) is Some,
        streamable(reply_of(body, asked_for)->Ok_0.message.content),
        forall|i: int|
            0 <= i < reply_of(body, asked_for)->Ok_0.message.content.len() ==> input_reads_back(
                #[trigger] reply_of(body, asked_for)->Ok_0.message.content[i],
            ),
    ensures
        Taken::nothing(asked_for).after(frame_events(body)).finished() == reply_of(
            body,
            asked_for,
        )->Ok_0,
{
    let candidate = first_of(body.array_at("candidates"@))->0;
    let reply = reply_of(body, asked_for)->Ok_0;
    let blocks = reply.message.content;
    let model = body.text_at("modelVersion"@);
    let stopped = seq![Happening::Stopped { reason: reply.stop_reason, details: None }];
    parts_make_the_events_of_their_blocks(parts_of(candidate));
    events_of_blocks_make_the_reply(
        asked_for,
        model,
        blocks,
        (reply.stop_reason, None),
        reply.usage,
    );
    assert(frame_events(body) == named(model) + content_events(blocks) + stopped + metered(
        reply.usage,
    ));
}

/// What some frames have said so far.
#[verifier::ext_equal]
pub struct Heard {
    /// The blocks, those put together that run on.
    pub blocks: Seq<Block>,
    /// Why the model stopped.
    pub stop: Option<StopReason>,
    /// The model that was named last.
    pub model: Option<Seq<char>>,
    /// The tokens that were reported, a later report in the place of an earlier one.
    pub usage: Option<Usage>,
}

/// The blocks that a frame gives.
pub open spec fn frame_blocks(frame: Tree) -> Seq<Block> {
    match first_of(frame.array_at("candidates"@)) {
        Some(candidate) => parts_in(parts_of(candidate)),
        None => Seq::empty(),
    }
}

/// Blocks with one more behind them: text runs on in text, reasoning in reasoning, and a tool
/// call is whole.
pub open spec fn with_block(blocks: Seq<Block>, block: Block) -> Seq<Block> {
    match block {
        Block::Text(text) => with_text(blocks, text),
        Block::Thinking { text, signature: None } => with_thinking(blocks, text),
        other => blocks.push(other),
    }
}

/// Blocks with some more behind them in turn.
pub open spec fn with_blocks(blocks: Seq<Block>, more: Seq<Block>) -> Seq<Block>
    decreases more.len(),
{
    if more.len() == 0 {
        blocks
    } else {
        with_block(with_blocks(blocks, more.drop_last()), more.last())
    }
}

impl Heard {
    /// Nothing yet.
    pub open spec fn nothing() -> Heard {
        Heard { blocks: Seq::empty(), stop: None, model: None, usage: None }
    }

    /// The same after one more frame: what it adds goes behind what was there.
    pub open spec fn hears(self, frame: Tree) -> Heard {
        let usage = usage_in(frame.get("usageMetadata"@));
        Heard {
            blocks: with_blocks(self.blocks, frame_blocks(frame)),
            stop: match first_of(frame.array_at("candidates"@)) {
                Some(candidate) => match candidate.text_at("finishReason"@) {
                    Some(reason) => Some(stop_of(Some(reason))),
                    None => self.stop,
                },
                None => self.stop,
            },
            model: match frame.text_at("modelVersion"@) {
                Some(model) => Some(model),
                None => self.model,
            },
            usage: if metered(usage).len() == 0 {
                self.usage
            } else {
                match self.usage {
                    Some(earlier) => Some(earlier.revised(usage)),
                    None => Some(usage),
                }
            },
        }
    }

    /// What a transcript has taken in once it has taken in the events of these frames, with the
    /// tool call in progress made a block.
    pub open spec fn taken(self, asked_for: Seq<char>) -> Taken {
        Taken {
            blocks: self.blocks,
            pending_tool: None,
            stop: match self.stop {
                Some(reason) => Some((reason, None)),
                None => None,
            },
            usage: self.usage,
            served_by: self.model,
            asked_for,
        }
    }

    /// Whether this is what a document says: its blocks, its model, its stop reason and its
    /// tokens.
    pub open spec fn makes_up(self, body: Tree) -> bool {
        let candidate = first_of(body.array_at("candidates"@))->0;
        &&& self.blocks == parts_in(parts_of(candidate))
        &&& self.stop == Some(stop_of(candidate.text_at("finishReason"@)))
        &&& self.model == body.text_at("modelVersion"@)
        &&& usage_in(body.get("usageMetadata"@)) == (match self.usage {
            Some(usage) => usage,
            None => Usage::nothing(),
        })
    }
}

/// What some frames say in turn.
pub open spec fn heard(frames: Seq<Tree>) -> Heard
    decreases frames.len(),
{
    if frames.len() == 0 {
        Heard::nothing()
    } else {
        heard(frames.drop_last()).hears(frames.last())
    }
}

/// The events of some frames in turn.
pub open spec fn events_of(frames: Seq<Tree>) -> Seq<Happening>
    decreases frames.len(),
{
    if frames.len() == 0 {
        Seq::empty()
    } else {
        events_of(frames.drop_last()) + frame_events(frames.last())
    }
}

/// Whether the arguments of every tool call read back from the text they are written as.
pub open spec fn all_read_back(blocks: Seq<Block>) -> bool {
    forall|i: int| 0 <= i < blocks.len() ==> input_reads_back(#[trigger] blocks[i])
}

/// Blocks among which one more was put read back only where they did and it does.
proof fn a_block_reads_back_where_all_do(blocks: Seq<Block>, block: Block)
    requires
        all_read_back(with_block(blocks, block)),
    ensures
        all_read_back(blocks),
        input_reads_back(block),
{
    let after = with_block(blocks, block);
    assert forall|i: int| 0 <= i < blocks.len() implies input_reads_back(#[trigger] blocks[i]) by {
        if after[i] == blocks[i] {
            assert(input_reads_back(after[i]));
        }
    }
    if block is ToolUse {
        assert(after[blocks.len() as int] == block);
        assert(input_reads_back(after[blocks.len() as int]));
    }
}

/// Whether a block is of a kind that a part gives.
pub open spec fn is_given(block: Block) -> bool {
    block is Text || is_unsigned(block) || block is ToolUse
}

/// Parts give blocks of their kinds.
proof fn parts_give_their_kinds(parts: Seq<Tree>)
    ensures
        forall|i: int| 0 <= i < parts_in(parts).len() ==> is_given(#[trigger] parts_in(parts)[i]),
    decreases parts.len(),
{
    if parts.len() > 0 {
        let less = parts_in(parts.drop_last());
        parts_give_their_kinds(parts.drop_last());
        assert forall|i: int| 0 <= i < parts_in(parts).len() implies is_given(
            #[trigger] parts_in(parts)[i],
        ) by {
            if i < less.len() {
                assert(is_given(less[i]));
                assert(parts_in(parts)[i] == less[i]);
            }
        }
    }
}

/// The events of a block are taken in as the block.
proof fn a_block_is_taken_in(taken: Taken, block: Block)
    requires
        is_given(block),
        input_reads_back(block),
    ensures
        taken.after(block_events(block)).closed() == (Taken {
            blocks: with_block(taken.closed().blocks, block),
            ..taken.closed()
        }),
{
    let events = block_events(block);
    one_event_is_taken_in(taken, events[0]);
    match block {
        Block::ToolUse { id, name, input } => {
            let one = taken.pushed(events[0]);
            after_in_parts(taken, seq![events[0]], seq![events[1]]);
            assert(events =~= seq![events[0]] + seq![events[1]]);
            one_event_is_taken_in(one, events[1]);
            assert(Seq::<char>::empty() + json_text(input) =~= json_text(input));
            assert(arrived_input(json_text(input)) == input);
        },
        _ => {
            assert(events =~= seq![events[0]]);
        },
    }
}

/// The events of some blocks are taken in as the blocks.
proof fn blocks_are_taken_in(taken: Taken, blocks: Seq<Block>)
    requires
        forall|i: int| 0 <= i < blocks.len() ==> is_given(#[trigger] blocks[i]),
        all_read_back(with_blocks(taken.closed().blocks, blocks)),
    ensures
        taken.after(content_events(blocks)).closed() == (Taken {
            blocks: with_blocks(taken.closed().blocks, blocks),
            ..taken.closed()
        }),
        all_read_back(taken.closed().blocks),
    decreases blocks.len(),
{
    if blocks.len() == 0 {
        one_event_is_taken_in(taken, Happening::TextDelta(Seq::empty()));
        assert(taken.closed() =~= (Taken { blocks: taken.closed().blocks, ..taken.closed() }));
    } else {
        let less = blocks.drop_last();
        assert(is_given(blocks[blocks.len() - 1]));
        assert forall|i: int| 0 <= i < less.len() implies is_given(#[trigger] less[i]) by {
            assert(is_given(blocks[i]));
        }
        a_block_reads_back_where_all_do(
            with_blocks(taken.closed().blocks, less),
            blocks.last(),
        );
        blocks_are_taken_in(taken, less);
        a_block_is_taken_in(taken.after(content_events(less)), blocks.last());
        after_in_parts(taken, content_events(less), block_events(blocks.last()));
    }
}

/// A frame is taken in as what it says.
proof fn a_frame_is_taken_in(taken: Taken, heard: Heard, frame: Tree, asked_for: Seq<char>)
    requires
        all_read_back(heard.hears(frame).blocks),
        taken.closed() == heard.taken(asked_for),
    ensures
        taken.after(frame_events(frame)).closed() == heard.hears(frame).taken(asked_for),
{
    let then = heard.hears(frame);
    let model = frame.text_at("modelVersion"@);
    let usage = usage_in(frame.get("usageMetadata"@));
    let candidate = first_of(frame.array_at("candidates"@));
    let blocks = frame_blocks(frame);
    let stopped = match candidate {
        Some(candidate) => match candidate.text_at("finishReason"@) {
            Some(reason) => seq![
                Happening::Stopped { reason: stop_of(Some(reason)), details: None },
            ],
            None => Seq::empty(),
        },
        None => Seq::empty(),
    };
    if let Some(candidate) = candidate {
        parts_make_the_events_of_their_blocks(parts_of(candidate));
        parts_give_their_kinds(parts_of(candidate));
    }
    let e1 = named(model);
    let e2 = content_events(blocks);
    let e4 = metered(usage);
    assert(frame_events(frame) =~= e1 + e2 + stopped + e4);
    let t1 = taken.after(e1);
    assert(t1.closed() == (Taken { served_by: then.model, ..taken.closed() })) by {
        match model {
            Some(model) => one_event_is_taken_in(taken, Happening::Started { model }),
            None => one_event_is_taken_in(taken, Happening::Metered(usage)),
        }
    }
    blocks_are_taken_in(t1, blocks);
    let t2 = t1.after(e2);
    let t3 = t2.after(stopped);
    assert(t3.closed() == (Taken { stop: then.taken(asked_for).stop, ..t2.closed() })) by {
        if stopped.len() > 0 {
            one_event_is_taken_in(t2, stopped[0]);
            assert(stopped =~= seq![stopped[0]]);
        } else {
            one_event_is_taken_in(t2, Happening::Metered(usage));
            assert(stopped =~= Seq::<Happening>::empty());
        }
    }
    one_event_is_taken_in(t3, Happening::Metered(usage));
    let t4 = t3.after(e4);
    assert(t4.closed() == (Taken { usage: then.usage, ..t3.closed() }));
    after_in_parts(taken, e1, e2);
    after_in_parts(taken, e1 + e2, stopped);
    after_in_parts(taken, e1 + e2 + stopped, e4);
}

/// Blocks behind which some more were put read back only where they did.
proof fn what_was_there_reads_back(blocks: Seq<Block>, more: Seq<Block>)
    requires
        all_read_back(with_blocks(blocks, more)),
    ensures
        all_read_back(blocks),
    decreases more.len(),
{
    if more.len() > 0 {
        a_block_reads_back_where_all_do(with_blocks(blocks, more.drop_last()), more.last());
        what_was_there_reads_back(blocks, more.drop_last());
    }
}

/// Frames are taken in as what they say.
proof fn frames_are_taken_in(frames: Seq<Tree>, asked_for: Seq<char>)
    requires
        all_read_back(heard(frames).blocks),
    ensures
        Taken::nothing(asked_for).after(events_of(frames)).closed() == heard(frames).taken(
            asked_for,
        ),
    decreases frames.len(),
{
    let start = Taken::nothing(asked_for);
    if frames.len() == 0 {
        one_event_is_taken_in(start, Happening::TextDelta(Seq::empty()));
        assert(heard(frames).taken(asked_for) =~= start);
    } else {
        let less = frames.drop_last();
        what_was_there_reads_back(heard(less).blocks, frame_blocks(frames.last()));
        frames_are_taken_in(less, asked_for);
        a_frame_is_taken_in(
            start.after(events_of(less)),
            heard(less),
            frames.last(),
            asked_for,
        );
        after_in_parts(start, events_of(less), frame_events(frames.last()));
    }
}

/// A streamed reply is the whole one: frames that add up to what a document says put together the
/// reply that the document gives, wherever the answer and the reasoning are cut, and whether the
/// tokens are reported once or as a running total. A tool call arrives whole in one frame.
///
/// The arguments of the tool calls have to be such as read back from their text.
pub proof fn a_streamed_reply_is_the_whole_one(
    body: Tree,
    frames: Seq<Tree>,
    asked_for: Seq<char>,
)
    requires
        reply_of(body, asked_for) is Ok,
        heard(frames).makes_up(body),
        all_read_back(reply_of(body, asked_for)->Ok_0.message.content),
    ensures
        Taken::nothing(asked_for).after(events_of(frames)).finished() == reply_of(
            body,
            asked_for,
        )->Ok_0,
{
    frames_are_taken_in(frames, asked_for);
    let taken = Taken::nothing(asked_for).after(events_of(frames));
    assert(taken.stop == taken.closed().stop && taken.usage == taken.closed().usage
        && taken.served_by == taken.closed().served_by && taken.asked_for
        == taken.closed().asked_for);
}

/// No opinion about reasoning is not the same as off: one says nothing, the other sets the
/// budget to nought.
pub proof fn no_opinion_says_nothing(request: Asked)
    ensures
        generation_tree(Asked { thinking: Thinking::Off, ..request }).get("thinkingConfig"@)
            == Some(Tree::empty_object().with("thinkingBudget"@, Tree::Integer(0))),
        generation_tree(Asked { thinking: Thinking::Unset, ..request }).get("thinkingConfig"@)
            is None,
{
    reveal_strlit("thinkingConfig");
    reveal_strlit("maxOutputTokens");
    reveal_strlit("temperature");
    reveal_strlit("topP");
    reveal_strlit("responseMimeType");
    reveal_strlit("responseSchema");
    assert("thinkingConfig"@.len() == 14);
    assert("maxOutputTokens"@.len() == 15);
    assert("temperature"@.len() == 11);
    assert("topP"@.len() == 4);
    assert("responseMimeType"@.len() == 16);
    assert("responseSchema"@.len() == 14);
    assert("responseSchema"@[0] == 'r');
    assert("thinkingConfig"@[0] == 't');
}

/// The members of a request are told apart.
proof fn members_differ()
    ensures
        "contents"@ != "systemInstruction"@,
        "contents"@ != "generationConfig"@,
        "contents"@ != "tools"@,
        "systemInstruction"@ != "generationConfig"@,
        "systemInstruction"@ != "tools"@,
        "generationConfig"@ != "tools"@,
{
    reveal_strlit("contents");
    reveal_strlit("systemInstruction");
    reveal_strlit("generationConfig");
    reveal_strlit("tools");
    assert("contents"@.len() != "systemInstruction"@.len());
    assert("contents"@.len() != "generationConfig"@.len());
    assert("contents"@.len() != "tools"@.len());
    assert("systemInstruction"@.len() != "generationConfig"@.len());
    assert("systemInstruction"@.len() != "tools"@.len());
    assert("generationConfig"@.len() != "tools"@.len());
}

/// The settings of a request are told apart.
proof fn settings_differ()
    ensures
        "maxOutputTokens"@ != "temperature"@,
        "maxOutputTokens"@ != "topP"@,
        "maxOutputTokens"@ != "responseMimeType"@,
        "maxOutputTokens"@ != "responseSchema"@,
        "maxOutputTokens"@ != "thinkingConfig"@,
        "temperature"@ != "topP"@,
        "temperature"@ != "responseMimeType"@,
        "temperature"@ != "responseSchema"@,
        "temperature"@ != "thinkingConfig"@,
        "topP"@ != "responseMimeType"@,
        "topP"@ != "responseSchema"@,
        "topP"@ != "thinkingConfig"@,
        "responseMimeType"@ != "responseSchema"@,
        "responseMimeType"@ != "thinkingConfig"@,
        "responseSchema"@ != "thinkingConfig"@,
{
    reveal_strlit("maxOutputTokens");
    reveal_strlit("temperature");
    reveal_strlit("topP");
    reveal_strlit("responseMimeType");
    reveal_strlit("responseSchema");
    reveal_strlit("thinkingConfig");
    assert("maxOutputTokens"@.len() != "temperature"@.len());
    assert("maxOutputTokens"@.len() != "topP"@.len());
    assert("maxOutputTokens"@.len() != "responseMimeType"@.len());
    assert("maxOutputTokens"@.len() != "responseSchema"@.len());
    assert("maxOutputTokens"@.len() != "thinkingConfig"@.len());
    assert("temperature"@.len() != "topP"@.len());
    assert("temperature"@.len() != "responseMimeType"@.len());
    assert("temperature"@.len() != "responseSchema"@.len());
    assert("temperature"@.len() != "thinkingConfig"@.len());
    assert("topP"@.len() != "responseMimeType"@.len());
    assert("topP"@.len() != "responseSchema"@.len());
    assert("topP"@.len() != "thinkingConfig"@.len());
    assert("responseMimeType"@.len() != "responseSchema"@.len());
    assert("responseMimeType"@.len() != "thinkingConfig"@.len());
    assert("responseSchema"@[0] != "thinkingConfig"@[0]);
}

/// The members of what a request holds are told apart.
proof fn parts_differ()
    ensures
        "text"@ != "thought"@,
        "text"@ != "functionCall"@,
        "text"@ != "functionResponse"@,
        "text"@ != "inlineData"@,
        "text"@ != "fileData"@,
        "text"@ != "mimeType"@,
        "text"@ != "data"@,
        "text"@ != "fileUri"@,
        "text"@ != "name"@,
        "text"@ != "args"@,
        "text"@ != "response"@,
        "text"@ != "role"@,
        "text"@ != "parts"@,
        "text"@ != "thinkingBudget"@,
        "text"@ != "includeThoughts"@,
        "text"@ != "description"@,
        "text"@ != "parameters"@,
        "thought"@ != "functionCall"@,
        "thought"@ != "functionResponse"@,
        "thought"@ != "inlineData"@,
        "thought"@ != "fileData"@,
        "thought"@ != "mimeType"@,
        "thought"@ != "data"@,
        "thought"@ != "fileUri"@,
        "thought"@ != "name"@,
        "thought"@ != "args"@,
        "thought"@ != "response"@,
        "thought"@ != "role"@,
        "thought"@ != "parts"@,
        "thought"@ != "thinkingBudget"@,
        "thought"@ != "includeThoughts"@,
        "thought"@ != "description"@,
        "thought"@ != "parameters"@,
        "functionCall"@ != "functionResponse"@,
        "functionCall"@ != "inlineData"@,
        "functionCall"@ != "fileData"@,
        "functionCall"@ != "mimeType"@,
        "functionCall"@ != "data"@,
        "functionCall"@ != "fileUri"@,
        "functionCall"@ != "name"@,
        "functionCall"@ != "args"@,
        "functionCall"@ != "response"@,
        "functionCall"@ != "role"@,
        "functionCall"@ != "parts"@,
        "functionCall"@ != "thinkingBudget"@,
        "functionCall"@ != "includeThoughts"@,
        "functionCall"@ != "description"@,
        "functionCall"@ != "parameters"@,
        "functionResponse"@ != "inlineData"@,
        "functionResponse"@ != "fileData"@,
        "functionResponse"@ != "mimeType"@,
        "functionResponse"@ != "data"@,
        "functionResponse"@ != "fileUri"@,
        "functionResponse"@ != "name"@,
        "functionResponse"@ != "args"@,
        "functionResponse"@ != "response"@,
        "functionResponse"@ != "role"@,
        "functionResponse"@ != "parts"@,
        "functionResponse"@ != "thinkingBudget"@,
        "functionResponse"@ != "includeThoughts"@,
        "functionResponse"@ != "description"@,
        "functionResponse"@ != "parameters"@,
        "inlineData"@ != "fileData"@,
        "inlineData"@ != "mimeType"@,
        "inlineData"@ != "data"@,
        "inlineData"@ != "fileUri"@,
        "inlineData"@ != "name"@,
        "inlineData"@ != "args"@,
        "inlineData"@ != "response"@,
        "inlineData"@ != "role"@,
        "inlineData"@ != "parts"@,
        "inlineData"@ != "thinkingBudget"@,
        "inlineData"@ != "includeThoughts"@,
        "inlineData"@ != "description"@,
        "inlineData"@ != "parameters"@,
        "fileData"@ != "mimeType"@,
        "fileData"@ != "data"@,
        "fileData"@ != "fileUri"@,
        "fileData"@ != "name"@,
        "fileData"@ != "args"@,
        "fileData"@ != "response"@,
        "fileData"@ != "role"@,
        "fileData"@ != "parts"@,
        "fileData"@ != "thinkingBudget"@,
        "fileData"@ != "includeThoughts"@,
        "fileData"@ != "description"@,
        "fileData"@ != "parameters"@,
        "mimeType"@ != "data"@,
        "mimeType"@ != "fileUri"@,
        "mimeType"@ != "name"@,
        "mimeType"@ != "args"@,
        "mimeType"@ != "response"@,
        "mimeType"@ != "role"@,
        "mimeType"@ != "parts"@,
        "mimeType"@ != "thinkingBudget"@,
        "mimeType"@ != "includeThoughts"@,
        "mimeType"@ != "description"@,
        "mimeType"@ != "parameters"@,
        "data"@ != "fileUri"@,
        "data"@ != "name"@,
        "data"@ != "args"@,
        "data"@ != "response"@,
        "data"@ != "role"@,
        "data"@ != "parts"@,
        "data"@ != "thinkingBudget"@,
        "data"@ != "includeThoughts"@,
        "data"@ != "description"@,
        "data"@ != "parameters"@,
        "fileUri"@ != "name"@,
        "fileUri"@ != "args"@,
        "fileUri"@ != "response"@,
        "fileUri"@ != "role"@,
        "fileUri"@ != "parts"@,
        "fileUri"@ != "thinkingBudget"@,
        "fileUri"@ != "includeThoughts"@,
        "fileUri"@ != "description"@,
        "fileUri"@ != "parameters"@,
        "name"@ != "args"@,
        "name"@ != "response"@,
        "name"@ != "role"@,
        "name"@ != "parts"@,
        "name"@ != "thinkingBudget"@,
        "name"@ != "includeThoughts"@,
        "name"@ != "description"@,
        "name"@ != "parameters"@,
        "args"@ != "response"@,
        "args"@ != "role"@,
        "args"@ != "parts"@,
        "args"@ != "thinkingBudget"@,
        "args"@ != "includeThoughts"@,
        "args"@ != "description"@,
        "args"@ != "parameters"@,
        "response"@ != "role"@,
        "response"@ != "parts"@,
        "response"@ != "thinkingBudget"@,
        "response"@ != "includeThoughts"@,
        "response"@ != "description"@,
        "response"@ != "parameters"@,
        "role"@ != "parts"@,
        "role"@ != "thinkingBudget"@,
        "role"@ != "includeThoughts"@,
        "role"@ != "description"@,
        "role"@ != "parameters"@,
        "parts"@ != "thinkingBudget"@,
        "parts"@ != "includeThoughts"@,
        "parts"@ != "description"@,
        "parts"@ != "parameters"@,
        "thinkingBudget"@ != "includeThoughts"@,
        "thinkingBudget"@ != "description"@,
        "thinkingBudget"@ != "parameters"@,
        "includeThoughts"@ != "description"@,
        "includeThoughts"@ != "parameters"@,
        "description"@ != "parameters"@,
{
    reveal_strlit("text");
    reveal_strlit("thought");
    reveal_strlit("functionCall");
    reveal_strlit("functionResponse");
    reveal_strlit("inlineData");
    reveal_strlit("fileData");
    reveal_strlit("mimeType");
    reveal_strlit("data");
    reveal_strlit("fileUri");
    reveal_strlit("name");
    reveal_strlit("args");
    reveal_strlit("response");
    reveal_strlit("role");
    reveal_strlit("parts");
    reveal_strlit("thinkingBudget");
    reveal_strlit("includeThoughts");
    reveal_strlit("description");
    reveal_strlit("parameters");
    assert("text"@.len() != "thought"@.len());
    assert("text"@.len() != "functionCall"@.len());
    assert("text"@.len() != "functionResponse"@.len());
    assert("text"@.len() != "inlineData"@.len());
    assert("text"@.len() != "fileData"@.len());
    assert("text"@.len() != "mimeType"@.len());
    assert("text"@[0] != "data"@[0]);
    assert("text"@.len() != "fileUri"@.len());
    assert("text"@[0] != "name"@[0]);
    assert("text"@[0] != "args"@[0]);
    assert("text"@.len() != "response"@.len());
    assert("text"@[0] != "role"@[0]);
    assert("text"@.len() != "parts"@.len());
    assert("text"@.len() != "thinkingBudget"@.len());
    assert("text"@.len() != "includeThoughts"@.len());
    assert("text"@.len() != "description"@.len());
    assert("text"@.len() != "parameters"@.len());
    assert("thought"@.len() != "functionCall"@.len());
    assert("thought"@.len() != "functionResponse"@.len());
    assert("thought"@.len() != "inlineData"@.len());
    assert("thought"@.len() != "fileData"@.len());
    assert("thought"@.len() != "mimeType"@.len());
    assert("thought"@.len() != "data"@.len());
    assert("thought"@[0] != "fileUri"@[0]);
    assert("thought"@.len() != "name"@.len());
    assert("thought"@.len() != "args"@.len());
    assert("thought"@.len() != "response"@.len());
    assert("thought"@.len() != "role"@.len());
    assert("thought"@.len() != "parts"@.len());
    assert("thought"@.len() != "thinkingBudget"@.len());
    assert("thought"@.len() != "includeThoughts"@.len());
    assert("thought"@.len() != "description"@.len());
    assert("thought"@.len() != "parameters"@.len());
    assert("functionCall"@.len() != "functionResponse"@.len());
    assert("functionCall"@.len() != "inlineData"@.len());
    assert("functionCall"@.len() != "fileData"@.len());
    assert("functionCall"@.len() != "mimeType"@.len());
    assert("functionCall"@.len() != "data"@.len());
    assert("functionCall"@.len() != "fileUri"@.len());
    assert("functionCall"@.len() != "name"@.len());
    assert("functionCall"@.len() != "args"@.len());
    assert("functionCall"@.len() != "response"@.len());
    assert("functionCall"@.len() != "role"@.len());
    assert("functionCall"@.len() != "parts"@.len());
    assert("functionCall"@.len() != "thinkingBudget"@.len());
    assert("functionCall"@.len() != "includeThoughts"@.len());
    assert("functionCall"@.len() != "description"@.len());
    assert("functionCall"@.len() != "parameters"@.len());
    assert("functionResponse"@.len() != "inlineData"@.len());
    assert("functionResponse"@.len() != "fileData"@.len());
    assert("functionResponse"@.len() != "mimeType"@.len());
    assert("functionResponse"@.len() != "data"@.len());
    assert("functionResponse"@.len() != "fileUri"@.len());
    assert("functionResponse"@.len() != "name"@.len());
    assert("functionResponse"@.len() != "args"@.len());
    assert("functionResponse"@.len() != "response"@.len());
    assert("functionResponse"@.len() != "role"@.len());
    assert("functionResponse"@.len() != "parts"@.len());
    assert("functionResponse"@.len() != "thinkingBudget"@.len());
    assert("functionResponse"@.len() != "includeThoughts"@.len());
    assert("functionResponse"@.len() != "description"@.len());
    assert("functionResponse"@.len() != "parameters"@.len());
    assert("inlineData"@.len() != "fileData"@.len());
    assert("inlineData"@.len() != "mimeType"@.len());
    assert("inlineData"@.len() != "data"@.len());
    assert("inlineData"@.len() != "fileUri"@.len());
    assert("inlineData"@.len() != "name"@.len());
    assert("inlineData"@.len() != "args"@.len());
    assert("inlineData"@.len() != "response"@.len());
    assert("inlineData"@.len() != "role"@.len());
    assert("inlineData"@.len() != "parts"@.len());
    assert("inlineData"@.len() != "thinkingBudget"@.len());
    assert("inlineData"@.len() != "includeThoughts"@.len());
    assert("inlineData"@.len() != "description"@.len());
    assert("inlineData"@[0] != "parameters"@[0]);
    assert("fileData"@[0] != "mimeType"@[0]);
    assert("fileData"@.len() != "data"@.len());
    assert("fileData"@.len() != "fileUri"@.len());
    assert("fileData"@.len() != "name"@.len());
    assert("fileData"@.len() != "args"@.len());
    assert("fileData"@[0] != "response"@[0]);
    assert("fileData"@.len() != "role"@.len());
    assert("fileData"@.len() != "parts"@.len());
    assert("fileData"@.len() != "thinkingBudget"@.len());
    assert("fileData"@.len() != "includeThoughts"@.len());
    assert("fileData"@.len() != "description"@.len());
    assert("fileData"@.len() != "parameters"@.len());
    assert("mimeType"@.len() != "data"@.len());
    assert("mimeType"@.len() != "fileUri"@.len());
    assert("mimeType"@.len() != "name"@.len());
    assert("mimeType"@.len() != "args"@.len());
    assert("mimeType"@[0] != "response"@[0]);
    assert("mimeType"@.len() != "role"@.len());
    assert("mimeType"@.len() != "parts"@.len());
    assert("mimeType"@.len() != "thinkingBudget"@.len());
    assert("mimeType"@.len() != "includeThoughts"@.len());
    assert("mimeType"@.len() != "description"@.len());
    assert("mimeType"@.len() != "parameters"@.len());
    assert("data"@.len() != "fileUri"@.len());
    assert("data"@[0] != "name"@[0]);
    assert("data"@[0] != "args"@[0]);
    assert("data"@.len() != "response"@.len());
    assert("data"@[0] != "role"@[0]);
    assert("data"@.len() != "parts"@.len());
    assert("data"@.len() != "thinkingBudget"@.len());
    assert("data"@.len() != "includeThoughts"@.len());
    assert("data"@.len() != "description"@.len());
    assert("data"@.len() != "parameters"@.len());
    assert("fileUri"@.len() != "name"@.len());
    assert("fileUri"@.len() != "args"@.len());
    assert("fileUri"@.len() != "response"@.len());
    assert("fileUri"@.len() != "role"@.len());
    assert("fileUri"@.len() != "parts"@.len());
    assert("fileUri"@.len() != "thinkingBudget"@.len());
    assert("fileUri"@.len() != "includeThoughts"@.len());
    assert("fileUri"@.len() != "description"@.len());
    assert("fileUri"@.len() != "parameters"@.len());
    assert("name"@[0] != "args"@[0]);
    assert("name"@.len() != "response"@.len());
    assert("name"@[0] != "role"@[0]);
    assert("name"@.len() != "parts"@.len());
    assert("name"@.len() != "thinkingBudget"@.len());
    assert("name"@.len() != "includeThoughts"@.len());
    assert("name"@.len() != "description"@.len());
    assert("name"@.len() != "parameters"@.len());
    assert("args"@.len() != "response"@.len());
    assert("args"@[0] != "role"@[0]);
    assert("args"@.len() != "parts"@.len());
    assert("args"@.len() != "thinkingBudget"@.len());
    assert("args"@.len() != "includeThoughts"@.len());
    assert("args"@.len() != "description"@.len());
    assert("args"@.len() != "parameters"@.len());
    assert("response"@.len() != "role"@.len());
    assert("response"@.len() != "parts"@.len());
    assert("response"@.len() != "thinkingBudget"@.len());
    assert("response"@.len() != "includeThoughts"@.len());
    assert("response"@.len() != "description"@.len());
    assert("response"@.len() != "parameters"@.len());
    assert("role"@.len() != "parts"@.len());
    assert("role"@.len() != "thinkingBudget"@.len());
    assert("role"@.len() != "includeThoughts"@.len());
    assert("role"@.len() != "description"@.len());
    assert("role"@.len() != "parameters"@.len());
    assert("parts"@.len() != "thinkingBudget"@.len());
    assert("parts"@.len() != "includeThoughts"@.len());
    assert("parts"@.len() != "description"@.len());
    assert("parts"@.len() != "parameters"@.len());
    assert("thinkingBudget"@.len() != "includeThoughts"@.len());
    assert("thinkingBudget"@.len() != "description"@.len());
    assert("thinkingBudget"@.len() != "parameters"@.len());
    assert("includeThoughts"@.len() != "description"@.len());
    assert("includeThoughts"@.len() != "parameters"@.len());
    assert("description"@.len() != "parameters"@.len());
}

/// The words for why a model stopped are told apart.
proof fn words_differ()
    ensures
        "STOP"@ != "MAX_TOKENS"@,
        "STOP"@ != "SAFETY"@,
        "STOP"@ != "PROHIBITED_CONTENT"@,
        "STOP"@ != "BLOCKLIST"@,
        "STOP"@ != "RECITATION"@,
        "MAX_TOKENS"@ != "SAFETY"@,
        "MAX_TOKENS"@ != "PROHIBITED_CONTENT"@,
        "MAX_TOKENS"@ != "BLOCKLIST"@,
        "MAX_TOKENS"@ != "RECITATION"@,
        "SAFETY"@ != "PROHIBITED_CONTENT"@,
        "SAFETY"@ != "BLOCKLIST"@,
        "SAFETY"@ != "RECITATION"@,
        "PROHIBITED_CONTENT"@ != "BLOCKLIST"@,
        "PROHIBITED_CONTENT"@ != "RECITATION"@,
        "BLOCKLIST"@ != "RECITATION"@,
{
    reveal_strlit("STOP");
    reveal_strlit("MAX_TOKENS");
    reveal_strlit("SAFETY");
    reveal_strlit("PROHIBITED_CONTENT");
    reveal_strlit("BLOCKLIST");
    reveal_strlit("RECITATION");
    assert("STOP"@.len() != "MAX_TOKENS"@.len());
    assert("STOP"@.len() != "SAFETY"@.len());
    assert("STOP"@.len() != "PROHIBITED_CONTENT"@.len());
    assert("STOP"@.len() != "BLOCKLIST"@.len());
    assert("STOP"@.len() != "RECITATION"@.len());
    assert("MAX_TOKENS"@.len() != "SAFETY"@.len());
    assert("MAX_TOKENS"@.len() != "PROHIBITED_CONTENT"@.len());
    assert("MAX_TOKENS"@.len() != "BLOCKLIST"@.len());
    assert("MAX_TOKENS"@[0] != "RECITATION"@[0]);
    assert("SAFETY"@.len() != "PROHIBITED_CONTENT"@.len());
    assert("SAFETY"@.len() != "BLOCKLIST"@.len());
    assert("SAFETY"@.len() != "RECITATION"@.len());
    assert("PROHIBITED_CONTENT"@.len() != "BLOCKLIST"@.len());
    assert("PROHIBITED_CONTENT"@.len() != "RECITATION"@.len());
    assert("BLOCKLIST"@.len() != "RECITATION"@.len());
}

/// The settings of a request stand on the wire one by one, each under its own name as it was
/// written, and a setting that was not made is left out.
pub proof fn settings_are_written_one_by_one(request: Asked)
    ensures
        generation_tree(request).get("maxOutputTokens"@) == (match request.generation.max_tokens {
            Some(max) => Some(Tree::Integer(max as int)),
            None => None,
        }),
        generation_tree(request).get("temperature"@) == (match request.generation.temperature {
            Some(temperature) => Some(Tree::Float(temperature)),
            None => None,
        }),
        generation_tree(request).get("topP"@) == (match request.generation.top_p {
            Some(top_p) => Some(Tree::Float(top_p)),
            None => None,
        }),
        generation_tree(request).get("responseSchema"@) == request.response_schema,
        generation_tree(request).text_at("responseMimeType"@) == (match request.response_schema {
            Some(_) => Some("application/json"@),
            None => None,
        }),
        request.thinking is Unset <==> generation_tree(request).get("thinkingConfig"@) is None,
{
    settings_differ();
}

/// Reasoning that is asked for gets a budget that grows with the effort and is shown, and
/// reasoning that is switched off gets none.
pub proof fn more_effort_gets_no_smaller_budget(request: Asked)
    requires
        !(request.thinking is Unset),
    ensures
        ({
            let config = generation_tree(request).get("thinkingConfig"@);
            &&& config is Some
            &&& config->0.get("thinkingBudget"@) == Some(
                Tree::Integer(
                    match request.thinking {
                        Thinking::On(Effort::Low) => 2_048,
                        Thinking::On(Effort::Medium) => 8_192,
                        Thinking::On(Effort::High) => 24_576,
                        Thinking::On(_) => 32_768,
                        _ => 0,
                    },
                ),
            )
            &&& request.thinking is On ==> config->0.get("includeThoughts"@) == Some(
                Tree::Bool(true),
            )
        }),
{
    settings_differ();
    parts_differ();
}

/// A request holds its settings where it has some, its instructions and its tools, each under its
/// own name, and the streamed one is the same.
pub proof fn a_request_is_written_part_by_part(protocol: GenerateContent, request: Asked)
    ensures
        protocol.body_of(request) == Ok::<Tree, Failure>(request_tree(request)),
        protocol.stream_body_of(request) == Ok::<Option<Tree>, Failure>(
            Some(request_tree(request)),
        ),
        request_tree(request).get("generationConfig"@) == (if generation_tree(request)
            == Tree::empty_object() {
            None
        } else {
            Some(generation_tree(request))
        }),
        request.system is None ==> request_tree(request).get("systemInstruction"@) is None,
        request.system is Some ==> ({
            let written = request_tree(request).get("systemInstruction"@);
            &&& written is Some
            &&& written->0.array_at("parts"@) is Some
            &&& written->0.array_at("parts"@)->0.len() == 1
            &&& written->0.array_at("parts"@)->0[0].text_at("text"@) == request.system
        }),
        request.tools.len() == 0 ==> request_tree(request).get("tools"@) is None,
{
    members_differ();
}

/// Each tool stands on the wire in its place, with its own name, description and parameters.
pub proof fn each_tool_is_written_as_it_is(request: Asked, i: int)
    requires
        0 <= i < request.tools.len(),
    ensures
        ({
            let groups = request_tree(request).array_at("tools"@);
            let written = groups->0[0].array_at("functionDeclarations"@);
            &&& groups is Some
            &&& groups->0.len() == 1
            &&& written is Some
            &&& written->0.len() == request.tools.len()
            &&& written->0[i].text_at("name"@) == Some(request.tools[i].name)
            &&& written->0[i].text_at("description"@) == Some(request.tools[i].description)
            &&& written->0[i].get("parameters"@) == Some(request.tools[i].parameters)
        }),
{
    members_differ();
    parts_differ();
}

/// Each turn stands on the wire in its place, by whoever said it, with its blocks in their order.
pub proof fn each_turn_is_written_in_its_place(request: Asked, i: int)
    requires
        0 <= i < request.messages.len(),
    ensures
        ({
            let written = request_tree(request).array_at("contents"@);
            &&& written is Some
            &&& written->0.len() == request.messages.len()
            &&& written->0[i].text_at("role"@) == Some(
                if request.messages[i].role is User {
                    "user"@
                } else {
                    "model"@
                },
            )
            &&& written->0[i].array_at("parts"@) == Some(
                wire_parts_of(request.messages[i].content),
            )
        }),
{
    members_differ();
    parts_differ();
}

/// A block that a turn ends with is the last part written of the turn, by its kind and with what
/// it holds, and what another protocol keeps verbatim is left out.
pub proof fn a_block_is_written_by_its_kind(blocks: Seq<Block>, block: Block)
    ensures
        wire_parts_of(Seq::<Block>::empty()).len() == 0,
        block is Opaque ==> wire_parts_of(blocks.push(block)) == wire_parts_of(blocks),
        !(block is Opaque) ==> ({
            let parts = wire_parts_of(blocks.push(block));
            let part = parts.last();
            &&& parts.len() > 0
            &&& parts.drop_last() == wire_parts_of(blocks)
            &&& match block {
                Block::Text(text) => part.text_at("text"@) == Some(text) && part.get("thought"@)
                    is None,
                Block::Thinking { text, .. } => part.text_at("text"@) == Some(text) && part.get(
                    "thought"@,
                ) == Some(Tree::Bool(true)),
                Block::ToolUse { name, input, .. } => part.get("functionCall"@) is Some
                    && part.get("functionCall"@)->0.text_at("name"@) == Some(name) && part.get(
                    "functionCall"@,
                )->0.get("args"@) == Some(input),
                Block::ToolResult { tool_use_id, content, is_error } => part.get(
                    "functionResponse"@,
                ) is Some && part.get("functionResponse"@)->0.text_at("name"@) == Some(tool_use_id)
                    && part.get("functionResponse"@)->0.get("response"@) is Some && part.get(
                    "functionResponse"@,
                )->0.get("response"@)->0.text_at(
                    if is_error {
                        "error"@
                    } else {
                        "result"@
                    },
                ) == Some(content),
                Block::Image { media_type, source: Source::Bytes(bytes) } => part.get("inlineData"@)
                    is Some && part.get("inlineData"@)->0.text_at("mimeType"@) == Some(media_type)
                    && part.get("inlineData"@)->0.text_at("data"@) == Some(base64_text(bytes)),
                Block::Image { media_type, source: Source::Url(url) } => part.get("fileData"@)
                    is Some && part.get("fileData"@)->0.text_at("mimeType"@) == Some(media_type)
                    && part.get("fileData"@)->0.text_at("fileUri"@) == Some(url),
                Block::Opaque { .. } => true,
            }
        }),
{
    parts_differ();
    assert(blocks.push(block).drop_last() == blocks);
    if !(block is Opaque) {
        assert(wire_parts_of(blocks.push(block)).drop_last() == wire_parts_of(blocks));
    }
}

/// Text, reasoning and calls that were written are read back as they were, but for the proof that
/// another protocol gives its reasoning and the id of a call, for which its name stands.
pub proof fn a_written_part_reads_back(text: Seq<char>, name: Seq<char>, input: Tree)
    requires
        text.len() > 0,
    ensures
        part_in(wire_part_of(Block::Text(text))->0) == Some(Block::Text(text)),
        part_in(wire_part_of(Block::Thinking { text, signature: None })->0) == Some(
            Block::Thinking { text, signature: None },
        ),
        part_in(wire_part_of(Block::ToolUse { id: name, name, input })->0) == Some(
            Block::ToolUse { id: name, name, input },
        ),
{
    parts_differ();
    reveal_strlit("id");
    reveal_strlit("name");
    reveal_strlit("args");
    assert("id"@.len() != "name"@.len() && "id"@.len() != "args"@.len());
}

/// What a word for why the model stopped means, in a whole reply and in a streamed one.
pub proof fn a_stop_reason_means_what_its_word_says(
    body: Tree,
    asked_for: Seq<char>,
    word: Seq<char>,
    reason: StopReason,
)
    requires
        body.array_at("candidates"@) is Some,
        body.array_at("candidates"@)->0.len() > 0,
        body.array_at("candidates"@)->0[0].text_at("finishReason"@) == Some(word),
        (word == "STOP"@ && reason is EndTurn) || (word == "MAX_TOKENS"@ && reason is MaxTokens) || (word == "SAFETY"@ && reason is Refusal) || (word == "PROHIBITED_CONTENT"@ && reason is Refusal) || (word == "BLOCKLIST"@ && reason is Refusal) || (word == "RECITATION"@ && reason is Refusal) || (reason is Other && word != "STOP"@ && word != "MAX_TOKENS"@ && word != "SAFETY"@ && word != "PROHIBITED_CONTENT"@ && word != "BLOCKLIST"@ && word != "RECITATION"@),
    ensures
        reply_of(body, asked_for) is Ok ==> reply_of(body, asked_for)->Ok_0.stop_reason == reason,
        frame_events(body).contains(Happening::Stopped { reason, details: None }),
{
    words_differ();
    let candidate = body.array_at("candidates"@)->0[0];
    let started = match body.text_at("modelVersion"@) {
        Some(model) => seq![Happening::Started { model }],
        None => Seq::empty(),
    };
    let before = started + parts_events(parts_of(candidate));
    let stop = seq![Happening::Stopped { reason, details: None }];
    assert(frame_events(body) == before + stop + metered(usage_in(body.get("usageMetadata"@))));
    assert(frame_events(body)[before.len() as int] == stop[0]);
}

/// A reply is complete only where the model said that it had finished.
pub proof fn only_a_finished_reply_is_complete(body: Tree, asked_for: Seq<char>)
    requires
        reply_of(body, asked_for) is Ok,
    ensures
        ({
            let reason = reply_of(body, asked_for)->Ok_0.stop_reason;
            reason is EndTurn || reason is ToolUse || reason is StopSequence <==> body.array_at(
                "candidates"@,
            )->0[0].text_at("finishReason"@) == Some("STOP"@)
        }),
{
    words_differ();
}

/// The tokens of the prompt that came from the cache and the others are together what was
/// reported of the prompt, and what was thought counts with what was answered.
pub proof fn the_tokens_are_those_reported(body: Tree, usage: Tree)
    requires
        body.get("usageMetadata"@) == Some(usage),
    ensures
        ({
            let used = usage_in(body.get("usageMetadata"@));
            let cached = usage.u64_at("cachedContentTokenCount"@);
            let prompt = usage.u64_at("promptTokenCount"@);
            let answered = usage.u64_at("candidatesTokenCount"@);
            let thought = usage.u64_at("thoughtsTokenCount"@);
            &&& used.cache_read_tokens == cached
            &&& used.cache_write_tokens is None
            &&& !used.estimated
            &&& used.input_tokens is Some <==> prompt is Some
            &&& cached is None ==> used.input_tokens == prompt
            &&& (prompt is Some && cached is Some && cached->0 <= prompt->0)
                ==> used.input_tokens->0 + cached->0 == prompt->0
            &&& (prompt is Some && cached is Some && cached->0 > prompt->0)
                ==> used.input_tokens->0 == 0
            &&& thought is None ==> used.output_tokens == answered
            &&& answered is None ==> used.output_tokens == thought
            &&& (answered is Some && thought is Some && answered->0 + thought->0 <= u64::MAX)
                ==> used.output_tokens is Some && used.output_tokens->0 == answered->0 + thought->0
        }),
{
}

/// A reply holds the parts of its first candidate in their order, each read by its kind.
pub proof fn a_reply_is_read_part_by_part(parts: Seq<Tree>, part: Tree)
    ensures
        parts_in(Seq::<Tree>::empty()).len() == 0,
        part_in(part) is None ==> parts_in(parts.push(part)) == parts_in(parts),
        part_in(part) is Some ==> parts_in(parts.push(part)) == parts_in(parts).push(
            part_in(part)->0,
        ),
        (part.get("functionCall"@) is None && part.text_at("text"@) is Some && part.text_at(
            "text"@,
        )->0.len() > 0) ==> part_in(part) == Some(
            if part.get("thought"@) == Some(Tree::Bool(true)) {
                Block::Thinking { text: part.text_at("text"@)->0, signature: None }
            } else {
                Block::Text(part.text_at("text"@)->0)
            },
        ),
        (part.get("functionCall"@) is Some && part.get("functionCall"@)->0.text_at("name"@)
            is Some) ==> ({
            let call = part.get("functionCall"@)->0;
            let block = part_in(part);
            &&& block is Some
            &&& block->0 is ToolUse
            &&& block->0->ToolUse_name == call.text_at("name"@)->0
            &&& block->0->ToolUse_id == (if call.text_at("id"@) is Some {
                call.text_at("id"@)->0
            } else {
                call.text_at("name"@)->0
            })
            &&& call.get("args"@) is Some ==> block->0->ToolUse_input == call.get("args"@)->0
            &&& call.get("args"@) is None ==> block->0->ToolUse_input == Tree::empty_object()
        }),
{
    assert(parts.push(part).drop_last() == parts);
}

/// A reply that can be read is the model's, with what its document gives.
pub proof fn a_reply_is_what_its_document_gives(body: Tree, asked_for: Seq<char>)
    requires
        reply_of(body, asked_for) is Ok,
    ensures
        ({
            let reply = reply_of(body, asked_for)->Ok_0;
            let content = body.array_at("candidates"@)->0[0].get("content"@);
            &&& reply.message.role is Assistant
            &&& (content is Some && content->0.array_at("parts"@) is Some)
                ==> reply.message.content == parts_in(content->0.array_at("parts"@)->0)
            &&& body.text_at("modelVersion"@) is Some ==> reply.model == body.text_at(
                "modelVersion"@,
            )->0
            &&& body.text_at("modelVersion"@) is None ==> reply.model == asked_for
            &&& reply.usage == usage_in(body.get("usageMetadata"@))
        }),
{
}

/// The list of models gives their names without the word in front of them.
pub proof fn models_are_listed_by_their_own_names(name: Seq<char>)
    ensures
        short_name("models/"@ + name) == name,
        name.len() < 7 ==> short_name(name) == name,
{
    reveal_strlit("models/");
    assert(("models/"@ + name).take(7) == "models/"@);
    assert(("models/"@ + name).skip(7) == name);
}

/// Where requests go, and that they carry the key.
pub proof fn requests_go_where_the_protocol_says(
    protocol: GenerateContent,
    base_url: Seq<char>,
    model: Seq<char>,
    key: Credential,
)
    ensures
        protocol.chat_address(base_url, model) == base_url + "/models/"@ + model
            + ":generateContent"@,
        protocol.stream_address(base_url, model) == base_url + "/models/"@ + model
            + ":streamGenerateContent?alt=sse"@,
        protocol.catalogue_address(base_url) == Some(base_url + "/models"@),
        protocol.header_list(key) is Ok <==> valid_utf8(key.bytes),
        valid_utf8(key.bytes) ==> protocol.header_list(key)->Ok_0.contains(
            ("x-goog-api-key"@, decode_utf8(key.bytes)),
        ) && protocol.header_list(key)->Ok_0.contains(("content-type"@, "application/json"@)),
{
    if valid_utf8(key.bytes) {
        let headers = protocol.header_list(key)->Ok_0;
        assert(headers[0] == ("x-goog-api-key"@, decode_utf8(key.bytes)));
        assert(headers[1] == ("content-type"@, "application/json"@));
    }
}

/// A document is a reply exactly where its first candidate has parts that can be read; any other
/// cannot be read, and is never an empty answer.
pub proof fn a_reply_without_content_cannot_be_read(body: Tree, asked_for: Seq<char>)
    ensures
        reply_of(body, asked_for) is Err ==> reply_of(body, asked_for)->Err_0 is Unreadable,
        reply_of(body, asked_for) is Ok ==> reply_of(body, asked_for)->Ok_0.message.content.len()
            > 0,
        body.array_at("candidates"@) is None || body.array_at("candidates"@)->0.len() == 0
            ==> reply_of(body, asked_for) is Err,
{
}

/// A frame that is no document cannot be read.
pub proof fn a_frame_is_a_document(protocol: GenerateContent, frame: Frame)
    ensures
        frame.json() is Some ==> protocol.events_in(frame) == Ok::<Seq<Happening>, Failure>(
            frame_events(frame.json()->0),
        ),
        frame.json() is None ==> protocol.events_in(frame) is Err && protocol.events_in(
            frame,
        )->Err_0 is Unreadable,
{
}

/// A frame says what its parts are: text, reasoning, or a call with all its arguments; and which
/// model answers and what it used, where it says so.
pub proof fn a_frame_says_what_it_adds(parts: Seq<Tree>, part: Tree, frame: Tree)
    ensures
        parts_events(Seq::<Tree>::empty()).len() == 0,
        part_in(part) is None ==> parts_events(parts.push(part)) == parts_events(parts),
        (part_in(part) is Some && part_in(part)->0 is Text) ==> parts_events(parts.push(part))
            == parts_events(parts).push(Happening::TextDelta(part_in(part)->0->Text_0)),
        (part_in(part) is Some && part_in(part)->0 is ToolUse) ==> parts_events(parts.push(part))
            == parts_events(parts).push(
            Happening::ToolUseStarted {
                id: part_in(part)->0->ToolUse_id,
                name: part_in(part)->0->ToolUse_name,
            },
        ).push(Happening::ToolArgumentsDelta(json_text(part_in(part)->0->ToolUse_input))),
        frame.text_at("modelVersion"@) is Some ==> frame_events(frame).len() > 0 && frame_events(
            frame,
        )[0] == (Happening::Started { model: frame.text_at("modelVersion"@)->0 }),
        metered(usage_in(frame.get("usageMetadata"@))).len() > 0 ==> frame_events(frame).len() > 0
            && frame_events(frame).last() == Happening::Metered(
            usage_in(frame.get("usageMetadata"@)),
        ),
{
    assert(parts.push(part).drop_last() == parts);
    assert(parts_events(parts) + Seq::<Happening>::empty() == parts_events(parts));
}

/// The list of models is read under its own name, each model by its short name.
pub proof fn the_list_of_models_is_read_in_order(body: Tree, i: int)
    ensures
        models_in(body) is Ok <==> body.array_at("models"@) is Some,
        models_in(body) is Err ==> models_in(body)->Err_0 is Unreadable,
        models_in(body) is Ok ==> models_in(body)->Ok_0.len() == ids_in(
            body.array_at("models"@)->0,
            "name"@,
        ).len(),
        (models_in(body) is Ok && 0 <= i < models_in(body)->Ok_0.len()) ==> models_in(body)->Ok_0[i]
            == short_name(ids_in(body.array_at("models"@)->0, "name"@)[i]),
{
}

/// What is said of a reply or a list of models that cannot be read.
pub proof fn what_cannot_be_read_is_said_so(body: Tree, asked_for: Seq<char>)
    ensures
        body.array_at("candidates"@) is None ==> reply_of(body, asked_for) == Err::<Reply, Failure>(
            Failure::Unreadable("the reply carried no candidates"@),
        ),
        (body.array_at("candidates"@) is Some && body.array_at("candidates"@)->0.len() > 0
            && reply_of(body, asked_for) is Err) ==> reply_of(body, asked_for)->Err_0
            == Failure::Unreadable("the reply carried no content this crate could read"@),
        body.array_at("models"@) is None ==> models_in(body) == Err::<Seq<Seq<char>>, Failure>(
            Failure::Unreadable("the model list had no models array"@),
        ),
{
}

} // verus!
