//! What goes into a conversation and what comes back.

use crate::json::{Json, Tree};
use crate::text::{join, joined};
use vstd::prelude::*;

verus! {

/// Who said something.
#[derive(Debug, Clone, Copy, PartialEq, Eq, Structural)]
pub enum Role {
    /// You, or your user.
    User,
    /// The model.
    Assistant,
}

/// Where the bytes of an image are.
#[derive(Debug, Clone, PartialEq, Eq)]
pub enum ImageSource {
    /// The image itself.
    Bytes(Vec<u8>),
    /// An address the provider fetches it from.
    Url(String),
}

/// One piece of a message.
///
/// A message is a list of these rather than a string, because a model's turn can contain
/// reasoning, text and tool calls at once, and flattening them into one string loses which
/// was which.
#[derive(Debug, PartialEq)]
pub enum ContentBlock {
    /// Ordinary text.
    Text(String),
    /// Reasoning the model did before answering.
    ///
    /// The text may be empty when the provider chooses not to show it. That is not an
    /// error, and the block still matters.
    ///
    /// The signature is the provider's proof that it produced this block. Hand it back
    /// unchanged when you continue the conversation. A thinking block replayed without its
    /// signature is rejected on arrival, and one dropped from the history changes the turn
    /// the model sees.
    Thinking {
        /// The reasoning, when the provider shows it.
        text: String,
        /// The provider's proof it produced this. Pass it back untouched.
        signature: Option<String>,
    },
    /// The model asking for a tool to be run.
    ToolUse {
        /// The provider's identifier for this call. Your result must quote it back.
        id: String,
        /// Which tool.
        name: String,
        /// The arguments, as the model produced them.
        input: Json,
    },
    /// A block this crate does not model.
    ///
    /// A redacted reasoning blob, a server side tool result, something a vendor added after
    /// this code was written. Kept **verbatim** so a turn can be replayed to the provider
    /// that produced it without loss.
    ///
    /// This is not an answer and must never be read as one.
    Opaque {
        /// The provider's own name for this kind of block.
        kind: String,
        /// Exactly what arrived.
        raw: Json,
    },
    /// Your answer to a [`ContentBlock::ToolUse`].
    ToolResult {
        /// The id from the call this answers.
        tool_use_id: String,
        /// What the tool produced.
        content: String,
        /// Whether the tool failed. A failure the model is told about is one it can work
        /// around; a failure hidden in the content reads as data.
        is_error: bool,
    },
    /// A picture.
    Image {
        /// What kind of image this is, as the sender says.
        media_type: String,
        /// Where its bytes are.
        source: ImageSource,
    },
}

/// What an [`ImageSource`] holds.
#[verifier::ext_equal]
pub enum Source {
    Bytes(Seq<u8>),
    Url(Seq<char>),
}

/// What a [`ContentBlock`] holds.
#[verifier::ext_equal]
pub enum Block {
    Text(Seq<char>),
    Thinking { text: Seq<char>, signature: Option<Seq<char>> },
    ToolUse { id: Seq<char>, name: Seq<char>, input: Tree },
    Opaque { kind: Seq<char>, raw: Tree },
    ToolResult { tool_use_id: Seq<char>, content: Seq<char>, is_error: bool },
    Image { media_type: Seq<char>, source: Source },
}

/// What a [`Message`] holds.
#[verifier::ext_equal]
pub struct Turn {
    pub role: Role,
    pub content: Seq<Block>,
}

impl DeepView for ImageSource {
    type V = Source;

    open spec fn deep_view(&self) -> Source {
        match *self {
            ImageSource::Bytes(bytes) => Source::Bytes(bytes@),
            ImageSource::Url(url) => Source::Url(url@),
        }
    }
}

impl DeepView for ContentBlock {
    type V = Block;

    open spec fn deep_view(&self) -> Block {
        match *self {
            ContentBlock::Text(text) => Block::Text(text@),
            ContentBlock::Thinking { text, signature } => Block::Thinking {
                text: text@,
                signature: signature.deep_view(),
            },
            ContentBlock::ToolUse { id, name, input } => Block::ToolUse {
                id: id@,
                name: name@,
                input: input.tree(),
            },
            ContentBlock::Opaque { kind, raw } => Block::Opaque { kind: kind@, raw: raw.tree() },
            ContentBlock::ToolResult { tool_use_id, content, is_error } => Block::ToolResult {
                tool_use_id: tool_use_id@,
                content: content@,
                is_error,
            },
            ContentBlock::Image { media_type, source } => Block::Image {
                media_type: media_type@,
                source: source.deep_view(),
            },
        }
    }
}

impl DeepView for Message {
    type V = Turn;

    open spec fn deep_view(&self) -> Turn {
        Turn { role: self.role, content: self.content.deep_view() }
    }
}

impl Block {
    /// The text that may be read as the answer.
    pub open spec fn answer_text(self) -> Option<Seq<char>> {
        match self {
            Block::Text(text) => Some(text),
            _ => None,
        }
    }

    /// The reasoning in this block.
    pub open spec fn reasoning(self) -> Option<Seq<char>> {
        match self {
            Block::Thinking { text, .. } => Some(text),
            _ => None,
        }
    }
}

/// The answer texts of some blocks, in order.
pub open spec fn answers(blocks: Seq<Block>) -> Seq<Seq<char>>
    decreases blocks.len(),
{
    if blocks.len() == 0 {
        Seq::empty()
    } else {
        match blocks.last().answer_text() {
            Some(text) => answers(blocks.drop_last()).push(text),
            None => answers(blocks.drop_last()),
        }
    }
}

/// The tool calls among some blocks, in order.
pub open spec fn calls(blocks: Seq<Block>) -> Seq<Block> {
    blocks.filter(|block: Block| block is ToolUse)
}

impl Turn {
    /// Every text block joined with newlines.
    pub open spec fn text(self) -> Seq<char> {
        joined(answers(self.content), "\n"@)
    }
}

impl ImageSource {
    /// The same source.
    pub fn copied(&self) -> (copy: ImageSource)
        ensures
            copy.deep_view() == self.deep_view(),
    {
        match self {
            ImageSource::Bytes(bytes) => ImageSource::Bytes(bytes.clone()),
            ImageSource::Url(url) => ImageSource::Url(url.clone()),
        }
    }
}

impl Clone for ContentBlock {
    fn clone(&self) -> (copy: ContentBlock)
        ensures
            copy.deep_view() == self.deep_view(),
    {
        match self {
            ContentBlock::Text(text) => ContentBlock::Text(text.clone()),
            ContentBlock::Thinking { text, signature } => ContentBlock::Thinking {
                text: text.clone(),
                signature: signature.clone(),
            },
            ContentBlock::ToolUse { id, name, input } => ContentBlock::ToolUse {
                id: id.clone(),
                name: name.clone(),
                input: input.clone(),
            },
            ContentBlock::Opaque { kind, raw } => ContentBlock::Opaque {
                kind: kind.clone(),
                raw: raw.clone(),
            },
            ContentBlock::ToolResult { tool_use_id, content, is_error } => ContentBlock::ToolResult {
                tool_use_id: tool_use_id.clone(),
                content: content.clone(),
                is_error: *is_error,
            },
            ContentBlock::Image { media_type, source } => ContentBlock::Image {
                media_type: media_type.clone(),
                source: source.copied(),
            },
        }
    }
}

impl ContentBlock {
    /// The text a caller may read as the answer.
    ///
    /// `None` for everything else. Reasoning and opaque blocks are not answers however
    /// much they look like prose, and a single `text()` that returned both is a method
    /// somebody uses to fill a screen with the model's private working out.
    pub fn answer_text(&self) -> (text: Option<&str>)
        ensures
            text.deep_view() == self.deep_view().answer_text(),
    {
        match self {
            ContentBlock::Text(text) => Some(text.as_str()),
            _ => None,
        }
    }

    /// The reasoning in this block, when it is a thinking block.
    ///
    /// Separate from [`ContentBlock::answer_text`] on purpose. Asking for reasoning is a
    /// deliberate act, and it should read like one at the call site.
    pub fn reasoning(&self) -> (text: Option<&str>)
        ensures
            text.deep_view() == self.deep_view().reasoning(),
    {
        match self {
            ContentBlock::Thinking { text, .. } => Some(text.as_str()),
            _ => None,
        }
    }
}

/// One turn in a conversation.
#[derive(Debug, PartialEq)]
pub struct Message {
    /// Who is speaking.
    pub role: Role,
    /// What they said, in order.
    pub content: Vec<ContentBlock>,
}

/// Copies of some blocks, in order.
pub fn copied_blocks(blocks: &Vec<ContentBlock>) -> (copies: Vec<ContentBlock>)
    ensures
        copies.deep_view() == blocks.deep_view(),
{
    let mut copies: Vec<ContentBlock> = Vec::new();
    let mut i: usize = 0;
    while i < blocks.len()
        invariant
            i <= blocks.len(),
            copies.deep_view() == blocks.deep_view().take(i as int),
        decreases blocks.len() - i,
    {
        let ghost before = copies.deep_view();
        copies.push(blocks[i].clone());
        assert(copies.deep_view() == before.push(blocks[i as int].deep_view()));
        i += 1;
    }
    copies
}

impl Clone for Message {
    fn clone(&self) -> (copy: Message)
        ensures
            copy.deep_view() == self.deep_view(),
    {
        Message { role: self.role, content: copied_blocks(&self.content) }
    }
}

impl Message {
    /// A user turn containing one piece of text.
    pub fn user(text: &str) -> (message: Message)
        ensures
            message.deep_view() == (Turn { role: Role::User, content: seq![Block::Text(text@)] }),
    {
        let mut content: Vec<ContentBlock> = Vec::new();
        content.push(ContentBlock::Text(text.to_owned()));
        assert(content.deep_view() == seq![Block::Text(text@)]);
        Message { role: Role::User, content }
    }

    /// An assistant turn containing one piece of text.
    pub fn assistant(text: &str) -> (message: Message)
        ensures
            message.deep_view() == (Turn {
                role: Role::Assistant,
                content: seq![Block::Text(text@)],
            }),
    {
        let mut content: Vec<ContentBlock> = Vec::new();
        content.push(ContentBlock::Text(text.to_owned()));
        assert(content.deep_view() == seq![Block::Text(text@)]);
        Message { role: Role::Assistant, content }
    }

    /// Every text block joined with newlines. Tool calls are skipped.
    pub fn text(&self) -> (text: String)
        ensures
            text@ == self.deep_view().text(),
    {
        let mut parts: Vec<String> = Vec::new();
        let mut i: usize = 0;
        while i < self.content.len()
            invariant
                i <= self.content.len(),
                parts.deep_view() == answers(self.content.deep_view().take(i as int)),
            decreases self.content.len() - i,
        {
            let ghost before = parts.deep_view();
            proof {
                let blocks = self.content.deep_view().take(i + 1);
                assert(blocks.drop_last() == self.content.deep_view().take(i as int));
                assert(blocks.last() == self.content[i as int].deep_view());
            }
            if let Some(text) = self.content[i].answer_text() {
                parts.push(text.to_owned());
                assert(parts.deep_view() == before.push(text@));
            }
            i += 1;
        }
        assert(self.content.deep_view().take(i as int) == self.content.deep_view());
        join(&parts, "\n")
    }

    /// Every tool the model asked for in this turn.
    pub fn tool_calls(&self) -> (found: Vec<&ContentBlock>)
        ensures
            found.deep_view() == calls(self.deep_view().content),
    {
        let mut found: Vec<&ContentBlock> = Vec::new();
        let mut i: usize = 0;
        while i < self.content.len()
            invariant
                i <= self.content.len(),
                found.deep_view() == calls(self.content.deep_view().take(i as int)),
            decreases self.content.len() - i,
        {
            let ghost before = found.deep_view();
            proof {
                let blocks = self.content.deep_view().take(i + 1);
                reveal(Seq::filter);
                assert(blocks.drop_last() == self.content.deep_view().take(i as int));
                assert(blocks.last() == self.content[i as int].deep_view());
            }
            if let ContentBlock::ToolUse { .. } = &self.content[i] {
                found.push(&self.content[i]);
                assert(found.deep_view() == before.push(self.content[i as int].deep_view()));
            }
            i += 1;
        }
        assert(self.content.deep_view().take(i as int) == self.content.deep_view());
        found
    }
}

/// Why the model stopped.
///
/// Several of these are failures wearing the shape of a result. A caller that treats every
/// stop reason as success will hand a truncated answer to a user and call it done.
#[derive(Debug, Clone, Copy, PartialEq, Eq, Structural)]
pub enum StopReason {
    /// The model finished what it was saying.
    EndTurn,
    /// The model wants a tool run before it continues.
    ToolUse,
    /// A sequence you asked it to stop at.
    StopSequence,
    /// The output limit was reached. The answer is cut off.
    MaxTokens,
    /// The provider declined to continue.
    Refusal,
    /// A server side tool loop hit its own limit. Resumable, and capped.
    ///
    /// Not a failure and not a finished answer. Send the turn back to continue it.
    PauseTurn,
    /// The conversation no longer fits. Nothing will fix this except sending less.
    ContextWindowExceeded,
    /// A streamed reply stopped arriving before the model said it was done.
    ///
    /// Not something a provider reports. It is what this crate knows when a stream ends
    /// without a stop reason. What arrived is still real.
    Interrupted,
    /// The provider reported a reason this crate does not know.
    ///
    /// Kept rather than mapped to something close, because a stop reason invented on the
    /// caller's behalf is worse than one it can look up.
    Other,
}

impl StopReason {
    /// Whether the answer is complete.
    ///
    /// A tool call is complete: the model said what it wanted and is waiting. A truncation
    /// or a refusal is not.
    pub fn is_complete(self) -> (yes: bool)
        ensures
            yes == (self is EndTurn || self is ToolUse || self is StopSequence),
    {
        match self {
            StopReason::EndTurn | StopReason::ToolUse | StopReason::StopSequence => true,
            _ => false,
        }
    }
}

/// Reasoning is not an answer, nor is anything else that is not plain text, and no block is
/// both.
pub proof fn an_answer_is_not_reasoning(block: Block)
    ensures
        block.answer_text() is Some <==> block is Text,
        block.reasoning() is Some <==> block is Thinking,
        !(block.answer_text() is Some && block.reasoning() is Some),
{
}

/// The text of a turn is its answers in their order, one line apart, and nothing of what is not an
/// answer.
pub proof fn the_text_is_the_answers(blocks: Seq<Block>, block: Block)
    ensures
        answers(Seq::<Block>::empty()).len() == 0,
        block is Text ==> answers(blocks.push(block)) == answers(blocks).push(block->Text_0),
        !(block is Text) ==> answers(blocks.push(block)) == answers(blocks),
{
    assert(blocks.push(block).drop_last() == blocks);
}

/// Each further answer stands behind the text so far, on a line of its own.
pub proof fn a_further_answer_is_a_further_line(role: Role, blocks: Seq<Block>, text: Seq<char>)
    ensures
        answers(blocks).len() > 0 ==> (Turn {
            role,
            content: blocks.push(Block::Text(text)),
        }).text() == (Turn { role, content: blocks }).text() + "\n"@ + text,
        answers(blocks).len() == 0 ==> (Turn {
            role,
            content: blocks.push(Block::Text(text)),
        }).text() == text,
{
    the_text_is_the_answers(blocks, Block::Text(text));
    assert(answers(blocks).push(text).drop_last() == answers(blocks));
}

/// The tool calls of a turn are its blocks that are calls, in their order.
pub proof fn the_calls_are_the_blocks_that_call(blocks: Seq<Block>, block: Block)
    ensures
        calls(Seq::<Block>::empty()).len() == 0,
        block is ToolUse ==> calls(blocks.push(block)) == calls(blocks).push(block),
        !(block is ToolUse) ==> calls(blocks.push(block)) == calls(blocks),
{
    reveal(Seq::filter);
    assert(blocks.push(block).drop_last() == blocks);
}

/// A block is seen as what it is, with all that it holds.
pub proof fn a_block_is_seen_whole(block: ContentBlock)
    ensures
        match block {
            ContentBlock::Text(text) => block.deep_view() == Block::Text(text@),
            ContentBlock::Thinking { text, signature } => block.deep_view() is Thinking
                && block.deep_view()->Thinking_text == text@ && (
            block.deep_view()->Thinking_signature is Some <==> signature is Some) && (signature
                is Some ==> block.deep_view()->Thinking_signature->0 == signature->0@),
            ContentBlock::ToolUse { id, name, input } => block.deep_view() is ToolUse
                && block.deep_view()->ToolUse_id == id@ && block.deep_view()->ToolUse_name == name@
                && block.deep_view()->ToolUse_input == input.tree(),
            ContentBlock::Opaque { kind, raw } => block.deep_view() is Opaque
                && block.deep_view()->Opaque_kind == kind@ && block.deep_view()->Opaque_raw
                == raw.tree(),
            ContentBlock::ToolResult { tool_use_id, content, is_error } => block.deep_view()
                is ToolResult && block.deep_view()->ToolResult_tool_use_id == tool_use_id@
                && block.deep_view()->ToolResult_content == content@
                && block.deep_view()->ToolResult_is_error == is_error,
            ContentBlock::Image { media_type, source } => block.deep_view() is Image
                && block.deep_view()->Image_media_type == media_type@ && (match source {
                ImageSource::Bytes(bytes) => block.deep_view()->Image_source == Source::Bytes(
                    bytes@,
                ),
                ImageSource::Url(url) => block.deep_view()->Image_source == Source::Url(url@),
            }),
        },
{
}

/// A turn is seen as who says it and each of its blocks.
pub proof fn a_turn_is_seen_whole(message: Message, i: int)
    requires
        0 <= i < message.content.len(),
    ensures
        message.deep_view().role == message.role,
        message.deep_view().content.len() == message.content.len(),
        message.deep_view().content[i] == message.content[i].deep_view(),
{
}

} // verus!
