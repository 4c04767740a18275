//! Reading a reply as it arrives, and putting it back together.

use crate::chat::message::{answers, Block, ContentBlock, Message, Role, StopReason, Turn};
use crate::chat::response::{ChatResponse, Reply};
use crate::cost::usage::Usage;
use crate::json::{json_parsed, Json, Tree};
use crate::model::ModelId;
use crate::text::{join, joined};
use vstd::prelude::*;

verus! {

/// One thing that happened while a reply was arriving.
#[derive(Debug, Clone, PartialEq)]
pub enum Event {
    /// The provider said which model is answering.
    Started {
        /// The model that answers, which is not always the one that was asked for.
        model: ModelId,
    },
    /// More of the answer.
    TextDelta(String),
    /// More of the reasoning.
    ThinkingDelta(String),
    /// The proof that covers the reasoning that just ended.
    ThinkingSignature(String),
    /// The model began to ask for a tool.
    ToolUseStarted {
        /// The provider's identifier for this call.
        id: String,
        /// Which tool.
        name: String,
    },
    /// More of the arguments of the tool call in progress, as JSON text.
    ToolArgumentsDelta(String),
    /// A block this crate does not model, whole and verbatim.
    Opaque {
        /// The provider's own name for this kind of block.
        kind: String,
        /// Exactly what arrived.
        raw: Json,
    },
    /// The model stopped.
    Stopped {
        /// Why.
        reason: StopReason,
        /// The provider's own word on it, where it gave one.
        details: Option<String>,
    },
    /// Tokens consumed, as far as the provider reported them.
    ///
    /// May arrive more than once. Some protocols report the prompt at the start and the output
    /// at the end, and some repeat a running total.
    Metered(Usage),
}

/// What an [`Event`] holds.
#[verifier::ext_equal]
pub enum Happening {
    Started { model: Seq<char> },
    TextDelta(Seq<char>),
    ThinkingDelta(Seq<char>),
    ThinkingSignature(Seq<char>),
    ToolUseStarted { id: Seq<char>, name: Seq<char> },
    ToolArgumentsDelta(Seq<char>),
    Opaque { kind: Seq<char>, raw: Tree },
    Stopped { reason: StopReason, details: Option<Seq<char>> },
    Metered(Usage),
}

impl DeepView for Event {
    type V = Happening;

    open spec fn deep_view(&self) -> Happening {
        match *self {
            Event::Started { model } => Happening::Started { model: model@ },
            Event::TextDelta(text) => Happening::TextDelta(text@),
            Event::ThinkingDelta(text) => Happening::ThinkingDelta(text@),
            Event::ThinkingSignature(text) => Happening::ThinkingSignature(text@),
            Event::ToolUseStarted { id, name } => Happening::ToolUseStarted {
                id: id@,
                name: name@,
            },
            Event::ToolArgumentsDelta(text) => Happening::ToolArgumentsDelta(text@),
            Event::Opaque { kind, raw } => Happening::Opaque { kind: kind@, raw: raw.tree() },
            Event::Stopped { reason, details } => Happening::Stopped {
                reason,
                details: details.deep_view(),
            },
            Event::Metered(usage) => Happening::Metered(usage),
        }
    }
}

/// A reply that is being put together from events.
#[derive(Debug, Clone)]
pub struct Transcript {
    blocks: Vec<ContentBlock>,
    pending_tool: Option<(String, String, String)>,
    stop: Option<(StopReason, Option<String>)>,
    usage: Option<Usage>,
    served_by: Option<ModelId>,
    asked_for: ModelId,
}

/// What a [`Transcript`] has taken in.
#[verifier::ext_equal]
pub struct Taken {
    /// The blocks that are whole or still growing.
    pub blocks: Seq<Block>,
    /// The tool call in progress: its id, its name and the argument text so far.
    pub pending_tool: Option<(Seq<char>, Seq<char>, Seq<char>)>,
    /// Why the model stopped, once it has.
    pub stop: Option<(StopReason, Option<Seq<char>>)>,
    /// What was reported of the tokens so far.
    pub usage: Option<Usage>,
    /// The model that answers, once it was named.
    pub served_by: Option<Seq<char>>,
    /// The model that was asked for.
    pub asked_for: Seq<char>,
}

impl DeepView for Transcript {
    type V = Taken;

    closed spec fn deep_view(&self) -> Taken {
        Taken {
            blocks: self.blocks.deep_view(),
            pending_tool: self.pending_tool.deep_view(),
            stop: match self.stop {
                Some((reason, details)) => Some((reason, details.deep_view())),
                None => None,
            },
            usage: self.usage,
            served_by: self.served_by.deep_view(),
            asked_for: self.asked_for@,
        }
    }
}

/// The arguments of a tool call: the document the text holds, or an object that keeps the text
/// under `raw` where it does not parse.
pub open spec fn input_of(arguments: Seq<char>) -> Tree {
    match json_parsed(arguments) {
        Ok(tree) => tree,
        Err(_) => Tree::empty_object().with("raw"@, Tree::Text(arguments)),
    }
}

/// The arguments of a tool call that arrived in pieces: none where no text of them arrived.
pub open spec fn arrived_input(arguments: Seq<char>) -> Tree {
    if arguments.len() == 0 {
        Tree::empty_object()
    } else {
        input_of(arguments)
    }
}

/// Whether a block is reasoning whose proof has not arrived.
pub open spec fn is_unsigned(block: Block) -> bool {
    block matches Block::Thinking { signature, .. } && signature is None
}

/// The place of the last block that is reasoning without its proof.
pub open spec fn last_unsigned(blocks: Seq<Block>) -> Option<int>
    decreases blocks.len(),
{
    if blocks.len() == 0 {
        None
    } else if is_unsigned(blocks.last()) {
        Some(blocks.len() - 1)
    } else {
        last_unsigned(blocks.drop_last())
    }
}

/// Blocks with more of the answer behind them: in the last block where that is text, in a new
/// one otherwise.
pub open spec fn with_text(blocks: Seq<Block>, text: Seq<char>) -> Seq<Block> {
    if blocks.len() > 0 && blocks.last() is Text {
        blocks.drop_last().push(Block::Text(blocks.last()->Text_0 + text))
    } else {
        blocks.push(Block::Text(text))
    }
}

/// Blocks with more reasoning behind them: in the last block where that is reasoning whose
/// proof has not arrived, in a new one otherwise.
pub open spec fn with_thinking(blocks: Seq<Block>, text: Seq<char>) -> Seq<Block> {
    if blocks.len() > 0 && is_unsigned(blocks.last()) {
        blocks.drop_last().push(
            Block::Thinking { text: blocks.last()->Thinking_text + text, signature: None },
        )
    } else {
        blocks.push(Block::Thinking { text, signature: None })
    }
}

/// Blocks with a proof put on the reasoning it covers, or kept in a block of its own where
/// there is none.
pub open spec fn with_signature(blocks: Seq<Block>, signature: Seq<char>) -> Seq<Block> {
    match last_unsigned(blocks) {
        Some(i) => blocks.update(
            i,
            Block::Thinking { text: blocks[i]->Thinking_text, signature: Some(signature) },
        ),
        None => blocks.push(
            Block::Opaque {
                kind: "signature_without_block"@,
                raw: Tree::empty_object().with("signature"@, Tree::Text(signature)),
            },
        ),
    }
}

impl Taken {
    /// Nothing yet, for a reply asked of this model.
    pub open spec fn nothing(asked_for: Seq<char>) -> Taken {
        Taken {
            blocks: Seq::empty(),
            pending_tool: None,
            stop: None,
            usage: None,
            served_by: None,
            asked_for,
        }
    }

    /// The same, with the tool call in progress made a block.
    pub open spec fn closed(self) -> Taken {
        match self.pending_tool {
            Some((id, name, arguments)) => Taken {
                blocks: self.blocks.push(
                    Block::ToolUse { id, name, input: arrived_input(arguments) },
                ),
                pending_tool: None,
                ..self
            },
            None => self,
        }
    }

    /// The same, after one more event.
    pub open spec fn pushed(self, event: Happening) -> Taken {
        match event {
            Happening::Started { model } => Taken { served_by: Some(model), ..self },
            Happening::TextDelta(text) => Taken {
                blocks: with_text(self.closed().blocks, text),
                ..self.closed()
            },
            Happening::ThinkingDelta(text) => Taken {
                blocks: with_thinking(self.closed().blocks, text),
                ..self.closed()
            },
            Happening::ThinkingSignature(signature) => Taken {
                blocks: with_signature(self.closed().blocks, signature),
                ..self.closed()
            },
            Happening::ToolUseStarted { id, name } => Taken {
                pending_tool: Some((id, name, Seq::empty())),
                ..self.closed()
            },
            Happening::ToolArgumentsDelta(fragment) => match self.pending_tool {
                Some((id, name, arguments)) => Taken {
                    pending_tool: Some((id, name, arguments + fragment)),
                    ..self
                },
                None => self,
            },
            Happening::Opaque { kind, raw } => Taken {
                blocks: self.closed().blocks.push(Block::Opaque { kind, raw }),
                ..self.closed()
            },
            Happening::Stopped { reason, details } => Taken {
                stop: Some((reason, details)),
                ..self.closed()
            },
            Happening::Metered(usage) => Taken {
                usage: match self.usage {
                    Some(existing) => Some(existing.revised(usage)),
                    None => Some(usage),
                },
                ..self
            },
        }
    }

    /// The same, after some events in turn.
    pub open spec fn after(self, events: Seq<Happening>) -> Taken
        decreases events.len(),
    {
        if events.len() == 0 {
            self
        } else {
            self.after(events.drop_last()).pushed(events.last())
        }
    }

    /// The reply that what has been taken in makes.
    pub open spec fn finished(self) -> Reply {
        Reply {
            message: Turn { role: Role::Assistant, content: self.closed().blocks },
            stop_reason: match self.stop {
                Some((reason, _)) => reason,
                None => StopReason::Interrupted,
            },
            stop_details: match self.stop {
                Some((_, details)) => details,
                None => Some("the stream ended early"@),
            },
            usage: match self.usage {
                Some(usage) => usage,
                None => Usage::nothing(),
            },
            model: match self.served_by {
                Some(model) => model,
                None => self.asked_for,
            },
        }
    }
}

/// Reads the arguments of a tool call. Where the text does not parse, an object keeps it under
/// `raw`, so that a caller can see what was attempted.
pub fn tool_input(arguments: &str) -> (input: Json)
    ensures
        input.tree() == input_of(arguments@),
{
    match Json::parse(arguments) {
        Ok(json) => json,
        Err(_) => Json::object().with("raw", Json::text(arguments)),
    }
}

/// The place of the last block that is reasoning without its proof.
fn find_unsigned(blocks: &Vec<ContentBlock>) -> (found: Option<usize>)
    ensures
        match found {
            Some(i) => i < blocks.len() && last_unsigned(blocks.deep_view()) == Some(i as int)
                && is_unsigned(blocks[i as int].deep_view()),
            None => last_unsigned(blocks.deep_view()) is None,
        },
{
    let mut i: usize = blocks.len();
    assert(blocks.deep_view().take(i as int) == blocks.deep_view());
    while i > 0
        invariant
            i <= blocks.len(),
            last_unsigned(blocks.deep_view()) == last_unsigned(blocks.deep_view().take(i as int)),
        decreases i,
    {
        let ghost prefix = blocks.deep_view().take(i as int);
        assert(prefix.drop_last() == blocks.deep_view().take(i - 1));
        assert(prefix.last() == blocks[i - 1].deep_view());
        if let ContentBlock::Thinking { signature, .. } = &blocks[i - 1] {
            if signature.is_none() {
                return Some(i - 1);
            }
        }
        i -= 1;
    }
    None
}

impl Transcript {
    /// An empty transcript of a reply asked of this model.
    pub fn new(asked_for: &str) -> (transcript: Transcript)
        ensures
            transcript.deep_view() == Taken::nothing(asked_for@),
    {
        Transcript {
            blocks: Vec::new(),
            pending_tool: None,
            stop: None,
            usage: None,
            served_by: None,
            asked_for: ModelId(asked_for.to_owned()),
        }
    }

    /// Makes the tool call in progress a block.
    fn close_tool(&mut self)
        ensures
            final(self).deep_view() == old(self).deep_view().closed(),
            final(self).pending_tool is None,
    {
        if let Some((id, name, arguments)) = self.pending_tool.take() {
            // A whole reply gives a call without arguments an empty object, and so does this.
            let input = if arguments.as_str().is_empty() {
                Json::object()
            } else {
                tool_input(arguments.as_str())
            };
            let ghost before = self.blocks.deep_view();
            self.blocks.push(ContentBlock::ToolUse { id, name, input });
            assert(self.blocks.deep_view() == before.push(self.blocks@.last().deep_view()));
        }
    }

    /// Puts a block behind the others.
    fn add(&mut self, block: ContentBlock)
        ensures
            final(self).deep_view() == (Taken {
                blocks: old(self).deep_view().blocks.push(block.deep_view()),
                ..old(self).deep_view()
            }),
    {
        let ghost before = self.blocks.deep_view();
        self.blocks.push(block);
        assert(self.blocks.deep_view() == before.push(block.deep_view()));
    }

    /// Takes the last block away from the others.
    fn take_last(&mut self) -> (last: Option<ContentBlock>)
        ensures
            old(self).deep_view().blocks.len() == 0 ==> last is None && final(self).deep_view()
                == old(self).deep_view(),
            old(self).deep_view().blocks.len() > 0 ==> last is Some && last->0.deep_view()
                == old(self).deep_view().blocks.last() && final(self).deep_view() == (Taken {
                blocks: old(self).deep_view().blocks.drop_last(),
                ..old(self).deep_view()
            }),
    {
        let ghost before = self.blocks.deep_view();
        let last = self.blocks.pop();
        proof {
            if before.len() > 0 {
                assert(self.blocks.deep_view() == before.drop_last());
            }
        }
        last
    }

    /// Takes in one event.
    pub fn push(&mut self, event: Event)
        ensures
            final(self).deep_view() == old(self).deep_view().pushed(event.deep_view()),
    {
        match event {
            Event::Started { model } => {
                self.served_by = Some(model);
            },
            Event::TextDelta(text) => {
                self.close_tool();
                match self.take_last() {
                    Some(ContentBlock::Text(existing)) => {
                        self.add(ContentBlock::Text(existing.concat(text.as_str())));
                    },
                    Some(other) => {
                        self.add(other);
                        self.add(ContentBlock::Text(text));
                    },
                    None => {
                        self.add(ContentBlock::Text(text));
                    },
                }
            },
            Event::ThinkingDelta(text) => {
                self.close_tool();
                match self.take_last() {
                    // Only while the signature has not arrived. Once it has, the block is
                    // finished, and appending to it would put reasoning after the proof
                    // that covers it.
                    Some(ContentBlock::Thinking { text: existing, signature: None }) => {
                        self.add(
                            ContentBlock::Thinking {
                                text: existing.concat(text.as_str()),
                                signature: None,
                            },
                        );
                    },
                    Some(other) => {
                        self.add(other);
                        self.add(ContentBlock::Thinking { text, signature: None });
                    },
                    None => {
                        self.add(ContentBlock::Thinking { text, signature: None });
                    },
                }
            },
            Event::ThinkingSignature(proof_text) => {
                self.close_tool();
                self.sign(proof_text);
            },
            Event::ToolUseStarted { id, name } => {
                self.close_tool();
                self.pending_tool = Some((id, name, String::new()));
            },
            Event::ToolArgumentsDelta(fragment) => {
                // A fragment with no call in progress is dropped. There is nothing to
                // attach it to, and inventing a call to hold it would put a tool the model
                // never asked for into the conversation.
                if let Some((id, name, arguments)) = self.pending_tool.take() {
                    self.pending_tool = Some((id, name, arguments.concat(fragment.as_str())));
                }
            },
            Event::Opaque { kind, raw } => {
                self.close_tool();
                self.add(ContentBlock::Opaque { kind, raw });
            },
            Event::Stopped { reason, details } => {
                self.close_tool();
                self.stop = Some((reason, details));
            },
            Event::Metered(usage) => {
                // Field by field. A protocol that reports the prompt at the start and the
                // output at the end sends two, and keeping only the last would throw away the
                // input count. One that repeats a running total sends many, and adding them up
                // would bill the call once for each.
                self.usage = Some(
                    match self.usage {
                        Some(existing) => existing.revise(usage),
                        None => usage,
                    },
                );
            },
        }
    }

    /// Puts a proof on the reasoning it covers. A proof that lands anywhere else is a
    /// conversation that fails on the turn after this one, so one that covers nothing is kept
    /// verbatim in a block of its own.
    fn sign(&mut self, proof_text: String)
        ensures
            final(self).deep_view() == (Taken {
                blocks: with_signature(old(self).deep_view().blocks, proof_text@),
                ..old(self).deep_view()
            }),
    {
        match find_unsigned(&self.blocks) {
            Some(i) => {
                let text = match &self.blocks[i] {
                    ContentBlock::Thinking { text, .. } => text.clone(),
                    _ => String::new(),
                };
                let ghost before = self.blocks.deep_view();
                self.blocks.set(
                    i,
                    ContentBlock::Thinking { text, signature: Some(proof_text) },
                );
                assert(self.blocks.deep_view() == before.update(
                    i as int,
                    self.blocks[i as int].deep_view(),
                ));
            },
            None => {
                let raw = Json::object().with("signature", Json::text(proof_text.as_str()));
                self.add(
                    ContentBlock::Opaque { kind: "signature_without_block".to_owned(), raw },
                );
            },
        }
    }

    /// The answer so far.
    pub fn text(&self) -> (text: String)
        ensures
            text@ == joined(answers(self.deep_view().blocks), Seq::empty()),
    {
        let mut parts: Vec<String> = Vec::new();
        let mut i: usize = 0;
        while i < self.blocks.len()
            invariant
                i <= self.blocks.len(),
                parts.deep_view() == answers(self.blocks.deep_view().take(i as int)),
            decreases self.blocks.len() - i,
        {
            let ghost before = parts.deep_view();
            proof {
                let blocks = self.blocks.deep_view().take(i + 1);
                assert(blocks.drop_last() == self.blocks.deep_view().take(i as int));
                assert(blocks.last() == self.blocks[i as int].deep_view());
            }
            if let Some(text) = self.blocks[i].answer_text() {
                parts.push(text.to_owned());
                assert(parts.deep_view() == before.push(text@));
            }
            i += 1;
        }
        assert(self.blocks.deep_view().take(i as int) == self.blocks.deep_view());
        proof {
            reveal_strlit("");
            assert(""@ == Seq::<char>::empty());
        }
        join(&parts, "")
    }

    /// Whether the model said that it stopped.
    pub fn is_finished(&self) -> (yes: bool)
        ensures
            yes == (self.deep_view().stop is Some),
    {
        self.stop.is_some()
    }

    /// The reply that arrived.
    ///
    /// One that ended without a stop reason is [`StopReason::Interrupted`], and one that
    /// reported no tokens has an absent usage rather than zeros.
    pub fn finish(self) -> (reply: ChatResponse)
        ensures
            reply.deep_view() == self.deep_view().finished(),
    {
        let mut done = self;
        done.close_tool();
        let (reason, details) = match done.stop {
            Some((reason, details)) => (reason, details),
            None => (StopReason::Interrupted, Some("the stream ended early".to_owned())),
        };
        ChatResponse {
            message: Message { role: Role::Assistant, content: done.blocks },
            stop_reason: reason,
            stop_details: details,
            usage: match done.usage {
                Some(usage) => usage,
                None => Usage::absent(),
            },
            model: match done.served_by {
                Some(model) => model,
                None => done.asked_for,
            },
        }
    }
}

/// Events taken in one after another end where taking in the first part and then the rest ends.
pub proof fn after_in_parts(taken: Taken, first: Seq<Happening>, rest: Seq<Happening>)
    ensures
        taken.after(first + rest) == taken.after(first).after(rest),
    decreases rest.len(),
{
    if rest.len() == 0 {
        assert(first + rest == first);
    } else {
        assert((first + rest).drop_last() == first + rest.drop_last());
        after_in_parts(taken, first, rest.drop_last());
    }
}

/// One event is taken in as itself, and none changes nothing.
pub proof fn one_event_is_taken_in(taken: Taken, event: Happening)
    ensures
        taken.after(seq![event]) == taken.pushed(event),
        taken.after(Seq::<Happening>::empty()) == taken,
{
    assert(seq![event].drop_last() == Seq::<Happening>::empty());
    assert(taken.after(Seq::<Happening>::empty()) == taken);
}

/// Pieces of the answer that follow each other read as one piece: where a provider cuts its
/// text changes nothing.
pub proof fn where_text_is_cut_changes_nothing(taken: Taken, a: Seq<char>, b: Seq<char>)
    ensures
        taken.pushed(Happening::TextDelta(a)).pushed(Happening::TextDelta(b)) == taken.pushed(
            Happening::TextDelta(a + b),
        ),
{
    let blocks = taken.closed().blocks;
    let once = taken.pushed(Happening::TextDelta(a));
    assert(once.pending_tool is None);
    assert(with_text(with_text(blocks, a), b) =~= with_text(blocks, a + b)) by {
        if blocks.len() > 0 && blocks.last() is Text {
            let text = blocks.last()->Text_0;
            assert(with_text(blocks, a).drop_last() =~= blocks.drop_last());
            assert((text + a) + b =~= text + (a + b));
        } else {
            assert(with_text(blocks, a).drop_last() =~= blocks);
        }
    }
}

/// Pieces of the arguments of one tool call read as one piece.
pub proof fn where_arguments_are_cut_changes_nothing(taken: Taken, a: Seq<char>, b: Seq<char>)
    ensures
        taken.pushed(Happening::ToolArgumentsDelta(a)).pushed(Happening::ToolArgumentsDelta(b))
            == taken.pushed(Happening::ToolArgumentsDelta(a + b)),
{
    if let Some((id, name, arguments)) = taken.pending_tool {
        assert((arguments + a) + b =~= arguments + (a + b));
    }
}

/// Pieces of reasoning that follow each other read as one piece.
pub proof fn where_reasoning_is_cut_changes_nothing(taken: Taken, a: Seq<char>, b: Seq<char>)
    ensures
        taken.pushed(Happening::ThinkingDelta(a)).pushed(Happening::ThinkingDelta(b))
            == taken.pushed(Happening::ThinkingDelta(a + b)),
{
    let blocks = taken.closed().blocks;
    let once = taken.pushed(Happening::ThinkingDelta(a));
    assert(once.pending_tool is None);
    assert(with_thinking(with_thinking(blocks, a), b) =~= with_thinking(blocks, a + b)) by {
        if blocks.len() > 0 && is_unsigned(blocks.last()) {
            let text = blocks.last()->Thinking_text;
            assert(with_thinking(blocks, a).drop_last() =~= blocks.drop_last());
            assert((text + a) + b =~= text + (a + b));
        } else {
            assert(with_thinking(blocks, a).drop_last() =~= blocks);
        }
    }
}

/// Reasoning keeps its signature: a proof that arrives behind reasoning is put on the block that
/// holds it, and that block is whole. What follows goes into another.
pub proof fn reasoning_keeps_its_signature(
    taken: Taken,
    text: Seq<char>,
    signature: Seq<char>,
    more: Seq<char>,
)
    ensures
        ({
            let thought = taken.pushed(Happening::ThinkingDelta(text));
            let signed = thought.pushed(Happening::ThinkingSignature(signature));
            let further = signed.pushed(Happening::ThinkingDelta(more));
            &&& signed.blocks.len() == thought.blocks.len()
            &&& signed.blocks.drop_last() == thought.blocks.drop_last()
            &&& thought.blocks.last() matches Block::Thinking { text: whole, .. }
                && signed.blocks.last() == (Block::Thinking {
                text: whole,
                signature: Some(signature),
            })
            &&& further.blocks == signed.blocks.push(
                Block::Thinking { text: more, signature: None },
            )
        }),
{
    let thought = taken.pushed(Happening::ThinkingDelta(text));
    let signed = thought.pushed(Happening::ThinkingSignature(signature));
    assert(is_unsigned(thought.blocks.last()));
    assert(signed.blocks.drop_last() =~= thought.blocks.drop_last());
}

/// A kind of tokens that a usage counts.
pub enum Tokens {
    Input,
    CacheRead,
    CacheWrite,
    Output,
}

impl Tokens {
    /// How many tokens of this kind a usage claims.
    pub open spec fn counted(self, usage: Usage) -> Option<u64> {
        match self {
            Tokens::Input => usage.input_tokens,
            Tokens::CacheRead => usage.cache_read_tokens,
            Tokens::CacheWrite => usage.cache_write_tokens,
            Tokens::Output => usage.output_tokens,
        }
    }

    /// Whether an event reports tokens of this kind.
    pub open spec fn reported_by(self, event: Happening) -> bool {
        event matches Happening::Metered(usage) && self.counted(usage) is Some
    }
}

/// Only what was reported is counted, and absent is never zero: of each kind of tokens a reply
/// claims a number exactly where an event reported one.
pub proof fn only_what_was_reported_is_counted(
    asked_for: Seq<char>,
    events: Seq<Happening>,
    kind: Tokens,
)
    ensures
        kind.counted(Taken::nothing(asked_for).after(events).finished().usage) is Some
            <==> exists|i: int| 0 <= i < events.len() && #[trigger] kind.reported_by(events[i]),
    decreases events.len(),
{
    if events.len() > 0 {
        let before = events.drop_last();
        only_what_was_reported_is_counted(asked_for, before, kind);
        if exists|i: int| 0 <= i < events.len() && #[trigger] kind.reported_by(events[i]) {
            let i = choose|i: int|
                0 <= i < events.len() && #[trigger] kind.reported_by(events[i]);
            if i < before.len() {
                assert(kind.reported_by(before[i]));
            }
        }
        if exists|i: int| 0 <= i < before.len() && #[trigger] kind.reported_by(before[i]) {
            let i = choose|i: int|
                0 <= i < before.len() && #[trigger] kind.reported_by(before[i]);
            assert(kind.reported_by(events[i]));
        }
        let so_far = Taken::nothing(asked_for).after(before);
        assert(Taken::nothing(asked_for).after(events) == so_far.pushed(events.last()));
        assert(so_far.closed().usage == so_far.usage);
        if kind.reported_by(events.last()) {
            assert(kind.reported_by(events[events.len() - 1]));
        }
        if let Happening::Metered(usage) = events.last() {
            let latest = so_far.pushed(events.last()).usage->0;
            assert(kind.counted(latest) is Some <==> kind.counted(so_far.finished().usage) is Some
                || kind.counted(usage) is Some);
        }
    }
}

/// A running total that is repeated is counted once.
pub proof fn a_repeated_total_counts_once(taken: Taken, usage: Usage)
    ensures
        taken.pushed(Happening::Metered(usage)).pushed(Happening::Metered(usage)) == taken.pushed(
            Happening::Metered(usage),
        ),
{
}

/// The last report of a kind of tokens is the one that counts, and a report that leaves a kind
/// out changes nothing about it.
pub proof fn the_last_report_counts(taken: Taken, usage: Usage, kind: Tokens)
    ensures
        ({
            let before = kind.counted(taken.finished().usage);
            let after = kind.counted(taken.pushed(Happening::Metered(usage)).finished().usage);
            match kind.counted(usage) {
                Some(count) => after == Some(count),
                None => after == before,
            }
        }),
{
}

/// A stream that ends without a stop reason never reads as a finished answer.
pub proof fn a_cut_off_reply_is_not_complete(taken: Taken)
    requires
        taken.stop is None,
    ensures
        taken.finished().stop_reason == StopReason::Interrupted,
        taken.finished().message.content == taken.closed().blocks,
{
}

/// What an answer adds goes to the end of the last block where that is an answer, and begins a
/// new one where it is not; a tool call that was in progress is done before it.
pub proof fn an_answer_grows_at_its_end(taken: Taken, text: Seq<char>)
    requires
        taken.pending_tool is None,
    ensures
        ({
            let after = taken.pushed(Happening::TextDelta(text));
            let grown = taken.blocks.len() > 0 && taken.blocks.last() is Text;
            &&& after.blocks.len() == taken.blocks.len() + (if grown {
                0int
            } else {
                1
            })
            &&& after.blocks.last() == Block::Text(
                if grown {
                    taken.blocks.last()->Text_0 + text
                } else {
                    text
                },
            )
            &&& forall|i: int|
                0 <= i < after.blocks.len() - 1 ==> #[trigger] after.blocks[i] == taken.blocks[i]
            &&& after.stop == taken.stop
            &&& after.usage == taken.usage
            &&& after.served_by == taken.served_by
            &&& after.asked_for == taken.asked_for
        }),
{
}

/// What reasoning adds goes to the end of the last block where that is reasoning without its
/// proof, and begins a new one where it is not.
pub proof fn reasoning_grows_at_its_end(taken: Taken, text: Seq<char>)
    requires
        taken.pending_tool is None,
    ensures
        ({
            let after = taken.pushed(Happening::ThinkingDelta(text));
            let grown = taken.blocks.len() > 0 && is_unsigned(taken.blocks.last());
            &&& after.blocks.len() == taken.blocks.len() + (if grown {
                0int
            } else {
                1
            })
            &&& after.blocks.last() == (Block::Thinking {
                text: if grown {
                    taken.blocks.last()->Thinking_text + text
                } else {
                    text
                },
                signature: None,
            })
            &&& forall|i: int|
                0 <= i < after.blocks.len() - 1 ==> #[trigger] after.blocks[i] == taken.blocks[i]
            &&& after.stop == taken.stop
            &&& after.usage == taken.usage
        }),
{
}

/// A tool call that starts, is given its arguments and is followed by something else is a block
/// of its own, with its id, its name and the arguments that arrived.
pub proof fn a_call_becomes_a_block(
    taken: Taken,
    id: Seq<char>,
    name: Seq<char>,
    arguments: Seq<char>,
    tree: Tree,
)
    requires
        taken.pending_tool is None,
        arguments.len() > 0,
    ensures
        ({
            let after = taken.pushed(Happening::ToolUseStarted { id, name }).pushed(
                Happening::ToolArgumentsDelta(arguments),
            );
            let reply = after.finished();
            &&& after.blocks == taken.blocks
            &&& reply.message.content.len() == taken.blocks.len() + 1
            &&& reply.message.content.take(taken.blocks.len() as int) == taken.blocks
            &&& reply.message.content.last() is ToolUse
            &&& reply.message.content.last()->ToolUse_id == id
            &&& reply.message.content.last()->ToolUse_name == name
            &&& json_parsed(arguments) == Ok::<Tree, Seq<char>>(tree)
                ==> reply.message.content.last()->ToolUse_input == tree
            &&& json_parsed(arguments) is Err
                ==> reply.message.content.last()->ToolUse_input.text_at("raw"@) == Some(arguments)
        }),
        taken.pushed(Happening::ToolUseStarted { id, name }).finished().message.content.last() == (
        Block::ToolUse { id, name, input: Tree::empty_object() }),
{
    assert(Seq::<char>::empty() + arguments == arguments);
    let after = taken.pushed(Happening::ToolUseStarted { id, name }).pushed(
        Happening::ToolArgumentsDelta(arguments),
    );
    assert(after.finished().message.content.take(taken.blocks.len() as int) == taken.blocks);
}

/// What is told of a reply is kept: the model that serves it, why it stopped and what is held
/// verbatim; and nothing else changes with it.
pub proof fn what_is_told_of_a_reply_is_kept(
    taken: Taken,
    model: Seq<char>,
    reason: StopReason,
    details: Option<Seq<char>>,
    usage: Usage,
)
    requires
        taken.pending_tool is None,
    ensures
        taken.pushed(Happening::Started { model }).finished().model == model,
        taken.pushed(Happening::Started { model }).finished().message == taken.finished().message,
        taken.pushed(Happening::Stopped { reason, details }).finished().stop_reason == reason,
        taken.pushed(Happening::Stopped { reason, details }).finished().stop_details == details,
        taken.pushed(Happening::Stopped { reason, details }).finished().message
            == taken.finished().message,
        taken.usage is None ==> taken.pushed(Happening::Metered(usage)).finished().usage == usage,
        taken.pushed(Happening::Metered(usage)).finished().message == taken.finished().message,
        taken.served_by is None ==> taken.finished().model == taken.asked_for,
        taken.finished().message.role is Assistant,
        taken.finished().message.content == taken.blocks,
{
}

/// What arrives verbatim is a block of its own, as it arrived.
pub proof fn what_is_verbatim_is_kept(taken: Taken, kind: Seq<char>, raw: Tree)
    requires
        taken.pending_tool is None,
    ensures
        taken.pushed(Happening::Opaque { kind, raw }).blocks == taken.blocks.push(
            Block::Opaque { kind, raw },
        ),
{
}

/// The last reasoning without its proof is where one belongs: none behind it is without.
proof fn the_last_unsigned_is_last(blocks: Seq<Block>)
    ensures
        last_unsigned(blocks) is Some ==> 0 <= last_unsigned(blocks)->0 < blocks.len()
            && is_unsigned(blocks[last_unsigned(blocks)->0]) && forall|k: int|
            last_unsigned(blocks)->0 < k < blocks.len() ==> !is_unsigned(#[trigger] blocks[k]),
        last_unsigned(blocks) is None ==> forall|k: int|
            0 <= k < blocks.len() ==> !is_unsigned(#[trigger] blocks[k]),
    decreases blocks.len(),
{
    if blocks.len() > 0 && !is_unsigned(blocks.last()) {
        let rest = blocks.drop_last();
        the_last_unsigned_is_last(rest);
        assert forall|k: int| 0 <= k < blocks.len() && (last_unsigned(rest) is Some
            ==> last_unsigned(rest)->0 < k) implies !is_unsigned(#[trigger] blocks[k]) by {
            if k < rest.len() {
                assert(rest[k] == blocks[k]);
            }
        }
        if last_unsigned(rest) is Some {
            assert(rest[last_unsigned(rest)->0] == blocks[last_unsigned(rest)->0]);
        }
    }
}

/// A proof of reasoning goes to the last reasoning that has none, and is kept apart where there is
/// none; no other block changes.
pub proof fn a_proof_goes_to_the_last_reasoning_without_one(
    taken: Taken,
    signature: Seq<char>,
    i: int,
)
    requires
        taken.pending_tool is None,
        0 <= i < taken.blocks.len(),
    ensures
        ({
            let after = taken.pushed(Happening::ThinkingSignature(signature)).blocks;
            let last = is_unsigned(taken.blocks[i]) && forall|k: int|
                i < k < taken.blocks.len() ==> !is_unsigned(#[trigger] taken.blocks[k]);
            &&& last ==> after[i] == (Block::Thinking {
                text: taken.blocks[i]->Thinking_text,
                signature: Some(signature),
            })
            &&& !last ==> after[i] == taken.blocks[i]
        }),
{
    the_last_unsigned_is_last(taken.blocks);
    if last_unsigned(taken.blocks) is Some {
        let at = last_unsigned(taken.blocks)->0;
        assert(is_unsigned(taken.blocks[at]));
        if i < at {
            assert(!(forall|k: int|
                i < k < taken.blocks.len() ==> !is_unsigned(#[trigger] taken.blocks[k])));
        }
    }
}

} // verus!
