//! What a provider answers about itself, and a finished reply as the events that make it.

use crate::chat::message::{Block, ContentBlock, Role, StopReason, Turn};
use crate::chat::response::{ChatResponse, Reply};
use crate::chat::stream::{
    after_in_parts, input_of, is_unsigned, last_unsigned, Event, Happening, Taken,
};
use crate::cost::usage::{Usage, UsageCoverage};
use crate::error::{Error, Failure};
use crate::json::{json_text, reads_as, DEEPEST};
use crate::providers::wire::{metered, served_by};
use crate::text::followed_by;
use vstd::prelude::*;

verus! {

/// Whether a model can be reached, as far as a free check can tell.
///
/// Three answers rather than two. `Unknown` is the one a boolean loses, and it is the one
/// that matters: a tool that is not installed is denied, and a network that happened to be
/// down while the check ran is not. Collapsed into `false`, the second takes a working
/// provider out of a router for a reason that had cleared before anybody read the log.
#[derive(Debug, Clone, PartialEq, Eq)]
pub enum Access {
    /// Checked, and nothing was found that would stop a call.
    ///
    /// This is the absence of a known blocker rather than a guarantee, and how much it
    /// establishes depends on the reach.
    Ready,
    /// The provider was asked and said no.
    ///
    /// Settled. Asking again in a minute returns the same answer, and clearing it needs a
    /// person: a key, an entitlement, an install, a spelling.
    Denied {
        /// What was said, for whoever has to fix it.
        reason: String,
    },
    /// It could not be established.
    ///
    /// Not a polite `Denied`. Nothing is known either way, so a caller may still try, and a
    /// router must not strike the route off on the strength of it.
    Unknown {
        /// What stopped the check, for whoever reads the report.
        why: String,
    },
}

/// What an [`Access`] says.
#[verifier::ext_equal]
pub enum Answer {
    Ready,
    Denied(Seq<char>),
    Unknown(Seq<char>),
}

impl DeepView for Access {
    type V = Answer;

    open spec fn deep_view(&self) -> Answer {
        match *self {
            Access::Ready => Answer::Ready,
            Access::Denied { reason } => Answer::Denied(reason@),
            Access::Unknown { why } => Answer::Unknown(why@),
        }
    }
}

impl Answer {
    /// How an answer is written down.
    pub open spec fn name(self) -> Seq<char> {
        match self {
            Answer::Ready => "ready"@,
            Answer::Denied(_) => "denied"@,
            Answer::Unknown(_) => "unknown"@,
        }
    }

    /// What was said, when anything was.
    pub open spec fn detail(self) -> Option<Seq<char>> {
        match self {
            Answer::Ready => None,
            Answer::Denied(reason) => Some(reason),
            Answer::Unknown(why) => Some(why),
        }
    }

    /// The answer in one line.
    pub open spec fn line(self) -> Seq<char> {
        match self.detail() {
            None => self.name(),
            Some(detail) => self.name() + ": "@ + detail,
        }
    }
}

impl Access {
    /// Whether nothing was found that would stop a call.
    pub fn is_ready(&self) -> (yes: bool)
        ensures
            yes == (self is Ready),
    {
        match self {
            Access::Ready => true,
            _ => false,
        }
    }

    /// Whether the provider was asked and said no.
    ///
    /// Deliberately not `!is_ready()`. An unknown is not a refusal, and the two differ in
    /// what a caller should do next.
    pub fn is_denied(&self) -> (yes: bool)
        ensures
            yes == (self is Denied),
    {
        match self {
            Access::Denied { .. } => true,
            _ => false,
        }
    }

    /// Whether the check established nothing.
    pub fn is_unknown(&self) -> (yes: bool)
        ensures
            yes == (self is Unknown),
    {
        match self {
            Access::Unknown { .. } => true,
            _ => false,
        }
    }

    /// Denied by something a person has to fix.
    pub fn denied(reason: &str) -> (access: Access)
        ensures
            access.deep_view() == Answer::Denied(reason@),
    {
        Access::Denied { reason: reason.to_owned() }
    }

    /// Not established, and here is what stopped it.
    pub fn unknown(why: &str) -> (access: Access)
        ensures
            access.deep_view() == Answer::Unknown(why@),
    {
        Access::Unknown { why: why.to_owned() }
    }

    /// How an answer is written down, in a record or a report.
    ///
    /// One spelling in one place, so two reports cannot disagree about what a denied route
    /// was called.
    pub fn as_str(&self) -> (name: &'static str)
        ensures
            name@ == self.deep_view().name(),
    {
        match self {
            Access::Ready => "ready",
            Access::Denied { .. } => "denied",
            Access::Unknown { .. } => "unknown",
        }
    }

    /// What was said, when anything was.
    pub fn detail(&self) -> (detail: Option<&str>)
        ensures
            detail.deep_view() == self.deep_view().detail(),
    {
        match self {
            Access::Ready => None,
            Access::Denied { reason } => Some(reason.as_str()),
            Access::Unknown { why } => Some(why.as_str()),
        }
    }

    /// The answer in one line, for a person to read.
    pub fn to_string(&self) -> (line: String)
        ensures
            line@ == self.deep_view().line(),
    {
        match self.detail() {
            None => self.as_str().to_owned(),
            Some(detail) => followed_by(self.as_str(), ": ").concat(detail),
        }
    }
}

/// What a provider without a model list says when it is asked for one.
pub fn no_catalogue(id: &str) -> (why: String)
    ensures
        why@ == id@ + " has no model catalogue"@,
{
    followed_by(id, " has no model catalogue")
}

/// What a failed check says: a settled refusal, or an unsettled moment.
pub open spec fn doubt(id: Seq<char>, failure: Failure) -> Answer {
    match failure {
        Failure::Auth(reason) => Answer::Denied(id + ": "@ + reason),
        Failure::NotFound(reason) => Answer::Denied(id + ": "@ + reason),
        other => Answer::Unknown(id + ": "@ + other.line()),
    }
}

/// What a failed check says: a settled refusal, or an unsettled moment.
///
/// An unknown reads as "ask again later", so a credential a person has to fix must never
/// arrive as one.
pub fn doubt_or_refusal(id: &str, error: &Error) -> (access: Access)
    ensures
        access.deep_view() == doubt(id@, error.deep_view()),
{
    match error {
        Error::Auth(reason) => Access::denied(
            followed_by(id, ": ").concat(reason.as_str()).as_str(),
        ),
        Error::NotFound(reason) => Access::denied(
            followed_by(id, ": ").concat(reason.as_str()).as_str(),
        ),
        other => Access::unknown(
            followed_by(id, ": ").concat(other.to_string().as_str()).as_str(),
        ),
    }
}

/// A rejected credential is never reported as something that may clear by itself, and what may
/// clear by itself is never reported as settled.
pub proof fn a_rejected_credential_is_denied(id: Seq<char>, failure: Failure)
    ensures
        doubt(id, failure) is Denied <==> failure is Auth || failure is NotFound,
        failure.is_retryable() ==> doubt(id, failure) is Unknown,
{
}

/// The answer of a provider that has nothing free to ask: unknown, which is not denied.
pub fn never_asked(id: &str) -> (access: Access)
    ensures
        access.deep_view() == Answer::Unknown(id@ + " has no free way to be asked"@),
{
    Access::Unknown { why: followed_by(id, " has no free way to be asked") }
}

/// The events that one block of a finished reply makes.
///
/// A tool result and an image are not something a model produces, so they make none: an event
/// for either would be put together into a message the provider never sent.
pub open spec fn block_events(block: Block) -> Seq<Happening> {
    match block {
        Block::Text(text) => seq![Happening::TextDelta(text)],
        Block::Thinking { text, signature: Some(signature) } => seq![
            Happening::ThinkingDelta(text),
            Happening::ThinkingSignature(signature),
        ],
        Block::Thinking { text, signature: None } => seq![Happening::ThinkingDelta(text)],
        Block::ToolUse { id, name, input } => seq![
            Happening::ToolUseStarted { id, name },
            Happening::ToolArgumentsDelta(json_text(input)),
        ],
        Block::Opaque { kind, raw } => seq![Happening::Opaque { kind, raw }],
        Block::ToolResult { .. } => Seq::empty(),
        Block::Image { .. } => Seq::empty(),
    }
}

/// The content events that some blocks make, in turn.
pub open spec fn content_events(blocks: Seq<Block>) -> Seq<Happening>
    decreases blocks.len(),
{
    if blocks.len() == 0 {
        Seq::empty()
    } else {
        content_events(blocks.drop_last()) + block_events(blocks.last())
    }
}

/// The events of the stream that would have produced a finished reply.
pub open spec fn reply_events(reply: Reply) -> Seq<Happening> {
    seq![Happening::Started { model: reply.model }] + content_events(reply.message.content) + seq![
        Happening::Stopped { reason: reply.stop_reason, details: reply.stop_details },
        Happening::Metered(reply.usage),
    ]
}

/// Whether a block is something that a model produces.
pub open spec fn is_produced(block: Block) -> bool {
    !(block is ToolResult) && !(block is Image)
}

/// Whether two blocks one after the other stay two when they are put together from events:
/// text joins text, and reasoning joins reasoning whose proof has not arrived.
pub open spec fn stay_apart(first: Block, second: Block) -> bool {
    !(first is Text && second is Text) && !(is_unsigned(first) && second is Thinking)
}

/// Whether the arguments of a tool call read back from the text they are written as.
pub open spec fn input_reads_back(block: Block) -> bool {
    block matches Block::ToolUse { input, .. } ==> reads_as(json_text(input), input)
}

/// Whether the arguments of a tool call hold whole numbers only and do not nest too deep.
pub open spec fn input_fits(block: Block) -> bool {
    block matches Block::ToolUse { input, .. } ==> input.fits(DEEPEST as nat)
}

/// Whether blocks are such as events can carry: each is something a model produces, and no two
/// neighbours run together.
pub open spec fn streamable(blocks: Seq<Block>) -> bool {
    &&& forall|i: int| 0 <= i < blocks.len() ==> is_produced(#[trigger] blocks[i])
    &&& forall|i: int|
        0 < i < blocks.len() ==> stay_apart(blocks[i - 1], #[trigger] blocks[i])
}

/// The event for which model answers, where it was named.
pub open spec fn named(model: Option<Seq<char>>) -> Seq<Happening> {
    match model {
        Some(model) => seq![Happening::Started { model }],
        None => Seq::empty(),
    }
}

/// Events that name the model or do not, carry these blocks, say why the model stopped and report
/// the tokens, where there are some to report, put together the reply of these blocks.
pub proof fn events_of_blocks_make_the_reply(
    asked_for: Seq<char>,
    model: Option<Seq<char>>,
    blocks: Seq<Block>,
    stop: (StopReason, Option<Seq<char>>),
    usage: Usage,
)
    requires
        streamable(blocks),
        forall|i: int| 0 <= i < blocks.len() ==> input_reads_back(#[trigger] blocks[i]),
        usage.covers() == UsageCoverage::Absent ==> usage == Usage::nothing(),
    ensures
        Taken::nothing(asked_for).after(
            named(model) + content_events(blocks) + seq![
                Happening::Stopped { reason: stop.0, details: stop.1 },
            ] + metered(usage),
        ).finished() == (Reply {
            message: Turn { role: Role::Assistant, content: blocks },
            stop_reason: stop.0,
            stop_details: stop.1,
            usage,
            model: served_by(model, asked_for),
        }),
{
    let start = named(model);
    let middle = content_events(blocks);
    let t0 = Taken::nothing(asked_for);
    let t1 = Taken { served_by: model, ..t0 };
    assert(t0.after(Seq::<Happening>::empty()) == t0);
    assert(t0.after(start) == t1) by {
        if model is Some {
            assert(start.drop_last() == Seq::<Happening>::empty());
        } else {
            assert(t1 == t0);
        }
    }
    let t2 = t1.after(middle);
    blocks_fold_back(t1, blocks);
    after_in_parts(t0, start, middle);
    an_end_finishes(t2, stop, usage);
    let end = seq![Happening::Stopped { reason: stop.0, details: stop.1 }] + metered(usage);
    after_in_parts(t0, start + middle, end);
    assert(start + middle + seq![Happening::Stopped { reason: stop.0, details: stop.1 }] + metered(
        usage,
    ) == (start + middle) + end);
}

/// What a stop and a report of the tokens leave of what was taken in before.
pub proof fn an_end_finishes(taken: Taken, stop: (StopReason, Option<Seq<char>>), usage: Usage)
    requires
        taken.usage is None,
        usage.covers() == UsageCoverage::Absent ==> usage == Usage::nothing(),
    ensures
        taken.after(
            seq![Happening::Stopped { reason: stop.0, details: stop.1 }] + metered(usage),
        ).finished() == (Reply {
            message: Turn { role: Role::Assistant, content: taken.closed().blocks },
            stop_reason: stop.0,
            stop_details: stop.1,
            usage,
            model: served_by(taken.served_by, taken.asked_for),
        }),
{
    let stopped = seq![Happening::Stopped { reason: stop.0, details: stop.1 }];
    let t1 = taken.pushed(stopped[0]);
    assert(taken.after(stopped) == t1) by {
        assert(stopped.drop_last() == Seq::<Happening>::empty());
        assert(taken.after(Seq::<Happening>::empty()) == taken);
    }
    after_in_parts(taken, stopped, metered(usage));
    assert(t1.after(Seq::<Happening>::empty()) == t1);
    if metered(usage).len() > 0 {
        assert(metered(usage).drop_last() == Seq::<Happening>::empty());
    }
}

/// A reply broken into events and put back together is the reply it started as.
///
/// It has to be a turn of the model, its blocks such as events can carry, and the arguments of
/// its tool calls such as read back from their text.
pub proof fn a_reply_folds_back_into_itself(reply: Reply, asked_for: Seq<char>)
    requires
        reply.message.role == Role::Assistant,
        streamable(reply.message.content),
        forall|i: int|
            0 <= i < reply.message.content.len() ==> input_reads_back(
                #[trigger] reply.message.content[i],
            ),
    ensures
        Taken::nothing(asked_for).after(reply_events(reply)).finished() == reply,
{
    let blocks = reply.message.content;
    let start = seq![Happening::Started { model: reply.model }];
    let middle = content_events(blocks);
    let end = seq![
        Happening::Stopped { reason: reply.stop_reason, details: reply.stop_details },
        Happening::Metered(reply.usage),
    ];
    let t0 = Taken::nothing(asked_for);
    let t1 = Taken { served_by: Some(reply.model), ..t0 };
    assert(t0.after(start) == t1) by {
        assert(start.drop_last() == Seq::<Happening>::empty());
        assert(t0.after(Seq::<Happening>::empty()) == t0);
    }
    let t2 = t1.after(middle);
    blocks_fold_back(t1, blocks);
    let t3 = t2.after(end);
    assert(t3 == t2.pushed(end[0]).pushed(end[1])) by {
        assert(end.drop_last() == seq![end[0]]);
        assert(seq![end[0]].drop_last() == Seq::<Happening>::empty());
        assert(t2.after(Seq::<Happening>::empty()) == t2);
        assert(t2.after(seq![end[0]]) == t2.pushed(end[0]));
    }
    after_in_parts(t0, start + middle, end);
    after_in_parts(t0, start, middle);
    assert(reply_events(reply) == start + middle + end);
    assert(t3.closed().blocks == blocks);
    assert(t3.finished() =~= reply);
}

/// Blocks broken into events end as the same blocks, and nothing else is changed by them.
proof fn blocks_fold_back(taken: Taken, blocks: Seq<Block>)
    requires
        taken.blocks == Seq::<Block>::empty(),
        taken.pending_tool is None,
        taken.stop is None,
        taken.usage is None,
        streamable(blocks),
        forall|i: int| 0 <= i < blocks.len() ==> input_reads_back(#[trigger] blocks[i]),
    ensures
        taken.after(content_events(blocks)).closed() == (Taken { blocks, ..taken }),
    decreases blocks.len(),
{
    if blocks.len() == 0 {
        assert(taken.after(content_events(blocks)) == taken);
    } else {
        let less = blocks.drop_last();
        let last = blocks.last();
        assert(streamable(less)) by {
            assert forall|i: int| 0 <= i < less.len() implies is_produced(#[trigger] less[i]) by {
                assert(is_produced(blocks[i]));
            }
            assert forall|i: int| 0 < i < less.len() implies stay_apart(
                less[i - 1],
                #[trigger] less[i],
            ) by {
                assert(stay_apart(blocks[i - 1], blocks[i]));
            }
        }
        assert forall|i: int| 0 <= i < less.len() implies input_reads_back(#[trigger] less[i]) by {
            assert(input_reads_back(blocks[i]));
        }
        blocks_fold_back(taken, less);
        let before = taken.after(content_events(less));
        let events = block_events(last);
        after_in_parts(taken, content_events(less), events);
        assert(content_events(blocks) == content_events(less) + events);
        assert(is_produced(blocks[blocks.len() - 1]));
        assert(input_reads_back(blocks[blocks.len() - 1]));
        assert(less.push(last) == blocks);
        if less.len() > 0 {
            assert(stay_apart(blocks[blocks.len() - 2], blocks[blocks.len() - 1]));
            assert(less.last() == blocks[blocks.len() - 2]);
        }
        assert(before.closed().blocks == less);
        let one = before.after(seq![events[0]]);
        assert(one == before.pushed(events[0])) by {
            assert(seq![events[0]].drop_last() == Seq::<Happening>::empty());
            assert(before.after(Seq::<Happening>::empty()) == before);
        }
        if events.len() == 1 {
            assert(events == seq![events[0]]);
        } else {
            assert(events.drop_last() == seq![events[0]]);
            assert(before.after(events) == one.pushed(events[1]));
        }
        match last {
            Block::Thinking { text, signature: Some(signature) } => {
                let unsigned = Block::Thinking { text, signature: None };
                assert(one.blocks == less.push(unsigned));
                assert(is_unsigned(one.blocks.last()));
                assert(last_unsigned(one.blocks) == Some(less.len() as int));
                assert(one.blocks.update(less.len() as int, last) == blocks);
            },
            Block::ToolUse { id, name, input } => {
                assert(Seq::<char>::empty() + json_text(input) == json_text(input));
                assert(input_of(json_text(input)) == input);
            },
            _ => {},
        }
        assert(taken.after(content_events(blocks)).closed() =~= (Taken { blocks, ..taken }));
    }
}

/// Puts the events that one block of a reply makes behind others.
pub(crate) fn add_block(events: &mut Vec<Event>, block: &ContentBlock)
    ensures
        final(events).deep_view() == old(events).deep_view() + block_events(block.deep_view()),
        input_fits(block.deep_view()) ==> input_reads_back(block.deep_view()),
{
    let ghost before = events.deep_view();
    match block {
        ContentBlock::Text(text) => {
            events.push(Event::TextDelta(text.clone()));
        },
        ContentBlock::Thinking { text, signature } => {
            events.push(Event::ThinkingDelta(text.clone()));
            if let Some(signature) = signature {
                events.push(Event::ThinkingSignature(signature.clone()));
            }
        },
        ContentBlock::ToolUse { id, name, input } => {
            events.push(Event::ToolUseStarted { id: id.clone(), name: name.clone() });
            events.push(Event::ToolArgumentsDelta(input.to_text()));
        },
        ContentBlock::Opaque { kind, raw } => {
            events.push(Event::Opaque { kind: kind.clone(), raw: raw.clone() });
        },
        ContentBlock::ToolResult { .. } | ContentBlock::Image { .. } => {},
    }
    assert(events.deep_view() == before + block_events(block.deep_view()));
}

/// A finished reply, taken apart into the content events that would have produced it.
///
/// Putting the events back together gives the blocks of the reply, which is why the arguments
/// of each tool call are written so that they read back.
pub fn replay(reply: &ChatResponse) -> (events: Vec<Event>)
    ensures
        events.deep_view() == content_events(reply.deep_view().message.content),
        forall|i: int|
            0 <= i < reply.message.content.len() && input_fits(
                #[trigger] reply.deep_view().message.content[i],
            ) ==> input_reads_back(reply.deep_view().message.content[i]),
{
    let mut events: Vec<Event> = Vec::new();
    let blocks = &reply.message.content;
    let mut i: usize = 0;
    while i < blocks.len()
        invariant
            i <= blocks.len(),
            events.deep_view() == content_events(blocks.deep_view().take(i as int)),
            forall|j: int|
                0 <= j < i && input_fits(#[trigger] blocks.deep_view()[j]) ==> input_reads_back(
                    blocks.deep_view()[j],
                ),
        decreases blocks.len() - i,
    {
        proof {
            let some = blocks.deep_view().take(i + 1);
            assert(some.drop_last() == blocks.deep_view().take(i as int));
            assert(some.last() == blocks[i as int].deep_view());
        }
        add_block(&mut events, &blocks[i]);
        i += 1;
    }
    assert(blocks.deep_view().take(i as int) == blocks.deep_view());
    events
}

/// A finished reply, as the events of the stream that would have produced it.
///
/// Where the reply is a turn of the model that events can carry, and the arguments of its tool
/// calls hold whole numbers and do not nest too deep, a transcript that takes these events in
/// finishes as the same reply, whatever model it was asked for.
pub fn replay_events(reply: &ChatResponse) -> (events: Vec<Event>)
    ensures
        events.deep_view() == reply_events(reply.deep_view()),
        reply.message.role == Role::Assistant && streamable(reply.deep_view().message.content) && (
        forall|i: int|
            0 <= i < reply.message.content.len() ==> input_fits(
                #[trigger] reply.deep_view().message.content[i],
            )) ==> forall|asked_for: Seq<char>|
            (#[trigger] Taken::nothing(asked_for)).after(events.deep_view()).finished()
                == reply.deep_view(),
{
    let mut events: Vec<Event> = Vec::new();
    events.push(Event::Started { model: reply.model.copied() });
    let mut content = replay(reply);
    let ghost middle = content.deep_view();
    events.append(&mut content);
    assert(events.deep_view() == seq![Happening::Started { model: reply.model@ }] + middle);
    // Last, exactly where a real stream puts it.
    events.push(
        Event::Stopped { reason: reply.stop_reason, details: reply.stop_details.clone() },
    );
    events.push(Event::Metered(reply.usage));
    assert(events.deep_view() == reply_events(reply.deep_view()));
    proof {
        let blocks = reply.deep_view().message.content;
        if reply.message.role == Role::Assistant && streamable(blocks) && (forall|i: int|
            0 <= i < blocks.len() ==> input_fits(#[trigger] blocks[i])) {
            assert forall|i: int| 0 <= i < blocks.len() implies input_reads_back(
                #[trigger] blocks[i],
            ) by {
                assert(input_fits(blocks[i]));
            }
            assert forall|asked_for: Seq<char>|
                (#[trigger] Taken::nothing(asked_for)).after(events.deep_view()).finished()
                    == reply.deep_view() by {
                a_reply_folds_back_into_itself(reply.deep_view(), asked_for);
            }
        }
    }
    events
}

/// What is said of access begins with one word for it, and goes on with the reason where there is
/// one.
pub proof fn an_answer_says_its_reason(reason: Seq<char>)
    ensures
        Answer::Ready.line() == "ready"@,
        Answer::Denied(reason).line() == "denied: "@ + reason,
        Answer::Unknown(reason).line() == "unknown: "@ + reason,
        Answer::Denied(reason).detail() == Some(reason),
        Answer::Unknown(reason).detail() == Some(reason),
        Answer::Ready.detail() is None,
{
    reveal_strlit("denied");
    reveal_strlit("unknown");
    reveal_strlit(": ");
    reveal_strlit("denied: ");
    reveal_strlit("unknown: ");
    assert("denied"@ + ": "@ == "denied: "@);
    assert("unknown"@ + ": "@ == "unknown: "@);
    assert("denied"@ + ": "@ + reason == "denied: "@ + reason);
    assert("unknown"@ + ": "@ + reason == "unknown: "@ + reason);
}

/// A doubt names the provider and what it said.
pub proof fn a_doubt_names_the_provider(id: Seq<char>, reason: Seq<char>, failure: Failure)
    ensures
        doubt(id, Failure::Auth(reason)) == Answer::Denied(id + ": "@ + reason),
        doubt(id, Failure::NotFound(reason)) == Answer::Denied(id + ": "@ + reason),
        !(failure is Auth) && !(failure is NotFound) ==> doubt(id, failure) == Answer::Unknown(
            id + ": "@ + failure.line(),
        ),
{
}

/// The events of a finished reply begin with its model and end with why it stopped and what it
/// used.
pub proof fn events_begin_and_end_a_reply(reply: Reply)
    ensures
        ({
            let events = reply_events(reply);
            &&& events.len() >= 3
            &&& events[0] == (Happening::Started { model: reply.model })
            &&& events[events.len() - 2] == (Happening::Stopped {
                reason: reply.stop_reason,
                details: reply.stop_details,
            })
            &&& events.last() == Happening::Metered(reply.usage)
        }),
{
}

} // verus!
