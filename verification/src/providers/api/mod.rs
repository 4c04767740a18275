//! What every provider behind an HTTP endpoint does the same way.
//!
//! A [`Protocol`] says how a request is written and a reply is read. [`ApiProvider`] puts the
//! two round a call, and [`Frames`] cuts a streamed reply into the frames that a protocol reads.

use crate::chat::request::{Asked, ChatRequest};
use crate::chat::response::{ChatResponse, Reply};
use crate::chat::stream::{Event, Happening};
use crate::error::{outcome, Error, Failure};
use crate::json::{json_parsed, json_parsed_bytes, json_text, Json, Tree};
use crate::model::{ModelCapabilities, ModelId, Reach};
use crate::order::ordered;
use crate::provider::{doubt, doubt_or_refusal, never_asked, Access, Answer};
use crate::registry::Registry;
use crate::secret::{Credential, Secret};
use crate::text::{
    bytes_of, cut_trailing, find_char, followed_by, join, joined, lossy, lossy_text, piece, pieces,
    same, split, trim_end_matches, until, until_is, without_trailing,
};
use crate::transport::{HttpRequest, HttpResponse, Method, Received, Sent};
use std::sync::Arc;
use vstd::prelude::*;
use vstd::utf8::*;

verus! {

/// One frame of a streamed reply.
#[derive(Debug, Clone, PartialEq, Eq)]
pub struct SseFrame {
    /// The kind of frame, where the server names it.
    pub event: String,
    /// What the frame carries.
    pub data: String,
}

/// What an [`SseFrame`] holds.
#[verifier::ext_equal]
pub struct Frame {
    pub event: Seq<char>,
    pub data: Seq<char>,
}

impl DeepView for SseFrame {
    type V = Frame;

    open spec fn deep_view(&self) -> Frame {
        Frame { event: self.event@, data: self.data@ }
    }
}

impl Frame {
    /// The document this frame carries, where it carries one.
    pub open spec fn json(self) -> Option<Tree> {
        match json_parsed(self.data) {
            Ok(tree) => Some(tree),
            Err(_) => None,
        }
    }
}

impl Default for SseFrame {
    fn default() -> (frame: SseFrame)
        ensures
            frame.deep_view() == (Frame { event: Seq::empty(), data: Seq::empty() }),
    {
        SseFrame { event: String::new(), data: String::new() }
    }
}

impl SseFrame {
    /// The document this frame carries, where it carries one.
    pub fn json(&self) -> (json: Option<Json>)
        ensures
            json.deep_view() == self.deep_view().json(),
    {
        match Json::parse(self.data.as_str()) {
            Ok(json) => Some(json),
            Err(_) => None,
        }
    }
}

/// How a vendor's endpoint is spoken to.
///
/// A protocol writes requests and reads replies. It makes no calls.
pub trait Protocol: Sized {
    /// The name that [`Protocol::id`] gives.
    spec fn name(&self) -> Seq<char>;

    /// The address that [`Protocol::chat_url`] gives.
    spec fn chat_address(&self, base_url: Seq<char>, model: Seq<char>) -> Seq<char>;

    /// The address that [`Protocol::stream_url`] gives.
    spec fn stream_address(&self, base_url: Seq<char>, model: Seq<char>) -> Seq<char>;

    /// The address that [`Protocol::catalogue_url`] gives.
    spec fn catalogue_address(&self, base_url: Seq<char>) -> Option<Seq<char>>;

    /// The headers that [`Protocol::headers`] gives.
    spec fn header_list(&self, key: Credential) -> Result<Seq<(Seq<char>, Seq<char>)>, Failure>;

    /// Whether a request can be written for this endpoint.
    spec fn writes(&self, request: Asked) -> bool;

    /// The document that [`Protocol::body`] gives.
    spec fn body_of(&self, request: Asked) -> Result<Tree, Failure>;

    /// The document that [`Protocol::stream_body`] gives.
    spec fn stream_body_of(&self, request: Asked) -> Result<Option<Tree>, Failure>;

    /// The reply that [`Protocol::read`] gives.
    spec fn reply_in(&self, body: Tree, asked_for: Seq<char>) -> Result<Reply, Failure>;

    /// The names that [`Protocol::read_catalogue`] puts in order.
    spec fn names_in(&self, body: Tree) -> Result<Seq<Seq<char>>, Failure>;

    /// The events that [`Protocol::read_event`] gives.
    spec fn events_in(&self, frame: Frame) -> Result<Seq<Happening>, Failure>;

    /// A short name for the provider behind this protocol.
    fn id(&self) -> (id: &str)
        ensures
            id@ == self.name(),
    ;

    /// Where a request for this model is sent.
    fn chat_url(&self, base_url: &str, model: &ModelId) -> (url: String)
        ensures
            url@ == self.chat_address(base_url@, model@),
    ;

    /// Where a request for this model is sent when its reply is to arrive in pieces.
    fn stream_url(&self, base_url: &str, model: &ModelId) -> (url: String)
        ensures
            url@ == self.stream_address(base_url@, model@),
    ;

    /// Where the model list is, for an endpoint that has one.
    fn catalogue_url(&self, base_url: &str) -> (url: Option<String>)
        ensures
            url.deep_view() == self.catalogue_address(base_url@),
    ;

    /// The headers of every request, the credential among them.
    fn headers(&self, key: &Secret) -> (headers: Result<Vec<(String, String)>, Error>)
        ensures
            outcome(headers) == self.header_list(key@),
    ;

    /// A request as this endpoint takes it.
    fn body(&self, request: &ChatRequest) -> (body: Result<Json, Error>)
        requires
            self.writes(request.deep_view()),
        ensures
            outcome(body) == self.body_of(request.deep_view()),
    ;

    /// A request as this endpoint takes it when its reply is to arrive in pieces. Nothing for
    /// an endpoint that has no such form.
    fn stream_body(&self, request: &ChatRequest) -> (body: Result<Option<Json>, Error>)
        requires
            self.writes(request.deep_view()),
        ensures
            outcome(body) == self.stream_body_of(request.deep_view()),
    ;

    /// Reads a reply.
    fn read(&self, body: &Json, asked_for: &ModelId) -> (reply: Result<ChatResponse, Error>)
        ensures
            outcome(reply) == self.reply_in(body.tree(), asked_for@),
    ;

    /// Reads a model list, in the order of the names.
    fn read_catalogue(&self, body: &Json) -> (ids: Result<Vec<ModelId>, Error>)
        ensures
            match (ids, self.names_in(body.tree())) {
                (Ok(ids), Ok(names)) => ordered(ids.deep_view()) && ids.deep_view().to_multiset()
                    == names.to_multiset(),
                (Err(why), Err(failure)) => why.deep_view() == failure,
                _ => false,
            },
    ;

    /// Reads one frame of a reply that arrives in pieces.
    fn read_event(&self, frame: &SseFrame) -> (events: Result<Vec<Event>, Error>)
        ensures
            outcome(events) == self.events_in(frame.deep_view()),
    ;
}

/// How many bytes the end of a frame takes at a place, or none where no frame ends there.
pub open spec fn end_at(bytes: Seq<u8>, i: int) -> int {
    if 0 <= i && i + 4 <= bytes.len() && bytes[i] == 13 && bytes[i + 1] == 10 && bytes[i + 2] == 13
        && bytes[i + 3] == 10 {
        4
    } else if 0 <= i && i + 2 <= bytes.len() && bytes[i] == 10 && bytes[i + 1] == 10 {
        2
    } else {
        0
    }
}

/// The first place at or behind this one where a frame ends, or the end of the bytes.
pub open spec fn next_end(bytes: Seq<u8>, from: int) -> int
    decreases bytes.len() - from,
{
    if from >= bytes.len() || end_at(bytes, from) > 0 {
        from
    } else {
        next_end(bytes, from + 1)
    }
}

/// The first place at which a frame ends is the one before which none does.
pub proof fn next_end_is(bytes: Seq<u8>, from: int, at: int)
    requires
        from <= at <= bytes.len(),
        forall|i: int| from <= i < at ==> #[trigger] end_at(bytes, i) == 0,
        at < bytes.len() ==> end_at(bytes, at) > 0,
    ensures
        next_end(bytes, from) == at,
    decreases at - from,
{
    if from < at {
        assert(end_at(bytes, from) == 0);
        next_end_is(bytes, from + 1, at);
    }
}

/// Where the first place at which a frame ends lies, and that none ends before it.
pub proof fn next_end_bounds(bytes: Seq<u8>, from: int)
    requires
        0 <= from <= bytes.len(),
    ensures
        from <= next_end(bytes, from) <= bytes.len(),
        next_end(bytes, from) < bytes.len() ==> end_at(bytes, next_end(bytes, from)) > 0,
        forall|i: int| from <= i < next_end(bytes, from) ==> #[trigger] end_at(bytes, i) == 0,
    decreases bytes.len() - from,
{
    if from < bytes.len() && end_at(bytes, from) == 0 {
        next_end_bounds(bytes, from + 1);
    }
}

/// The frames that are whole in some bytes, each without its end.
pub open spec fn whole_frames(bytes: Seq<u8>) -> Seq<Seq<u8>>
    decreases bytes.len(),
{
    let at = next_end(bytes, 0);
    let more = at + end_at(bytes, at);
    if 0 <= at < bytes.len() && at < more <= bytes.len() {
        seq![bytes.take(at)] + whole_frames(bytes.skip(more))
    } else {
        Seq::empty()
    }
}

/// The bytes behind the frames that are whole.
pub open spec fn left_over(bytes: Seq<u8>) -> Seq<u8>
    decreases bytes.len(),
{
    let at = next_end(bytes, 0);
    let more = at + end_at(bytes, at);
    if 0 <= at < bytes.len() && at < more <= bytes.len() {
        left_over(bytes.skip(more))
    } else {
        bytes
    }
}

/// The end of the first frame in some bytes: where it is and how many bytes it takes.
pub fn frame_end(buffer: &Vec<u8>) -> (end: Option<(usize, usize)>)
    ensures
        match end {
            Some((at, length)) => at == next_end(buffer@, 0) && length == end_at(
                buffer@,
                at as int,
            ) && length > 0 && at + length <= buffer.len(),
            None => next_end(buffer@, 0) == buffer.len(),
        },
{
    let mut i: usize = 0;
    while i < buffer.len()
        invariant
            i <= buffer.len(),
            forall|j: int| 0 <= j < i ==> #[trigger] end_at(buffer@, j) == 0,
        decreases buffer.len() - i,
    {
        if buffer.len() - i >= 4 && buffer[i] == 13 && buffer[i + 1] == 10 && buffer[i + 2] == 13
            && buffer[i + 3] == 10 {
            proof {
                next_end_is(buffer@, 0, i as int);
            }
            return Some((i, 4));
        }
        if buffer.len() - i >= 2 && buffer[i] == 10 && buffer[i + 1] == 10 {
            proof {
                next_end_is(buffer@, 0, i as int);
            }
            return Some((i, 2));
        }
        i += 1;
    }
    proof {
        next_end_is(buffer@, 0, i as int);
    }
    None
}

/// A frame that is whole in some bytes is the same frame in more of them.
proof fn more_bytes_keep_the_end(a: Seq<u8>, b: Seq<u8>)
    requires
        next_end(a, 0) < a.len(),
    ensures
        next_end(a + b, 0) == next_end(a, 0),
        end_at(a + b, next_end(a, 0)) == end_at(a, next_end(a, 0)),
        0 <= next_end(a, 0),
        next_end(a, 0) + end_at(a, next_end(a, 0)) <= a.len(),
{
    let at = next_end(a, 0);
    next_end_bounds(a, 0);
    let all = a + b;
    assert(end_at(all, at) == end_at(a, at));
    assert forall|i: int| 0 <= i < at implies #[trigger] end_at(all, i) == 0 by {
        assert(end_at(a, i) == 0);
        if i + 4 > a.len() {
            // A longer end that starts earlier would hold a carriage return where the shorter
            // one that was found holds a line feed.
            assert(end_at(a, at) == 2);
            assert(at == i + 1 || at == i + 2);
        }
    }
    next_end_is(all, 0, at);
}

/// Where the bytes of a stream are cut into chunks changes nothing about its frames: the frames
/// of two chunks together are those of the first, and then those of what the first left over
/// and the second.
pub proof fn chunks_do_not_matter(a: Seq<u8>, b: Seq<u8>)
    ensures
        whole_frames(a + b) == whole_frames(a) + whole_frames(left_over(a) + b),
        left_over(a + b) == left_over(left_over(a) + b),
    decreases a.len(),
{
    let at = next_end(a, 0);
    let more = at + end_at(a, at);
    if 0 <= at < a.len() && at < more <= a.len() {
        more_bytes_keep_the_end(a, b);
        assert((a + b).take(at) == a.take(at));
        assert((a + b).skip(more) == a.skip(more) + b);
        chunks_do_not_matter(a.skip(more), b);
        assert(whole_frames(a + b) == seq![a.take(at)] + whole_frames(a.skip(more) + b));
        assert(seq![a.take(at)] + (whole_frames(a.skip(more)) + whole_frames(
            left_over(a.skip(more)) + b,
        )) == (seq![a.take(at)] + whole_frames(a.skip(more))) + whole_frames(
            left_over(a.skip(more)) + b,
        ));
    } else {
        assert(whole_frames(a) == Seq::<Seq<u8>>::empty());
        assert(whole_frames(a) + whole_frames(a + b) == whole_frames(a + b));
    }
}

/// What is left over holds no whole frame.
pub proof fn nothing_whole_is_left_over(bytes: Seq<u8>)
    ensures
        whole_frames(left_over(bytes)) == Seq::<Seq<u8>>::empty(),
    decreases bytes.len(),
{
    let at = next_end(bytes, 0);
    let more = at + end_at(bytes, at);
    if 0 <= at < bytes.len() && at < more <= bytes.len() {
        nothing_whole_is_left_over(bytes.skip(more));
    }
}

/// A line of a frame without the carriage returns behind it.
pub open spec fn line_text(line: Seq<char>) -> Seq<char> {
    without_trailing(line, '\r')
}

/// The name and the value of a line: nothing for a comment, a blank line and a line without a
/// colon. One space behind the colon belongs to the format.
pub open spec fn field_of(line: Seq<char>) -> Option<(Seq<char>, Seq<char>)> {
    let colon = until(line, ':');
    if line.len() == 0 || line[0] == ':' || colon >= line.len() {
        None
    } else {
        let value = line.skip(colon + 1);
        Some(
            (
                line.take(colon),
                if value.len() > 0 && value[0] == ' ' {
                    value.skip(1)
                } else {
                    value
                },
            ),
        )
    }
}

/// What the lines of a frame give: the last name of an event, and the data lines in turn.
pub open spec fn fields_of(lines: Seq<Seq<char>>) -> (Seq<char>, Seq<Seq<char>>)
    decreases lines.len(),
{
    if lines.len() == 0 {
        (Seq::empty(), Seq::empty())
    } else {
        let before = fields_of(lines.drop_last());
        match field_of(line_text(lines.last())) {
            Some((name, value)) => if name == "event"@ {
                (value, before.1)
            } else if name == "data"@ {
                (before.0, before.1.push(value))
            } else {
                before
            },
            None => before,
        }
    }
}

/// The frame that a text gives. A text without data lines gives none.
pub open spec fn frame_of(text: Seq<char>) -> Option<Frame> {
    let (event, data) = fields_of(pieces(text, '\n'));
    if data.len() == 0 {
        None
    } else {
        Some(Frame { event, data: joined(data, "\n"@) })
    }
}

/// The frame that raw bytes give.
pub open spec fn frame_in(raw: Seq<u8>) -> Option<Frame> {
    frame_of(lossy_text(raw))
}

/// Reads the name and the value of a line.
fn read_field(line: &Vec<char>) -> (field: Option<(String, String)>)
    ensures
        field.deep_view() == field_of(line_text(line@)),
{
    let end = cut_trailing(line, '\r');
    let ghost cut = line@.take(end as int);
    if end == 0 || line[0] == ':' {
        return None;
    }
    let at = find_char(line, 0, ':');
    assert(line@.skip(0) == line@);
    proof {
        crate::text::until_bounds(line@, ':');
        crate::text::until_bounds(cut, ':');
        if at < end {
            crate::text::until_is(cut, ':', at as int);
        } else {
            crate::text::until_is(cut, ':', end as int);
        }
    }
    if at >= end {
        return None;
    }
    let name = piece(line, 0, at);
    let start: usize = if at + 1 < end && line[at + 1] == ' ' {
        at + 2
    } else {
        at + 1
    };
    let value = piece(line, start, end);
    proof {
        assert(line@.subrange(0, at as int) == cut.take(at as int));
        let whole = cut.skip(at as int + 1);
        if at + 1 < end && line[at as int + 1] == ' ' {
            assert(whole[0] == ' ');
            assert(line@.subrange(start as int, end as int) == whole.skip(1));
        } else {
            assert(whole.len() > 0 ==> whole[0] == line[at as int + 1]);
            assert(line@.subrange(start as int, end as int) == whole);
        }
    }
    Some((name, value))
}

/// Reads a frame from its text.
///
/// Lines that begin with a colon are comments, sent to keep the connection open. Lines of
/// other names are for reconnection, and a server sending them is not misbehaving.
pub fn parse_frame_text(text: &str) -> (frame: Option<SseFrame>)
    ensures
        frame.deep_view() == frame_of(text@),
{
    let lines = split(text, '\n');
    let mut event = String::new();
    let mut data: Vec<String> = Vec::new();
    let mut i: usize = 0;
    assert(lines.deep_view().take(0) == Seq::<Seq<char>>::empty());
    assert(data.deep_view() == Seq::<Seq<char>>::empty());
    while i < lines.len()
        invariant
            i <= lines.len(),
            (event@, data.deep_view()) == fields_of(lines.deep_view().take(i as int)),
        decreases lines.len() - i,
    {
        let ghost before = data.deep_view();
        proof {
            let some = lines.deep_view().take(i + 1);
            assert(some.drop_last() == lines.deep_view().take(i as int));
            assert(some.last() == lines[i as int].deep_view());
            assert(lines[i as int].deep_view() =~= lines[i as int]@);
        }
        if let Some((name, value)) = read_field(&lines[i]) {
            if same(name.as_str(), "event") {
                event = value;
            } else if same(name.as_str(), "data") {
                data.push(value);
                assert(data.deep_view() == before.push(value@));
            }
        }
        i += 1;
    }
    assert(lines.deep_view().take(i as int) == lines.deep_view());
    if data.len() == 0 {
        return None;
    }
    Some(SseFrame { event, data: join(&data, "\n") })
}

/// Reads a frame from its raw bytes.
pub fn parse_frame(raw: &Vec<u8>) -> (frame: Option<SseFrame>)
    ensures
        frame.deep_view() == frame_in(raw@),
{
    parse_frame_text(lossy(raw).as_str())
}

/// What some frames come to: the events of each in turn, up to the first that cannot be read,
/// and why that one could not.
pub open spec fn frames_read<P: Protocol>(protocol: P, frames: Seq<Seq<u8>>) -> (
    Seq<Happening>,
    Option<Failure>,
)
    decreases frames.len(),
{
    if frames.len() == 0 {
        (Seq::empty(), None)
    } else {
        let before = frames_read(protocol, frames.drop_last());
        if before.1 is Some {
            before
        } else {
            match frame_in(frames.last()) {
                None => before,
                Some(frame) => match protocol.events_in(frame) {
                    Ok(events) => (before.0 + events, None),
                    Err(why) => (before.0, Some(why)),
                },
            }
        }
    }
}

/// What the first few frames come to is what all of them do where one of the few cannot be read.
proof fn frames_fail_together<P: Protocol>(protocol: P, frames: Seq<Seq<u8>>, i: int)
    requires
        0 <= i <= frames.len(),
        frames_read(protocol, frames.take(i)).1 is Some,
    ensures
        frames_read(protocol, frames) == frames_read(protocol, frames.take(i)),
    decreases frames.len() - i,
{
    if i < frames.len() {
        assert(frames.take(i + 1).drop_last() == frames.take(i));
        frames_fail_together(protocol, frames, i + 1);
    } else {
        assert(frames.take(i) == frames);
    }
}

/// Frames read one lot after another come to what they come to together, while none fails.
pub proof fn frames_read_in_parts<P: Protocol>(
    protocol: P,
    first: Seq<Seq<u8>>,
    rest: Seq<Seq<u8>>,
)
    ensures
        frames_read(protocol, first).1 is Some ==> frames_read(protocol, first + rest)
            == frames_read(protocol, first),
        frames_read(protocol, first).1 is None ==> frames_read(protocol, first + rest) == (
            frames_read(protocol, first).0 + frames_read(protocol, rest).0,
            frames_read(protocol, rest).1,
        ),
    decreases rest.len(),
{
    if rest.len() == 0 {
        assert(first + rest == first);
        assert(frames_read(protocol, first).0 + Seq::<Happening>::empty() == frames_read(
            protocol,
            first,
        ).0);
    } else {
        assert((first + rest).drop_last() == first + rest.drop_last());
        frames_read_in_parts(protocol, first, rest.drop_last());
        if frames_read(protocol, first).1 is None {
            let a = frames_read(protocol, first).0;
            let b = frames_read(protocol, rest.drop_last());
            if b.1 is None {
                if let Some(frame) = frame_in(rest.last()) {
                    if let Ok(events) = protocol.events_in(frame) {
                        assert((a + b.0) + events == a + (b.0 + events));
                    }
                }
            }
        }
    }
}

/// What comes next out of a reply that arrives in pieces.
#[derive(Debug, PartialEq)]
pub enum Next {
    /// This happened.
    Event(Event),
    /// Nothing more will.
    Ended,
    /// Nothing is known until more bytes have arrived.
    Waiting,
}

/// A streamed reply on its way from bytes to events.
#[derive(Debug)]
pub struct Frames {
    buffer: Vec<u8>,
    ready: Vec<Event>,
    done: bool,
}

/// What a [`Frames`] holds.
#[verifier::ext_equal]
pub struct Arriving {
    /// Bytes that are not a whole frame yet.
    pub buffer: Seq<u8>,
    /// Events that were read and not handed on yet.
    pub ready: Seq<Happening>,
    /// Whether no more bytes are wanted.
    pub done: bool,
}

impl DeepView for Frames {
    type V = Arriving;

    closed spec fn deep_view(&self) -> Arriving {
        Arriving { buffer: self.buffer@, ready: self.ready.deep_view(), done: self.done }
    }
}

impl Frames {
    /// A reply of which nothing has arrived.
    pub fn new() -> (frames: Frames)
        ensures
            frames.deep_view() == (Arriving {
                buffer: Seq::empty(),
                ready: Seq::empty(),
                done: false,
            }),
    {
        let frames = Frames { buffer: Vec::new(), ready: Vec::new(), done: false };
        assert(frames.ready.deep_view() == Seq::<Happening>::empty());
        frames
    }

    /// Puts events behind those that wait to be handed on.
    fn enqueue(&mut self, events: Vec<Event>)
        ensures
            final(self).deep_view() == (Arriving {
                ready: old(self).deep_view().ready + events.deep_view(),
                ..old(self).deep_view()
            }),
    {
        let ghost before = self.ready.deep_view();
        let ghost more = events.deep_view();
        let mut events = events;
        self.ready.append(&mut events);
        assert(self.ready.deep_view() == before + more);
    }

    /// Takes in a chunk of bytes, and reads every frame that is whole now.
    ///
    /// A frame that cannot be read ends the reading. The events of the frames before it stay.
    fn absorb<P: Protocol>(&mut self, protocol: &P, chunk: &Vec<u8>) -> (read: Result<(), Error>)
        ensures
            ({
                let bytes = old(self).deep_view().buffer + chunk@;
                let (events, failure) = frames_read(*protocol, whole_frames(bytes));
                &&& final(self).deep_view().ready == old(self).deep_view().ready + events
                &&& final(self).deep_view().done == old(self).deep_view().done
                &&& match failure {
                    None => read is Ok && final(self).deep_view().buffer == left_over(bytes),
                    Some(why) => outcome(read) == Err::<(), Failure>(why),
                }
            }),
    {
        let ghost bytes = self.buffer@ + chunk@;
        let ghost before = self.ready.deep_view();
        let mut i: usize = 0;
        let ghost kept = self.buffer@;
        while i < chunk.len()
            invariant
                i <= chunk.len(),
                self.buffer@ == kept + chunk@.take(i as int),
                self.ready.deep_view() == before,
                self.done == old(self).done,
            decreases chunk.len() - i,
        {
            self.buffer.push(chunk[i]);
            i += 1;
        }
        assert(chunk@.take(i as int) == chunk@);
        let ghost all = whole_frames(bytes);
        let ghost mut count: int = 0;
        proof {
            assert(all.take(0) == Seq::<Seq<u8>>::empty());
            assert(all.skip(0) == all);
            assert(before + Seq::<Happening>::empty() == before);
        }
        loop
            invariant
                0 <= count <= all.len(),
                all == whole_frames(bytes),
                all.skip(count) == whole_frames(self.buffer@),
                left_over(bytes) == left_over(self.buffer@),
                frames_read(*protocol, all.take(count)).1 is None,
                self.ready.deep_view() == before + frames_read(*protocol, all.take(count)).0,
                self.done == old(self).done,
                bytes == old(self).deep_view().buffer + chunk@,
                before == old(self).deep_view().ready,
            ensures
                count == all.len(),
                left_over(bytes) == self.buffer@,
            decreases self.buffer.len(),
        {
            let (at, length) = match frame_end(&self.buffer) {
                Some(end) => end,
                None => {
                    proof {
                        assert(whole_frames(self.buffer@) == Seq::<Seq<u8>>::empty());
                        assert(all.skip(count).len() == 0);
                    }
                    break;
                },
            };
            let raw = sub_bytes(&self.buffer, 0, at);
            let rest = sub_bytes(&self.buffer, at + length, self.buffer.len());
            proof {
                let buffer = self.buffer@;
                assert(raw@ == buffer.take(at as int));
                assert(rest@ == buffer.skip(at + length));
                assert(whole_frames(buffer) == seq![raw@] + whole_frames(rest@));
                assert(all.skip(count)[0] == raw@);
                assert(all[count] == raw@);
                assert(all.skip(count + 1) == all.skip(count).skip(1));
                assert(all.skip(count).skip(1) == whole_frames(rest@));
                assert(all.take(count + 1).drop_last() == all.take(count));
                assert(all.take(count + 1).last() == raw@);
            }
            self.buffer = rest;
            if let Some(frame) = parse_frame(&raw) {
                match protocol.read_event(&frame) {
                    Ok(events) => {
                        let ghost so_far = frames_read(*protocol, all.take(count)).0;
                        let ghost more = events.deep_view();
                        self.enqueue(events);
                        assert((before + so_far) + more == before + (so_far + more));
                    },
                    Err(why) => {
                        proof {
                            frames_fail_together(*protocol, all, count + 1);
                        }
                        return Err(why);
                    },
                }
            }
            proof {
                count = count + 1;
            }
        }
        assert(all.take(count) == all);
        Ok(())
    }

    /// What comes next: an event that is ready, or the end, or nothing before more bytes have
    /// arrived.
    pub fn next(&mut self) -> (next: Next)
        ensures
            old(self).deep_view().ready.len() > 0 ==> (next matches Next::Event(event)
                && event.deep_view() == old(self).deep_view().ready[0] && final(self).deep_view()
                == (Arriving {
                ready: old(self).deep_view().ready.skip(1),
                ..old(self).deep_view()
            })),
            old(self).deep_view().ready.len() == 0 ==> final(self).deep_view()
                == old(self).deep_view() && (if old(self).deep_view().done {
                next is Ended
            } else {
                next is Waiting
            }),
    {
        if self.ready.len() > 0 {
            let ghost before = self.ready.deep_view();
            let event = self.ready.remove(0);
            assert(self.ready.deep_view() == before.skip(1));
            Next::Event(event)
        } else if self.done {
            Next::Ended
        } else {
            Next::Waiting
        }
    }

    /// Takes in what the transport gave: a chunk, a failure, or the end of the reply. Says what
    /// went wrong, where something did, and then no more bytes are wanted.
    ///
    /// A server that ended without a blank line after its last frame still sent that frame.
    /// Dropping it loses the terminator, which is where the stop reason and the usage live.
    pub fn take_in<P: Protocol>(
        &mut self,
        protocol: &P,
        arrival: Option<Result<Vec<u8>, Error>>,
    ) -> (failed: Option<Error>)
        ensures
            match arrival {
                Some(Err(why)) => failed.deep_view() == Some(why.deep_view())
                    && final(self).deep_view() == (Arriving { done: true, ..old(self).deep_view() }),
                Some(Ok(chunk)) => {
                    let bytes = old(self).deep_view().buffer + chunk@;
                    let (events, failure) = frames_read(*protocol, whole_frames(bytes));
                    &&& final(self).deep_view().ready == old(self).deep_view().ready + events
                    &&& failed.deep_view() == failure
                    &&& failure is None ==> final(self).deep_view().buffer == left_over(bytes)
                    &&& final(self).deep_view().done == (old(self).deep_view().done || failure
                        is Some)
                },
                None => {
                    let (events, failure) = frames_read(
                        *protocol,
                        seq![old(self).deep_view().buffer],
                    );
                    &&& failed.deep_view() == failure
                    &&& final(self).deep_view() == (Arriving {
                        buffer: Seq::empty(),
                        ready: old(self).deep_view().ready + events,
                        done: true,
                    })
                },
            },
    {
        match arrival {
            Some(Err(why)) => {
                self.done = true;
                Some(why)
            },
            Some(Ok(chunk)) => match self.absorb(protocol, &chunk) {
                Ok(_) => None,
                Err(why) => {
                    self.done = true;
                    Some(why)
                },
            },
            None => {
                self.done = true;
                let ghost last = self.buffer@;
                proof {
                    let one = seq![last];
                    assert(one.drop_last() == Seq::<Seq<u8>>::empty());
                    assert(one.last() == last);
                    assert(frames_read(*protocol, Seq::<Seq<u8>>::empty()) == (
                        Seq::<Happening>::empty(),
                        None::<Failure>,
                    ));
                    assert(self.ready.deep_view() + Seq::<Happening>::empty()
                        == self.ready.deep_view());
                }
                let found = parse_frame(&self.buffer);
                self.buffer = Vec::new();
                match found {
                    None => None,
                    Some(frame) => match protocol.read_event(&frame) {
                        Ok(events) => {
                            let ghost more = events.deep_view();
                            assert(Seq::<Happening>::empty() + more == more);
                            self.enqueue(events);
                            None
                        },
                        Err(why) => Some(why),
                    },
                }
            },
        }
    }
}

/// The bytes from `start` up to `end`.
fn sub_bytes(bytes: &Vec<u8>, start: usize, end: usize) -> (part: Vec<u8>)
    requires
        start <= end <= bytes.len(),
    ensures
        part@ == bytes@.subrange(start as int, end as int),
{
    let mut part: Vec<u8> = Vec::new();
    let mut i: usize = start;
    while i < end
        invariant
            start <= i <= end <= bytes.len(),
            part@ == bytes@.subrange(start as int, i as int),
        decreases end - i,
    {
        part.push(bytes[i]);
        i += 1;
    }
    part
}

/// A reply that arrives in two chunks gives the events, in the same order, that it gives when
/// the two arrive as one, and fails where that fails. A reader that failed wants no more.
pub proof fn chunks_do_not_change_events<P: Protocol>(
    protocol: P,
    buffer: Seq<u8>,
    a: Seq<u8>,
    b: Seq<u8>,
)
    ensures
        ({
            let together = frames_read(protocol, whole_frames(buffer + (a + b)));
            let first = frames_read(protocol, whole_frames(buffer + a));
            let second = frames_read(protocol, whole_frames(left_over(buffer + a) + b));
            if first.1 is Some {
                together == first
            } else {
                together == (first.0 + second.0, second.1)
            }
        }),
{
    assert(buffer + (a + b) == (buffer + a) + b);
    chunks_do_not_matter(buffer + a, b);
    frames_read_in_parts(
        protocol,
        whole_frames(buffer + a),
        whole_frames(left_over(buffer + a) + b),
    );
}

/// An endpoint that speaks a protocol, with what a call to it needs.
pub struct ApiProvider<P: Protocol> {
    protocol: P,
    key: Secret,
    base_url: String,
    reach: Reach,
    registry: Arc<Registry>,
}

/// What an [`ApiProvider`] holds besides its protocol.
#[verifier::ext_equal]
pub struct Endpoint {
    pub key: Credential,
    pub base_url: Seq<char>,
    pub reach: Reach,
    pub registry: crate::registry::Listing,
}

/// What a reply holds: the document in its body, where the status says that the call went well
/// and the body is one.
pub open spec fn document_in(reply: Received) -> Result<Tree, Failure> {
    match reply.checked() {
        Err(why) => Err(why),
        Ok(_) => match json_parsed_bytes(reply.body) {
            Ok(tree) => Ok(tree),
            Err(why) => Err(Failure::Unreadable("the reply was not JSON: "@ + why)),
        },
    }
}

/// Reads the document in the body of a reply.
pub fn read_document(response: &HttpResponse) -> (json: Result<Json, Error>)
    ensures
        outcome(json) == document_in(response.deep_view()),
{
    match response.check() {
        Err(why) => Err(why),
        Ok(_) => match Json::parse_bytes(response.body.as_slice()) {
            Ok(json) => Ok(json),
            Err(why) => Err(Error::Unreadable(followed_by("the reply was not JSON: ", &why))),
        },
    }
}

/// The bytes of a document as it is sent.
pub fn written(json: &Json) -> (bytes: Vec<u8>)
    ensures
        bytes@ == encode_utf8(json_text(json.tree())),
{
    bytes_of(json.to_text().as_str())
}

/// Whether a model is among others.
fn is_listed(names: &Vec<ModelId>, model: &ModelId) -> (yes: bool)
    ensures
        yes == names.deep_view().contains(model@),
{
    let ghost all = names.deep_view();
    let mut i: usize = 0;
    while i < names.len()
        invariant
            i <= names.len(),
            all == names.deep_view(),
            forall|j: int| 0 <= j < i ==> (#[trigger] all[j]) != model@,
        decreases names.len() - i,
    {
        assert(all[i as int] == names[i as int]@);
        if same(names[i].as_str(), model.as_str()) {
            return true;
        }
        i += 1;
    }
    false
}

impl<P: Protocol> ApiProvider<P> {
    /// The protocol this endpoint speaks.
    pub closed spec fn speaks(self) -> P {
        self.protocol
    }

    /// What this endpoint holds besides its protocol.
    pub closed spec fn holds(self) -> Endpoint {
        Endpoint {
            key: self.key@,
            base_url: self.base_url@,
            reach: self.reach,
            registry: self.registry.deep_view(),
        }
    }

    /// The request that asks this endpoint for a chat.
    pub open spec fn chat_sent(self, request: Asked) -> Result<Sent, Failure> {
        match (self.speaks().body_of(request), self.speaks().header_list(self.holds().key)) {
            (Err(why), _) => Err(why),
            (_, Err(why)) => Err(why),
            (Ok(body), Ok(headers)) => Ok(
                Sent {
                    method: Method::Post,
                    url: self.speaks().chat_address(self.holds().base_url, request.model),
                    headers,
                    body: encode_utf8(json_text(body)),
                },
            ),
        }
    }

    /// The request that asks this endpoint for a reply in pieces: none where the protocol has
    /// no such form.
    pub open spec fn stream_sent(self, request: Asked) -> Result<Option<Sent>, Failure> {
        match self.speaks().stream_body_of(request) {
            Err(why) => Err(why),
            Ok(None) => Ok(None),
            Ok(Some(body)) => match self.speaks().header_list(self.holds().key) {
                Err(why) => Err(why),
                Ok(headers) => Ok(
                    Some(
                        Sent {
                            method: Method::Post,
                            url: self.speaks().stream_address(
                                self.holds().base_url,
                                request.model,
                            ),
                            headers,
                            body: encode_utf8(json_text(body)),
                        },
                    ),
                ),
            },
        }
    }

    /// What the outcome of asking for the model list says about a model. A protocol without a
    /// list has nothing free to ask, which says nothing either way.
    pub open spec fn access_of(
        self,
        listed: Result<Seq<Seq<char>>, Failure>,
        model: Seq<char>,
    ) -> Answer {
        if self.speaks().catalogue_address(self.holds().base_url) is None {
            Answer::Unknown(self.speaks().name() + " has no free way to be asked"@)
        } else {
            match listed {
                Err(why) => doubt(self.speaks().name(), why),
                Ok(names) => if names.contains(model) {
                    Answer::Ready
                } else {
                    Answer::Denied(
                        self.speaks().name() + " does not list "@ + model
                            + ". Either the name is wrong or this key cannot reach it"@,
                    )
                },
            }
        }
    }

    /// The request that asks this endpoint for its model list.
    pub open spec fn catalogue_sent(self) -> Result<Sent, Failure> {
        match self.speaks().catalogue_address(self.holds().base_url) {
            None => Err(Failure::Unsupported(self.speaks().name() + " has no model catalogue"@)),
            Some(url) => match self.speaks().header_list(self.holds().key) {
                Err(why) => Err(why),
                Ok(headers) => Ok(
                    Sent { method: Method::Get, url, headers, body: Seq::empty() },
                ),
            },
        }
    }

    /// An endpoint at this address. Slashes behind the address are left out.
    pub fn new(
        protocol: P,
        base_url: &str,
        key: Secret,
        reach: Reach,
        registry: Arc<Registry>,
    ) -> (provider: ApiProvider<P>)
        ensures
            provider.speaks() == protocol,
            provider.holds() == (Endpoint {
                key: key@,
                base_url: without_trailing(base_url@, '/'),
                reach,
                registry: registry.deep_view(),
            }),
    {
        ApiProvider {
            protocol,
            key,
            base_url: trim_end_matches(base_url, '/'),
            reach,
            registry,
        }
    }

    /// Where this endpoint runs.
    pub fn reach(&self) -> (reach: Reach)
        ensures
            reach == self.holds().reach,
    {
        self.reach
    }

    /// The protocol this endpoint speaks.
    pub fn protocol(&self) -> (protocol: &P)
        ensures
            *protocol == self.speaks(),
    {
        &self.protocol
    }

    /// A short name for this provider, used in records and reports.
    pub fn id(&self) -> (id: &str)
        ensures
            id@ == self.speaks().name(),
    {
        self.protocol.id()
    }

    /// What this model can do when reached through this provider.
    pub fn capabilities(&self, model: &ModelId) -> (have: Option<ModelCapabilities>)
        ensures
            have == self.holds().registry.capabilities(model@),
    {
        self.registry.capabilities(model)
    }

    /// The request that asks for a chat.
    pub fn chat_request(&self, request: &ChatRequest) -> (sent: Result<HttpRequest, Error>)
        requires
            self.speaks().writes(request.deep_view()),
        ensures
            outcome(sent) == self.chat_sent(request.deep_view()),
    {
        let body = match self.protocol.body(request) {
            Ok(body) => body,
            Err(why) => {
                return Err(why);
            },
        };
        let url = self.protocol.chat_url(self.base_url.as_str(), &request.model);
        match self.protocol.headers(&self.key) {
            Err(why) => Err(why),
            Ok(headers) => Ok(
                HttpRequest { method: Method::Post, url, headers, body: written(&body) },
            ),
        }
    }

    /// Reads what came back for a chat.
    pub fn read_chat(&self, response: &HttpResponse, asked_for: &ModelId) -> (reply: Result<
        ChatResponse,
        Error,
    >)
        ensures
            outcome(reply) == (match document_in(response.deep_view()) {
                Err(why) => Err(why),
                Ok(tree) => self.speaks().reply_in(tree, asked_for@),
            }),
    {
        match read_document(response) {
            Err(why) => Err(why),
            Ok(json) => self.protocol.read(&json, asked_for),
        }
    }

    /// The request that asks for the model list.
    pub fn catalogue_request(&self) -> (sent: Result<HttpRequest, Error>)
        ensures
            outcome(sent) == self.catalogue_sent(),
    {
        match self.protocol.catalogue_url(self.base_url.as_str()) {
            None => Err(Error::Unsupported(crate::provider::no_catalogue(self.protocol.id()))),
            Some(url) => match self.protocol.headers(&self.key) {
                Err(why) => Err(why),
                Ok(headers) => Ok(
                    HttpRequest { method: Method::Get, url, headers, body: Vec::new() },
                ),
            },
        }
    }

    /// Reads what came back for the model list, in the order of the names.
    pub fn read_models(&self, response: &HttpResponse) -> (ids: Result<Vec<ModelId>, Error>)
        ensures
            match document_in(response.deep_view()) {
                Err(failure) => ids matches Err(why) && why.deep_view() == failure,
                Ok(tree) => match (ids, self.speaks().names_in(tree)) {
                    (Ok(ids), Ok(names)) => ordered(ids.deep_view())
                        && ids.deep_view().to_multiset() == names.to_multiset(),
                    (Err(why), Err(failure)) => why.deep_view() == failure,
                    _ => false,
                },
            },
    {
        match read_document(response) {
            Err(why) => Err(why),
            Ok(json) => self.protocol.read_catalogue(&json),
        }
    }

    /// Reads what the outcome of asking for the model list says about a model.
    ///
    /// The list is free, and it is the one thing that establishes the credential and the
    /// entitlement together. A rejected key is settled and must not read as "ask again later".
    pub fn read_access(&self, listed: &Result<Vec<ModelId>, Error>, model: &ModelId) -> (access:
        Access)
        ensures
            access.deep_view() == self.access_of(outcome(*listed), model@),
    {
        if self.protocol.catalogue_url(self.base_url.as_str()).is_none() {
            return never_asked(self.protocol.id());
        }
        let names = match listed {
            Ok(names) => names,
            Err(why) => {
                return doubt_or_refusal(self.protocol.id(), why);
            },
        };
        if is_listed(names, model) {
            return Access::Ready;
        }
        Access::denied(
            followed_by(self.protocol.id(), " does not list ").concat(model.as_str()).concat(
                ". Either the name is wrong or this key cannot reach it",
            ).as_str(),
        )
    }

    /// The request that asks for a reply in pieces: none where the protocol has no such form,
    /// and a whole reply is asked for instead.
    pub fn stream_request(&self, request: &ChatRequest) -> (sent: Result<
        Option<HttpRequest>,
        Error,
    >)
        requires
            self.speaks().writes(request.deep_view()),
        ensures
            outcome(sent) == self.stream_sent(request.deep_view()),
    {
        let body = match self.protocol.stream_body(request) {
            Err(why) => {
                return Err(why);
            },
            Ok(None) => {
                return Ok(None);
            },
            Ok(Some(body)) => body,
        };
        let url = self.protocol.stream_url(self.base_url.as_str(), &request.model);
        match self.protocol.headers(&self.key) {
            Err(why) => Err(why),
            Ok(headers) => Ok(
                Some(HttpRequest { method: Method::Post, url, headers, body: written(&body) }),
            ),
        }
    }
}

/// A whole call goes to the protocol's address for it with its headers and its body, and the same
/// of a streamed one and of the list of models.
pub proof fn a_call_is_sent_as_the_protocol_writes_it<P: Protocol>(
    provider: ApiProvider<P>,
    request: Asked,
    body: Tree,
    headers: Seq<(Seq<char>, Seq<char>)>,
)
    requires
        provider.speaks().header_list(provider.holds().key) == Ok::<
            Seq<(Seq<char>, Seq<char>)>,
            Failure,
        >(headers),
    ensures
        provider.speaks().body_of(request) == Ok::<Tree, Failure>(body) ==> ({
            let sent = provider.chat_sent(request)->Ok_0;
            &&& provider.chat_sent(request) is Ok
            &&& sent.method is Post
            &&& sent.url == provider.speaks().chat_address(
                provider.holds().base_url,
                request.model,
            )
            &&& sent.headers == headers
            &&& sent.body == encode_utf8(json_text(body))
        }),
        provider.speaks().stream_body_of(request) == Ok::<Option<Tree>, Failure>(Some(body)) ==> ({
            let sent = provider.stream_sent(request)->Ok_0;
            &&& provider.stream_sent(request) is Ok
            &&& sent is Some
            &&& sent->0.method is Post
            &&& sent->0.url == provider.speaks().stream_address(
                provider.holds().base_url,
                request.model,
            )
            &&& sent->0.headers == headers
            &&& sent->0.body == encode_utf8(json_text(body))
        }),
        provider.speaks().catalogue_address(provider.holds().base_url) is Some ==> ({
            let sent = provider.catalogue_sent()->Ok_0;
            &&& provider.catalogue_sent() is Ok
            &&& sent.method is Get
            &&& Some(sent.url) == provider.speaks().catalogue_address(provider.holds().base_url)
            &&& sent.headers == headers
            &&& sent.body.len() == 0
        }),
{
}

/// A model is ready exactly where the provider's list names it; a list that leaves it out denies
/// it, and a list that did not come is a doubt.
pub proof fn only_a_listed_model_is_ready<P: Protocol>(
    provider: ApiProvider<P>,
    names: Seq<Seq<char>>,
    why: Failure,
    model: Seq<char>,
)
    requires
        provider.speaks().catalogue_address(provider.holds().base_url) is Some,
    ensures
        names.contains(model) ==> provider.access_of(Ok(names), model) is Ready,
        !names.contains(model) ==> provider.access_of(Ok(names), model) is Denied,
        provider.access_of(Err(why), model) == doubt(provider.speaks().name(), why),
{
}

/// A line of a stream is a name, a colon and a value, and one blank behind the colon is no part of
/// the value.
pub proof fn a_line_is_a_name_and_a_value(name: Seq<char>, value: Seq<char>)
    requires
        name.len() > 0,
        forall|i: int| 0 <= i < name.len() ==> #[trigger] name[i] != ':',
    ensures
        field_of(name + ": "@ + value) == Some((name, value)),
        value.len() > 0 && value[0] != ' ' ==> field_of(name + seq![':'] + value) == Some(
            (name, value),
        ),
        field_of(seq![':'] + value) is None,
{
    reveal_strlit(": ");
    let spaced = name + ": "@ + value;
    let tight = name + seq![':'] + value;
    assert(spaced[0] == name[0] && tight[0] == name[0]);
    assert forall|i: int| 0 <= i < name.len() implies #[trigger] spaced[i] != ':' by {
        assert(spaced[i] == name[i]);
    }
    assert forall|i: int| 0 <= i < name.len() implies #[trigger] tight[i] != ':' by {
        assert(tight[i] == name[i]);
    }
    assert(spaced[name.len() as int] == ':' && tight[name.len() as int] == ':');
    until_is(spaced, ':', name.len() as int);
    until_is(tight, ':', name.len() as int);
    assert(spaced.take(name.len() as int) == name && tight.take(name.len() as int) == name);
    assert(spaced.skip(name.len() as int + 1) == seq![' '] + value);
    assert((seq![' '] + value).skip(1) == value);
    assert(tight.skip(name.len() as int + 1) == value);
}

/// A line that names the event names it, the last such line does, and a line of data is one more
/// line of it.
pub proof fn lines_make_a_frame(lines: Seq<Seq<char>>, line: Seq<char>, value: Seq<char>)
    ensures
        field_of(line_text(line)) == Some(("event"@, value)) ==> fields_of(lines.push(line)) == (
            value,
            fields_of(lines).1,
        ),
        field_of(line_text(line)) == Some(("data"@, value)) ==> fields_of(lines.push(line)) == (
            fields_of(lines).0,
            fields_of(lines).1.push(value),
        ),
        field_of(line_text(line)) is None ==> fields_of(lines.push(line)) == fields_of(lines),
        fields_of(Seq::<Seq<char>>::empty()).0.len() == 0,
        fields_of(Seq::<Seq<char>>::empty()).1.len() == 0,
{
    assert(lines.push(line).drop_last() == lines);
    reveal_strlit("event");
    reveal_strlit("data");
    assert("event"@.len() != "data"@.len());
}

/// A frame without data is none, and the lines of data of one that has some are joined by line
/// ends.
pub proof fn data_makes_a_frame(text: Seq<char>)
    ensures
        frame_of(text) is Some <==> fields_of(pieces(text, '\n')).1.len() > 0,
        frame_of(text) is Some ==> frame_of(text)->0.event == fields_of(pieces(text, '\n')).0
            && frame_of(text)->0.data == joined(fields_of(pieces(text, '\n')).1, "\n"@),
{
}

/// A blank line ends a frame, with either kind of line end.
pub proof fn a_blank_line_ends_a_frame(bytes: Seq<u8>, i: int)
    requires
        0 <= i < bytes.len(),
    ensures
        i + 1 < bytes.len() && bytes[i] == 10 && bytes[i + 1] == 10 ==> end_at(bytes, i) == 2,
        i + 3 < bytes.len() && bytes[i] == 13 && bytes[i + 1] == 10 && bytes[i + 2] == 13
            && bytes[i + 3] == 10 ==> end_at(bytes, i) == 4,
        bytes[i] != 10 && bytes[i] != 13 ==> end_at(bytes, i) == 0,
{
}

/// A reply that failed is that failure, and one that is no document cannot be read.
pub proof fn a_reply_is_checked_before_it_is_read(reply: Received)
    ensures
        reply.checked() is Err ==> document_in(reply) == Err::<Tree, Failure>(
            reply.checked()->Err_0,
        ),
        reply.checked() is Ok && json_parsed_bytes(reply.body) is Ok ==> document_in(reply) == Ok::<
            Tree,
            Failure,
        >(json_parsed_bytes(reply.body)->Ok_0),
        reply.checked() is Ok && json_parsed_bytes(reply.body) is Err ==> document_in(reply) is Err
            && document_in(reply)->Err_0 is Unreadable,
{
}

/// What stands in front of the first blank line is a frame, and the frames behind it follow.
pub proof fn a_frame_is_what_stands_before_the_blank_line(frame: Seq<u8>, rest: Seq<u8>)
    requires
        forall|i: int| 0 <= i < frame.len() ==> #[trigger] frame[i] != 10 && frame[i] != 13,
    ensures
        whole_frames(frame + seq![10u8, 10u8] + rest) == seq![frame] + whole_frames(rest),
        left_over(frame + seq![10u8, 10u8] + rest) == left_over(rest),
        whole_frames(frame + seq![13u8, 10u8, 13u8, 10u8] + rest) == seq![frame] + whole_frames(
            rest,
        ),
        whole_frames(frame).len() == 0,
        left_over(frame) == frame,
{
    let at = frame.len() as int;
    let short = frame + seq![10u8, 10u8] + rest;
    let long = frame + seq![13u8, 10u8, 13u8, 10u8] + rest;
    assert forall|i: int| 0 <= i < at implies #[trigger] end_at(short, i) == 0 by {
        assert(short[i] == frame[i]);
    }
    assert forall|i: int| 0 <= i < at implies #[trigger] end_at(long, i) == 0 by {
        assert(long[i] == frame[i]);
    }
    assert forall|i: int| 0 <= i < at implies #[trigger] end_at(frame, i) == 0 by {
        assert(frame[i] != 10 && frame[i] != 13);
    }
    assert(end_at(short, at) == 2) by {
        assert(short[at] == 10 && short[at + 1] == 10);
    }
    assert(end_at(long, at) == 4) by {
        assert(long[at] == 13 && long[at + 1] == 10 && long[at + 2] == 13 && long[at + 3] == 10);
    }
    next_end_is(short, 0, at);
    next_end_is(long, 0, at);
    next_end_is(frame, 0, at);
    assert(short.take(at) == frame && short.skip(at + 2) == rest);
    assert(long.take(at) == frame && long.skip(at + 4) == rest);
}

/// A provider without a list of models says that it has none, and cannot be asked for free.
pub proof fn a_provider_without_a_list_says_so<P: Protocol>(
    provider: ApiProvider<P>,
    listed: Result<Seq<Seq<char>>, Failure>,
    model: Seq<char>,
)
    requires
        provider.speaks().catalogue_address(provider.holds().base_url) is None,
    ensures
        provider.catalogue_sent() is Err,
        provider.catalogue_sent()->Err_0 is Unsupported,
        provider.access_of(listed, model) is Unknown,
{
}

/// What a protocol refuses to write is not sent, with what it says of it.
pub proof fn what_cannot_be_written_is_not_sent<P: Protocol>(
    provider: ApiProvider<P>,
    request: Asked,
    why: Failure,
)
    ensures
        provider.speaks().body_of(request) == Err::<Tree, Failure>(why) ==> provider.chat_sent(
            request,
        ) == Err::<Sent, Failure>(why),
        provider.speaks().stream_body_of(request) == Err::<Option<Tree>, Failure>(why)
            ==> provider.stream_sent(request) == Err::<Option<Sent>, Failure>(why),
        provider.speaks().stream_body_of(request) == Ok::<Option<Tree>, Failure>(None)
            ==> provider.stream_sent(request) == Ok::<Option<Sent>, Failure>(None),
{
}

/// Frames are read in their order until one cannot be: what was said before it is kept, and
/// nothing behind it is read.
pub proof fn frames_are_read_until_one_cannot_be<P: Protocol>(
    protocol: P,
    frames: Seq<Seq<u8>>,
    raw: Seq<u8>,
)
    ensures
        frames_read(protocol, Seq::<Seq<u8>>::empty()).0.len() == 0,
        frames_read(protocol, Seq::<Seq<u8>>::empty()).1 is None,
        ({
            let before = frames_read(protocol, frames);
            let after = frames_read(protocol, frames.push(raw));
            &&& before.1 is Some ==> after == before
            &&& (before.1 is None && frame_in(raw) is None) ==> after == before
            &&& (before.1 is None && frame_in(raw) is Some && protocol.events_in(frame_in(raw)->0)
                is Ok) ==> after.1 is None && after.0 == before.0 + protocol.events_in(
                frame_in(raw)->0,
            )->Ok_0
            &&& (before.1 is None && frame_in(raw) is Some && protocol.events_in(frame_in(raw)->0)
                is Err) ==> after.0 == before.0 && after.1 == Some(
                protocol.events_in(frame_in(raw)->0)->Err_0,
            )
        }),
{
    assert(frames.push(raw).drop_last() == frames);
}

/// What is said of a model that is not listed, a provider without a list and a reply that is no
/// document.
pub proof fn what_is_not_there_is_said_so<P: Protocol>(
    provider: ApiProvider<P>,
    names: Seq<Seq<char>>,
    model: Seq<char>,
    reply: Received,
)
    requires
        !names.contains(model),
    ensures
        ({
            let name = provider.speaks().name();
            let answer = provider.access_of(Ok(names), model);
            if provider.speaks().catalogue_address(provider.holds().base_url) is Some {
                answer == Answer::Denied(
                    name + " does not list "@ + model
                        + ". Either the name is wrong or this key cannot reach it"@,
                )
            } else {
                answer == Answer::Unknown(name + " has no free way to be asked"@)
                    && provider.catalogue_sent() == Err::<Sent, Failure>(
                    Failure::Unsupported(name + " has no model catalogue"@),
                )
            }
        }),
        reply.checked() is Ok && json_parsed_bytes(reply.body) is Err ==> document_in(reply)
            == Err::<Tree, Failure>(
            Failure::Unreadable("the reply was not JSON: "@ + json_parsed_bytes(reply.body)->Err_0),
        ),
{
}

} // verus!
