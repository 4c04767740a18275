//! What a model gives back.

use crate::chat::message::{calls, ContentBlock, Message, StopReason, Turn};
use crate::cost::usage::Usage;
use crate::model::ModelId;
use vstd::prelude::*;

verus! {

/// One reply from one model.
#[derive(Debug, PartialEq)]
pub struct ChatResponse {
    /// The model's turn.
    pub message: Message,
    /// Why it stopped. Check [`StopReason::is_complete`] before you use the text.
    pub stop_reason: StopReason,
    /// The provider's own word on why it stopped, where it gave one.
    pub stop_details: Option<String>,
    /// What the call consumed, as far as the provider reported it.
    pub usage: Usage,
    /// Which model actually served this.
    ///
    /// Can differ from the one you asked for. Providers alias names, and some fall back to
    /// a different model under load. Price against this one, not against your request.
    pub model: ModelId,
}

/// What a [`ChatResponse`] holds.
#[verifier::ext_equal]
pub struct Reply {
    pub message: Turn,
    pub stop_reason: StopReason,
    pub stop_details: Option<Seq<char>>,
    pub usage: Usage,
    pub model: Seq<char>,
}

impl DeepView for ChatResponse {
    type V = Reply;

    open spec fn deep_view(&self) -> Reply {
        Reply {
            message: self.message.deep_view(),
            stop_reason: self.stop_reason,
            stop_details: self.stop_details.deep_view(),
            usage: self.usage,
            model: self.model@,
        }
    }
}

impl Clone for ChatResponse {
    fn clone(&self) -> (copy: ChatResponse)
        ensures
            copy.deep_view() == self.deep_view(),
    {
        ChatResponse {
            message: self.message.clone(),
            stop_reason: self.stop_reason,
            stop_details: self.stop_details.clone(),
            usage: self.usage,
            model: self.model.copied(),
        }
    }
}

impl ChatResponse {
    /// A reply.
    ///
    /// Pass [`Usage::absent`] when the provider reported nothing. Do not pass zeros: an
    /// unknown cost written as zero becomes a free call in every report that adds it up.
    pub fn new(message: Message, stop_reason: StopReason, usage: Usage, model: ModelId) -> (reply:
        ChatResponse)
        ensures
            reply.deep_view() == (Reply {
                message: message.deep_view(),
                stop_reason,
                stop_details: None,
                usage,
                model: model@,
            }),
    {
        ChatResponse { message, stop_reason, stop_details: None, usage, model }
    }

    /// Adds the provider's own word on why it stopped.
    pub fn with_stop_details(self, details: &str) -> (reply: ChatResponse)
        ensures
            reply.deep_view() == (Reply { stop_details: Some(details@), ..self.deep_view() }),
    {
        ChatResponse { stop_details: Some(details.to_owned()), ..self }
    }

    /// The reply as plain text, with tool calls left out.
    pub fn text(&self) -> (text: String)
        ensures
            text@ == self.deep_view().message.text(),
    {
        self.message.text()
    }

    /// The tools the model asked to have run.
    pub fn tool_calls(&self) -> (found: Vec<&ContentBlock>)
        ensures
            found.deep_view() == calls(self.deep_view().message.content),
    {
        self.message.tool_calls()
    }

    /// The provider's own word on why it stopped, where it gave one.
    pub fn stop_details(&self) -> (details: Option<&str>)
        ensures
            details.deep_view() == self.deep_view().stop_details,
    {
        match &self.stop_details {
            Some(details) => Some(details.as_str()),
            None => None,
        }
    }

    /// Whether the answer is whole.
    ///
    /// A reply that hit the output limit is not, and it arrives with a status code that
    /// says everything went fine.
    pub fn is_complete(&self) -> (yes: bool)
        ensures
            yes == (self.stop_reason is EndTurn || self.stop_reason is ToolUse || self.stop_reason
                is StopSequence),
    {
        self.stop_reason.is_complete()
    }
}

/// A reply is seen as each of its parts.
pub proof fn a_reply_is_seen_whole(reply: ChatResponse)
    ensures
        reply.deep_view().message == reply.message.deep_view(),
        reply.deep_view().stop_reason == reply.stop_reason,
        reply.deep_view().stop_details is Some <==> reply.stop_details is Some,
        reply.stop_details is Some ==> reply.deep_view().stop_details->0 == reply.stop_details->0@,
        reply.deep_view().usage == reply.usage,
        reply.deep_view().model == reply.model@,
{
}

} // verus!
