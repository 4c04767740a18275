//! A contract suite for anyone writing a provider.
//!
//! Each function here is given what a provider did and says which promise that breaks, if any.
//! Calling the provider, and failing loudly with what is said, is the caller's. Every provider
//! in this crate keeps all of these promises: a suite only one implementation can pass has
//! stopped being a specification and become a description of that implementation.

use crate::chat::message::StopReason;
use crate::chat::response::{ChatResponse, Reply};
use crate::cost::usage::UsageCoverage;
use crate::error::{outcome, Error, Failure};
use crate::model::ModelCapabilities;
use crate::provider::{Access, Answer};
use crate::text::{blank, chars_of, followed_by, is_blank, is_white, quote, quoted, same, white};
use vstd::prelude::*;

verus! {

/// A model that nobody serves, for a provider to be asked about.
pub const NO_SUCH_MODEL: &'static str = "llmr-contract-no-such-model";

/// How a streamed call came out.
#[derive(Debug)]
pub enum Streamed {
    /// The stream never started.
    NotStarted(Error),
    /// The stream broke partway.
    Broke(Error),
    /// The stream ran to its end, and this is what it assembled into.
    Whole(ChatResponse),
}

/// What a [`Streamed`] says.
#[verifier::ext_equal]
pub enum Ran {
    NotStarted(Failure),
    Broke(Failure),
    Whole(Reply),
}

impl DeepView for Streamed {
    type V = Ran;

    open spec fn deep_view(&self) -> Ran {
        match *self {
            Streamed::NotStarted(why) => Ran::NotStarted(why.deep_view()),
            Streamed::Broke(why) => Ran::Broke(why.deep_view()),
            Streamed::Whole(reply) => Ran::Whole(reply.deep_view()),
        }
    }
}

/// Whether there is white space in a text.
pub open spec fn has_white(text: Seq<char>) -> bool {
    exists|i: int| 0 <= i < text.len() && is_white(#[trigger] text[i])
}

/// Which promise about what it says of itself a provider breaks, given its id, what it says of
/// a model that nobody serves, and what it says of one that it serves.
pub open spec fn broken_identity(
    id: Seq<char>,
    unknown: Option<ModelCapabilities>,
    known: Option<ModelCapabilities>,
    known_model: Seq<char>,
) -> Option<Seq<char>> {
    if is_blank(id) {
        Some("a provider with no id"@)
    } else if has_white(id) {
        Some(
            quoted(id)
                + " has whitespace in it. This goes into records and reports beside every call, and a name with a space in it splits when somebody parses a line"@,
        )
    } else if unknown is Some {
        Some(
            id
                + " claims to know a model that does not exist. None means unknown; a capability set with everything off means known and unable"@,
        )
    } else {
        match known {
            Some(have) => if have.max_output > have.context_window && have.context_window != 0 {
                Some(id + " says "@ + known_model
                    + " produces more tokens than fit in its window"@)
            } else {
                None
            },
            None => None,
        }
    }
}

/// Which promise about being reached a provider breaks, given what it answered for a model that
/// it serves, for one that nobody serves, and for the first once more.
pub open spec fn broken_access(
    id: Seq<char>,
    known_model: Seq<char>,
    access: Answer,
    unknown: Answer,
    again: Answer,
) -> Option<Seq<char>> {
    if access is Denied {
        Some(
            id + " says "@ + known_model + " cannot be reached ("@ + access.line()
                + "), and this suite is about to reach it. Denied is for a settled no, so one of the two is wrong"@,
        )
    } else if unknown is Ready {
        Some(
            id
                + " says a model that does not exist is reachable. That is the same failure as a provider claiming to know every model name, one method along: it turns a typo into something a router will happily select"@,
        )
    } else if access.name() != again.name() {
        Some(
            id + " answered "@ + access.line() + " and then "@ + again.line()
                + " for the same model. Either it cached the first answer or it is holding state between calls"@,
        )
    } else {
        None
    }
}

/// Which promise about a whole reply a provider breaks.
pub open spec fn broken_reply(id: Seq<char>, reply: Result<Reply, Failure>) -> Option<Seq<char>> {
    match reply {
        Err(why) => Some(id + " could not answer a one word request: "@ + why.line()),
        Ok(reply) => if reply.message.content.len() == 0 {
            Some(
                id
                    + " returned a reply with no content. An unreadable reply is an error, never an empty answer, because a caller cannot tell an empty answer from a failure"@,
            )
        } else if is_blank(reply.model) {
            Some(
                id
                    + " did not say which model served the request. Price against this one, not against what was asked for, so it has to be there"@,
            )
        } else if reply.usage.covers() != UsageCoverage::Absent && reply.usage.output_tokens
            == Some(0u64) && reply.message.text().len() > 0 {
            Some(id + " reported zero output tokens for a reply that has text in it"@)
        } else {
            None
        },
    }
}

/// Which promise about a streamed reply a provider breaks, given the whole reply to the same
/// question.
pub open spec fn broken_stream(id: Seq<char>, streamed: Ran, whole: Reply) -> Option<Seq<char>> {
    match streamed {
        Ran::NotStarted(why) => Some(
            id + " could not answer the same request as a stream: "@ + why.line(),
        ),
        Ran::Broke(why) => Some(id + " broke partway through a stream: "@ + why.line()),
        Ran::Whole(assembled) => if assembled.message.content.len() == 0 {
            Some(
                id
                    + " streamed a reply with no content in it. The same rule as `chat`: an unreadable reply is an error, never an empty answer"@,
            )
        } else if assembled.stop_reason is Interrupted {
            Some(
                id
                    + " ended a stream without ever saying why it stopped. That reads as a connection that broke, so a caller cannot tell this apart from one that did"@,
            )
        } else if assembled.usage.covers() != whole.usage.covers() {
            Some(
                id
                    + " reports usage differently depending on whether the reply was streamed. A streamed call that reports nothing where a whole one reports numbers becomes a free call in every report that adds it up"@,
            )
        } else if is_blank(assembled.model) {
            Some(id + " did not say which model served the streamed request"@)
        } else {
            None
        },
    }
}

/// Which promise a provider breaks when it is asked a second time.
pub open spec fn broken_again(id: Seq<char>, answered: bool) -> Option<Seq<char>> {
    if answered {
        None
    } else {
        Some(
            id
                + " answered once and failed the second time, which usually means state left over from the first call"@,
        )
    }
}

/// Which promise a provider breaks that was built with a credential it will reject.
pub open spec fn broken_credential(id: Seq<char>, access: Answer) -> Option<Seq<char>> {
    match access {
        Answer::Denied(_) => None,
        Answer::Ready => Some(
            id
                + " says it is ready with a credential that will be rejected. Whatever this checked, it was not the credential"@,
        ),
        Answer::Unknown(why) => Some(
            id + " reports a rejected credential as unknown ("@ + why
                + "). Unknown means ask again later, so a router keeps this provider and a retry loop keeps trying it. A key nobody is told about is a key nobody fixes"@,
        ),
    }
}

/// Says which promise about what it says of itself a provider breaks, if any.
///
/// A model nobody serves must be unknown rather than something plausible. The two are
/// different questions, and a caller that cannot tell them apart will send a request to a
/// model that does not exist and read the failure as a network problem.
pub fn check_identity(
    id: &str,
    unknown: Option<ModelCapabilities>,
    known: Option<ModelCapabilities>,
    known_model: &str,
) -> (broken: Option<String>)
    ensures
        broken.deep_view() == broken_identity(id@, unknown, known, known_model@),
{
    if blank(id) {
        return Some("a provider with no id".to_owned());
    }
    let chars = chars_of(id);
    let mut i: usize = 0;
    while i < chars.len()
        invariant
            i <= chars.len(),
            chars@ == id@,
            !is_blank(id@),
            forall|j: int| 0 <= j < i ==> !is_white(#[trigger] id@[j]),
        decreases chars.len() - i,
    {
        if white(chars[i]) {
            assert(is_white(id@[i as int]));
            return Some(
                quote(id).concat(
                    " has whitespace in it. This goes into records and reports beside every call, and a name with a space in it splits when somebody parses a line",
                ),
            );
        }
        i += 1;
    }
    if unknown.is_some() {
        return Some(
            followed_by(
                id,
                " claims to know a model that does not exist. None means unknown; a capability set with everything off means known and unable",
            ),
        );
    }
    if let Some(have) = known {
        if have.max_output > have.context_window && have.context_window != 0 {
            return Some(
                followed_by(id, " says ").concat(known_model).concat(
                    " produces more tokens than fit in its window",
                ),
            );
        }
    }
    None
}

/// Says which promise about being reached a provider breaks, if any.
///
/// A provider that has nothing free to ask may answer that it is unknown to all of this and
/// still pass: what it may not do is contradict itself.
pub fn check_access(
    id: &str,
    known_model: &str,
    access: &Access,
    unknown: &Access,
    again: &Access,
) -> (broken: Option<String>)
    ensures
        broken.deep_view() == broken_access(
            id@,
            known_model@,
            access.deep_view(),
            unknown.deep_view(),
            again.deep_view(),
        ),
{
    if access.is_denied() {
        return Some(
            followed_by(id, " says ").concat(known_model).concat(" cannot be reached (").concat(
                access.to_string().as_str(),
            ).concat(
                "), and this suite is about to reach it. Denied is for a settled no, so one of the two is wrong",
            ),
        );
    }
    if unknown.is_ready() {
        return Some(
            followed_by(
                id,
                " says a model that does not exist is reachable. That is the same failure as a provider claiming to know every model name, one method along: it turns a typo into something a router will happily select",
            ),
        );
    }
    if !same(access.as_str(), again.as_str()) {
        return Some(
            followed_by(id, " answered ").concat(access.to_string().as_str()).concat(
                " and then ",
            ).concat(again.to_string().as_str()).concat(
                " for the same model. Either it cached the first answer or it is holding state between calls",
            ),
        );
    }
    None
}

/// Says which promise about a whole reply a provider breaks, if any.
///
/// Usage may be absent. What it must not be is invented: a provider that reports nothing and
/// writes zeros turns an unknown cost into a free one.
pub fn check_reply(id: &str, reply: &Result<ChatResponse, Error>) -> (broken: Option<String>)
    ensures
        broken.deep_view() == broken_reply(id@, outcome(*reply)),
{
    let reply = match reply {
        Ok(reply) => reply,
        Err(why) => {
            return Some(
                followed_by(id, " could not answer a one word request: ").concat(
                    why.to_string().as_str(),
                ),
            );
        },
    };
    assert(reply.deep_view().message.content.len() == reply.message.content.len());
    if reply.message.content.len() == 0 {
        return Some(
            followed_by(
                id,
                " returned a reply with no content. An unreadable reply is an error, never an empty answer, because a caller cannot tell an empty answer from a failure",
            ),
        );
    }
    if blank(reply.model.as_str()) {
        return Some(
            followed_by(
                id,
                " did not say which model served the request. Price against this one, not against what was asked for, so it has to be there",
            ),
        );
    }
    if reply.usage.coverage() != UsageCoverage::Absent {
        if let Some(0) = reply.usage.output_tokens {
            if reply.text().as_str().unicode_len() > 0 {
                return Some(
                    followed_by(
                        id,
                        " reported zero output tokens for a reply that has text in it",
                    ),
                );
            }
        }
    }
    None
}

/// Says which promise about a streamed reply a provider breaks, if any, given the whole reply to
/// the same question.
///
/// Every provider answers a stream, whether it really streams or hands the finished reply over
/// in one burst, so this holds for all of them. Two ways to ask the same question that
/// disagree about what the call cost make every cost report depend on which one you used.
pub fn check_stream(id: &str, streamed: &Streamed, whole: &ChatResponse) -> (broken: Option<String>)
    ensures
        broken.deep_view() == broken_stream(id@, streamed.deep_view(), whole.deep_view()),
{
    let assembled = match streamed {
        Streamed::NotStarted(why) => {
            return Some(
                followed_by(id, " could not answer the same request as a stream: ").concat(
                    why.to_string().as_str(),
                ),
            );
        },
        Streamed::Broke(why) => {
            return Some(
                followed_by(id, " broke partway through a stream: ").concat(
                    why.to_string().as_str(),
                ),
            );
        },
        Streamed::Whole(assembled) => assembled,
    };
    assert(assembled.deep_view().message.content.len() == assembled.message.content.len());
    if assembled.message.content.len() == 0 {
        return Some(
            followed_by(
                id,
                " streamed a reply with no content in it. The same rule as `chat`: an unreadable reply is an error, never an empty answer",
            ),
        );
    }
    if assembled.stop_reason == StopReason::Interrupted {
        return Some(
            followed_by(
                id,
                " ended a stream without ever saying why it stopped. That reads as a connection that broke, so a caller cannot tell this apart from one that did",
            ),
        );
    }
    if assembled.usage.coverage() != whole.usage.coverage() {
        return Some(
            followed_by(
                id,
                " reports usage differently depending on whether the reply was streamed. A streamed call that reports nothing where a whole one reports numbers becomes a free call in every report that adds it up",
            ),
        );
    }
    if blank(assembled.model.as_str()) {
        return Some(
            followed_by(id, " did not say which model served the streamed request"),
        );
    }
    None
}

/// Says which promise a provider breaks when it is asked a second time, if any.
///
/// A provider holding state between calls is the bug this cannot otherwise see. The answers may
/// differ. What must not differ is that both arrive.
pub fn check_again(id: &str, answered: bool) -> (broken: Option<String>)
    ensures
        broken.deep_view() == broken_again(id@, answered),
{
    if answered {
        None
    } else {
        Some(
            followed_by(
                id,
                " answered once and failed the second time, which usually means state left over from the first call",
            ),
        )
    }
}

/// Says which promise a provider breaks that was built with a credential it will reject, if any.
///
/// Unknown reads as "ask again later", so a router keeps the provider, a retry loop keeps
/// trying it, and the one failure that needs a person is the one that never surfaces. Denied is
/// what stops that.
pub fn check_credential(id: &str, access: &Access) -> (broken: Option<String>)
    ensures
        broken.deep_view() == broken_credential(id@, access.deep_view()),
{
    match access {
        Access::Denied { .. } => None,
        Access::Ready => Some(
            followed_by(
                id,
                " says it is ready with a credential that will be rejected. Whatever this checked, it was not the credential",
            ),
        ),
        Access::Unknown { why } => Some(
            followed_by(id, " reports a rejected credential as unknown (").concat(
                why.as_str(),
            ).concat(
                "). Unknown means ask again later, so a router keeps this provider and a retry loop keeps trying it. A key nobody is told about is a key nobody fixes",
            ),
        ),
    }
}

/// A provider passes the look at its name exactly where it has one without white in it, knows no
/// model that does not exist, and does not say that more comes out than goes in.
pub proof fn what_a_provider_says_of_itself_is_held_to(
    id: Seq<char>,
    unknown: Option<ModelCapabilities>,
    known: Option<ModelCapabilities>,
    known_model: Seq<char>,
)
    ensures
        broken_identity(id, unknown, known, known_model) is None <==> !is_blank(id) && !has_white(
            id,
        ) && unknown is None && (known is Some ==> known->0.context_window == 0
            || known->0.max_output <= known->0.context_window),
{
}

/// A provider passes the look at what it can reach exactly where it does not deny a model that it
/// serves, does not call one ready that does not exist, and answers the same twice.
pub proof fn what_a_provider_reaches_is_held_to(
    id: Seq<char>,
    known_model: Seq<char>,
    access: Answer,
    unknown: Answer,
    again: Answer,
)
    ensures
        broken_access(id, known_model, access, unknown, again) is None <==> !(access is Denied)
            && !(unknown is Ready) && access.name() == again.name(),
{
}

/// A reply passes exactly where there is one, with something in it, the name of a model, and no
/// count of nought for words that are there.
pub proof fn what_a_provider_answers_is_held_to(id: Seq<char>, reply: Result<Reply, Failure>)
    ensures
        broken_reply(id, reply) is None <==> reply is Ok && reply->Ok_0.message.content.len() > 0
            && !is_blank(reply->Ok_0.model) && !(reply->Ok_0.usage.output_tokens == Some(0u64)
            && reply->Ok_0.message.text().len() > 0),
{
}

/// A streamed reply passes exactly where it came whole, with something in it, a reason to stop,
/// the name of a model, and its tokens reported as fully as for the whole reply.
pub proof fn what_a_provider_streams_is_held_to(id: Seq<char>, streamed: Ran, whole: Reply)
    ensures
        broken_stream(id, streamed, whole) is None <==> streamed is Whole
            && streamed->Whole_0.message.content.len() > 0 && !(streamed->Whole_0.stop_reason
            is Interrupted) && streamed->Whole_0.usage.covers() == whole.usage.covers()
            && !is_blank(streamed->Whole_0.model),
{
}

/// A rejected credential passes exactly where it is denied.
pub proof fn a_rejected_credential_must_be_denied(id: Seq<char>, access: Answer)
    ensures
        broken_credential(id, access) is None <==> access is Denied,
        broken_again(id, true) is None,
        broken_again(id, false) is Some,
{
}

} // verus!
