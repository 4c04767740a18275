//! What can go wrong, in the shapes a caller can act on.

use crate::text::{decimal, decimal_text, followed_by};
use crate::time::Duration;
use vstd::prelude::*;

verus! {

/// Why a call did not produce an answer.
///
/// The variants are chosen so a caller can decide what to do without reading the message.
/// Retrying a bad credential earns a rate limit, and retrying a request the provider will
/// never accept just spends the budget twice, so those cases are separated from the ones
/// worth trying again.
#[derive(Debug, Clone, PartialEq, Eq)]
pub enum Error {
    /// The provider cannot do this at all.
    Unsupported(String),
    /// The credential was rejected. Never retry this one.
    Auth(String),
    /// The model, endpoint or resource does not exist.
    NotFound(String),
    /// The request was malformed, or the provider refused its shape.
    InvalidRequest(String),
    /// Too many requests.
    ///
    /// Honour `retry_after` when it is present. A backoff you guessed locally only makes
    /// the limit worse, because the provider is already telling you when it will clear.
    RateLimited {
        /// How long the provider asked you to wait, when it said.
        retry_after: Option<Duration>,
    },
    /// A deadline passed.
    ///
    /// Different from [`Error::Transient`] on purpose. The work may still be running on the
    /// provider's side, so a retry can produce a second answer you are billed for.
    Timeout {
        /// How long the call ran before it was given up on.
        elapsed: Duration,
    },
    /// The model declined to answer.
    ///
    /// Surfaced rather than retried. A refusal is an answer, and asking again in the hope
    /// of a different one wastes a call and usually gets the same reply.
    Refused {
        /// What the provider said it was declining, when it said.
        category: Option<String>,
    },
    /// Something went wrong that is worth trying again.
    Transient(String),
    /// The provider answered, and the answer could not be read.
    ///
    /// A successful status code with a body that cannot be parsed is a failure. Treating
    /// it as an empty answer is how a run continues on nothing.
    Unreadable(String),
}

/// What a call came to, with its answer and its failure taken by what they hold.
pub open spec fn outcome<T: DeepView, E: DeepView>(result: Result<T, E>) -> Result<T::V, E::V> {
    match result {
        Ok(value) => Ok(value.deep_view()),
        Err(why) => Err(why.deep_view()),
    }
}

/// What an [`Error`] says, with its messages as characters and its times in nanoseconds.
#[verifier::ext_equal]
pub enum Failure {
    Unsupported(Seq<char>),
    Auth(Seq<char>),
    NotFound(Seq<char>),
    InvalidRequest(Seq<char>),
    RateLimited { retry_after: Option<nat> },
    Timeout { elapsed: nat },
    Refused { category: Option<Seq<char>> },
    Transient(Seq<char>),
    Unreadable(Seq<char>),
}

impl DeepView for Error {
    type V = Failure;

    open spec fn deep_view(&self) -> Failure {
        match *self {
            Error::Unsupported(why) => Failure::Unsupported(why@),
            Error::Auth(why) => Failure::Auth(why@),
            Error::NotFound(why) => Failure::NotFound(why@),
            Error::InvalidRequest(why) => Failure::InvalidRequest(why@),
            Error::RateLimited { retry_after } => Failure::RateLimited {
                retry_after: retry_after.deep_view(),
            },
            Error::Timeout { elapsed } => Failure::Timeout { elapsed: elapsed@ },
            Error::Refused { category } => Failure::Refused { category: category.deep_view() },
            Error::Transient(why) => Failure::Transient(why@),
            Error::Unreadable(why) => Failure::Unreadable(why@),
        }
    }
}

impl Failure {
    /// Whether trying the same call again is reasonable.
    pub open spec fn is_retryable(self) -> bool {
        self is RateLimited || self is Timeout || self is Transient
    }

    /// How long the provider asked to wait, in nanoseconds, where it said.
    pub open spec fn retry_after(self) -> Option<nat> {
        match self {
            Failure::RateLimited { retry_after } => retry_after,
            _ => None,
        }
    }

    /// The failure in one line.
    pub open spec fn line(self) -> Seq<char> {
        match self {
            Failure::Unsupported(why) => "unsupported: "@ + why,
            Failure::Auth(why) => "authentication failed: "@ + why,
            Failure::NotFound(why) => "not found: "@ + why,
            Failure::InvalidRequest(why) => "invalid request: "@ + why,
            Failure::RateLimited { retry_after: Some(wait) } => "rate limited, retry after "@
                + decimal(wait / 1_000_000) + "ms"@,
            Failure::RateLimited { retry_after: None } => "rate limited"@,
            Failure::Timeout { elapsed } => "timed out after "@ + decimal(elapsed / 1_000_000)
                + "ms"@,
            Failure::Refused { category: Some(category) } => "the model declined: "@ + category,
            Failure::Refused { category: None } => "the model declined"@,
            Failure::Transient(why) => "transient: "@ + why,
            Failure::Unreadable(why) =>
                "the provider replied and the reply could not be read: "@ + why,
        }
    }
}

/// A length of time in whole milliseconds, between two texts.
fn millis_between(before: &str, wait: &Duration, after: &str) -> (text: String)
    ensures
        text@ == before@ + decimal(wait@ / 1_000_000) + after@,
{
    followed_by(before, decimal_text(wait.as_millis()).as_str()).concat(after)
}

impl Error {
    /// Whether trying the same call again is reasonable.
    ///
    /// This is a hint, not a promise. It says the failure was not the caller's fault and
    /// not permanent. It does not say the call is safe to repeat, which is a question about
    /// your request rather than about the error. A [`Error::Timeout`] is retryable and may
    /// still leave you paying for two answers.
    pub fn is_retryable(&self) -> (yes: bool)
        ensures
            yes == self.deep_view().is_retryable(),
    {
        match self {
            Error::RateLimited { .. } | Error::Timeout { .. } | Error::Transient(_) => true,
            _ => false,
        }
    }

    /// How long the provider asked you to wait, when it said.
    pub fn retry_after(&self) -> (wait: Option<Duration>)
        ensures
            wait.deep_view() == self.deep_view().retry_after(),
            wait == (match *self {
                Error::RateLimited { retry_after } => retry_after,
                _ => None,
            }),
    {
        match self {
            Error::RateLimited { retry_after } => *retry_after,
            _ => None,
        }
    }

    /// The failure in one line, for a person to read.
    pub fn to_string(&self) -> (line: String)
        ensures
            line@ == self.deep_view().line(),
    {
        match self {
            Error::Unsupported(why) => followed_by("unsupported: ", why),
            Error::Auth(why) => followed_by("authentication failed: ", why),
            Error::NotFound(why) => followed_by("not found: ", why),
            Error::InvalidRequest(why) => followed_by("invalid request: ", why),
            Error::RateLimited { retry_after: Some(wait) } => millis_between(
                "rate limited, retry after ",
                wait,
                "ms",
            ),
            Error::RateLimited { retry_after: None } => "rate limited".to_owned(),
            Error::Timeout { elapsed } => millis_between("timed out after ", elapsed, "ms"),
            Error::Refused { category: Some(category) } => followed_by(
                "the model declined: ",
                category,
            ),
            Error::Refused { category: None } => "the model declined".to_owned(),
            Error::Transient(why) => followed_by("transient: ", why),
            Error::Unreadable(why) => followed_by(
                "the provider replied and the reply could not be read: ",
                why,
            ),
        }
    }

    /// The same failure.
    pub fn copied(&self) -> (copy: Error)
        ensures
            copy.deep_view() == self.deep_view(),
    {
        match self {
            Error::Unsupported(why) => Error::Unsupported(why.clone()),
            Error::Auth(why) => Error::Auth(why.clone()),
            Error::NotFound(why) => Error::NotFound(why.clone()),
            Error::InvalidRequest(why) => Error::InvalidRequest(why.clone()),
            Error::RateLimited { retry_after } => Error::RateLimited { retry_after: *retry_after },
            Error::Timeout { elapsed } => Error::Timeout { elapsed: *elapsed },
            Error::Refused { category } => Error::Refused { category: category.clone() },
            Error::Transient(why) => Error::Transient(why.clone()),
            Error::Unreadable(why) => Error::Unreadable(why.clone()),
        }
    }
}

/// A failure that names how long to wait is one worth trying again.
pub proof fn a_named_wait_is_retryable(failure: Failure)
    ensures
        failure.retry_after() is Some ==> failure.is_retryable(),
{
}

/// A rejected credential, a missing model, a refused shape, a refusal and an unreadable reply
/// are never worth repeating.
pub proof fn settled_failures_are_not_retryable(failure: Failure)
    ensures
        failure is Auth || failure is NotFound || failure is InvalidRequest || failure is Refused
            || failure is Unreadable || failure is Unsupported ==> !failure.is_retryable(),
{
}

/// A failure is worth repeating exactly where it is a rate limit, a timeout or transient, and only
/// a rate limit names a wait, which is the one it was given.
pub proof fn what_may_pass_is_worth_repeating(why: Seq<char>, wait: Option<nat>, elapsed: nat)
    ensures
        (Failure::RateLimited { retry_after: wait }).is_retryable(),
        (Failure::Timeout { elapsed }).is_retryable(),
        Failure::Transient(why).is_retryable(),
        (Failure::RateLimited { retry_after: wait }).retry_after() == wait,
        (Failure::Timeout { elapsed }).retry_after() is None,
        Failure::Transient(why).retry_after() is None,
{
}

/// The line of a failure ends with what was said about it, behind what kind of failure it is.
pub proof fn a_line_ends_with_what_was_said(why: Seq<char>)
    ensures
        Failure::Unsupported(why).line() == "unsupported: "@ + why,
        Failure::Auth(why).line() == "authentication failed: "@ + why,
        Failure::NotFound(why).line() == "not found: "@ + why,
        Failure::InvalidRequest(why).line() == "invalid request: "@ + why,
        Failure::Transient(why).line() == "transient: "@ + why,
        Failure::Unreadable(why).line()
            == "the provider replied and the reply could not be read: "@ + why,
        (Failure::Refused { category: Some(why) }).line() == "the model declined: "@ + why,
{
}

/// The line of a failure that names a time gives it in whole milliseconds.
pub proof fn a_line_gives_times_in_milliseconds(millis: nat, rest: nat)
    requires
        rest < 1_000_000,
    ensures
        (Failure::RateLimited { retry_after: Some(millis * 1_000_000 + rest) }).line()
            == "rate limited, retry after "@ + decimal(millis) + "ms"@,
        (Failure::Timeout { elapsed: millis * 1_000_000 + rest }).line() == "timed out after "@
            + decimal(millis) + "ms"@,
{
    assert((millis * 1_000_000 + rest) / 1_000_000 == millis);
}

} // verus!
