//! What goes over HTTP, and what comes back.

use crate::error::{outcome, Error, Failure};
use crate::text::{
    all_digits, chars_of, decimal, decimal_reads_back, what_is_white_around_a_text_is_taken_off, decimal_text, digits_only, first_chars,
    is_digit, lossy, lossy_text, nat_of, number_of, slice_of, start_of, trim, trimmed,
};
use crate::time::Duration;
use vstd::prelude::*;

verus! {

/// Which HTTP verb.
///
/// Two, because two is what these protocols use. A chat is a POST and a model list is a
/// GET, and a transport that assumed one of them would make the other work by accident on
/// some servers and fail on others.
#[derive(Debug, Clone, Copy, PartialEq, Eq, Structural)]
pub enum Method {
    /// Read.
    Get,
    /// Send a body.
    Post,
}

impl Method {
    /// The verb, as it goes on the wire.
    pub fn as_str(self) -> (verb: &'static str)
        ensures
            verb@ == (match self {
                Method::Get => "GET"@,
                Method::Post => "POST"@,
            }),
    {
        match self {
            Method::Get => "GET",
            Method::Post => "POST",
        }
    }
}

/// One HTTP request.
#[derive(Debug, Clone, PartialEq, Eq)]
pub struct HttpRequest {
    /// Which verb.
    pub method: Method,
    /// Where to send it.
    pub url: String,
    /// Header names and values, in the order they should be sent.
    pub headers: Vec<(String, String)>,
    /// The body, already serialized.
    pub body: Vec<u8>,
}

/// What an [`HttpRequest`] holds.
#[verifier::ext_equal]
pub struct Sent {
    pub method: Method,
    pub url: Seq<char>,
    pub headers: Seq<(Seq<char>, Seq<char>)>,
    pub body: Seq<u8>,
}

impl DeepView for HttpRequest {
    type V = Sent;

    open spec fn deep_view(&self) -> Sent {
        Sent {
            method: self.method,
            url: self.url@,
            headers: self.headers.deep_view(),
            body: self.body@,
        }
    }
}

impl HttpRequest {
    /// A POST with a body and no headers.
    pub fn new(url: &str, body: Vec<u8>) -> (request: HttpRequest)
        ensures
            request.deep_view() == (Sent {
                method: Method::Post,
                url: url@,
                headers: Seq::empty(),
                body: body@,
            }),
    {
        let request = HttpRequest {
            method: Method::Post,
            url: url.to_owned(),
            headers: Vec::new(),
            body,
        };
        assert(request.headers.deep_view() == Seq::<(Seq<char>, Seq<char>)>::empty());
        request
    }

    /// A GET with no headers.
    pub fn get(url: &str) -> (request: HttpRequest)
        ensures
            request.deep_view() == (Sent {
                method: Method::Get,
                url: url@,
                headers: Seq::empty(),
                body: Seq::empty(),
            }),
    {
        let request = HttpRequest {
            method: Method::Get,
            url: url.to_owned(),
            headers: Vec::new(),
            body: Vec::new(),
        };
        assert(request.headers.deep_view() == Seq::<(Seq<char>, Seq<char>)>::empty());
        request
    }

    /// Adds a header.
    pub fn with_header(self, name: &str, value: &str) -> (request: HttpRequest)
        ensures
            request.deep_view() == (Sent {
                headers: self.deep_view().headers.push((name@, value@)),
                ..self.deep_view()
            }),
    {
        let ghost before = self.headers.deep_view();
        let mut request = self;
        request.headers.push((name.to_owned(), value.to_owned()));
        assert(request.headers.deep_view() == before.push((name@, value@)));
        request
    }
}

/// One HTTP reply.
#[derive(Debug, Clone, PartialEq, Eq)]
pub struct HttpResponse {
    /// The status code.
    pub status: u16,
    /// The body.
    pub body: Vec<u8>,
    /// How long the server asked you to wait, when it sent `Retry-After`.
    pub retry_after: Option<Duration>,
}

/// What an [`HttpResponse`] holds.
#[verifier::ext_equal]
pub struct Received {
    pub status: u16,
    pub body: Seq<u8>,
    pub retry_after: Option<nat>,
}

impl DeepView for HttpResponse {
    type V = Received;

    open spec fn deep_view(&self) -> Received {
        Received {
            status: self.status,
            body: self.body@,
            retry_after: self.retry_after.deep_view(),
        }
    }
}

impl Received {
    /// What a body says, as far as a message quotes it.
    pub open spec fn detail(self) -> Seq<char> {
        start_of(lossy_text(self.body), 400)
    }

    /// What a status code means.
    pub open spec fn checked(self) -> Result<(), Failure> {
        if 200 <= self.status <= 299 {
            Ok(())
        } else if self.status == 401 || self.status == 403 {
            Err(Failure::Auth(self.detail()))
        } else if self.status == 404 {
            Err(Failure::NotFound(self.detail()))
        } else if self.status == 408 {
            Err(Failure::Timeout { elapsed: 0 })
        } else if self.status == 429 {
            Err(Failure::RateLimited { retry_after: self.retry_after })
        } else if self.status == 400 || self.status == 422 {
            Err(Failure::InvalidRequest(self.detail()))
        } else {
            Err(Failure::Transient(decimal(self.status as nat) + ": "@ + self.detail()))
        }
    }
}

impl HttpResponse {
    /// A reply with a status and a body.
    pub fn new(status: u16, body: Vec<u8>) -> (response: HttpResponse)
        ensures
            response.deep_view() == (Received { status, body: body@, retry_after: None }),
    {
        HttpResponse { status, body, retry_after: None }
    }

    /// Records what the server asked you to wait, from its `Retry-After` header.
    pub fn with_retry_after(self, wait: Duration) -> (response: HttpResponse)
        ensures
            response.deep_view() == (Received { retry_after: Some(wait@), ..self.deep_view() }),
    {
        HttpResponse { retry_after: Some(wait), ..self }
    }

    /// Turns a status code into the error it means.
    ///
    /// `Ok(())` for a 2xx and an [`Error`] for everything else. The mapping is here rather
    /// than in each provider so that two providers cannot disagree about what a 429 means.
    pub fn check(&self) -> (checked: Result<(), Error>)
        ensures
            outcome(checked) == self.deep_view().checked(),
    {
        let detail = first_chars(lossy(&self.body).as_str(), 400);
        if 200 <= self.status && self.status <= 299 {
            Ok(())
        } else if self.status == 401 || self.status == 403 {
            Err(Error::Auth(detail))
        } else if self.status == 404 {
            Err(Error::NotFound(detail))
        } else if self.status == 408 {
            Err(Error::Timeout { elapsed: Duration::zero() })
        } else if self.status == 429 {
            Err(Error::RateLimited { retry_after: self.retry_after })
        } else if self.status == 400 || self.status == 422 {
            // The caller's request, and retrying it produces the same 400.
            Err(Error::InvalidRequest(detail))
        } else {
            // A server side fault is worth trying again. So is a gateway that gave up.
            Err(
                Error::Transient(
                    decimal_text(self.status as u128).concat(": ").concat(detail.as_str()),
                ),
            )
        }
    }
}

/// The wait in a `Retry-After` header, in seconds: digits, with or without a plus sign.
pub open spec fn wait_in(header: Seq<char>) -> Option<nat> {
    let t = trimmed(header);
    let digits = if t.len() > 0 && t[0] == '+' {
        t.skip(1)
    } else {
        t
    };
    if digits.len() > 0 && all_digits(digits) && nat_of(digits) <= u64::MAX {
        Some(nat_of(digits))
    } else {
        None
    }
}

/// Reads a `Retry-After` header that gives seconds. One that gives a date is not read.
pub fn read_retry_after(header: &str) -> (wait: Option<Duration>)
    ensures
        wait is Some <==> wait_in(header@) is Some,
        wait matches Some(wait) ==> wait@ == wait_in(header@)->0 * 1_000_000_000,
{
    let chars = chars_of(trim(header).as_str());
    let start: usize = if chars.len() > 0 && chars[0] == '+' {
        1
    } else {
        0
    };
    assert(chars@.skip(0) == chars@);
    let digits = slice_of(&chars, start, chars.len());
    assert(digits@ == chars@.skip(start as int));
    if digits.len() == 0 || !digits_only(&chars, start, chars.len()) {
        return None;
    }
    match number_of(&digits, u64::MAX) {
        Some(secs) => Some(Duration::from_secs(secs)),
        None => None,
    }
}

/// A rejected credential and a request the provider will not take are never worth repeating; a
/// server fault, a rate limit and a request that timed out are.
pub proof fn the_status_decides_what_is_repeated(reply: Received)
    ensures
        reply.checked() is Ok <==> 200 <= reply.status <= 299,
        reply.checked() matches Err(failure) ==> (failure.is_retryable() <==> reply.status != 401
            && reply.status != 403 && reply.status != 404 && reply.status != 400 && reply.status
            != 422),
        reply.status == 429 ==> reply.checked()->Err_0.retry_after() == reply.retry_after,
{
}

/// Each status says what went wrong: a rejected key, something that is not there, a request that
/// took too long, one too many, one that cannot be read, and otherwise a fault that may pass. What
/// the provider said is kept.
pub proof fn the_status_says_what_went_wrong(reply: Received)
    ensures
        reply.checked() is Ok <==> 200 <= reply.status < 300,
        reply.status == 401 || reply.status == 403 ==> reply.checked() == Err::<(), Failure>(
            Failure::Auth(start_of(lossy_text(reply.body), 400)),
        ),
        reply.status == 404 ==> reply.checked() == Err::<(), Failure>(
            Failure::NotFound(start_of(lossy_text(reply.body), 400)),
        ),
        reply.status == 408 ==> reply.checked() == Err::<(), Failure>(
            Failure::Timeout { elapsed: 0 },
        ),
        reply.status == 429 ==> reply.checked() == Err::<(), Failure>(
            Failure::RateLimited { retry_after: reply.retry_after },
        ),
        reply.status == 400 || reply.status == 422 ==> reply.checked() == Err::<(), Failure>(
            Failure::InvalidRequest(start_of(lossy_text(reply.body), 400)),
        ),
        reply.status >= 500 ==> reply.checked() is Err && reply.checked()->Err_0 is Transient,
{
}

/// A header of digits alone is that many seconds, whatever stands around it that is white.
pub proof fn a_wait_is_read_in_seconds(header: Seq<char>, seconds: u64)
    ensures
        trimmed(header) == decimal(seconds as nat) ==> wait_in(header) == Some(seconds as nat),
        trimmed(header).len() == 0 ==> wait_in(header) is None,
        wait_in(header) is Some ==> wait_in(header)->0 <= u64::MAX,
{
    decimal_reads_back(seconds as nat);
    assert(is_digit(decimal(seconds as nat)[0]));
}

/// A plus in front of a wait changes nothing about it, a minus makes it none, and neither does
/// anything else that is no digit.
pub proof fn a_plus_changes_no_wait(digits: Seq<char>)
    requires
        digits.len() > 0,
        all_digits(digits),
    ensures
        wait_in(seq!['+'] + digits) == wait_in(digits),
        wait_in(seq!['-'] + digits) is None,
        nat_of(digits) <= u64::MAX ==> wait_in(digits) == Some(nat_of(digits)),
        nat_of(digits) > u64::MAX ==> wait_in(digits) is None,
{
    let plus = seq!['+'] + digits;
    let minus = seq!['-'] + digits;
    assert(is_digit(digits[0]));
    assert(is_digit(digits[digits.len() - 1]));
    assert(plus.last() == digits.last() && minus.last() == digits.last());
    assert(plus[0] == '+' && minus[0] == '-');
    what_is_white_around_a_text_is_taken_off(digits, ' ');
    what_is_white_around_a_text_is_taken_off(plus, ' ');
    what_is_white_around_a_text_is_taken_off(minus, ' ');
    assert(plus.skip(1) == digits);
    assert(!is_digit(minus[0]));
}

} // verus!
