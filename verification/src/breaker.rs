//! Remembering that a provider has been failing, so it is not tried first every time.
//!
//! [`crate::retry::Retry`] decides whether to ask the same provider again inside one request.
//! This decides whether to ask it at all in the *next* one.
//!
//! # What opens it, and what does not
//!
//! One rule, and everything below follows from it: **the circuit opens for a failure about
//! the provider, and stays shut for a failure about the request.**
//!
//! | Error | Circuit | Why |
//! |---|---|---|
//! | [`Error::Transient`] | opens, backing off | the provider is having a bad time |
//! | [`Error::Timeout`] | opens, backing off | so is one that will not answer |
//! | [`Error::RateLimited`] | opens for exactly the `retry_after` | it said when it clears |
//! | [`Error::Auth`] | opens, and long | a person has to fix this |
//! | [`Error::NotFound`] | opens, and long | this provider does not have this model |
//! | [`Error::Refused`] | **no** | the model answered, about the work |
//! | [`Error::InvalidRequest`] | **no** | it will be malformed on the next route too |
//! | [`Error::Unsupported`] | **no** | same |
//! | [`Error::Unreadable`] | **no** | one unparseable reply is not a broken provider |

use crate::error::{Error, Failure};
use crate::text::{decimal, decimal_text, followed_by};
use crate::time::{shorter, Duration};
use vstd::prelude::*;

verus! {

/// How long a route is left alone after it has been failing.
///
/// Three numbers rather than one, because the failures are not the same kind of thing. A 503
/// clears on its own and should be re-checked soon. A rejected credential does not clear on
/// its own at all, and asking again in thirty seconds is asking a question that has been
/// answered.
#[derive(Debug, Clone, Copy, PartialEq, Eq, Structural)]
pub struct Breaker {
    /// How long a route is skipped after one failure.
    ///
    /// Doubles with each consecutive failure, up to [`Breaker::longest`].
    pub first: Duration,
    /// The longest a route is skipped for a failure that clears on its own.
    ///
    /// A cap rather than a limit on doubling, so a provider that has been down for an hour
    /// is still re-checked every minute rather than every eighteen.
    pub longest: Duration,
    /// How long a route is skipped for a failure a person has to fix.
    ///
    /// A rejected key or a model this provider does not have. Neither improves by being
    /// asked again, and the point of the wait is to stop spending a call per request on a
    /// question that has been settled, not to wait for it to clear.
    pub settled: Duration,
}

/// Two to this power.
pub open spec fn two_to(power: nat) -> nat
    decreases power,
{
    if power == 0 {
        1
    } else {
        2 * two_to((power - 1) as nat)
    }
}

/// A higher power of two is no smaller.
pub proof fn two_to_grows(a: nat, b: nat)
    requires
        a <= b,
    ensures
        two_to(a) <= two_to(b),
    decreases b,
{
    if a < b {
        two_to_grows(a, (b - 1) as nat);
    }
}

/// Two to a power that 32 bits can hold.
pub(crate) fn power_of_two(power: u32) -> (value: u32)
    requires
        power < 32,
    ensures
        value == two_to(power as nat),
{
    let mut value: u32 = 1;
    let mut i: u32 = 0;
    while i < power
        invariant
            i <= power < 32,
            value == two_to(i as nat),
        decreases power - i,
    {
        proof {
            two_to_grows((i + 1) as nat, 31);
            assert(two_to(31) == 0x8000_0000) by {
                reveal_with_fuel(two_to, 32);
            }
        }
        value = value * 2;
        i += 1;
    }
    value
}

/// How often the first wait is taken after this many failures in a row: doubling from once
/// on, up to what 32 bits can hold.
pub open spec fn doublings(failures: u32) -> nat {
    if failures <= 1 {
        1
    } else if failures <= 32 {
        two_to((failures - 1) as nat)
    } else {
        u32::MAX as nat
    }
}

impl Default for Breaker {
    /// A second, a minute, and five minutes.
    ///
    /// Arbitrary in the way any such numbers are. What makes them useful is that they are
    /// written down, and that the shape is right: quick to re-check something that clears
    /// itself, slow to re-check something that does not.
    fn default() -> (breaker: Breaker)
        ensures
            breaker.first@ == 1_000_000_000,
            breaker.longest@ == 60_000_000_000,
            breaker.settled@ == 300_000_000_000,
    {
        Breaker {
            first: Duration::from_secs(1),
            longest: Duration::from_secs(60),
            settled: Duration::from_secs(300),
        }
    }
}

impl Breaker {
    /// The wait after this many consecutive failures, in nanoseconds: doubling and then capped.
    pub open spec fn wait_after(self, failures: u32) -> nat {
        shorter(self.first@ * doublings(failures), self.longest@)
    }

    /// How long a route is skipped, in nanoseconds, given what went wrong and how often.
    pub open spec fn opens_for(self, failures: u32, failure: Failure) -> Option<nat> {
        match failure {
            Failure::RateLimited { retry_after: Some(wait) } => Some(wait),
            Failure::RateLimited { retry_after: None } => Some(self.wait_after(failures)),
            Failure::Transient(_) => Some(self.wait_after(failures)),
            Failure::Timeout { .. } => Some(self.wait_after(failures)),
            Failure::Auth(_) => Some(self.settled@),
            Failure::NotFound(_) => Some(self.settled@),
            Failure::Refused { .. } => None,
            Failure::InvalidRequest(_) => None,
            Failure::Unsupported(_) => None,
            Failure::Unreadable(_) => None,
        }
    }

    /// A policy with these three waits.
    pub fn new(first: Duration, longest: Duration, settled: Duration) -> (breaker: Breaker)
        ensures
            breaker == (Breaker { first, longest, settled }),
    {
        Breaker { first, longest, settled }
    }

    /// How long this route should be skipped, given what went wrong and how often.
    ///
    /// `None` when the circuit must not open at all. See the table in the module
    /// documentation for which failures those are.
    ///
    /// `failures` counts *requests* this route failed to serve in a row, not attempts: the
    /// wait is about how long to leave a provider alone, and three attempts against a
    /// provider that is down is one piece of evidence, not three.
    pub fn opening_for(&self, failures: u32, error: &Error) -> (wait: Option<Duration>)
        ensures
            wait.deep_view() == self.opens_for(failures, error.deep_view()),
    {
        match error {
            // It said when it clears. Honoured exactly, even when it is longer than
            // `longest`: `longest` is this crate's guess and `retry_after` is not a guess.
            Error::RateLimited { retry_after: Some(wait) } => Some(*wait),
            Error::RateLimited { retry_after: None } => Some(self.backoff(failures)),
            Error::Transient(_) | Error::Timeout { .. } => Some(self.backoff(failures)),
            // Settled. Not "wait for it to pass" but "stop asking every request".
            Error::Auth(_) | Error::NotFound(_) => Some(self.settled),
            // About the request or about the answer, not about the provider.
            Error::Refused { .. } | Error::InvalidRequest(_) | Error::Unsupported(_)
            | Error::Unreadable(_) => None,
        }
    }

    /// The wait after this many consecutive failures, doubling and then capped.
    fn backoff(&self, failures: u32) -> (wait: Duration)
        ensures
            wait@ == self.wait_after(failures),
    {
        let times: u32 = if failures <= 1 {
            1
        } else if failures <= 32 {
            power_of_two(failures - 1)
        } else {
            u32::MAX
        };
        assert(times == doublings(failures)) by {
            if failures <= 1 {
                assert(two_to(0) == 1);
            }
        }
        // A wait that would be too long to hold is capped.
        proof {
            use_type_invariant(&self.longest);
        }
        match self.first.checked_mul(times) {
            Some(scaled) => scaled.min(self.longest),
            None => self.longest,
        }
    }
}

/// What one route has been doing lately.
#[derive(Debug, Clone, Copy, PartialEq, Eq, Structural)]
pub struct Health {
    /// Milliseconds since the router was built, before which this route is skipped.
    ///
    /// Measured from the router's own start rather than from the wall clock, so a machine
    /// whose clock steps backwards does not close a circuit for a day. Zero means open, and
    /// a close that works out to zero has already expired, which is the same answer.
    pub closed_until: u64,
    /// How many requests in a row this route has failed to serve.
    pub consecutive_failures: u32,
}

/// A count that stops at the largest there is.
pub open spec fn one_more(n: u32) -> u32 {
    if n == u32::MAX {
        u32::MAX
    } else {
        (n + 1) as u32
    }
}

/// A moment this long after another, both in milliseconds, the last there is at most. The
/// length is given in nanoseconds.
pub open spec fn later(now: u64, wait: nat) -> u64 {
    if now + wait / 1_000_000 > u64::MAX {
        u64::MAX
    } else {
        (now + wait / 1_000_000) as u64
    }
}

impl Default for Health {
    fn default() -> (health: Health)
        ensures
            health == (Health { closed_until: 0, consecutive_failures: 0 }),
    {
        Health { closed_until: 0, consecutive_failures: 0 }
    }
}

impl Health {
    /// How much longer this route is skipped at a moment, in milliseconds, if it is.
    pub open spec fn left_at(self, now: u64) -> Option<u64> {
        if self.closed_until > now {
            Some((self.closed_until - now) as u64)
        } else {
            None
        }
    }

    /// The same after one more request this route failed to serve. The count wraps round.
    pub open spec fn after_failure(self) -> Health {
        Health {
            consecutive_failures: if self.consecutive_failures == u32::MAX {
                0
            } else {
                (self.consecutive_failures + 1) as u32
            },
            ..self
        }
    }

    /// The same, skipped for this long, in nanoseconds, from this moment on.
    pub open spec fn resting(self, wait: nat, now: u64) -> Health {
        Health { closed_until: later(now, wait), ..self }
    }

    /// The same after a failure that this policy may open the circuit for.
    pub open spec fn after_error(self, breaker: Breaker, failure: Failure, now: u64) -> Health {
        match breaker.opens_for(one_more(self.consecutive_failures), failure) {
            Some(wait) => self.after_failure().resting(wait, now),
            None => self.after_failure(),
        }
    }

    /// Why this route is skipped, given how many milliseconds it still is.
    pub open spec fn reason(self, left: u64) -> Seq<char> {
        if self.consecutive_failures == 0 {
            "denied at preflight, resting for another "@ + decimal(left as nat) + "ms"@
        } else {
            "circuit open for another "@ + decimal(left as nat) + "ms, failures in a row: "@
                + decimal(self.consecutive_failures as nat)
        }
    }

    /// How much longer this route is being skipped, if it is.
    pub fn closed_for(&self, now: u64) -> (left: Option<Duration>)
        ensures
            left is Some <==> self.left_at(now) is Some,
            left matches Some(left) ==> left@ == self.left_at(now)->0 * 1_000_000,
    {
        if self.closed_until > now {
            Some(Duration::from_millis(self.closed_until - now))
        } else {
            None
        }
    }

    /// How many requests in a row this route has failed.
    pub fn failures(&self) -> (count: u32)
        ensures
            count == self.consecutive_failures,
    {
        self.consecutive_failures
    }

    /// Counts a request this route failed to serve, and says how many that makes in a row.
    pub fn count_failure(&mut self) -> (failures: u32)
        ensures
            *final(self) == old(self).after_failure(),
            failures == one_more(old(self).consecutive_failures),
    {
        let before: u32 = self.consecutive_failures;
        self.consecutive_failures = before.wrapping_add(1);
        before.saturating_add(1)
    }

    /// Records a request this route failed to serve, and says how often it has failed where
    /// that closes it for a while.
    pub fn failed(&mut self, breaker: &Breaker, error: &Error, now: u64) -> (closed: Option<u32>)
        ensures
            *final(self) == old(self).after_error(*breaker, error.deep_view(), now),
            closed == (match breaker.opens_for(
                one_more(old(self).consecutive_failures),
                error.deep_view(),
            ) {
                Some(_) => Some(one_more(old(self).consecutive_failures)),
                None => None,
            }),
    {
        let failures: u32 = self.count_failure();
        match breaker.opening_for(failures, error) {
            Some(wait) => {
                self.close_for(wait, now);
                Some(failures)
            },
            None => None,
        }
    }

    /// Skips this route for a while, whatever it has been doing.
    pub fn close_for(&mut self, wait: Duration, now: u64)
        ensures
            *final(self) == old(self).resting(wait@, now),
    {
        let millis: u128 = wait.as_millis();
        let capped: u64 = if millis > 18_446_744_073_709_551_615 {
            u64::MAX
        } else {
            millis as u64
        };
        self.closed_until = now.saturating_add(capped);
    }

    /// Records a request this route served, which clears everything.
    ///
    /// Both fields, not just the timer. A route that answers has no consecutive failures by
    /// definition, and leaving the count would make its next failure back off as though the
    /// run in between had not happened.
    pub fn served(&mut self)
        ensures
            *final(self) == (Health { closed_until: 0, consecutive_failures: 0 }),
    {
        self.consecutive_failures = 0;
        self.closed_until = 0;
    }

    /// Why this route is skipped, for a person to read.
    pub fn why(&self, left: &Duration) -> (line: String)
        requires
            left@ / 1_000_000 <= u64::MAX,
        ensures
            line@ == self.reason((left@ / 1_000_000) as u64),
    {
        let left = decimal_text(left.as_millis());
        if self.consecutive_failures == 0 {
            followed_by("denied at preflight, resting for another ", left.as_str()).concat("ms")
        } else {
            followed_by("circuit open for another ", left.as_str()).concat(
                "ms, failures in a row: ",
            ).concat(decimal_text(self.consecutive_failures as u128).as_str())
        }
    }
}

/// The circuit opens for a failure about the provider and never for one about the request.
pub proof fn only_provider_failures_open_the_circuit(
    breaker: Breaker,
    failures: u32,
    failure: Failure,
)
    ensures
        breaker.opens_for(failures, failure) is Some <==> failure.is_retryable() || failure is Auth
            || failure is NotFound,
{
}

/// A wait that a provider named is honoured exactly, and every other wait for a failure that
/// clears on its own stays within the longest.
pub proof fn a_named_wait_is_honoured(breaker: Breaker, failures: u32, failure: Failure)
    requires
        failure.is_retryable(),
    ensures
        match failure.retry_after() {
            Some(wait) => breaker.opens_for(failures, failure) == Some(wait),
            None => breaker.opens_for(failures, failure)->0 <= breaker.longest@,
        },
{
}

/// The wait after one more failure is never shorter.
pub proof fn the_wait_never_shrinks(breaker: Breaker, failures: u32)
    requires
        failures < u32::MAX,
    ensures
        breaker.wait_after(failures) <= breaker.wait_after((failures + 1) as u32),
{
    let next = (failures + 1) as u32;
    if failures > 1 && next <= 32 {
        two_to_grows((failures - 1) as nat, (next - 1) as nat);
    } else if failures == 32 {
        two_to_grows(31, 31);
        assert(two_to(31) == 0x8000_0000) by {
            reveal_with_fuel(two_to, 32);
        }
    } else if failures <= 1 && next > 1 {
        assert(two_to(1) == 2) by {
            reveal_with_fuel(two_to, 2);
        }
    }
    let a = doublings(failures);
    let b = doublings(next);
    assert(a <= b);
    assert(breaker.first@ * a <= breaker.first@ * b) by (nonlinear_arith)
        requires
            a <= b,
    ;
}

/// A route that served a request is open at every moment after, whatever it did before, and a
/// skipped route opens again by itself once its time has passed.
pub proof fn time_reopens_a_circuit(health: Health, now: u64)
    ensures
        (Health { closed_until: 0, consecutive_failures: 0 }).left_at(now) is None,
        now >= health.closed_until ==> health.left_at(now) is None,
{
}

/// The first failure in a row closes a circuit for the first wait, each further one for twice as
/// long, and none for longer than the longest.
pub proof fn the_wait_doubles(breaker: Breaker, failures: u32)
    requires
        1 <= failures < 32,
    ensures
        breaker.wait_after(1) == shorter(breaker.first@, breaker.longest@),
        breaker.wait_after((failures + 1) as u32) == shorter(
            2 * breaker.wait_after(failures),
            breaker.longest@,
        ),
{
    assert(breaker.first@ * 1 == breaker.first@) by (nonlinear_arith);
    let a = doublings(failures);
    let b = doublings((failures + 1) as u32);
    assert(two_to(0) == 1);
    assert(a == two_to((failures - 1) as nat));
    assert(b == 2 * a);
    assert(breaker.first@ * b == 2 * (breaker.first@ * a)) by (nonlinear_arith)
        requires
            b == 2 * a,
    ;
}

/// What a person has to fix closes a circuit for the settled wait, and what may pass for the
/// computed one, which goes by how often the route failed.
pub proof fn what_a_person_fixes_rests_longest(
    breaker: Breaker,
    failures: u32,
    why: Seq<char>,
    elapsed: nat,
)
    ensures
        breaker.opens_for(failures, Failure::Auth(why)) == Some(breaker.settled@),
        breaker.opens_for(failures, Failure::NotFound(why)) == Some(breaker.settled@),
        breaker.opens_for(failures, Failure::Transient(why)) == Some(breaker.wait_after(failures)),
        breaker.opens_for(failures, Failure::Timeout { elapsed }) == Some(
            breaker.wait_after(failures),
        ),
        breaker.opens_for(failures, Failure::RateLimited { retry_after: None }) == Some(
            breaker.wait_after(failures),
        ),
{
}

/// A failure counts as one more in a row and rests the route for the wait that so many failures
/// come to, from now on, in whole milliseconds. One that is not the provider's fault counts and
/// rests nothing.
pub proof fn a_failure_counts_once_and_rests(
    health: Health,
    breaker: Breaker,
    failure: Failure,
    now: u64,
)
    requires
        health.consecutive_failures < u32::MAX,
    ensures
        ({
            let after = health.after_error(breaker, failure, now);
            let failures = (health.consecutive_failures + 1) as u32;
            &&& after.consecutive_failures == failures
            &&& match breaker.opens_for(failures, failure) {
                Some(wait) => now + wait / 1_000_000 <= u64::MAX ==> after.closed_until == now
                    + wait / 1_000_000,
                None => after.closed_until == health.closed_until,
            }
        }),
{
}

/// A route that rests does so until its time and not after, and it says how long is left.
pub proof fn a_rest_ends_at_its_time(health: Health, wait: nat, now: u64, then: u64)
    requires
        now + wait / 1_000_000 <= u64::MAX,
    ensures
        ({
            let resting = health.resting(wait, now);
            &&& resting.consecutive_failures == health.consecutive_failures
            &&& then < now + wait / 1_000_000 ==> resting.left_at(then) is Some && then
                + resting.left_at(then)->0 == now + wait / 1_000_000
            &&& then >= now + wait / 1_000_000 ==> resting.left_at(then) is None
        }),
{
}

/// Why a route rests says how much longer, and whether it failed or was denied before anything
/// was sent.
pub proof fn a_rest_says_why(health: Health, left: u64)
    ensures
        health.consecutive_failures == 0 ==> health.reason(left)
            == "denied at preflight, resting for another "@ + decimal(left as nat) + "ms"@,
        health.consecutive_failures > 0 ==> health.reason(left) == "circuit open for another "@
            + decimal(left as nat) + "ms, failures in a row: "@ + decimal(
            health.consecutive_failures as nat,
        ),
{
}

} // verus!
