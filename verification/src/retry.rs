//! Trying again, when trying again is the right thing to do.
//!
//! This crate already knows which failures are worth repeating ([`Error::is_retryable`]) and
//! what the provider asked you to wait ([`Error::retry_after`]). A caller reconstructing
//! either from a message will get it wrong, so the policy lives here.
//!
//! **Whether a request is safe to repeat** stays yours. A [`Error::Timeout`] is retryable and
//! may still leave you paying for two answers, which is why timeouts are **not** repeated
//! unless you say so with [`Retry::repeating_timeouts`].

use crate::breaker::{power_of_two, two_to, two_to_grows};
use crate::error::{Error, Failure};
use crate::time::{at_most_max, shorter, Duration, MAX_NANOS};
use vstd::prelude::*;

verus! {

/// When to try again, and how long to wait first.
///
/// Immutable once built, so one policy can be shared by any number of concurrent calls.
#[derive(Debug, Clone, Copy, PartialEq, Eq, Structural)]
pub struct Retry {
    attempts: u32,
    base: Duration,
    ceiling: Duration,
    repeat_timeouts: bool,
}

/// What a [`Retry`] holds, with its times in nanoseconds.
pub struct Policy {
    pub attempts: u32,
    pub base: nat,
    pub ceiling: nat,
    pub repeat_timeouts: bool,
}

impl View for Retry {
    type V = Policy;

    closed spec fn view(&self) -> Policy {
        Policy {
            attempts: self.attempts,
            base: self.base@,
            ceiling: self.ceiling@,
            repeat_timeouts: self.repeat_timeouts,
        }
    }
}

impl Policy {
    /// Whether a call that failed so is repeated as attempt number `next`.
    pub open spec fn repeats(self, next: u32, failure: Failure) -> bool {
        next <= self.attempts && failure.is_retryable() && (failure is Timeout
            ==> self.repeat_timeouts)
    }

    /// The longest wait this policy computes before attempt number `next`: the first wait
    /// doubled on each attempt after the second, at most sixteen times, and then capped.
    pub open spec fn capped(self, next: u32) -> nat {
        let times = if next <= 2 {
            0
        } else if next <= 18 {
            next - 2
        } else {
            16
        };
        shorter(at_most_max(self.base * two_to(times as nat)), self.ceiling)
    }

    /// The wait this policy computes before attempt number `next` when it starts from this
    /// number: half the longest, and a share of the other half.
    pub open spec fn computed(self, next: u32, seed: u64) -> nat {
        let half = self.capped(next) / 2;
        half + share((half % 0x1_0000_0000_0000_0000) as u64, seed) as nat
    }

    /// How long to wait before attempt number `next` when a computed wait starts from this
    /// number.
    pub open spec fn waits(self, next: u32, failure: Failure, seed: u64) -> Option<nat> {
        if !self.repeats(next, failure) {
            None
        } else {
            match failure.retry_after() {
                Some(asked) => Some(asked),
                None => Some(self.computed(next, seed)),
            }
        }
    }
}

/// A number stirred, so that numbers next to each other end far apart.
pub open spec fn stirred(x: u64) -> u64 {
    let a = x ^ (x << 13);
    let b = a ^ (a >> 7);
    b ^ (b << 17)
}

/// A number in `0..=span`, picked by another number.
pub open spec fn share(span: u64, seed: u64) -> u64 {
    (stirred(seed) as int % (span + 1)) as u64
}

/// The number that a reading of the clock starts a wait from. The reading is the seconds since
/// 1970 and the nanoseconds past them, and there is none where the clock stands before that.
pub open spec fn seed_of(clock: Option<(u64, u32)>) -> u64 {
    match clock {
        Some((secs, nanos)) => (nanos as u64) ^ secs.wrapping_mul(0x9E37_79B9_7F4A_7C15u64),
        None => 0x2545_F491_4F6C_DD1D,
    }
}

/// The number that a reading of the clock starts a wait from.
///
/// Jitter needs to be unpredictable, not unbiased and not unguessable. Nothing here is a
/// secret: the clock's nanoseconds, stirred, are enough to stop two processes coming back in
/// step.
pub fn seed(clock: Option<(u64, u32)>) -> (seed: u64)
    ensures
        seed == seed_of(clock),
{
    match clock {
        Some((secs, nanos)) => (nanos as u64) ^ secs.wrapping_mul(0x9E37_79B9_7F4A_7C15u64),
        None => 0x2545_F491_4F6C_DD1D,
    }
}

/// A number in `0..=span`, picked by another number.
pub fn scatter(span: u64, seed: u64) -> (picked: u64)
    ensures
        picked == share(span, seed),
        picked <= span,
{
    let a: u64 = seed ^ (seed << 13);
    let b: u64 = a ^ (a >> 7);
    let x: u64 = b ^ (b << 17);
    (x as u128 % (span as u128 + 1)) as u64
}

/// Reads the clock with `SystemTime::elapsed` from the start of 1970: the seconds and the
/// nanoseconds past them, or nothing where the clock stands before that. Nothing is said of
/// the reading but that the nanoseconds are less than a second.
#[verifier::external_body]
fn read_clock() -> (clock: Option<(u64, u32)>)
    ensures
        clock matches Some(reading) ==> reading.1 < 1_000_000_000,
{
    let elapsed = std::time::UNIX_EPOCH.elapsed().ok()?;
    Some((elapsed.as_secs(), elapsed.subsec_nanos()))
}

/// The number that a wait computed now starts from. Nothing is said of it: it depends on the
/// clock.
pub fn clock_seed() -> u64 {
    seed(read_clock())
}

impl Retry {
    /// At most this many attempts in total, counting the first.
    ///
    /// `Retry::new(1)` never retries, which is the same as no policy at all. Zero is read as
    /// one: a call that was never made is not a policy anybody meant to write.
    pub fn new(attempts: u32) -> (policy: Retry)
        ensures
            policy@ == (Policy {
                attempts: if attempts == 0 {
                    1
                } else {
                    attempts
                },
                base: 250_000_000,
                ceiling: 30_000_000_000,
                repeat_timeouts: false,
            }),
    {
        Retry {
            attempts: if attempts == 0 {
                1
            } else {
                attempts
            },
            base: Duration::from_millis(250),
            ceiling: Duration::from_secs(30),
            repeat_timeouts: false,
        }
    }

    /// The first wait, doubled on each attempt after that.
    pub fn with_base(self, base: Duration) -> (policy: Retry)
        ensures
            policy@ == (Policy { base: base@, ..self@ }),
    {
        Retry { base, ..self }
    }

    /// The longest this will ever wait on its own.
    ///
    /// It does not cap a wait the **provider** asked for. Shortening that would turn a rate
    /// limit into a longer one, which is the whole reason `Retry-After` is honoured exactly.
    pub fn with_ceiling(self, ceiling: Duration) -> (policy: Retry)
        ensures
            policy@ == (Policy { ceiling: ceiling@, ..self@ }),
    {
        Retry { ceiling, ..self }
    }

    /// Repeat a call that timed out.
    ///
    /// Off by default, and this is the one setting worth thinking about. A timeout means the
    /// deadline passed, not that the work stopped: the provider may still be generating, and
    /// a second attempt can leave you billed for two answers to one question.
    pub fn repeating_timeouts(self) -> (policy: Retry)
        ensures
            policy@ == (Policy { repeat_timeouts: true, ..self@ }),
    {
        Retry { repeat_timeouts: true, ..self }
    }

    /// How many attempts this policy allows in total.
    pub fn attempts(&self) -> (attempts: u32)
        ensures
            attempts == self@.attempts,
    {
        self.attempts
    }

    /// How long to wait before attempt number `next`, or `None` to stop.
    ///
    /// `next` counts from one, so the wait before the second attempt is `wait_before(2, e)`.
    ///
    /// A wait the provider named is used exactly, uncapped and without jitter. A wait
    /// computed here depends on the clock: it is at least half the longest and at most the
    /// longest, so that two callers that failed at the same moment do not come back at the
    /// same moment.
    pub fn wait_before(&self, next: u32, failure: &Error) -> (wait: Option<Duration>)
        ensures
            wait is Some <==> self@.repeats(next, failure.deep_view()),
            wait matches Some(wait) ==> match failure.deep_view().retry_after() {
                Some(asked) => wait@ == asked,
                None => self@.capped(next) / 2 <= wait@ <= self@.capped(next),
            },
    {
        let seed: u64 = clock_seed();
        proof {
            a_computed_wait_is_in_the_upper_half(self@, next, seed);
        }
        self.wait_from(next, failure, seed)
    }

    /// How long to wait before attempt number `next`, or `None` to stop, when a computed wait
    /// starts from this number.
    pub fn wait_from(&self, next: u32, failure: &Error, seed: u64) -> (wait: Option<Duration>)
        ensures
            wait.deep_view() == self@.waits(next, failure.deep_view(), seed),
    {
        if next > self.attempts || !failure.is_retryable() {
            return None;
        }
        if let Error::Timeout { .. } = failure {
            if !self.repeat_timeouts {
                return None;
            }
        }
        // Exactly what the provider said, uncapped and without jitter. It is telling you
        // when the limit clears, and any local number that fires sooner earns another 429.

        if let Some(asked) = failure.retry_after() {
            return Some(asked);
        }
        Some(self.backoff(next, seed))
    }

    /// The wait this policy computes on its own, doubling and then jittered.
    fn backoff(&self, next: u32, seed: u64) -> (wait: Duration)
        ensures
            wait@ == self@.computed(next, seed),
    {
        let times: u32 = if next <= 2 {
            0
        } else if next <= 18 {
            next - 2
        } else {
            16
        };
        let doubled = self.base.saturating_mul(power_of_two(times));
        let capped = doubled.min(self.ceiling);
        let half = capped.half();
        let nanos: u128 = half.as_nanos();
        let span: u64 = (nanos % 0x1_0000_0000_0000_0000) as u64;
        let more: u64 = scatter(span, seed);
        // At most as long as `capped`, so nothing is cut off.
        proof {
            use_type_invariant(&capped);
        }
        half.saturating_add(Duration::from_nanos(more))
    }
}

/// A wait computed by a policy is at least half of the longest it allows and at most all of it.
pub proof fn a_computed_wait_is_in_the_upper_half(policy: Policy, next: u32, seed: u64)
    ensures
        policy.capped(next) / 2 <= policy.computed(next, seed) <= policy.capped(next),
{
    let half = policy.capped(next) / 2;
    let span = (half % 0x1_0000_0000_0000_0000) as u64;
    assert(share(span, seed) <= span);
}

/// A call that failed for good is never repeated, whatever the policy, and neither is one whose
/// attempts have run out.
pub proof fn settled_failures_are_never_repeated(
    policy: Policy,
    next: u32,
    failure: Failure,
    seed: u64,
)
    ensures
        failure is Auth || failure is NotFound || failure is InvalidRequest || failure is Refused
            || failure is Unreadable || failure is Unsupported || next > policy.attempts
            ==> policy.waits(next, failure, seed) is None,
{
}

/// A call that timed out is repeated only by a policy that was told to: the work may still be
/// running, and a second attempt can leave two answers to pay for.
pub proof fn a_timeout_is_repeated_only_when_asked(
    policy: Policy,
    next: u32,
    failure: Failure,
    seed: u64,
)
    requires
        failure is Timeout,
    ensures
        policy.waits(next, failure, seed) is Some <==> policy.repeat_timeouts && next
            <= policy.attempts,
{
}

/// A wait that the provider named is neither doubled nor capped nor scattered.
pub proof fn a_named_wait_is_used_exactly(
    policy: Policy,
    next: u32,
    failure: Failure,
    seed: u64,
    asked: nat,
)
    requires
        failure.retry_after() == Some(asked),
        policy.waits(next, failure, seed) is Some,
    ensures
        policy.waits(next, failure, seed) == Some(asked),
{
}

/// The longest computed wait grows with each attempt and never passes the ceiling.
pub proof fn the_longest_wait_grows_to_the_ceiling(policy: Policy, next: u32)
    requires
        next < u32::MAX,
    ensures
        policy.capped(next) <= policy.capped((next + 1) as u32),
        policy.capped(next) <= policy.ceiling,
{
    let a = if next <= 2 {
        0
    } else if next <= 18 {
        next - 2
    } else {
        16
    };
    let b = if next + 1 <= 2 {
        0
    } else if next + 1 <= 18 {
        next + 1 - 2
    } else {
        16
    };
    two_to_grows(a as nat, b as nat);
    let x = two_to(a as nat);
    let y = two_to(b as nat);
    assert(policy.base * x <= policy.base * y) by (nonlinear_arith)
        requires
            x <= y,
    ;
}

/// A failure that may pass is repeated while attempts are left, after the wait that was named or
/// one that was computed.
pub proof fn what_may_pass_is_repeated(policy: Policy, next: u32, failure: Failure, seed: u64)
    requires
        failure is RateLimited || failure is Transient,
        next <= policy.attempts,
    ensures
        policy.waits(next, failure, seed) is Some,
        failure.retry_after() is None ==> policy.waits(next, failure, seed) == Some(
            policy.computed(next, seed),
        ),
{
}

/// The longest computed wait is the first one before the second attempt, and twice as long before
/// each further one, up to the ceiling.
pub proof fn the_longest_wait_doubles(policy: Policy, next: u32)
    requires
        2 <= next < 18,
        policy.base * 65_536 <= MAX_NANOS,
    ensures
        policy.capped(2) == shorter(policy.base, policy.ceiling),
        policy.capped((next + 1) as u32) == shorter(2 * policy.capped(next), policy.ceiling),
{
    let a = two_to((next - 2) as nat);
    let b = two_to((next - 1) as nat);
    assert(two_to(0) == 1);
    assert(b == 2 * a);
    two_to_grows((next - 1) as nat, 16);
    assert(two_to(16) == 65_536) by {
        reveal_with_fuel(two_to, 17);
    }
    let base = policy.base;
    assert(base * 1 == base) by (nonlinear_arith);
    assert(base * b == 2 * (base * a)) by (nonlinear_arith)
        requires
            b == 2 * a,
    ;
    assert(base * b <= base * 65_536) by (nonlinear_arith)
        requires
            b <= 65_536,
    ;
}

/// A share is at most the whole, and is the stirred number itself where that is no more than the
/// whole.
pub proof fn a_share_is_at_most_the_whole(span: u64, seed: u64)
    ensures
        share(span, seed) <= span,
        stirred(seed) <= span ==> share(span, seed) == stirred(seed),
{
    if stirred(seed) <= span {
        vstd::arithmetic::div_mod::lemma_small_mod(stirred(seed) as nat, (span + 1) as nat);
    }
}

/// Two waits that a policy computes for one attempt are no further apart than half of the longest.
pub proof fn waits_are_spread_over_half(policy: Policy, next: u32, one: u64, other: u64)
    ensures
        policy.computed(next, one) - policy.computed(next, other) <= policy.capped(next) / 2,
{
    a_computed_wait_is_in_the_upper_half(policy, next, one);
    a_computed_wait_is_in_the_upper_half(policy, next, other);
    let half = policy.capped(next) / 2;
    let span = (half % 0x1_0000_0000_0000_0000) as u64;
    assert(share(span, one) <= span);
}

/// Stirring keeps what differs apart: no two seeds are stirred into one.
pub proof fn stirring_keeps_seeds_apart(one: u64, other: u64)
    ensures
        stirred(one) == stirred(other) ==> one == other,
        stirred(one ^ other) == stirred(one) ^ stirred(other),
{
    let a: u64 = one ^ (one << 13);
    let c: u64 = other ^ (other << 13);
    let b: u64 = a ^ (a >> 7);
    let d: u64 = c ^ (c >> 7);
    assert(one ^ (one << 13) == other ^ (other << 13) ==> one == other) by (bit_vector);
    assert(a ^ (a >> 7) == c ^ (c >> 7) ==> a == c) by (bit_vector);
    assert(b ^ (b << 17) == d ^ (d << 17) ==> b == d) by (bit_vector);
    assert(({
        let a: u64 = (one ^ other) ^ ((one ^ other) << 13);
        let b: u64 = a ^ (a >> 7);
        b ^ (b << 17)
    }) == ({
        let a: u64 = one ^ (one << 13);
        let b: u64 = a ^ (a >> 7);
        b ^ (b << 17)
    }) ^ ({
        let a: u64 = other ^ (other << 13);
        let b: u64 = a ^ (a >> 7);
        b ^ (b << 17)
    })) by (bit_vector);
}

} // verus!
