//! Lengths of time, counted in nanoseconds.

use vstd::prelude::*;

verus! {

/// Nanoseconds in a second.
pub const NANOS_PER_SEC: u128 = 1_000_000_000;

/// Nanoseconds in a millisecond.
pub const NANOS_PER_MILLI: u128 = 1_000_000;

/// The longest length of time there is: `u64::MAX` seconds and the last nanosecond after them.
pub const MAX_NANOS: u128 = 18_446_744_073_709_551_615_999_999_999;

/// A length of time. Its view is the whole number of nanoseconds in it.
#[derive(Debug, Clone, Copy, PartialEq, Eq, PartialOrd, Ord, Hash, Default, Structural)]
pub struct Duration {
    nanos: u128,
}

impl View for Duration {
    type V = nat;

    closed spec fn view(&self) -> nat {
        self.nanos as nat
    }
}

/// The smaller of two lengths of time.
pub open spec fn shorter(a: nat, b: nat) -> nat {
    if a <= b { a } else { b }
}

/// `a` cut down to the longest length of time there is.
pub open spec fn at_most_max(a: nat) -> nat {
    shorter(a, MAX_NANOS as nat)
}

impl DeepView for Duration {
    type V = nat;

    open spec fn deep_view(&self) -> nat {
        self@
    }
}

impl Duration {
    /// No length of time is longer than the longest.
    #[verifier::type_invariant]
    pub open spec fn in_range(self) -> bool {
        self@ <= MAX_NANOS
    }

    /// No time at all.
    pub fn zero() -> (d: Duration)
        ensures
            d@ == 0,
    {
        Duration { nanos: 0 }
    }

    /// This many seconds.
    pub fn from_secs(secs: u64) -> (d: Duration)
        ensures
            d@ == secs * 1_000_000_000,
    {
        Duration { nanos: secs as u128 * NANOS_PER_SEC }
    }

    /// This many milliseconds.
    pub fn from_millis(millis: u64) -> (d: Duration)
        ensures
            d@ == millis * 1_000_000,
    {
        Duration { nanos: millis as u128 * NANOS_PER_MILLI }
    }

    /// This many nanoseconds.
    pub fn from_nanos(nanos: u64) -> (d: Duration)
        ensures
            d@ == nanos,
    {
        Duration { nanos: nanos as u128 }
    }

    /// The whole number of nanoseconds in this.
    pub fn as_nanos(&self) -> (nanos: u128)
        ensures
            nanos == self@,
            nanos <= MAX_NANOS,
    {
        proof {
            use_type_invariant(*self);
        }
        self.nanos
    }

    /// The whole number of milliseconds in this.
    pub fn as_millis(&self) -> (millis: u128)
        ensures
            millis == self@ / 1_000_000,
    {
        self.nanos / NANOS_PER_MILLI
    }

    /// The whole number of seconds in this.
    pub fn as_secs(&self) -> (secs: u64)
        ensures
            secs == self@ / 1_000_000_000,
    {
        proof {
            use_type_invariant(*self);
        }
        (self.nanos / NANOS_PER_SEC) as u64
    }

    /// The nanoseconds past the last whole second.
    pub fn subsec_nanos(&self) -> (nanos: u32)
        ensures
            nanos == self@ % 1_000_000_000,
    {
        (self.nanos % NANOS_PER_SEC) as u32
    }

    /// The shorter of the two.
    pub fn min(self, other: Duration) -> (d: Duration)
        ensures
            d == (if self@ <= other@ { self } else { other }),
    {
        if self.nanos <= other.nanos { self } else { other }
    }

    /// Whether this is at least as long as the other.
    pub fn at_least(&self, other: &Duration) -> (yes: bool)
        ensures
            yes == (self@ >= other@),
    {
        self.nanos >= other.nanos
    }

    /// This many times as long, or nothing where that is too long to hold.
    pub fn checked_mul(self, by: u32) -> (d: Option<Duration>)
        ensures
            d is Some <==> self@ * by <= MAX_NANOS,
            d matches Some(d) ==> d@ == self@ * by,
    {
        proof {
            use_type_invariant(self);
            assert(self.nanos * by <= MAX_NANOS * u32::MAX) by (nonlinear_arith)
                requires
                    self.nanos <= MAX_NANOS,
                    by <= u32::MAX,
            ;
        }
        let product: u128 = self.nanos * by as u128;
        if product <= MAX_NANOS {
            Some(Duration { nanos: product })
        } else {
            None
        }
    }

    /// This many times as long, or the longest there is.
    pub fn saturating_mul(self, by: u32) -> (d: Duration)
        ensures
            d@ == at_most_max(self@ * by as nat),
    {
        match self.checked_mul(by) {
            Some(d) => d,
            None => Duration { nanos: MAX_NANOS },
        }
    }

    /// The two together, or the longest there is.
    pub fn saturating_add(self, other: Duration) -> (d: Duration)
        ensures
            d@ == at_most_max(self@ + other@),
    {
        proof {
            use_type_invariant(self);
            use_type_invariant(other);
        }
        let sum: u128 = self.nanos + other.nanos;
        if sum <= MAX_NANOS {
            Duration { nanos: sum }
        } else {
            Duration { nanos: MAX_NANOS }
        }
    }

    /// Half of this, rounded down to a nanosecond.
    pub fn half(self) -> (d: Duration)
        ensures
            d@ == self@ / 2,
    {
        proof {
            use_type_invariant(self);
        }
        Duration { nanos: self.nanos / 2 }
    }
}

/// The shorter of two times is one of them and no longer than either.
pub proof fn the_shorter_is_no_longer(a: nat, b: nat)
    ensures
        shorter(a, b) <= a,
        shorter(a, b) <= b,
        shorter(a, b) == a || shorter(a, b) == b,
{
}

} // verus!
