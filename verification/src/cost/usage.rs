//! What a call consumed, and how much of that the provider actually told you.

use vstd::prelude::*;

verus! {

/// How complete a [`Usage`] is.
///
/// Carried alongside the numbers rather than inferred from them, because zero and unknown
/// look the same once they are added up. A total built from partial usage is a total that
/// understates the bill, and nothing downstream can tell.
#[derive(Debug, Clone, Copy, PartialEq, Eq, PartialOrd, Ord, Structural)]
pub enum UsageCoverage {
    /// Every field was reported.
    Exact,
    /// The numbers were counted here rather than reported by the provider.
    ///
    /// Between [`UsageCoverage::Exact`] and [`UsageCoverage::Partial`] in this ordering,
    /// and it is a different kind of wrong from either. A partial usage understates: the
    /// bill is that much or more. An estimate can be wrong in **either** direction, so a
    /// total containing one is not a floor and must not be reported as one.
    Estimated,
    /// Some fields were reported and some were not.
    Partial,
    /// Nothing was reported. The call still happened and still cost something.
    Absent,
}

impl UsageCoverage {
    /// How a coverage is written down.
    pub open spec fn name(self) -> Seq<char> {
        match self {
            UsageCoverage::Exact => "exact"@,
            UsageCoverage::Estimated => "estimated"@,
            UsageCoverage::Partial => "partial"@,
            UsageCoverage::Absent => "absent"@,
        }
    }

    /// How a coverage is written down, in records and in spans.
    pub fn as_str(self) -> (name: &'static str)
        ensures
            name@ == self.name(),
    {
        match self {
            UsageCoverage::Exact => "exact",
            UsageCoverage::Estimated => "estimated",
            UsageCoverage::Partial => "partial",
            UsageCoverage::Absent => "absent",
        }
    }
}

/// The tokens one call consumed.
///
/// Every field is optional because providers differ in what they report, and a missing
/// number is a fact worth keeping. A subscription command line tool usually reports nothing
/// at all, and writing zero in its place turns an unknown cost into a free one.
#[derive(Debug, Clone, Copy, PartialEq, Eq, Structural)]
pub struct Usage {
    /// The part of the prompt that was not served from cache.
    ///
    /// Not the size of the prompt. Providers disagree here, and some report a total that
    /// includes the cached read. A provider in this crate subtracts so that this field
    /// always means the same thing, which is what makes two providers comparable.
    pub input_tokens: Option<u64>,
    /// Prompt tokens served from cache, billed at a lower rate.
    pub cache_read_tokens: Option<u64>,
    /// Prompt tokens written to cache, usually billed at a higher rate than input.
    pub cache_write_tokens: Option<u64>,
    /// Tokens produced, including any the model spent thinking.
    pub output_tokens: Option<u64>,
    /// Whether these numbers were counted here rather than reported.
    ///
    /// A flag rather than a fifth optional field, because it is a fact about all four at
    /// once.
    pub estimated: bool,
}

/// A number, or zero where there is none.
pub open spec fn or_zero(n: Option<u64>) -> int {
    match n {
        Some(n) => n as int,
        None => 0,
    }
}

/// Two token counts together, stopping at the largest there is. Missing from both stays missing.
pub open spec fn added(a: Option<u64>, b: Option<u64>) -> Option<u64> {
    if a is None && b is None {
        None
    } else if or_zero(a) + or_zero(b) > u64::MAX {
        Some(u64::MAX)
    } else {
        Some((or_zero(a) + or_zero(b)) as u64)
    }
}

/// The later of two reports of one token count, where it was made.
pub open spec fn latest(earlier: Option<u64>, later: Option<u64>) -> Option<u64> {
    match later {
        Some(count) => Some(count),
        None => earlier,
    }
}

/// The later of two reports of one token count, where it was made.
fn later_count(earlier: Option<u64>, later: Option<u64>) -> (count: Option<u64>)
    ensures
        count == latest(earlier, later),
{
    match later {
        Some(count) => Some(count),
        None => earlier,
    }
}

/// Two token counts together.
fn add_counts(a: Option<u64>, b: Option<u64>) -> (sum: Option<u64>)
    ensures
        sum == added(a, b),
{
    match (a, b) {
        (None, None) => None,
        (Some(a), None) => Some(a),
        (None, Some(b)) => Some(b),
        (Some(a), Some(b)) => Some(a.saturating_add(b)),
    }
}

impl Default for Usage {
    fn default() -> (usage: Usage)
        ensures
            usage == Usage::nothing(),
    {
        Usage {
            input_tokens: None,
            cache_read_tokens: None,
            cache_write_tokens: None,
            output_tokens: None,
            estimated: false,
        }
    }
}

impl Usage {
    /// A usage with nothing reported.
    pub open spec fn nothing() -> Usage {
        Usage {
            input_tokens: None,
            cache_read_tokens: None,
            cache_write_tokens: None,
            output_tokens: None,
            estimated: false,
        }
    }

    /// Whether no field was reported.
    pub open spec fn is_empty(self) -> bool {
        self.input_tokens is None && self.cache_read_tokens is None && self.cache_write_tokens
            is None && self.output_tokens is None
    }

    /// Whether every field was reported.
    pub open spec fn is_full(self) -> bool {
        self.input_tokens is Some && self.cache_read_tokens is Some && self.cache_write_tokens
            is Some && self.output_tokens is Some
    }

    /// How much of this was reported.
    pub open spec fn covers(self) -> UsageCoverage {
        if self.is_empty() {
            UsageCoverage::Absent
        } else if self.estimated {
            UsageCoverage::Estimated
        } else if self.is_full() {
            UsageCoverage::Exact
        } else {
            UsageCoverage::Partial
        }
    }

    /// Every prompt token, cached or not.
    pub open spec fn prompt(self) -> int {
        or_zero(self.input_tokens) + or_zero(self.cache_read_tokens) + or_zero(
            self.cache_write_tokens,
        )
    }

    /// Two usages together, field by field.
    pub open spec fn merged(self, other: Usage) -> Usage {
        Usage {
            input_tokens: added(self.input_tokens, other.input_tokens),
            cache_read_tokens: added(self.cache_read_tokens, other.cache_read_tokens),
            cache_write_tokens: added(self.cache_write_tokens, other.cache_write_tokens),
            output_tokens: added(self.output_tokens, other.output_tokens),
            estimated: self.estimated || other.estimated,
        }
    }

    /// One usage after a later report of the same call: what the later one reports takes the
    /// place of what was there, and what it does not report stays.
    pub open spec fn revised(self, later: Usage) -> Usage {
        Usage {
            input_tokens: latest(self.input_tokens, later.input_tokens),
            cache_read_tokens: latest(self.cache_read_tokens, later.cache_read_tokens),
            cache_write_tokens: latest(self.cache_write_tokens, later.cache_write_tokens),
            output_tokens: latest(self.output_tokens, later.output_tokens),
            estimated: self.estimated || later.estimated,
        }
    }

    /// A usage with nothing reported.
    ///
    /// This is the right answer when a provider does not measure. It is not the same as
    /// zeros, and [`Usage::coverage`] tells them apart.
    pub fn absent() -> (usage: Usage)
        ensures
            usage == Usage::nothing(),
    {
        Usage {
            input_tokens: None,
            cache_read_tokens: None,
            cache_write_tokens: None,
            output_tokens: None,
            estimated: false,
        }
    }

    /// Records the part of the prompt that was not served from cache.
    ///
    /// Not the whole prompt. If your provider reports a total that includes the cached
    /// part, subtract before you get here, or two providers will report different numbers
    /// for the same conversation.
    pub fn with_input(self, tokens: u64) -> (usage: Usage)
        ensures
            usage == (Usage { input_tokens: Some(tokens), ..self }),
    {
        Usage { input_tokens: Some(tokens), ..self }
    }

    /// Records prompt tokens served from cache.
    pub fn with_cache_read(self, tokens: u64) -> (usage: Usage)
        ensures
            usage == (Usage { cache_read_tokens: Some(tokens), ..self }),
    {
        Usage { cache_read_tokens: Some(tokens), ..self }
    }

    /// Records prompt tokens written to cache.
    pub fn with_cache_write(self, tokens: u64) -> (usage: Usage)
        ensures
            usage == (Usage { cache_write_tokens: Some(tokens), ..self }),
    {
        Usage { cache_write_tokens: Some(tokens), ..self }
    }

    /// Records tokens produced, thinking included.
    pub fn with_output(self, tokens: u64) -> (usage: Usage)
        ensures
            usage == (Usage { output_tokens: Some(tokens), ..self }),
    {
        Usage { output_tokens: Some(tokens), ..self }
    }

    /// Marks these numbers as counted here rather than reported by the provider.
    ///
    /// Estimating nothing is still nothing: this on an otherwise absent usage leaves the
    /// coverage [`UsageCoverage::Absent`], because there is no estimate to be approximate
    /// about.
    pub fn estimating(self) -> (usage: Usage)
        ensures
            usage == (Usage { estimated: true, ..self }),
    {
        Usage { estimated: true, ..self }
    }

    /// What an embedding call consumed, when the provider reported its prompt tokens.
    ///
    /// An embedding endpoint reports one number, because one number is all there is: text
    /// goes in and a vector comes out, and a vector is not tokens. So the other three fields
    /// are set to zero rather than left absent, and this reads as
    /// [`UsageCoverage::Exact`].
    pub fn embedding(input_tokens: u64) -> (usage: Usage)
        ensures
            usage == (Usage {
                input_tokens: Some(input_tokens),
                cache_read_tokens: Some(0),
                cache_write_tokens: Some(0),
                output_tokens: Some(0),
                estimated: false,
            }),
            usage.covers() == UsageCoverage::Exact,
    {
        Usage {
            input_tokens: Some(input_tokens),
            cache_read_tokens: Some(0),
            cache_write_tokens: Some(0),
            output_tokens: Some(0),
            estimated: false,
        }
    }

    /// How much of this was reported.
    pub fn coverage(&self) -> (coverage: UsageCoverage)
        ensures
            coverage == self.covers(),
    {
        if self.input_tokens.is_none() && self.cache_read_tokens.is_none()
            && self.cache_write_tokens.is_none() && self.output_tokens.is_none() {
            UsageCoverage::Absent
        } else if self.estimated {
            UsageCoverage::Estimated
        } else if self.input_tokens.is_some() && self.cache_read_tokens.is_some()
            && self.cache_write_tokens.is_some() && self.output_tokens.is_some() {
            UsageCoverage::Exact
        } else {
            UsageCoverage::Partial
        }
    }

    /// Every prompt token, cached or not.
    ///
    /// Returns `None` when no prompt field was reported at all. A missing field among
    /// others counts as zero, because a provider that reports two of three is telling you
    /// the third did not happen.
    pub fn prompt_tokens(&self) -> (tokens: Option<u64>)
        requires
            self.prompt() <= u64::MAX,
        ensures
            tokens is None <==> self.input_tokens is None && self.cache_read_tokens is None
                && self.cache_write_tokens is None,
            tokens matches Some(n) ==> n == self.prompt(),
    {
        if self.input_tokens.is_none() && self.cache_read_tokens.is_none()
            && self.cache_write_tokens.is_none() {
            return None;
        }
        let input: u64 = self.input_tokens.unwrap_or(0);
        let read: u64 = self.cache_read_tokens.unwrap_or(0);
        let written: u64 = self.cache_write_tokens.unwrap_or(0);
        Some(input + read + written)
    }

    /// Adds two usages together, field by field.
    ///
    /// A field missing from both stays missing. A field present in either is a number, so
    /// summing a run of calls never turns a reported total into an unknown one.
    pub fn merge(self, other: Usage) -> (sum: Usage)
        ensures
            sum == self.merged(other),
    {
        Usage {
            input_tokens: add_counts(self.input_tokens, other.input_tokens),
            cache_read_tokens: add_counts(self.cache_read_tokens, other.cache_read_tokens),
            cache_write_tokens: add_counts(self.cache_write_tokens, other.cache_write_tokens),
            output_tokens: add_counts(self.output_tokens, other.output_tokens),
            estimated: self.estimated || other.estimated,
        }
    }

    /// This usage after a later report of the same call.
    ///
    /// A provider that reports as it goes repeats its totals, so a field that is reported again
    /// takes the new number. A field that is not reported again keeps the one it has. Calls are
    /// added up with [`Usage::merge`].
    pub fn revise(self, later: Usage) -> (usage: Usage)
        ensures
            usage == self.revised(later),
    {
        Usage {
            input_tokens: later_count(self.input_tokens, later.input_tokens),
            cache_read_tokens: later_count(self.cache_read_tokens, later.cache_read_tokens),
            cache_write_tokens: later_count(self.cache_write_tokens, later.cache_write_tokens),
            output_tokens: later_count(self.output_tokens, later.output_tokens),
            estimated: self.estimated || later.estimated,
        }
    }
}

/// It does not matter which of two usages is added to the other.
pub proof fn merging_is_commutative(a: Usage, b: Usage)
    ensures
        a.merged(b) == b.merged(a),
{
}

/// It does not matter in which groups a run of usages is added up.
pub proof fn merging_is_associative(a: Usage, b: Usage, c: Usage)
    ensures
        a.merged(b).merged(c) == a.merged(b.merged(c)),
{
}

/// A call that reported nothing changes nothing about a sum.
pub proof fn absence_changes_nothing(a: Usage)
    ensures
        a.merged(Usage::nothing()) == a,
        Usage::nothing().merged(a) == a,
{
}

/// What is known of either usage stays known of their sum, and what neither reported stays
/// unknown.
pub proof fn what_is_known_stays_known(a: Usage, b: Usage)
    ensures
        a.merged(b).input_tokens is Some <==> a.input_tokens is Some || b.input_tokens is Some,
        a.merged(b).cache_read_tokens is Some <==> a.cache_read_tokens is Some
            || b.cache_read_tokens is Some,
        a.merged(b).cache_write_tokens is Some <==> a.cache_write_tokens is Some
            || b.cache_write_tokens is Some,
        a.merged(b).output_tokens is Some <==> a.output_tokens is Some || b.output_tokens is Some,
{
}

/// A sum with an estimate in it is an estimate, never an exact figure and never a floor.
pub proof fn an_estimate_spreads(a: Usage, b: Usage)
    requires
        a.covers() == UsageCoverage::Estimated || b.covers() == UsageCoverage::Estimated,
    ensures
        a.merged(b).covers() == UsageCoverage::Estimated,
{
}

/// Two exact figures add up to an exact one.
pub proof fn exact_figures_stay_exact(a: Usage, b: Usage)
    requires
        a.covers() == UsageCoverage::Exact,
        b.covers() == UsageCoverage::Exact,
    ensures
        a.merged(b).covers() == UsageCoverage::Exact,
{
}

/// A sum holds of each kind of tokens what the two hold of that kind, and nothing of another,
/// where the count can be held.
pub proof fn merging_adds_each_kind(a: Usage, b: Usage)
    ensures
        match (a.input_tokens, b.input_tokens) {
            (Some(one), Some(other)) => one + other <= u64::MAX ==> a.merged(b).input_tokens == Some(
                (one + other) as u64,
            ),
            (Some(one), None) => a.merged(b).input_tokens == Some(one),
            (None, Some(other)) => a.merged(b).input_tokens == Some(other),
            (None, None) => a.merged(b).input_tokens is None,
        },
        match (a.cache_read_tokens, b.cache_read_tokens) {
            (Some(one), Some(other)) => one + other <= u64::MAX ==> a.merged(b).cache_read_tokens == Some(
                (one + other) as u64,
            ),
            (Some(one), None) => a.merged(b).cache_read_tokens == Some(one),
            (None, Some(other)) => a.merged(b).cache_read_tokens == Some(other),
            (None, None) => a.merged(b).cache_read_tokens is None,
        },
        match (a.cache_write_tokens, b.cache_write_tokens) {
            (Some(one), Some(other)) => one + other <= u64::MAX ==> a.merged(b).cache_write_tokens == Some(
                (one + other) as u64,
            ),
            (Some(one), None) => a.merged(b).cache_write_tokens == Some(one),
            (None, Some(other)) => a.merged(b).cache_write_tokens == Some(other),
            (None, None) => a.merged(b).cache_write_tokens is None,
        },
        match (a.output_tokens, b.output_tokens) {
            (Some(one), Some(other)) => one + other <= u64::MAX ==> a.merged(b).output_tokens == Some(
                (one + other) as u64,
            ),
            (Some(one), None) => a.merged(b).output_tokens == Some(one),
            (None, Some(other)) => a.merged(b).output_tokens == Some(other),
            (None, None) => a.merged(b).output_tokens is None,
        },
        a.merged(b).estimated <==> a.estimated || b.estimated,
{
}

/// A later report takes the place of an earlier one kind by kind, and leaves the kinds alone that
/// it does not speak of.
pub proof fn revising_replaces_each_kind(earlier: Usage, later: Usage)
    ensures
        earlier.revised(later).input_tokens == (if later.input_tokens is Some {
            later.input_tokens
        } else {
            earlier.input_tokens
        }),
        earlier.revised(later).cache_read_tokens == (if later.cache_read_tokens is Some {
            later.cache_read_tokens
        } else {
            earlier.cache_read_tokens
        }),
        earlier.revised(later).cache_write_tokens == (if later.cache_write_tokens is Some {
            later.cache_write_tokens
        } else {
            earlier.cache_write_tokens
        }),
        earlier.revised(later).output_tokens == (if later.output_tokens is Some {
            later.output_tokens
        } else {
            earlier.output_tokens
        }),
        earlier.revised(later).estimated <==> earlier.estimated || later.estimated,
{
}

/// How much of a usage was reported: nothing where no kind was, everything where all four were,
/// some of it otherwise; and where a number was worked out rather than reported, that it was.
pub proof fn coverage_says_what_was_reported(usage: Usage)
    ensures
        usage.covers() is Absent <==> usage.input_tokens is None && usage.cache_read_tokens is None
            && usage.cache_write_tokens is None && usage.output_tokens is None,
        usage.covers() is Exact <==> !usage.estimated && usage.input_tokens is Some
            && usage.cache_read_tokens is Some && usage.cache_write_tokens is Some
            && usage.output_tokens is Some,
        usage.covers() is Estimated ==> usage.estimated,
        usage.estimated && !(usage.covers() is Absent) ==> usage.covers() is Estimated,
{
}

/// The prompt is its three parts together, and what was not reported of it counts as none.
pub proof fn the_prompt_is_its_three_parts(usage: Usage, tokens: u64)
    ensures
        Usage::nothing().prompt() == 0,
        (Usage { input_tokens: Some(tokens), ..Usage::nothing() }).prompt() == tokens,
        (Usage { cache_read_tokens: Some(tokens), ..Usage::nothing() }).prompt() == tokens,
        (Usage { cache_write_tokens: Some(tokens), ..Usage::nothing() }).prompt() == tokens,
        (Usage { output_tokens: Some(tokens), ..usage }).prompt() == usage.prompt(),
        usage.prompt() == (Usage { input_tokens: usage.input_tokens, ..Usage::nothing() }).prompt()
            + (Usage {
            cache_read_tokens: usage.cache_read_tokens,
            ..Usage::nothing()
        }).prompt() + (Usage {
            cache_write_tokens: usage.cache_write_tokens,
            ..Usage::nothing()
        }).prompt(),
{
}

/// A count that cannot be held stops at the largest there is.
pub proof fn a_sum_stops_at_the_largest(one: u64, other: u64)
    requires
        one + other > u64::MAX,
    ensures
        (Usage { input_tokens: Some(one), ..Usage::nothing() }).merged(
            Usage { input_tokens: Some(other), ..Usage::nothing() },
        ).input_tokens == Some(u64::MAX),
{
}

} // verus!
