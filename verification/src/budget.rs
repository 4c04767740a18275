//! A cap on what a run may spend, and what of it is gone.
//!
//! A [`Budget`] says how much, in which one currency, and what to do with a route that nobody can
//! price. A [`Purse`] keeps the running total: what was priced, and how many calls could not be.
//! Two real numbers come of them that can be read before a call is made: what is left of the cap,
//! and the most that a reply of a given length could cost. [`Budget::refuses`] says from these
//! whether a call may start: a cap checked after the call is a report. Whoever makes the calls
//! asks it.

use crate::cost::pricing::{clamp, clamped, cost_of, part_cost, Micros, Rate};
use crate::text::same;
use vstd::prelude::*;

verus! {

/// What to do with a route whose cost cannot be worked out.
#[derive(Debug, Clone, Copy, PartialEq, Eq, Structural)]
pub enum Unpriced {
    /// Not to be used while a budget is set. The default.
    ///
    /// A cap that cannot be checked is not a cap.
    Refused,
    /// To be used, and counted as one call whose cost is unknown.
    ///
    /// The right answer when the unpriced routes are subscription command line tools, whose
    /// calls genuinely add nothing to a per-call bill.
    Allowed,
}

impl Default for Unpriced {
    fn default() -> (unpriced: Unpriced)
        ensures
            unpriced == Unpriced::Refused,
    {
        Unpriced::Refused
    }
}

/// A cap on what a run may spend.
#[derive(Debug, Clone, PartialEq, Eq)]
pub struct Budget {
    cap: Micros,
    currency: String,
    unpriced: Unpriced,
}

/// What a [`Budget`] holds.
#[verifier::ext_equal]
pub struct Allowance {
    pub cap: Micros,
    pub currency: Seq<char>,
    pub unpriced: Unpriced,
}

impl View for Budget {
    type V = Allowance;

    closed spec fn view(&self) -> Allowance {
        Allowance { cap: self.cap, currency: self.currency@, unpriced: self.unpriced }
    }
}

impl Budget {
    /// This much, in this currency.
    ///
    /// The currency is not optional and there is no default. [`Micros`] is a bare integer
    /// and two of them add whether or not they are the same money, so a budget that did not
    /// name its currency would happily be spent in another one.
    pub fn of(cap: Micros, currency: &str) -> (budget: Budget)
        ensures
            budget@ == (Allowance { cap, currency: currency@, unpriced: Unpriced::Refused }),
    {
        Budget { cap, currency: currency.to_owned(), unpriced: Unpriced::Refused }
    }

    /// Let a route nobody can price run anyway, counted as unmeasured.
    ///
    /// Said out loud rather than arrived at. Without this a budget refuses what it cannot
    /// check, which is the only setting under which "this run spent at most the cap" is a
    /// sentence anybody should believe.
    pub fn allowing_unpriced(self) -> (budget: Budget)
        ensures
            budget@ == (Allowance { unpriced: Unpriced::Allowed, ..self@ }),
    {
        Budget { unpriced: Unpriced::Allowed, ..self }
    }

    /// The cap.
    pub fn cap(&self) -> (cap: Micros)
        ensures
            cap == self@.cap,
    {
        self.cap
    }

    /// Which money the cap is in, as an ISO code such as `USD`.
    pub fn currency(&self) -> (currency: &str)
        ensures
            currency@ == self@.currency,
    {
        self.currency.as_str()
    }

    /// What this budget does with a route it cannot price.
    pub fn unpriced(&self) -> (unpriced: Unpriced)
        ensures
            unpriced == self@.unpriced,
    {
        self.unpriced
    }

    /// The most a reply of this length could cost at this rate.
    ///
    /// An upper bound rather than an estimate, which is why it is safe to refuse on. Every
    /// token is counted at the output rate, and no reply is longer than the limit it was
    /// given.
    pub fn most_a_reply_can_cost(max_tokens: u32, rate: &Rate) -> (most: Micros)
        ensures
            most == Micros(part_cost(max_tokens as int, rate.output.0)),
    {
        Micros(cost_of(max_tokens as i64, rate.output.0))
    }
}

/// What a budget has been spent on so far.
///
/// A snapshot. Ask again after a call and the numbers will have moved.
#[derive(Debug, Clone, PartialEq, Eq)]
pub struct Spending {
    /// The cap this run was given.
    pub cap: Micros,
    /// What has been priced against it.
    ///
    /// A floor rather than a total whenever [`Spending::unmeasured`] is not zero.
    pub spent: Micros,
    /// What is left, never below zero.
    pub remaining: Micros,
    /// Which money all of the above is in.
    pub currency: String,
    /// Calls that were made and could not be priced.
    pub unmeasured: usize,
}

impl Spending {
    /// Whether [`Spending::spent`] is the whole of what this run has cost.
    ///
    /// `false` when anything was made that could not be priced, which makes the figure a
    /// floor.
    pub fn is_exact(&self) -> (yes: bool)
        ensures
            yes == (self.unmeasured == 0),
    {
        self.unmeasured == 0
    }
}

/// Why a budget refuses a call before it is made.
#[derive(Debug, Clone, Copy, PartialEq, Eq, Structural)]
pub enum Refusal {
    /// Nothing is left of the cap. A budget that is spent refuses everything.
    Spent,
    /// Nobody can price the route, and a cap that cannot be checked is not a cap.
    Unpriced,
    /// The route is priced in other money. There is no exchange rate here, so it is refused
    /// rather than converted.
    OtherCurrency,
    /// The reply alone could cost more than is left, however short the prompt turns out to be.
    CouldOverrun,
}

/// The running total behind a [`Budget`].
#[derive(Debug, Clone, Copy, PartialEq, Eq, Structural)]
pub struct Purse {
    /// What has been priced, in millionths.
    pub spent: i64,
    /// Calls that were made and could not be priced.
    pub unmeasured: usize,
}

impl Default for Purse {
    fn default() -> (purse: Purse)
        ensures
            purse == (Purse { spent: 0, unmeasured: 0 }),
    {
        Purse { spent: 0, unmeasured: 0 }
    }
}

/// What is left of a cap, never below zero.
pub open spec fn left_of(cap: i64, spent: i64) -> i64 {
    if clamped(cap - spent) < 0 {
        0
    } else {
        clamped(cap - spent)
    }
}

impl Purse {
    /// What is left of this cap, never below zero.
    pub fn remaining(&self, cap: Micros) -> (left: Micros)
        ensures
            left == Micros(left_of(cap.0, self.spent)),
            left.0 >= 0,
    {
        let left: i64 = clamp(cap.0 as i128 - self.spent as i128);
        if left < 0 {
            Micros(0)
        } else {
            Micros(left)
        }
    }

    /// Adds to the running total, which wraps round at the largest amount there is.
    pub fn spend(&mut self, amount: Micros)
        ensures
            *final(self) == (Purse {
                spent: old(self).spent.wrapping_add(amount.0),
                ..*old(self)
            }),
            i64::MIN <= old(self).spent + amount.0 <= i64::MAX ==> final(self).spent
                == old(self).spent + amount.0,
    {
        self.spent = self.spent.wrapping_add(amount.0);
    }

    /// Records a call that happened and could not be priced. The count wraps round.
    pub fn unmeasured(&mut self)
        ensures
            *final(self) == (Purse {
                unmeasured: old(self).unmeasured.wrapping_add(1),
                ..*old(self)
            }),
    {
        self.unmeasured = self.unmeasured.wrapping_add(1);
    }

    /// Takes one back off the unmeasured count, for a call that has since been priced. The
    /// count never passes below zero.
    pub fn measured_after_all(&mut self)
        ensures
            *final(self) == (Purse {
                unmeasured: if old(self).unmeasured == 0 {
                    0
                } else {
                    (old(self).unmeasured - 1) as usize
                },
                ..*old(self)
            }),
    {
        if self.unmeasured > 0 {
            self.unmeasured = self.unmeasured - 1;
        }
    }

    /// The snapshot a caller reads.
    pub fn spending(&self, budget: &Budget) -> (spending: Spending)
        ensures
            spending.cap == budget@.cap,
            spending.spent == Micros(self.spent),
            spending.remaining == Micros(left_of(budget@.cap.0, self.spent)),
            spending.currency@ == budget@.currency,
            spending.unmeasured == self.unmeasured,
    {
        Spending {
            cap: budget.cap,
            spent: Micros(self.spent),
            remaining: self.remaining(budget.cap),
            currency: budget.currency.clone(),
            unmeasured: self.unmeasured,
        }
    }
}

impl Allowance {
    /// Why a call is refused before it is made, where it is. `price` is the rate of the route and
    /// the money it is in, where there is one, and `max_tokens` the most the reply may be.
    pub open spec fn refusal(
        self,
        spent: i64,
        max_tokens: Option<u32>,
        price: Option<(Rate, Seq<char>)>,
    ) -> Option<Refusal> {
        let left = left_of(self.cap.0, spent);
        if left == 0 {
            Some(Refusal::Spent)
        } else {
            match price {
                None => if self.unpriced == Unpriced::Refused {
                    Some(Refusal::Unpriced)
                } else {
                    None
                },
                Some((rate, currency)) => if currency != self.currency {
                    Some(Refusal::OtherCurrency)
                } else {
                    match max_tokens {
                        Some(most) => if part_cost(most as int, rate.output.0) > left {
                            Some(Refusal::CouldOverrun)
                        } else {
                            None
                        },
                        None => None,
                    }
                },
            }
        }
    }
}

impl Budget {
    /// Why this budget refuses a call before it is made, where it does.
    ///
    /// `max_tokens` is the most the reply may be, where the request says, and `price` the rate of
    /// the route and the money it is in, where there is one. What the prompt costs is not known
    /// before the call, so a budget is a cap on what a run is allowed to start, and the last call
    /// of a run can carry it over.
    pub fn refuses(
        &self,
        purse: &Purse,
        max_tokens: Option<u32>,
        price: Option<(&Rate, &str)>,
    ) -> (why: Option<Refusal>)
        ensures
            why == self@.refusal(
                purse.spent,
                max_tokens,
                match price {
                    Some((rate, currency)) => Some((*rate, currency@)),
                    None => None,
                },
            ),
            why is Some <==> {
                ||| left_of(self@.cap.0, purse.spent) == 0
                ||| price is None && self@.unpriced == Unpriced::Refused
                ||| price matches Some((_, currency)) && currency@ != self@.currency
                ||| price matches Some((rate, _)) && max_tokens matches Some(most) && part_cost(
                    most as int,
                    rate.output.0,
                ) > left_of(self@.cap.0, purse.spent)
            },
    {
        let left = purse.remaining(self.cap);
        if left.0 == 0 {
            return Some(Refusal::Spent);
        }
        match price {
            None => match self.unpriced {
                Unpriced::Refused => Some(Refusal::Unpriced),
                Unpriced::Allowed => None,
            },
            Some((rate, currency)) => {
                if !same(currency, self.currency.as_str()) {
                    return Some(Refusal::OtherCurrency);
                }
                if let Some(most) = max_tokens {
                    if Budget::most_a_reply_can_cost(most, rate).0 > left.0 {
                        return Some(Refusal::CouldOverrun);
                    }
                }
                None
            },
        }
    }
}

/// A budget that is spent refuses everything, and so does one that nothing was given to.
pub proof fn a_spent_budget_refuses_everything(
    allowance: Allowance,
    spent: i64,
    max_tokens: Option<u32>,
    price: Option<(Rate, Seq<char>)>,
)
    requires
        spent >= allowance.cap.0,
    ensures
        allowance.refusal(spent, max_tokens, price) == Some(Refusal::Spent),
{
}

/// A reply that a budget does not refuse, and that is no longer than it may be, leaves the run
/// within the cap, but for what the prompt costs.
pub proof fn a_reply_that_is_let_through_fits(
    allowance: Allowance,
    spent: i64,
    max_tokens: u32,
    tokens: u32,
    rate: Rate,
    currency: Seq<char>,
)
    requires
        allowance.refusal(spent, Some(max_tokens), Some((rate, currency))) is None,
        tokens <= max_tokens,
        rate.output.0 >= 0,
        0 <= spent,
    ensures
        currency == allowance.currency,
        spent + part_cost(tokens as int, rate.output.0) <= allowance.cap.0,
{
    the_most_is_an_upper_bound(tokens, max_tokens, rate);
}

/// What is left is never below zero, is nothing once the cap is spent, and is the difference
/// while it is not.
pub proof fn what_is_left_never_goes_below_zero(cap: i64, spent: i64)
    ensures
        left_of(cap, spent) >= 0,
        spent >= cap ==> left_of(cap, spent) == 0,
        0 <= spent <= cap ==> left_of(cap, spent) == cap - spent,
{
}

/// No reply within a limit costs more than the most that was worked out for the limit, at a
/// rate that is not negative.
pub proof fn the_most_is_an_upper_bound(tokens: u32, max_tokens: u32, rate: Rate)
    requires
        tokens <= max_tokens,
        rate.output.0 >= 0,
    ensures
        part_cost(tokens as int, rate.output.0) <= part_cost(max_tokens as int, rate.output.0),
{
    let a = tokens as int * rate.output.0;
    let b = max_tokens as int * rate.output.0;
    assert(0 <= a <= b) by (nonlinear_arith)
        requires
            tokens <= max_tokens,
            rate.output.0 >= 0,
            a == tokens as int * rate.output.0,
            b == max_tokens as int * rate.output.0,
    ;
}

/// A budget refuses for one of four reasons, and for none of them where none holds: with something
/// left, a route that is priced in its own money and a reply that fits, a call may start.
pub proof fn a_call_that_fits_may_start(
    allowance: Allowance,
    spent: i64,
    max_tokens: Option<u32>,
    rate: Rate,
    currency: Seq<char>,
)
    requires
        0 <= spent < allowance.cap.0,
    ensures
        allowance.refusal(spent, None, Some((rate, allowance.currency))) is None,
        allowance.refusal(spent, max_tokens, Some((rate, currency))) is None ==> currency
            == allowance.currency,
        currency != allowance.currency ==> allowance.refusal(
            spent,
            max_tokens,
            Some((rate, currency)),
        ) == Some(Refusal::OtherCurrency),
        allowance.refusal(spent, max_tokens, None) is Some <==> allowance.unpriced
            == Unpriced::Refused,
        max_tokens matches Some(most) ==> (allowance.refusal(
            spent,
            max_tokens,
            Some((rate, allowance.currency)),
        ) is Some <==> part_cost(most as int, rate.output.0) > allowance.cap.0 - spent),
{
}

} // verus!
