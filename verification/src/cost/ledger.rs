//! What a run cost, and what it cannot say it cost.
//!
//! Adding two calls together is the easy half. The hard half is that a run almost always
//! contains a call nobody measured, and a number that quietly leaves it out is worse than no
//! number at all.
//!
//! **A total containing an unpriced call is a lower bound.** [`Total`] says which it is, so
//! a report can print "at least" rather than a figure somebody will read as the bill.
//!
//! **A call nobody could price still happened.** It belongs in the count as a call whose cost
//! is unknown, not as zero, and not missing from the ledger.
//!
//! **A cost is priced once.** [`Ledger::record`] prices at the moment of recording and keeps
//! the [`Priced`], which carries the edition that produced it.
//!
//! **A call whose reply was never read still happened.** Say [`Ledger::record_cancelled`].
//!
//! **A sum needs one currency.** [`Ledger::total`] answers `None` when the run was priced in
//! more than one, and [`Ledger::totals`] gives one figure per currency instead.

use crate::chat::response::ChatResponse;
use crate::cost::pricing::{clamped, written, Cost, Micros, PriceBook, Priced};
use crate::cost::usage::{Usage, UsageCoverage};
use crate::model::ModelId;
use crate::order::{increasing, Table};
use crate::text::{followed_by, same};
use vstd::prelude::*;

verus! {

/// What a run cost, and whether that is the whole of it.
///
/// Two variants rather than a number and a flag, because a flag is something a caller can
/// forget to read and a variant is something they have to.
#[derive(Debug, Clone, Copy, PartialEq, Eq, Structural)]
pub enum Total {
    /// Every call was priced, from usage the provider reported in full.
    Exact(Micros),
    /// At least this much.
    ///
    /// Something in the run was not priced, or was priced from usage the provider only
    /// partly reported.
    AtLeast(Micros),
}

impl DeepView for Total {
    type V = Total;

    open spec fn deep_view(&self) -> Total {
        *self
    }
}

impl Total {
    /// The figure in one line.
    pub open spec fn line(self) -> Seq<char> {
        match self {
            Total::Exact(amount) => written(amount.0 as int),
            Total::AtLeast(amount) => "at least "@ + written(amount.0 as int),
        }
    }

    /// The number, whichever kind it is.
    ///
    /// Read [`Total::is_exact`] before you present it as a bill.
    pub fn amount(self) -> (amount: Micros)
        ensures
            amount == (match self {
                Total::Exact(amount) => amount,
                Total::AtLeast(amount) => amount,
            }),
    {
        match self {
            Total::Exact(amount) => amount,
            Total::AtLeast(amount) => amount,
        }
    }

    /// Whether this is the whole cost rather than a floor under it.
    pub fn is_exact(self) -> (yes: bool)
        ensures
            yes == (self is Exact),
    {
        match self {
            Total::Exact(_) => true,
            Total::AtLeast(_) => false,
        }
    }

    /// The figure in one line, for a person to read.
    pub fn to_string(&self) -> (line: String)
        ensures
            line@ == self.line(),
    {
        match self {
            Total::Exact(amount) => amount.exact(),
            Total::AtLeast(amount) => followed_by("at least ", amount.exact().as_str()),
        }
    }
}

/// One call, as the ledger remembers it.
#[derive(Debug, Clone, PartialEq)]
pub struct Line {
    /// Which model served it, as the reply said.
    pub model: ModelId,
    /// What it consumed, as far as the provider reported.
    pub usage: Usage,
    /// What it cost, when it could be priced.
    ///
    /// `None` means the call happened and its cost is not known: no price row, or usage the
    /// provider never reported. It is deliberately not `Some(zero)`.
    pub cost: Option<Priced>,
}

/// What a [`Line`] holds.
#[verifier::ext_equal]
pub struct Call {
    pub model: Seq<char>,
    pub usage: Usage,
    pub cost: Option<Cost>,
}

impl DeepView for Line {
    type V = Call;

    open spec fn deep_view(&self) -> Call {
        Call { model: self.model@, usage: self.usage, cost: self.cost.deep_view() }
    }
}

/// Every call in a run, and what they came to.
///
/// Not thread safe on its own, deliberately: a ledger is a record somebody keeps. Share one
/// behind whatever your program already uses, or keep one per task and [`Ledger::absorb`]
/// them at the end.
#[derive(Debug, Clone)]
pub struct Ledger {
    lines: Vec<Line>,
}

impl DeepView for Ledger {
    type V = Seq<Call>;

    closed spec fn deep_view(&self) -> Seq<Call> {
        self.lines.deep_view()
    }
}

/// Whether a call was priced in this currency.
pub open spec fn priced_in(call: Call, code: Seq<char>) -> bool {
    call.cost matches Some(cost) && cost.currency == code
}

/// The currencies that calls were priced in.
pub open spec fn codes(calls: Seq<Call>) -> Set<Seq<char>> {
    Set::new(|code: Seq<char>| exists|i: int| 0 <= i < calls.len() && priced_in(#[trigger] calls[i], code))
}

/// The price book editions that calls were priced with.
pub open spec fn books(calls: Seq<Call>) -> Set<Seq<char>> {
    Set::new(
        |book: Seq<char>|
            exists|i: int|
                0 <= i < calls.len() && (#[trigger] calls[i]).cost is Some && calls[i].cost->0.book
                    == book,
    )
}

/// How many calls have no cost.
pub open spec fn unpriced_count(calls: Seq<Call>) -> nat
    decreases calls.len(),
{
    if calls.len() == 0 {
        0
    } else {
        unpriced_count(calls.drop_last()) + if calls.last().cost is None {
            1nat
        } else {
            0nat
        }
    }
}

/// Whether calls were priced in more than one currency.
pub open spec fn mixed(calls: Seq<Call>) -> bool {
    exists|i: int, j: int|
        0 <= i < calls.len() && 0 <= j < calls.len() && (#[trigger] calls[i]).cost is Some && (
        #[trigger] calls[j]).cost is Some && calls[i].cost->0.currency != calls[j].cost->0.currency
}

/// What the priced calls come to together, added up in turn.
pub open spec fn sum(calls: Seq<Call>) -> i64
    decreases calls.len(),
{
    if calls.len() == 0 {
        0
    } else {
        match calls.last().cost {
            Some(cost) => clamped(sum(calls.drop_last()) + cost.amount.0),
            None => sum(calls.drop_last()),
        }
    }
}

/// What the calls priced in one currency come to together, added up in turn.
pub open spec fn sum_in(calls: Seq<Call>, code: Seq<char>) -> i64
    decreases calls.len(),
{
    if calls.len() == 0 {
        0
    } else if priced_in(calls.last(), code) {
        clamped(sum_in(calls.drop_last(), code) + calls.last().cost->0.amount.0)
    } else {
        sum_in(calls.drop_last(), code)
    }
}

/// Whether a call was priced from usage that was reported in full.
pub open spec fn measured(call: Call) -> bool {
    call.cost matches Some(cost) && cost.coverage == UsageCoverage::Exact
}

/// Whether every call was priced from usage that was reported in full.
pub open spec fn all_measured(calls: Seq<Call>) -> bool {
    forall|i: int| 0 <= i < calls.len() ==> measured(#[trigger] calls[i])
}

/// Whether no call is without a cost and every call in this currency was priced from usage
/// that was reported in full.
pub open spec fn all_measured_in(calls: Seq<Call>, code: Seq<char>) -> bool {
    forall|i: int|
        0 <= i < calls.len() ==> (#[trigger] calls[i]).cost is Some && (priced_in(calls[i], code)
            ==> measured(calls[i]))
}

/// A figure for a run, exact where it is the whole of it.
pub open spec fn figure(amount: i64, whole: bool) -> Total {
    if whole {
        Total::Exact(Micros(amount))
    } else {
        Total::AtLeast(Micros(amount))
    }
}

/// What calls cost in all. Calls in more than one currency have no such figure.
pub open spec fn total_of(calls: Seq<Call>) -> Option<Total> {
    if mixed(calls) {
        None
    } else {
        Some(figure(sum(calls), all_measured(calls)))
    }
}

/// What calls cost in one currency.
pub open spec fn total_in(calls: Seq<Call>, code: Seq<char>) -> Total {
    figure(sum_in(calls, code), all_measured_in(calls, code))
}

impl Default for Ledger {
    fn default() -> (ledger: Ledger)
        ensures
            ledger.deep_view() == Seq::<Call>::empty(),
    {
        Ledger { lines: Vec::new() }
    }
}

impl Ledger {
    /// An empty ledger.
    pub fn new() -> (ledger: Ledger)
        ensures
            ledger.deep_view() == Seq::<Call>::empty(),
    {
        Ledger { lines: Vec::new() }
    }

    /// Puts a line behind the others.
    fn add(&mut self, line: Line)
        ensures
            final(self).deep_view() == old(self).deep_view().push(line.deep_view()),
    {
        let ghost before = self.lines.deep_view();
        self.lines.push(line);
        assert(self.lines.deep_view() == before.push(line.deep_view()));
    }

    /// Records a reply, pricing it now against this book.
    ///
    /// Pass `None` for a reach that has no price list. The call is still counted; only its
    /// cost is unknown.
    ///
    /// Pricing happens here and never again. What is kept is the [`Priced`], carrying the
    /// edition that produced it, so a later change to a table cannot rewrite what a call
    /// cost at the time it was made.
    pub fn record(&mut self, reply: &ChatResponse, book: Option<&PriceBook>)
        ensures
            final(self).deep_view() == old(self).deep_view().push(
                Call {
                    model: reply.deep_view().model,
                    usage: reply.deep_view().usage,
                    cost: match book {
                        Some(book) => book.deep_view().price(
                            reply.deep_view().model,
                            reply.deep_view().usage,
                        ),
                        None => None,
                    },
                },
            ),
    {
        let cost = match book {
            Some(book) => book.price(&reply.model, &reply.usage),
            None => None,
        };
        self.add(Line { model: reply.model.copied(), usage: reply.usage, cost });
    }

    /// Records a call that was made and could not be priced.
    ///
    /// For a reach with no price list at all, said out loud rather than arrived at by
    /// passing `None` and hoping.
    ///
    /// Not the method for a call whose reply was never read. That is
    /// [`Ledger::record_cancelled`].
    pub fn record_unpriced(&mut self, model: &str, usage: Usage)
        ensures
            final(self).deep_view() == old(self).deep_view().push(
                Call { model: model@, usage, cost: None },
            ),
    {
        self.add(Line { model: ModelId(model.to_owned()), usage, cost: None });
    }

    /// Records a call that went out and whose reply was never read.
    ///
    /// The case this exists for is hedging: two providers are asked the same question, the
    /// first answer wins, and the loser's future is dropped. That request was sent and it
    /// will be billed. Recorded as [`Usage::absent`], never as zero, for the same reason
    /// everything else unmeasured is.
    pub fn record_cancelled(&mut self, model: &str)
        ensures
            final(self).deep_view() == old(self).deep_view().push(
                Call { model: model@, usage: Usage::nothing(), cost: None },
            ),
    {
        self.record_unpriced(model, Usage::absent());
    }

    /// Takes everything from another ledger.
    pub fn absorb(&mut self, other: Ledger)
        ensures
            final(self).deep_view() == old(self).deep_view() + other.deep_view(),
    {
        let ghost mine = self.lines.deep_view();
        let mut theirs = other.lines;
        let ghost more = theirs.deep_view();
        self.lines.append(&mut theirs);
        assert(self.lines.deep_view() == mine + more);
    }

    /// Every call, in the order they were recorded.
    pub fn lines(&self) -> (lines: &Vec<Line>)
        ensures
            lines.deep_view() == self.deep_view(),
    {
        &self.lines
    }

    /// How many calls were made.
    pub fn calls(&self) -> (count: usize)
        ensures
            count == self.deep_view().len(),
    {
        self.lines.len()
    }

    /// How many of them have no cost.
    ///
    /// The number that decides whether [`Ledger::total`] is a total or a floor, and the one
    /// worth printing beside it.
    pub fn unpriced(&self) -> (count: usize)
        ensures
            count == unpriced_count(self.deep_view()),
    {
        let mut count: usize = 0;
        let mut i: usize = 0;
        while i < self.lines.len()
            invariant
                i <= self.lines.len(),
                count == unpriced_count(self.lines.deep_view().take(i as int)),
                count <= i,
            decreases self.lines.len() - i,
        {
            proof {
                let some = self.lines.deep_view().take(i + 1);
                assert(some.drop_last() == self.lines.deep_view().take(i as int));
                assert(some.last() == self.lines[i as int].deep_view());
            }
            if self.lines[i].cost.is_none() {
                count += 1;
            }
            i += 1;
        }
        assert(self.lines.deep_view().take(i as int) == self.lines.deep_view());
        count
    }

    /// Which price book editions produced the costs in here.
    ///
    /// More than one is normal over a long run and worth seeing: it means prices changed
    /// while the run was going, and the earlier calls are still recorded at what they cost
    /// then. In name order, without repeats.
    pub fn editions(&self) -> (names: Vec<String>)
        ensures
            increasing(names.deep_view()),
            names.deep_view().to_set() == books(self.deep_view()),
    {
        let mut seen: Table<bool> = Table::new();
        let mut i: usize = 0;
        assert(seen@.dom() =~= books(self.lines.deep_view().take(0)));
        while i < self.lines.len()
            invariant
                i <= self.lines.len(),
                seen@.dom() == books(self.lines.deep_view().take(i as int)),
            decreases self.lines.len() - i,
        {
            let ghost before = self.lines.deep_view().take(i as int);
            let ghost after = self.lines.deep_view().take(i + 1);
            let ghost had = seen@.dom();
            assert(after == before.push(self.lines[i as int].deep_view()));
            if let Some(cost) = &self.lines[i].cost {
                if seen.get(cost.book.as_str()).is_none() {
                    seen.insert(cost.book.clone(), true);
                }
                proof {
                    assert(seen@.dom() == had.insert(cost.book@));
                    pushed_book(before, self.lines[i as int].deep_view());
                }
            } else {
                proof {
                    pushed_book(before, self.lines[i as int].deep_view());
                }
            }
            i += 1;
        }
        assert(self.lines.deep_view().take(i as int) == self.lines.deep_view());
        owned(&seen)
    }

    /// Which currencies the costs in here are in. In code order, without repeats.
    ///
    /// Empty when nothing was priced.
    pub fn currencies(&self) -> (names: Vec<String>)
        ensures
            increasing(names.deep_view()),
            names.deep_view().to_set() == codes(self.deep_view()),
    {
        let mut seen: Table<bool> = Table::new();
        let mut i: usize = 0;
        assert(seen@.dom() =~= codes(self.lines.deep_view().take(0)));
        while i < self.lines.len()
            invariant
                i <= self.lines.len(),
                seen@.dom() == codes(self.lines.deep_view().take(i as int)),
            decreases self.lines.len() - i,
        {
            let ghost before = self.lines.deep_view().take(i as int);
            let ghost after = self.lines.deep_view().take(i + 1);
            let ghost had = seen@.dom();
            assert(after == before.push(self.lines[i as int].deep_view()));
            if let Some(cost) = &self.lines[i].cost {
                if seen.get(cost.currency.as_str()).is_none() {
                    seen.insert(cost.currency.clone(), true);
                }
                proof {
                    assert(seen@.dom() == had.insert(cost.currency@));
                    pushed_code(before, self.lines[i as int].deep_view());
                }
            } else {
                proof {
                    pushed_code(before, self.lines[i as int].deep_view());
                }
            }
            i += 1;
        }
        assert(self.lines.deep_view().take(i as int) == self.lines.deep_view());
        owned(&seen)
    }

    /// Whether the costs in here are in more than one currency, and the first of them.
    fn first_code(&self) -> (found: (Option<&str>, bool))
        ensures
            found.1 == mixed(self.deep_view()),
            found.0 is None <==> codes(self.deep_view()) == Set::<Seq<char>>::empty(),
            found.0 matches Some(code) ==> codes(self.deep_view()).contains(code@),
            !found.1 ==> (found.0 matches Some(code) ==> codes(self.deep_view())
                == Set::<Seq<char>>::empty().insert(code@)),
    {
        let ghost calls = self.lines.deep_view();
        let mut first: Option<&str> = None;
        let mut many: bool = false;
        let ghost mut at: int = 0;
        let mut i: usize = 0;
        while i < self.lines.len()
            invariant
                i <= self.lines.len(),
                calls == self.lines.deep_view(),
                first is None ==> forall|j: int| 0 <= j < i ==> (#[trigger] calls[j]).cost is None,
                first matches Some(code) ==> 0 <= at < i && priced_in(calls[at], code@),
                !many ==> (first matches Some(code) ==> forall|j: int|
                    0 <= j < i && (#[trigger] calls[j]).cost is Some ==> priced_in(
                        calls[j],
                        code@,
                    )),
                many ==> first is Some && mixed(calls),
            decreases self.lines.len() - i,
        {
            assert(calls[i as int] == self.lines[i as int].deep_view());
            if let Some(cost) = &self.lines[i].cost {
                match first {
                    None => {
                        first = Some(cost.currency.as_str());
                        proof {
                            at = i as int;
                        }
                    },
                    Some(code) => {
                        if !same(code, cost.currency.as_str()) {
                            many = true;
                            assert(calls[at].cost->0.currency != calls[i as int].cost->0.currency);
                        }
                    },
                }
            }
            i += 1;
        }
        proof {
            match first {
                None => {
                    assert(codes(calls) =~= Set::<Seq<char>>::empty());
                },
                Some(code) => {
                    assert(priced_in(calls[at], code@));
                    assert(codes(calls).contains(code@));
                    if !many {
                        assert(codes(calls) =~= Set::<Seq<char>>::empty().insert(code@));
                    }
                },
            }
        }
        (first, many)
    }

    /// The one currency this run was priced in, if there is one.
    ///
    /// `None` for two reasons that a caller has to tell apart, and [`Ledger::currencies`] is
    /// how: nothing was priced at all, or the run mixes currencies and no single figure
    /// exists.
    pub fn currency(&self) -> (code: Option<&str>)
        ensures
            code is None <==> mixed(self.deep_view()) || codes(self.deep_view())
                == Set::<Seq<char>>::empty(),
            code matches Some(code) ==> codes(self.deep_view())
                == Set::<Seq<char>>::empty().insert(code@),
    {
        let (first, many) = self.first_code();
        if many {
            None
        } else {
            first
        }
    }

    /// What the run cost.
    ///
    /// [`Total::Exact`] only when every call was priced and every price came from usage the
    /// provider reported in full. Anything else is [`Total::AtLeast`]: one unmeasured call
    /// makes the whole figure a floor, and saying otherwise is how an unknown cost becomes a
    /// free one.
    ///
    /// `None` when the priced calls are in more than one currency. There is no exchange rate
    /// in this crate and there should not be one. Ask [`Ledger::totals`] instead.
    pub fn total(&self) -> (total: Option<Total>)
        ensures
            total == total_of(self.deep_view()),
    {
        let (_, many) = self.first_code();
        if many {
            return None;
        }
        let mut amount = Micros(0);
        let mut whole: bool = true;
        let mut i: usize = 0;
        while i < self.lines.len()
            invariant
                i <= self.lines.len(),
                amount.0 == sum(self.lines.deep_view().take(i as int)),
                whole == all_measured(self.lines.deep_view().take(i as int)),
            decreases self.lines.len() - i,
        {
            proof {
                let some = self.lines.deep_view().take(i + 1);
                assert(some.drop_last() == self.lines.deep_view().take(i as int));
                assert(some.last() == self.lines[i as int].deep_view());
                assert(all_measured(some) <==> all_measured(some.drop_last()) && measured(
                    some.last(),
                )) by {
                    if all_measured(some) {
                        assert forall|j: int| 0 <= j < some.drop_last().len() implies measured(
                            #[trigger] some.drop_last()[j],
                        ) by {
                            assert(measured(some[j]));
                        }
                        assert(measured(some[some.len() - 1]));
                    }
                    if all_measured(some.drop_last()) && measured(some.last()) {
                        assert forall|j: int| 0 <= j < some.len() implies measured(
                            #[trigger] some[j],
                        ) by {
                            if j < some.len() - 1 {
                                assert(measured(some.drop_last()[j]));
                            }
                        }
                    }
                }
            }
            match &self.lines[i].cost {
                Some(priced) => {
                    amount = amount + priced.amount;
                    if priced.coverage != UsageCoverage::Exact {
                        whole = false;
                    }
                },
                None => {
                    whole = false;
                },
            }
            i += 1;
        }
        assert(self.lines.deep_view().take(i as int) == self.lines.deep_view());
        Some(
            if whole {
                Total::Exact(amount)
            } else {
                Total::AtLeast(amount)
            },
        )
    }

    /// What the calls in one currency cost.
    fn total_for(&self, code: &str) -> (total: Total)
        ensures
            total == total_in(self.deep_view(), code@),
    {
        let mut amount = Micros(0);
        let mut whole: bool = true;
        let mut i: usize = 0;
        while i < self.lines.len()
            invariant
                i <= self.lines.len(),
                amount.0 == sum_in(self.lines.deep_view().take(i as int), code@),
                whole == forall|j: int|
                    0 <= j < i ==> (#[trigger] self.lines.deep_view()[j]).cost is Some && (
                    priced_in(self.lines.deep_view()[j], code@) ==> measured(
                        self.lines.deep_view()[j],
                    )),
            decreases self.lines.len() - i,
        {
            proof {
                let some = self.lines.deep_view().take(i + 1);
                assert(some.drop_last() == self.lines.deep_view().take(i as int));
                assert(some.last() == self.lines[i as int].deep_view());
                assert(self.lines.deep_view()[i as int] == self.lines[i as int].deep_view());
            }
            match &self.lines[i].cost {
                Some(priced) => {
                    if same(priced.currency.as_str(), code) {
                        amount = amount + priced.amount;
                        if priced.coverage != UsageCoverage::Exact {
                            whole = false;
                        }
                    }
                },
                None => {
                    whole = false;
                },
            }
            i += 1;
        }
        assert(self.lines.deep_view().take(i as int) == self.lines.deep_view());
        if whole {
            Total::Exact(amount)
        } else {
            Total::AtLeast(amount)
        }
    }

    /// What the run cost, one figure per currency, in code order.
    ///
    /// The answer when [`Ledger::total`] says `None`, and the same figure it would have given
    /// when it says anything else.
    ///
    /// An unpriced call makes *every* line here a floor, not just one: nothing says which
    /// currency it would have been in. And a run of nothing but unpriced calls comes back
    /// empty, which is why [`Ledger::calls`] and [`Ledger::unpriced`] belong beside it in any
    /// report.
    pub fn totals(&self) -> (totals: Vec<(String, Total)>)
        ensures
            increasing(totals.deep_view().map_values(|entry: (Seq<char>, Total)| entry.0)),
            totals.deep_view().map_values(|entry: (Seq<char>, Total)| entry.0).to_set() == codes(
                self.deep_view(),
            ),
            forall|i: int|
                0 <= i < totals.len() ==> (#[trigger] totals[i]).1 == total_in(
                    self.deep_view(),
                    totals[i].0@,
                ),
    {
        let names = self.currencies();
        let mut totals: Vec<(String, Total)> = Vec::new();
        let mut i: usize = 0;
        while i < names.len()
            invariant
                i <= names.len(),
                totals.len() == i,
                forall|j: int|
                    0 <= j < i ==> (#[trigger] totals[j]).0@ == names[j]@ && totals[j].1
                        == total_in(self.deep_view(), totals[j].0@),
            decreases names.len() - i,
        {
            totals.push((names[i].clone(), self.total_for(names[i].as_str())));
            i += 1;
        }
        assert(totals.deep_view().map_values(|entry: (Seq<char>, Total)| entry.0)
            =~= names.deep_view());
        totals
    }
}

/// The names of a table, as texts of their own.
fn owned(seen: &Table<bool>) -> (names: Vec<String>)
    ensures
        increasing(names.deep_view()),
        names.deep_view().to_set() == seen@.dom(),
{
    let listed = seen.names();
    let mut names: Vec<String> = Vec::new();
    let mut i: usize = 0;
    while i < listed.len()
        invariant
            i <= listed.len(),
            names.deep_view() == listed.deep_view().take(i as int),
        decreases listed.len() - i,
    {
        let ghost before = names.deep_view();
        names.push(listed[i].to_owned());
        assert(names.deep_view() == before.push(listed[i as int]@));
        i += 1;
    }
    assert(names.deep_view() == listed.deep_view());
    names
}

/// One more call adds the currency it was priced in.
proof fn pushed_code(calls: Seq<Call>, call: Call)
    ensures
        call.cost is None ==> codes(calls.push(call)) == codes(calls),
        call.cost matches Some(cost) ==> codes(calls.push(call)) == codes(calls).insert(
            cost.currency,
        ),
{
    let more = calls.push(call);
    assert forall|code: Seq<char>| #[trigger]
        codes(more).contains(code) == (codes(calls).contains(code) || priced_in(call, code)) by {
        if codes(calls).contains(code) {
            let i = choose|i: int| 0 <= i < calls.len() && priced_in(#[trigger] calls[i], code);
            assert(priced_in(more[i], code));
        }
        if codes(more).contains(code) {
            let i = choose|i: int| 0 <= i < more.len() && priced_in(#[trigger] more[i], code);
            if i < calls.len() {
                assert(priced_in(calls[i], code));
            }
        }
        assert(more[calls.len() as int] == call);
    }
    match call.cost {
        None => {
            assert(codes(more) =~= codes(calls));
        },
        Some(cost) => {
            assert(codes(more) =~= codes(calls).insert(cost.currency));
        },
    }
}

/// One more call adds the edition it was priced with.
proof fn pushed_book(calls: Seq<Call>, call: Call)
    ensures
        call.cost is None ==> books(calls.push(call)) == books(calls),
        call.cost matches Some(cost) ==> books(calls.push(call)) == books(calls).insert(cost.book),
{
    let more = calls.push(call);
    assert forall|book: Seq<char>| #[trigger]
        books(more).contains(book) == (books(calls).contains(book) || (call.cost is Some
            && call.cost->0.book == book)) by {
        if books(calls).contains(book) {
            let i = choose|i: int|
                0 <= i < calls.len() && (#[trigger] calls[i]).cost is Some && calls[i].cost->0.book
                    == book;
            assert(more[i].cost->0.book == book);
        }
        if books(more).contains(book) {
            let i = choose|i: int|
                0 <= i < more.len() && (#[trigger] more[i]).cost is Some && more[i].cost->0.book
                    == book;
            if i < calls.len() {
                assert(calls[i].cost->0.book == book);
            }
        }
        assert(more[calls.len() as int] == call);
    }
    match call.cost {
        None => {
            assert(books(more) =~= books(calls));
        },
        Some(cost) => {
            assert(books(more) =~= books(calls).insert(cost.book));
        },
    }
}

/// One call that could not be priced makes the whole figure a floor, in all and in every
/// currency.
pub proof fn an_unpriced_call_makes_a_floor(calls: Seq<Call>, i: int)
    requires
        0 <= i < calls.len(),
        calls[i].cost is None,
    ensures
        total_of(calls) matches Some(total) ==> total is AtLeast,
        forall|code: Seq<char>| #[trigger] total_in(calls, code) is AtLeast,
{
    assert(!measured(calls[i]));
    assert forall|code: Seq<char>| #[trigger] total_in(calls, code) is AtLeast by {
        assert(calls[i].cost is None);
    }
}

/// Calls in one currency add up to the same with and without looking at the currency.
proof fn one_code_one_sum(calls: Seq<Call>, code: Seq<char>)
    requires
        forall|i: int|
            0 <= i < calls.len() && (#[trigger] calls[i]).cost is Some ==> priced_in(
                calls[i],
                code,
            ),
    ensures
        sum_in(calls, code) == sum(calls),
    decreases calls.len(),
{
    if calls.len() > 0 {
        assert(calls.last() == calls[calls.len() - 1]);
        assert forall|i: int|
            0 <= i < calls.drop_last().len() && (#[trigger] calls.drop_last()[i]).cost is Some implies priced_in(
            calls.drop_last()[i],
            code,
        ) by {
            assert(calls[i].cost is Some);
        }
        one_code_one_sum(calls.drop_last(), code);
    }
}

/// A run in one currency has the same figure in all as in that currency.
pub proof fn the_one_currency_holds_the_total(calls: Seq<Call>, code: Seq<char>)
    requires
        !mixed(calls),
        codes(calls).contains(code),
    ensures
        total_of(calls) == Some(total_in(calls, code)),
        codes(calls) == Set::<Seq<char>>::empty().insert(code),
{
    let at = choose|i: int| 0 <= i < calls.len() && priced_in(#[trigger] calls[i], code);
    assert forall|i: int| 0 <= i < calls.len() && (#[trigger] calls[i]).cost is Some implies priced_in(
        calls[i],
        code,
    ) by {
        assert(calls[at].cost is Some);
    }
    one_code_one_sum(calls, code);
    assert(codes(calls) =~= Set::<Seq<char>>::empty().insert(code));
    assert(all_measured(calls) <==> all_measured_in(calls, code)) by {
        if all_measured(calls) {
            assert forall|i: int| 0 <= i < calls.len() implies (#[trigger] calls[i]).cost is Some
                && (priced_in(calls[i], code) ==> measured(calls[i])) by {
                assert(measured(calls[i]));
            }
        }
        if all_measured_in(calls, code) {
            assert forall|i: int| 0 <= i < calls.len() implies measured(#[trigger] calls[i]) by {
                assert(calls[i].cost is Some);
            }
        }
    }
}

/// A run has no single figure exactly where its priced calls are in different currencies.
pub proof fn no_total_across_currencies(calls: Seq<Call>, a: Seq<char>, b: Seq<char>)
    requires
        codes(calls).contains(a),
        codes(calls).contains(b),
        a != b,
    ensures
        total_of(calls) is None,
{
    let i = choose|i: int| 0 <= i < calls.len() && priced_in(#[trigger] calls[i], a);
    let j = choose|j: int| 0 <= j < calls.len() && priced_in(#[trigger] calls[j], b);
    assert(calls[i].cost is Some && calls[j].cost is Some);
}

/// Two runs put together count the calls of both, and the calls without a cost of both.
pub proof fn joined_runs_lose_nothing(one: Seq<Call>, other: Seq<Call>)
    ensures
        (one + other).len() == one.len() + other.len(),
        unpriced_count(one + other) == unpriced_count(one) + unpriced_count(other),
    decreases other.len(),
{
    if other.len() == 0 {
        assert(one + other == one);
    } else {
        assert((one + other).drop_last() == one + other.drop_last());
        joined_runs_lose_nothing(one, other.drop_last());
    }
}

/// One more call adds what it cost to the sum, where the sum can be held, and nothing where nobody
/// priced it.
pub proof fn one_more_call_adds_its_cost(calls: Seq<Call>, call: Call, code: Seq<char>)
    ensures
        call.cost is None ==> sum(calls.push(call)) == sum(calls) && sum_in(calls.push(call), code)
            == sum_in(calls, code),
        call.cost matches Some(cost) && i64::MIN <= sum(calls) + cost.amount.0 <= i64::MAX ==> sum(
            calls.push(call),
        ) == sum(calls) + call.cost->0.amount.0,
        call.cost matches Some(cost) && cost.currency == code && i64::MIN <= sum_in(calls, code)
            + cost.amount.0 <= i64::MAX ==> sum_in(calls.push(call), code) == sum_in(calls, code)
            + call.cost->0.amount.0,
        call.cost matches Some(cost) && cost.currency != code ==> sum_in(calls.push(call), code)
            == sum_in(calls, code),
        sum(Seq::<Call>::empty()) == 0,
        sum_in(Seq::<Call>::empty(), code) == 0,
{
    assert(calls.push(call).drop_last() =~= calls);
    assert(calls.push(call).last() == call);
}

/// A total is exact exactly where every call was priced from a usage that was reported in full;
/// otherwise it is the least that the run cost. Either way it is the sum of what was priced.
pub proof fn a_total_is_exact_where_all_was_measured(calls: Seq<Call>)
    requires
        total_of(calls) is Some,
    ensures
        total_of(calls)->0 is Exact <==> forall|i: int|
            0 <= i < calls.len() ==> (#[trigger] calls[i]).cost is Some && calls[i].cost->0.coverage
                is Exact,
        total_of(calls) matches Some(Total::Exact(amount)) ==> amount.0 == sum(calls),
        total_of(calls) matches Some(Total::AtLeast(amount)) ==> amount.0 == sum(calls),
{
    if all_measured(calls) {
        assert forall|i: int| 0 <= i < calls.len() implies (#[trigger] calls[i]).cost is Some
            && calls[i].cost->0.coverage is Exact by {
            assert(measured(calls[i]));
        }
    }
}

/// A total in one currency is the sum of the calls in it, and exact only where no call at all is
/// without a cost.
pub proof fn a_total_in_one_currency_is_its_own_sum(calls: Seq<Call>, code: Seq<char>)
    ensures
        total_in(calls, code) matches Total::Exact(amount) ==> amount.0 == sum_in(calls, code)
            && forall|i: int| 0 <= i < calls.len() ==> (#[trigger] calls[i]).cost is Some,
        total_in(calls, code) matches Total::AtLeast(amount) ==> amount.0 == sum_in(calls, code),
{
}

/// Calls without a cost are counted, each once.
pub proof fn unpriced_calls_are_counted(calls: Seq<Call>, call: Call)
    ensures
        unpriced_count(Seq::<Call>::empty()) == 0,
        unpriced_count(calls.push(call)) == unpriced_count(calls) + (if call.cost is None {
            1int
        } else {
            0
        }),
{
    assert(calls.push(call).drop_last() =~= calls);
}

/// A figure is written with six decimal places, and one that is a floor says so.
pub proof fn a_floor_says_so(amount: Micros)
    ensures
        Total::Exact(amount).line() == written(amount.0 as int),
        Total::AtLeast(amount).line() == "at least "@ + written(amount.0 as int),
{
}

/// The currencies and the editions of a run are those that its calls were priced in and with.
pub proof fn a_run_names_its_currencies_and_editions(calls: Seq<Call>, i: int, name: Seq<char>)
    requires
        0 <= i < calls.len(),
    ensures
        calls[i].cost matches Some(cost) ==> codes(calls).contains(cost.currency) && books(
            calls,
        ).contains(cost.book),
        codes(calls).contains(name) ==> exists|k: int|
            0 <= k < calls.len() && (#[trigger] calls[k]).cost is Some && calls[k].cost->0.currency
                == name,
        books(calls).contains(name) ==> exists|k: int|
            0 <= k < calls.len() && (#[trigger] calls[k]).cost is Some && calls[k].cost->0.book
                == name,
{
    if let Some(cost) = calls[i].cost {
        assert(priced_in(calls[i], cost.currency));
    }
    if codes(calls).contains(name) {
        let k = choose|k: int| 0 <= k < calls.len() && priced_in(#[trigger] calls[k], name);
        assert(calls[k].cost is Some);
    }
}

/// A total in one currency is exact exactly where every call was priced and those in it were
/// priced from a usage that was reported in full.
pub proof fn a_total_in_one_currency_is_exact_where_it_was_measured(
    calls: Seq<Call>,
    code: Seq<char>,
)
    ensures
        total_in(calls, code) is Exact <==> forall|i: int|
            0 <= i < calls.len() ==> (#[trigger] calls[i]).cost is Some && (calls[i].cost->0.currency
                == code ==> calls[i].cost->0.coverage is Exact),
{
    if total_in(calls, code) is Exact {
        assert forall|i: int| 0 <= i < calls.len() implies (#[trigger] calls[i]).cost is Some && (
        calls[i].cost->0.currency == code ==> calls[i].cost->0.coverage is Exact) by {
            assert(calls[i].cost is Some && (priced_in(calls[i], code) ==> measured(calls[i])));
        }
    }
}

} // verus!
