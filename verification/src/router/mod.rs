//! Several providers, and how a request finds one.
//!
//! A bag of providers is not a layer. This is the part that makes it one: you describe what
//! a request needs, and the router picks something that can serve it, in an order you chose,
//! falling through when one is unreachable.
//!
//! # What it routes on
//!
//! Three things, and no others.
//!
//! * **Capability.** A request offering tools needs a model that takes tools. Asking one
//!   that does not is paying for a reply that ignored half of what you sent.
//! * **Reach.** A caller can say the data must not leave this machine. Nothing below that
//!   floor is considered, whatever else it can do.
//! * **Order.** The routes are tried in the order you gave them, or in whichever
//!   [`Order`] you asked for: cheapest published rate, or fewest recent failures. First
//!   that fits, wins. With [`Router::breaking`], a route that has been failing is skipped
//!   for a while and said to have been, rather than tried and waited on again in every
//!   request.
//!
//! # What it deliberately does not route on
//!
//! Anything about *your* work. There is no notion here of a task being a security review or
//! a summary, because that is a fact about your system and not about a model. Decide which
//! [`Requirements`] a piece of work has, and this decides which provider meets them.
//!
//! # One request
//!
//! [`Router::set_out`] starts a [`Journey`], [`Router::advance`] says what to do first, and
//! after each call [`Router::failed`] or [`Router::served`] is told what came of it. After a
//! wait [`Router::resume`] says what to do next. Time is handed in: `now` in milliseconds since
//! the router was built, on a clock that does not step backwards, and `elapsed` since the
//! request set out.

pub mod journey;
pub mod laws;
pub mod order;
pub mod requirements;
pub mod route;

use crate::breaker::{one_more, Breaker, Health};
use crate::chat::request::{Asked, ChatRequest};
use crate::error::{Error, Failure};
use crate::model::ModelCapabilities;
use crate::provider::{Access, Answer};
use crate::retry::{clock_seed, Policy, Retry};
use crate::text::{decimal, decimal_text, followed_by, join_names, joined};
use crate::time::{at_most_max, Duration};
use vstd::prelude::*;

pub use journey::{Journey, Step};
pub use order::Order;
pub use requirements::Requirements;
pub use route::{Attempted, Route, Routed};

use journey::{indices, Doing, Progress};
use order::{arranged, in_order, lower, placed, the_order_is_stable};
use route::{Tried, Way};

verus! {

/// Several providers, tried in order.
///
/// What it is built with does not change. What it remembers of each route does.
pub struct Router {
    routes: Vec<(Route, Health)>,
    retry: Option<Retry>,
    breaker: Option<Breaker>,
    deadline: Option<Duration>,
    order: Order,
}

/// What a [`Router`] holds.
#[verifier::ext_equal]
pub struct Network {
    /// The routes as they were given.
    pub routes: Seq<Way>,
    /// What each route has been doing lately.
    pub health: Seq<Health>,
    pub retry: Option<Policy>,
    pub breaker: Option<Breaker>,
    pub deadline: Option<nat>,
    pub order: Order,
}

impl DeepView for Router {
    type V = Network;

    closed spec fn deep_view(&self) -> Network {
        Network {
            routes: Seq::new(self.routes@.len(), |i: int| self.routes@[i].0.deep_view()),
            health: Seq::new(self.routes@.len(), |i: int| self.routes@[i].1),
            retry: match self.retry {
                Some(policy) => Some(policy@),
                None => None,
            },
            breaker: self.breaker,
            deadline: self.deadline.deep_view(),
            order: self.order,
        }
    }
}

/// Why a route is not called.
pub enum Passing {
    /// It cannot serve the request at all.
    Unable(Seq<char>),
    /// It could, and is left alone for a while.
    Resting(Seq<char>),
}

impl Passing {
    /// Why, in one line.
    pub open spec fn why(self) -> Seq<char> {
        match self {
            Passing::Unable(why) => why,
            Passing::Resting(why) => why,
        }
    }
}

impl Network {
    /// One state of health for each route.
    pub open spec fn well_formed(self) -> bool {
        self.routes.len() == self.health.len()
    }

    /// What the routes are ordered by.
    pub open spec fn ranks(self) -> Seq<(int, int)> {
        Seq::new(self.routes.len(), |i: int| self.order.rank(self.routes[i], self.health[i]))
    }

    /// The routes in the order this router would reach for them, by index.
    pub open spec fn reaching(self) -> Seq<int> {
        arranged(self.ranks(), self.routes.len())
    }

    /// Why a route is not called for a request with these needs at this moment. That it cannot
    /// serve the request at all is a fact about the pairing and comes before that it rests:
    /// the other way round would hide a typo behind a timer.
    pub open spec fn passes(self, i: int, needs: Requirements, now: u64) -> Option<Passing> {
        match self.routes[i].capabilities {
            None => Some(Passing::Unable("the provider does not know this model"@)),
            Some(have) => if needs.unmet(have).len() > 0 {
                Some(Passing::Unable("cannot do "@ + joined(needs.unmet(have), ", "@)))
            } else {
                match self.health[i].left_at(now) {
                    Some(left) => Some(Passing::Resting(self.health[i].reason(left))),
                    None => None,
                }
            },
        }
    }

    /// Whether a whole request has used everything it was given.
    pub open spec fn out_of_time(self, elapsed: nat) -> bool {
        match self.deadline {
            Some(deadline) => elapsed >= deadline,
            None => false,
        }
    }

    /// Whether a wait of this length would run past the deadline.
    pub open spec fn no_room_for(self, elapsed: nat, wait: nat) -> bool {
        match self.deadline {
            Some(deadline) => at_most_max(elapsed + wait) >= deadline,
            None => false,
        }
    }

    /// How often one route may be called for one request.
    pub open spec fn allowed(self) -> u32 {
        match self.retry {
            Some(policy) => policy.attempts,
            None => 1,
        }
    }

    /// What is sent to a route.
    pub open spec fn sent(self, i: int, request: Asked) -> Asked {
        Asked { model: self.routes[i].model, ..request }
    }

    /// A request that moves on to the next route that may be called: those in between are
    /// noted, each with why.
    pub open spec fn advanced(self, progress: Progress, now: u64, elapsed: nat) -> (Progress, Doing)
        decreases progress.ahead.len(),
    {
        if progress.ahead.len() == 0 {
            (Progress { trying: None, ..progress }, Doing::GiveUp(progress.ended()))
        } else {
            let i = progress.ahead[0];
            let rest = Progress { ahead: progress.ahead.skip(1), trying: None, ..progress };
            match self.passes(i, progress.needs, now) {
                Some(passing) => self.advanced(
                    Progress {
                        fell_through: progress.fell_through.push(
                            Tried { route: self.routes[i].name(), why: passing.why() },
                        ),
                        resting: progress.resting || passing is Resting,
                        ..rest
                    },
                    now,
                    elapsed,
                ),
                None => if self.out_of_time(elapsed) {
                    (rest, Doing::GiveUp(Failure::Timeout { elapsed }))
                } else {
                    (
                        Progress {
                            trying: Some((i, 1)),
                            attempts: one_more(progress.attempts),
                            ..rest
                        },
                        Doing::Call { route: i, request: self.sent(i, progress.request) },
                    )
                },
            }
        }
    }

    /// The same after a route failed to serve a request.
    pub open spec fn recorded(self, i: int, failure: Failure, now: u64) -> Network {
        Network {
            health: self.health.update(
                i,
                match self.breaker {
                    Some(breaker) => self.health[i].after_error(breaker, failure, now),
                    None => self.health[i].after_failure(),
                },
            ),
            ..self
        }
    }

    /// How long to wait before this route is called again after its call number `attempt`
    /// failed, where it is.
    pub open spec fn wait_after(self, attempt: u32, failure: Failure, seed: u64) -> Option<nat> {
        match self.retry {
            Some(policy) => if attempt == u32::MAX {
                None
            } else {
                policy.waits((attempt + 1) as u32, failure, seed)
            },
            None => None,
        }
    }

    /// Why a call did not serve the request. A retry is recorded before the wait, and said out
    /// loud.
    pub open spec fn failed_line(self, attempt: u32, failure: Failure, wait: Option<nat>) -> Seq<
        char,
    > {
        match wait {
            Some(wait) => failure.line() + " (attempt "@ + decimal(attempt as nat) + " of "@
                + decimal(self.allowed() as nat) + ", waiting "@ + decimal(wait / 1_000_000)
                + "ms)"@,
            None => failure.line(),
        }
    }

    /// What becomes of a router and a request after the call that was being made failed.
    pub open spec fn after_call(
        self,
        progress: Progress,
        failure: Failure,
        seed: u64,
        now: u64,
        elapsed: nat,
    ) -> (Network, Progress, Doing) {
        let (i, attempt) = progress.trying->0;
        if failure is Refused {
            // A refusal is an answer about the work. Nothing else is asked.
            (
                self.recorded(i, failure, now),
                Progress { trying: None, ..progress },
                Doing::GiveUp(failure),
            )
        } else {
            let wait = self.wait_after(attempt, failure, seed);
            let noted = Progress {
                fell_through: progress.fell_through.push(
                    Tried {
                        route: self.routes[i].name(),
                        why: self.failed_line(attempt, failure, wait),
                    },
                ),
                ..progress
            };
            match wait {
                Some(wait) => if self.no_room_for(elapsed, wait) {
                    (
                        self.recorded(i, failure, now),
                        Progress { trying: None, ..noted },
                        Doing::GiveUp(Failure::Timeout { elapsed }),
                    )
                } else {
                    (
                        self,
                        Progress {
                            last: Some(failure),
                            trying: None,
                            pending: Some((i, (attempt + 1) as u32)),
                            ..noted
                        },
                        Doing::Wait(wait),
                    )
                },
                None => {
                    let after = self.recorded(i, failure, now);
                    let (progress, doing) = after.advanced(
                        Progress { last: Some(failure), trying: None, ..noted },
                        now,
                        elapsed,
                    );
                    (after, progress, doing)
                },
            }
        }
    }

    /// What becomes of a router and a request after a wait. The deadline is looked at once
    /// more: a wait that took longer than it should have may have used up the time.
    pub open spec fn after_wait(self, progress: Progress, now: u64, elapsed: nat) -> (
        Network,
        Progress,
        Doing,
    ) {
        let (i, attempt) = progress.pending->0;
        let rest = Progress { pending: None, ..progress };
        if self.out_of_time(elapsed) {
            (
                self.recorded(i, progress.last->0, now),
                rest,
                Doing::GiveUp(Failure::Timeout { elapsed }),
            )
        } else {
            (
                self,
                Progress {
                    trying: Some((i, attempt)),
                    attempts: one_more(progress.attempts),
                    ..rest
                },
                Doing::Call { route: i, request: self.sent(i, progress.request) },
            )
        }
    }

    /// The same after a route served a request, which clears everything it was remembered for.
    pub open spec fn after_serving(self, i: int) -> Network {
        Network {
            health: self.health.update(i, Health { closed_until: 0, consecutive_failures: 0 }),
            ..self
        }
    }

    /// Whether this is a request on its way through this router: every route it speaks of is
    /// there.
    pub open spec fn carries(self, progress: Progress) -> bool {
        &&& forall|k: int|
            0 <= k < progress.ahead.len() ==> 0 <= (#[trigger] progress.ahead[k])
                < self.routes.len()
        &&& progress.trying matches Some((i, _)) ==> 0 <= i < self.routes.len()
        &&& progress.pending matches Some((i, _)) ==> 0 <= i < self.routes.len()
        &&& progress.pending is Some ==> progress.last is Some
    }

    /// The first routes that are being skipped, and how much longer for, in nanoseconds.
    pub open spec fn resting_at(self, now: u64, count: nat) -> Seq<(Seq<char>, nat)>
        decreases count,
    {
        if count == 0 {
            Seq::empty()
        } else {
            let before = self.resting_at(now, (count - 1) as nat);
            match self.health[count - 1].left_at(now) {
                Some(left) => before.push(
                    (self.routes[count - 1].name(), (left * 1_000_000) as nat),
                ),
                None => before,
            }
        }
    }

    /// The first routes whose provider does not know their model.
    pub open spec fn unusable_in(self, count: nat) -> Seq<Seq<char>>
        decreases count,
    {
        if count == 0 {
            Seq::empty()
        } else {
            let before = self.unusable_in((count - 1) as nat);
            if self.routes[count - 1].capabilities is None {
                before.push(self.routes[count - 1].name())
            } else {
                before
            }
        }
    }

    /// The same after a route was asked whether it can be reached. Only a denial is acted on,
    /// and only where there is a policy to act on.
    pub open spec fn heard(self, i: int, answer: Answer, now: u64) -> Network {
        match (answer, self.breaker) {
            (Answer::Denied(_), Some(breaker)) => Network {
                health: self.health.update(i, self.health[i].resting(breaker.settled@, now)),
                ..self
            },
            _ => self,
        }
    }

    /// The same after a provider said what it can do with the model of a route.
    pub open spec fn learned(self, i: int, have: Option<ModelCapabilities>) -> Network {
        Network {
            routes: self.routes.update(i, Way { capabilities: have, ..self.routes[i] }),
            ..self
        }
    }
}

impl Router {
    /// A router over these routes, tried in this order.
    ///
    /// Nothing is retried and nothing is remembered. Say so with [`Router::retrying`] and
    /// [`Router::breaking`] if you want either.
    pub fn new(routes: Vec<Route>) -> (router: Router)
        ensures
            router.deep_view() == (Network {
                routes: routes.deep_view(),
                health: Seq::new(
                    routes.len() as nat,
                    |i: int| Health { closed_until: 0, consecutive_failures: 0 },
                ),
                retry: None,
                breaker: None,
                deadline: None,
                order: Order::AsListed,
            }),
    {
        let ghost given = routes@;
        let mut kept: Vec<(Route, Health)> = Vec::new();
        for route in each: routes
            invariant
                each.seq() == given,
                kept.len() == each.index(),
                forall|i: int| 0 <= i < kept.len() ==> (#[trigger] kept[i]).0 == given[i],
                forall|i: int|
                    0 <= i < kept.len() ==> (#[trigger] kept[i]).1 == (Health {
                        closed_until: 0,
                        consecutive_failures: 0,
                    }),
        {
            kept.push((route, Health::default()));
        }
        let router = Router {
            routes: kept,
            retry: None,
            breaker: None,
            deadline: None,
            order: Order::AsListed,
        };
        assert(router.deep_view().routes == Seq::new(
            given.len(),
            |i: int| given[i].deep_view(),
        ));
        router
    }

    /// Stop trying a route that has been failing, on the terms this policy sets.
    ///
    /// Without it, every request starts at the first route, so a provider that has been
    /// answering 503 for ten minutes is tried first, waited on and fallen through for every
    /// single request. A router that does not learn is an ordered `try` list.
    ///
    /// With it, a route that fails is skipped for a while, and starts being tried again on
    /// its own: nothing has to reopen a circuit, because time does. What opens one and what
    /// does not is [`Breaker`]'s table, and the short version is that a failure about the
    /// provider opens it and a failure about the request does not.
    ///
    /// **A skipped route is never skipped silently.** It goes into
    /// [`Routed::fell_through`] with how much longer it is being left alone and how many
    /// requests in a row it has failed. A router that will not say why it avoided something
    /// cannot be debugged at three in the morning.
    #[must_use]
    pub fn breaking(self, policy: Breaker) -> (router: Router)
        ensures
            router.deep_view() == (Network { breaker: Some(policy), ..self.deep_view() }),
    {
        Router { breaker: Some(policy), ..self }
    }

    /// Give up on the whole request after this long, however many routes are left.
    ///
    /// # Where it is checked
    ///
    /// Before every attempt rather than only at the start, and before every retry wait. A
    /// [`Retry`] policy that says three attempts is a maximum rather than a promise, so when
    /// the two disagree the deadline wins: a wait that would run past it is not taken, and
    /// the router stops instead of spending what is left on an attempt that had no time to
    /// finish in.
    ///
    /// # What it cannot do
    ///
    /// **It does not cut short a call that is already running.** The deadline bounds when a
    /// new attempt is *started* and how long the router waits between attempts, and the
    /// length of any single call is your transport's timeout. Set both.
    ///
    /// **There is no minimum.** Any time left at all is enough to try again.
    ///
    /// # How it says so
    ///
    /// [`Error::Timeout`], carrying how long the whole thing ran, rather than the last error
    /// from a route. One of those is a provider to look at and the other is a deadline to
    /// raise.
    #[must_use]
    pub fn within_deadline(self, deadline: Duration) -> (router: Router)
        ensures
            router.deep_view() == (Network { deadline: Some(deadline@), ..self.deep_view() }),
    {
        Router { deadline: Some(deadline), ..self }
    }

    /// Reach for routes in this order rather than the order they were written in.
    ///
    /// The requirement check still comes first, whatever this says. What this changes is
    /// which of the routes that *can* serve a request is asked first.
    ///
    /// The sort is stable, so routes this ordering cannot tell apart keep the order you
    /// gave them.
    #[must_use]
    pub fn ordering(self, order: Order) -> (router: Router)
        ensures
            router.deep_view() == (Network { order, ..self.deep_view() }),
    {
        Router { order, ..self }
    }

    /// Repeat a failed call, on the terms this policy sets.
    ///
    /// Applied per route: a route that fails is tried again before the next one is tried at
    /// all. A rate limit is usually the same account whichever route you take, so falling
    /// through to the next provider on the first 429 spends a second provider's budget to
    /// learn what waiting would have told you for free.
    ///
    /// A refusal still stops everything, retries included. It is an answer.
    #[must_use]
    pub fn retrying(self, policy: Retry) -> (router: Router)
        ensures
            router.deep_view() == (Network { retry: Some(policy@), ..self.deep_view() }),
    {
        Router { retry: Some(policy), ..self }
    }

    /// Whether one route comes before another.
    fn ranks_lower(&self, a: usize, b: usize) -> (yes: bool)
        requires
            a < self.routes.len(),
            b < self.routes.len(),
        ensures
            yes == lower(self.deep_view().ranks()[a as int], self.deep_view().ranks()[b as int]),
    {
        match self.order {
            Order::AsListed => false,
            Order::Cheapest => match (self.routes[a].0.rate(), self.routes[b].0.rate()) {
                (Some(first), Some(second)) => {
                    let first = first.input + first.output;
                    let second = second.input + second.output;
                    first.0 < second.0
                },
                // Reading a missing price as zero would do the exact opposite and look
                // deliberate.
                (Some(_), None) => true,
                (None, _) => false,
            },
            Order::Healthiest => self.routes[a].1.failures() < self.routes[b].1.failures(),
        }
    }

    /// The routes in the order this router would reach for them, by index.
    ///
    /// Worked out per request rather than once, because [`Order::Healthiest`] depends on
    /// what has been happening and the answer changes between calls.
    pub fn reaching_order(&self) -> (order: Vec<usize>)
        ensures
            indices(order@) == self.deep_view().reaching(),
            in_order(self.deep_view().ranks(), indices(order@)),
    {
        let ghost ranks = self.deep_view().ranks();
        let mut order: Vec<usize> = Vec::new();
        let mut i: usize = 0;
        while i < self.routes.len()
            invariant
                i <= self.routes.len(),
                ranks == self.deep_view().ranks(),
                indices(order@) == arranged(ranks, i as nat),
            decreases self.routes.len() - i,
        {
            proof {
                the_order_is_stable(ranks, i as nat);
            }
            let ghost before = indices(order@);
            let mut at: usize = order.len();
            assert(before.take(at as int) == before);
            assert(before.skip(at as int) == Seq::<int>::empty());
            assert(placed(before, i as int, ranks) == placed(before, i as int, ranks) + Seq::<
                int,
            >::empty());
            loop
                invariant
                    i < self.routes.len(),
                    at <= order.len(),
                    ranks == self.deep_view().ranks(),
                    before == indices(order@),
                    before == arranged(ranks, i as nat),
                    before.len() == i,
                    forall|a: int| 0 <= a < i ==> 0 <= (#[trigger] before[a]) < i,
                    placed(before, i as int, ranks) == placed(
                        before.take(at as int),
                        i as int,
                        ranks,
                    ) + before.skip(at as int),
                ensures
                    placed(before, i as int, ranks) == before.take(at as int).push(i as int)
                        + before.skip(at as int),
                decreases at,
            {
                if at == 0 {
                    break;
                }
                assert(before[at - 1] == order[at - 1]);
                assert(before.take(at as int).last() == before[at - 1]);
                if !self.ranks_lower(i, order[at - 1]) {
                    break;
                }
                proof {
                    let front = before.take(at - 1);
                    assert(before.take(at as int).drop_last() == front);
                    assert(placed(front, i as int, ranks).push(before[at - 1]) + before.skip(
                        at as int,
                    ) == placed(front, i as int, ranks) + before.skip(at - 1));
                }
                at -= 1;
            }
            order.insert(at, i);
            assert(indices(order@) == before.take(at as int).push(i as int) + before.skip(
                at as int,
            ));
            i += 1;
        }
        proof {
            the_order_is_stable(ranks, i as nat);
        }
        order
    }

    /// The routes currently being skipped, and how much longer for.
    ///
    /// Empty when every route is being tried, which is the answer without
    /// [`Router::breaking`]. Worth putting on a dashboard: a route that is on this list for
    /// hours is a provider nobody has noticed is gone.
    pub fn resting(&self, now: u64) -> (resting: Vec<(String, Duration)>)
        ensures
            resting.deep_view() == self.deep_view().resting_at(now, self.deep_view().routes.len()),
    {
        let ghost net = self.deep_view();
        let mut resting: Vec<(String, Duration)> = Vec::new();
        assert(resting.deep_view() == Seq::<(Seq<char>, nat)>::empty());
        let mut i: usize = 0;
        while i < self.routes.len()
            invariant
                i <= self.routes.len(),
                net == self.deep_view(),
                resting.deep_view() == net.resting_at(now, i as nat),
            decreases self.routes.len() - i,
        {
            let ghost before = resting.deep_view();
            if let Some(left) = self.routes[i].1.closed_for(now) {
                resting.push((self.routes[i].0.name(), left));
                assert(resting.deep_view() == before.push((net.routes[i as int].name(), left@)));
            }
            i += 1;
        }
        resting
    }

    /// Routes that no request can ever select.
    ///
    /// A route whose provider does not know its model, by name. Usually a typo, and without
    /// this it shows up as a fallback that quietly never fires. Worth calling at startup.
    pub fn unusable(&self) -> (names: Vec<String>)
        ensures
            names.deep_view() == self.deep_view().unusable_in(self.deep_view().routes.len()),
    {
        let ghost net = self.deep_view();
        let mut names: Vec<String> = Vec::new();
        assert(names.deep_view() == Seq::<Seq<char>>::empty());
        let mut i: usize = 0;
        while i < self.routes.len()
            invariant
                i <= self.routes.len(),
                net == self.deep_view(),
                names.deep_view() == net.unusable_in(i as nat),
            decreases self.routes.len() - i,
        {
            let ghost before = names.deep_view();
            if self.routes[i].0.capabilities().is_none() {
                names.push(self.routes[i].0.name());
                assert(names.deep_view() == before.push(net.routes[i as int].name()));
            }
            i += 1;
        }
        names
    }

    /// Every route, with what it can do.
    pub fn routes(&self) -> (routes: Vec<(String, Option<ModelCapabilities>)>)
        ensures
            routes.len() == self.deep_view().routes.len(),
            forall|i: int|
                0 <= i < routes.len() ==> (#[trigger] routes[i]).0@
                    == self.deep_view().routes[i].name() && routes[i].1
                    == self.deep_view().routes[i].capabilities,
    {
        let mut routes: Vec<(String, Option<ModelCapabilities>)> = Vec::new();
        let mut i: usize = 0;
        while i < self.routes.len()
            invariant
                i <= self.routes.len(),
                routes.len() == i,
                forall|j: int|
                    0 <= j < i ==> (#[trigger] routes[j]).0@ == self.deep_view().routes[j].name()
                        && routes[j].1 == self.deep_view().routes[j].capabilities,
            decreases self.routes.len() - i,
        {
            routes.push((self.routes[i].0.name(), self.routes[i].0.capabilities()));
            i += 1;
        }
        routes
    }

    /// Records what a route answered when it was asked whether it can be reached, and says
    /// which route that was.
    ///
    /// With a breaker, a denial rests the route for [`Breaker::settled`]: it means settled,
    /// and asking again in thirty seconds is asking a question that has been answered. That
    /// nothing could be established does nothing at all, because treating it as denied would
    /// take a working provider out of a router for a network blip that had cleared before
    /// anybody read the log. That the route is ready does nothing either.
    ///
    /// The route is not dropped. It is rested, which is a thing that ends by itself.
    pub fn heard(&mut self, route: usize, access: &Access, now: u64) -> (name: String)
        requires
            route < old(self).deep_view().routes.len(),
        ensures
            final(self).deep_view() == old(self).deep_view().heard(
                route as int,
                access.deep_view(),
                now,
            ),
            name@ == old(self).deep_view().routes[route as int].name(),
    {
        let ghost before = self.deep_view();
        let name = self.routes[route].0.name();
        if let (Access::Denied { .. }, Some(breaker)) = (access, &self.breaker) {
            let wait = breaker.settled;
            self.routes[route].1.close_for(wait, now);
            assert(self.deep_view() == before.heard(route as int, access.deep_view(), now));
        }
        name
    }

    /// Takes in what a provider says it can do with the model of a route.
    ///
    /// A provider may say something else for the next request, so whoever holds the providers
    /// asks again for each.
    pub fn learn(&mut self, route: usize, have: Option<ModelCapabilities>)
        requires
            route < old(self).deep_view().routes.len(),
        ensures
            final(self).deep_view() == old(self).deep_view().learned(route as int, have),
    {
        let ghost before = self.deep_view();
        self.routes[route].0.describe(have);
        assert(self.deep_view() == before.learned(route as int, have));
    }

    /// Starts a request on its way.
    pub fn set_out(&self, request: ChatRequest, needs: Requirements) -> (journey: Journey)
        ensures
            journey.deep_view() == Progress::start(
                request.deep_view(),
                needs,
                self.deep_view().reaching(),
            ),
            self.deep_view().carries(journey.deep_view()),
    {
        let order = self.reaching_order();
        proof {
            the_order_is_stable(self.deep_view().ranks(), self.deep_view().routes.len());
        }
        Journey::start(request, needs, order)
    }

    /// Whether the whole request has already used everything it was given.
    fn out_of_time(&self, elapsed: &Duration) -> (yes: bool)
        ensures
            yes == self.deep_view().out_of_time(elapsed@),
    {
        match &self.deadline {
            Some(deadline) => elapsed.at_least(deadline),
            None => false,
        }
    }

    /// Whether a wait of this length would run past the deadline.
    fn no_room_for(&self, elapsed: &Duration, wait: Duration) -> (yes: bool)
        ensures
            yes == self.deep_view().no_room_for(elapsed@, wait@),
    {
        match &self.deadline {
            Some(deadline) => elapsed.saturating_add(wait).at_least(deadline),
            None => false,
        }
    }

    /// How often one route may be called for one request.
    fn allowed(&self) -> (attempts: u32)
        ensures
            attempts == self.deep_view().allowed(),
    {
        match &self.retry {
            Some(policy) => policy.attempts(),
            None => 1,
        }
    }

    /// Why a route is not called for a request with these needs, and whether it is because it
    /// rests.
    fn passed_over(&self, i: usize, needs: Requirements, now: u64) -> (passing: Option<
        (String, bool),
    >)
        requires
            i < self.deep_view().routes.len(),
        ensures
            match passing {
                Some((why, rests)) => self.deep_view().passes(i as int, needs, now) matches Some(
                    passing,
                ) && passing.why() == why@ && (rests <==> passing is Resting),
                None => self.deep_view().passes(i as int, needs, now) is None,
            },
    {
        let have = match self.routes[i].0.capabilities() {
            Some(have) => have,
            None => {
                return Some(("the provider does not know this model".to_owned(), false));
            },
        };
        let missing = needs.unmet_by(&have);
        assert(missing.deep_view().len() == missing.len());
        if missing.len() > 0 {
            return Some((
                followed_by("cannot do ", join_names(&missing, ", ").as_str()),
                false,
            ));
        }
        // Asked after the capability checks and before anything is sent. A route that cannot
        // serve this request at all is a fact about the pairing, and reporting it as resting
        // would hide a typo behind a timer.
        match self.routes[i].1.closed_for(now) {
            Some(left) => Some((self.routes[i].1.why(&left), true)),
            None => None,
        }
    }

    /// Moves a request on to the next route that may be called.
    ///
    /// The request's own model is replaced by the route's, because the router is choosing the
    /// model. Everything else about the request is sent as you wrote it.
    ///
    /// # What giving up says
    ///
    /// [`Error::Unsupported`] when no route meets the requirements, naming what each route
    /// was missing. [`Error::Transient`] when every route that could have served it is
    /// resting. [`Error::Timeout`] when the time is up. When routes were called and all
    /// failed, the **last** error: it is a real error from a real provider, with its own retry
    /// advice, and a wrapper around it would lose that.
    pub fn advance(&self, journey: &mut Journey, now: u64, elapsed: &Duration) -> (step: Step)
        requires
            self.deep_view().carries(old(journey).deep_view()),
        ensures
            (final(journey).deep_view(), step.deep_view()) == self.deep_view().advanced(
                old(journey).deep_view(),
                now,
                elapsed@,
            ),
            self.deep_view().carries(final(journey).deep_view()),
            step is Call <==> final(journey).deep_view().trying is Some,
            !(step is Wait),
    {
        let ghost net = self.deep_view();
        let ghost goal = net.advanced(journey.deep_view(), now, elapsed@);
        loop
            invariant
                net == self.deep_view(),
                net.carries(journey.deep_view()),
                goal == net.advanced(journey.deep_view(), now, elapsed@),
                goal == net.advanced(old(journey).deep_view(), now, elapsed@),
            decreases journey.deep_view().ahead.len(),
        {
            let i: usize = match journey.take_next() {
                Some(i) => i,
                None => {
                    return Step::GiveUp(journey.end());
                },
            };
            if let Some((why, rests)) = self.passed_over(i, journey.needs(), now) {
                let name = self.routes[i].0.name();
                journey.note(name, why);
                if rests {
                    journey.found_resting();
                }
            } else {
                if self.out_of_time(elapsed) {
                    return Step::GiveUp(Error::Timeout { elapsed: *elapsed });
                }
                journey.call(i, 1);
                let request = journey.request().addressed_to(self.routes[i].0.model());
                return Step::Call { route: i, request };
            }
        }
    }

    /// Tells a route's health what happened.
    fn record(&mut self, route: usize, error: &Error, now: u64)
        requires
            route < old(self).deep_view().routes.len(),
        ensures
            final(self).deep_view() == old(self).deep_view().recorded(
                route as int,
                error.deep_view(),
                now,
            ),
    {
        let ghost before = self.deep_view();
        // Counted either way. The count is what `Order::Healthiest` reads, and a router
        // ordered by health with no breaker should still know which route has been failing.
        match self.breaker {
            Some(breaker) => {
                let _ = self.routes[route].1.failed(&breaker, error, now);
            },
            None => {
                let _ = self.routes[route].1.count_failure();
            },
        }
        assert(self.deep_view() == before.recorded(route as int, error.deep_view(), now));
    }

    /// Why a call did not serve the request.
    fn failed_because(&self, attempt: u32, error: &Error, wait: &Option<Duration>) -> (why: String)
        ensures
            why@ == self.deep_view().failed_line(attempt, error.deep_view(), wait.deep_view()),
    {
        match wait {
            Some(wait) => error.to_string().concat(" (attempt ").concat(
                decimal_text(attempt as u128).as_str(),
            ).concat(" of ").concat(decimal_text(self.allowed() as u128).as_str()).concat(
                ", waiting ",
            ).concat(decimal_text(wait.as_millis()).as_str()).concat("ms)"),
            None => error.to_string(),
        }
    }

    /// Says what to do after the call that was being made failed. A computed wait starts from
    /// the number handed in.
    ///
    /// A refusal stops everything, retries included: asking the next model the same question
    /// is how a policy decision gets shopped around until something agrees. Anything else is
    /// tried again on the same route where a policy says so and there is time, and otherwise
    /// falls through. The route's health is told once per request rather than once per
    /// attempt: three tries against a provider that is down is one piece of evidence, not
    /// three.
    pub fn failed_from(
        &mut self,
        journey: &mut Journey,
        error: Error,
        seed: u64,
        now: u64,
        elapsed: &Duration,
    ) -> (step: Step)
        requires
            old(self).deep_view().carries(old(journey).deep_view()),
            old(journey).deep_view().trying is Some,
        ensures
            (final(self).deep_view(), final(journey).deep_view(), step.deep_view()) == old(
                self,
            ).deep_view().after_call(
                old(journey).deep_view(),
                error.deep_view(),
                seed,
                now,
                elapsed@,
            ),
            final(self).deep_view().carries(final(journey).deep_view()),
            step is Call <==> final(journey).deep_view().trying is Some,
            step is Wait ==> final(journey).deep_view().pending is Some,
    {
        let (route, attempt): (usize, u32) = match journey.trying() {
            Some(trying) => trying,
            None => {
                return Step::GiveUp(error);
            },
        };
        if let Error::Refused { .. } = &error {
            // Counted, and it opens nothing. A model that answered about the work is not a
            // provider that has gone bad.
            self.record(route, &error, now);
            journey.stop();
            return Step::GiveUp(error);
        }
        let wait: Option<Duration> = match &self.retry {
            Some(policy) => if attempt == u32::MAX {
                None
            } else {
                policy.wait_from(attempt + 1, &error, seed)
            },
            None => None,
        };
        let name = self.routes[route].0.name();
        let why = self.failed_because(attempt, &error, &wait);
        journey.note(name, why);
        match wait {
            Some(wait) => {
                // A policy that says three attempts is a maximum, not a promise. Waiting into
                // the deadline spends what is left on a call that has nowhere to arrive.
                if self.no_room_for(elapsed, wait) {
                    self.record(route, &error, now);
                    journey.stop();
                    Step::GiveUp(Error::Timeout { elapsed: *elapsed })
                } else {
                    journey.failed_with(error);
                    journey.stop();
                    journey.put_off(Some((route, attempt + 1)));
                    Step::Wait(wait)
                }
            },
            // Settled, or out of attempts. On to the next route.
            None => {
                self.record(route, &error, now);
                journey.failed_with(error);
                journey.stop();
                self.advance(journey, now, elapsed)
            },
        }
    }

    /// Says what to do after the call that was being made failed, as [`Router::failed_from`]
    /// does from a number that the clock gives.
    pub fn failed(
        &mut self,
        journey: &mut Journey,
        error: Error,
        now: u64,
        elapsed: &Duration,
    ) -> (step: Step)
        requires
            old(self).deep_view().carries(old(journey).deep_view()),
            old(journey).deep_view().trying is Some,
        ensures
            exists|seed: u64|
                (final(self).deep_view(), final(journey).deep_view(), step.deep_view())
                    == #[trigger] old(self).deep_view().after_call(
                    old(journey).deep_view(),
                    error.deep_view(),
                    seed,
                    now,
                    elapsed@,
                ),
            final(self).deep_view().carries(final(journey).deep_view()),
            step is Call <==> final(journey).deep_view().trying is Some,
            step is Wait ==> final(journey).deep_view().pending is Some,
    {
        let seed: u64 = clock_seed();
        self.failed_from(journey, error, seed, now, elapsed)
    }

    /// Says what to do after a wait: call the route again, unless the time is up. Then the
    /// failure that was waited on is what the route's health is told.
    pub fn resume(&mut self, journey: &mut Journey, now: u64, elapsed: &Duration) -> (step: Step)
        requires
            old(self).deep_view().carries(old(journey).deep_view()),
            old(journey).deep_view().pending is Some,
        ensures
            (final(self).deep_view(), final(journey).deep_view(), step.deep_view()) == old(
                self,
            ).deep_view().after_wait(old(journey).deep_view(), now, elapsed@),
            final(self).deep_view().carries(final(journey).deep_view()),
            step is Call ==> final(journey).deep_view().trying is Some,
            !(step is Wait),
    {
        if let (Some((route, attempt)), Some(error)) = (journey.pending(), journey.last()) {
            journey.put_off(None);
            if self.out_of_time(elapsed) {
                self.record(route, &error, now);
            } else {
                journey.call(route, attempt);
                let request = journey.request().addressed_to(self.routes[route].0.model());
                return Step::Call { route, request };
            }
        }
        Step::GiveUp(Error::Timeout { elapsed: *elapsed })
    }

    /// Ends a request with the call that was being made having served it.
    pub fn served(&mut self, journey: Journey) -> (routed: Routed<()>)
        requires
            old(self).deep_view().carries(journey.deep_view()),
            journey.deep_view().trying is Some,
        ensures
            final(self).deep_view() == old(self).deep_view().after_serving(
                (journey.deep_view().trying->0).0,
            ),
            routed.route@ == old(self).deep_view().routes[(journey.deep_view().trying->0).0].name(),
            routed.fell_through.deep_view() == journey.deep_view().fell_through,
            routed.attempts == journey.deep_view().attempts,
    {
        let ghost before = self.deep_view();
        match journey.trying() {
            Some((route, _)) => {
                self.routes[route].1.served();
                assert(self.deep_view() == before.after_serving(route as int));
                let name = self.routes[route].0.name();
                journey.arrived(name)
            },
            None => journey.arrived(String::new()),
        }
    }
}

} // verus!
