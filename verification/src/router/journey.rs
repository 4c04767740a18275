//! How far one request has come.
//!
//! A router does not call a provider itself. It says which route to call with what, is told
//! what came of it, and says what to do next, until one route has served the request or there
//! is nothing left to try. What is called, and how a wait is waited, is the caller's.

use crate::breaker::one_more;
use crate::chat::request::{Asked, ChatRequest};
use crate::error::{Error, Failure};
use crate::router::requirements::Requirements;
use crate::router::route::{Attempted, Routed, Tried};
use crate::text::{followed_by, join, joined};
use crate::time::Duration;
use vstd::prelude::*;

verus! {

/// What to do next for a request.
#[derive(Debug, PartialEq)]
pub enum Step {
    /// Call this route with this request.
    Call {
        /// Which route, counted from nought as they were given.
        route: usize,
        /// What to send, addressed to the route's model.
        request: ChatRequest,
    },
    /// Wait this long, and then ask [`crate::Router::resume`]: the same route may be called
    /// again.
    Wait(Duration),
    /// Stop. This is the answer.
    GiveUp(Error),
}

/// What a [`Step`] says.
#[verifier::ext_equal]
pub enum Doing {
    Call { route: int, request: Asked },
    Wait(nat),
    GiveUp(Failure),
}

impl DeepView for Step {
    type V = Doing;

    open spec fn deep_view(&self) -> Doing {
        match *self {
            Step::Call { route, request } => Doing::Call {
                route: route as int,
                request: request.deep_view(),
            },
            Step::Wait(wait) => Doing::Wait(wait@),
            Step::GiveUp(why) => Doing::GiveUp(why.deep_view()),
        }
    }
}

/// How far one request has come: what has been tried, and what has not.
#[derive(Debug)]
pub struct Journey {
    request: ChatRequest,
    needs: Requirements,
    order: Vec<usize>,
    next: usize,
    trying: Option<(usize, u32)>,
    pending: Option<(usize, u32)>,
    fell_through: Vec<Attempted>,
    last: Option<Error>,
    attempts: u32,
    resting: bool,
}

/// What a [`Journey`] holds.
#[verifier::ext_equal]
pub struct Progress {
    /// What was asked.
    pub request: Asked,
    /// What it needs.
    pub needs: Requirements,
    /// The routes not considered yet, in the order they will be.
    pub ahead: Seq<int>,
    /// The route that is being called, and which attempt of it this is, counted from one.
    pub trying: Option<(int, u32)>,
    /// The route that is to be called again after a wait, and which attempt of it that will be.
    pub pending: Option<(int, u32)>,
    /// What did not serve the request, and why.
    pub fell_through: Seq<Tried>,
    /// The last failure of a route that was called.
    pub last: Option<Failure>,
    /// How often a route was called. The count stops at the largest there is.
    pub attempts: u32,
    /// Whether a route that could have served the request was resting.
    pub resting: bool,
}

/// Indices as integers.
pub open spec fn indices(order: Seq<usize>) -> Seq<int> {
    Seq::new(order.len(), |i: int| order[i] as int)
}

impl DeepView for Journey {
    type V = Progress;

    closed spec fn deep_view(&self) -> Progress {
        Progress {
            request: self.request.deep_view(),
            needs: self.needs,
            ahead: if self.next <= self.order@.len() {
                indices(self.order@).skip(self.next as int)
            } else {
                Seq::empty()
            },
            trying: match self.trying {
                Some((route, attempt)) => Some((route as int, attempt)),
                None => None,
            },
            pending: match self.pending {
                Some((route, attempt)) => Some((route as int, attempt)),
                None => None,
            },
            fell_through: self.fell_through.deep_view(),
            last: self.last.deep_view(),
            attempts: self.attempts,
            resting: self.resting,
        }
    }
}

impl Progress {
    /// A request that no route has been considered for.
    pub open spec fn start(request: Asked, needs: Requirements, ahead: Seq<int>) -> Progress {
        Progress {
            request,
            needs,
            ahead,
            trying: None,
            pending: None,
            fell_through: Seq::empty(),
            last: None,
            attempts: 0,
            resting: false,
        }
    }

    /// What is answered once there is nothing left to try. The last failure of a route that
    /// was called comes first: it is a real error from a real provider, with its own retry
    /// advice.
    pub open spec fn ended(self) -> Failure {
        match self.last {
            Some(failure) => failure,
            None => if self.resting {
                Failure::Transient(
                    "every route that could serve this is circuit open. Tried: "@ + listed(
                        self.fell_through,
                    ),
                )
            } else {
                Failure::Unsupported(
                    "no route can serve this request. Tried: "@ + listed(self.fell_through),
                )
            },
        }
    }
}

/// One route that did not serve a request, and why.
pub open spec fn entry_line(tried: Tried) -> Seq<char> {
    tried.route + " ("@ + tried.why + ")"@
}

/// Every route that did not serve a request, and why, in one line.
pub open spec fn listed(fell_through: Seq<Tried>) -> Seq<char> {
    joined(fell_through.map_values(|tried: Tried| entry_line(tried)), "; "@)
}

/// Every route that did not serve a request, and why, for one line somebody reads.
pub fn listing(fell_through: &Vec<Attempted>) -> (line: String)
    ensures
        line@ == listed(fell_through.deep_view()),
{
    let ghost all = fell_through.deep_view().map_values(|tried: Tried| entry_line(tried));
    let mut lines: Vec<String> = Vec::new();
    let mut i: usize = 0;
    while i < fell_through.len()
        invariant
            i <= fell_through.len(),
            all == fell_through.deep_view().map_values(|tried: Tried| entry_line(tried)),
            lines.deep_view() == all.take(i as int),
        decreases fell_through.len() - i,
    {
        let ghost before = lines.deep_view();
        lines.push(
            followed_by(fell_through[i].route.as_str(), " (").concat(
                fell_through[i].why.as_str(),
            ).concat(")"),
        );
        assert(lines.deep_view() == before.push(all[i as int]));
        i += 1;
    }
    assert(lines.deep_view() == all);
    join(&lines, "; ")
}

impl Journey {
    /// A request that no route has been considered for.
    pub(crate) fn start(request: ChatRequest, needs: Requirements, order: Vec<usize>) -> (journey:
        Journey)
        ensures
            journey.deep_view() == Progress::start(
                request.deep_view(),
                needs,
                indices(order@),
            ),
    {
        let journey = Journey {
            request,
            needs,
            order,
            next: 0,
            trying: None,
            pending: None,
            fell_through: Vec::new(),
            last: None,
            attempts: 0,
            resting: false,
        };
        assert(indices(order@).skip(0) == indices(order@));
        assert(journey.fell_through.deep_view() == Seq::<Tried>::empty());
        journey
    }

    /// What is answered once there is nothing left to try.
    pub(crate) fn end(&self) -> (error: Error)
        ensures
            error.deep_view() == self.deep_view().ended(),
    {
        match &self.last {
            Some(error) => error.copied(),
            // Every route that could have served this is resting. Transient rather than
            // unsupported: nothing is wrong with the request, and the difference decides
            // whether a caller fixes their configuration or waits.
            None => if self.resting {
                Error::Transient(
                    followed_by(
                        "every route that could serve this is circuit open. Tried: ",
                        listing(&self.fell_through).as_str(),
                    ),
                )
            } else {
                Error::Unsupported(
                    followed_by(
                        "no route can serve this request. Tried: ",
                        listing(&self.fell_through).as_str(),
                    ),
                )
            },
        }
    }

    /// Notes that a route did not serve the request.
    pub(crate) fn note(&mut self, route: String, why: String)
        ensures
            final(self).deep_view() == (Progress {
                fell_through: old(self).deep_view().fell_through.push(
                    Tried { route: route@, why: why@ },
                ),
                ..old(self).deep_view()
            }),
    {
        let ghost before = self.fell_through.deep_view();
        let ghost tried = Tried { route: route@, why: why@ };
        self.fell_through.push(Attempted { route, why });
        assert(self.fell_through.deep_view() == before.push(tried));
    }

    /// Leaves the route that was being called, and takes up the next.
    pub(crate) fn take_next(&mut self) -> (route: Option<usize>)
        ensures
            match route {
                Some(route) => old(self).deep_view().ahead.len() > 0 && route
                    == old(self).deep_view().ahead[0] && final(self).deep_view() == (Progress {
                    ahead: old(self).deep_view().ahead.skip(1),
                    trying: None,
                    ..old(self).deep_view()
                }),
                None => old(self).deep_view().ahead.len() == 0 && final(self).deep_view() == (
                Progress { trying: None, ..old(self).deep_view() }),
            },
    {
        let ghost before = self.deep_view();
        self.trying = None;
        if self.next < self.order.len() {
            let route: usize = self.order[self.next];
            self.next += 1;
            proof {
                let all = indices(self.order@);
                assert(all.skip(self.next - 1).skip(1) == all.skip(self.next as int));
            }
            Some(route)
        } else {
            None
        }
    }

    /// Notes that a route that could have served the request was resting.
    pub(crate) fn found_resting(&mut self)
        ensures
            final(self).deep_view() == (Progress { resting: true, ..old(self).deep_view() }),
    {
        self.resting = true;
    }

    /// Notes that a route is being called.
    pub(crate) fn call(&mut self, route: usize, attempt: u32)
        ensures
            final(self).deep_view() == (Progress {
                trying: Some((route as int, attempt)),
                attempts: one_more(old(self).deep_view().attempts),
                ..old(self).deep_view()
            }),
    {
        self.trying = Some((route, attempt));
        self.attempts = self.attempts.saturating_add(1);
    }

    /// Notes that no route is being called.
    pub(crate) fn stop(&mut self)
        ensures
            final(self).deep_view() == (Progress { trying: None, ..old(self).deep_view() }),
    {
        self.trying = None;
    }

    /// Notes which route is to be called again after a wait, if any.
    pub(crate) fn put_off(&mut self, pending: Option<(usize, u32)>)
        ensures
            final(self).deep_view() == (Progress {
                pending: match pending {
                    Some((route, attempt)) => Some((route as int, attempt)),
                    None => None,
                },
                ..old(self).deep_view()
            }),
    {
        self.pending = pending;
    }

    /// Notes the failure of a route that was called.
    pub(crate) fn failed_with(&mut self, error: Error)
        ensures
            final(self).deep_view() == (Progress {
                last: Some(error.deep_view()),
                ..old(self).deep_view()
            }),
    {
        self.last = Some(error);
    }

    /// What was asked.
    pub fn request(&self) -> (request: &ChatRequest)
        ensures
            request.deep_view() == self.deep_view().request,
    {
        &self.request
    }

    /// What it needs.
    pub fn needs(&self) -> (needs: Requirements)
        ensures
            needs == self.deep_view().needs,
    {
        self.needs
    }

    /// The route that is being called, and which attempt of it this is.
    pub fn trying(&self) -> (trying: Option<(usize, u32)>)
        ensures
            match trying {
                Some((route, attempt)) => self.deep_view().trying == Some((route as int, attempt)),
                None => self.deep_view().trying is None,
            },
    {
        self.trying
    }

    /// The route that is to be called again after a wait, and which attempt of it that will be.
    pub fn pending(&self) -> (pending: Option<(usize, u32)>)
        ensures
            match pending {
                Some((route, attempt)) => self.deep_view().pending == Some((route as int, attempt)),
                None => self.deep_view().pending is None,
            },
    {
        self.pending
    }

    /// The last failure of a route that was called.
    pub(crate) fn last(&self) -> (error: Option<Error>)
        ensures
            error.deep_view() == self.deep_view().last,
    {
        match &self.last {
            Some(error) => Some(error.copied()),
            None => None,
        }
    }

    /// What it took, given the route that served the request.
    pub(crate) fn arrived(self, route: String) -> (routed: Routed<()>)
        ensures
            routed.route@ == route@,
            routed.fell_through.deep_view() == self.deep_view().fell_through,
            routed.attempts == self.deep_view().attempts,
    {
        Routed {
            response: (),
            route,
            fell_through: self.fell_through,
            attempts: self.attempts,
        }
    }

    /// The routes that did not serve the request so far, and why each one did not.
    pub fn fell_through(&self) -> (fell_through: &Vec<Attempted>)
        ensures
            fell_through.deep_view() == self.deep_view().fell_through,
    {
        &self.fell_through
    }

    /// How often a route was called so far.
    pub fn attempts(&self) -> (attempts: u32)
        ensures
            attempts == self.deep_view().attempts,
    {
        self.attempts
    }
}

} // verus!
