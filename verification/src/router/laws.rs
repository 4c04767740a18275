//! What holds of every request on its way through a router.


use crate::chat::request::Asked;
use crate::error::Failure;
use crate::model::ModelCapabilities;
use crate::provider::Answer;
use crate::router::journey::{entry_line, listed, Doing, Progress};
use crate::router::order::{equals_keep_their_order, lower, the_order_is_stable, Order};
use crate::router::requirements::{enough_is_nothing_missing, Requirements};
use crate::router::route::Tried;
use crate::router::{Network, Passing};
use crate::text::{decimal, joined};
use crate::time::MAX_NANOS;
use vstd::prelude::*;

verus! {

/// A route is called only where its provider knows the model, the model can do everything the
/// request needs, the route is not resting and there is time left. In particular a request
/// whose data may not leave this machine is only ever sent to a self hosted model, and
/// everything about a request but its model is sent as it was written.
pub proof fn only_a_route_that_can_serve_is_called(
    network: Network,
    progress: Progress,
    now: u64,
    elapsed: nat,
)
    ensures
        network.advanced(progress, now, elapsed).1 matches Doing::Call { route, request } ==> {
            &&& progress.ahead.contains(route)
            &&& network.routes[route].capabilities matches Some(have) && progress.needs.is_met(have)
                && (progress.needs.must_stay_on_device ==> have.reach is SelfHosted)
            &&& network.health[route].left_at(now) is None
            &&& !network.out_of_time(elapsed)
            &&& request == network.sent(route, progress.request)
        },
    decreases progress.ahead.len(),
{
    if progress.ahead.len() > 0 {
        let i = progress.ahead[0];
        assert(progress.ahead.contains(i));
        match network.passes(i, progress.needs, now) {
            Some(passing) => {
                let rest = Progress {
                    ahead: progress.ahead.skip(1),
                    trying: None,
                    fell_through: progress.fell_through.push(
                        Tried { route: network.routes[i].name(), why: passing.why() },
                    ),
                    resting: progress.resting || passing is Resting,
                    ..progress
                };
                only_a_route_that_can_serve_is_called(network, rest, now, elapsed);
                if let Doing::Call { route, .. } = network.advanced(rest, now, elapsed).1 {
                    let k = choose|k: int|
                        0 <= k < rest.ahead.len() && #[trigger] rest.ahead[k] == route;
                    assert(progress.ahead[k + 1] == route);
                }
            },
            None => {
                enough_is_nothing_missing(
                    progress.needs,
                    network.routes[i].capabilities->0,
                );
            },
        }
    }
}

/// A call that is repeated goes to the route it went to before, with the same request, after a
/// failure that is worth repeating and, where the provider named a wait, after exactly that.
pub proof fn a_repeated_call_stays_on_its_route(
    network: Network,
    progress: Progress,
    failure: Failure,
    seed: u64,
    now: u64,
    elapsed: nat,
    later: u64,
    then: nat,
)
    requires
        progress.trying is Some,
    ensures
        ({
            let (after, waiting, doing) = network.after_call(
                progress,
                failure,
                seed,
                now,
                elapsed,
            );
            doing matches Doing::Wait(wait) ==> {
                &&& failure.is_retryable()
                &&& network.retry is Some
                &&& failure.retry_after() matches Some(asked) ==> wait == asked
                &&& waiting.pending is Some && waiting.trying is None
                &&& after.after_wait(waiting, later, then).2 matches Doing::Call { route, request }
                    ==> route == (progress.trying->0).0 && request == network.sent(
                    route,
                    progress.request,
                )
            }
        }),
{
    let after = network.recorded((progress.trying->0).0, failure, now);
    let (i, attempt) = progress.trying->0;
    if !(failure is Refused) && network.wait_after(attempt, failure, seed) is None {
        let noted = Progress {
            fell_through: progress.fell_through.push(
                Tried {
                    route: network.routes[i].name(),
                    why: network.failed_line(attempt, failure, None),
                },
            ),
            last: Some(failure),
            trying: None,
            ..progress
        };
        moving_on_never_waits(after, noted, now, elapsed);
    }
}

/// Nothing is repeated unless a policy says so: without one a failed call is never waited on,
/// and a refusal is not repeated whatever the policy.
pub proof fn nothing_is_repeated_without_a_policy(
    network: Network,
    progress: Progress,
    failure: Failure,
    seed: u64,
    now: u64,
    elapsed: nat,
)
    requires
        progress.trying is Some,
        network.retry is None || !failure.is_retryable(),
    ensures
        !(network.after_call(progress, failure, seed, now, elapsed).2 is Wait),
{
    let (i, attempt) = progress.trying->0;
    if !(failure is Refused) {
        let noted = Progress {
            fell_through: progress.fell_through.push(
                Tried {
                    route: network.routes[i].name(),
                    why: network.failed_line(attempt, failure, None),
                },
            ),
            last: Some(failure),
            trying: None,
            ..progress
        };
        moving_on_never_waits(network.recorded(i, failure, now), noted, now, elapsed);
    }
}

/// A request whose first route can serve it and is not resting is sent there at once, and
/// leaves no trace of anything else.
pub proof fn the_common_path_leaves_no_trace(
    network: Network,
    progress: Progress,
    now: u64,
    elapsed: nat,
)
    requires
        progress.ahead.len() > 0,
        network.passes(progress.ahead[0], progress.needs, now) is None,
        !network.out_of_time(elapsed),
    ensures
        ({
            let (after, doing) = network.advanced(progress, now, elapsed);
            doing == (Doing::Call {
                route: progress.ahead[0],
                request: network.sent(progress.ahead[0], progress.request),
            }) && after.fell_through == progress.fell_through
        }),
{
}

/// Moving on to another route never waits.
pub proof fn moving_on_never_waits(network: Network, progress: Progress, now: u64, elapsed: nat)
    ensures
        !(network.advanced(progress, now, elapsed).1 is Wait),
    decreases progress.ahead.len(),
{
    if progress.ahead.len() > 0 {
        let i = progress.ahead[0];
        if let Some(passing) = network.passes(i, progress.needs, now) {
            moving_on_never_waits(
                network,
                Progress {
                    ahead: progress.ahead.skip(1),
                    trying: None,
                    fell_through: progress.fell_through.push(
                        Tried { route: network.routes[i].name(), why: passing.why() },
                    ),
                    resting: progress.resting || passing is Resting,
                    ..progress
                },
                now,
                elapsed,
            );
        }
    }
}

/// A refusal is an answer: it stops everything, it is handed on as it is, and it opens no
/// circuit.
pub proof fn a_refusal_stops_everything(
    network: Network,
    progress: Progress,
    failure: Failure,
    seed: u64,
    now: u64,
    elapsed: nat,
)
    requires
        failure is Refused,
        progress.trying matches Some((i, _)) && 0 <= i < network.health.len(),
    ensures
        ({
            let (after, _, doing) = network.after_call(progress, failure, seed, now, elapsed);
            doing == Doing::GiveUp(failure) && forall|k: int|
                0 <= k < network.health.len() ==> (#[trigger] after.health[k]).closed_until
                    == network.health[k].closed_until
        }),
{
}

/// No route is passed over silently. Each one that a request moves past is noted, in the order
/// they are reached for and with why; what was noted before stays; and a request gives up for
/// want of routes only when every one of them has been noted.
pub proof fn no_route_is_passed_over_silently(
    network: Network,
    progress: Progress,
    now: u64,
    elapsed: nat,
)
    ensures
        ({
            let (after, doing) = network.advanced(progress, now, elapsed);
            let passed = after.fell_through.len() - progress.fell_through.len();
            &&& 0 <= passed <= progress.ahead.len()
            &&& after.fell_through.take(progress.fell_through.len() as int)
                == progress.fell_through
            &&& forall|k: int|
                0 <= k < passed ==> {
                    let passing = network.passes(
                        #[trigger] progress.ahead[k],
                        progress.needs,
                        now,
                    );
                    passing is Some && after.fell_through[progress.fell_through.len() + k] == (
                    Tried {
                        route: network.routes[progress.ahead[k]].name(),
                        why: passing->0.why(),
                    })
                }
            &&& doing matches Doing::Call { route, .. } ==> passed < progress.ahead.len() && route
                == progress.ahead[passed] && after.ahead == progress.ahead.skip(passed + 1)
            &&& doing is GiveUp ==> passed == progress.ahead.len() || (network.out_of_time(elapsed)
                && doing == Doing::GiveUp(Failure::Timeout { elapsed }))
        }),
    decreases progress.ahead.len(),
{
    let (after, doing) = network.advanced(progress, now, elapsed);
    if progress.ahead.len() > 0 {
        let i = progress.ahead[0];
        if let Some(passing) = network.passes(i, progress.needs, now) {
            let tried = Tried { route: network.routes[i].name(), why: passing.why() };
            let rest = Progress {
                ahead: progress.ahead.skip(1),
                trying: None,
                fell_through: progress.fell_through.push(tried),
                resting: progress.resting || passing is Resting,
                ..progress
            };
            no_route_is_passed_over_silently(network, rest, now, elapsed);
            let more = after.fell_through.len() - rest.fell_through.len();
            let passed = after.fell_through.len() - progress.fell_through.len();
            let base = progress.fell_through.len() as int;
            assert(passed == more + 1);
            assert(after.fell_through.take(base) == after.fell_through.take(base + 1).take(base));
            assert(rest.fell_through.take(base) == progress.fell_through);
            assert(after.fell_through[base] == after.fell_through.take(base + 1)[base]);
            assert forall|k: int| 0 <= k < passed implies {
                let passing = network.passes(#[trigger] progress.ahead[k], progress.needs, now);
                passing is Some && after.fell_through[base + k] == (Tried {
                    route: network.routes[progress.ahead[k]].name(),
                    why: passing->0.why(),
                })
            } by {
                if k > 0 {
                    assert(rest.ahead[k - 1] == progress.ahead[k]);
                    assert(after.fell_through[rest.fell_through.len() + (k - 1)]
                        == after.fell_through[base + k]);
                }
            }
            if let Doing::Call { .. } = doing {
                assert(rest.ahead[more] == progress.ahead[passed]);
                assert(rest.ahead.skip(more + 1) == progress.ahead.skip(passed + 1));
            }
        } else {
            assert(after.fell_through.take(progress.fell_through.len() as int)
                == progress.fell_through);
        }
    } else {
        assert(after.fell_through.take(progress.fell_through.len() as int)
            == progress.fell_through);
    }
}

/// No wait runs past the deadline, and no route is called once it has passed.
pub proof fn the_deadline_bounds_every_call(
    network: Network,
    progress: Progress,
    failure: Failure,
    seed: u64,
    now: u64,
    elapsed: nat,
)
    requires
        progress.trying is Some,
        network.deadline matches Some(deadline) && deadline <= MAX_NANOS,
    ensures
        match network.after_call(progress, failure, seed, now, elapsed).2 {
            Doing::Call { .. } => elapsed < network.deadline->0,
            Doing::Wait(wait) => elapsed + wait < network.deadline->0,
            Doing::GiveUp(_) => true,
        },
        network.advanced(progress, now, elapsed).1 is Call ==> elapsed < network.deadline->0,
        network.after_wait(progress, now, elapsed).2 is Call ==> elapsed < network.deadline->0,
{
    let (i, attempt) = progress.trying->0;
    only_a_route_that_can_serve_is_called(network, progress, now, elapsed);
    if !(failure is Refused) && network.wait_after(attempt, failure, seed) is None {
        let after = network.recorded(i, failure, now);
        let noted = Progress {
            fell_through: progress.fell_through.push(
                Tried {
                    route: network.routes[i].name(),
                    why: network.failed_line(attempt, failure, None),
                },
            ),
            last: Some(failure),
            trying: None,
            ..progress
        };
        only_a_route_that_can_serve_is_called(after, noted, now, elapsed);
        moving_on_never_waits(after, noted, now, elapsed);
    }
}

/// How many calls a request may still take.
pub open spec fn calls_left(network: Network, progress: Progress) -> int {
    progress.ahead.len() * network.allowed() + match (progress.trying, progress.pending) {
        (Some((_, attempt)), _) => network.allowed() - attempt,
        (None, Some((_, attempt))) => network.allowed() - attempt + 1,
        (None, None) => 0,
    }
}

/// Moving on to another route takes from the calls that are left.
proof fn moving_on_uses_calls(network: Network, progress: Progress, now: u64, elapsed: nat)
    requires
        network.allowed() >= 1,
    ensures
        ({
            let (after, doing) = network.advanced(progress, now, elapsed);
            &&& after.ahead.len() <= progress.ahead.len()
            &&& doing is Call ==> after.trying is Some && (after.trying->0).1 == 1 && calls_left(
                network,
                after,
            ) < progress.ahead.len() * network.allowed()
        }),
    decreases progress.ahead.len(),
{
    if progress.ahead.len() > 0 {
        let i = progress.ahead[0];
        let n = progress.ahead.len();
        let allowed = network.allowed() as int;
        assert((n - 1) * allowed == n * allowed - allowed) by (nonlinear_arith);
        if let Some(passing) = network.passes(i, progress.needs, now) {
            moving_on_uses_calls(
                network,
                Progress {
                    ahead: progress.ahead.skip(1),
                    trying: None,
                    fell_through: progress.fell_through.push(
                        Tried { route: network.routes[i].name(), why: passing.why() },
                    ),
                    resting: progress.resting || passing is Resting,
                    ..progress
                },
                now,
                elapsed,
            );
        }
    }
}

/// Every request comes to an end: each further call, with a wait before it or without, takes
/// from the calls that are left, which are at most the attempts that each route is allowed.
pub proof fn a_request_comes_to_an_end(
    network: Network,
    progress: Progress,
    failure: Failure,
    seed: u64,
    now: u64,
    elapsed: nat,
    later: u64,
    then: nat,
)
    requires
        network.allowed() >= 1,
        progress.trying matches Some((_, attempt)) && 1 <= attempt <= network.allowed(),
    ensures
        ({
            let (after, next, doing) = network.after_call(progress, failure, seed, now, elapsed);
            let left = calls_left(network, progress);
            &&& after.allowed() == network.allowed()
            &&& doing is Call ==> 0 <= calls_left(after, next) < left && next.trying is Some && 1
                <= (next.trying->0).1 <= network.allowed()
            &&& doing is Wait ==> {
                let (again, called, doing) = after.after_wait(next, later, then);
                &&& again.allowed() == network.allowed()
                &&& !(doing is Wait)
                &&& doing is Call ==> 0 <= calls_left(again, called) < left && called.trying
                    is Some && 1 <= (called.trying->0).1 <= network.allowed()
            }
        }),
{
    let (i, attempt) = progress.trying->0;
    let allowed = network.allowed() as int;
    assert(progress.ahead.len() * allowed >= 0) by (nonlinear_arith)
        requires
            allowed >= 0,
    ;
    if !(failure is Refused) && network.wait_after(attempt, failure, seed) is None {
        let after = network.recorded(i, failure, now);
        let noted = Progress {
            fell_through: progress.fell_through.push(
                Tried {
                    route: network.routes[i].name(),
                    why: network.failed_line(attempt, failure, None),
                },
            ),
            last: Some(failure),
            trying: None,
            ..progress
        };
        moving_on_uses_calls(after, noted, now, elapsed);
        moving_on_never_waits(after, noted, now, elapsed);
        let next = after.advanced(noted, now, elapsed).0;
        assert(next.ahead.len() * allowed >= 0) by (nonlinear_arith)
            requires
                allowed >= 0,
        ;
    }
}

/// A route is judged once per request rather than once per attempt: while it is being retried
/// nothing is remembered, and when it is done with its failure counts once and no other route
/// is touched. The same holds where the time ran out during a wait.
pub proof fn a_route_is_judged_once(
    network: Network,
    progress: Progress,
    failure: Failure,
    seed: u64,
    now: u64,
    elapsed: nat,
)
    requires
        progress.trying matches Some((i, _)) && 0 <= i < network.health.len(),
    ensures
        ({
            let i = (progress.trying->0).0;
            let (after, _, doing) = network.after_call(progress, failure, seed, now, elapsed);
            &&& doing is Wait ==> after == network
            &&& !(doing is Wait) ==> after.health[i].consecutive_failures
                == network.health[i].after_failure().consecutive_failures
            &&& forall|k: int|
                0 <= k < network.health.len() && k != i ==> #[trigger] after.health[k]
                    == network.health[k]
        }),
        progress.pending matches Some((i, _)) && 0 <= i < network.health.len() ==> {
            let i = (progress.pending->0).0;
            let (after, _, doing) = network.after_wait(progress, now, elapsed);
            &&& doing is Call ==> after == network
            &&& doing is GiveUp ==> after.health[i].consecutive_failures
                == network.health[i].after_failure().consecutive_failures
            &&& forall|k: int|
                0 <= k < network.health.len() && k != i ==> #[trigger] after.health[k]
                    == network.health[k]
        },
{
    let (i, attempt) = progress.trying->0;
    if !(failure is Refused) && network.wait_after(attempt, failure, seed) is None {
        let after = network.recorded(i, failure, now);
        let noted = Progress {
            fell_through: progress.fell_through.push(
                Tried {
                    route: network.routes[i].name(),
                    why: network.failed_line(attempt, failure, None),
                },
            ),
            last: Some(failure),
            trying: None,
            ..progress
        };
        moving_on_never_waits(after, noted, now, elapsed);
    }
}

/// When routes were called and all failed, the answer is the last failure, unless the time was
/// up.
pub proof fn the_last_failure_is_the_answer(
    network: Network,
    progress: Progress,
    now: u64,
    elapsed: nat,
)
    requires
        progress.last is Some,
    ensures
        network.advanced(progress, now, elapsed).1 matches Doing::GiveUp(failure) ==> failure
            == progress.last->0 || (network.out_of_time(elapsed) && failure == (Failure::Timeout {
            elapsed,
        })),
    decreases progress.ahead.len(),
{
    if progress.ahead.len() > 0 {
        let i = progress.ahead[0];
        if let Some(passing) = network.passes(i, progress.needs, now) {
            the_last_failure_is_the_answer(
                network,
                Progress {
                    ahead: progress.ahead.skip(1),
                    trying: None,
                    fell_through: progress.fell_through.push(
                        Tried { route: network.routes[i].name(), why: passing.why() },
                    ),
                    resting: progress.resting || passing is Resting,
                    ..progress
                },
                now,
                elapsed,
            );
        }
    }
}

/// Where no route that a request may still take can serve it, it is refused as unsupported and
/// nothing is sent.
pub proof fn what_no_route_can_serve_is_refused(
    network: Network,
    progress: Progress,
    now: u64,
    elapsed: nat,
)
    requires
        progress.last is None,
        !progress.resting,
        forall|k: int|
            0 <= k < progress.ahead.len() ==> match network.routes[#[trigger] progress.ahead[k]].capabilities {
                Some(have) => !progress.needs.is_met(have),
                None => true,
            },
    ensures
        network.advanced(progress, now, elapsed).1 matches Doing::GiveUp(failure) && failure
            is Unsupported,
    decreases progress.ahead.len(),
{
    if progress.ahead.len() > 0 {
        let i = progress.ahead[0];
        if let Some(have) = network.routes[i].capabilities {
            enough_is_nothing_missing(progress.needs, have);
        }
        let passing = network.passes(i, progress.needs, now)->0;
        let rest = Progress {
            ahead: progress.ahead.skip(1),
            trying: None,
            fell_through: progress.fell_through.push(
                Tried { route: network.routes[i].name(), why: passing.why() },
            ),
            resting: progress.resting || passing is Resting,
            ..progress
        };
        assert forall|k: int| 0 <= k < rest.ahead.len() implies match network.routes[#[trigger] rest.ahead[k]].capabilities {
            Some(have) => !rest.needs.is_met(have),
            None => true,
        } by {
            assert(rest.ahead[k] == progress.ahead[k + 1]);
        }
        what_no_route_can_serve_is_refused(network, rest, now, elapsed);
    }
}

/// A request whose data may not leave this machine is refused by a router with nothing self
/// hosted. There is no falling back.
pub proof fn nothing_leaves_the_machine_for_want_of_a_local_model(
    network: Network,
    progress: Progress,
    now: u64,
    elapsed: nat,
)
    requires
        progress.last is None,
        !progress.resting,
        progress.needs.must_stay_on_device,
        network.carries(progress),
        forall|i: int|
            0 <= i < network.routes.len() ==> match (#[trigger] network.routes[i]).capabilities {
                Some(have) => !(have.reach is SelfHosted),
                None => true,
            },
    ensures
        network.advanced(progress, now, elapsed).1 matches Doing::GiveUp(failure) && failure
            is Unsupported,
{
    assert forall|k: int| 0 <= k < progress.ahead.len() implies match network.routes[#[trigger] progress.ahead[k]].capabilities {
        Some(have) => !progress.needs.is_met(have),
        None => true,
    } by {
        assert(0 <= progress.ahead[k] < network.routes.len());
    }
    what_no_route_can_serve_is_refused(network, progress, now, elapsed);
}

/// Only a denial rests a route. That nothing could be established changes nothing, and neither
/// does that the route is ready. No route is dropped, whatever was answered.
pub proof fn only_a_denial_rests_a_route(network: Network, i: int, answer: Answer, now: u64)
    ensures
        network.heard(i, answer, now).routes == network.routes,
        !(answer is Denied) ==> network.heard(i, answer, now) == network,
        network.breaker is None ==> network.heard(i, answer, now) == network,
{
}

/// A router where nothing has failed, ordered by health, reaches for its routes as they were
/// listed.
pub proof fn all_healthy_is_as_listed(network: Network)
    requires
        network.well_formed(),
        network.order == Order::Healthiest,
        forall|i: int|
            0 <= i < network.health.len() ==> (#[trigger] network.health[i]).consecutive_failures
                == 0,
    ensures
        network.reaching() == Seq::new(network.routes.len(), |i: int| i),
        (Network { order: Order::AsListed, ..network }).reaching() == network.reaching(),
{
    let ranks = network.ranks();
    equals_keep_their_order(ranks, network.routes.len());
    let listed = Network { order: Order::AsListed, ..network };
    equals_keep_their_order(listed.ranks(), network.routes.len());
}

/// Everything about a request but its model is sent as it was written, and the model is that of
/// the route: when a request moves on, when a call failed and after a wait.
pub proof fn everything_but_the_model_is_sent_as_written(
    network: Network,
    progress: Progress,
    failure: Failure,
    seed: u64,
    now: u64,
    elapsed: nat,
)
    ensures
        network.advanced(progress, now, elapsed).1 matches Doing::Call { route, request } ==> {
            &&& request.model == network.routes[route].model
            &&& request.system == progress.request.system
            &&& request.messages == progress.request.messages
            &&& request.tools == progress.request.tools
            &&& request.generation == progress.request.generation
            &&& request.thinking == progress.request.thinking
            &&& request.response_schema == progress.request.response_schema
            &&& request.cache_breakpoints == progress.request.cache_breakpoints
        },
        network.after_wait(progress, now, elapsed).2 matches Doing::Call { route, request } ==> {
            &&& request.model == network.routes[route].model
            &&& request.system == progress.request.system
            &&& request.messages == progress.request.messages
            &&& request.tools == progress.request.tools
            &&& request.generation == progress.request.generation
            &&& request.thinking == progress.request.thinking
            &&& request.response_schema == progress.request.response_schema
            &&& request.cache_breakpoints == progress.request.cache_breakpoints
        },
        network.after_call(progress, failure, seed, now, elapsed).2 matches Doing::Call {
            route,
            request,
        } ==> {
            &&& request.model == network.routes[route].model
            &&& request.system == progress.request.system
            &&& request.messages == progress.request.messages
            &&& request.tools == progress.request.tools
            &&& request.generation == progress.request.generation
            &&& request.thinking == progress.request.thinking
            &&& request.response_schema == progress.request.response_schema
            &&& request.cache_breakpoints == progress.request.cache_breakpoints
        },
{
    only_a_route_that_can_serve_is_called(network, progress, now, elapsed);
    let (i, attempt) = progress.trying->0;
    if !(failure is Refused) && network.wait_after(attempt, failure, seed) is None {
        let noted = Progress {
            fell_through: progress.fell_through.push(
                Tried {
                    route: network.routes[i].name(),
                    why: network.failed_line(attempt, failure, None),
                },
            ),
            last: Some(failure),
            trying: None,
            ..progress
        };
        only_a_route_that_can_serve_is_called(
            network.recorded(i, failure, now),
            noted,
            now,
            elapsed,
        );
    }
}

/// Moving on changes neither what was asked nor what it needs, and counts a call as one.
proof fn moving_on_keeps_the_request(network: Network, progress: Progress, now: u64, elapsed: nat)
    requires
        progress.attempts < u32::MAX,
    ensures
        ({
            let (after, doing) = network.advanced(progress, now, elapsed);
            &&& after.request == progress.request
            &&& after.needs == progress.needs
            &&& after.pending == progress.pending
            &&& after.last == progress.last
            &&& doing is Call ==> after.attempts == progress.attempts + 1
            &&& !(doing is Call) ==> after.attempts == progress.attempts
            &&& doing matches Doing::Call { route, .. } ==> after.trying == Some((route, 1u32))
        }),
    decreases progress.ahead.len(),
{
    if progress.ahead.len() > 0 {
        let i = progress.ahead[0];
        if let Some(passing) = network.passes(i, progress.needs, now) {
            moving_on_keeps_the_request(
                network,
                Progress {
                    ahead: progress.ahead.skip(1),
                    trying: None,
                    fell_through: progress.fell_through.push(
                        Tried { route: network.routes[i].name(), why: passing.why() },
                    ),
                    resting: progress.resting || passing is Resting,
                    ..progress
                },
                now,
                elapsed,
            );
        }
    }
}

/// A request stays what it was on its whole way, needs what it needed, and every call counts once:
/// whoever asks how many there were is told.
pub proof fn a_request_stays_what_it_was(
    network: Network,
    progress: Progress,
    failure: Failure,
    seed: u64,
    now: u64,
    elapsed: nat,
)
    requires
        progress.attempts < u32::MAX,
    ensures
        ({
            let (after, doing) = network.advanced(progress, now, elapsed);
            &&& after.request == progress.request && after.needs == progress.needs
            &&& after.attempts == progress.attempts + (if doing is Call {
                1int
            } else {
                0
            })
        }),
        ({
            let (_, after, doing) = network.after_call(progress, failure, seed, now, elapsed);
            &&& after.request == progress.request && after.needs == progress.needs
            &&& after.attempts == progress.attempts + (if doing is Call {
                1int
            } else {
                0
            })
        }),
        ({
            let (_, after, doing) = network.after_wait(progress, now, elapsed);
            &&& after.request == progress.request && after.needs == progress.needs
            &&& after.attempts == progress.attempts + (if doing is Call {
                1int
            } else {
                0
            })
        }),
{
    moving_on_keeps_the_request(network, progress, now, elapsed);
    let (i, attempt) = progress.trying->0;
    if !(failure is Refused) && network.wait_after(attempt, failure, seed) is None {
        let noted = Progress {
            fell_through: progress.fell_through.push(
                Tried {
                    route: network.routes[i].name(),
                    why: network.failed_line(attempt, failure, None),
                },
            ),
            last: Some(failure),
            trying: None,
            ..progress
        };
        moving_on_keeps_the_request(network.recorded(i, failure, now), noted, now, elapsed);
    }
}

/// Nothing that happens to a request changes the routes of a router, what they charge, or the
/// policies it was given.
pub proof fn a_router_keeps_its_routes_and_policies(
    network: Network,
    progress: Progress,
    failure: Failure,
    seed: u64,
    now: u64,
    elapsed: nat,
    i: int,
)
    ensures
        ({
            let after = network.after_call(progress, failure, seed, now, elapsed).0;
            after.routes == network.routes && after.retry == network.retry && after.breaker
                == network.breaker && after.deadline == network.deadline && after.order
                == network.order
        }),
        ({
            let after = network.after_wait(progress, now, elapsed).0;
            after.routes == network.routes && after.retry == network.retry && after.breaker
                == network.breaker && after.deadline == network.deadline && after.order
                == network.order
        }),
        ({
            let after = network.after_serving(i);
            after.routes == network.routes && after.retry == network.retry && after.breaker
                == network.breaker && after.deadline == network.deadline && after.order
                == network.order
        }),
{
}

/// A call that failed is noted under the provider and the model of its route, with what the
/// failure says; where it is to be repeated, with which attempt of how many it was and how many
/// milliseconds are waited. It is noted once.
pub proof fn a_failed_call_is_noted(
    network: Network,
    progress: Progress,
    failure: Failure,
    seed: u64,
    now: u64,
    elapsed: nat,
)
    requires
        progress.trying is Some,
        !(failure is Refused),
    ensures
        ({
            let (i, attempt) = progress.trying->0;
            let (_, after, doing) = network.after_call(progress, failure, seed, now, elapsed);
            let at = progress.fell_through.len() as int;
            let way = network.routes[i];
            &&& after.fell_through.len() > at
            &&& after.fell_through.take(at) == progress.fell_through
            &&& after.fell_through[at].route == way.provider + "/"@ + way.model
            &&& doing is Call ==> after.fell_through[at].why == failure.line()
            &&& doing matches Doing::Wait(wait) ==> after.fell_through.len() == at + 1
                && after.fell_through[at].why == failure.line() + " (attempt "@ + decimal(
                attempt as nat,
            ) + " of "@ + decimal(network.allowed() as nat) + ", waiting "@ + decimal(
                wait / 1_000_000,
            ) + "ms)"@
        }),
{
    let (i, attempt) = progress.trying->0;
    let at = progress.fell_through.len() as int;
    let wait = network.wait_after(attempt, failure, seed);
    let entry = Tried {
        route: network.routes[i].name(),
        why: network.failed_line(attempt, failure, wait),
    };
    let more = progress.fell_through.push(entry);
    assert(more.take(at) == progress.fell_through);
    if wait is None {
        let noted = Progress {
            fell_through: more,
            last: Some(failure),
            trying: None,
            ..progress
        };
        let after = network.recorded(i, failure, now);
        no_route_is_passed_over_silently(after, noted, now, elapsed);
        moving_on_never_waits(after, noted, now, elapsed);
        let all = after.advanced(noted, now, elapsed).0.fell_through;
        assert(all.take(at + 1) == more);
        assert(all[at] == all.take(at + 1)[at]);
        assert(all.take(at) == all.take(at + 1).take(at));
    }
}

/// How often a route may be called is what the policy says, and once without one.
pub proof fn attempts_go_by_the_policy(network: Network)
    ensures
        network.retry is None ==> network.allowed() == 1,
        network.retry matches Some(policy) ==> network.allowed() == policy.attempts,
{
}

/// A route is passed over exactly where its provider does not know the model, the model lacks
/// something that is needed, or the route rests; and it says which, the first before the last.
pub proof fn a_route_is_passed_over_for_a_reason(
    network: Network,
    i: int,
    needs: Requirements,
    now: u64,
)
    ensures
        network.routes[i].capabilities is None ==> network.passes(i, needs, now) == Some(
            Passing::Unable("the provider does not know this model"@),
        ),
        network.routes[i].capabilities matches Some(have) ==> (if !needs.is_met(have) {
            network.passes(i, needs, now) == Some(
                Passing::Unable("cannot do "@ + joined(needs.unmet(have), ", "@)),
            )
        } else if network.health[i].closed_until > now {
            network.passes(i, needs, now) == Some(
                Passing::Resting(
                    network.health[i].reason((network.health[i].closed_until - now) as u64),
                ),
            )
        } else {
            network.passes(i, needs, now) is None
        }),
{
    if let Some(have) = network.routes[i].capabilities {
        enough_is_nothing_missing(needs, have);
    }
}

/// A request that ran out of routes is answered with why: that all of those that could serve it
/// rest where one of them does, and that none can serve it otherwise. Either way every route that
/// was passed over is listed.
pub proof fn running_out_of_routes_says_why(progress: Progress)
    requires
        progress.last is None,
    ensures
        progress.resting ==> progress.ended() == Failure::Transient(
            "every route that could serve this is circuit open. Tried: "@ + listed(
                progress.fell_through,
            ),
        ),
        !progress.resting ==> progress.ended() == Failure::Unsupported(
            "no route can serve this request. Tried: "@ + listed(progress.fell_through),
        ),
{
}

/// A list of routes that were passed over names each with why, in brackets behind it, in order
/// and with a semicolon between.
pub proof fn a_listing_names_each_with_why(fell_through: Seq<Tried>, more: Tried)
    ensures
        listed(Seq::<Tried>::empty()) == Seq::<char>::empty(),
        listed(seq![more]) == more.route + " ("@ + more.why + ")"@,
        fell_through.len() > 0 ==> listed(fell_through.push(more)) == listed(fell_through) + "; "@
            + more.route + " ("@ + more.why + ")"@,
{
    let line = |tried: Tried| entry_line(tried);
    assert(Seq::<Tried>::empty().map_values(line) =~= Seq::<Seq<char>>::empty());
    assert(seq![more].map_values(line) =~= seq![entry_line(more)]);
    let all = fell_through.push(more).map_values(line);
    assert(all.drop_last() =~= fell_through.map_values(line));
    if fell_through.len() > 0 {
        assert(all.last() == entry_line(more));
        assert(listed(fell_through) + "; "@ + entry_line(more) =~= listed(fell_through) + "; "@
            + more.route + " ("@ + more.why + ")"@);
    }
    assert(seq![entry_line(more)].drop_last() =~= Seq::<Seq<char>>::empty());
}

/// A router reaches for its routes as they were listed where that is what was asked for, for the
/// one with fewer failures first where that was, and for the one that charges less for input and
/// output together first where that was.
pub proof fn routes_are_reached_for_in_the_order_asked_for(network: Network, a: int, b: int)
    requires
        network.well_formed(),
        0 <= a < b < network.routes.len(),
        forall|i: int|
            0 <= i < network.routes.len() ==> ((#[trigger] network.routes[i]).rate matches Some(
                rate,
            ) ==> i64::MIN <= rate.input.0 + rate.output.0 <= i64::MAX),
    ensures
        ({
            let order = network.reaching();
            let first = network.routes[order[a]];
            let second = network.routes[order[b]];
            &&& order.len() == network.routes.len()
            &&& network.order is AsListed ==> order[a] < order[b]
            &&& network.order is Healthiest ==> {
                ||| network.health[order[a]].consecutive_failures
                    < network.health[order[b]].consecutive_failures
                ||| network.health[order[a]].consecutive_failures
                    == network.health[order[b]].consecutive_failures && order[a] < order[b]
            }
            &&& network.order is Cheapest ==> match (first.rate, second.rate) {
                (Some(one), Some(other)) => one.input.0 + one.output.0 < other.input.0
                    + other.output.0 || (one.input.0 + one.output.0 == other.input.0
                    + other.output.0 && order[a] < order[b]),
                (Some(_), None) => true,
                (None, Some(_)) => false,
                (None, None) => order[a] < order[b],
            }
        }),
{
    let ranks = network.ranks();
    the_order_is_stable(ranks, network.routes.len());
    let order = network.reaching();
    assert(0 <= order[a] < ranks.len() && 0 <= order[b] < ranks.len());
    assert(lower(ranks[order[a]], ranks[order[b]]) || (ranks[order[a]] == ranks[order[b]]
        && order[a] < order[b]));
}

/// A route whose failure names a wait is not called before that time is over, and a route that
/// served a request is remembered for nothing.
pub proof fn a_failing_route_is_left_alone(
    network: Network,
    i: int,
    wait: nat,
    needs: Requirements,
    now: u64,
    then: u64,
)
    requires
        0 <= i < network.health.len(),
        network.breaker is Some,
        now + wait / 1_000_000 <= u64::MAX,
        then < now + wait / 1_000_000,
    ensures
        network.recorded(
            i,
            Failure::RateLimited { retry_after: Some(wait) },
            now,
        ).passes(i, needs, then) is Some,
        network.after_serving(i).health[i].left_at(then) is None,
        network.after_serving(i).health[i].consecutive_failures == 0,
        forall|k: int|
            0 <= k < network.health.len() && k != i ==> #[trigger] network.after_serving(
                i,
            ).health[k] == network.health[k],
{
}

/// A route that is denied before anything is sent rests for the settled wait, and no other is
/// touched.
pub proof fn a_denied_route_rests_for_the_settled_wait(
    network: Network,
    i: int,
    reason: Seq<char>,
    now: u64,
)
    requires
        0 <= i < network.health.len(),
        network.breaker matches Some(breaker) && now + breaker.settled@ / 1_000_000 <= u64::MAX,
    ensures
        ({
            let after = network.heard(i, Answer::Denied(reason), now);
            &&& after.health[i].closed_until == now + network.breaker->0.settled@ / 1_000_000
            &&& after.health[i].consecutive_failures == network.health[i].consecutive_failures
            &&& forall|k: int|
                0 <= k < network.health.len() && k != i ==> #[trigger] after.health[k]
                    == network.health[k]
        }),
{
}

/// The routes that rest are listed, each with how much longer, and no others.
pub proof fn resting_routes_are_listed(network: Network, now: u64, count: nat, i: int)
    requires
        0 <= i < count,
    ensures
        network.health[i].closed_until > now ==> network.resting_at(now, count).contains(
            (
                network.routes[i].name(),
                ((network.health[i].closed_until - now) * 1_000_000) as nat,
            ),
        ),
        (forall|k: int| 0 <= k < count ==> (#[trigger] network.health[k]).closed_until <= now)
            ==> network.resting_at(now, count) == Seq::<(Seq<char>, nat)>::empty(),
    decreases count,
{
    let before = network.resting_at(now, (count - 1) as nat);
    let all = network.resting_at(now, count);
    if i < count - 1 {
        resting_routes_are_listed(network, now, (count - 1) as nat, i);
        if network.health[i].closed_until > now {
            let entry = (
                network.routes[i].name(),
                ((network.health[i].closed_until - now) * 1_000_000) as nat,
            );
            let k = choose|k: int| 0 <= k < before.len() && before[k] == entry;
            assert(all[k] == entry);
        }
    } else {
        if network.health[i].closed_until > now {
            assert(all[before.len() as int] == all.last());
            assert(all.last() == (
                network.routes[i].name(),
                ((network.health[i].closed_until - now) * 1_000_000) as nat,
            ));
        }
        if count > 1 {
            resting_routes_are_listed(network, now, (count - 1) as nat, 0);
        }
    }
}

/// The routes whose provider does not know their model are listed, and no others.
pub proof fn unusable_routes_are_listed(network: Network, count: nat, i: int)
    requires
        0 <= i < count,
    ensures
        network.routes[i].capabilities is None ==> network.unusable_in(count).contains(
            network.routes[i].name(),
        ),
        (forall|k: int| 0 <= k < count ==> (#[trigger] network.routes[k]).capabilities is Some)
            ==> network.unusable_in(count) == Seq::<Seq<char>>::empty(),
    decreases count,
{
    let before = network.unusable_in((count - 1) as nat);
    let all = network.unusable_in(count);
    if i < count - 1 {
        unusable_routes_are_listed(network, (count - 1) as nat, i);
        if network.routes[i].capabilities is None {
            let k = choose|k: int| 0 <= k < before.len() && before[k] == network.routes[i].name();
            assert(all[k] == network.routes[i].name());
        }
    } else {
        if network.routes[i].capabilities is None {
            assert(all[before.len() as int] == network.routes[i].name());
        }
        if count > 1 {
            unusable_routes_are_listed(network, (count - 1) as nat, 0);
        }
    }
}

/// A request starts with nothing tried, nothing noted and no call counted, and with every route
/// ahead of it.
pub proof fn a_request_starts_with_every_route_ahead(
    network: Network,
    request: Asked,
    needs: Requirements,
)
    ensures
        ({
            let start = Progress::start(request, needs, network.reaching());
            &&& start.request == request && start.needs == needs
            &&& start.ahead.len() == network.routes.len() && start.ahead.no_duplicates()
            &&& start.trying is None && start.pending is None && start.last is None
            &&& start.fell_through.len() == 0 && start.attempts == 0 && !start.resting
        }),
{
    the_order_is_stable(network.ranks(), network.routes.len());
}

/// A request ends for want of time exactly where the deadline has come, and says how long it took:
/// without a deadline it never does.
pub proof fn time_runs_out_only_at_the_deadline(
    network: Network,
    progress: Progress,
    now: u64,
    elapsed: nat,
)
    requires
        progress.ahead.len() > 0,
        network.passes(progress.ahead[0], progress.needs, now) is None,
    ensures
        ({
            let (_, doing) = network.advanced(progress, now, elapsed);
            &&& (network.deadline is Some && elapsed >= network.deadline->0) ==> doing
                == Doing::GiveUp(Failure::Timeout { elapsed })
            &&& (network.deadline is None || elapsed < network.deadline->0) ==> doing is Call
                && doing->route == progress.ahead[0]
        }),
        progress.pending is Some ==> ({
            let (_, _, doing) = network.after_wait(progress, now, elapsed);
            &&& (network.deadline is Some && elapsed >= network.deadline->0) ==> doing
                == Doing::GiveUp(Failure::Timeout { elapsed })
            &&& (network.deadline is None || elapsed < network.deadline->0) ==> doing is Call
                && doing->route == (progress.pending->0).0
        }),
{
}

/// Each call is counted, and it is known which route is being called and for which time.
pub proof fn each_call_is_counted(network: Network, progress: Progress, now: u64, elapsed: nat)
    requires
        progress.attempts < u32::MAX,
    ensures
        ({
            let (after, doing) = network.advanced(progress, now, elapsed);
            &&& doing is Call ==> after.attempts == progress.attempts + 1 && after.trying == Some(
                (doing->route, 1u32),
            )
            &&& !(doing is Call) ==> after.attempts == progress.attempts && after.trying is None
            &&& after.request == progress.request
            &&& after.needs == progress.needs
            &&& after.last == progress.last
        }),
        progress.pending is Some ==> ({
            let (_, after, doing) = network.after_wait(progress, now, elapsed);
            &&& doing is Call ==> after.attempts == progress.attempts + 1 && after.trying
                == progress.pending
            &&& !(doing is Call) ==> after.attempts == progress.attempts
            &&& after.pending is None
        }),
    decreases progress.ahead.len(),
{
    if progress.ahead.len() > 0 {
        let i = progress.ahead[0];
        if let Some(passing) = network.passes(i, progress.needs, now) {
            each_call_is_counted(
                network,
                Progress {
                    fell_through: progress.fell_through.push(
                        Tried { route: network.routes[i].name(), why: passing.why() },
                    ),
                    resting: progress.resting || passing is Resting,
                    ahead: progress.ahead.skip(1),
                    trying: None,
                    ..progress
                },
                now,
                elapsed,
            );
        }
    }
}

/// A call that is to be repeated is repeated on its route as the next attempt, after the wait that
/// the policy gives, and its failure is kept; one that is not counts against the route.
pub proof fn a_failure_counts_where_it_is_not_repeated(
    network: Network,
    progress: Progress,
    failure: Failure,
    seed: u64,
    now: u64,
    elapsed: nat,
    other: int,
)
    requires
        network.well_formed(),
        progress.trying is Some,
        0 <= (progress.trying->0).0 < network.routes.len(),
        0 <= other < network.routes.len(),
        other != (progress.trying->0).0,
    ensures
        ({
            let (i, attempt) = progress.trying->0;
            let (after, left, doing) = network.after_call(progress, failure, seed, now, elapsed);
            let failures = network.health[i].consecutive_failures;
            &&& after.health[other] == network.health[other]
            &&& after.health.len() == network.health.len()
            &&& doing is Wait ==> after == network && left.pending == Some(
                (i, (attempt + 1) as u32),
            ) && left.last == Some(failure) && left.trying is None
            &&& doing is Wait ==> network.retry is Some && network.retry->0.waits(
                (attempt + 1) as u32,
                failure,
                seed,
            ) == Some(doing->Wait_0)
            &&& !(doing is Wait) && failures < u32::MAX
                ==> after.health[i].consecutive_failures == failures + 1
        }),
{
    let (i, attempt) = progress.trying->0;
    let wait = network.wait_after(attempt, failure, seed);
    if !(failure is Refused) && wait is None {
        let noted = Progress {
            fell_through: progress.fell_through.push(
                Tried {
                    route: network.routes[i].name(),
                    why: network.failed_line(attempt, failure, wait),
                },
            ),
            last: Some(failure),
            trying: None,
            ..progress
        };
        moving_on_never_waits(network.recorded(i, failure, now), noted, now, elapsed);
    }
}

/// A route that served is as good as new, and no other route changes with it.
pub proof fn a_route_that_served_is_as_good_as_new(network: Network, i: int, other: int)
    requires
        network.well_formed(),
        0 <= i < network.routes.len(),
        0 <= other < network.routes.len(),
        other != i,
    ensures
        network.after_serving(i).health[i].consecutive_failures == 0,
        network.after_serving(i).health[i].left_at(0) is None,
        network.after_serving(i).health[other] == network.health[other],
        network.after_serving(i).routes == network.routes,
{
}

/// What is learned of a model is kept with its route, and nothing else of any route changes.
pub proof fn what_is_learned_is_kept_with_its_route(
    network: Network,
    i: int,
    other: int,
    have: Option<ModelCapabilities>,
)
    requires
        0 <= i < network.routes.len(),
        0 <= other < network.routes.len(),
        other != i,
    ensures
        network.learned(i, have).routes[i].capabilities == have,
        network.learned(i, have).routes[i].provider == network.routes[i].provider,
        network.learned(i, have).routes[i].model == network.routes[i].model,
        network.learned(i, have).routes[i].rate == network.routes[i].rate,
        network.learned(i, have).routes[other] == network.routes[other],
        network.learned(i, have).health == network.health,
{
}

} // verus!
