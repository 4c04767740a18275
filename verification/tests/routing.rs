use llmr::breaker::Breaker;
use llmr::chat::message::Message;
use llmr::chat::request::{ChatRequest, ToolSchema};
use llmr::cost::pricing::{Micros, PriceBook, Rate};
use llmr::error::Error;
use llmr::json::Json;
use llmr::model::{ModelCapabilities, Reach};
use llmr::order::Table;
use llmr::provider::Access;
use llmr::retry::Retry;
use llmr::router::journey::listing;
use llmr::router::{Attempted, Journey, Order, Requirements, Route, Router, Step};
use llmr::time::Duration;
use std::sync::Arc;

fn hosted() -> ModelCapabilities {
    ModelCapabilities::none(Reach::FirstPartyApi).with_tools()
}

fn local() -> ModelCapabilities {
    ModelCapabilities::none(Reach::SelfHosted)
}

fn route(provider: &str, have: ModelCapabilities) -> Route {
    Route::new(provider, format!("{provider}-model").into(), Some(have))
}

fn request() -> ChatRequest {
    ChatRequest::new("", vec![Message::user("Summarise this.")])
}

fn costing(input: i64, output: i64) -> Arc<PriceBook> {
    let mut rates = Table::new();
    for model in ["a-model", "b-model", "c-model", "d-model"] {
        rates.insert(
            model.to_string(),
            Rate {
                input: Micros(input),
                output: Micros(output),
                ..Rate::default()
            },
        );
    }
    Arc::new(PriceBook {
        id: "b".into(),
        provider: "p".into(),
        effective_from: "2026-01-01".into(),
        source: "a published page".into(),
        verified_at: "2026-01-01".into(),
        expires_on: None,
        currency: "USD".into(),
        rates,
    })
}

/// Which route a step calls.
fn called(step: &Step) -> Option<usize> {
    match step {
        Step::Call { route, .. } => Some(*route),
        Step::Wait(_) | Step::GiveUp(_) => None,
    }
}

fn first_step(router: &Router, needs: Requirements) -> (Journey, Step) {
    let mut journey = router.set_out(request(), needs);
    let step = router.advance(&mut journey, 0, &Duration::zero());
    (journey, step)
}

#[test]
fn enough_is_exactly_nothing_missing() {
    let asked = request().with_tools(vec![ToolSchema::new("t", "d", Json::object())]);
    let needs = Requirements::of(&asked).on_device().streaming();
    assert!(!needs.met_by(&local()));
    assert_eq!(
        needs.unmet_by(&local()),
        vec!["tools", "streaming"]
    );
    assert_eq!(
        needs.unmet_by(&hosted()),
        vec!["on-device", "streaming"]
    );
    let able = local().with_tools().with_streaming();
    assert!(needs.met_by(&able));
    assert!(needs.unmet_by(&able).is_empty());
    assert_eq!(Requirements::of(&request()), Requirements::default());
}

#[test]
fn the_first_route_that_fits_is_called_with_its_own_model() {
    let mut router = Router::new(vec![route("a", local()), route("b", hosted())]);
    let (journey, step) = first_step(&router, Requirements::default());
    match &step {
        Step::Call { route, request } => {
            assert_eq!(*route, 0);
            assert_eq!(request.model.as_str(), "a-model");
            assert_eq!(request.messages, vec![Message::user("Summarise this.")]);
        }
        other => panic!("{other:?}"),
    }
    let routed = router.served(journey);
    assert_eq!(routed.route, "a/a-model");
    assert!(routed.fell_through.is_empty());
    assert_eq!(routed.attempts, 1);
    let carried = routed.carrying("the reply");
    assert_eq!(carried.response, "the reply");
    assert_eq!(carried.route, "a/a-model");
}

#[test]
fn a_route_that_cannot_serve_is_passed_over_and_said_to_have_been() {
    let mut router = Router::new(vec![
        Route::new("x", "typo".into(), None),
        route("a", local()),
        route("b", hosted()),
    ]);
    let needs = Requirements {
        tools: true,
        ..Requirements::default()
    };
    let (journey, step) = first_step(&router, needs);
    assert_eq!(called(&step), Some(2));
    let routed = router.served(journey);
    let why: Vec<_> = routed
        .fell_through
        .iter()
        .map(|a| (a.route.as_str(), a.why.as_str()))
        .collect();
    assert_eq!(
        why,
        vec![
            ("x/typo", "the provider does not know this model"),
            ("a/a-model", "cannot do tools"),
        ]
    );
    assert_eq!(router.unusable(), vec!["x/typo"]);
    assert_eq!(router.routes().len(), 3);
    assert_eq!(router.routes()[1], ("a/a-model".to_string(), Some(local())));
}

#[test]
fn a_privacy_floor_is_a_floor() {
    let mut router = Router::new(vec![route("a", local()), route("b", hosted())]);
    let (mut journey, step) = first_step(&router, Requirements::default().on_device());
    assert_eq!(called(&step), Some(0));
    let step = router.failed(
        &mut journey,
        Error::Transient("down".into()),
        0,
        &Duration::zero(),
    );
    // The hosted route is never called, even when the local one is down.
    assert_eq!(step, Step::GiveUp(Error::Transient("down".into())));

    let hosted_only = Router::new(vec![route("b", hosted())]);
    let (_, step) = first_step(&hosted_only, Requirements::default().on_device());
    assert_eq!(
        step,
        Step::GiveUp(Error::Unsupported(
            "no route can serve this request. Tried: b/b-model (cannot do on-device)".into()
        ))
    );
}

#[test]
fn a_refusal_stops_everything_retries_and_all() {
    let mut router = Router::new(vec![route("a", hosted()), route("b", hosted())])
        .retrying(Retry::new(5))
        .breaking(Breaker::default());
    let (mut journey, _) = first_step(&router, Requirements::default());
    let refusal = Error::Refused {
        category: Some("policy".into()),
    };
    let step = router.failed(&mut journey, refusal.copied(), 0, &Duration::zero());
    assert_eq!(step, Step::GiveUp(refusal));
    assert!(router.resting(0).is_empty(), "it opens no circuit");
}

#[test]
fn a_failure_falls_through_to_the_next_route() {
    let mut router = Router::new(vec![route("a", hosted()), route("b", hosted())]);
    let (mut journey, _) = first_step(&router, Requirements::default());
    let step = router.failed(
        &mut journey,
        Error::Auth("401".into()),
        0,
        &Duration::zero(),
    );
    assert_eq!(called(&step), Some(1));
    assert_eq!(
        journey.fell_through()[0],
        Attempted {
            route: "a/a-model".into(),
            why: "authentication failed: 401".into()
        }
    );
    assert_eq!(journey.attempts(), 2);
    let step = router.failed(
        &mut journey,
        Error::NotFound("gone".into()),
        0,
        &Duration::zero(),
    );
    // The last error rather than a summary.
    assert_eq!(step, Step::GiveUp(Error::NotFound("gone".into())));
}

#[test]
fn a_retry_stays_on_its_route_and_leaves_a_line() {
    let mut router =
        Router::new(vec![route("a", hosted()), route("b", hosted())]).retrying(Retry::new(2));
    let (mut journey, _) = first_step(&router, Requirements::default());
    let limited = Error::RateLimited {
        retry_after: Some(Duration::from_secs(3)),
    };
    let step = router.failed_from(&mut journey, limited, 0, 0, &Duration::zero());
    assert_eq!(step, Step::Wait(Duration::from_secs(3)));
    assert_eq!(journey.attempts(), 1, "nothing is counted that was not called");
    assert_eq!(journey.pending(), Some((0, 2)));
    match router.resume(&mut journey, 3_000, &Duration::from_secs(3)) {
        Step::Call { route, request } => {
            assert_eq!(route, 0);
            assert_eq!(request.model.as_str(), "a-model");
        }
        other => panic!("{other:?}"),
    }
    assert_eq!(
        journey.fell_through()[0].why,
        "rate limited, retry after 3000ms (attempt 1 of 2, waiting 3000ms)"
    );
    let routed = router.served(journey);
    assert_eq!(routed.attempts, 2);
    assert_eq!(routed.route, "a/a-model");
}

#[test]
fn attempts_run_out_and_then_the_next_route_is_called() {
    let mut router =
        Router::new(vec![route("a", hosted()), route("b", hosted())]).retrying(Retry::new(2));
    let (mut journey, _) = first_step(&router, Requirements::default());
    let down = || Error::Transient("503".into());
    let step = router.failed(&mut journey, down(), 0, &Duration::zero());
    assert!(matches!(step, Step::Wait(_)));
    let step = router.resume(&mut journey, 0, &Duration::zero());
    assert!(matches!(step, Step::Call { route: 0, .. }));
    let step = router.failed(&mut journey, down(), 0, &Duration::zero());
    assert!(matches!(step, Step::Call { route: 1, .. }));
    let step = router.failed(&mut journey, down(), 0, &Duration::zero());
    assert!(matches!(step, Step::Wait(_)));
    let step = router.resume(&mut journey, 0, &Duration::zero());
    assert!(matches!(step, Step::Call { route: 1, .. }));
    let step = router.failed(&mut journey, down(), 0, &Duration::zero());
    assert_eq!(step, Step::GiveUp(down()));
    assert_eq!(journey.attempts(), 4);
}

#[test]
fn a_failing_route_is_skipped_for_a_while_and_then_tried_again() {
    let mut router = Router::new(vec![route("a", hosted()), route("b", hosted())])
        .breaking(Breaker::default());
    let (mut journey, _) = first_step(&router, Requirements::default());
    router.failed(
        &mut journey,
        Error::Transient("503".into()),
        1_000,
        &Duration::zero(),
    );
    router.served(journey);
    assert_eq!(
        router.resting(1_500),
        vec![("a/a-model".to_string(), Duration::from_millis(500))]
    );

    let mut journey = router.set_out(request(), Requirements::default());
    let step = router.advance(&mut journey, 1_500, &Duration::zero());
    assert_eq!(called(&step), Some(1));
    assert_eq!(
        journey.fell_through()[0].why,
        "circuit open for another 500ms, failures in a row: 1"
    );

    let mut journey = router.set_out(request(), Requirements::default());
    let step = router.advance(&mut journey, 2_000, &Duration::zero());
    assert_eq!(called(&step), Some(0), "time reopens a circuit");
    router.served(journey);
    assert!(router.resting(2_000).is_empty());
}

#[test]
fn when_everything_able_rests_the_answer_is_to_wait() {
    let mut router = Router::new(vec![route("a", hosted())]).breaking(Breaker::default());
    router.heard(0, &Access::denied("no key"), 0);
    let (_, step) = first_step(&router, Requirements::default());
    assert_eq!(
        step,
        Step::GiveUp(Error::Transient(
            "every route that could serve this is circuit open. Tried: a/a-model (denied at preflight, resting for another 300000ms)".into()
        ))
    );
}

#[test]
fn only_a_denial_at_preflight_rests_a_route() {
    let mut router =
        Router::new(vec![route("a", hosted()), route("b", hosted())]).breaking(Breaker::default());
    assert_eq!(
        router.heard(0, &Access::unknown("the network was down"), 0),
        "a/a-model"
    );
    router.heard(1, &Access::Ready, 0);
    assert!(router.resting(0).is_empty());
    router.heard(1, &Access::denied("no"), 0);
    assert_eq!(
        router.resting(0),
        vec![("b/b-model".to_string(), Duration::from_secs(300))]
    );
    let mut unbroken = Router::new(vec![route("a", hosted())]);
    unbroken.heard(0, &Access::denied("no"), 0);
    assert!(unbroken.resting(0).is_empty());
}

#[test]
fn the_deadline_stops_new_calls_and_long_waits() {
    let router = Router::new(vec![route("a", hosted())]).within_deadline(Duration::from_secs(20));
    let mut journey = router.set_out(request(), Requirements::default());
    let step = router.advance(&mut journey, 0, &Duration::from_secs(20));
    assert_eq!(
        step,
        Step::GiveUp(Error::Timeout {
            elapsed: Duration::from_secs(20)
        })
    );

    let mut router = router.retrying(Retry::new(3));
    let limited = |secs| Error::RateLimited {
        retry_after: Some(Duration::from_secs(secs)),
    };
    let (mut journey, _) = first_step(&router, Requirements::default());
    let step = router.failed(&mut journey, limited(9), 0, &Duration::from_secs(10));
    assert!(matches!(step, Step::Wait(_)), "any time left will do");
    let step = router.resume(&mut journey, 0, &Duration::from_millis(19_999));
    assert!(matches!(step, Step::Call { .. }));
    let step = router.failed(&mut journey, limited(9), 0, &Duration::from_secs(11));
    assert_eq!(
        step,
        Step::GiveUp(Error::Timeout {
            elapsed: Duration::from_secs(11)
        })
    );
}

#[test]
fn a_wait_that_took_too_long_is_not_followed_by_a_call() {
    let mut router = Router::new(vec![route("a", hosted()), route("b", hosted())])
        .within_deadline(Duration::from_secs(20))
        .retrying(Retry::new(3))
        .breaking(Breaker::default());
    let (mut journey, _) = first_step(&router, Requirements::default());
    let step = router.failed(
        &mut journey,
        Error::Transient("503".into()),
        0,
        &Duration::zero(),
    );
    assert!(matches!(step, Step::Wait(_)));
    assert!(router.resting(0).is_empty(), "not judged yet");
    let step = router.resume(&mut journey, 20_000, &Duration::from_secs(20));
    assert_eq!(
        step,
        Step::GiveUp(Error::Timeout {
            elapsed: Duration::from_secs(20)
        })
    );
    assert_eq!(
        router.resting(20_000),
        vec![("a/a-model".to_string(), Duration::from_secs(1))]
    );
}

#[test]
fn the_cheapest_comes_first_and_the_unpriced_last() {
    let router = Router::new(vec![
        route("a", hosted()),
        route("b", hosted()).priced_by(costing(3_000_000, 15_000_000)),
        route("c", hosted()).priced_by(costing(1_000_000, 2_000_000)),
        route("d", hosted()).priced_by(costing(2_000_000, 1_000_000)),
        route("e", hosted()).priced_by(costing(1, 1)),
    ])
    .ordering(Order::Cheapest);
    // The book of the last does not list its model, so it is unpriced rather than cheap, and the
    // two that cost the same keep their order.
    assert_eq!(router.reaching_order(), vec![2, 3, 1, 0, 4]);
}

#[test]
fn the_healthiest_comes_first_and_ties_keep_their_order() {
    let mut router = Router::new(vec![
        route("a", hosted()),
        route("b", hosted()),
        route("c", hosted()),
    ])
    .ordering(Order::Healthiest);
    assert_eq!(router.reaching_order(), vec![0, 1, 2]);
    let (mut journey, _) = first_step(&router, Requirements::default());
    let step = router.failed(
        &mut journey,
        Error::Transient("503".into()),
        0,
        &Duration::zero(),
    );
    assert_eq!(called(&step), Some(1));
    router.served(journey);
    // Counted without a breaker too.
    assert_eq!(router.reaching_order(), vec![1, 2, 0]);
}

#[test]
fn what_was_tried_is_one_line() {
    let tried = vec![
        Attempted {
            route: "a/m".into(),
            why: "down".into(),
        },
        Attempted {
            route: "b/m".into(),
            why: "cannot do tools".into(),
        },
    ];
    assert_eq!(listing(&tried), "a/m (down); b/m (cannot do tools)");
    assert_eq!(listing(&vec![]), "");
}

#[test]
fn a_router_without_routes_serves_nothing() {
    let router = Router::new(vec![]);
    let (_, step) = first_step(&router, Requirements::default());
    assert_eq!(
        step,
        Step::GiveUp(Error::Unsupported(
            "no route can serve this request. Tried: ".into()
        ))
    );
}

#[test]
fn what_a_provider_says_now_is_what_counts() {
    let mut router = Router::new(vec![route("a", local()), route("b", hosted())]);
    router.learn(0, None);
    assert_eq!(router.unusable(), vec!["a/a-model".to_string()]);
    let (_, step) = first_step(&router, Requirements::default());
    assert_eq!(called(&step), Some(1));
    router.learn(0, Some(local()));
    assert!(router.unusable().is_empty());
    let (_, step) = first_step(&router, Requirements::default());
    assert_eq!(called(&step), Some(0));
}
