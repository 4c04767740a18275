use llmr::breaker::{Breaker, Health};
use llmr::error::Error;
use llmr::time::Duration;

#[test]
fn a_failure_about_the_request_never_opens_the_circuit() {
    // The distinction the whole type rests on. A refusal is the model answering about the
    // work, and a malformed request will be malformed on the next route too.
    let breaker = Breaker::default();
    assert_eq!(
        breaker.opening_for(5, &Error::Refused { category: None }),
        None
    );
    assert_eq!(
        breaker.opening_for(5, &Error::InvalidRequest("bad".into())),
        None
    );
    assert_eq!(
        breaker.opening_for(5, &Error::Unsupported("no tools".into())),
        None
    );
    assert_eq!(
        breaker.opening_for(5, &Error::Unreadable("no content".into())),
        None
    );
}

#[test]
fn a_rejected_credential_is_left_alone_for_a_long_time() {
    let breaker = Breaker::default();
    assert_eq!(
        breaker.opening_for(1, &Error::Auth("401".into())),
        Some(breaker.settled)
    );
    assert_eq!(
        breaker.opening_for(9, &Error::Auth("401".into())),
        Some(breaker.settled),
        "and it does not grow: it was already settled the first time"
    );
    assert_eq!(
        breaker.opening_for(1, &Error::NotFound("404".into())),
        Some(Duration::from_secs(300))
    );
}

#[test]
fn a_rate_limit_is_honoured_exactly_rather_than_guessed_at() {
    let breaker = Breaker::default();
    let told = Error::RateLimited {
        retry_after: Some(Duration::from_secs(90)),
    };
    assert_eq!(breaker.opening_for(1, &told), Some(Duration::from_secs(90)));
    assert!(Duration::from_secs(90) > breaker.longest);

    let untold = Error::RateLimited { retry_after: None };
    assert_eq!(breaker.opening_for(1, &untold), Some(breaker.first));
}

#[test]
fn the_backoff_doubles_and_then_stops() {
    let breaker = Breaker::default();
    let down = Error::Transient("503".into());
    let wait = |n| breaker.opening_for(n, &down);

    assert_eq!(wait(1), Some(Duration::from_secs(1)));
    assert_eq!(wait(2), Some(Duration::from_secs(2)));
    assert_eq!(wait(4), Some(Duration::from_secs(8)));
    assert_eq!(
        wait(1_000_000),
        Some(breaker.longest),
        "a provider down for an hour is still re-checked every minute"
    );
}

#[test]
fn the_wait_is_no_shorter_after_one_more_failure() {
    let breaker = Breaker::new(
        Duration::from_millis(3),
        Duration::from_secs(40),
        Duration::from_secs(1),
    );
    let down = Error::Timeout {
        elapsed: Duration::from_secs(1),
    };
    let mut before = Duration::zero();
    for n in 0..80 {
        let wait = breaker.opening_for(n, &down).unwrap();
        assert!(wait >= before, "{n}: {wait:?}");
        before = wait;
    }
    assert_eq!(before, Duration::from_secs(40));
}

#[test]
fn a_route_that_answers_forgets_everything_it_was_holding() {
    // Not just the timer. Leaving the count would make the next failure back off as though
    // the run of successes in between had not happened.
    let now = 0;
    let mut health = Health::default();
    let breaker = Breaker::default();

    health.failed(&breaker, &Error::Transient("503".into()), now);
    health.failed(&breaker, &Error::Transient("503".into()), now);
    assert_eq!(health.failures(), 2);
    assert!(health.closed_for(now).is_some());

    health.served();
    assert_eq!(health.failures(), 0);
    assert_eq!(health.closed_for(now), None);
}

#[test]
fn a_failure_that_does_not_open_the_circuit_still_leaves_the_route_usable() {
    let now = 0;
    let mut health = Health::default();

    assert_eq!(
        health.failed(&Breaker::default(), &Error::Refused { category: None }, now),
        None
    );
    assert_eq!(health.closed_for(now), None, "still selectable");
}

#[test]
fn a_closed_circuit_opens_again_on_its_own() {
    let now = 0;
    let mut health = Health::default();
    health.close_for(Duration::from_millis(0), now);

    // Zero is the smallest wait, and it has already passed. The point is that nothing has to
    // call anything to reopen a circuit: time does it.
    assert_eq!(health.closed_for(now), None);

    health.close_for(Duration::from_secs(2), 1_000);
    assert_eq!(health.closed_for(1_000), Some(Duration::from_secs(2)));
    assert_eq!(health.closed_for(2_999), Some(Duration::from_millis(1)));
    assert_eq!(health.closed_for(3_000), None);
}

#[test]
fn a_resting_route_says_why() {
    let mut health = Health::default();
    health.close_for(Duration::from_secs(2), 0);
    assert_eq!(
        health.why(&Duration::from_secs(2)),
        "denied at preflight, resting for another 2000ms"
    );
    health.count_failure();
    health.count_failure();
    assert_eq!(
        health.why(&Duration::from_millis(1_500)),
        "circuit open for another 1500ms, failures in a row: 2"
    );
}

#[test]
fn a_wait_beyond_the_clock_never_ends() {
    let mut health = Health::default();
    health.close_for(Duration::from_secs(u64::MAX), 7);
    assert_eq!(health.closed_until, u64::MAX);
}
