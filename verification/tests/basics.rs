use llmr::error::Error;
use llmr::model::{ModelId, Reach};
use llmr::provider::{doubt_or_refusal, never_asked, no_catalogue, replay, replay_events, Access};
use llmr::registry::Registry;
use llmr::retry::{scatter, seed, Retry};
use llmr::secret::Secret;
use llmr::time::Duration;
use llmr::transport::{read_retry_after, HttpRequest, HttpResponse, Method};
use llmr::chat::message::{ContentBlock, Message, Role, StopReason};
use llmr::chat::response::ChatResponse;
use llmr::chat::stream::{Event, Transcript};
use llmr::cost::usage::Usage;
use llmr::json::Json;

#[test]
fn error_a_bad_credential_is_never_retried() {
    assert!(!Error::Auth("no key".into()).is_retryable());
}

#[test]
fn a_refusal_is_an_answer_rather_than_a_failure_to_retry() {
    assert!(!Error::Refused { category: None }.is_retryable());
}

#[test]
fn an_unreadable_reply_is_not_retried_either() {
    // The provider answered. Asking again gets the same body it could not parse.
    assert!(!Error::Unreadable("missing content".into()).is_retryable());
}

#[test]
fn a_rate_limit_carries_the_wait_the_provider_asked_for() {
    let limited = Error::RateLimited {
        retry_after: Some(Duration::from_secs(30)),
    };
    assert!(limited.is_retryable());
    assert_eq!(limited.retry_after(), Some(Duration::from_secs(30)));
    assert!(limited.to_string().contains("30000ms"));
}

#[test]
fn every_failure_has_its_line() {
    let lines = [
        (Error::Unsupported("a".into()), "unsupported: a"),
        (Error::Auth("b".into()), "authentication failed: b"),
        (Error::NotFound("c".into()), "not found: c"),
        (Error::InvalidRequest("d".into()), "invalid request: d"),
        (Error::RateLimited { retry_after: None }, "rate limited"),
        (
            Error::Timeout {
                elapsed: Duration::from_millis(1_500),
            },
            "timed out after 1500ms",
        ),
        (Error::Refused { category: None }, "the model declined"),
        (
            Error::Refused {
                category: Some("harm".into()),
            },
            "the model declined: harm",
        ),
        (Error::Transient("e".into()), "transient: e"),
        (
            Error::Unreadable("f".into()),
            "the provider replied and the reply could not be read: f",
        ),
    ];
    for (error, line) in lines {
        assert_eq!(error.to_string(), line);
        assert_eq!(error.copied(), error);
    }
}

#[test]
fn a_local_cli_keeps_the_key_and_still_sends_the_data_away() {
    assert!(Reach::LocalCli.uses_local_credential());
    assert!(!Reach::LocalCli.is_on_device());
}

#[test]
fn only_self_hosted_keeps_the_data() {
    for reach in Reach::ALL {
        assert_eq!(reach.is_on_device(), reach == Reach::SelfHosted);
    }
}

#[test]
fn every_reach_reads_back_from_how_it_is_written() {
    for reach in Reach::ALL {
        assert_eq!(Reach::parse(reach.as_str()), Some(reach));
    }
}

#[test]
fn configuration_may_spell_it_either_way() {
    assert_eq!(Reach::parse("local_cli"), Some(Reach::LocalCli));
    assert_eq!(Reach::parse("  Local-CLI "), Some(Reach::LocalCli));
    assert_eq!(Reach::parse("cli"), Some(Reach::LocalCli));
}

#[test]
fn a_reach_this_crate_does_not_know_is_none_rather_than_a_default() {
    assert_eq!(Reach::parse("carrier-pigeon"), None);
}

#[test]
fn a_provider_with_nothing_to_ask_answers_unknown_rather_than_denied() {
    // The difference is what a caller does next. Denied means stop and fix something, and a
    // provider that was never asked has not earned that answer.
    let access = never_asked("bare");
    assert!(access.is_unknown(), "{access:?}");
    assert!(!access.is_denied());
    assert_eq!(access.detail().map(|d| d.contains("bare")), Some(true));
    assert_eq!(no_catalogue("bare"), "bare has no model catalogue");
}

#[test]
fn denied_is_not_merely_the_absence_of_ready() {
    // A caller reading `!is_ready()` as a refusal would drop a provider that was only
    // unreachable for a minute, so the three answers stay three.
    let unknown = Access::unknown("the network was down");
    assert!(!unknown.is_ready());
    assert!(!unknown.is_denied());
    assert!(unknown.is_unknown());

    let denied = Access::denied("the key was rejected");
    assert!(!denied.is_ready());
    assert!(denied.is_denied());
    assert!(!denied.is_unknown());
}

#[test]
fn ready_carries_no_detail_and_the_other_two_do() {
    assert_eq!(Access::Ready.detail(), None);
    assert_eq!(
        Access::denied("no entitlement").detail(),
        Some("no entitlement")
    );
    assert_eq!(Access::unknown("timed out").detail(), Some("timed out"));
}

#[test]
fn every_answer_has_one_spelling() {
    // Two reports that spell a denied route differently cannot be compared, which is the same
    // reason `Reach` has an `as_str`.
    assert_eq!(Access::Ready.as_str(), "ready");
    assert_eq!(Access::denied("x").as_str(), "denied");
    assert_eq!(Access::unknown("x").as_str(), "unknown");
}

#[test]
fn what_was_said_reaches_the_line_somebody_reads() {
    assert_eq!(Access::Ready.to_string(), "ready");
    assert_eq!(
        Access::denied("the key was rejected").to_string(),
        "denied: the key was rejected"
    );
    assert_eq!(
        Access::unknown("503 from the vendor").to_string(),
        "unknown: 503 from the vendor"
    );
}

#[test]
fn a_failed_check_is_settled_only_where_a_person_has_to_act() {
    assert_eq!(
        doubt_or_refusal("x", &Error::Auth("no".into())),
        Access::denied("x: no")
    );
    assert_eq!(
        doubt_or_refusal("x", &Error::NotFound("gone".into())),
        Access::denied("x: gone")
    );
    assert_eq!(
        doubt_or_refusal("x", &Error::Transient("503".into())),
        Access::unknown("x: transient: 503")
    );
}

/// A reply carrying one of everything a model can produce.
fn rich_reply() -> ChatResponse {
    ChatResponse::new(
        Message {
            role: Role::Assistant,
            content: vec![
                ContentBlock::Thinking {
                    text: "working".into(),
                    signature: Some("sig".into()),
                },
                ContentBlock::Text("Four.".into()),
                ContentBlock::ToolUse {
                    id: "call_1".into(),
                    name: "search".into(),
                    input: Json::object().with("q", Json::text("rust")),
                },
                ContentBlock::Opaque {
                    kind: "redacted_thinking".into(),
                    raw: Json::object()
                        .with("type", Json::text("redacted_thinking"))
                        .with("data", Json::text("x")),
                },
            ],
        },
        StopReason::ToolUse,
        Usage::absent().with_input(10).with_output(7),
        "m".into(),
    )
}

#[test]
fn a_reply_broken_into_events_folds_back_into_itself() {
    // What makes the default stream an answer rather than an approximation. If this drifts, a
    // caller who switches to streaming gets a different reply for the same question and nothing
    // tells them.
    let reply = rich_reply();

    let mut transcript = Transcript::new("m");
    transcript.push(Event::Started {
        model: reply.model.clone(),
    });
    for event in replay(&reply) {
        transcript.push(event);
    }
    transcript.push(Event::Stopped {
        reason: reply.stop_reason,
        details: reply.stop_details.clone(),
    });
    transcript.push(Event::Metered(reply.usage));

    let assembled = transcript.finish();
    assert_eq!(assembled.message, reply.message);
    assert_eq!(assembled.stop_reason, reply.stop_reason);
    assert_eq!(assembled.usage, reply.usage);
    assert_eq!(assembled.model, reply.model);

    let mut burst = Transcript::new("another");
    for event in replay_events(&reply) {
        burst.push(event);
    }
    assert_eq!(burst.finish(), reply);
}

#[test]
fn a_tool_result_never_becomes_an_event() {
    // It is the caller's, not the model's. One replayed here would assemble into a message the
    // provider never sent.
    let reply = ChatResponse::new(
        Message {
            role: Role::Assistant,
            content: vec![ContentBlock::ToolResult {
                tool_use_id: "call_1".into(),
                content: "42".into(),
                is_error: false,
            }],
        },
        StopReason::EndTurn,
        Usage::absent(),
        "m".into(),
    );
    assert!(replay(&reply).is_empty());
}

const ONE_ROW: &str = r#"
provider = "test"
reach = "FirstPartyApi"

[[model]]
id = "test-model"
context_window = 200000
max_output = 8192
tools = true
thinking = true
source = "docs"
verified_at = "2026-08-28"
"#;

#[test]
fn a_row_reads_back_as_capabilities_for_the_tables_reach() {
    let registry = Registry::parse(ONE_ROW).unwrap_or(Registry::empty("x", Reach::LocalCli));
    let caps = registry.capabilities(&"test-model".into());
    assert_eq!(caps.map(|c| c.reach), Some(Reach::FirstPartyApi));
    assert_eq!(caps.map(|c| c.tools), Some(true));
    assert_eq!(caps.map(|c| c.structured_output), Some(false));
    assert_eq!(caps.map(|c| c.context_window), Some(200_000));
}

#[test]
fn a_model_the_table_does_not_have_is_none() {
    let registry = Registry::parse(ONE_ROW).unwrap_or(Registry::empty("x", Reach::LocalCli));
    assert_eq!(registry.capabilities(&"nothing".into()), None);
}

#[test]
fn a_duplicate_row_is_refused_rather_than_overwritten() {
    let doubled = format!(
        "{ONE_ROW}\n{}",
        ONE_ROW
            .split_once("\n[[model]]")
            .map(|(_, rest)| format!("[[model]]{rest}"))
            .unwrap_or_default()
    );
    let refused = Registry::parse(&doubled);
    assert!(refused.is_err(), "one row silently replaced the other");
}

#[test]
fn a_row_with_no_provenance_is_refused() {
    let anonymous = ONE_ROW.replace("source = \"docs\"", "source = \"\"");
    assert!(Registry::parse(&anonymous).is_err());
}

#[test]
fn a_table_reports_what_the_vendor_stopped_serving() {
    let registry = Registry::parse(ONE_ROW).unwrap_or(Registry::empty("x", Reach::LocalCli));
    assert_eq!(registry.stale(&[]), vec!["test-model"]);
    assert_eq!(registry.stale(&["test-model".into()]), Vec::<&str>::new());
}

#[test]
fn a_table_reports_what_the_vendor_added() {
    let registry = Registry::parse(ONE_ROW).unwrap_or(Registry::empty("x", Reach::LocalCli));
    let served = vec![ModelId::from("test-model"), ModelId::from("brand-new")];
    assert_eq!(
        registry.unlisted(&served),
        vec![&ModelId::from("brand-new")]
    );
}

#[test]
fn an_empty_registry_answers_nothing_rather_than_guessing() {
    let empty = Registry::empty("test", Reach::LocalCli);
    assert_eq!(empty.capabilities(&"anything".into()), None);
    assert!(empty.ids().is_empty());
}

fn policy(attempts: u32) -> Retry {
    Retry::new(attempts)
}

#[test]
fn the_wait_a_provider_named_is_used_exactly() {
    // Not doubled, not jittered, not capped. The provider is saying when the limit clears, and a
    // local timer that fires sooner earns another 429.
    let named = Error::RateLimited {
        retry_after: Some(Duration::from_secs(90)),
    };
    let policy = policy(5).with_ceiling(Duration::from_secs(2));
    assert_eq!(policy.wait_before(2, &named), Some(Duration::from_secs(90)));
}

#[test]
fn the_four_settled_failures_are_never_repeated() {
    // Each returns the same answer the second time.
    let policy = policy(5);
    for settled in [
        Error::Auth("rejected".into()),
        Error::InvalidRequest("malformed".into()),
        Error::Refused { category: None },
        Error::Unreadable("no content".into()),
    ] {
        assert_eq!(
            policy.wait_before(2, &settled),
            None,
            "{settled:?} must never be retried"
        );
    }
}

#[test]
fn a_timeout_is_left_alone_unless_you_ask_for_it() {
    // The deadline passed; the work may not have. Repeating it can buy two answers to one
    // question, and only the caller knows whether that is acceptable.
    let timed_out = Error::Timeout {
        elapsed: Duration::from_secs(60),
    };
    assert_eq!(policy(5).wait_before(2, &timed_out), None);
    assert!(policy(5)
        .repeating_timeouts()
        .wait_before(2, &timed_out)
        .is_some());
}

#[test]
fn attempts_run_out() {
    let policy = policy(3);
    let transient = Error::Transient("503".into());
    assert!(policy.wait_before(2, &transient).is_some());
    assert!(policy.wait_before(3, &transient).is_some());
    assert_eq!(policy.wait_before(4, &transient), None, "three means three");
}

#[test]
fn one_attempt_is_a_policy_that_never_retries() {
    assert_eq!(
        policy(1).wait_before(2, &Error::Transient("503".into())),
        None
    );
    // And zero is read as one rather than as a call that never happens.
    assert_eq!(policy(0).attempts(), 1);
}

#[test]
fn the_computed_wait_doubles_and_then_stops_at_the_ceiling() {
    let policy = policy(9)
        .with_base(Duration::from_millis(100))
        .with_ceiling(Duration::from_millis(800));
    let transient = Error::Transient("503".into());

    let wait = |n| {
        policy
            .wait_before(n, &transient)
            .unwrap_or_default()
            .as_millis()
    };

    // Equal jitter: never below half the computed wait, never above it.
    assert!((50..=100).contains(&wait(2)), "{}", wait(2));
    assert!((100..=200).contains(&wait(3)), "{}", wait(3));
    assert!((200..=400).contains(&wait(4)), "{}", wait(4));
    for n in 6..9 {
        assert!((400..=800).contains(&wait(n)), "attempt {n}: {}", wait(n));
    }
}

#[test]
fn jitter_does_not_return_the_same_number_every_time() {
    // Two callers that failed together must not come back together. A fixed backoff is how a
    // provider recovering from a fault gets knocked over by everyone at once.
    let policy = policy(9).with_base(Duration::from_secs(4));
    let transient = Error::Transient("503".into());
    let seen: std::collections::HashSet<_> =
        (0..64).map(|_| policy.wait_before(2, &transient)).collect();
    assert!(seen.len() > 1, "every wait was identical: {seen:?}");
}

#[test]
fn a_wait_is_a_function_of_where_it_starts() {
    let policy = policy(9);
    let transient = Error::Transient("503".into());
    assert_eq!(
        policy.wait_from(2, &transient, 0),
        Some(Duration::from_millis(125))
    );
    assert_eq!(
        policy.wait_from(5, &transient, 77),
        policy.wait_from(5, &transient, 77)
    );
    assert_eq!(scatter(0, 99), 0);
    assert_eq!(scatter(10, 0), 0);
    assert!(scatter(10, 0x1234_5678_9abc_def0) <= 10);
    assert_eq!(seed(None), 0x2545_F491_4F6C_DD1D);
    assert_eq!(seed(Some((0, 17))), 17);
}

#[test]
fn debug_and_display_never_carry_the_value() {
    let key = Secret::new("api-key", "sk-super-secret");
    assert!(!key.to_debug().contains("secret"));
    assert!(!key.to_string().contains("secret"));
    assert_eq!(key.to_string(), "[api-key redacted]");
    assert_eq!(key.to_debug(), "Secret(api-key)");
    assert_eq!(key.expose_str().as_deref(), Some("sk-super-secret"));
}

#[test]
fn an_unset_variable_reads_as_an_authentication_problem() {
    let missing = Secret::from_variable("api-key", "LLMR_TEST_DEFINITELY_UNSET", None);
    assert!(matches!(missing, Err(Error::Auth(_))));
    let blank = Secret::from_variable("api-key", "LLMR_TEST_BLANK", Some("  \n"));
    assert!(matches!(blank, Err(Error::Auth(_))));
    let set = Secret::from_variable("api-key", "LLMR_TEST_SET", Some("v"));
    assert!(matches!(set, Ok(key) if key.expose() == b"v" && key.label() == "api-key"));
}

#[test]
fn a_wiped_credential_holds_zeros() {
    let mut key = Secret::new("api-key", "abc");
    key.wipe();
    assert!(key.expose().iter().all(|b| *b == 0));
}

fn status(status: u16) -> HttpResponse {
    HttpResponse {
        status,
        body: b"something went wrong".to_vec(),
        retry_after: None,
    }
}

#[test]
fn transport_a_bad_credential_is_never_retried() {
    assert!(!status(401)
        .check()
        .err()
        .map(|e| e.is_retryable())
        .unwrap_or(true));
}

#[test]
fn a_malformed_request_is_not_retried_either() {
    // Sending the same 400 again produces the same 400.
    let err = status(400).check().err();
    assert!(matches!(err, Some(Error::InvalidRequest(_))));
}

#[test]
fn a_server_fault_is_worth_another_go() {
    assert_eq!(
        status(503).check().err().map(|e| e.is_retryable()),
        Some(true)
    );
}

#[test]
fn a_rate_limit_carries_the_wait_the_server_asked_for() {
    let limited = HttpResponse {
        status: 429,
        body: Vec::new(),
        retry_after: Some(Duration::from_secs(12)),
    };
    assert_eq!(
        limited.check().err().and_then(|e| e.retry_after()),
        Some(Duration::from_secs(12))
    );
}

#[test]
fn a_success_is_not_an_error() {
    assert!(status(200).check().is_ok());
    assert!(status(204).check().is_ok());
}

#[test]
fn a_wait_in_a_header_is_seconds() {
    assert_eq!(read_retry_after("12"), Some(Duration::from_secs(12)));
    assert_eq!(read_retry_after("Wed, 21 Oct 2026 07:28:00 GMT"), None);
}

#[test]
fn a_request_carries_its_headers_in_order() {
    let request = HttpRequest::new("https://example.invalid", b"{}".to_vec())
        .with_header("a", "1")
        .with_header("b", "2");
    assert_eq!(request.method, Method::Post);
    assert_eq!(
        request.headers,
        vec![
            ("a".to_string(), "1".to_string()),
            ("b".to_string(), "2".to_string())
        ]
    );
    assert_eq!(HttpRequest::get("x").method.as_str(), "GET");
}

#[test]
fn a_table_file_may_write_a_row_as_a_list() {
    let listed = Registry::parse(
        "provider = \"p\"\nreach = { SelfHosted = {} }\nmodel = [[\"m\", 100, 10, true, false, false, true, false, \"docs\", \"2026-01-01\"]]\n",
    )
    .unwrap();
    let named = Registry::parse(
        "provider = \"p\"\nreach = \"SelfHosted\"\n\n[[model]]\nid = \"m\"\ncontext_window = 100\nmax_output = 10\ntools = true\nthinking = true\nsource = \"docs\"\nverified_at = \"2026-01-01\"\n",
    )
    .unwrap();
    assert_eq!(listed, named);
    let hollow = "provider = \"p\"\nreach = { LocalCli = [] }\n";
    assert_eq!(Registry::parse(hollow).map(|r| r.reach), Ok(Reach::LocalCli));
    // A list that ends early lacks what it does not reach.
    assert_eq!(
        Registry::parse("provider = \"p\"\nreach = \"SelfHosted\"\nmodel = [[\"m\", 100, 10]]\n"),
        Err("no text is given for source".to_string())
    );
    for reach in ["{ SelfHosted = { a = 1 } }", "{ SelfHosted = {}, LocalCli = {} }", "{}", "3"] {
        assert_eq!(
            Registry::parse(&format!("provider = \"p\"\nreach = {reach}\n")),
            Err("no text is given for reach".to_string())
        );
    }
}
