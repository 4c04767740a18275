use llmr::chat::message::{ContentBlock, ImageSource, Message, Role, StopReason};
use llmr::chat::request::{ChatRequest, Effort, Needs, Thinking, ToolSchema};
use llmr::chat::response::ChatResponse;
use llmr::chat::stream::{tool_input, Event, Transcript};
use llmr::cost::usage::{Usage, UsageCoverage};
use llmr::json::{Json, Number};
use llmr::model::{ModelCapabilities, ModelId, Reach};

#[test]
fn message_a_truncated_answer_is_not_complete() {
    assert!(!StopReason::MaxTokens.is_complete());
    assert!(!StopReason::Refusal.is_complete());
}

#[test]
fn a_truncated_answer_is_not_complete() {
    assert!(!StopReason::MaxTokens.is_complete());
    assert!(!StopReason::Refusal.is_complete());
    assert!(!StopReason::Other.is_complete());
}

#[test]
fn a_paused_turn_is_not_a_finished_one() {
    // Resumable, which is neither a failure nor an answer. A caller that read it as complete
    // would show a user half of what the model was saying.
    assert!(!StopReason::PauseTurn.is_complete());
    assert!(!StopReason::ContextWindowExceeded.is_complete());
}

#[test]
fn message_waiting_for_a_tool_is_complete() {
    assert!(StopReason::ToolUse.is_complete());
}

#[test]
fn waiting_for_a_tool_is_complete() {
    assert!(StopReason::ToolUse.is_complete());
    assert!(StopReason::EndTurn.is_complete());
    assert!(StopReason::StopSequence.is_complete());
}

#[test]
fn reasoning_is_not_an_answer() {
    // The trap this pair exists to remove. One method returning both is one a caller uses to
    // put the model's private working out on a screen.
    let thinking = ContentBlock::Thinking {
        text: "the user probably means".into(),
        signature: None,
    };
    assert_eq!(thinking.answer_text(), None);
    assert_eq!(thinking.reasoning(), Some("the user probably means"));

    let answer = ContentBlock::Text("Here it is.".into());
    assert_eq!(answer.answer_text(), Some("Here it is."));
    assert_eq!(answer.reasoning(), None);

    let opaque = ContentBlock::Opaque {
        kind: "redacted_thinking".into(),
        raw: Json::object(),
    };
    assert_eq!(opaque.answer_text(), None, "an opaque block is not an answer");
}

#[test]
fn joining_text_leaves_out_the_reasoning() {
    let turn = Message {
        role: Role::Assistant,
        content: vec![
            ContentBlock::Thinking {
                text: "let me work this out".into(),
                signature: None,
            },
            ContentBlock::Text("Four.".into()),
        ],
    };
    assert_eq!(turn.text(), "Four.");
}

#[test]
fn message_joining_text_leaves_out_the_tool_calls() {
    let turn = Message {
        role: Role::Assistant,
        content: vec![
            ContentBlock::Text("Looking that up.".into()),
            ContentBlock::ToolUse {
                id: "call-1".into(),
                name: "search".into(),
                input: Json::object().with("q", Json::text("rust")),
            },
        ],
    };
    assert_eq!(turn.text(), "Looking that up.");
    assert_eq!(turn.tool_calls().len(), 1);
}

#[test]
fn two_answers_are_joined_with_a_newline() {
    let turn = Message {
        role: Role::Assistant,
        content: vec![
            ContentBlock::Text("One.".into()),
            ContentBlock::Text("Two.".into()),
        ],
    };
    assert_eq!(turn.text(), "One.\nTwo.");
}

#[test]
fn text_deltas_join_into_one_block_rather_than_many() {
    let mut t = Transcript::new("m");
    t.push(Event::TextDelta("Hel".into()));
    t.push(Event::TextDelta("lo".into()));
    t.push(Event::Stopped {
        reason: StopReason::EndTurn,
        details: None,
    });
    let reply = t.finish();
    assert_eq!(reply.text(), "Hello");
    assert_eq!(reply.message.content.len(), 1);
}

#[test]
fn a_signature_lands_on_the_thinking_block_it_belongs_to() {
    // The property a conversation with reasoning in it depends on. Assembled without this, the
    // turn after this one is rejected.
    let mut t = Transcript::new("m");
    t.push(Event::ThinkingDelta("becau".into()));
    t.push(Event::ThinkingDelta("se".into()));
    t.push(Event::ThinkingSignature("sig-abc".into()));
    t.push(Event::TextDelta("Four.".into()));
    let reply = t.finish();
    assert_eq!(
        reply.message.content[0],
        ContentBlock::Thinking {
            text: "because".into(),
            signature: Some("sig-abc".into()),
        }
    );
}

#[test]
fn usage_that_never_arrived_is_absent_rather_than_zero() {
    // Zero here would make the call free in every report that adds it up.
    let mut t = Transcript::new("m");
    t.push(Event::TextDelta("ok".into()));
    assert_eq!(t.finish().usage.coverage(), UsageCoverage::Absent);
}

#[test]
fn two_usage_events_are_merged_rather_than_the_last_one_winning() {
    // A protocol reporting the prompt first and the output last sends two. Keeping only the
    // second throws away the input count.
    let mut t = Transcript::new("m");
    t.push(Event::Metered(Usage::absent().with_input(10)));
    t.push(Event::Metered(Usage::absent().with_output(7)));
    let usage = t.finish().usage;
    assert_eq!(usage.input_tokens, Some(10));
    assert_eq!(usage.output_tokens, Some(7));
}

#[test]
fn a_stream_that_stopped_early_is_not_a_finished_answer() {
    let mut t = Transcript::new("m");
    t.push(Event::TextDelta("half an answ".into()));
    let reply = t.finish();
    assert_eq!(reply.stop_reason, StopReason::Interrupted);
    assert!(
        !reply.is_complete(),
        "a cut off reply must not read as done"
    );
    assert_eq!(reply.text(), "half an answ", "what arrived is still ours");
}

#[test]
fn tool_arguments_assemble_and_survive_not_parsing() {
    let mut t = Transcript::new("m");
    t.push(Event::ToolUseStarted {
        id: "call_1".into(),
        name: "search".into(),
    });
    t.push(Event::ToolArgumentsDelta("{\"q\":".into()));
    t.push(Event::ToolArgumentsDelta("\"rust\"}".into()));
    t.push(Event::Stopped {
        reason: StopReason::ToolUse,
        details: None,
    });
    match &t.finish().message.content[0] {
        ContentBlock::ToolUse { input, .. } => assert_eq!(input.text_at("q"), Some("rust")),
        other => panic!("expected a tool call, got {other:?}"),
    }

    let mut broken = Transcript::new("m");
    broken.push(Event::ToolUseStarted {
        id: "call_2".into(),
        name: "search".into(),
    });
    broken.push(Event::ToolArgumentsDelta("{not json".into()));
    match &broken.finish().message.content[0] {
        // Matches what the non streamed readers do with the same input.
        ContentBlock::ToolUse { input, .. } => {
            assert_eq!(input.text_at("raw"), Some("{not json"))
        }
        other => panic!("expected a tool call, got {other:?}"),
    }
}

#[test]
fn the_model_that_answered_wins_over_the_one_that_was_asked_for() {
    let mut t = Transcript::new("asked-for");
    t.push(Event::Started {
        model: "served-by".into(),
    });
    assert_eq!(t.finish().model.as_str(), "served-by");
}

#[test]
fn a_stream_that_named_no_model_falls_back_to_the_one_requested() {
    assert_eq!(
        Transcript::new("asked-for").finish().model.as_str(),
        "asked-for"
    );
}

#[test]
fn where_a_delta_is_cut_changes_nothing() {
    let whole = |pieces: &[&str]| {
        let mut t = Transcript::new("m");
        t.push(Event::ThinkingDelta("hm".into()));
        for piece in pieces {
            t.push(Event::TextDelta((*piece).into()));
        }
        t.finish()
    };
    assert_eq!(whole(&["Hello"]), whole(&["H", "el", "lo"]));
}

#[test]
fn arguments_that_do_not_parse_are_kept_as_they_came() {
    assert_eq!(
        tool_input(""),
        Json::object().with("raw", Json::text(""))
    );
    assert_eq!(
        tool_input("{\"q\":"),
        Json::object().with("raw", Json::text("{\"q\":"))
    );
    assert_eq!(
        tool_input("{\"n\":1}"),
        Json::object().with("n", Json::Unsigned(1))
    );
}

#[test]
fn a_plain_request_needs_nothing_special() {
    let request = ChatRequest::new("m", vec![Message::user("hi")]);
    assert_eq!(request.needs(), Needs::default());
}

#[test]
fn what_a_provider_will_drop_is_listed_before_the_call() {
    let request = ChatRequest::new("m", vec![Message::user("hi")])
        .with_tools(vec![ToolSchema {
            name: "search".into(),
            description: "look it up".into(),
            parameters: Json::object(),
        }])
        .with_thinking(Thinking::On(Effort::High));

    let plain = ModelCapabilities::none(Reach::LocalCli);
    assert_eq!(request.needs().unmet_by(&plain), vec!["tools", "thinking"]);
}

#[test]
fn a_capable_model_leaves_nothing_unmet() {
    let request = ChatRequest::new("m", vec![Message::user("hi")])
        .with_response_schema(Json::object().with("type", Json::text("object")));
    let capable = ModelCapabilities {
        structured_output: true,
        ..ModelCapabilities::none(Reach::FirstPartyApi)
    };
    assert!(request.needs().unmet_by(&capable).is_empty());

    let through_a_cli = ModelCapabilities::none(Reach::LocalCli);
    assert_eq!(
        request.needs().unmet_by(&through_a_cli),
        vec!["structured_output"]
    );
}

#[test]
fn no_opinion_is_not_the_same_as_off() {
    // The distinction a bool cannot hold. On a model that reasons by default, sending `Off`
    // turns it off and sending `Unset` leaves it on.
    assert_ne!(Thinking::Unset, Thinking::Off);
    assert_eq!(Thinking::default(), Thinking::Unset);
}

#[test]
fn no_opinion_asks_for_nothing() {
    // `Unset` must not read as a request for reasoning, or every default request would be
    // billed for thinking tokens nobody asked for.
    let request = ChatRequest::new("m", vec![Message::user("hi")]);
    assert!(!request.needs().thinking);
}

#[test]
fn a_picture_and_a_breakpoint_are_needs() {
    let request = ChatRequest::new(
        "m",
        vec![Message {
            role: Role::User,
            content: vec![ContentBlock::Image {
                media_type: "image/png".into(),
                source: ImageSource::Url("https://example.invalid/a.png".into()),
            }],
        }],
    )
    .with_cache_breakpoint(0);
    let needs = request.needs();
    assert!(needs.images && needs.prompt_caching);
    assert_eq!(
        needs.unmet_by(&ModelCapabilities::none(Reach::SelfHosted)),
        vec!["prompt_caching", "images"]
    );
}

#[test]
fn a_request_is_addressed_to_another_model_and_nothing_else_changes() {
    let request = ChatRequest::new("one", vec![Message::user("hi")])
        .with_system("be brief")
        .with_max_tokens(9)
        .with_temperature(Number::parse("0.5").unwrap());
    let other = request.addressed_to(&ModelId::from("two"));
    assert_eq!(other.model.as_str(), "two");
    assert_eq!(other.addressed_to(&ModelId::from("one")), request);
    assert_eq!(
        other.generation.temperature.as_ref().map(|n| n.as_str()),
        Some("0.5")
    );
}

fn reply(stop: StopReason) -> ChatResponse {
    ChatResponse {
        message: Message {
            role: Role::Assistant,
            content: vec![ContentBlock::Text("half an answ".into())],
        },
        stop_reason: stop,
        stop_details: None,
        usage: Usage::absent(),
        model: "m".into(),
    }
}

#[test]
fn a_truncated_reply_says_so_even_though_the_call_succeeded() {
    assert!(!reply(StopReason::MaxTokens).is_complete());
    assert!(reply(StopReason::EndTurn).is_complete());
}

#[test]
fn a_call_without_arguments_has_an_empty_object() {
    let mut t = Transcript::new("m");
    t.push(Event::ToolUseStarted {
        id: "call_1".into(),
        name: "now".into(),
    });
    assert_eq!(
        t.finish().message.content,
        vec![ContentBlock::ToolUse {
            id: "call_1".into(),
            name: "now".into(),
            input: Json::object()
        }]
    );
}
