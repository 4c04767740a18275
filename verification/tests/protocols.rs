use llmr::chat::message::{ContentBlock, ImageSource, Message, Role, StopReason};
use llmr::chat::request::{ChatRequest, Effort, Thinking, ToolSchema};
use llmr::chat::response::ChatResponse;
use llmr::chat::stream::{Event, Transcript};
use llmr::cost::usage::{Usage, UsageCoverage};
use llmr::error::Error;
use llmr::json::{Json, Number};
use llmr::model::{ModelCapabilities, Reach};
use llmr::provider::Access;
use llmr::providers::api::{
    frame_end, parse_frame, parse_frame_text, ApiProvider, Frames, Next, Protocol, SseFrame,
};
use llmr::providers::{anthropic, bedrock, gemini, openai};
use llmr::registry::Registry;
use llmr::secret::Secret;
use llmr::transport::{HttpResponse, Method};
use std::sync::Arc;

fn json(text: &str) -> Json {
    Json::parse(text).unwrap()
}

fn key() -> Secret {
    Secret::new("a-key", "sk-test")
}

fn nothing_known() -> Arc<Registry> {
    Arc::new(Registry::empty("p", Reach::FirstPartyApi))
}

fn body_of(body: &[u8]) -> Json {
    Json::parse_bytes(body).unwrap()
}

fn request() -> ChatRequest {
    ChatRequest::new("m", vec![Message::user("hi")])
}

fn tool() -> ToolSchema {
    ToolSchema::new("search", "finds", json("{\"type\":\"object\"}"))
}

fn a_turn(content: Vec<ContentBlock>) -> Message {
    Message {
        role: Role::Assistant,
        content,
    }
}

fn an_image() -> ContentBlock {
    ContentBlock::Image {
        media_type: "image/png".into(),
        source: ImageSource::Bytes(vec![0x89, 0x50, 0x4e, 0x47]),
    }
}

fn a_linked_image() -> ContentBlock {
    ContentBlock::Image {
        media_type: "image/png".into(),
        source: ImageSource::Url("https://example.invalid/a.png".into()),
    }
}

// Server sent events.

#[test]
fn a_frame_ends_at_a_blank_line_of_either_kind() {
    assert_eq!(frame_end(&b"data: a\n\ndata: b".to_vec()), Some((7, 2)));
    assert_eq!(frame_end(&b"data: a\r\n\r\n".to_vec()), Some((7, 4)));
    assert_eq!(frame_end(&b"data: a\n".to_vec()), None);
    assert_eq!(frame_end(&vec![]), None);
}

#[test]
fn a_frame_has_an_event_and_its_data() {
    assert_eq!(
        parse_frame_text("event: ping\ndata: {\"a\":1}"),
        Some(SseFrame {
            event: "ping".into(),
            data: "{\"a\":1}".into(),
        })
    );
    let several = parse_frame(&b": a comment\r\ndata: one\r\ndata:two\r\nid: 7".to_vec()).unwrap();
    assert_eq!(several.event, "");
    assert_eq!(several.data, "one\ntwo");
    assert_eq!(several.json(), None);
    assert_eq!(
        parse_frame_text("data: {\"a\":1}").unwrap().json(),
        Some(json("{\"a\":1}"))
    );
    assert_eq!(parse_frame_text(": only a comment"), None);
    assert_eq!(parse_frame_text(""), None);
}

#[test]
fn bytes_that_are_not_text_are_read_with_replacement() {
    let frame = parse_frame(&b"data: \xff".to_vec()).unwrap();
    assert_eq!(frame.data, "\u{fffd}");
}

/// Every event of a reply that arrived in these pieces.
fn events_of<P: Protocol>(protocol: &P, chunks: &[&[u8]]) -> (Vec<Event>, Option<Error>) {
    let mut frames = Frames::new();
    let mut events = vec![];
    let mut failed = None;
    let mut arrivals: Vec<Option<Vec<u8>>> =
        chunks.iter().map(|chunk| Some(chunk.to_vec())).collect();
    arrivals.push(None);
    for arrival in arrivals {
        if failed.is_none() {
            failed = frames.take_in(protocol, arrival.map(Ok));
        }
        while let Next::Event(event) = frames.next() {
            events.push(event);
        }
    }
    assert_eq!(frames.next(), Next::Ended);
    (events, failed)
}

const A_REPLY: &[u8] = b"data: {\"model\":\"m-1\",\"choices\":[{\"delta\":{\"role\":\"assistant\",\"content\":\"Hel\"}}]}\n\ndata: {\"model\":\"m-1\",\"choices\":[{\"delta\":{\"content\":\"lo\"}}]}\r\n\r\ndata: {\"choices\":[{\"delta\":{},\"finish_reason\":\"stop\"}]}\n\ndata: {\"choices\":[],\"usage\":{\"prompt_tokens\":9,\"completion_tokens\":2}}\n\ndata: [DONE]";

#[test]
fn where_the_bytes_are_cut_changes_nothing() {
    let protocol = openai::api::ChatCompletions::named("p");
    let (whole, failed) = events_of(&protocol, &[A_REPLY]);
    assert_eq!(failed, None);
    assert_eq!(
        whole,
        vec![
            Event::Started {
                model: "m-1".into()
            },
            Event::TextDelta("Hel".into()),
            Event::TextDelta("lo".into()),
            Event::Stopped {
                reason: StopReason::EndTurn,
                details: Some("stop".into())
            },
            Event::Metered(Usage {
                input_tokens: Some(9),
                output_tokens: Some(2),
                ..Usage::absent()
            }),
        ]
    );
    for cut in 0..A_REPLY.len() {
        let (a, b) = A_REPLY.split_at(cut);
        assert_eq!(events_of(&protocol, &[a, b]), (whole.clone(), None));
    }
    let bytes: Vec<&[u8]> = A_REPLY.chunks(1).collect();
    assert_eq!(events_of(&protocol, &bytes), (whole, None));
}

#[test]
fn a_failed_transport_ends_the_stream() {
    let protocol = openai::api::ChatCompletions::named("p");
    let mut frames = Frames::new();
    assert_eq!(frames.next(), Next::Waiting);
    assert_eq!(
        frames.take_in(&protocol, Some(Err(Error::Transient("reset".into())))),
        Some(Error::Transient("reset".into()))
    );
    assert_eq!(frames.next(), Next::Ended);
}

#[test]
fn a_frame_that_is_not_json_is_unreadable() {
    let protocol = openai::api::ChatCompletions::named("p");
    let (events, failed) = events_of(&protocol, &[b"data: <html>\n\n"]);
    assert!(events.is_empty());
    assert!(matches!(failed, Some(Error::Unreadable(_))), "{failed:?}");
}

// Anthropic.

#[test]
fn a_messages_request_is_written_whole() {
    let provider = anthropic::api::with(key(), nothing_known());
    let asked = request()
        .with_system("Be brief.")
        .with_tools(vec![tool()])
        .with_max_tokens(1_000)
        .with_temperature(Number::parse("0.5").unwrap())
        .with_thinking(Thinking::On(Effort::Low))
        .with_cache_breakpoint(0);
    let sent = provider.chat_request(&asked).unwrap();
    assert_eq!(sent.method, Method::Post);
    assert_eq!(sent.url, "https://api.anthropic.com/v1/messages");
    assert_eq!(
        sent.headers,
        vec![
            ("x-api-key".to_string(), "sk-test".to_string()),
            ("anthropic-version".to_string(), "2023-06-01".to_string()),
            ("content-type".to_string(), "application/json".to_string()),
        ]
    );
    assert_eq!(
        body_of(&sent.body),
        json(
            "{\"max_tokens\":1000,\"messages\":[{\"content\":[{\"cache_control\":{\"type\":\"ephemeral\"},\"text\":\"hi\",\"type\":\"text\"}],\"role\":\"user\"}],\"model\":\"m\",\"system\":\"Be brief.\",\"temperature\":0.5,\"thinking\":{\"budget_tokens\":999,\"type\":\"enabled\"},\"tools\":[{\"description\":\"finds\",\"input_schema\":{\"type\":\"object\"},\"name\":\"search\"}]}"
        )
    );
    let streamed = provider.stream_request(&asked).unwrap().unwrap();
    assert_eq!(
        body_of(&streamed.body).get("stream"),
        Some(&Json::Bool(true))
    );
}

#[test]
fn a_limit_is_sent_where_none_was_named() {
    let body = anthropic::api::write_request(&request()).unwrap();
    assert_eq!(body.u64_at("max_tokens"), Some(4_096));
    assert_eq!(body.get("thinking"), None);
}

#[test]
fn an_image_is_refused_rather_than_left_out() {
    let asked = ChatRequest::new("m", vec![a_turn(vec![an_image()])]);
    assert_eq!(
        anthropic::api::write_request(&asked),
        Err(Error::Unsupported(
            "images cannot be sent through this protocol".into()
        ))
    );
}

#[test]
fn a_breakpoint_needs_an_object_to_go_into() {
    assert!(anthropic::api::can_write(&request().with_cache_breakpoint(0)));
    let odd = ChatRequest::new(
        "m",
        vec![a_turn(vec![ContentBlock::Opaque {
            kind: "odd".into(),
            raw: Json::Bool(true),
        }])],
    );
    assert!(anthropic::api::can_write(&odd));
    assert!(!anthropic::api::can_write(&odd.with_cache_breakpoint(0)));
}

const A_MESSAGE: &str = "{\"model\":\"m-1\",\"stop_reason\":\"tool_use\",\"stop_sequence\":null,\"content\":[{\"type\":\"thinking\",\"thinking\":\"hm\",\"signature\":\"sig\"},{\"type\":\"text\",\"text\":\"Looking.\"},{\"type\":\"tool_use\",\"id\":\"t1\",\"name\":\"search\",\"input\":{\"q\":\"rust\"}},{\"type\":\"redacted_thinking\",\"data\":\"abc\"}],\"usage\":{\"input_tokens\":10,\"cache_read_input_tokens\":3,\"cache_creation_input_tokens\":4,\"output_tokens\":7}}";

fn the_message() -> ChatResponse {
    ChatResponse::new(
        a_turn(vec![
            ContentBlock::Thinking {
                text: "hm".into(),
                signature: Some("sig".into()),
            },
            ContentBlock::Text("Looking.".into()),
            ContentBlock::ToolUse {
                id: "t1".into(),
                name: "search".into(),
                input: json("{\"q\":\"rust\"}"),
            },
            ContentBlock::Opaque {
                kind: "redacted_thinking".into(),
                raw: json("{\"type\":\"redacted_thinking\",\"data\":\"abc\"}"),
            },
        ]),
        StopReason::ToolUse,
        Usage {
            input_tokens: Some(10),
            cache_read_tokens: Some(3),
            cache_write_tokens: Some(4),
            output_tokens: Some(7),
            estimated: false,
        },
        "m-1".into(),
    )
}

#[test]
fn a_message_is_read_and_goes_back_as_it_came() {
    let provider = anthropic::api::with(key(), nothing_known());
    let response = HttpResponse::new(200, A_MESSAGE.as_bytes().to_vec());
    let reply = provider.read_chat(&response, &"m".into()).unwrap();
    assert_eq!(reply, the_message());
    let again =
        anthropic::api::write_request(&ChatRequest::new("m", vec![reply.message])).unwrap();
    assert_eq!(
        again.pointer("/messages/0/content"),
        json(A_MESSAGE).get("content").cloned()
    );
}

#[test]
fn a_message_with_nothing_in_it_is_a_failure() {
    assert_eq!(
        anthropic::api::read_reply(&json("{\"content\":[]}"), &"m".into()),
        Err(Error::Unreadable(
            "the reply carried no content this crate could read".into()
        ))
    );
}

#[test]
fn a_streamed_message_assembles_into_the_same_reply() {
    let frames: Vec<u8> = [
        "event: message_start\ndata: {\"message\":{\"model\":\"m-1\",\"usage\":{\"input_tokens\":10,\"cache_read_input_tokens\":3,\"cache_creation_input_tokens\":4}}}\n\n",
        "event: ping\ndata: {}\n\n",
        "event: content_block_start\ndata: {\"content_block\":{\"type\":\"thinking\",\"thinking\":\"\"}}\n\n",
        "event: content_block_delta\ndata: {\"delta\":{\"type\":\"thinking_delta\",\"thinking\":\"hm\"}}\n\n",
        "event: content_block_delta\ndata: {\"delta\":{\"type\":\"signature_delta\",\"signature\":\"sig\"}}\n\n",
        "event: content_block_delta\ndata: {\"delta\":{\"type\":\"text_delta\",\"text\":\"Look\"}}\n\n",
        "event: content_block_delta\ndata: {\"delta\":{\"type\":\"text_delta\",\"text\":\"ing.\"}}\n\n",
        "event: content_block_start\ndata: {\"content_block\":{\"type\":\"tool_use\",\"id\":\"t1\",\"name\":\"search\"}}\n\n",
        "event: content_block_delta\ndata: {\"delta\":{\"type\":\"input_json_delta\",\"partial_json\":\"{\\\"q\\\":\\\"rust\\\"}\"}}\n\n",
        "event: content_block_start\ndata: {\"content_block\":{\"type\":\"redacted_thinking\",\"data\":\"abc\"}}\n\n",
        "event: message_delta\ndata: {\"delta\":{\"stop_reason\":\"tool_use\"},\"usage\":{\"output_tokens\":7}}\n\n",
        "event: message_stop\ndata: {}\n\n",
    ]
    .concat()
    .into_bytes();
    let (events, failed) = events_of(&anthropic::api::Messages, &[&frames]);
    assert_eq!(failed, None);
    let mut transcript = Transcript::new("m");
    for event in events {
        transcript.push(event);
    }
    assert_eq!(transcript.finish(), the_message());
}

#[test]
fn an_error_in_a_stream_is_transient() {
    let (_, failed) = events_of(
        &anthropic::api::Messages,
        &[b"event: error\ndata: {\"error\":{\"message\":\"Overloaded\"}}\n\n"],
    );
    assert_eq!(
        failed,
        Some(Error::Transient("the stream stopped: Overloaded".into()))
    );
}

#[test]
fn a_refused_call_is_the_error_its_status_means() {
    let provider = anthropic::api::with(key(), nothing_known());
    let refused = HttpResponse::new(401, b"no".to_vec());
    assert!(matches!(
        provider.read_chat(&refused, &"m".into()),
        Err(Error::Auth(_))
    ));
    let garbled = HttpResponse::new(200, b"<html>".to_vec());
    assert!(matches!(
        provider.read_chat(&garbled, &"m".into()),
        Err(Error::Unreadable(_))
    ));
}

#[test]
fn a_key_that_is_not_text_is_refused_before_the_network() {
    let wiped = Secret::from_variable("a-key", "A_KEY", None);
    assert!(wiped.is_err());
}

// The model list.

fn a_compatible_endpoint() -> ApiProvider<openai::api::ChatCompletions> {
    openai::api::at(
        "groq",
        "https://example.invalid/v1//",
        key(),
        Reach::FirstPartyApi,
        nothing_known(),
    )
}

#[test]
fn a_catalogue_is_asked_for_and_read_in_order() {
    let provider = a_compatible_endpoint();
    let sent = provider.catalogue_request().unwrap();
    assert_eq!(sent.method, Method::Get);
    assert_eq!(sent.url, "https://example.invalid/v1/models");
    assert!(sent.body.is_empty());
    let listed = provider
        .read_models(&HttpResponse::new(
            200,
            b"{\"data\":[{\"id\":\"b\"},{\"id\":\"a\"},{\"object\":\"x\"}]}".to_vec(),
        ))
        .unwrap();
    let names: Vec<_> = listed.iter().map(|id| id.as_str()).collect();
    assert_eq!(names, vec!["a", "b"]);
    assert_eq!(
        provider.read_access(&Ok(listed), &"a".into()),
        Access::Ready
    );
    assert!(provider
        .read_access(&Ok(vec![]), &"a".into())
        .is_denied());
    assert!(provider
        .read_access(&Err(Error::Auth("401".into())), &"a".into())
        .is_denied());
    assert!(provider
        .read_access(&Err(Error::Transient("503".into())), &"a".into())
        .is_unknown());
    assert!(matches!(
        provider.read_models(&HttpResponse::new(200, b"{}".to_vec())),
        Err(Error::Unreadable(_))
    ));
}

#[test]
fn an_endpoint_without_a_list_says_so() {
    let provider = bedrock::api::anthropic_family("eu-west-1", nothing_known());
    assert!(matches!(
        provider.catalogue_request(),
        Err(Error::Unsupported(_))
    ));
    assert!(provider
        .read_access(&Ok(vec!["m".into()]), &"m".into())
        .is_unknown());
}

#[test]
fn a_listed_gemini_name_loses_the_path_in_front_of_it() {
    let provider = gemini::api::with(key(), nothing_known());
    assert_eq!(
        provider.catalogue_request().unwrap().url,
        "https://generativelanguage.googleapis.com/v1beta/models"
    );
    let listed = provider
        .read_models(&HttpResponse::new(
            200,
            b"{\"models\":[{\"name\":\"models/z\"},{\"name\":\"y\"}]}".to_vec(),
        ))
        .unwrap();
    assert_eq!(listed, vec!["y".into(), "z".into()]);
}

// The chat completions shape.

#[test]
fn a_completions_request_is_written_whole() {
    let provider = a_compatible_endpoint();
    assert_eq!(provider.id(), "groq");
    assert_eq!(provider.reach(), Reach::FirstPartyApi);
    assert_eq!(provider.protocol().id(), "groq");
    assert_eq!(provider.capabilities(&"m".into()), None);
    let asked = ChatRequest::new(
        "m",
        vec![
            Message {
                role: Role::User,
                content: vec![
                    ContentBlock::Text("look".into()),
                    an_image(),
                    a_linked_image(),
                ],
            },
            a_turn(vec![ContentBlock::ToolUse {
                id: "t1".into(),
                name: "search".into(),
                input: json("{\"q\":1}"),
            }]),
            Message {
                role: Role::User,
                content: vec![ContentBlock::ToolResult {
                    tool_use_id: "t1".into(),
                    content: "found".into(),
                    is_error: false,
                }],
            },
        ],
    )
    .with_system("Be brief.")
    .with_max_tokens(9)
    .with_response_schema(json("{\"type\":\"object\"}"));
    let sent = provider.chat_request(&asked).unwrap();
    assert_eq!(sent.url, "https://example.invalid/v1/chat/completions");
    assert_eq!(
        sent.headers[0],
        ("authorization".to_string(), "Bearer sk-test".to_string())
    );
    let body = body_of(&sent.body);
    assert_eq!(body.u64_at("max_completion_tokens"), Some(9));
    assert_eq!(
        body.get("messages"),
        Some(&json(
            "[{\"content\":\"Be brief.\",\"role\":\"system\"},{\"content\":[{\"text\":\"look\",\"type\":\"text\"},{\"image_url\":{\"url\":\"data:image/png;base64,iVBORw==\"},\"type\":\"image_url\"},{\"image_url\":{\"url\":\"https://example.invalid/a.png\"},\"type\":\"image_url\"}],\"role\":\"user\"},{\"content\":\"\",\"role\":\"assistant\",\"tool_calls\":[{\"function\":{\"arguments\":\"{\\\"q\\\":1}\",\"name\":\"search\"},\"id\":\"t1\",\"type\":\"function\"}]},{\"content\":\"found\",\"role\":\"tool\",\"tool_call_id\":\"t1\"}]"
        ))
    );
    assert_eq!(
        body.pointer("/response_format/json_schema/schema"),
        Some(json("{\"type\":\"object\"}"))
    );
    let streamed = body_of(&provider.stream_request(&asked).unwrap().unwrap().body);
    assert_eq!(
        streamed.pointer("/stream_options/include_usage"),
        Some(Json::Bool(true))
    );
}

#[test]
fn a_completion_is_read_with_its_calls_and_its_usage() {
    let provider = a_compatible_endpoint();
    let response = HttpResponse::new(
        200,
        b"{\"model\":\"m-1\",\"choices\":[{\"finish_reason\":\"tool_calls\",\"message\":{\"content\":\"Looking.\",\"tool_calls\":[{\"id\":\"t1\",\"function\":{\"name\":\"search\",\"arguments\":\"{\\\"q\\\":1}\"}},{\"id\":\"t2\",\"function\":{\"name\":\"search\",\"arguments\":\"{oops\"}}]}}],\"usage\":{\"prompt_tokens\":10,\"prompt_tokens_details\":{\"cached_tokens\":4},\"completion_tokens\":7}}".to_vec(),
    );
    let reply = provider.read_chat(&response, &"m".into()).unwrap();
    assert_eq!(reply.text(), "Looking.");
    assert_eq!(reply.stop_reason, StopReason::ToolUse);
    assert_eq!(reply.stop_details(), Some("tool_calls"));
    assert_eq!(reply.model.as_str(), "m-1");
    assert_eq!(
        reply.message.content[2],
        ContentBlock::ToolUse {
            id: "t2".into(),
            name: "search".into(),
            input: json("{\"raw\":\"{oops\"}"),
        }
    );
    assert_eq!(
        reply.usage,
        Usage {
            input_tokens: Some(6),
            cache_read_tokens: Some(4),
            output_tokens: Some(7),
            ..Usage::absent()
        }
    );
    assert_eq!(reply.usage.coverage(), UsageCoverage::Partial);
}

#[test]
fn a_completion_without_an_answer_says_what_is_missing() {
    let read = |text: &str| openai::api::read_reply(&json(text), &"m".into()).err();
    assert_eq!(
        read("{}"),
        Some(Error::Unreadable("the reply carried no choices".into()))
    );
    assert_eq!(
        read("{\"choices\":[{}]}"),
        Some(Error::Unreadable("the choice carried no message".into()))
    );
    assert_eq!(
        read("{\"choices\":[{\"message\":{\"content\":\"\"}}]}"),
        Some(Error::Unreadable(
            "the reply carried no content this crate could read".into()
        ))
    );
}

#[test]
fn reasoning_in_a_stream_is_not_answer_text() {
    let (events, _) = events_of(
        &openai::api::ChatCompletions::named("p"),
        &[b"data: {\"choices\":[{\"delta\":{\"reasoning_content\":\"hm\",\"tool_calls\":[{\"id\":\"t1\",\"function\":{\"name\":\"search\",\"arguments\":\"\"}}]}}]}\n\n"],
    );
    assert_eq!(
        events,
        vec![
            Event::ThinkingDelta("hm".into()),
            Event::ToolUseStarted {
                id: "t1".into(),
                name: "search".into()
            },
        ]
    );
}

// Gemini.

#[test]
fn a_gemini_request_is_written_whole() {
    let provider = gemini::api::with(key(), nothing_known());
    let asked = ChatRequest::new(
        "g-1",
        vec![a_turn(vec![
            ContentBlock::Text("look".into()),
            an_image(),
            a_linked_image(),
            ContentBlock::Opaque {
                kind: "odd".into(),
                raw: Json::Null,
            },
        ])],
    )
    .with_system("Be brief.")
    .with_tools(vec![tool()])
    .with_thinking(Thinking::On(Effort::High));
    let sent = provider.chat_request(&asked).unwrap();
    assert_eq!(
        sent.url,
        "https://generativelanguage.googleapis.com/v1beta/models/g-1:generateContent"
    );
    assert_eq!(
        body_of(&sent.body),
        json(
            "{\"contents\":[{\"parts\":[{\"text\":\"look\"},{\"inlineData\":{\"data\":\"iVBORw==\",\"mimeType\":\"image/png\"}},{\"fileData\":{\"fileUri\":\"https://example.invalid/a.png\",\"mimeType\":\"image/png\"}}],\"role\":\"model\"}],\"generationConfig\":{\"thinkingConfig\":{\"includeThoughts\":true,\"thinkingBudget\":24576}},\"systemInstruction\":{\"parts\":[{\"text\":\"Be brief.\"}]},\"tools\":[{\"functionDeclarations\":[{\"description\":\"finds\",\"name\":\"search\",\"parameters\":{\"type\":\"object\"}}]}]}"
        )
    );
    assert_eq!(
        provider.stream_request(&asked).unwrap().unwrap().url,
        "https://generativelanguage.googleapis.com/v1beta/models/g-1:streamGenerateContent?alt=sse"
    );
}

#[test]
fn no_opinion_is_not_an_instruction_not_to_reason() {
    let silent = gemini::api::write_request(&request());
    assert_eq!(silent.get("generationConfig"), None);
    let off = gemini::api::write_request(&request().with_thinking(Thinking::Off));
    assert_eq!(
        off.pointer("/generationConfig/thinkingConfig/thinkingBudget"),
        Some(Json::Unsigned(0))
    );
}

#[test]
fn a_gemini_reply_is_read() {
    let body = json(
        "{\"modelVersion\":\"g-1-001\",\"candidates\":[{\"finishReason\":\"STOP\",\"content\":{\"parts\":[{\"text\":\"hm\",\"thought\":true},{\"text\":\"Four.\"},{\"functionCall\":{\"name\":\"search\",\"args\":{\"q\":1}}}]}}],\"usageMetadata\":{\"promptTokenCount\":10,\"cachedContentTokenCount\":4,\"candidatesTokenCount\":3,\"thoughtsTokenCount\":2}}",
    );
    let reply = gemini::api::read_reply(&body, &"g-1".into()).unwrap();
    assert_eq!(reply.text(), "Four.");
    assert_eq!(reply.model.as_str(), "g-1-001");
    assert_eq!(
        reply.usage,
        Usage {
            input_tokens: Some(6),
            cache_read_tokens: Some(4),
            output_tokens: Some(5),
            ..Usage::absent()
        }
    );
    let mut transcript = Transcript::new("g-1");
    for event in gemini::api::read_frame(&body) {
        transcript.push(event);
    }
    assert_eq!(transcript.finish(), reply);
    assert_eq!(
        gemini::api::read_reply(&json("{}"), &"g-1".into()),
        Err(Error::Unreadable("the reply carried no candidates".into()))
    );
    assert_eq!(
        gemini::api::read_reply(&json("{\"candidates\":[{}]}"), &"g-1".into()),
        Err(Error::Unreadable(
            "the reply carried no content this crate could read".into()
        ))
    );
}

/// The reply that some frames put together.
fn folded<P: Protocol>(protocol: &P, frames: &[(&str, &str)]) -> ChatResponse {
    let mut transcript = Transcript::new("asked");
    for (event, data) in frames {
        let frame = SseFrame {
            event: event.to_string(),
            data: data.to_string(),
        };
        for event in protocol.read_event(&frame).unwrap() {
            transcript.push(event);
        }
    }
    transcript.finish()
}

#[test]
fn a_running_total_on_every_frame_is_counted_once() {
    let total = "{\"usageMetadata\":{\"promptTokenCount\":10,\"candidatesTokenCount\":5}}";
    let usage = folded(&gemini::api::GenerateContent, &[("", total), ("", total)]).usage;
    assert_eq!(usage.input_tokens, Some(10));
    assert_eq!(usage.output_tokens, Some(5));
    let more = "{\"usageMetadata\":{\"promptTokenCount\":10,\"candidatesTokenCount\":8}}";
    let usage = folded(&gemini::api::GenerateContent, &[("", total), ("", more)]).usage;
    assert_eq!(usage.output_tokens, Some(8));
}

#[test]
fn a_gemini_part_is_split_the_same_whole_and_streamed() {
    for (parts, blocks) in [
        // A call without an id goes by its name.
        ("{\"functionCall\":{\"name\":\"search\"}}", 1),
        ("{\"functionCall\":{\"id\":\"c-1\",\"name\":\"search\",\"args\":{\"q\":1}}}", 1),
        // A call wins over a text beside it, and one without a name is left out.
        ("{\"text\":\"hm\",\"functionCall\":{\"name\":\"search\"}}", 1),
        ("{\"text\":\"Hi.\"},{\"functionCall\":{\"args\":{}}}", 1),
        // A text with nothing in it gives no block.
        ("{\"text\":\"Hi.\"},{\"functionCall\":{\"name\":\"a\"}},{\"text\":\"\"}", 2),
    ] {
        let body = format!(
            "{{\"candidates\":[{{\"finishReason\":\"STOP\",\"content\":{{\"parts\":[{parts}]}}}}]}}"
        );
        let whole = gemini::api::read_reply(&json(&body), &"asked".into()).unwrap();
        assert_eq!(whole.message.content.len(), blocks);
        assert_eq!(folded(&gemini::api::GenerateContent, &[("", &body)]), whole);
    }
    let silent = json("{\"candidates\":[{\"content\":{\"parts\":[{\"text\":\"\"}]}}]}");
    assert_eq!(
        gemini::api::read_reply(&silent, &"asked".into()),
        Err(Error::Unreadable(
            "the reply carried no content this crate could read".into()
        ))
    );
}

#[test]
fn a_streamed_openai_reply_is_the_whole_one() {
    let message = "{\"role\":\"assistant\",\"content\":\"Four.\",\"reasoning_content\":\"hm\",\"tool_calls\":[{\"id\":\"c-1\",\"function\":{\"name\":\"search\",\"arguments\":\"{\\\"q\\\":1}\"}},{\"id\":\"c-2\",\"function\":{\"name\":\"now\"}},{\"id\":\"c-3\",\"function\":{\"name\":\"odd\",\"arguments\":\"{oops\"}}]}";
    let usage = "{\"prompt_tokens\":9,\"completion_tokens\":2}";
    let body = format!(
        "{{\"model\":\"m-1\",\"choices\":[{{\"message\":{message},\"finish_reason\":\"tool_calls\"}}],\"usage\":{usage}}}"
    );
    let whole = openai::api::read_reply(&json(&body), &"asked".into()).unwrap();
    assert_eq!(whole.stop_details.as_deref(), Some("tool_calls"));
    assert_eq!(
        whole.message.content[1],
        ContentBlock::Thinking {
            text: "hm".into(),
            signature: None
        }
    );
    assert_eq!(
        whole.message.content[3],
        ContentBlock::ToolUse {
            id: "c-2".into(),
            name: "now".into(),
            input: Json::object()
        }
    );
    let frame = format!(
        "{{\"model\":\"m-1\",\"choices\":[{{\"delta\":{message},\"finish_reason\":\"tool_calls\"}}]}}"
    );
    let last = format!("{{\"model\":\"m-1\",\"choices\":[],\"usage\":{usage}}}");
    let protocol = openai::api::ChatCompletions::named("p");
    assert_eq!(
        folded(&protocol, &[("", &frame), ("", &last), ("", "[DONE]")]),
        whole
    );
    // The same in pieces, with a running total of the tokens.
    let pieces = [
        "{\"model\":\"m-1\",\"choices\":[{\"delta\":{\"role\":\"assistant\",\"content\":\"Fo\"}}],\"usage\":{\"prompt_tokens\":9,\"completion_tokens\":1}}",
        "{\"choices\":[{\"delta\":{\"content\":\"ur.\"},\"finish_reason\":null}]}",
        "{\"choices\":[{\"delta\":{\"reasoning_content\":\"h\"}}]}",
        "{\"choices\":[{\"delta\":{\"reasoning_content\":\"m\",\"tool_calls\":[{\"id\":\"c-1\",\"function\":{\"name\":\"search\",\"arguments\":\"\"}}]}}]}",
        "{\"choices\":[{\"delta\":{\"tool_calls\":[{\"function\":{\"arguments\":\"{\\\"q\"}}]}}]}",
        "{\"choices\":[{\"delta\":{\"tool_calls\":[{\"function\":{\"arguments\":\"\\\":1}\"}},{\"id\":\"c-2\",\"function\":{\"name\":\"now\"}}]}}]}",
        "{\"choices\":[{\"delta\":{\"tool_calls\":[{\"id\":\"c-3\",\"function\":{\"name\":\"odd\",\"arguments\":\"{oops\"}}]},\"finish_reason\":\"tool_calls\"}]}",
        last.as_str(),
    ];
    let frames: Vec<(&str, &str)> = pieces.iter().map(|piece| ("", *piece)).collect();
    assert_eq!(folded(&protocol, &frames), whole);
}

#[test]
fn a_whole_call_keeps_arguments_that_hold_nothing() {
    let reply = openai::api::read_reply(
        &json("{\"choices\":[{\"message\":{\"tool_calls\":[{\"id\":\"c\",\"function\":{\"name\":\"now\",\"arguments\":\"\"}}]}}]}"),
        &"asked".into(),
    )
    .unwrap();
    assert_eq!(
        reply.message.content,
        vec![ContentBlock::ToolUse {
            id: "c".into(),
            name: "now".into(),
            input: Json::object().with("raw", Json::text(""))
        }]
    );
}

#[test]
fn a_gemini_reply_in_pieces_is_the_whole_one() {
    let whole = gemini::api::read_reply(
        &json("{\"modelVersion\":\"g-1\",\"candidates\":[{\"finishReason\":\"STOP\",\"content\":{\"parts\":[{\"text\":\"hm, yes\",\"thought\":true},{\"text\":\"Four.\"},{\"functionCall\":{\"name\":\"search\",\"args\":{\"q\":1}}}]}}],\"usageMetadata\":{\"promptTokenCount\":10,\"candidatesTokenCount\":5}}"),
        &"asked".into(),
    )
    .unwrap();
    let frames = [
        ("", "{\"modelVersion\":\"g-1\",\"candidates\":[{\"content\":{\"parts\":[{\"text\":\"hm, \",\"thought\":true}]}}],\"usageMetadata\":{\"promptTokenCount\":10}}"),
        ("", "{\"modelVersion\":\"g-1\",\"candidates\":[{\"content\":{\"parts\":[{\"text\":\"yes\",\"thought\":true},{\"text\":\"Fo\"}]}}],\"usageMetadata\":{\"promptTokenCount\":10,\"candidatesTokenCount\":3}}"),
        ("", "{\"candidates\":[{\"content\":{\"parts\":[{\"text\":\"ur.\"},{\"functionCall\":{\"name\":\"search\",\"args\":{\"q\":1}}}]}}]}"),
        ("", "{\"candidates\":[{\"finishReason\":\"STOP\",\"content\":{\"parts\":[{\"text\":\"\"}]}}],\"usageMetadata\":{\"promptTokenCount\":10,\"candidatesTokenCount\":5}}"),
    ];
    assert_eq!(folded(&gemini::api::GenerateContent, &frames), whole);
}

#[test]
fn a_streamed_anthropic_reply_is_the_whole_one() {
    let whole = anthropic::api::read_reply(
        &json("{\"model\":\"m-1\",\"stop_reason\":\"tool_use\",\"stop_sequence\":null,\"usage\":{\"input_tokens\":9,\"output_tokens\":7},\"content\":[{\"type\":\"thinking\",\"thinking\":\"hm, yes\",\"signature\":\"sig\"},{\"type\":\"text\",\"text\":\"Four.\"},{\"type\":\"redacted_thinking\",\"data\":\"abc\"},{\"type\":\"tool_use\",\"id\":\"c-1\",\"name\":\"search\",\"input\":{\"q\":1}},{\"type\":\"tool_use\",\"id\":\"c-2\",\"name\":\"now\",\"input\":{}}]}"),
        &"asked".into(),
    )
    .unwrap();
    let frames = [
        // The first count of the output is of what had been written by then.
        ("message_start", "{\"message\":{\"model\":\"m-1\",\"usage\":{\"input_tokens\":9,\"output_tokens\":1}}}"),
        ("content_block_start", "{\"content_block\":{\"type\":\"thinking\",\"thinking\":\"\"}}"),
        ("content_block_delta", "{\"delta\":{\"type\":\"thinking_delta\",\"thinking\":\"hm, \"}}"),
        ("ping", "{}"),
        ("content_block_delta", "{\"delta\":{\"type\":\"thinking_delta\",\"thinking\":\"yes\"}}"),
        ("content_block_delta", "{\"delta\":{\"type\":\"signature_delta\",\"signature\":\"sig\"}}"),
        ("content_block_stop", "{}"),
        ("content_block_start", "{\"content_block\":{\"type\":\"text\",\"text\":\"\"}}"),
        ("content_block_delta", "{\"delta\":{\"type\":\"text_delta\",\"text\":\"Fo\"}}"),
        ("content_block_delta", "{\"delta\":{\"type\":\"text_delta\",\"text\":\"ur.\"}}"),
        ("content_block_start", "{\"content_block\":{\"type\":\"redacted_thinking\",\"data\":\"abc\"}}"),
        ("content_block_start", "{\"content_block\":{\"type\":\"tool_use\",\"id\":\"c-1\",\"name\":\"search\",\"input\":{}}}"),
        ("content_block_delta", "{\"delta\":{\"type\":\"input_json_delta\",\"partial_json\":\"{\\\"q\\\"\"}}"),
        ("content_block_delta", "{\"delta\":{\"type\":\"input_json_delta\",\"partial_json\":\":1}\"}}"),
        // A tool that takes nothing is asked for without a word.
        ("content_block_start", "{\"content_block\":{\"type\":\"tool_use\",\"id\":\"c-2\",\"name\":\"now\",\"input\":{}}}"),
        ("message_delta", "{\"delta\":{\"stop_reason\":\"tool_use\",\"stop_sequence\":null},\"usage\":{\"output_tokens\":7}}"),
        ("message_stop", "{}"),
    ];
    assert_eq!(folded(&anthropic::api::Messages, &frames), whole);
}

// Bedrock.

#[test]
fn on_bedrock_the_model_is_only_in_the_address() {
    let provider = bedrock::api::anthropic_family("eu-west-1", nothing_known());
    let sent = provider.chat_request(&request()).unwrap();
    assert_eq!(
        sent.url,
        "https://bedrock-runtime.eu-west-1.amazonaws.com/model/m/invoke"
    );
    let body = body_of(&sent.body);
    assert_eq!(body.get("model"), None);
    assert_eq!(body.text_at("anthropic_version"), Some("bedrock-2023-05-31"));
    assert_eq!(body.u64_at("max_tokens"), Some(4_096));
    assert_eq!(provider.stream_request(&request()), Ok(None));
    assert_eq!(
        provider
            .read_chat(
                &HttpResponse::new(200, A_MESSAGE.as_bytes().to_vec()),
                &"m".into()
            )
            .unwrap(),
        the_message()
    );
    assert_eq!(
        provider.protocol().read_event(&SseFrame {
            event: "x".into(),
            data: "{}".into()
        }),
        Ok(vec![])
    );
}

#[test]
fn a_provider_answers_for_the_models_in_its_table() {
    let registry = Registry::parse(
        "provider = \"p\"\nreach = \"FirstPartyApi\"\n\n[[model]]\nid = \"m\"\ncontext_window = 100\nmax_output = 10\ntools = true\nsource = \"docs\"\nverified_at = \"2026-01-01\"\n",
    );
    let registry = registry.unwrap();
    let provider = anthropic::api::with(key(), Arc::new(registry));
    assert_eq!(
        provider.capabilities(&"m".into()),
        Some(
            ModelCapabilities::none(Reach::FirstPartyApi)
                .with_window(100, 10)
                .with_tools()
        )
    );
    assert_eq!(provider.capabilities(&"other".into()), None);
}
