use llmr::cost::ledger::Ledger;
use llmr::cost::usage::{Usage, UsageCoverage};
use llmr::embed::{
    EmbedRequest, Embedding, EmbeddingCapabilities, Embeddings, Purpose,
};
use llmr::error::Error;
use llmr::json::{Json, Number};
use llmr::model::{ModelId, Reach};
use llmr::provider::Access;
use llmr::providers::gemini::embed::GeminiEmbeddings;
use llmr::providers::openai::embed::OpenAiEmbeddings;
use llmr::providers::{gemini, openai};
use llmr::secret::Secret;
use llmr::transport::HttpResponse;

fn number(text: &str) -> Number {
    Number::parse(text).unwrap()
}

fn vector(model: &str, numbers: &[&str]) -> Embedding {
    Embedding::new(model.into(), numbers.iter().map(|n| number(n)).collect())
}

fn texts(reply: Embeddings) -> Vec<Vec<String>> {
    reply
        .into_vectors()
        .into_iter()
        .map(|v| v.iter().map(|n| n.as_str().to_string()).collect())
        .collect()
}

#[test]
fn only_vectors_of_one_model_and_one_width_compare() {
    let one = vector("text-embedding-3-small", &["1.0", "0.0", "0.0"]);
    let other = vector("embed-english-v3", &["1.0", "0.0", "0.0"]);
    assert!(!one.is_comparable(&other));
    assert!(one.is_comparable(&vector("text-embedding-3-small", &["0.0", "0.0", "1.0"])));
    assert!(!one.is_comparable(&vector("text-embedding-3-small", &["1.0", "0.0"])));
    assert!(!vector("m", &[]).is_comparable(&vector("m", &[])));
}

#[test]
fn a_request_says_nothing_about_purpose_unless_asked_to() {
    // A guessed purpose is a retrieval quality problem that never surfaces as an error, so the
    // absence has to be representable.
    let plain = EmbedRequest::new("m".into(), vec!["a".into()]);
    assert_eq!(plain.purpose, None);
    assert_eq!(plain.dimensions, None);

    let asked = EmbedRequest::one("m", "a")
        .for_purpose(Purpose::Query)
        .with_dimensions(256);
    assert_eq!(asked.purpose, Some(Purpose::Query));
    assert_eq!(asked.dimensions, Some(256));
    assert_eq!(asked.len(), 1);
    assert_eq!(Purpose::Query.to_string(), "query");
    assert_eq!(Purpose::Document.as_str(), "document");
}

#[test]
fn an_empty_request_can_be_seen_before_it_reaches_a_network() {
    assert!(EmbedRequest::new("m".into(), vec![]).is_empty());
    assert!(!EmbedRequest::one("m", "a").is_empty());
}

#[test]
fn a_reply_reports_one_dimension_count_only_when_its_vectors_agree() {
    let model: ModelId = "m".into();
    let agreeing = Embeddings::new(
        vec![vector("m", &["1.0", "2.0"]), vector("m", &["3.0", "4.0"])],
        model.clone(),
        Usage::absent(),
    );
    assert_eq!(agreeing.dimensions(), Some(2));
    assert_eq!(agreeing.len(), 2);

    let ragged = Embeddings::new(
        vec![vector("m", &["1.0", "2.0"]), vector("m", &["3.0"])],
        model.clone(),
        Usage::absent(),
    );
    assert_eq!(
        ragged.dimensions(),
        None,
        "worth finding out about rather than averaging over"
    );

    let nothing = Embeddings::new(vec![], model, Usage::absent());
    assert_eq!(nothing.dimensions(), None);
    assert!(nothing.is_empty());
}

#[test]
fn capabilities_start_at_nothing_rather_than_at_something_plausible() {
    let none = EmbeddingCapabilities::none(Reach::FirstPartyApi);
    assert_eq!(none.dimensions, 0);
    assert_eq!(none.max_batch, 0);
    assert!(!none.resizable);
    assert!(!none.purposes);

    let filled = EmbeddingCapabilities::none(Reach::FirstPartyApi)
        .with_dimensions(1_536)
        .with_max_input_tokens(8_191)
        .with_max_batch(2_048)
        .resizable();
    assert_eq!(filled.dimensions, 1_536);
    assert!(filled.resizable);
    assert!(!filled.purposes, "still false unless said");
}

#[test]
fn dropping_the_model_is_something_a_reader_can_see_happening() {
    let reply = Embeddings::new(
        vec![vector("m", &["1.0"]), vector("m", &["2.0"])],
        "m".into(),
        Usage::absent(),
    );
    assert_eq!(texts(reply), vec![vec!["1.0"], vec!["2.0"]]);
}

fn openai_embedder() -> OpenAiEmbeddings {
    openai::embed::at(
        "test",
        "https://example.invalid/v1/",
        Secret::new("test-key", "sk-test"),
        Reach::FirstPartyApi,
    )
}

fn reply(json: &str) -> HttpResponse {
    HttpResponse::new(200, json.as_bytes().to_vec())
}

/// A call with what came back.
fn embed(
    embedder: &OpenAiEmbeddings,
    request: &EmbedRequest,
    response: HttpResponse,
) -> Result<Embeddings, Error> {
    embedder.embed_request(request)?;
    embedder.read_reply(&response, request)
}

#[test]
fn vectors_come_back_in_the_order_the_inputs_went_out() {
    // The reply is deliberately out of order, which is why the vendor sends an index at all.
    // Trusting arrival order here pairs every document with the wrong vector, and nothing
    // downstream fails.
    let answer = embed(
        &openai_embedder(),
        &EmbedRequest::new(
            "text-embedding-3-small".into(),
            vec!["first".into(), "second".into(), "third".into()],
        ),
        reply(
            "{\"data\":[{\"object\":\"embedding\",\"index\":1,\"embedding\":[9.0]},{\"index\":0,\"embedding\":[1.0]},{\"index\":2,\"embedding\":[5.0]}],\"model\":\"text-embedding-3-small\",\"usage\":{\"prompt_tokens\":12,\"total_tokens\":12}}",
        ),
    )
    .unwrap();

    assert_eq!(
        texts(answer),
        vec![vec!["1.0"], vec!["9.0"], vec!["5.0"]],
        "index 0 is the first input, whatever order it arrived in"
    );
}

#[test]
fn a_whole_number_in_a_vector_is_a_number() {
    let answer = embed(
        &openai_embedder(),
        &EmbedRequest::one("m", "hello"),
        reply("{\"data\":[{\"index\":0,\"embedding\":[1,-2,0.25]}]}"),
    )
    .unwrap();
    assert_eq!(texts(answer), vec![vec!["1.0", "-2.0", "0.25"]]);
}

#[test]
fn every_vector_carries_the_model_the_reply_named() {
    // Not the model that was asked for. A vector filed under the wrong name is one that will be
    // compared against a space it does not belong to.
    let answer = embed(
        &openai_embedder(),
        &EmbedRequest::one("text-embedding-3-small", "hello"),
        reply(
            "{\"data\":[{\"index\":0,\"embedding\":[1.0]}],\"model\":\"text-embedding-3-small-v2\"}",
        ),
    )
    .unwrap();

    assert_eq!(answer.model.as_str(), "text-embedding-3-small-v2");
    assert_eq!(
        answer.get(0).map(|v| v.model.as_str()),
        Some("text-embedding-3-small-v2")
    );
    assert_eq!(answer.get(1), None);
}

#[test]
fn a_batch_that_comes_back_short_is_an_error_rather_than_a_short_list() {
    let answer = embed(
        &openai_embedder(),
        &EmbedRequest::new("m".into(), vec!["one".into(), "two".into()]),
        reply("{\"data\":[{\"index\":0,\"embedding\":[1.0]}],\"model\":\"m\"}"),
    );

    match answer {
        Err(Error::Unreadable(message)) => {
            assert!(message.contains("lined up"), "{message}");
        }
        other => panic!("a short batch has to fail: {other:?}"),
    }
}

#[test]
fn indices_that_are_not_one_per_input_are_refused() {
    let request = EmbedRequest::new("m".into(), vec!["one".into(), "two".into()]);
    for rows in [
        "[{\"index\":0,\"embedding\":[1.0]},{\"index\":0,\"embedding\":[2.0]}]",
        "[{\"index\":0,\"embedding\":[1.0]},{\"index\":2,\"embedding\":[2.0]}]",
    ] {
        assert_eq!(
            embed(
                &openai_embedder(),
                &request,
                reply(&format!("{{\"data\":{rows}}}"))
            ),
            Err(Error::Unreadable(
                "the reply's indices are not one per input, so nothing can be lined up".into()
            ))
        );
    }
}

#[test]
fn a_row_with_no_index_cannot_be_put_anywhere() {
    match embed(
        &openai_embedder(),
        &EmbedRequest::one("m", "hello"),
        reply("{\"data\":[{\"embedding\":[1.0]}],\"model\":\"m\"}"),
    ) {
        Err(Error::Unreadable(message)) => assert!(message.contains("index"), "{message}"),
        other => panic!("guessing the position is the bug: {other:?}"),
    }
}

#[test]
fn a_vector_that_is_not_numbers_is_unreadable() {
    assert_eq!(
        embed(
            &openai_embedder(),
            &EmbedRequest::one("m", "hello"),
            reply("{\"data\":[{\"index\":0,\"embedding\":[1.0,\"AAAA\"]}]}"),
        ),
        Err(Error::Unreadable(
            "the vector at index 0 held something that was not a number. An endpoint answering base64 does this".into()
        ))
    );
    assert_eq!(
        embed(
            &openai_embedder(),
            &EmbedRequest::one("m", "hello"),
            reply("{\"data\":[{\"index\":0,\"embedding\":\"AAAA\"}]}"),
        ),
        Err(Error::Unreadable(
            "the embedding at index 0 had no vector".into()
        ))
    );
    assert_eq!(
        embed(
            &openai_embedder(),
            &EmbedRequest::one("m", "hello"),
            reply("{}"),
        ),
        Err(Error::Unreadable("the reply had no data array".into()))
    );
}

#[test]
fn dimensions_asked_for_and_not_honoured_are_refused() {
    // The endpoint answered 200 with vectors of the wrong width. A caller who sized a column for
    // 256 has no other way to find out.
    match embed(
        &openai_embedder(),
        &EmbedRequest::one("m", "hello").with_dimensions(2),
        reply("{\"data\":[{\"index\":0,\"embedding\":[1.0,2.0,3.0,4.0]}],\"model\":\"m\"}"),
    ) {
        Err(Error::Unsupported(message)) => {
            assert!(message.contains("does not resize"), "{message}");
        }
        other => panic!("silently wrong width is the failure: {other:?}"),
    }
}

#[test]
fn a_model_known_not_to_resize_is_refused_before_the_network() {
    let embedder = openai_embedder().knowing(
        "text-embedding-ada-002",
        EmbeddingCapabilities::none(Reach::FirstPartyApi).with_dimensions(1_536),
    );

    let answer = embedder.embed_request(
        &EmbedRequest::one("text-embedding-ada-002", "hello").with_dimensions(256),
    );

    assert!(matches!(answer, Err(Error::Unsupported(_))), "{answer:?}");
    assert_eq!(
        embedder
            .capabilities(&"text-embedding-ada-002".into())
            .map(|c| c.dimensions),
        Some(1_536)
    );
    assert_eq!(embedder.capabilities(&"m".into()), None);
    assert_eq!(embedder.reach(), Reach::FirstPartyApi);
    assert_eq!(embedder.id(), "test");
}

#[test]
fn embed_an_empty_batch_never_reaches_the_wire() {
    let nothing = EmbedRequest::new("m".into(), vec![]);
    let answer = openai_embedder().embed_request(&nothing);
    assert!(
        matches!(answer, Err(Error::InvalidRequest(_))),
        "{answer:?}"
    );
    let nothing = EmbedRequest::new("text-embedding-004".into(), vec![]);
    let answer = gemini_embedder().embed_request(&nothing);
    assert!(
        matches!(answer, Err(Error::InvalidRequest(_))),
        "{answer:?}"
    );
}

#[test]
fn a_reply_with_no_usage_is_absent_rather_than_nought() {
    let answer = embed(
        &openai_embedder(),
        &EmbedRequest::one("m", "hello"),
        reply("{\"data\":[{\"index\":0,\"embedding\":[1.0]}],\"model\":\"m\"}"),
    )
    .unwrap();

    assert_eq!(answer.usage, Usage::absent());
    assert_eq!(answer.usage.coverage(), UsageCoverage::Absent);
}

#[test]
fn a_measured_call_reads_as_exact_rather_than_partial() {
    // The reason `Usage::embedding` exists. Left as one field of four, every embedding call would
    // turn a ledger total into a floor for good.
    let answer = embed(
        &openai_embedder(),
        &EmbedRequest::one("m", "hello"),
        reply(
            "{\"data\":[{\"index\":0,\"embedding\":[1.0]}],\"model\":\"m\",\"usage\":{\"prompt_tokens\":8,\"total_tokens\":8}}",
        ),
    )
    .unwrap();

    assert_eq!(answer.usage.prompt_tokens(), Some(8));
    assert_eq!(answer.usage.coverage(), UsageCoverage::Exact);
}

#[test]
fn the_request_says_float_and_carries_dimensions_only_when_asked() {
    let embedder = openai_embedder();
    let plain = embedder
        .embed_request(&EmbedRequest::one("m", "hello"))
        .unwrap();
    let sized = embedder
        .embed_request(&EmbedRequest::one("m", "hello").with_dimensions(2))
        .unwrap();
    assert_eq!(plain.url, "https://example.invalid/v1/embeddings");
    assert_eq!(
        plain.headers[0],
        ("authorization".to_string(), "Bearer sk-test".to_string())
    );

    let plain = Json::parse_bytes(&plain.body).unwrap();
    let sized = Json::parse_bytes(&sized.body).unwrap();
    assert_eq!(plain.text_at("encoding_format"), Some("float"));
    assert!(
        plain.get("dimensions").is_none(),
        "nothing asked, nothing sent"
    );
    assert_eq!(sized.u64_at("dimensions"), Some(2));
    assert_eq!(
        sized.get("input"),
        Some(&Json::Array(vec![Json::text("hello")]))
    );
}

#[test]
fn embed_a_rejected_credential_is_denied_rather_than_unknown() {
    // The rule the whole `Access` split exists for. An unknown reads as "ask again later", so the
    // one failure a person has to fix would never surface.
    let refused = Ok(HttpResponse::new(401, b"no".to_vec()));
    let answer = openai_embedder().read_check(&refused, &"m".into());
    assert!(answer.is_denied(), "{answer:?}");
    let answer = gemini_embedder().read_check(&refused);
    assert!(answer.is_denied(), "{answer:?}");
}

#[test]
fn a_moment_rather_than_an_answer_is_unknown() {
    let answer = openai_embedder().read_check(
        &Err(Error::Transient("the network went away".into())),
        &"m".into(),
    );
    assert!(answer.is_unknown(), "{answer:?}");
    let answer = openai_embedder().read_check(&Ok(reply("not a list")), &"m".into());
    assert!(answer.is_unknown(), "{answer:?}");
}

#[test]
fn a_model_the_vendor_lists_is_ready_and_one_it_does_not_is_denied() {
    let embedder = openai_embedder();
    let listing = Ok(reply("{\"data\":[{\"id\":\"text-embedding-3-small\"}]}"));
    assert_eq!(
        embedder.check_request().map(|r| r.url),
        Ok("https://example.invalid/v1/models".to_string())
    );

    assert!(embedder
        .read_check(&listing, &"text-embedding-3-small".into())
        .is_ready());
    assert!(embedder
        .read_check(&listing, &"not-a-model".into())
        .is_denied());
}

fn gemini_embedder() -> GeminiEmbeddings {
    gemini::embed::with(Secret::new("gemini-api-key", "test-key"))
}

/// A call with what came back.
fn embed_contents(request: &EmbedRequest, response: HttpResponse) -> Result<Embeddings, Error> {
    let embedder = gemini_embedder();
    embedder.embed_request(request)?;
    embedder.read_reply(&response, request)
}

fn body_of(request: &EmbedRequest) -> Json {
    Json::parse_bytes(&gemini_embedder().embed_request(request).unwrap().body).unwrap()
}

fn element(body: &Json, index: usize) -> Json {
    body.array_at("requests").unwrap()[index].clone()
}

#[test]
fn a_purpose_reaches_the_wire_as_a_task_type() {
    // The reason this provider exists. A caller setting a purpose that nothing wrote anywhere
    // would get the same vector either way with nothing saying so.
    let plain = EmbedRequest::one("text-embedding-004", "a");
    assert!(
        element(&body_of(&plain), 0).get("taskType").is_none(),
        "nothing said, nothing sent"
    );
    let stored = EmbedRequest::one("text-embedding-004", "a").for_purpose(Purpose::Document);
    assert_eq!(
        element(&body_of(&stored), 0).text_at("taskType"),
        Some("RETRIEVAL_DOCUMENT")
    );
    let asked = EmbedRequest::one("text-embedding-004", "a").for_purpose(Purpose::Query);
    assert_eq!(
        element(&body_of(&asked), 0).text_at("taskType"),
        Some("RETRIEVAL_QUERY")
    );
}

#[test]
fn the_model_is_written_in_the_path_and_in_every_element() {
    // This API requires both and rejects a request carrying only one. Both come from the same
    // `ModelId`, so they cannot disagree.
    let request = EmbedRequest::new(
        "text-embedding-004".into(),
        vec!["a".into(), "b".into()],
    );
    let sent = gemini_embedder().embed_request(&request).unwrap();
    assert!(
        sent.url
            .ends_with("/models/text-embedding-004:batchEmbedContents"),
        "{}",
        sent.url
    );
    let body = body_of(&request);
    assert_eq!(
        element(&body, 0).text_at("model"),
        Some("models/text-embedding-004")
    );
    assert_eq!(
        element(&body, 1).text_at("model"),
        Some("models/text-embedding-004")
    );
    assert_eq!(
        element(&body, 1).pointer("/content/parts/0/text"),
        Some(Json::text("b"))
    );
}

#[test]
fn a_count_that_does_not_match_is_unrecoverable_here() {
    // With no index in the reply, position is the only thing tying a vector to its text. A short
    // batch cannot be repaired and must not be returned.
    match embed_contents(
        &EmbedRequest::new("text-embedding-004".into(), vec!["a".into(), "b".into()]),
        reply("{\"embeddings\":[{\"values\":[1.0]}]}"),
    ) {
        Err(Error::Unreadable(message)) => {
            assert!(message.contains("no index"), "{message}");
        }
        other => panic!("a short batch has to fail: {other:?}"),
    }
}

#[test]
fn every_call_reports_usage_as_absent_rather_than_nought() {
    // This shape has no token block at all. Zeros would turn a cost nobody measured into a call
    // that was free in whatever adds it up.
    let answer = embed_contents(
        &EmbedRequest::one("text-embedding-004", "a"),
        reply("{\"embeddings\":[{\"values\":[1.0,2.0]}]}"),
    )
    .unwrap();

    assert_eq!(answer.usage, Usage::absent());
    assert_eq!(answer.usage.coverage(), UsageCoverage::Absent);
}

#[test]
fn a_ledger_holding_one_of_these_says_at_least() {
    // The absent rule, one step along, which is the whole reason it is a rule.
    let answer = embed_contents(
        &EmbedRequest::one("text-embedding-004", "a"),
        reply("{\"embeddings\":[{\"values\":[1.0]}]}"),
    )
    .unwrap();

    let mut ledger = Ledger::new();
    ledger.record_unpriced(answer.model.as_str(), answer.usage);

    let total = ledger
        .total()
        .unwrap_or_else(|| unreachable!("one currency"));
    assert!(!total.is_exact(), "{total:?}");
    assert_eq!(ledger.calls(), 1, "the call still happened");
}

#[test]
fn dimensions_are_asked_for_and_checked_on_the_way_back() {
    let request = EmbedRequest::one("text-embedding-004", "a").with_dimensions(2);
    match embed_contents(
        &request,
        reply("{\"embeddings\":[{\"values\":[1.0,2.0,3.0]}]}"),
    ) {
        Err(Error::Unsupported(message)) => {
            assert!(message.contains("does not resize"), "{message}");
        }
        other => panic!("silently wrong width is the failure: {other:?}"),
    }
    assert_eq!(
        element(&body_of(&request), 0).u64_at("outputDimensionality"),
        Some(2)
    );
}

#[test]
fn every_vector_carries_a_model_even_though_the_reply_names_none() {
    let answer = embed_contents(
        &EmbedRequest::new("text-embedding-004".into(), vec!["a".into(), "b".into()]),
        reply("{\"embeddings\":[{\"values\":[1.0]},{\"values\":[2.0]}]}"),
    )
    .unwrap();

    for vector in &answer.vectors {
        assert_eq!(vector.model.as_str(), "text-embedding-004");
    }
    assert_eq!(answer.dimensions(), Some(1));
}

#[test]
fn a_model_that_is_not_there_is_denied_and_a_bad_moment_is_not() {
    let embedder = gemini_embedder();
    assert_eq!(
        embedder.check_request(&"m".into()).map(|r| r.url),
        Ok("https://generativelanguage.googleapis.com/v1beta/models/m".to_string())
    );
    assert!(embedder
        .read_check(&Ok(HttpResponse::new(404, b"nope".to_vec())))
        .is_denied());
    assert!(embedder
        .read_check(&Err(Error::Transient("the network went away".into())))
        .is_unknown());
    assert_eq!(embedder.read_check(&Ok(reply("{}"))), Access::Ready);
}

#[test]
fn a_row_that_cannot_be_read_says_which() {
    let request = EmbedRequest::new("m".into(), vec!["a".into(), "b".into()]);
    assert_eq!(
        embed_contents(
            &request,
            reply("{\"embeddings\":[{\"values\":[1.0]},{}]}")
        ),
        Err(Error::Unreadable(
            "the embedding at position 1 had no values".into()
        ))
    );
    assert_eq!(
        embed_contents(
            &request,
            reply("{\"embeddings\":[{\"values\":[true]},{}]}")
        ),
        Err(Error::Unreadable(
            "the vector at position 0 held something that was not a number".into()
        ))
    );
    let moved = gemini_embedder()
        .at("https://proxy.invalid/")
        .knowing("m", EmbeddingCapabilities::none(Reach::FirstPartyApi).with_purposes());
    assert_eq!(
        moved.embed_request(&request).map(|r| r.url),
        Ok("https://proxy.invalid/models/m:batchEmbedContents".to_string())
    );
    assert_eq!(
        moved.capabilities(&"m".into()).map(|c| c.purposes),
        Some(true)
    );
}

#[test]
fn every_vector_has_the_width_that_was_asked_for() {
    let request = EmbedRequest::new("m".into(), vec!["a".into(), "b".into()]).with_dimensions(2);
    assert_eq!(
        embed(
            &openai_embedder(),
            &request,
            reply("{\"data\":[{\"index\":0,\"embedding\":[1.0,2.0]},{\"index\":1,\"embedding\":[1.0]}],\"model\":\"m\"}")
        ),
        Err(Error::Unsupported(
            "test vectors came back with 1 dimensions after 2 were asked for, so this model does not resize"
                .into()
        ))
    );
    assert_eq!(
        embed_contents(
            &request,
            reply("{\"embeddings\":[{\"values\":[1.0,2.0]},{\"values\":[1.0,2.0,3.0]}]}")
        ),
        Err(Error::Unsupported(
            "gemini-embeddings: vectors came back with 3 dimensions after 2 were asked for, so m does not resize"
                .into()
        ))
    );
}

#[test]
fn whether_a_purpose_matters_goes_by_the_shape() {
    let row = EmbeddingCapabilities::none(Reach::FirstPartyApi);
    let openai = openai_embedder().knowing("m", row.with_purposes());
    assert_eq!(
        openai.capabilities(&"m".into()).map(|c| c.purposes),
        Some(false)
    );
    let gemini = gemini_embedder().knowing("m", row);
    assert_eq!(
        gemini.capabilities(&"m".into()).map(|c| c.purposes),
        Some(true)
    );
    assert_eq!(gemini.capabilities(&"n".into()), None);
}
