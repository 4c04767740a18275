use llmr::chat::message::{Message, StopReason};
use llmr::chat::response::ChatResponse;
use llmr::cost::usage::Usage;
use llmr::error::Error;
use llmr::model::{ModelCapabilities, Reach};
use llmr::provider::Access;
use llmr::testkit::{
    check_access, check_again, check_credential, check_identity, check_reply, check_stream,
    Streamed, NO_SUCH_MODEL,
};

fn have() -> ModelCapabilities {
    ModelCapabilities::none(Reach::FirstPartyApi).with_window(100, 10)
}

fn reply(text: &str) -> ChatResponse {
    ChatResponse::new(
        Message::assistant(text),
        StopReason::EndTurn,
        Usage {
            input_tokens: Some(1),
            cache_read_tokens: Some(0),
            cache_write_tokens: Some(0),
            output_tokens: Some(1),
            estimated: false,
        },
        "m".into(),
    )
}

fn with_nothing_in_it() -> ChatResponse {
    let mut empty = reply("");
    empty.message.content.clear();
    empty
}

fn says(broken: Option<String>, words: &str) {
    let broken = broken.unwrap_or_default();
    assert!(broken.contains(words), "{broken:?} does not say {words:?}");
}

#[test]
fn a_provider_that_keeps_its_promises_breaks_none() {
    assert_eq!(check_identity("p", None, Some(have()), "m"), None);
    assert_eq!(
        check_access(
            "p",
            "m",
            &Access::Ready,
            &Access::denied("no such model"),
            &Access::Ready
        ),
        None
    );
    assert_eq!(check_reply("p", &Ok(reply("Four."))), None);
    assert_eq!(
        check_stream("p", &Streamed::Whole(reply("Four.")), &reply("Four.")),
        None
    );
    assert_eq!(check_again("p", true), None);
    assert_eq!(check_credential("p", &Access::denied("401")), None);
    assert_eq!(NO_SUCH_MODEL, "llmr-contract-no-such-model");
}

#[test]
fn a_name_that_cannot_stand_in_a_record_is_a_broken_promise() {
    says(check_identity("", None, None, "m"), "no id");
    says(check_identity("a b", None, None, "m"), "\"a b\"");
    says(
        check_identity("p", Some(have()), None, "m"),
        "does not exist",
    );
    says(
        check_identity("p", None, Some(have().with_window(10, 11)), "m"),
        "more tokens than fit",
    );
    assert_eq!(
        check_identity("p", None, Some(have().with_window(0, 11)), "m"),
        None
    );
}

#[test]
fn an_answer_that_contradicts_itself_is_a_broken_promise() {
    let ready = || Access::Ready;
    let unknown = || Access::unknown("nobody asked");
    says(
        check_access("p", "m", &Access::denied("no"), &unknown(), &ready()),
        "cannot be reached (denied: no)",
    );
    says(
        check_access("p", "m", &ready(), &ready(), &ready()),
        "does not exist is reachable",
    );
    says(
        check_access("p", "m", &ready(), &unknown(), &unknown()),
        "answered ready and then unknown: nobody asked",
    );
}

#[test]
fn a_reply_that_says_nothing_is_a_broken_promise() {
    assert!(check_reply("p", &Err(Error::Transient("503".into()))).is_some());
    says(
        check_reply("p", &Ok(with_nothing_in_it())),
        "a reply with no content",
    );
    assert_eq!(check_reply("p", &Ok(reply(""))), None);
    let nameless = ChatResponse {
        model: "".into(),
        ..reply("Four.")
    };
    says(check_reply("p", &Ok(nameless)), "which model served");
}

#[test]
fn an_answer_that_cost_no_tokens_is_a_broken_promise() {
    let invented = |text: &str| {
        let mut reply = reply(text);
        reply.usage.output_tokens = Some(0);
        reply
    };
    says(
        check_reply("p", &Ok(invented("Four."))),
        "zero output tokens for a reply that has text in it",
    );
    assert_eq!(check_reply("p", &Ok(invented(""))), None);
}

#[test]
fn a_stream_that_differs_from_the_whole_reply_is_a_broken_promise() {
    let down = || Error::Transient("503".into());
    assert!(check_stream("p", &Streamed::NotStarted(down()), &reply("Four.")).is_some());
    assert!(check_stream("p", &Streamed::Broke(down()), &reply("Four.")).is_some());
    says(
        check_stream("p", &Streamed::Whole(with_nothing_in_it()), &reply("Four.")),
        "a reply with no content",
    );
    let unfinished = ChatResponse {
        stop_reason: StopReason::Interrupted,
        ..reply("Four.")
    };
    says(
        check_stream("p", &Streamed::Whole(unfinished), &reply("Four.")),
        "why it stopped",
    );
    let unmeasured = ChatResponse {
        usage: Usage::absent(),
        ..reply("Four.")
    };
    says(
        check_stream("p", &Streamed::Whole(unmeasured), &reply("Four.")),
        "reports usage differently",
    );
    let nameless = ChatResponse {
        model: " ".into(),
        ..reply("Four.")
    };
    says(
        check_stream("p", &Streamed::Whole(nameless), &reply("Four.")),
        "which model served",
    );
    assert!(check_again("p", false).is_some());
}

#[test]
fn a_rejected_credential_has_to_be_denied() {
    assert!(check_credential("p", &Access::unknown("later")).is_some());
    assert!(check_credential("p", &Access::Ready).is_some());
}
