use llmr::chat::message::{ContentBlock, ImageSource, Message, Role, StopReason};
use llmr::chat::request::{ChatRequest, ToolSchema};
use llmr::chat::response::ChatResponse;
use llmr::cost::usage::UsageCoverage;
use llmr::error::Error;
use llmr::json::Json;
use llmr::model::Reach;
use llmr::provider::Access;
use llmr::providers::anthropic;
use llmr::providers::cli::{
    Envelope, Invocation, LocalCli, ProcessOutput, UsageNames, PROBE_SECONDS,
};
use llmr::providers::openai;
use llmr::time::Duration;

fn cli() -> LocalCli {
    LocalCli::new("test-cli", "a-tool", vec![], Duration::from_secs(5))
}

fn request() -> ChatRequest {
    ChatRequest::new(
        "any-model",
        vec![Message::user("what is 2 + 2"), Message::assistant("4")],
    )
    .with_system("Answer briefly.")
}

fn names(names: &[&str]) -> Vec<String> {
    names.iter().map(|name| name.to_string()).collect()
}

/// A call with what the process came to.
fn chat(
    cli: &LocalCli,
    request: &ChatRequest,
    ran: Result<ProcessOutput, Error>,
) -> Result<ChatResponse, Error> {
    cli.invocation(request)?;
    cli.read_output(&ran?, &request.model)
}

/// A check with what the probe came to.
fn validate(cli: &LocalCli, model: &str, ran: Result<ProcessOutput, Error>) -> Access {
    match cli.probing() {
        Ok(_) => cli.read_probe(&ran, &model.into()),
        Err(access) => access,
    }
}

fn printed(text: &str) -> Result<ProcessOutput, Error> {
    Ok(ProcessOutput::new(Some(0), text.as_bytes().to_vec()))
}

#[test]
fn mod_the_prompt_says_who_said_what() {
    let prompt = LocalCli::prompt(&request());
    assert!(prompt.starts_with("Answer briefly."));
    assert!(prompt.contains("User: what is 2 + 2"));
    assert!(prompt.contains("Assistant: 4"));
}

#[test]
fn cli_the_prompt_says_who_said_what() {
    let prompt = LocalCli::prompt(&request());
    assert!(prompt.starts_with("Answer briefly."));
    assert!(prompt.contains("User: what is 2 + 2"));
    assert!(prompt.contains("Assistant: 4"));
    assert_eq!(
        prompt,
        "Answer briefly.\n\nUser: what is 2 + 2\n\nAssistant: 4"
    );
}

#[test]
fn mod_a_tool_that_was_not_told_what_it_serves_knows_nothing() {
    // The honest answer. A command line tool cannot be asked what it serves, so a provider that
    // answered for every name would turn a typo into a real model.
    assert_eq!(cli().capabilities(&"anything".into()), None);
}

#[test]
fn cli_a_tool_that_was_not_told_what_it_serves_knows_nothing() {
    let cli = LocalCli::new("t", "true", vec![], Duration::from_secs(1));
    assert_eq!(cli.capabilities(&"anything".into()), None);
}

#[test]
fn mod_a_named_model_answers_with_everything_off() {
    // Named means known. It does not mean capable: the limit here is the reach, not the model,
    // and the same model behind an API may well take tools.
    let cli = cli().serving(names(&["sonnet-5"]));

    let caps = cli.capabilities(&"sonnet-5".into());
    assert_eq!(caps.map(|c| c.tools), Some(false));
    assert_eq!(caps.map(|c| c.prompt_caching), Some(false));
    assert_eq!(caps.map(|c| c.reach), Some(Reach::LocalCli));

    assert_eq!(cli.capabilities(&"a-typo".into()), None);
}

#[test]
fn cli_a_named_model_answers_with_everything_off() {
    let cli = LocalCli::new("t", "true", vec![], Duration::from_secs(1))
        .serving(names(&["sonnet-5"]));

    let caps = cli.capabilities(&"sonnet-5".into());
    assert_eq!(caps.map(|c| c.tools), Some(false));
    assert_eq!(caps.map(|c| c.prompt_caching), Some(false));
    assert_eq!(caps.map(|c| c.reach), Some(Reach::LocalCli));

    assert_eq!(cli.capabilities(&"a-typo".into()), None);
}

#[test]
fn the_model_reaches_the_command_line_when_a_flag_was_named() {
    // Without a flag the model in a request is ignored, and the reply still reports the model
    // that was asked for. That is a lie a caller cannot detect, so the flag is worth checking.
    let cli = cli().with_model_flag("--model");
    let Invocation {
        program,
        args,
        stdin,
        timeout,
    } = cli.invocation(&request()).unwrap();
    assert_eq!(program, "a-tool");
    assert_eq!(args, vec!["--model".to_string(), "any-model".to_string()]);
    assert!(stdin.contains("what is 2 + 2"));
    assert_eq!(timeout, Duration::from_secs(5));
}

#[test]
fn mod_a_missing_tool_is_an_error_rather_than_an_empty_answer() {
    let message = chat(
        &cli(),
        &request(),
        Err(Error::Unsupported(
            "a-tool is not on the path, so nothing ran. This is not an empty answer".into(),
        )),
    )
    .err()
    .map(|e| e.to_string())
    .unwrap_or_default();
    assert!(message.contains("not an empty answer"), "{message}");
}

#[test]
fn mod_a_tool_that_prints_nothing_is_unreadable_rather_than_silent_success() {
    let refused = chat(
        &cli(),
        &request(),
        Ok(ProcessOutput::new(Some(0), Vec::new())),
    );
    assert!(matches!(refused, Err(Error::Unreadable(_))), "{refused:?}");
}

#[test]
fn cli_a_tool_that_prints_nothing_is_unreadable_rather_than_silent_success() {
    let refused = chat(&cli(), &request(), printed("  \n\t"));
    assert!(matches!(refused, Err(Error::Unreadable(_))), "{refused:?}");
}

#[test]
fn a_tool_that_failed_says_what_it_complained_about() {
    let failed =
        Ok(ProcessOutput::new(Some(2), Vec::new()).with_stderr(b"not logged in\n".to_vec()));
    let message = chat(&cli(), &request(), failed)
        .err()
        .map(|e| e.to_string())
        .unwrap_or_default();
    assert!(message.contains("not logged in"), "{message}");
    assert_eq!(message, "transient: a-tool exited with 2: not logged in");
}

#[test]
fn a_tool_that_was_killed_says_so() {
    let killed = Ok(ProcessOutput::new(None, Vec::new()).with_stderr(b"\r\n  \n".to_vec()));
    assert_eq!(
        chat(&cli(), &request(), killed),
        Err(Error::Transient(
            "a-tool exited with a signal: nothing".into()
        ))
    );
    let failed = Ok(ProcessOutput::new(Some(-1), Vec::new()).with_stderr(b"one\r\ntwo".to_vec()));
    assert_eq!(
        chat(&cli(), &request(), failed),
        Err(Error::Transient("a-tool exited with -1: one".into()))
    );
}

#[test]
fn a_request_this_reach_cannot_carry_is_refused_rather_than_stripped() {
    // The failure the whole capability list exists to prevent, arriving through the provider
    // that has the fewest capabilities of any.
    let with_tools = request().with_tools(vec![ToolSchema::new(
        "read_file",
        "read a file",
        Json::object().with("type", Json::text("object")),
    )]);

    let refused = chat(&cli(), &with_tools, printed("an answer"));
    let message = refused.err().map(|e| e.to_string()).unwrap_or_default();
    assert!(message.contains("tools"), "{message}");
    assert!(message.contains("quietly did without"), "{message}");
}

#[test]
fn an_image_through_a_reach_that_takes_text_is_refused_too() {
    // A tool prints and reads text. An image through here is a path at best and a wrong answer at
    // worst: the model would answer about a picture it never received, and the reply would read
    // as though it had.
    let with_an_image = ChatRequest::new(
        "m",
        vec![Message {
            role: Role::User,
            content: vec![ContentBlock::Image {
                media_type: "image/png".into(),
                source: ImageSource::Bytes(vec![0x89, 0x50]),
            }],
        }],
    );

    let refused = chat(&cli(), &with_an_image, printed("an answer"));
    let message = refused.err().map(|e| e.to_string()).unwrap_or_default();
    assert!(message.contains("images"), "{message}");
}

#[test]
fn a_plain_request_still_goes_through() {
    // The other half. A refusal that fired on everything would make this provider useless rather
    // than honest.
    let reply = chat(&cli(), &request(), printed("an answer"));
    assert!(reply.is_ok());
    let reply = reply.unwrap();
    assert_eq!(reply.text(), "an answer");
    assert_eq!(reply.stop_reason, StopReason::Other);
    assert_eq!(
        reply.stop_details(),
        Some("a command line tool does not report why it stopped")
    );
}

fn an_envelope(text: &str) -> String {
    Json::object()
        .with("type", Json::text("result"))
        .with("result", Json::text(text))
        .with(
            "usage",
            Json::object()
                .with("input_tokens", Json::Unsigned(10))
                .with("cache_creation_input_tokens", Json::Unsigned(26_193))
                .with("cache_read_input_tokens", Json::Unsigned(0))
                .with("output_tokens", Json::Unsigned(7)),
        )
        .to_text()
}

/// The envelope `an_envelope` writes, spelled out here rather than borrowed from a vendor preset.
fn an_envelope_reader() -> Envelope {
    Envelope::at("/result").with_usage("/usage", UsageNames::anthropic())
}

#[test]
fn an_envelope_yields_the_answer_rather_than_the_document() {
    // Without this the caller is handed a JSON document where a sentence was expected, and
    // everything downstream treats it as prose.
    let cli = cli().reading(an_envelope_reader());
    let reply = chat(&cli, &request(), printed(&an_envelope("Four."))).expect("a reply");
    assert_eq!(reply.text(), "Four.");
}

#[test]
fn usage_the_tool_reported_is_read_rather_than_thrown_away() {
    // A tool that measures and is not read reports as unmeasured, and a cost report built on that
    // says the call was free.
    let cli = cli().reading(an_envelope_reader());
    let usage = chat(&cli, &request(), printed(&an_envelope("Four.")))
        .map(|r| r.usage)
        .unwrap_or_default();
    assert_eq!(usage.input_tokens, Some(10));
    assert_eq!(usage.cache_write_tokens, Some(26_193));
    assert_eq!(usage.output_tokens, Some(7));
    assert_eq!(usage.coverage(), UsageCoverage::Exact);
}

#[test]
fn a_tool_that_promised_json_and_printed_prose_is_unreadable() {
    let cli = cli().reading(an_envelope_reader());
    let refused = chat(&cli, &request(), printed("just some words"));
    assert!(matches!(refused, Err(Error::Unreadable(_))), "{refused:?}");
}

#[test]
fn an_envelope_with_no_usage_in_it_reports_absent() {
    // The other half. Reading an envelope must not invent numbers for a tool that measured
    // nothing.
    let cli = cli().reading(an_envelope_reader());
    let usage = chat(&cli, &request(), printed("{\"result\":\"Four.\"}"))
        .map(|r| r.usage)
        .unwrap_or_default();
    assert_eq!(usage.coverage(), UsageCoverage::Absent);
}

#[test]
fn a_field_without_a_name_is_absent() {
    let cli = cli().reading(
        Envelope::at("/result").with_usage("/usage", UsageNames::new("in", "", "", "out")),
    );
    let usage = chat(
        &cli,
        &request(),
        printed("{\"result\":\"Four.\",\"usage\":{\"in\":3,\"out\":1,\"\":9}}"),
    )
    .map(|r| r.usage)
    .unwrap_or_default();
    assert_eq!(usage.input_tokens, Some(3));
    assert_eq!(usage.cache_read_tokens, None);
    assert_eq!(usage.cache_write_tokens, None);
    assert_eq!(usage.coverage(), UsageCoverage::Partial);
}

#[test]
fn an_envelope_without_an_answer_says_where_it_looked() {
    let cli = cli().reading(Envelope::at("/data/result"));
    assert_eq!(
        chat(&cli, &request(), printed("{\"data\":{\"result\":\" Four. \"}}"))
            .map(|r| r.text()),
        Ok("Four.".to_string())
    );
    assert_eq!(
        chat(&cli, &request(), printed("{\"data\":{}}")),
        Err(Error::Unreadable(
            "a-tool printed an envelope with no answer at /data/result".into()
        ))
    );
    assert_eq!(
        chat(&cli, &request(), printed("{\"data\":{\"result\":\"  \"}}")),
        Err(Error::Unreadable(
            "a-tool printed an envelope whose answer was empty".into()
        ))
    );
}

#[test]
fn mod_a_reply_reports_no_usage_rather_than_zero() {
    let usage = chat(&cli(), &request(), printed("four"))
        .map(|r| r.usage)
        .unwrap_or_default();
    assert_eq!(usage.coverage(), UsageCoverage::Absent);
}

#[test]
fn cli_a_reply_reports_no_usage_rather_than_zero() {
    let usage = chat(&cli(), &request(), printed("User: what is 2 + 2"))
        .map(|r| r.usage)
        .unwrap_or_default();
    assert_eq!(usage.coverage(), UsageCoverage::Absent);
}

#[test]
fn a_tool_with_no_probe_answers_unknown_rather_than_denied() {
    // Nothing was asked. Denied would take a perfectly good tool out of a router for the crime of
    // not having been configured with a question.
    let cli = cli().serving(names(&["any-model"]));
    let access = validate(&cli, "any-model", printed("an answer"));

    assert!(access.is_unknown(), "{access:?}");
    assert!(
        access.detail().unwrap_or_default().contains("with_probe"),
        "{access:?}"
    );
}

#[test]
fn a_probed_tool_that_runs_and_serves_the_model_is_ready() {
    let cli = cli()
        .with_probe(names(&["--version"]))
        .serving(names(&["sonnet-5"]));

    assert_eq!(
        validate(&cli, "sonnet-5", printed("1.2.3\n")),
        Access::Ready
    );
}

#[test]
fn a_tool_that_is_not_installed_is_denied() {
    // Settled. Nothing clears this but installing the program, so an unknown here would send a
    // router on retrying something that will never work.
    let missing = cli()
        .with_probe(names(&["--version"]))
        .serving(names(&["any-model"]));

    let access = validate(
        &missing,
        "any-model",
        Err(Error::Unsupported(
            "a-tool is not on the path, so nothing ran. This is not an empty answer".into(),
        )),
    );
    assert!(access.is_denied(), "{access:?}");
    assert!(
        access
            .detail()
            .unwrap_or_default()
            .contains("not on the path"),
        "{access:?}"
    );
}

#[test]
fn a_tool_that_is_installed_and_signed_out_is_denied_and_says_what_it_complained_about() {
    // The case this whole method exists for. Without it, a signed out tool looks fine at startup
    // and fails inside the first request somebody was waiting on.
    let cli = cli()
        .with_probe(names(&["--version"]))
        .serving(names(&["any-model"]));

    let access = validate(
        &cli,
        "any-model",
        Ok(ProcessOutput::new(Some(1), Vec::new())
            .with_stderr(b"\nnot logged in: run `a-tool login`\n".to_vec())),
    );
    assert!(access.is_denied(), "{access:?}");
    assert!(
        access
            .detail()
            .unwrap_or_default()
            .contains("not logged in"),
        "{access:?}"
    );
}

#[test]
fn a_probe_that_could_not_be_run_at_all_is_unknown() {
    // A machine under load that could not spawn is a moment, not an answer.
    let cli = cli()
        .with_probe(names(&["--version"]))
        .serving(names(&["any-model"]));

    assert!(validate(
        &cli,
        "any-model",
        Err(Error::Timeout {
            elapsed: Duration::from_secs(10),
        })
    )
    .is_unknown());
}

#[test]
fn a_running_tool_that_was_never_told_what_it_serves_is_unknown() {
    // The tool works and nobody has said which models it reaches. Ready would be a claim about a
    // model no one has made, and denied would blame the tool for it.
    let cli = cli().with_probe(names(&["--version"]));
    let access = validate(&cli, "sonnet-5", printed("1.2.3\n"));

    assert!(access.is_unknown(), "{access:?}");
    assert!(
        access.detail().unwrap_or_default().contains("serving"),
        "{access:?}"
    );
}

#[test]
fn validate_and_capabilities_agree_about_a_model_nobody_named() {
    // If these disagreed, a route that can never be selected would report as reachable.
    let cli = cli()
        .with_probe(names(&["--version"]))
        .serving(names(&["sonnet-5"]));

    assert_eq!(cli.capabilities(&"a-typo".into()), None);
    assert!(validate(&cli, "a-typo", printed("1.2.3\n")).is_denied());
}

#[test]
fn the_probe_runs_the_arguments_it_was_given_and_sends_no_prompt() {
    // A probe that sent the conversation would be a preflight that costs a call, which is the one
    // thing a check may not do.
    let cli = cli()
        .with_probe(names(&["auth", "status"]))
        .serving(names(&["any-model"]));

    let probe = cli.probing().unwrap();
    assert_eq!(probe.args, vec!["auth".to_string(), "status".to_string()]);
    assert!(probe.stdin.is_empty(), "{:?}", probe.stdin);
}

#[test]
fn a_probe_is_not_given_the_whole_chat_deadline() {
    // A chat timeout is minutes. A program that hangs on `--version` would hold startup for all of
    // it, and a preflight nobody can wait through is one nobody runs.
    let cli = LocalCli::new("test-cli", "a-tool", vec![], Duration::from_secs(300))
        .with_probe(names(&["--version"]))
        .serving(names(&["any-model"]));

    assert_eq!(
        cli.probing().unwrap().timeout,
        Duration::from_secs(PROBE_SECONDS)
    );
}

#[test]
fn a_shorter_chat_deadline_is_not_stretched_to_the_probe_ceiling() {
    // The other half. A caller who asked for two seconds meant two seconds.
    let cli = LocalCli::new("test-cli", "a-tool", vec![], Duration::from_secs(2))
        .with_probe(names(&["--version"]))
        .serving(names(&["any-model"]));

    assert_eq!(cli.probing().unwrap().timeout, Duration::from_secs(2));
}

#[test]
fn cli_the_preset_is_probed() {
    // A preset that shipped without one would answer unknown for every user who never read this
    // far, which is the same as not having the method at all.
    assert!(anthropic::cli::provider("a-tool", Duration::from_secs(60)).is_probed());
}

#[test]
fn the_preset_is_probed() {
    assert!(openai::cli::provider(Duration::from_secs(60)).is_probed());
}

#[test]
fn the_preset_does_not_claim_to_know_how_the_account_is_billed() {
    // The same program signed in one way is a flat fee and signed in another is metered against
    // an API key. A preset that guessed would write a metered call down as costing nothing.
    assert_eq!(
        anthropic::cli::provider("a-tool", Duration::from_secs(60)).subscription(),
        None
    );
    assert_eq!(
        anthropic::cli::provider("a-tool", Duration::from_secs(60))
            .billed_by("max")
            .subscription(),
        Some("max")
    );
}

#[test]
fn the_presets_read_what_their_tools_print() {
    let tool = anthropic::cli::provider("a-tool", Duration::from_secs(60));
    let Invocation { program, args, .. } = tool.invocation(&request()).unwrap();
    assert_eq!(program, "a-tool");
    assert_eq!(tool.id(), "a-tool-cli");
    assert_eq!(
        args,
        names(&["-p", "--output-format", "json", "--model", "any-model"])
    );
    let reply = chat(
        &tool,
        &request(),
        printed(
            "{\"result\":\"Four.\",\"stop_reason\":\"end_turn\",\"usage\":{\"input_tokens\":4685,\"cache_creation_input_tokens\":20208,\"cache_read_input_tokens\":0,\"output_tokens\":7}}",
        ),
    )
    .unwrap();
    assert!(reply.is_complete());
    assert_eq!(reply.stop_details(), None);
    assert_eq!(reply.usage.input_tokens, Some(4_685));

    let codex = openai::cli::provider(Duration::from_secs(60));
    let reply = chat(
        &codex,
        &request(),
        printed(
            "{\"output\":\"Four.\",\"usage\":{\"input_tokens\":12,\"cached_input_tokens\":2,\"output_tokens\":1}}",
        ),
    )
    .unwrap();
    assert_eq!(reply.text(), "Four.");
    assert_eq!(reply.usage.cache_read_tokens, Some(2));
    assert_eq!(reply.usage.cache_write_tokens, None);
    assert_eq!(reply.usage.coverage(), UsageCoverage::Partial);
}
