//! The Codex command line tool.
//!
//! Same shape as every other preset: a program, its arguments, and what it prints. What to
//! run, the deadline and the failure cases are [`LocalCli`]'s.
//!
//! It sits under `openai` because that is whose tool it is. What it can carry has nothing to
//! do with `providers::openai::api` beside it, and everything to do with being a
//! subprocess, which is what [`crate::Reach`] on its capabilities says, and the module path
//! does not.

use crate::providers::cli::{Envelope, Layout, LocalCli, Names, Setup, UsageNames};
use crate::time::Duration;
use vstd::prelude::*;

verus! {

/// The program this preset runs.
pub const PROGRAM: &'static str = "codex";

/// What the tool prints in JSON mode.
pub open spec fn layout() -> Layout {
    Layout {
        answer: "/output"@,
        stop_reason: None,
        usage: Some("/usage"@),
        names: Names {
            input: "input_tokens"@,
            cache_read: "cached_input_tokens"@,
            cache_write: ""@,
            output: "output_tokens"@,
        },
    }
}

/// What the tool prints in JSON mode.
///
/// The usage field names are OpenAI's rather than Anthropic's, which is the whole reason
/// [`UsageNames`] is a value and not a constant.
pub fn envelope() -> (envelope: Envelope)
    ensures
        envelope.deep_view() == layout(),
{
    // This shape reports the whole prompt including the cached part, so what lands in
    // `input_tokens` here is a total rather than the remainder. Named honestly rather than
    // silently: correcting it needs a subtraction the envelope cannot do, and a wrong number
    // that looks right is worse than one that is absent.
    Envelope::at("/output").with_usage(
        "/usage",
        UsageNames::new("input_tokens", "cached_input_tokens", "", "output_tokens"),
    )
}

/// A provider that runs the Codex tool.
///
/// It knows no models until you name them, for the same reason every command line provider
/// does not: the tool cannot be asked.
///
/// The probe is `--version`, which says the tool is installed and says nothing about whether
/// it is signed in. See [`LocalCli::with_probe`] for why that is the strongest free question
/// here.
pub fn provider(timeout: Duration) -> (cli: LocalCli)
    ensures
        cli.deep_view() == (Setup {
            id: "codex-cli"@,
            program: "codex"@,
            args: seq!["exec"@, "--json"@],
            timeout: timeout@,
            model_flag: Some("--model"@),
            serves: Seq::empty(),
            envelope: Some(layout()),
            probe: Some(seq!["--version"@]),
            subscription: None,
        }),
{
    let mut args: Vec<String> = Vec::new();
    args.push("exec".to_owned());
    args.push("--json".to_owned());
    assert(args.deep_view() == seq!["exec"@, "--json"@]);
    let mut probe: Vec<String> = Vec::new();
    probe.push("--version".to_owned());
    assert(probe.deep_view() == seq!["--version"@]);
    LocalCli::new("codex-cli", PROGRAM, args, timeout).reading(envelope()).with_model_flag(
        "--model",
    ).with_probe(probe)
}

/// Where this tool's document holds its answer and its tokens.
pub proof fn the_document_is_laid_out_so()
    ensures
        layout().answer == "/output"@,
        layout().stop_reason is None,
        layout().usage == Some("/usage"@),
        layout().names.input == "input_tokens"@,
        layout().names.cache_read == "cached_input_tokens"@,
        layout().names.cache_write == ""@,
        layout().names.output == "output_tokens"@,
{
}

} // verus!
