//! Anthropic's command line tool.
//!
//! Signs in on this machine and sends every prompt to Anthropic, which is why its reach is
//! [`crate::Reach::LocalCli`] rather than self hosted: the credential is local and the data
//! is not.

use crate::providers::cli::{Envelope, Layout, LocalCli, Names, Setup, UsageNames};
use crate::time::Duration;
use vstd::prelude::*;

verus! {

/// What follows the name of the program in the name of the provider.
pub const SUFFIX: &'static str = "-cli";

/// What the tool prints with `--output-format json`.
pub open spec fn layout() -> Layout {
    Layout {
        answer: "/result"@,
        stop_reason: Some("/stop_reason"@),
        usage: Some("/usage"@),
        names: Names::anthropic(),
    }
}

/// What the tool prints with `--output-format json`.
///
/// The answer is at `/result` and the usage at `/usage`, spelled the way Anthropic spells it
/// everywhere else: the count of input tokens is the **uncached remainder** and not the whole
/// prompt. The reason it stopped is at `/stop_reason`.
///
/// The envelope also carries `total_cost_usd`, which nothing here reads. There is nowhere in
/// [`crate::ChatResponse`] to put a cost a tool worked out itself, and inventing one is a
/// larger decision than a preset.
pub fn envelope() -> (envelope: Envelope)
    ensures
        envelope.deep_view() == layout(),
{
    Envelope::at("/result").with_stop_reason("/stop_reason").with_usage(
        "/usage",
        UsageNames::anthropic(),
    )
}

/// A provider that runs the tool, under the name the program has on the path.
///
/// The provider is named after the program, followed by `-cli`.
///
/// JSON mode, deliberately. In plain mode the whole document is the answer and the call
/// reports as unmeasured, which every cost report reads as free.
///
/// It knows no models until you name them. A command line tool cannot be asked what it
/// serves, so a provider that answered for every name would turn a typo into a real model.
///
/// It is probed with `--version`, which establishes that the tool is installed and nothing
/// about the login inside it. That is all this tool answers for free, and a `Ready` from here
/// should be read as no more than that.
pub fn provider(program: &str, timeout: Duration) -> (cli: LocalCli)
    ensures
        cli.deep_view() == (Setup {
            id: program@ + "-cli"@,
            program: program@,
            args: seq!["-p"@, "--output-format"@, "json"@],
            timeout: timeout@,
            model_flag: Some("--model"@),
            serves: Seq::empty(),
            envelope: Some(layout()),
            probe: Some(seq!["--version"@]),
            subscription: None,
        }),
{
    let mut args: Vec<String> = Vec::new();
    args.push("-p".to_owned());
    args.push("--output-format".to_owned());
    args.push("json".to_owned());
    assert(args.deep_view() == seq!["-p"@, "--output-format"@, "json"@]);
    let mut probe: Vec<String> = Vec::new();
    probe.push("--version".to_owned());
    assert(probe.deep_view() == seq!["--version"@]);
    let mut id: String = program.to_owned();
    id.append(SUFFIX);
    LocalCli::new(id.as_str(), program, args, timeout).reading(envelope()).with_model_flag(
        "--model",
    ).with_probe(probe)
}

/// Where this tool's document holds its answer, its reason to stop and its tokens.
pub proof fn the_document_is_laid_out_so()
    ensures
        layout().answer == "/result"@,
        layout().stop_reason == Some("/stop_reason"@),
        layout().usage == Some("/usage"@),
        layout().names.input == "input_tokens"@,
        layout().names.cache_read == "cache_read_input_tokens"@,
        layout().names.cache_write == "cache_creation_input_tokens"@,
        layout().names.output == "output_tokens"@,
{
}

} // verus!
