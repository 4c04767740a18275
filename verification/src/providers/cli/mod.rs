//! The machinery every vendor command line tool shares.
//!
//! Nothing vendor specific lives here. The tools themselves are under their vendor, because
//! that is what a caller picks. This is what a contributor builds on.
//!
//! # One runner, many tools
//!
//! A vendor supplies only what differs, which is the program name, its arguments, and the
//! shape of what it prints. [`LocalCli`] says what to run, with what on its standard input and
//! for how long, and reads what the process left behind. Starting the process is the caller's.
//!
//! # What it cannot do, said out loud
//!
//! A command line tool exposes far less than an API. Tools, structured output and prompt
//! caching are not reachable through one, and most report no token counts at all. Rather
//! than discovering that when a request comes back ignoring half of what you asked,
//! [`LocalCli::capabilities`] says so before you send anything, and [`crate::Usage`] comes
//! back absent rather than zero.
//!
//! Absent is the important one. A subscription tool has no per call price, and writing zero
//! would turn an unknown cost into a free one in every report that adds it up.

use crate::chat::message::{Block, ContentBlock, Message, Role, StopReason, Turn};
use crate::chat::request::{Asked, ChatRequest};
use crate::chat::response::{ChatResponse, Reply};
use crate::cost::usage::Usage;
use crate::error::{outcome, Error, Failure};
use crate::json::{json_parsed, pointed, Json, Tree};
use crate::model::{ModelCapabilities, ModelId, Reach};
use crate::provider::{Access, Answer};
use crate::providers::anthropic::api::{read_stop, stop_of, words_differ};
use crate::text::{
    copied_texts, first_line, first_line_of, followed_by, is_among, join_names, joined, lossy,
    lossy_text, signed_decimal, signed_text, trim, trim_behind, trim_end, trimmed,
};
use crate::time::{shorter, Duration};
use vstd::prelude::*;

verus! {

/// What a finished process left behind.
#[derive(Debug, Clone, PartialEq, Eq)]
pub struct ProcessOutput {
    /// `None` when the process was killed by a signal rather than exiting.
    pub exit_code: Option<i32>,
    /// What it printed.
    pub stdout: Vec<u8>,
    /// What it complained about.
    pub stderr: Vec<u8>,
}

/// What a [`ProcessOutput`] holds.
#[verifier::ext_equal]
pub struct LeftBehind {
    pub exit_code: Option<i32>,
    pub stdout: Seq<u8>,
    pub stderr: Seq<u8>,
}

impl DeepView for ProcessOutput {
    type V = LeftBehind;

    open spec fn deep_view(&self) -> LeftBehind {
        LeftBehind { exit_code: self.exit_code, stdout: self.stdout@, stderr: self.stderr@ }
    }
}

impl ProcessOutput {
    /// A result with nothing on standard error.
    pub fn new(exit_code: Option<i32>, stdout: Vec<u8>) -> (output: ProcessOutput)
        ensures
            output.deep_view() == (LeftBehind {
                exit_code,
                stdout: stdout@,
                stderr: Seq::empty(),
            }),
    {
        ProcessOutput { exit_code, stdout, stderr: Vec::new() }
    }

    /// Records what it wrote to standard error.
    #[must_use]
    pub fn with_stderr(self, stderr: Vec<u8>) -> (output: ProcessOutput)
        ensures
            output.deep_view() == (LeftBehind { stderr: stderr@, ..self.deep_view() }),
    {
        ProcessOutput { stderr, ..self }
    }
}

/// A process to run: what, with what on its standard input, and for how long at most.
#[derive(Debug, Clone, PartialEq, Eq)]
pub struct Invocation {
    /// The program.
    pub program: String,
    /// Its arguments.
    pub args: Vec<String>,
    /// What is written to its standard input, which is then closed.
    pub stdin: String,
    /// How long it may take before it is given up on.
    pub timeout: Duration,
}

/// What an [`Invocation`] says.
#[verifier::ext_equal]
pub struct Running {
    pub program: Seq<char>,
    pub args: Seq<Seq<char>>,
    pub stdin: Seq<char>,
    pub timeout: nat,
}

impl DeepView for Invocation {
    type V = Running;

    open spec fn deep_view(&self) -> Running {
        Running {
            program: self.program@,
            args: self.args.deep_view(),
            stdin: self.stdin@,
            timeout: self.timeout@,
        }
    }
}

/// What a tool calls each usage field inside its envelope.
///
/// Spelled out rather than guessed. A provider that tried several likely names would read
/// the wrong number the first time two of them appeared together, and would do it silently.
#[derive(Debug, Clone, PartialEq, Eq)]
pub struct UsageNames {
    /// Prompt tokens not served from cache.
    pub input: String,
    /// Prompt tokens served from cache.
    pub cache_read: String,
    /// Prompt tokens written to cache.
    pub cache_write: String,
    /// Tokens produced.
    pub output: String,
}

/// What [`UsageNames`] hold.
#[verifier::ext_equal]
pub struct Names {
    pub input: Seq<char>,
    pub cache_read: Seq<char>,
    pub cache_write: Seq<char>,
    pub output: Seq<char>,
}

impl DeepView for UsageNames {
    type V = Names;

    open spec fn deep_view(&self) -> Names {
        Names {
            input: self.input@,
            cache_read: self.cache_read@,
            cache_write: self.cache_write@,
            output: self.output@,
        }
    }
}

impl Names {
    /// The spelling Anthropic uses.
    pub open spec fn anthropic() -> Names {
        Names {
            input: "input_tokens"@,
            cache_read: "cache_read_input_tokens"@,
            cache_write: "cache_creation_input_tokens"@,
            output: "output_tokens"@,
        }
    }

    /// The tokens that an object reports under these names.
    pub open spec fn usage_in(self, reported: Tree) -> Usage {
        Usage {
            input_tokens: count_at(reported, self.input),
            cache_read_tokens: count_at(reported, self.cache_read),
            cache_write_tokens: count_at(reported, self.cache_write),
            output_tokens: count_at(reported, self.output),
            estimated: false,
        }
    }
}

/// The tokens that an object reports under a name. Nothing is reported under the empty one.
pub open spec fn count_at(reported: Tree, name: Seq<char>) -> Option<u64> {
    if name.len() == 0 {
        None
    } else {
        reported.u64_at(name)
    }
}

/// Reads the tokens that an object reports under a name.
fn read_count(reported: &Json, name: &str) -> (count: Option<u64>)
    ensures
        count == count_at(reported.tree(), name@),
{
    if name.unicode_len() == 0 {
        None
    } else {
        reported.u64_at(name)
    }
}

impl UsageNames {
    /// The four names a tool uses, in this order: uncached prompt, cached read, cached
    /// write, output.
    ///
    /// An empty string means the tool does not report that one, which comes back as absent
    /// rather than nought. Naming a field the tool does not have is how a report ends up
    /// with a zero nobody measured.
    pub fn new(input: &str, cache_read: &str, cache_write: &str, output: &str) -> (names:
        UsageNames)
        ensures
            names.deep_view() == (Names {
                input: input@,
                cache_read: cache_read@,
                cache_write: cache_write@,
                output: output@,
            }),
    {
        UsageNames {
            input: input.to_owned(),
            cache_read: cache_read.to_owned(),
            cache_write: cache_write.to_owned(),
            output: output.to_owned(),
        }
    }

    /// The spelling Anthropic uses, in its API and in its command line tool.
    pub fn anthropic() -> (names: UsageNames)
        ensures
            names.deep_view() == Names::anthropic(),
    {
        UsageNames::new(
            "input_tokens",
            "cache_read_input_tokens",
            "cache_creation_input_tokens",
            "output_tokens",
        )
    }

    /// Reads the tokens that an object reports under these names.
    fn read_usage(&self, reported: &Json) -> (usage: Usage)
        ensures
            usage == self.deep_view().usage_in(reported.tree()),
    {
        Usage {
            input_tokens: read_count(reported, self.input.as_str()),
            cache_read_tokens: read_count(reported, self.cache_read.as_str()),
            cache_write_tokens: read_count(reported, self.cache_write.as_str()),
            output_tokens: read_count(reported, self.output.as_str()),
            estimated: false,
        }
    }
}

/// How to read a JSON envelope, for a tool that prints one instead of plain text.
///
/// Most vendor tools have a mode that reports structured output, and it carries more than
/// the answer. Reading it is what makes the difference between a provider that reports no
/// usage because the tool does not measure, and one that reports none because nobody
/// looked.
///
/// The fields are JSON pointers, so a nested envelope is `"/data/result"`.
#[derive(Debug, Clone, PartialEq, Eq)]
pub struct Envelope {
    answer: String,
    stop_reason: Option<String>,
    usage: Option<String>,
    names: UsageNames,
}

/// What an [`Envelope`] says.
#[verifier::ext_equal]
pub struct Layout {
    pub answer: Seq<char>,
    pub stop_reason: Option<Seq<char>>,
    pub usage: Option<Seq<char>>,
    pub names: Names,
}

impl DeepView for Envelope {
    type V = Layout;

    closed spec fn deep_view(&self) -> Layout {
        Layout {
            answer: self.answer@,
            stop_reason: self.stop_reason.deep_view(),
            usage: self.usage.deep_view(),
            names: self.names.deep_view(),
        }
    }
}

/// What stands at a pointer, where there is a pointer.
pub open spec fn found_at(tree: Tree, pointer: Option<Seq<char>>) -> Option<Tree> {
    match pointer {
        Some(pointer) => pointed(tree, pointer),
        None => None,
    }
}

/// What stands at a pointer, where there is a pointer.
fn find_at(json: &Json, pointer: &Option<String>) -> (found: Option<Json>)
    ensures
        found.deep_view() == found_at(json.tree(), pointer.deep_view()),
{
    match pointer {
        Some(pointer) => json.pointer(pointer.as_str()),
        None => None,
    }
}

impl Layout {
    /// The answer in a document, with the white space around it.
    pub open spec fn answer_in(self, document: Tree) -> Option<Seq<char>> {
        match pointed(document, self.answer) {
            Some(answer) => answer.as_str(),
            None => None,
        }
    }

    /// The tokens that a document reports. Absent where it reports none.
    pub open spec fn usage_in(self, document: Tree) -> Usage {
        match found_at(document, self.usage) {
            Some(reported) => self.names.usage_in(reported),
            None => Usage::nothing(),
        }
    }

    /// Why the model stopped, where a document says.
    pub open spec fn stop_in(self, document: Tree) -> Option<Seq<char>> {
        match found_at(document, self.stop_reason) {
            Some(reason) => reason.as_str(),
            None => None,
        }
    }
}

impl Envelope {
    /// An envelope whose answer is at this pointer and which reports no usage.
    pub fn at(answer: &str) -> (envelope: Envelope)
        ensures
            envelope.deep_view() == (Layout {
                answer: answer@,
                stop_reason: None,
                usage: None,
                names: Names::anthropic(),
            }),
    {
        Envelope {
            answer: answer.to_owned(),
            stop_reason: None,
            usage: None,
            names: UsageNames::anthropic(),
        }
    }

    /// Reads usage from an object at this pointer, under these names.
    #[must_use]
    pub fn with_usage(self, pointer: &str, names: UsageNames) -> (envelope: Envelope)
        ensures
            envelope.deep_view() == (Layout {
                usage: Some(pointer@),
                names: names.deep_view(),
                ..self.deep_view()
            }),
    {
        Envelope { usage: Some(pointer.to_owned()), names, ..self }
    }

    /// Reads why the model stopped from a text at this pointer, spelled as Anthropic spells
    /// it.
    ///
    /// Without it every reply reads as stopped for an unknown reason, which is not complete: a
    /// caller asking whether an answer finished is told no for every call it ever makes.
    #[must_use]
    pub fn with_stop_reason(self, pointer: &str) -> (envelope: Envelope)
        ensures
            envelope.deep_view() == (Layout {
                stop_reason: Some(pointer@),
                ..self.deep_view()
            }),
    {
        Envelope { stop_reason: Some(pointer.to_owned()), ..self }
    }

    /// Reads the tokens that a document reports.
    fn read_usage(&self, document: &Json) -> (usage: Usage)
        ensures
            usage == self.deep_view().usage_in(document.tree()),
    {
        // Absent when the envelope carries none. Read when it does: a tool that measures and
        // is not read reports as unmeasured, which is a cost report that says free.
        match find_at(document, &self.usage) {
            Some(reported) => self.names.read_usage(&reported),
            None => Usage::absent(),
        }
    }

    /// Reads why the model stopped, where a document says.
    fn read_stop_in(&self, document: &Json) -> (reason: Option<String>)
        ensures
            reason.deep_view() == self.deep_view().stop_in(document.tree()),
    {
        match find_at(document, &self.stop_reason) {
            Some(reason) => match reason.as_str() {
                Some(reason) => Some(reason.to_owned()),
                None => None,
            },
            None => None,
        }
    }
}

/// How long a probe may take before it is given up on, in seconds.
///
/// Not the chat timeout, which is minutes: a program that hangs on `--version` would hold a
/// startup check for the length of a whole conversation, and a preflight nobody can wait
/// through is a preflight nobody runs.
pub const PROBE_SECONDS: u64 = 10;

/// A local command line tool that answers prompts.
///
/// Immutable once built. Each call is a process of its own, so there is nothing shared
/// between concurrent calls and nothing to lock.
pub struct LocalCli {
    id: String,
    program: String,
    args: Vec<String>,
    timeout: Duration,
    model_flag: Option<String>,
    serves: Vec<String>,
    envelope: Option<Envelope>,
    probe: Option<Vec<String>>,
    subscription: Option<String>,
}

/// What a [`LocalCli`] holds.
#[verifier::ext_equal]
pub struct Setup {
    pub id: Seq<char>,
    pub program: Seq<char>,
    pub args: Seq<Seq<char>>,
    pub timeout: nat,
    pub model_flag: Option<Seq<char>>,
    pub serves: Seq<Seq<char>>,
    pub envelope: Option<Layout>,
    pub probe: Option<Seq<Seq<char>>>,
    pub subscription: Option<Seq<char>>,
}

impl DeepView for LocalCli {
    type V = Setup;

    closed spec fn deep_view(&self) -> Setup {
        Setup {
            id: self.id@,
            program: self.program@,
            args: self.args.deep_view(),
            timeout: self.timeout@,
            model_flag: self.model_flag.deep_view(),
            serves: self.serves.deep_view(),
            envelope: self.envelope.deep_view(),
            probe: self.probe.deep_view(),
            subscription: self.subscription.deep_view(),
        }
    }
}

/// One turn of a prompt. A turn without text leaves nothing.
pub open spec fn spoken(turn: Turn) -> Seq<char> {
    if turn.text().len() == 0 {
        Seq::empty()
    } else {
        (match turn.role {
            Role::User => "User"@,
            Role::Assistant => "Assistant"@,
        }) + ": "@ + turn.text() + "\n\n"@
    }
}

/// The turns of a prompt, one behind the other.
pub open spec fn conversation(turns: Seq<Turn>) -> Seq<char>
    decreases turns.len(),
{
    if turns.len() == 0 {
        Seq::empty()
    } else {
        conversation(turns.drop_last()) + spoken(turns.last())
    }
}

/// The whole conversation as one prompt.
pub open spec fn prompt_of(request: Asked) -> Seq<char> {
    trim_end(
        (match request.system {
            Some(system) => system + "\n\n"@,
            None => Seq::empty(),
        }) + conversation(request.messages),
    )
}

/// A capability set with everything off, for this reach.
pub open spec fn bare() -> ModelCapabilities {
    ModelCapabilities {
        context_window: 0,
        max_output: 0,
        tools: false,
        structured_output: false,
        prompt_caching: false,
        thinking: false,
        images: false,
        streaming: false,
        reach: Reach::LocalCli,
    }
}

/// How a process ended, and the first thing it complained about.
pub open spec fn exit_line(program: Seq<char>, output: LeftBehind) -> Seq<char> {
    program + " exited with "@ + (match output.exit_code {
        Some(code) => signed_decimal(code as int),
        None => "a signal"@,
    }) + ": "@ + (match first_line_of(lossy_text(output.stderr)) {
        Some(line) => line,
        None => "nothing"@,
    })
}

/// A reply that a tool printed.
pub open spec fn printed_reply(
    text: Seq<char>,
    stop: Option<Seq<char>>,
    usage: Usage,
    asked_for: Seq<char>,
) -> Reply {
    Reply {
        message: Turn { role: Role::Assistant, content: seq![Block::Text(text)] },
        stop_reason: stop_of(stop),
        stop_details: match stop {
            Some(_) => None,
            None => Some("a command line tool does not report why it stopped"@),
        },
        usage,
        model: asked_for,
    }
}

impl Setup {
    /// What of a request this reach cannot carry.
    pub open spec fn refusal(self, request: Asked) -> Failure {
        Failure::Unsupported(
            self.id + " cannot carry "@ + joined(request.needs().unmet(bare()), " or "@)
                + " through a command line tool. `capabilities` says so before you send; this is the same answer at the point of sending, rather than a reply that quietly did without them"@,
        )
    }

    /// What is run for a request.
    pub open spec fn runs(self, request: Asked) -> Result<Running, Failure> {
        if request.needs().unmet(bare()).len() > 0 {
            Err(self.refusal(request))
        } else {
            Ok(
                Running {
                    program: self.program,
                    args: match self.model_flag {
                        Some(flag) => self.args.push(flag).push(request.model),
                        None => self.args,
                    },
                    stdin: prompt_of(request),
                    timeout: self.timeout,
                },
            )
        }
    }

    /// The reply that a finished process gives.
    pub open spec fn reply_in(self, output: LeftBehind, asked_for: Seq<char>) -> Result<
        Reply,
        Failure,
    > {
        let printed = trimmed(lossy_text(output.stdout));
        if output.exit_code != Some(0i32) {
            Err(Failure::Transient(exit_line(self.program, output)))
        } else if printed.len() == 0 {
            Err(Failure::Unreadable(self.program + " exited cleanly and printed nothing"@))
        } else {
            match self.envelope {
                None => Ok(printed_reply(printed, None, Usage::nothing(), asked_for)),
                Some(layout) => match json_parsed(printed) {
                    Err(why) => Err(
                        Failure::Unreadable(
                            self.program
                                + " was configured to print JSON and printed something else: "@
                                + why,
                        ),
                    ),
                    Ok(document) => match layout.answer_in(document) {
                        None => Err(
                            Failure::Unreadable(
                                self.program + " printed an envelope with no answer at "@
                                    + layout.answer,
                            ),
                        ),
                        Some(answer) => if trimmed(answer).len() == 0 {
                            Err(
                                Failure::Unreadable(
                                    self.program + " printed an envelope whose answer was empty"@,
                                ),
                            )
                        } else {
                            Ok(
                                printed_reply(
                                    trimmed(answer),
                                    layout.stop_in(document),
                                    layout.usage_in(document),
                                    asked_for,
                                ),
                            )
                        },
                    },
                },
            }
        }
    }

    /// What is run to find out whether this tool can be reached.
    pub open spec fn probes(self) -> Result<Running, Answer> {
        match self.probe {
            None => Err(
                Answer::Unknown(
                    self.id
                        + " was given no probe, so nothing was asked. `with_probe` says how to ask"@,
                ),
            ),
            Some(args) => Ok(
                Running {
                    program: self.program,
                    args,
                    stdin: ""@,
                    timeout: shorter(self.timeout, (PROBE_SECONDS * 1_000_000_000) as nat),
                },
            ),
        }
    }

    /// What the outcome of a probe says about a model.
    pub open spec fn answer_for(self, outcome: Result<LeftBehind, Failure>, model: Seq<char>) -> Answer {
        match outcome {
            // A program that is not on the path is settled: nothing clears it but installing
            // the tool. A timeout or a failure to start is a moment rather than an answer.
            Err(Failure::Unsupported(said)) => Answer::Denied(self.id + ": "@ + said),
            Err(why) => Answer::Unknown(self.id + " could not be probed: "@ + why.line()),
            Ok(output) => if output.exit_code != Some(0i32) {
                Answer::Denied(exit_line(self.program, output))
            } else if self.serves.len() == 0 {
                Answer::Unknown(
                    self.program
                        + " runs, and a command line tool cannot be asked which models it serves.                  Name them with `serving` and this becomes an answer"@,
                )
            } else if !self.serves.contains(model) {
                Answer::Denied(
                    self.id + " was not told it serves "@ + model
                        + ", so nothing here can reach it"@,
                )
            } else {
                Answer::Ready
            },
        }
    }
}

/// How a process ended, and the first thing it complained about.
fn exited(program: &str, output: &ProcessOutput) -> (line: String)
    ensures
        line@ == exit_line(program@, output.deep_view()),
{
    let code = match output.exit_code {
        Some(code) => signed_text(code as i64),
        None => "a signal".to_owned(),
    };
    let said = match first_line(lossy(&output.stderr).as_str()) {
        Some(line) => line,
        None => "nothing".to_owned(),
    };
    followed_by(program, " exited with ").concat(code.as_str()).concat(": ").concat(said.as_str())
}

/// A reply that a tool printed.
fn printed(text: String, stop: Option<String>, usage: Usage, asked_for: &ModelId) -> (reply:
    ChatResponse)
    ensures
        reply.deep_view() == printed_reply(text@, stop.deep_view(), usage, asked_for@),
{
    let ghost said = text@;
    let mut content: Vec<ContentBlock> = Vec::new();
    content.push(ContentBlock::Text(text));
    assert(content.deep_view() == seq![Block::Text(said)]);
    let message = Message { role: Role::Assistant, content };
    match stop {
        Some(stop) => ChatResponse::new(
            message,
            read_stop(Some(stop.as_str())),
            usage,
            asked_for.copied(),
        ),
        // A command line tool that does not say why it stopped is reported as unknown rather
        // than as a completed turn, because a truncated reply would otherwise look finished.
        None => ChatResponse::new(
            message,
            StopReason::Other,
            usage,
            asked_for.copied(),
        ).with_stop_details("a command line tool does not report why it stopped"),
    }
}

impl LocalCli {
    /// A tool that takes a prompt on standard input and writes the reply to standard output.
    ///
    /// The id goes into every record beside the calls it made, so choose something that
    /// says which tool this is.
    pub fn new(id: &str, program: &str, args: Vec<String>, timeout: Duration) -> (cli: LocalCli)
        ensures
            cli.deep_view() == (Setup {
                id: id@,
                program: program@,
                args: args.deep_view(),
                timeout: timeout@,
                model_flag: None,
                serves: Seq::empty(),
                envelope: None,
                probe: None,
                subscription: None,
            }),
    {
        let cli = LocalCli {
            id: id.to_owned(),
            program: program.to_owned(),
            args,
            timeout,
            model_flag: None,
            serves: Vec::new(),
            envelope: None,
            probe: None,
            subscription: None,
        };
        assert(cli.serves.deep_view() == Seq::<Seq<char>>::empty());
        cli
    }

    /// Reads the tool's output as a JSON envelope rather than as the answer itself.
    ///
    /// Without this, everything the tool printed is the answer, which is right for a tool
    /// in plain mode and wrong for one in JSON mode: the caller would be handed a document
    /// where they expected a sentence.
    #[must_use]
    pub fn reading(self, envelope: Envelope) -> (cli: LocalCli)
        ensures
            cli.deep_view() == (Setup {
                envelope: Some(envelope.deep_view()),
                ..self.deep_view()
            }),
    {
        LocalCli { envelope: Some(envelope), ..self }
    }

    /// Runs the program with these arguments to find out whether it can be reached.
    ///
    /// Without it nothing can be asked, and the answer is unknown. With it, a program that is
    /// missing or exits non zero is denied, which is how "not logged in" reaches a person at
    /// startup rather than inside the first request.
    ///
    /// **Pick the strongest check the tool offers.** `--version` proves the program is
    /// installed and nothing about the login inside it, so a tool with a sign in command
    /// should be probed with that instead.
    ///
    /// Nothing is written to the probe's standard input, and it is given at most
    /// [`PROBE_SECONDS`] however long the chat timeout is.
    #[must_use]
    pub fn with_probe(self, args: Vec<String>) -> (cli: LocalCli)
        ensures
            cli.deep_view() == (Setup { probe: Some(args.deep_view()), ..self.deep_view() }),
    {
        LocalCli { probe: Some(args), ..self }
    }

    /// Names the models this tool can be asked for.
    ///
    /// Without this, [`LocalCli::capabilities`] answers `None` for everything, which reads
    /// as "this provider does not know" and is the honest answer: a command line tool has
    /// no way to be asked what it serves.
    ///
    /// What it does **not** do is describe them. A model named here answers with everything
    /// switched off, because the limit is the reach rather than the model.
    #[must_use]
    pub fn serving(self, models: Vec<String>) -> (cli: LocalCli)
        ensures
            cli.deep_view() == (Setup { serves: models.deep_view(), ..self.deep_view() }),
    {
        LocalCli { serves: models, ..self }
    }

    /// Passes the requested model to the tool through this flag, as `--flag model`.
    ///
    /// Without it the model in a request is ignored, because a tool that has no way to be
    /// told which model to use will run whatever it is configured for. The reply still
    /// reports the model you asked for, and that would be a lie the caller cannot detect,
    /// so leaving this unset is worth doing deliberately.
    #[must_use]
    pub fn with_model_flag(self, flag: &str) -> (cli: LocalCli)
        ensures
            cli.deep_view() == (Setup { model_flag: Some(flag@), ..self.deep_view() }),
    {
        LocalCli { model_flag: Some(flag.to_owned()), ..self }
    }

    /// Says which subscription pays for this tool.
    ///
    /// The same program signed in one way is a flat fee and signed in another is metered, and
    /// nothing here can tell. A preset that guessed would write a metered call down as
    /// costing nothing.
    #[must_use]
    pub fn billed_by(self, subscription: &str) -> (cli: LocalCli)
        ensures
            cli.deep_view() == (Setup {
                subscription: Some(subscription@),
                ..self.deep_view()
            }),
    {
        LocalCli { subscription: Some(subscription.to_owned()), ..self }
    }

    /// Which subscription pays for this tool, where somebody said.
    pub fn subscription(&self) -> (name: Option<&str>)
        ensures
            name.deep_view() == self.deep_view().subscription,
    {
        match &self.subscription {
            Some(name) => Some(name.as_str()),
            None => None,
        }
    }

    /// What goes into every record beside the calls this made.
    pub fn id(&self) -> (id: &str)
        ensures
            id@ == self.deep_view().id,
    {
        self.id.as_str()
    }

    /// What this tool can do with a model.
    ///
    /// A model nobody named is unknown, and that is a different answer from a model this
    /// tool serves and can do nothing special with. A provider that claimed to know every
    /// name would tell a caller that a typo was a real model.
    pub fn capabilities(&self, model: &ModelId) -> (have: Option<ModelCapabilities>)
        ensures
            have == (if self.deep_view().serves.contains(model@) {
                Some(bare())
            } else {
                None
            }),
    {
        if !is_among(&self.serves, model.as_str()) {
            return None;
        }
        Some(ModelCapabilities::none(Reach::LocalCli))
    }

    /// The whole conversation as one prompt.
    ///
    /// A command line tool takes text, so the structure has to be flattened. Turns are
    /// labelled so the model can still tell who said what.
    pub fn prompt(request: &ChatRequest) -> (prompt: String)
        ensures
            prompt@ == prompt_of(request.deep_view()),
    {
        let ghost turns = request.deep_view().messages;
        let mut out = match &request.system {
            Some(system) => followed_by(system.as_str(), "\n\n"),
            None => String::new(),
        };
        let ghost start = out@;
        let mut i: usize = 0;
        assert(turns.take(0) == Seq::<Turn>::empty());
        assert(start + Seq::<char>::empty() == start);
        while i < request.messages.len()
            invariant
                i <= request.messages.len(),
                turns == request.messages.deep_view(),
                out@ == start + conversation(turns.take(i as int)),
            decreases request.messages.len() - i,
        {
            let ghost before = out@;
            let text = request.messages[i].text();
            if text.as_str().unicode_len() > 0 {
                let who = match request.messages[i].role {
                    Role::User => "User",
                    Role::Assistant => "Assistant",
                };
                out.append(who);
                out.append(": ");
                out.append(text.as_str());
                out.append("\n\n");
            }
            proof {
                let turn = turns[i as int];
                assert(turns.take(i + 1).drop_last() == turns.take(i as int));
                assert(turns.take(i + 1).last() == turn);
                assert(out@ == before + spoken(turn));
                assert((start + conversation(turns.take(i as int))) + spoken(turn) == start + (
                conversation(turns.take(i as int)) + spoken(turn)));
            }
            i += 1;
        }
        assert(turns.take(i as int) == turns);
        trim_behind(out.as_str())
    }

    /// What to run for a request.
    ///
    /// What this reach cannot carry is refused rather than dropped. A provider that took the
    /// request anyway would prove the capability list is decoration: the reply would arrive
    /// looking normal, having ignored half of what was asked, and the caller would be billed
    /// for it.
    pub fn invocation(&self, request: &ChatRequest) -> (running: Result<Invocation, Error>)
        ensures
            outcome(running) == self.deep_view().runs(request.deep_view()),
    {
        let have = ModelCapabilities::none(Reach::LocalCli);
        let unmet = request.needs().unmet_by(&have);
        assert(have == bare());
        assert(unmet.deep_view().len() == unmet.len());
        if unmet.len() > 0 {
            return Err(
                Error::Unsupported(
                    followed_by(self.id.as_str(), " cannot carry ").concat(
                        join_names(&unmet, " or ").as_str(),
                    ).concat(
                        " through a command line tool. `capabilities` says so before you send; this is the same answer at the point of sending, rather than a reply that quietly did without them",
                    ),
                ),
            );
        }
        let mut args = copied_texts(&self.args);
        if let Some(flag) = &self.model_flag {
            let ghost before = args.deep_view();
            args.push(flag.clone());
            assert(args.deep_view() == before.push(flag@));
            args.push(request.model.as_str().to_owned());
            assert(args.deep_view() == before.push(flag@).push(request.model@));
        }
        Ok(
            Invocation {
                program: self.program.clone(),
                args,
                stdin: LocalCli::prompt(request),
                timeout: self.timeout,
            },
        )
    }

    /// Reads what a finished process left behind.
    pub fn read_output(&self, output: &ProcessOutput, asked_for: &ModelId) -> (reply: Result<
        ChatResponse,
        Error,
    >)
        ensures
            outcome(reply) == self.deep_view().reply_in(output.deep_view(), asked_for@),
    {
        if output.exit_code != Some(0) {
            return Err(Error::Transient(exited(self.program.as_str(), output)));
        }
        let said = trim(lossy(&output.stdout).as_str());
        if said.as_str().unicode_len() == 0 {
            return Err(
                Error::Unreadable(
                    followed_by(self.program.as_str(), " exited cleanly and printed nothing"),
                ),
            );
        }
        let envelope = match &self.envelope {
            Some(envelope) => envelope,
            None => {
                return Ok(printed(said, None, Usage::absent(), asked_for));
            },
        };
        let document = match Json::parse(said.as_str()) {
            Ok(document) => document,
            Err(why) => {
                return Err(
                    Error::Unreadable(
                        followed_by(
                            self.program.as_str(),
                            " was configured to print JSON and printed something else: ",
                        ).concat(why.as_str()),
                    ),
                );
            },
        };
        let answer = match document.pointer(envelope.answer.as_str()) {
            Some(answer) => match answer.as_str() {
                Some(answer) => Some(trim(answer)),
                None => None,
            },
            None => None,
        };
        match answer {
            None => Err(
                Error::Unreadable(
                    followed_by(
                        self.program.as_str(),
                        " printed an envelope with no answer at ",
                    ).concat(envelope.answer.as_str()),
                ),
            ),
            Some(text) => if text.as_str().unicode_len() == 0 {
                Err(
                    Error::Unreadable(
                        followed_by(
                            self.program.as_str(),
                            " printed an envelope whose answer was empty",
                        ),
                    ),
                )
            } else {
                Ok(
                    printed(
                        text,
                        envelope.read_stop_in(&document),
                        envelope.read_usage(&document),
                        asked_for,
                    ),
                )
            },
        }
    }

    /// What to run to find out whether this tool can be reached, or the answer where nothing
    /// can be asked.
    pub fn probing(&self) -> (running: Result<Invocation, Access>)
        ensures
            outcome(running) == self.deep_view().probes(),
    {
        match &self.probe {
            None => Err(
                Access::unknown(
                    followed_by(
                        self.id.as_str(),
                        " was given no probe, so nothing was asked. `with_probe` says how to ask",
                    ).as_str(),
                ),
            ),
            Some(args) => Ok(
                Invocation {
                    program: self.program.clone(),
                    args: copied_texts(args),
                    stdin: "".to_owned(),
                    timeout: self.timeout.min(Duration::from_secs(PROBE_SECONDS)),
                },
            ),
        }
    }

    /// Whether this tool runs with a probe.
    pub fn is_probed(&self) -> (yes: bool)
        ensures
            yes == (self.deep_view().probe is Some),
    {
        self.probe.is_some()
    }

    /// Reads what a running program does and does not prove about a model.
    ///
    /// A ready tool here is a weaker claim than one from a provider with a model list to ask.
    /// A vendor tool that starts is installed, and whether the login inside it still works
    /// is a question it will only answer by doing the work.
    pub fn read_probe(&self, ran: &Result<ProcessOutput, Error>, model: &ModelId) -> (access:
        Access)
        ensures
            access.deep_view() == self.deep_view().answer_for(outcome(*ran), model@),
    {
        let output = match ran {
            Ok(output) => output,
            Err(Error::Unsupported(said)) => {
                return Access::denied(
                    followed_by(self.id.as_str(), ": ").concat(said.as_str()).as_str(),
                );
            },
            Err(why) => {
                return Access::unknown(
                    followed_by(self.id.as_str(), " could not be probed: ").concat(
                        why.to_string().as_str(),
                    ).as_str(),
                );
            },
        };
        if output.exit_code != Some(0) {
            // Where "not logged in" arrives. The tool wrote it to standard error and exited,
            // and the first line of that is the only thing anybody needs from this.
            return Access::denied(exited(self.program.as_str(), output).as_str());
        }
        assert(self.serves.deep_view().len() == self.serves.len());
        if self.serves.len() == 0 {
            // The tool runs, and which models it serves is genuinely not knowable from here.
            return Access::unknown(
                followed_by(
                    self.program.as_str(),
                    " runs, and a command line tool cannot be asked which models it serves.                  Name them with `serving` and this becomes an answer",
                ).as_str(),
            );
        }
        if !is_among(&self.serves, model.as_str()) {
            return Access::denied(
                followed_by(self.id.as_str(), " was not told it serves ").concat(
                    model.as_str(),
                ).concat(", so nothing here can reach it").as_str(),
            );
        }
        Access::Ready
    }
}

/// A model that nobody named is never ready, so what a check says and what the capabilities
/// say agree.
pub proof fn ready_only_for_a_known_model(
    setup: Setup,
    ran: Result<LeftBehind, Failure>,
    model: Seq<char>,
)
    ensures
        setup.answer_for(ran, model) is Ready ==> setup.serves.contains(model),
{
}

/// A probe sends no prompt and is given no longer than a call, nor than the ceiling.
pub proof fn a_probe_is_short_and_silent(setup: Setup)
    ensures
        setup.probes() matches Ok(running) ==> running.stdin.len() == 0 && running.timeout
            <= setup.timeout && running.timeout <= PROBE_SECONDS * 1_000_000_000,
{
    reveal_strlit("");
}

/// Usage that a tool does not report is absent rather than nought.
pub proof fn plain_output_reports_no_usage(setup: Setup, output: LeftBehind, asked_for: Seq<char>)
    requires
        setup.envelope is None,
    ensures
        setup.reply_in(output, asked_for) matches Ok(reply) ==> reply.usage == Usage::nothing(),
{
}

/// A call runs the program it was set up with, with its own arguments, the model behind the flag
/// for it where there is one, the conversation as its input and the time it was given.
pub proof fn a_call_runs_what_was_set_up(setup: Setup, request: Asked)
    requires
        setup.runs(request) is Ok,
    ensures
        ({
            let running = setup.runs(request)->Ok_0;
            &&& running.program == setup.program
            &&& setup.model_flag is None ==> running.args == setup.args
            &&& setup.model_flag is Some ==> running.args.len() == setup.args.len() + 2
                && running.args.take(setup.args.len() as int) == setup.args
                && running.args[setup.args.len() as int] == setup.model_flag->0
                && running.args.last() == request.model
            &&& running.stdin == prompt_of(request)
            &&& running.timeout == setup.timeout
        }),
{
    let running = setup.runs(request)->Ok_0;
    assert(running.args.take(setup.args.len() as int) == setup.args);
}

/// A request that asks for more than words is refused, and one that asks for no more is run.
pub proof fn only_words_go_through_a_tool(setup: Setup, request: Asked)
    ensures
        setup.runs(request) is Ok <==> request.tools.len() == 0 && request.response_schema is None
            && request.cache_breakpoints.len() == 0 && !(request.thinking is On)
            && !request.needs().images,
        setup.runs(request) is Err ==> setup.runs(request)->Err_0 is Unsupported,
{
}

/// The conversation is written turn by turn, each by whoever said it, and a turn without words is
/// left out.
pub proof fn each_turn_is_spoken_by_its_speaker(turns: Seq<Turn>, turn: Turn)
    ensures
        conversation(Seq::<Turn>::empty()).len() == 0,
        turn.text().len() == 0 ==> conversation(turns.push(turn)) == conversation(turns),
        turn.text().len() > 0 && turn.role is User ==> conversation(turns.push(turn))
            == conversation(turns) + ("User"@ + ": "@ + turn.text() + "\n\n"@),
        turn.text().len() > 0 && turn.role is Assistant ==> conversation(turns.push(turn))
            == conversation(turns) + ("Assistant"@ + ": "@ + turn.text() + "\n\n"@),
{
    assert(turns.push(turn).drop_last() == turns);
    assert(conversation(turns) + Seq::<char>::empty() == conversation(turns));
}

/// The instructions stand in front of the conversation, apart from it, and what is white at the
/// end is left out.
pub proof fn instructions_come_first(request: Asked, system: Seq<char>)
    ensures
        request.system == Some(system) ==> prompt_of(request) == trim_end(
            system + "\n\n"@ + conversation(request.messages),
        ),
        request.system is None ==> prompt_of(request) == trim_end(conversation(request.messages)),
{
    assert(Seq::<char>::empty() + conversation(request.messages) == conversation(
        request.messages,
    ));
}

/// A tool that fails or prints nothing gives no reply, and one that prints words gives them, under
/// the model that was asked for.
pub proof fn what_is_printed_is_the_reply(setup: Setup, output: LeftBehind, asked_for: Seq<char>)
    ensures
        output.exit_code != Some(0i32) ==> setup.reply_in(output, asked_for) is Err
            && setup.reply_in(output, asked_for)->Err_0 is Transient,
        output.exit_code == Some(0i32) && trimmed(lossy_text(output.stdout)).len() == 0
            ==> setup.reply_in(output, asked_for) is Err && setup.reply_in(
            output,
            asked_for,
        )->Err_0 is Unreadable,
        output.exit_code == Some(0i32) && trimmed(lossy_text(output.stdout)).len() > 0
            && setup.envelope is None ==> ({
            let reply = setup.reply_in(output, asked_for)->Ok_0;
            &&& setup.reply_in(output, asked_for) is Ok
            &&& reply.message.role is Assistant
            &&& reply.message.content == seq![Block::Text(trimmed(lossy_text(output.stdout)))]
            &&& reply.stop_reason is Other
            &&& reply.stop_details is Some
        }),
        setup.reply_in(output, asked_for) is Ok ==> setup.reply_in(output, asked_for)->Ok_0.model
            == asked_for,
{
}

/// A tool that prints a document gives the answer, the reason it stopped and the tokens from where
/// the document is said to hold them.
pub proof fn a_document_is_read_where_it_is_said_to_be(
    setup: Setup,
    output: LeftBehind,
    asked_for: Seq<char>,
    layout: Layout,
    document: Tree,
)
    requires
        setup.envelope == Some(layout),
        setup.reply_in(output, asked_for) is Ok,
        json_parsed(trimmed(lossy_text(output.stdout))) == Ok::<Tree, Seq<char>>(document),
    ensures
        ({
            let reply = setup.reply_in(output, asked_for)->Ok_0;
            let answer = pointed(document, layout.answer);
            &&& answer is Some
            &&& answer->0.as_str() is Some
            &&& reply.message.content == seq![Block::Text(trimmed(answer->0.as_str()->0))]
            &&& (layout.usage is Some && pointed(document, layout.usage->0) is Some) ==> ({
                let reported = pointed(document, layout.usage->0)->0;
                &&& layout.names.input.len() > 0 ==> reply.usage.input_tokens == reported.u64_at(
                    layout.names.input,
                )
                &&& layout.names.cache_read.len() > 0 ==> reply.usage.cache_read_tokens
                    == reported.u64_at(layout.names.cache_read)
                &&& layout.names.cache_write.len() > 0 ==> reply.usage.cache_write_tokens
                    == reported.u64_at(layout.names.cache_write)
                &&& layout.names.output.len() > 0 ==> reply.usage.output_tokens == reported.u64_at(
                    layout.names.output,
                )
                &&& !reply.usage.estimated
            })
            &&& layout.usage is None ==> reply.usage == Usage::nothing()
        }),
{
}

/// A document that says why it stopped says it with one word, which means what it means in a whole
/// reply; one that does not is not held to be complete, and that is said.
pub proof fn a_stop_reason_means_what_its_word_says(
    text: Seq<char>,
    word: Seq<char>,
    usage: Usage,
    asked_for: Seq<char>,
)
    ensures
        printed_reply(text, Some(word), usage, asked_for).stop_details is None,
        word == "end_turn"@ ==> printed_reply(text, Some(word), usage, asked_for).stop_reason
            is EndTurn,
        word == "max_tokens"@ ==> printed_reply(text, Some(word), usage, asked_for).stop_reason
            is MaxTokens,
        ({
            let reason = printed_reply(text, Some(word), usage, asked_for).stop_reason;
            reason is EndTurn || reason is ToolUse || reason is StopSequence <==> word
                == "end_turn"@ || word == "tool_use"@ || word == "stop_sequence"@
        }),
        printed_reply(text, None, usage, asked_for).stop_reason is Other,
        printed_reply(text, None, usage, asked_for).stop_details == Some(
            "a command line tool does not report why it stopped"@,
        ),
        printed_reply(text, None, usage, asked_for).usage == usage,
        printed_reply(text, None, usage, asked_for).model == asked_for,
{
    words_differ();
}

/// A tool is ready only where it ran well and was told that it serves the model; where it did not
/// run well, or serves others, that is settled.
pub proof fn a_probe_settles_what_it_can(setup: Setup, output: LeftBehind, model: Seq<char>)
    ensures
        setup.answer_for(Ok(output), model) is Ready <==> output.exit_code == Some(0i32)
            && setup.serves.contains(model),
        output.exit_code != Some(0i32) ==> setup.answer_for(Ok(output), model) is Denied,
        output.exit_code == Some(0i32) && setup.serves.len() == 0 ==> setup.answer_for(
            Ok(output),
            model,
        ) is Unknown,
        setup.probe is None <==> setup.probes() is Err,
        setup.probe is Some ==> setup.probes()->Ok_0.program == setup.program
            && setup.probes()->Ok_0.args == setup.probe->0,
        setup.probe is Some && setup.timeout >= 10_000_000_000 ==> setup.probes()->Ok_0.timeout
            == 10_000_000_000,
        setup.probe is Some && setup.timeout < 10_000_000_000 ==> setup.probes()->Ok_0.timeout
            == setup.timeout,
{
}

/// A tool that failed says which, how and what it said first.
pub proof fn a_failed_tool_says_how(program: Seq<char>, output: LeftBehind)
    requires
        first_line_of(lossy_text(output.stderr)) is Some,
    ensures
        output.exit_code is Some ==> exit_line(program, output) == program + " exited with "@
            + signed_decimal(output.exit_code->0 as int) + ": "@ + first_line_of(
            lossy_text(output.stderr),
        )->0,
        output.exit_code is None ==> exit_line(program, output) == program + " exited with "@
            + "a signal"@ + ": "@ + first_line_of(lossy_text(output.stderr))->0,
{
}

/// What is said of a request that a tool cannot carry names each thing it cannot, and what is said
/// of a tool that printed nothing names the tool.
pub proof fn what_cannot_be_carried_is_named(
    setup: Setup,
    request: Asked,
    output: LeftBehind,
    asked_for: Seq<char>,
    model: Seq<char>,
)
    ensures
        request.tools.len() > 0 && request.response_schema is None
            && request.cache_breakpoints.len() == 0 && !(request.thinking is On)
            && !request.needs().images ==> request.needs().unmet(bare()) == seq!["tools"@],
        output.exit_code == Some(0i32) && trimmed(lossy_text(output.stdout)).len() == 0
            ==> setup.reply_in(output, asked_for) == Err::<Reply, Failure>(
            Failure::Unreadable(setup.program + " exited cleanly and printed nothing"@),
        ),
        output.exit_code == Some(0i32) && setup.serves.len() > 0 && !setup.serves.contains(model)
            ==> setup.answer_for(Ok(output), model) == Answer::Denied(
            setup.id + " was not told it serves "@ + model + ", so nothing here can reach it"@,
        ),
        output.exit_code != Some(0i32) ==> setup.answer_for(Ok(output), model) == Answer::Denied(
            exit_line(setup.program, output),
        ) && setup.reply_in(output, asked_for) == Err::<Reply, Failure>(
            Failure::Transient(exit_line(setup.program, output)),
        ),
{
}

} // verus!
