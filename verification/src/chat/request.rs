//! What you ask a model for.

use crate::chat::message::{Block, ContentBlock, Message, Turn};
use crate::json::{Json, Number, Tree};
use crate::model::{ModelCapabilities, ModelId};
use vstd::prelude::*;

verus! {

/// A tool the model may call.
#[derive(Debug, PartialEq)]
pub struct ToolSchema {
    /// The name the model uses to call it.
    pub name: String,
    /// What it does, in the model's terms. This is prompt text and it decides whether the
    /// tool gets called correctly.
    pub description: String,
    /// JSON Schema for the arguments.
    pub parameters: Json,
}

/// What a [`ToolSchema`] holds.
#[verifier::ext_equal]
pub struct Tool {
    pub name: Seq<char>,
    pub description: Seq<char>,
    pub parameters: Tree,
}

impl DeepView for ToolSchema {
    type V = Tool;

    open spec fn deep_view(&self) -> Tool {
        Tool {
            name: self.name@,
            description: self.description@,
            parameters: self.parameters.tree(),
        }
    }
}

impl ToolSchema {
    /// A tool of this name, with what it does and what it takes.
    pub fn new(name: &str, description: &str, parameters: Json) -> (tool: ToolSchema)
        ensures
            tool.deep_view() == (Tool {
                name: name@,
                description: description@,
                parameters: parameters.tree(),
            }),
    {
        ToolSchema { name: name.to_owned(), description: description.to_owned(), parameters }
    }
}

impl Clone for ToolSchema {
    fn clone(&self) -> (copy: ToolSchema)
        ensures
            copy.deep_view() == self.deep_view(),
    {
        ToolSchema {
            name: self.name.clone(),
            description: self.description.clone(),
            parameters: self.parameters.clone(),
        }
    }
}

/// How hard to think.
///
/// A named level rather than a token count. Providers scale these differently, and a number
/// tuned against one model is quietly wrong on the next.
///
/// Five levels rather than three, because vendors expose five and a library with fewer
/// makes the top two unreachable. A provider whose model stops at three maps the last two
/// onto its own highest.
#[derive(Debug, Clone, Copy, PartialEq, Eq, PartialOrd, Ord, Structural)]
pub enum Effort {
    /// Barely any.
    Low,
    /// A working default.
    Medium,
    /// More than the default.
    High,
    /// Well beyond the default.
    XHigh,
    /// As much as the model will spend.
    Max,
}

/// Whether the model should reason before answering.
///
/// Three states rather than a bool, and the third is the one that matters. On some models
/// reasoning is on by default and on others it is off, so collapsing "no opinion" into
/// "off" silently changes behaviour the moment a model id changes.
#[derive(Debug, Clone, Copy, PartialEq, Eq, Structural)]
pub enum Thinking {
    /// No opinion. Whatever the model does by default.
    Unset,
    /// Do not reason.
    Off,
    /// Reason at this level.
    On(Effort),
}

impl Default for Thinking {
    fn default() -> (thinking: Thinking)
        ensures
            thinking == Thinking::Unset,
    {
        Thinking::Unset
    }
}

/// Sampling settings.
///
/// Numbers that are not whole are held as JSON writes them.
#[derive(Debug, Clone, PartialEq, Eq)]
pub struct Generation {
    /// How random the output is. Providers use different ranges, so leaving this unset and
    /// taking the provider's default is usually right.
    pub temperature: Option<Number>,
    /// Nucleus sampling cutoff.
    pub top_p: Option<Number>,
    /// The most tokens to produce.
    pub max_tokens: Option<u32>,
}

/// What a [`Generation`] holds.
#[verifier::ext_equal]
pub struct Sampling {
    pub temperature: Option<Seq<char>>,
    pub top_p: Option<Seq<char>>,
    pub max_tokens: Option<u32>,
}

impl DeepView for Generation {
    type V = Sampling;

    open spec fn deep_view(&self) -> Sampling {
        Sampling {
            temperature: self.temperature.deep_view(),
            top_p: self.top_p.deep_view(),
            max_tokens: self.max_tokens,
        }
    }
}

impl Default for Generation {
    fn default() -> (generation: Generation)
        ensures
            generation.deep_view() == (Sampling {
                temperature: None,
                top_p: None,
                max_tokens: None,
            }),
    {
        Generation { temperature: None, top_p: None, max_tokens: None }
    }
}

/// One request to one model.
///
/// Build it with [`ChatRequest::new`] and the `with_` methods.
#[derive(Debug, PartialEq)]
pub struct ChatRequest {
    /// Which model.
    pub model: ModelId,
    /// Instructions that are not part of the conversation.
    pub system: Option<String>,
    /// The conversation so far, oldest first.
    pub messages: Vec<Message>,
    /// Tools the model may call.
    pub tools: Vec<ToolSchema>,
    /// Sampling settings.
    pub generation: Generation,
    /// Whether to reason before answering.
    pub thinking: Thinking,
    /// A JSON Schema the reply must match.
    ///
    /// Providers that cannot do this say so through
    /// [`ModelCapabilities::structured_output`]. Check before you set it.
    pub response_schema: Option<Json>,
    /// Where to place cache breakpoints, counted in messages from the start.
    ///
    /// A provider without prompt caching ignores this. It costs money to get wrong in
    /// either direction, so it is explicit rather than inferred.
    pub cache_breakpoints: Vec<usize>,
}

/// What a [`ChatRequest`] holds.
#[verifier::ext_equal]
pub struct Asked {
    pub model: Seq<char>,
    pub system: Option<Seq<char>>,
    pub messages: Seq<Turn>,
    pub tools: Seq<Tool>,
    pub generation: Sampling,
    pub thinking: Thinking,
    pub response_schema: Option<Tree>,
    pub cache_breakpoints: Seq<usize>,
}

impl DeepView for ChatRequest {
    type V = Asked;

    open spec fn deep_view(&self) -> Asked {
        Asked {
            model: self.model@,
            system: self.system.deep_view(),
            messages: self.messages.deep_view(),
            tools: self.tools.deep_view(),
            generation: self.generation.deep_view(),
            thinking: self.thinking,
            response_schema: self.response_schema.deep_view(),
            cache_breakpoints: self.cache_breakpoints@,
        }
    }
}

/// Whether a block is a picture.
pub open spec fn is_image(block: Block) -> bool {
    block is Image
}

/// Whether a turn carries a picture.
pub open spec fn shows_image(turn: Turn) -> bool {
    exists|i: int| 0 <= i < turn.content.len() && is_image(#[trigger] turn.content[i])
}

impl Asked {
    /// What this request needs a model to support.
    pub open spec fn needs(self) -> Needs {
        Needs {
            tools: self.tools.len() > 0,
            structured_output: self.response_schema is Some,
            prompt_caching: self.cache_breakpoints.len() > 0,
            thinking: self.thinking is On,
            images: exists|i: int|
                0 <= i < self.messages.len() && shows_image(#[trigger] self.messages[i]),
        }
    }
}

/// Whether a turn carries a picture.
fn carries_image(message: &Message) -> (yes: bool)
    ensures
        yes == shows_image(message.deep_view()),
{
    let mut i: usize = 0;
    while i < message.content.len()
        invariant
            i <= message.content.len(),
            forall|j: int| 0 <= j < i ==> !is_image(#[trigger] message.deep_view().content[j]),
        decreases message.content.len() - i,
    {
        if let ContentBlock::Image { .. } = &message.content[i] {
            assert(is_image(message.deep_view().content[i as int]));
            return true;
        }
        i += 1;
    }
    false
}

impl ChatRequest {
    /// A request with nothing set beyond the model and the conversation.
    pub fn new(model: &str, messages: Vec<Message>) -> (request: ChatRequest)
        ensures
            request.deep_view() == (Asked {
                model: model@,
                system: None,
                messages: messages.deep_view(),
                tools: Seq::empty(),
                generation: Sampling { temperature: None, top_p: None, max_tokens: None },
                thinking: Thinking::Unset,
                response_schema: None,
                cache_breakpoints: Seq::empty(),
            }),
    {
        ChatRequest {
            model: ModelId(model.to_owned()),
            system: None,
            messages,
            tools: Vec::new(),
            generation: Generation { temperature: None, top_p: None, max_tokens: None },
            thinking: Thinking::Unset,
            response_schema: None,
            cache_breakpoints: Vec::new(),
        }
    }

    /// Sets the system instructions.
    pub fn with_system(self, system: &str) -> (request: ChatRequest)
        ensures
            request.deep_view() == (Asked { system: Some(system@), ..self.deep_view() }),
    {
        ChatRequest { system: Some(system.to_owned()), ..self }
    }

    /// Offers the model a set of tools.
    pub fn with_tools(self, tools: Vec<ToolSchema>) -> (request: ChatRequest)
        ensures
            request.deep_view() == (Asked { tools: tools.deep_view(), ..self.deep_view() }),
    {
        ChatRequest { tools, ..self }
    }

    /// Caps the reply length.
    pub fn with_max_tokens(self, max: u32) -> (request: ChatRequest)
        ensures
            request.deep_view() == (Asked {
                generation: Sampling { max_tokens: Some(max), ..self.deep_view().generation },
                ..self.deep_view()
            }),
    {
        ChatRequest { generation: Generation { max_tokens: Some(max), ..self.generation }, ..self }
    }

    /// Sets the sampling temperature.
    pub fn with_temperature(self, temperature: Number) -> (request: ChatRequest)
        ensures
            request.deep_view() == (Asked {
                generation: Sampling {
                    temperature: Some(temperature@),
                    ..self.deep_view().generation
                },
                ..self.deep_view()
            }),
    {
        ChatRequest {
            generation: Generation { temperature: Some(temperature), ..self.generation },
            ..self
        }
    }

    /// Asks the model to reason before answering.
    pub fn with_thinking(self, thinking: Thinking) -> (request: ChatRequest)
        ensures
            request.deep_view() == (Asked { thinking, ..self.deep_view() }),
    {
        ChatRequest { thinking, ..self }
    }

    /// Requires the reply to match a schema.
    pub fn with_response_schema(self, schema: Json) -> (request: ChatRequest)
        ensures
            request.deep_view() == (Asked {
                response_schema: Some(schema.tree()),
                ..self.deep_view()
            }),
    {
        ChatRequest { response_schema: Some(schema), ..self }
    }

    /// Places a cache breakpoint after the message at this index.
    pub fn with_cache_breakpoint(self, after_message: usize) -> (request: ChatRequest)
        ensures
            request.deep_view() == (Asked {
                cache_breakpoints: self.deep_view().cache_breakpoints.push(after_message),
                ..self.deep_view()
            }),
    {
        let mut request = self;
        request.cache_breakpoints.push(after_message);
        request
    }

    /// What this request needs a model to support.
    ///
    /// Compare it against what a provider says of a model to find out what will be dropped
    /// before you send anything.
    pub fn needs(&self) -> (needs: Needs)
        ensures
            needs == self.deep_view().needs(),
    {
        let mut images: bool = false;
        let mut i: usize = 0;
        while i < self.messages.len()
            invariant
                i <= self.messages.len(),
                images == exists|j: int|
                    0 <= j < i && shows_image(#[trigger] self.deep_view().messages[j]),
            decreases self.messages.len() - i,
        {
            assert(self.deep_view().messages[i as int] == self.messages[i as int].deep_view());
            if carries_image(&self.messages[i]) {
                images = true;
            }
            i += 1;
        }
        Needs {
            tools: self.tools.len() > 0,
            structured_output: self.response_schema.is_some(),
            prompt_caching: self.cache_breakpoints.len() > 0,
            thinking: match self.thinking {
                Thinking::On(_) => true,
                _ => false,
            },
            images,
        }
    }

    /// The same request, addressed to another model.
    pub fn addressed_to(&self, model: &ModelId) -> (request: ChatRequest)
        ensures
            request.deep_view() == (Asked { model: model@, ..self.deep_view() }),
    {
        let mut messages: Vec<Message> = Vec::new();
        let mut i: usize = 0;
        while i < self.messages.len()
            invariant
                i <= self.messages.len(),
                messages.deep_view() == self.messages.deep_view().take(i as int),
            decreases self.messages.len() - i,
        {
            let ghost before = messages.deep_view();
            messages.push(self.messages[i].clone());
            assert(messages.deep_view() == before.push(self.messages[i as int].deep_view()));
            i += 1;
        }
        let mut tools: Vec<ToolSchema> = Vec::new();
        let mut j: usize = 0;
        while j < self.tools.len()
            invariant
                j <= self.tools.len(),
                tools.deep_view() == self.tools.deep_view().take(j as int),
            decreases self.tools.len() - j,
        {
            let ghost before = tools.deep_view();
            tools.push(self.tools[j].clone());
            assert(tools.deep_view() == before.push(self.tools[j as int].deep_view()));
            j += 1;
        }
        ChatRequest {
            model: model.copied(),
            system: self.system.clone(),
            messages,
            tools,
            generation: Generation {
                temperature: copied_number(&self.generation.temperature),
                top_p: copied_number(&self.generation.top_p),
                max_tokens: self.generation.max_tokens,
            },
            thinking: self.thinking,
            response_schema: match &self.response_schema {
                Some(schema) => Some(schema.clone()),
                None => None,
            },
            cache_breakpoints: self.cache_breakpoints.clone(),
        }
    }
}

/// The same number, where there is one.
fn copied_number(number: &Option<Number>) -> (copy: Option<Number>)
    ensures
        copy.deep_view() == number.deep_view(),
{
    match number {
        Some(number) => Some(number.copied()),
        None => None,
    }
}

impl Clone for ChatRequest {
    fn clone(&self) -> (copy: ChatRequest)
        ensures
            copy.deep_view() == self.deep_view(),
    {
        self.addressed_to(&self.model)
    }
}

/// What a request needs, as a set of yes or no answers.
#[derive(Debug, Clone, Copy, PartialEq, Eq, Structural)]
pub struct Needs {
    /// The request offers tools.
    pub tools: bool,
    /// The request asks for output matching a schema.
    pub structured_output: bool,
    /// The request places cache breakpoints.
    pub prompt_caching: bool,
    /// The request asks the model to reason.
    pub thinking: bool,
    /// The request carries an image.
    pub images: bool,
}

impl Default for Needs {
    fn default() -> (needs: Needs)
        ensures
            needs == (Needs {
                tools: false,
                structured_output: false,
                prompt_caching: false,
                thinking: false,
                images: false,
            }),
    {
        Needs {
            tools: false,
            structured_output: false,
            prompt_caching: false,
            thinking: false,
            images: false,
        }
    }
}

/// A name in a list of its own where a need is not met, and an empty list where it is.
pub open spec fn named_if(missing: bool, name: Seq<char>) -> Seq<Seq<char>> {
    if missing {
        seq![name]
    } else {
        Seq::empty()
    }
}

impl Needs {
    /// What this request needs and the model cannot do, by name.
    pub open spec fn unmet(self, have: ModelCapabilities) -> Seq<Seq<char>> {
        named_if(self.tools && !have.tools, "tools"@) + named_if(
            self.structured_output && !have.structured_output,
            "structured_output"@,
        ) + named_if(self.prompt_caching && !have.prompt_caching, "prompt_caching"@) + named_if(
            self.thinking && !have.thinking,
            "thinking"@,
        ) + named_if(self.images && !have.images, "images"@)
    }

    /// What this request needs and the model cannot do, by name.
    ///
    /// An empty list means the request will be sent as written. A non empty one lists what
    /// the provider will silently drop, which is worth knowing before you are billed for a
    /// reply that ignored half your request.
    pub fn unmet_by(self, have: &ModelCapabilities) -> (missing: Vec<&'static str>)
        ensures
            missing.deep_view() == self.unmet(*have),
    {
        let mut missing: Vec<&'static str> = Vec::new();
        if self.tools && !have.tools {
            missing.push("tools");
        }
        if self.structured_output && !have.structured_output {
            missing.push("structured_output");
        }
        if self.prompt_caching && !have.prompt_caching {
            missing.push("prompt_caching");
        }
        if self.thinking && !have.thinking {
            missing.push("thinking");
        }
        if self.images && !have.images {
            missing.push("images");
        }
        missing
    }
}

/// A request is sent as written exactly where the model can do each thing it needs.
pub proof fn nothing_is_dropped_where_everything_is_offered(needs: Needs, have: ModelCapabilities)
    ensures
        needs.unmet(have).len() == 0 <==> (needs.tools ==> have.tools) && (needs.structured_output
            ==> have.structured_output) && (needs.prompt_caching ==> have.prompt_caching) && (
        needs.thinking ==> have.thinking) && (needs.images ==> have.images),
{
}

/// A request is seen as each of its parts.
pub proof fn a_request_is_seen_whole(request: ChatRequest)
    ensures
        ({
            let seen = request.deep_view();
            &&& seen.model == request.model@
            &&& seen.system is Some <==> request.system is Some
            &&& request.system is Some ==> seen.system->0 == request.system->0@
            &&& seen.messages == request.messages.deep_view()
            &&& seen.tools == request.tools.deep_view()
            &&& seen.generation.max_tokens == request.generation.max_tokens
            &&& seen.generation.temperature == request.generation.temperature.deep_view()
            &&& seen.generation.top_p == request.generation.top_p.deep_view()
            &&& seen.thinking == request.thinking
            &&& seen.response_schema is Some <==> request.response_schema is Some
            &&& request.response_schema is Some ==> seen.response_schema->0
                == request.response_schema->0.tree()
            &&& seen.cache_breakpoints == request.cache_breakpoints@
        }),
{
}

/// A tool is seen as its name, its description and its parameters.
pub proof fn a_tool_is_seen_whole(tool: ToolSchema)
    ensures
        tool.deep_view().name == tool.name@,
        tool.deep_view().description == tool.description@,
        tool.deep_view().parameters == tool.parameters.tree(),
{
}

/// A request needs what is in it and nothing else.
pub proof fn a_request_needs_what_is_in_it(request: Asked)
    ensures
        request.needs().tools <==> request.tools.len() > 0,
        request.needs().structured_output <==> request.response_schema is Some,
        request.needs().prompt_caching <==> request.cache_breakpoints.len() > 0,
        request.needs().thinking <==> request.thinking is On,
        request.needs().images <==> exists|i: int, k: int|
            0 <= i < request.messages.len() && 0 <= k < request.messages[i].content.len() && (
            #[trigger] request.messages[i].content[k]) is Image,
{
    if request.needs().images {
        let i = choose|i: int|
            0 <= i < request.messages.len() && shows_image(#[trigger] request.messages[i]);
        let k = choose|k: int|
            0 <= k < request.messages[i].content.len() && is_image(
                #[trigger] request.messages[i].content[k],
            );
        assert(request.messages[i].content[k] is Image);
    }
    if exists|i: int, k: int|
        0 <= i < request.messages.len() && 0 <= k < request.messages[i].content.len() && (
        #[trigger] request.messages[i].content[k]) is Image {
        let (i, k) = choose|i: int, k: int|
            0 <= i < request.messages.len() && 0 <= k < request.messages[i].content.len() && (
            #[trigger] request.messages[i].content[k]) is Image;
        assert(is_image(request.messages[i].content[k]));
        assert(shows_image(request.messages[i]));
    }
}

/// What a model lacks is named exactly where it is needed and not there.
pub proof fn what_is_unmet_is_named(needs: Needs, have: ModelCapabilities)
    ensures
        needs.unmet(have).len() == 0 <==> (needs.tools ==> have.tools) && (needs.structured_output
            ==> have.structured_output) && (needs.prompt_caching ==> have.prompt_caching) && (
        needs.thinking ==> have.thinking) && (needs.images ==> have.images),
        needs.tools && !have.tools ==> needs.unmet(have)[0] == "tools"@,
        needs.images && !have.images ==> needs.unmet(have).last() == "images"@,
{
}

} // verus!
