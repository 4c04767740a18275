//! Which model, where it runs, and what it can do.

use crate::text::{chars_of, same, text_of, trim, trimmed};
use vstd::prelude::*;

verus! {

/// A model name as its provider spells it.
///
/// Kept as a string on purpose. Vendors add and retire models on their own schedule, and an
/// enum of model names would need a release of this crate every time one of them shipped.
#[derive(Debug, Clone, PartialEq, Eq, PartialOrd, Ord, Hash)]
pub struct ModelId(pub String);

impl View for ModelId {
    type V = Seq<char>;

    open spec fn view(&self) -> Seq<char> {
        self.0@
    }
}

impl DeepView for ModelId {
    type V = Seq<char>;

    open spec fn deep_view(&self) -> Seq<char> {
        self.0@
    }
}

impl ModelId {
    /// Borrows the name.
    pub fn as_str(&self) -> (name: &str)
        ensures
            name@ == self@,
    {
        self.0.as_str()
    }

    /// The same name.
    pub fn copied(&self) -> (copy: ModelId)
        ensures
            copy@ == self@,
            copy == *self,
    {
        ModelId(self.0.clone())
    }
}

impl From<&str> for ModelId {
    fn from(id: &str) -> (model: ModelId)
        ensures
            model@ == id@,
    {
        ModelId(id.to_owned())
    }
}

impl vstd::std_specs::convert::FromSpecImpl<&str> for ModelId {
    open spec fn obeys_from_spec() -> bool {
        false
    }

    open spec fn from_spec(id: &str) -> ModelId {
        arbitrary()
    }
}

impl From<String> for ModelId {
    fn from(id: String) -> (model: ModelId)
        ensures
            model@ == id@,
    {
        ModelId(id)
    }
}

impl vstd::std_specs::convert::FromSpecImpl<String> for ModelId {
    open spec fn obeys_from_spec() -> bool {
        true
    }

    open spec fn from_spec(id: String) -> ModelId {
        ModelId(id)
    }
}

/// How a model is reached.
///
/// This is the axis that decides where your prompt goes and whose credential pays for it.
/// It answers two questions that are easy to confuse, and a single boolean gets one of them
/// wrong:
///
/// * [`Reach::is_on_device`] asks whether the data stays on your hardware.
/// * [`Reach::uses_local_credential`] asks whether the key lives on this machine.
///
/// A vendor CLI is the case that separates them. It signs in on your laptop and still sends
/// every prompt to the vendor.
#[derive(Debug, Clone, Copy, PartialEq, Eq, PartialOrd, Ord, Hash, Structural)]
pub enum Reach {
    /// The vendor's own hosted API.
    FirstPartyApi,
    /// The same model served by a cloud partner, such as a hyperscaler's model service.
    CloudPartner,
    /// A private deployment you control, reached over the network.
    PrivateEndpoint,
    /// A vendor command line tool on this machine, using the login it already has.
    LocalCli,
    /// Weights you run yourself. The only reach where nothing leaves the hardware.
    SelfHosted,
}

/// A character as a reach is compared: letters in lower case, underscores as hyphens.
pub open spec fn folded(c: char) -> char {
    if 'A' <= c <= 'Z' {
        ((c as u8) + 32) as char
    } else if c == '_' {
        '-'
    } else {
        c
    }
}

/// A name as a reach is compared: without the white space around it, folded throughout.
pub open spec fn normal_name(name: Seq<char>) -> Seq<char> {
    trimmed(name).map_values(|c: char| folded(c))
}

/// The reach that a name in its compared form means.
pub open spec fn reach_named(name: Seq<char>) -> Option<Reach> {
    if name == "first-party-api"@ || name == "api"@ {
        Some(Reach::FirstPartyApi)
    } else if name == "cloud-partner"@ {
        Some(Reach::CloudPartner)
    } else if name == "private-endpoint"@ {
        Some(Reach::PrivateEndpoint)
    } else if name == "local-cli"@ || name == "cli"@ {
        Some(Reach::LocalCli)
    } else if name == "self-hosted"@ {
        Some(Reach::SelfHosted)
    } else {
        None
    }
}

/// A character as a reach is compared.
fn fold(c: char) -> (lower: char)
    ensures
        lower == folded(c),
{
    if 'A' <= c && c <= 'Z' {
        ((c as u8) + 32) as char
    } else if c == '_' {
        '-'
    } else {
        c
    }
}

impl Reach {
    /// Every reach there is, in the order above.
    pub const ALL: [Reach; 5] = [
        Reach::FirstPartyApi,
        Reach::CloudPartner,
        Reach::PrivateEndpoint,
        Reach::LocalCli,
        Reach::SelfHosted,
    ];

    /// How a reach is written down.
    pub open spec fn name(self) -> Seq<char> {
        match self {
            Reach::FirstPartyApi => "first-party-api"@,
            Reach::CloudPartner => "cloud-partner"@,
            Reach::PrivateEndpoint => "private-endpoint"@,
            Reach::LocalCli => "local-cli"@,
            Reach::SelfHosted => "self-hosted"@,
        }
    }

    /// Whether the data stays on your own machines.
    pub fn is_on_device(self) -> (yes: bool)
        ensures
            yes == (self is SelfHosted),
    {
        match self {
            Reach::SelfHosted => true,
            _ => false,
        }
    }

    /// Whether the credential is local even though the data is not.
    pub fn uses_local_credential(self) -> (yes: bool)
        ensures
            yes == (self is LocalCli || self is SelfHosted),
    {
        match self {
            Reach::LocalCli | Reach::SelfHosted => true,
            _ => false,
        }
    }

    /// How a reach is written down, in configuration and in records.
    pub fn as_str(self) -> (name: &'static str)
        ensures
            name@ == self.name(),
    {
        match self {
            Reach::FirstPartyApi => "first-party-api",
            Reach::CloudPartner => "cloud-partner",
            Reach::PrivateEndpoint => "private-endpoint",
            Reach::LocalCli => "local-cli",
            Reach::SelfHosted => "self-hosted",
        }
    }

    /// Reads a reach from its written form.
    ///
    /// Accepts the short forms `api` and `cli`, and treats underscores and hyphens as the
    /// same character, because configuration files disagree about which one to use.
    pub fn parse(name: &str) -> (reach: Option<Reach>)
        ensures
            reach == reach_named(normal_name(name@)),
    {
        let chars = chars_of(trim(name).as_str());
        let mut lower: Vec<char> = Vec::new();
        let mut i: usize = 0;
        while i < chars.len()
            invariant
                i <= chars.len(),
                lower@ == chars@.take(i as int).map_values(|c: char| folded(c)),
            decreases chars.len() - i,
        {
            lower.push(fold(chars[i]));
            i += 1;
        }
        assert(chars@.take(i as int) == chars@);
        let name = text_of(&lower);
        if same(&name, "first-party-api") || same(&name, "api") {
            Some(Reach::FirstPartyApi)
        } else if same(&name, "cloud-partner") {
            Some(Reach::CloudPartner)
        } else if same(&name, "private-endpoint") {
            Some(Reach::PrivateEndpoint)
        } else if same(&name, "local-cli") || same(&name, "cli") {
            Some(Reach::LocalCli)
        } else if same(&name, "self-hosted") {
            Some(Reach::SelfHosted)
        } else {
            None
        }
    }
}

/// Every reach reads back from how it is written.
pub proof fn a_reach_reads_back(reach: Reach)
    ensures
        reach_named(normal_name(reach.name())) == Some(reach),
{
    reveal_strlit("first-party-api");
    reveal_strlit("cloud-partner");
    reveal_strlit("private-endpoint");
    reveal_strlit("local-cli");
    reveal_strlit("self-hosted");
    reveal_strlit("api");
    reveal_strlit("cli");
    let name = reach.name();
    assert(trimmed(name) == name);
    assert(normal_name(name) =~= name);
    assert("first-party-api"@.len() == 15);
    assert("cloud-partner"@.len() == 13);
    assert("private-endpoint"@.len() == 16);
    assert("local-cli"@.len() == 9);
    assert("self-hosted"@.len() == 11);
}

/// What a model can do, as reached this way.
///
/// Read this before you build a request. The point of having it is that a caller finds out
/// what is missing by asking, rather than by sending a request and reading the error.
///
/// Capabilities belong to the pair of model and reach, not to the model alone.
#[derive(Debug, Clone, Copy, PartialEq, Eq, Structural)]
pub struct ModelCapabilities {
    /// How many tokens fit in one request.
    pub context_window: u32,
    /// The most tokens the model will produce in one reply.
    pub max_output: u32,
    /// Whether the model can be given tools and asked to call them.
    pub tools: bool,
    /// Whether the model can be asked for output matching a schema.
    pub structured_output: bool,
    /// Whether repeated prefixes can be cached, so you are billed less for them.
    pub prompt_caching: bool,
    /// Whether the model can be asked to reason before answering.
    pub thinking: bool,
    /// Whether a request may carry an image.
    pub images: bool,
    /// Whether the reply can be read as it arrives rather than all at once.
    pub streaming: bool,
    /// Where this pairing runs.
    pub reach: Reach,
}

impl ModelCapabilities {
    /// A capability set with everything off and no room, for a provider to fill in.
    ///
    /// Zeros rather than plausible defaults. A guessed context window is a request that
    /// fails far from the guess, and the caller has no way to know the number was invented.
    pub fn none(reach: Reach) -> (have: ModelCapabilities)
        ensures
            have == (ModelCapabilities {
                context_window: 0,
                max_output: 0,
                tools: false,
                structured_output: false,
                prompt_caching: false,
                thinking: false,
                images: false,
                streaming: false,
                reach,
            }),
    {
        ModelCapabilities {
            context_window: 0,
            max_output: 0,
            tools: false,
            structured_output: false,
            prompt_caching: false,
            thinking: false,
            images: false,
            streaming: false,
            reach,
        }
    }

    /// Sets how much fits in one request and how much comes back.
    pub fn with_window(self, context_window: u32, max_output: u32) -> (have: ModelCapabilities)
        ensures
            have == (ModelCapabilities { context_window, max_output, ..self }),
    {
        ModelCapabilities { context_window, max_output, ..self }
    }

    /// Says the model can be given tools.
    pub fn with_tools(self) -> (have: ModelCapabilities)
        ensures
            have == (ModelCapabilities { tools: true, ..self }),
    {
        ModelCapabilities { tools: true, ..self }
    }

    /// Says the model can be asked for output matching a schema.
    pub fn with_structured_output(self) -> (have: ModelCapabilities)
        ensures
            have == (ModelCapabilities { structured_output: true, ..self }),
    {
        ModelCapabilities { structured_output: true, ..self }
    }

    /// Says repeated prefixes can be cached.
    pub fn with_prompt_caching(self) -> (have: ModelCapabilities)
        ensures
            have == (ModelCapabilities { prompt_caching: true, ..self }),
    {
        ModelCapabilities { prompt_caching: true, ..self }
    }

    /// Says the model can be asked to reason.
    pub fn with_thinking(self) -> (have: ModelCapabilities)
        ensures
            have == (ModelCapabilities { thinking: true, ..self }),
    {
        ModelCapabilities { thinking: true, ..self }
    }

    /// Says a request may carry an image.
    pub fn with_images(self) -> (have: ModelCapabilities)
        ensures
            have == (ModelCapabilities { images: true, ..self }),
    {
        ModelCapabilities { images: true, ..self }
    }

    /// Says the reply can be read as it arrives.
    pub fn with_streaming(self) -> (have: ModelCapabilities)
        ensures
            have == (ModelCapabilities { streaming: true, ..self }),
    {
        ModelCapabilities { streaming: true, ..self }
    }
}

/// A reach is read whatever the case of its letters, with either dash, and whatever stands around
/// it that is white; and the short names of two of them are read too.
pub proof fn a_name_is_folded_letter_by_letter(name: Seq<char>, i: int)
    requires
        0 <= i < trimmed(name).len(),
    ensures
        normal_name(name).len() == trimmed(name).len(),
        trimmed(name)[i] == '_' ==> normal_name(name)[i] == '-',
        'a' <= trimmed(name)[i] <= 'z' ==> normal_name(name)[i] == trimmed(name)[i],
        'A' <= trimmed(name)[i] <= 'Z' ==> normal_name(name)[i] as int == trimmed(name)[i] as int
            + 32,
{
}

/// The names of the reaches are told apart.
proof fn reach_names_differ()
    ensures
        "first-party-api"@ != "api"@,
        "first-party-api"@ != "cloud-partner"@,
        "first-party-api"@ != "private-endpoint"@,
        "first-party-api"@ != "local-cli"@,
        "first-party-api"@ != "cli"@,
        "first-party-api"@ != "self-hosted"@,
        "api"@ != "cloud-partner"@,
        "api"@ != "private-endpoint"@,
        "api"@ != "local-cli"@,
        "api"@ != "cli"@,
        "api"@ != "self-hosted"@,
        "cloud-partner"@ != "private-endpoint"@,
        "cloud-partner"@ != "local-cli"@,
        "cloud-partner"@ != "cli"@,
        "cloud-partner"@ != "self-hosted"@,
        "private-endpoint"@ != "local-cli"@,
        "private-endpoint"@ != "cli"@,
        "private-endpoint"@ != "self-hosted"@,
        "local-cli"@ != "cli"@,
        "local-cli"@ != "self-hosted"@,
        "cli"@ != "self-hosted"@,
{
    reveal_strlit("first-party-api");
    reveal_strlit("api");
    reveal_strlit("cloud-partner");
    reveal_strlit("private-endpoint");
    reveal_strlit("local-cli");
    reveal_strlit("cli");
    reveal_strlit("self-hosted");
    assert("first-party-api"@.len() != "api"@.len());
    assert("first-party-api"@.len() != "cloud-partner"@.len());
    assert("first-party-api"@.len() != "private-endpoint"@.len());
    assert("first-party-api"@.len() != "local-cli"@.len());
    assert("first-party-api"@.len() != "cli"@.len());
    assert("first-party-api"@.len() != "self-hosted"@.len());
    assert("api"@.len() != "cloud-partner"@.len());
    assert("api"@.len() != "private-endpoint"@.len());
    assert("api"@.len() != "local-cli"@.len());
    assert("api"@[0] != "cli"@[0]);
    assert("api"@.len() != "self-hosted"@.len());
    assert("cloud-partner"@.len() != "private-endpoint"@.len());
    assert("cloud-partner"@.len() != "local-cli"@.len());
    assert("cloud-partner"@.len() != "cli"@.len());
    assert("cloud-partner"@.len() != "self-hosted"@.len());
    assert("private-endpoint"@.len() != "local-cli"@.len());
    assert("private-endpoint"@.len() != "cli"@.len());
    assert("private-endpoint"@.len() != "self-hosted"@.len());
    assert("local-cli"@.len() != "cli"@.len());
    assert("local-cli"@.len() != "self-hosted"@.len());
    assert("cli"@.len() != "self-hosted"@.len());
}

/// Each reach is read under its own name and written under it.
pub proof fn each_reach_has_its_own_name()
    ensures
        reach_named("first-party-api"@) == Some(Reach::FirstPartyApi),
        reach_named("api"@) == Some(Reach::FirstPartyApi),
        reach_named("cloud-partner"@) == Some(Reach::CloudPartner),
        reach_named("private-endpoint"@) == Some(Reach::PrivateEndpoint),
        reach_named("local-cli"@) == Some(Reach::LocalCli),
        reach_named("cli"@) == Some(Reach::LocalCli),
        reach_named("self-hosted"@) == Some(Reach::SelfHosted),
        Reach::FirstPartyApi.name() == "first-party-api"@,
        Reach::CloudPartner.name() == "cloud-partner"@,
        Reach::PrivateEndpoint.name() == "private-endpoint"@,
        Reach::LocalCli.name() == "local-cli"@,
        Reach::SelfHosted.name() == "self-hosted"@,
{
    reach_names_differ();
}

} // verus!
