//! What a request needs from whatever serves it.

use crate::chat::request::{is_image, named_if, shows_image, Asked, ChatRequest};
use crate::model::ModelCapabilities;
use vstd::prelude::*;

verus! {

/// What a request needs from whatever serves it.
///
/// Build one from a request with [`Requirements::of`], then add the constraints your
/// program has that a request cannot express.
#[derive(Debug, Clone, Copy, PartialEq, Eq, Structural)]
pub struct Requirements {
    /// The model must accept tools.
    pub tools: bool,
    /// The model must accept a response schema.
    pub structured_output: bool,
    /// The model must support prompt caching.
    pub prompt_caching: bool,
    /// The model must be able to reason.
    pub thinking: bool,
    /// The model must accept an image.
    pub images: bool,
    /// The reply must be readable as it arrives.
    ///
    /// Not something a request can express, because it is about how you intend to read the
    /// answer rather than about what you asked. Set it with [`Requirements::streaming`].
    pub streaming: bool,
    /// The data may not leave this machine.
    ///
    /// A floor rather than a preference. When this is set, only [`crate::Reach::SelfHosted`]
    /// is considered, and a router with nothing self hosted refuses rather than falling back.
    /// Falling back here would be sending private data to a vendor because the local model
    /// was busy.
    pub must_stay_on_device: bool,
}

/// Adds a name to a list where a need is not met.
fn name_if(names: &mut Vec<&'static str>, missing: bool, name: &'static str)
    ensures
        final(names).deep_view() == old(names).deep_view() + named_if(missing, name@),
{
    let ghost before = names.deep_view();
    if missing {
        names.push(name);
    }
    assert(names.deep_view() == before + named_if(missing, name@));
}

impl Default for Requirements {
    fn default() -> (needs: Requirements)
        ensures
            needs == Requirements::nothing(),
    {
        Requirements {
            tools: false,
            structured_output: false,
            prompt_caching: false,
            thinking: false,
            images: false,
            streaming: false,
            must_stay_on_device: false,
        }
    }
}

impl Requirements {
    /// No requirement at all.
    pub open spec fn nothing() -> Requirements {
        Requirements {
            tools: false,
            structured_output: false,
            prompt_caching: false,
            thinking: false,
            images: false,
            streaming: false,
            must_stay_on_device: false,
        }
    }

    /// What a request needs, read from the request itself.
    pub open spec fn in_request(request: Asked) -> Requirements {
        Requirements {
            tools: request.needs().tools,
            structured_output: request.needs().structured_output,
            prompt_caching: request.needs().prompt_caching,
            thinking: request.needs().thinking,
            images: request.needs().images,
            streaming: false,
            must_stay_on_device: false,
        }
    }

    /// Whether these capabilities are enough.
    pub open spec fn is_met(self, have: ModelCapabilities) -> bool {
        &&& self.must_stay_on_device ==> have.reach is SelfHosted
        &&& self.tools ==> have.tools
        &&& self.structured_output ==> have.structured_output
        &&& self.prompt_caching ==> have.prompt_caching
        &&& self.thinking ==> have.thinking
        &&& self.streaming ==> have.streaming
        &&& self.images ==> have.images
    }

    /// What is missing, by name.
    pub open spec fn unmet(self, have: ModelCapabilities) -> Seq<Seq<char>> {
        named_if(self.must_stay_on_device && !(have.reach is SelfHosted), "on-device"@) + named_if(
            self.tools && !have.tools,
            "tools"@,
        ) + named_if(
            self.structured_output && !have.structured_output,
            "structured_output"@,
        ) + named_if(self.prompt_caching && !have.prompt_caching, "prompt_caching"@) + named_if(
            self.streaming && !have.streaming,
            "streaming"@,
        ) + named_if(self.thinking && !have.thinking, "thinking"@) + named_if(
            self.images && !have.images,
            "images"@,
        )
    }

    /// What this request needs, read from the request itself.
    ///
    /// Covers the capability questions. It cannot know whether your data may leave the
    /// machine, so set [`Requirements::on_device`] when it may not.
    pub fn of(request: &ChatRequest) -> (needs: Requirements)
        ensures
            needs == Requirements::in_request(request.deep_view()),
    {
        let needs = request.needs();
        Requirements {
            tools: needs.tools,
            structured_output: needs.structured_output,
            prompt_caching: needs.prompt_caching,
            thinking: needs.thinking,
            images: needs.images,
            // Neither of these is in the request. One is about how you will read the reply,
            // the other about where your data may go, and a request says nothing about
            // either.
            streaming: false,
            must_stay_on_device: false,
        }
    }

    /// Nothing but a self hosted model will do.
    #[must_use]
    pub fn on_device(self) -> (needs: Requirements)
        ensures
            needs == (Requirements { must_stay_on_device: true, ..self }),
    {
        Requirements { must_stay_on_device: true, ..self }
    }

    /// The reply has to arrive in pieces.
    ///
    /// Worth setting when a person is watching. Every provider can be asked for a stream, but
    /// one that cannot really stream answers it all at once at the end, and routing to it is
    /// how a screen stays blank for thirty seconds while nothing appears to be wrong.
    #[must_use]
    pub fn streaming(self) -> (needs: Requirements)
        ensures
            needs == (Requirements { streaming: true, ..self }),
    {
        Requirements { streaming: true, ..self }
    }

    /// Whether these capabilities are enough.
    pub fn met_by(self, have: &ModelCapabilities) -> (yes: bool)
        ensures
            yes == self.is_met(*have),
    {
        if self.must_stay_on_device && !have.reach.is_on_device() {
            return false;
        }
        (!self.tools || have.tools) && (!self.structured_output || have.structured_output) && (
        !self.prompt_caching || have.prompt_caching) && (!self.thinking || have.thinking) && (
        !self.streaming || have.streaming) && (!self.images || have.images)
    }

    /// What is missing, by name, for a message somebody reads.
    pub fn unmet_by(self, have: &ModelCapabilities) -> (missing: Vec<&'static str>)
        ensures
            missing.deep_view() == self.unmet(*have),
    {
        let mut missing: Vec<&'static str> = Vec::new();
        name_if(
            &mut missing,
            self.must_stay_on_device && !have.reach.is_on_device(),
            "on-device",
        );
        name_if(&mut missing, self.tools && !have.tools, "tools");
        name_if(
            &mut missing,
            self.structured_output && !have.structured_output,
            "structured_output",
        );
        name_if(&mut missing, self.prompt_caching && !have.prompt_caching, "prompt_caching");
        name_if(&mut missing, self.streaming && !have.streaming, "streaming");
        name_if(&mut missing, self.thinking && !have.thinking, "thinking");
        name_if(&mut missing, self.images && !have.images, "images");
        missing
    }
}

/// Capabilities are enough exactly where nothing is missing.
pub proof fn enough_is_nothing_missing(needs: Requirements, have: ModelCapabilities)
    ensures
        needs.is_met(have) <==> needs.unmet(have).len() == 0,
{
}

/// A model that takes everything a request needs meets the requirements read from it.
pub proof fn a_request_needs_what_it_carries(request: Asked, have: ModelCapabilities)
    ensures
        Requirements::in_request(request).is_met(have) <==> request.needs().unmet(have).len() == 0,
{
}

/// A list with one name behind it holds that name and those it held.
proof fn one_more_name(list: Seq<Seq<char>>, missing: bool, name: Seq<char>, asked: Seq<char>)
    ensures
        (list + named_if(missing, name)).contains(asked) <==> list.contains(asked) || (missing
            && name == asked),
{
    let all = list + named_if(missing, name);
    if list.contains(asked) {
        let i = choose|i: int| 0 <= i < list.len() && list[i] == asked;
        assert(all[i] == asked);
    }
    if missing && name == asked {
        assert(all[list.len() as int] == asked);
    }
    if all.contains(asked) {
        let i = choose|i: int| 0 <= i < all.len() && all[i] == asked;
        if i < list.len() {
            assert(list[i] == asked);
        }
    }
}

/// What is needed and not had is named, each under its own name, and nothing else is.
pub proof fn what_is_missing_is_named(needs: Requirements, have: ModelCapabilities)
    ensures
        needs.unmet(have).contains("on-device"@) <==> needs.must_stay_on_device && !(have.reach
            is SelfHosted),
        needs.unmet(have).contains("tools"@) <==> needs.tools && !have.tools,
        needs.unmet(have).contains("structured_output"@) <==> needs.structured_output
            && !have.structured_output,
        needs.unmet(have).contains("prompt_caching"@) <==> needs.prompt_caching
            && !have.prompt_caching,
        needs.unmet(have).contains("streaming"@) <==> needs.streaming && !have.streaming,
        needs.unmet(have).contains("thinking"@) <==> needs.thinking && !have.thinking,
        needs.unmet(have).contains("images"@) <==> needs.images && !have.images,
{
    reveal_strlit("on-device");
    reveal_strlit("tools");
    reveal_strlit("structured_output");
    reveal_strlit("prompt_caching");
    reveal_strlit("streaming");
    reveal_strlit("thinking");
    reveal_strlit("images");
    assert("on-device"@.len() == 9 && "tools"@.len() == 5 && "structured_output"@.len() == 17
        && "prompt_caching"@.len() == 14 && "streaming"@.len() == 9 && "thinking"@.len() == 8
        && "images"@.len() == 6);
    assert("on-device"@[0] == 'o' && "streaming"@[0] == 's');
    let names = seq![
        "on-device"@,
        "tools"@,
        "structured_output"@,
        "prompt_caching"@,
        "streaming"@,
        "thinking"@,
        "images"@,
    ];
    assert forall|k: int| 0 <= k < names.len() implies needs.unmet(have).contains(
        #[trigger] names[k],
    ) == seq![
        needs.must_stay_on_device && !(have.reach is SelfHosted),
        needs.tools && !have.tools,
        needs.structured_output && !have.structured_output,
        needs.prompt_caching && !have.prompt_caching,
        needs.streaming && !have.streaming,
        needs.thinking && !have.thinking,
        needs.images && !have.images,
    ][k] by {
        let asked = names[k];
        let c0 = needs.must_stay_on_device && !(have.reach is SelfHosted);
        let c1 = needs.tools && !have.tools;
        let c2 = needs.structured_output && !have.structured_output;
        let c3 = needs.prompt_caching && !have.prompt_caching;
        let c4 = needs.streaming && !have.streaming;
        let c5 = needs.thinking && !have.thinking;
        let c6 = needs.images && !have.images;
        let none = Seq::<Seq<char>>::empty();
        let l0 = none + named_if(c0, names[0]);
        let l1 = l0 + named_if(c1, names[1]);
        let l2 = l1 + named_if(c2, names[2]);
        let l3 = l2 + named_if(c3, names[3]);
        let l4 = l3 + named_if(c4, names[4]);
        let l5 = l4 + named_if(c5, names[5]);
        let l6 = l5 + named_if(c6, names[6]);
        one_more_name(none, c0, names[0], asked);
        one_more_name(l0, c1, names[1], asked);
        one_more_name(l1, c2, names[2], asked);
        one_more_name(l2, c3, names[3], asked);
        one_more_name(l3, c4, names[4], asked);
        one_more_name(l4, c5, names[5], asked);
        one_more_name(l5, c6, names[6], asked);
        assert(needs.unmet(have) =~= l6);
    }
    assert(names[0] == "on-device"@ && names[1] == "tools"@);
    assert(names[2] == "structured_output"@ && names[3] == "prompt_caching"@ && names[4]
        == "streaming"@ && names[5] == "thinking"@ && names[6] == "images"@);
}

/// What a request needs is what it carries: tools where it has some, a schema where it has one,
/// caching where it marks a place for it, reasoning where that is on, and images where a turn
/// holds one. It never says how the reply is read, nor where the data may go.
pub proof fn a_request_needs_exactly_what_is_in_it(request: Asked)
    ensures
        Requirements::in_request(request).tools <==> request.tools.len() > 0,
        Requirements::in_request(request).structured_output <==> request.response_schema is Some,
        Requirements::in_request(request).prompt_caching <==> request.cache_breakpoints.len() > 0,
        Requirements::in_request(request).thinking <==> request.thinking is On,
        Requirements::in_request(request).images <==> exists|i: int, j: int|
            0 <= i < request.messages.len() && 0 <= j < request.messages[i].content.len()
                && #[trigger] request.messages[i].content[j] is Image,
        !Requirements::in_request(request).streaming,
        !Requirements::in_request(request).must_stay_on_device,
{
    if request.needs().images {
        let i = choose|i: int|
            0 <= i < request.messages.len() && shows_image(#[trigger] request.messages[i]);
        let turn = request.messages[i];
        let j = choose|j: int| 0 <= j < turn.content.len() && is_image(#[trigger] turn.content[j]);
        assert(request.messages[i].content[j] is Image);
    }
    if exists|i: int, j: int|
        0 <= i < request.messages.len() && 0 <= j < request.messages[i].content.len()
            && #[trigger] request.messages[i].content[j] is Image {
        let (i, j) = choose|i: int, j: int|
            0 <= i < request.messages.len() && 0 <= j < request.messages[i].content.len()
                && #[trigger] request.messages[i].content[j] is Image;
        assert(is_image(request.messages[i].content[j]));
        assert(shows_image(request.messages[i]));
    }
}

/// A requirement that is not had is never met, one requirement says nothing of another, and where
/// nothing is required anything will do.
pub proof fn each_requirement_stands_for_itself(have: ModelCapabilities, needs: Requirements)
    ensures
        needs.is_met(have) ==> (needs.must_stay_on_device ==> have.reach is SelfHosted) && (
        needs.tools ==> have.tools) && (needs.structured_output ==> have.structured_output) && (
        needs.prompt_caching ==> have.prompt_caching) && (needs.thinking ==> have.thinking) && (
        needs.images ==> have.images) && (needs.streaming ==> have.streaming),
        Requirements::nothing().is_met(have),
        (Requirements { tools: true, ..Requirements::nothing() }).is_met(have) <==> have.tools,
        (Requirements { structured_output: true, ..Requirements::nothing() }).is_met(have)
            <==> have.structured_output,
        (Requirements { prompt_caching: true, ..Requirements::nothing() }).is_met(have)
            <==> have.prompt_caching,
        (Requirements { thinking: true, ..Requirements::nothing() }).is_met(have)
            <==> have.thinking,
        (Requirements { images: true, ..Requirements::nothing() }).is_met(have) <==> have.images,
        (Requirements { streaming: true, ..Requirements::nothing() }).is_met(have)
            <==> have.streaming,
        (Requirements { must_stay_on_device: true, ..Requirements::nothing() }).is_met(have)
            <==> have.reach is SelfHosted,
{
}

} // verus!
