//! `InvokeModel`, for the Anthropic model family.
//!
//! The body and the reply are those of the Messages protocol, with two differences: the model
//! is addressed by URL, and the version of the schema stands in its place. There is no key
//! argument. The transport signs, and a bearer token attached beside a signature is at best
//! ignored and at worst a request Bedrock rejects.

use crate::chat::request::{Asked, ChatRequest};
use crate::chat::response::{ChatResponse, Reply};
use crate::chat::stream::{Event, Happening};
use crate::error::{Error, Failure};
use crate::json::{Json, Tree};
use crate::model::{ModelId, Reach};
use crate::provider::no_catalogue;
use crate::providers::anthropic::api::{
    members_differ,
    breakpoints_fit, read_reply, reply_of, request_body, write_request,
};
use crate::providers::api::{ApiProvider, Endpoint, Frame, Protocol, SseFrame};
use crate::registry::Registry;
use crate::secret::{Credential, Secret};
use crate::text::{followed_by, without_trailing};
use std::sync::Arc;
use vstd::prelude::*;

verus! {

/// The `InvokeModel` protocol.
#[derive(Debug, Clone, Copy, PartialEq, Eq, Structural)]
pub struct InvokeModel;

impl Default for InvokeModel {
    fn default() -> (protocol: InvokeModel)
        ensures
            protocol == InvokeModel,
    {
        InvokeModel
    }
}

/// Bedrock, ready to call.
pub type Bedrock = ApiProvider<InvokeModel>;

/// The address of Bedrock in a region.
pub open spec fn endpoint_of(region: Seq<char>) -> Seq<char> {
    "https://bedrock-runtime."@ + region + ".amazonaws.com"@
}

/// The address of Bedrock in a region.
pub fn endpoint(region: &str) -> (url: String)
    ensures
        url@ == endpoint_of(region@),
{
    followed_by("https://bedrock-runtime.", region).concat(".amazonaws.com")
}

/// A request as it goes on the wire: a Messages request that names no model and says which
/// version of the schema it speaks.
pub open spec fn invoke_body(request: Asked) -> Result<Tree, Failure> {
    match request_body(request) {
        Ok(body) => Ok(
            body.without("model"@).with("anthropic_version"@, Tree::Text("bedrock-2023-05-31"@)),
        ),
        Err(why) => Err(why),
    }
}

impl Protocol for InvokeModel {
    open spec fn name(&self) -> Seq<char> {
        "bedrock"@
    }

    open spec fn chat_address(&self, base_url: Seq<char>, model: Seq<char>) -> Seq<char> {
        base_url + "/model/"@ + model + "/invoke"@
    }

    open spec fn stream_address(&self, base_url: Seq<char>, model: Seq<char>) -> Seq<char> {
        base_url + "/model/"@ + model + "/invoke"@
    }

    open spec fn catalogue_address(&self, base_url: Seq<char>) -> Option<Seq<char>> {
        None
    }

    open spec fn header_list(&self, key: Credential) -> Result<
        Seq<(Seq<char>, Seq<char>)>,
        Failure,
    > {
        Ok(
            seq![
                ("content-type"@, "application/json"@),
                ("accept"@, "application/json"@),
            ],
        )
    }

    open spec fn writes(&self, request: Asked) -> bool {
        breakpoints_fit(request)
    }

    open spec fn body_of(&self, request: Asked) -> Result<Tree, Failure> {
        invoke_body(request)
    }

    open spec fn stream_body_of(&self, request: Asked) -> Result<Option<Tree>, Failure> {
        Ok(None)
    }

    open spec fn reply_in(&self, body: Tree, asked_for: Seq<char>) -> Result<Reply, Failure> {
        reply_of(body, asked_for)
    }

    open spec fn names_in(&self, body: Tree) -> Result<Seq<Seq<char>>, Failure> {
        Err(Failure::Unsupported("bedrock"@ + " has no model catalogue"@))
    }

    open spec fn events_in(&self, frame: Frame) -> Result<Seq<Happening>, Failure> {
        Ok(Seq::empty())
    }

    fn id(&self) -> (id: &str) {
        "bedrock"
    }

    fn chat_url(&self, base_url: &str, model: &ModelId) -> (url: String) {
        followed_by(base_url, "/model/").concat(model.as_str()).concat("/invoke")
    }

    fn stream_url(&self, base_url: &str, model: &ModelId) -> (url: String) {
        followed_by(base_url, "/model/").concat(model.as_str()).concat("/invoke")
    }

    // No catalogue. Bedrock lists models through its control plane on a different host with a
    // different action. Answering that there is none is honest; an empty list would read as
    // Amazon serving nothing.
    fn catalogue_url(&self, base_url: &str) -> (url: Option<String>) {
        None
    }

    fn headers(&self, key: &Secret) -> (headers: Result<Vec<(String, String)>, Error>) {
        let mut headers: Vec<(String, String)> = Vec::new();
        headers.push(("content-type".to_owned(), "application/json".to_owned()));
        headers.push(("accept".to_owned(), "application/json".to_owned()));
        assert(headers.deep_view() == seq![
            ("content-type"@, "application/json"@),
            ("accept"@, "application/json"@),
        ]);
        Ok(headers)
    }

    fn body(&self, request: &ChatRequest) -> (body: Result<Json, Error>) {
        match write_request(request) {
            Ok(body) => Ok(
                body.without("model").with(
                    "anthropic_version",
                    Json::text("bedrock-2023-05-31"),
                ),
            ),
            Err(why) => Err(why),
        }
    }

    fn stream_body(&self, request: &ChatRequest) -> (body: Result<Option<Json>, Error>) {
        Ok(None)
    }

    // The reply is the Messages reply, unchanged. Reading it any other way here would be a
    // second implementation of the part that is hardest to get right.
    fn read(&self, body: &Json, asked_for: &ModelId) -> (reply: Result<ChatResponse, Error>) {
        read_reply(body, asked_for)
    }

    fn read_catalogue(&self, body: &Json) -> (ids: Result<Vec<ModelId>, Error>) {
        Err(Error::Unsupported(no_catalogue("bedrock")))
    }

    fn read_event(&self, frame: &SseFrame) -> (events: Result<Vec<Event>, Error>) {
        let events: Vec<Event> = Vec::new();
        assert(events.deep_view() == Seq::<Happening>::empty());
        Ok(events)
    }
}

/// The Anthropic model family in a region. Nothing reads the credential: signing is the
/// transport's.
pub fn anthropic_family(region: &str, registry: Arc<Registry>) -> (provider: ApiProvider<
    InvokeModel,
>)
    ensures
        provider.speaks() == InvokeModel,
        provider.holds() == (Endpoint {
            key: Credential {
                bytes: vstd::utf8::encode_utf8(""@),
                label: "bedrock-signed-by-the-transport"@,
            },
            base_url: without_trailing(endpoint_of(region@), '/'),
            reach: Reach::CloudPartner,
            registry: registry.deep_view(),
        }),
{
    ApiProvider::new(
        InvokeModel,
        endpoint(region).as_str(),
        Secret::new("bedrock-signed-by-the-transport", ""),
        Reach::CloudPartner,
        registry,
    )
}

/// A request for Bedrock never names its model in the body and always says which version of the
/// schema it speaks; everything else is as the Messages protocol writes it.
pub proof fn the_model_is_only_in_the_address(request: Asked)
    requires
        request_body(request) is Ok,
    ensures
        invoke_body(request) matches Ok(body) && body.get("model"@) is None && body.get(
            "anthropic_version"@,
        ) == Some(Tree::Text("bedrock-2023-05-31"@)) && forall|name: Seq<char>|
            name != "model"@ && name != "anthropic_version"@ ==> (#[trigger] body.get(name))
                == request_body(request)->Ok_0.get(name),
{
    reveal_strlit("model");
    reveal_strlit("anthropic_version");
    assert("model"@.len() == 5);
    assert("anthropic_version"@.len() == 17);
    let body = request_body(request)->Ok_0;
    assert(body is Object);
}

/// A request names the version it is written in and not the model, which stands in the address,
/// and is otherwise what the model's own protocol writes.
pub proof fn a_request_leaves_the_model_to_the_address(
    protocol: InvokeModel,
    request: Asked,
    name: Seq<char>,
    base_url: Seq<char>,
)
    ensures
        protocol.body_of(request) is Ok <==> request_body(request) is Ok,
        protocol.body_of(request) is Ok ==> ({
            let body = protocol.body_of(request)->Ok_0;
            let own = request_body(request)->Ok_0;
            &&& body.get("model"@) is None
            &&& body.text_at("anthropic_version"@) == Some("bedrock-2023-05-31"@)
            &&& name != "model"@ && name != "anthropic_version"@ ==> body.get(name) == own.get(name)
        }),
        protocol.chat_address(base_url, request.model) == base_url + "/model"@ + "/"@
            + request.model + "/invoke"@,
        protocol.catalogue_address(base_url) is None,
        protocol.stream_body_of(request) == Ok::<Option<Tree>, Failure>(None),
{
    members_differ();
    reveal_strlit("/model");
    reveal_strlit("/");
    reveal_strlit("/model/");
    assert("/model"@ + "/"@ == "/model/"@);
    assert(base_url + "/model"@ + "/"@ == base_url + ("/model"@ + "/"@));
}

/// The endpoint is that of its region, and what cannot be asked for is said to be unsupported.
pub proof fn the_endpoint_is_that_of_its_region(
    protocol: InvokeModel,
    region: Seq<char>,
    body: Tree,
    key: Credential,
)
    ensures
        endpoint_of(region) == "https://bedrock-runtime."@ + region + ".amazonaws.com"@,
        protocol.names_in(body) is Err,
        protocol.names_in(body)->Err_0 is Unsupported,
        protocol.header_list(key) is Ok,
        protocol.header_list(key)->Ok_0 == seq![
            ("content-type"@, "application/json"@),
            ("accept"@, "application/json"@),
        ],
{
}

} // verus!
