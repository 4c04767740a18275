//! Reach language models across providers, with capabilities you can read before you ask and
//! usage you can trust.
//!
//! What a model can do, what a call costs, what goes over the wire, what came back, whether to
//! try again and which provider to ask next are decided here. Sending bytes, running programs,
//! reading the environment and waiting are left to the caller: the library says what to send,
//! run or wait for, and reads what came of it.

pub mod breaker;
pub mod budget;
pub mod chat;
pub mod cost;
pub mod embed;
pub mod error;
pub mod json;
pub mod model;
pub mod order;
pub mod provider;
pub mod providers;
pub mod registry;
pub mod retry;
pub mod router;
pub mod secret;
pub mod testkit;
pub mod text;
pub mod time;
pub mod transport;

pub use breaker::{Breaker, Health};
pub use budget::{Budget, Refusal, Spending};
pub use chat::{
    ChatRequest, ChatResponse, ContentBlock, Effort, Event, Generation, ImageSource, Message,
    Needs, Role, StopReason, Thinking, ToolSchema, Transcript,
};
pub use cost::{Ledger, Micros, PriceBook, Priced, Rate, Recheck, Usage, UsageCoverage};
pub use embed::{EmbedRequest, Embedding, EmbeddingCapabilities, Embeddings, Purpose};
pub use error::Error;
pub use model::{ModelCapabilities, ModelId, Reach};
pub use provider::Access;
pub use registry::Registry;
pub use retry::Retry;
pub use router::{Attempted, Order, Requirements, Route, Routed, Router};
pub use secret::Secret;
pub use transport::{HttpRequest, HttpResponse, Method};

use vstd::prelude::*;

verus! {

} // verus!
