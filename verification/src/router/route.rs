//! One way to reach one model, and what it took to get an answer.

use crate::chat::response::ChatResponse;
use crate::cost::pricing::{PriceBook, Rate};
use crate::model::{ModelCapabilities, ModelId};
use crate::text::followed_by;
use std::sync::Arc;
use vstd::prelude::*;

verus! {

/// One way to reach one model.
///
/// A provider can serve several, so a route pairs the two and gives the pairing a name you
/// can read in a report.
pub struct Route {
    provider: String,
    model: ModelId,
    capabilities: Option<ModelCapabilities>,
    prices: Option<Arc<PriceBook>>,
}

/// What a [`Route`] holds, with what it charges where that is known.
#[verifier::ext_equal]
pub struct Way {
    pub provider: Seq<char>,
    pub model: Seq<char>,
    pub capabilities: Option<ModelCapabilities>,
    pub rate: Option<Rate>,
}

impl DeepView for Route {
    type V = Way;

    closed spec fn deep_view(&self) -> Way {
        Way {
            provider: self.provider@,
            model: self.model@,
            capabilities: self.capabilities,
            rate: match self.prices {
                Some(book) => if book.deep_view().rates.contains_key(self.model@) {
                    Some(book.deep_view().rates[self.model@])
                } else {
                    None
                },
                None => None,
            },
        }
    }
}

impl Way {
    /// Which provider and which model.
    pub open spec fn name(self) -> Seq<char> {
        self.provider + "/"@ + self.model
    }
}

impl Route {
    /// A model, through the provider of this name, which says this of it.
    pub fn new(provider: &str, model: ModelId, capabilities: Option<ModelCapabilities>) -> (route:
        Route)
        ensures
            route.deep_view() == (Way {
                provider: provider@,
                model: model@,
                capabilities,
                rate: None,
            }),
    {
        Route { provider: provider.to_owned(), model, capabilities, prices: None }
    }

    /// What this pairing charges, so an ordering can compare it against another.
    ///
    /// Only [`crate::Order::Cheapest`] reads it. A route without one is not free, it is
    /// unpriced, and the ordering treats those two very differently.
    #[must_use]
    pub fn priced_by(self, prices: Arc<PriceBook>) -> (route: Route)
        ensures
            route.deep_view() == (Way {
                rate: if prices.deep_view().rates.contains_key(self.deep_view().model) {
                    Some(prices.deep_view().rates[self.deep_view().model])
                } else {
                    None
                },
                ..self.deep_view()
            }),
    {
        Route { prices: Some(prices), ..self }
    }

    /// The published rate for this pairing, if there is a book with a row for it.
    ///
    /// `None` for a route with no book **and** for a route whose book does not list the
    /// model. Both are the same thing to an ordering: nobody knows what this costs.
    pub fn rate(&self) -> (rate: Option<Rate>)
        ensures
            rate == self.deep_view().rate,
    {
        match &self.prices {
            Some(book) => match book.rate(&self.model) {
                Some(rate) => Some(*rate),
                None => None,
            },
            None => None,
        }
    }

    /// What this pairing can do, as the provider describes it.
    ///
    /// `None` when the provider does not know this model, which is why a route can be
    /// configured and never chosen. [`crate::Router::unusable`] reports those, because a route
    /// nothing can select is a typo somebody has not noticed.
    pub fn capabilities(&self) -> (have: Option<ModelCapabilities>)
        ensures
            have == self.deep_view().capabilities,
    {
        self.capabilities
    }

    /// Takes in what the provider says of this pairing now.
    pub(crate) fn describe(&mut self, have: Option<ModelCapabilities>)
        ensures
            final(self).deep_view() == (Way { capabilities: have, ..old(self).deep_view() }),
    {
        self.capabilities = have;
    }

    /// The model this route asks for.
    pub fn model(&self) -> (model: &ModelId)
        ensures
            model@ == self.deep_view().model,
    {
        &self.model
    }

    /// Which provider and which model, for a report.
    pub fn name(&self) -> (name: String)
        ensures
            name@ == self.deep_view().name(),
    {
        followed_by(self.provider.as_str(), "/").concat(self.model.as_str())
    }
}

/// What happened on the way to an answer.
///
/// Kept because a reply that arrived on the third route is a different fact from one that
/// arrived on the first, and a program that cannot tell them apart cannot see a provider
/// going bad.
#[derive(Debug, PartialEq, Eq)]
pub struct Attempted {
    /// Which route, as [`Route::name`] writes it.
    pub route: String,
    /// Why it did not serve the request, in one line.
    pub why: String,
}

/// What an [`Attempted`] says.
#[verifier::ext_equal]
pub struct Tried {
    pub route: Seq<char>,
    pub why: Seq<char>,
}

impl DeepView for Attempted {
    type V = Tried;

    open spec fn deep_view(&self) -> Tried {
        Tried { route: self.route@, why: self.why@ }
    }
}

impl Clone for Attempted {
    fn clone(&self) -> (copy: Attempted)
        ensures
            copy.deep_view() == self.deep_view(),
    {
        Attempted { route: self.route.clone(), why: self.why.clone() }
    }
}

/// A reply, and what it took to get one.
///
/// Generic in what came back, and [`ChatResponse`] unless you say otherwise. A journey that
/// ends in something that cannot be copied carries nothing here, beside the thing itself.
#[derive(Debug, Clone)]
pub struct Routed<T = ChatResponse> {
    /// The reply.
    pub response: T,
    /// The route that produced it.
    pub route: String,
    /// The routes tried first, in order, and why each one did not answer.
    ///
    /// Empty on the common path. A non empty list on a successful call is the most useful
    /// thing in a log: it is a provider degrading while nothing is failing.
    pub fell_through: Vec<Attempted>,
    /// How many times a provider was actually called.
    ///
    /// One on the common path. More than one means a [`crate::Retry`] policy repeated
    /// something, and that is worth seeing: a call that succeeded on the third attempt cost
    /// three, and nothing else in a successful reply says so. Routes skipped for want of a
    /// capability are not counted here, because nothing was sent.
    pub attempts: u32,
}

impl Routed<()> {
    /// The same journey, carrying something.
    pub fn carrying<T>(self, response: T) -> (routed: Routed<T>)
        ensures
            routed == (Routed {
                response,
                route: self.route,
                fell_through: self.fell_through,
                attempts: self.attempts,
            }),
    {
        Routed {
            response,
            route: self.route,
            fell_through: self.fell_through,
            attempts: self.attempts,
        }
    }
}

} // verus!
