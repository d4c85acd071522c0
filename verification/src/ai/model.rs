//! A language model: who is spoken to, in what way, and with what parameters.

use vstd::prelude::*;
use crate::ai::error::AiError;
use crate::ai::message::{Message, ToolSpec};
use crate::ai::protocol::{Protocol, RequestModel, SamplingParams};
use crate::ai::provider::Provider;
use crate::ai::transport::{build_request, HttpRequest};

verus! {

/// What a language model can do.
#[derive(Debug, Clone, Copy, PartialEq, Eq, Structural)]
pub struct Capabilities {
    pub reasoning: bool,
}

impl Default for Capabilities {
    fn default() -> (r: Self)
        ensures
            r == (Capabilities { reasoning: false }),
    {
        Capabilities { reasoning: false }
    }
}

/// What the agent knows of a language model.
pub trait LanguageModel {
    /// The model's identifier.
    open spec fn identifier(&self) -> Seq<char> {
        arbitrary()
    }

    /// The model's identifier.
    fn model_id(&self) -> (r: &str)
        ensures
            r@ == self.identifier(),
    ;
}

/// A language model of a provider `P`, spoken to by a protocol `Q`.
#[derive(Debug)]
pub struct Model<P, Q> {
    pub id: String,
    pub display_name: String,
    /// Who is spoken to.
    pub provider: P,
    /// In what way.
    pub protocol: Q,
    /// With what parameters.
    pub params: SamplingParams,
    pub capabilities: Capabilities,
}

impl<P: Provider, Q: Protocol> Model<P, Q> {
    /// A model that is shown under its identifier.
    pub fn new(id: &str, provider: P, protocol: Q, params: SamplingParams, capabilities: Capabilities) -> (r: Self)
        ensures
            r.id@ == id@,
            r.display_name@ == id@,
            r.provider == provider,
            r.protocol == protocol,
            r.params == params,
            r.capabilities == capabilities,
    {
        Model { display_name: id.to_owned(), id: id.to_owned(), provider, protocol, params, capabilities }
    }

    /// The model, shown under another name.
    pub fn with_display_name(self, name: &str) -> (r: Self)
        ensures
            r.display_name@ == name@,
            r.id == self.id,
            r.provider == self.provider,
            r.protocol == self.protocol,
            r.params == self.params,
            r.capabilities == self.capabilities,
    {
        Model {
            id: self.id,
            display_name: name.to_owned(),
            provider: self.provider,
            protocol: self.protocol,
            params: self.params,
            capabilities: self.capabilities,
        }
    }

    /// The request that asks the model to go on with a conversation.
    pub fn chat_request(&self, messages: &[Message], tools: &[ToolSpec]) -> (r: Result<HttpRequest, AiError>)
        ensures
            crate::ai::transport::made_model(r) == crate::ai::transport::request_to(
                self.provider.address(),
                self.protocol,
                RequestModel {
                    model_id: self.id@,
                    params: self.params,
                    messages: messages.deep_view(),
                    tools: tools.deep_view(),
                },
            ),
    {
        let endpoint = self.provider.endpoint();
        build_request(&endpoint, &self.protocol, self.id.as_str(), &self.params, messages, tools)
    }
}

impl<P: Provider, Q: Protocol> LanguageModel for Model<P, Q> {
    open spec fn identifier(&self) -> Seq<char> {
        self.id@
    }

    fn model_id(&self) -> (r: &str) {
        self.id.as_str()
    }
}

} // verus!
