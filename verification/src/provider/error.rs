//! What can go wrong between the agent and a provider.

use vstd::prelude::*;
use vstd::string::StringExecFns;
use crate::text;

verus! {

/// What can go wrong between the agent and a provider.
#[derive(Debug)]
pub enum ProviderError {
    /// The reply had a status that is no success.
    Api { status: u16, message: String },
    /// The reply could not be understood.
    Parse(String),
    /// The network failed.
    Network(String),
    /// The reply ended too early.
    StreamUnexpected(String),
    /// The configuration is not usable.
    Config(String),
}

/// What an error says.
pub enum ProviderErrorModel {
    Api { status: u16, message: Seq<char> },
    Parse(Seq<char>),
    Network(Seq<char>),
    StreamUnexpected(Seq<char>),
    Config(Seq<char>),
}

impl ProviderErrorModel {
    /// The error in words.
    pub open spec fn text(self) -> Seq<char> {
        match self {
            ProviderErrorModel::Api { status, message } => "API error ("@ + text::decimal(status as nat) + "): "@
                + message,
            ProviderErrorModel::Parse(m) => "Failed to parse API response: "@ + m,
            ProviderErrorModel::Network(m) => "Network error: "@ + m,
            ProviderErrorModel::StreamUnexpected(m) => "Stream ended unexpectedly: "@ + m,
            ProviderErrorModel::Config(m) => "Configuration error: "@ + m,
        }
    }
}

impl DeepView for ProviderError {
    type V = ProviderErrorModel;

    open spec fn deep_view(&self) -> ProviderErrorModel {
        match *self {
            ProviderError::Api { status, message } => ProviderErrorModel::Api { status, message: message@ },
            ProviderError::Parse(m) => ProviderErrorModel::Parse(m@),
            ProviderError::Network(m) => ProviderErrorModel::Network(m@),
            ProviderError::StreamUnexpected(m) => ProviderErrorModel::StreamUnexpected(m@),
            ProviderError::Config(m) => ProviderErrorModel::Config(m@),
        }
    }
}

impl ProviderError {
    /// The error in words.
    pub fn to_text(&self) -> (r: String)
        ensures
            r@ == self.deep_view().text(),
    {
        match self {
            ProviderError::Api { status, message } => {
                let mut r = "API error (".to_owned();
                r.append(text::decimal_of(*status as u64).as_str());
                r.append("): ");
                r.append(message.as_str());
                r
            },
            ProviderError::Parse(m) => "Failed to parse API response: ".to_owned().concat(m.as_str()),
            ProviderError::Network(m) => "Network error: ".to_owned().concat(m.as_str()),
            ProviderError::StreamUnexpected(m) => "Stream ended unexpectedly: ".to_owned().concat(m.as_str()),
            ProviderError::Config(m) => "Configuration error: ".to_owned().concat(m.as_str()),
        }
    }
}

/// The words of an error say of what kind it is and hold all that is known of it.
pub proof fn lemma_error_is_told(e: ProviderErrorModel)
    ensures
        e matches ProviderErrorModel::Api { status, message } ==> e.text() == "API error ("@ + text::decimal(
            status as nat,
        ) + "): "@ + message,
        e matches ProviderErrorModel::Parse(m) ==> e.text() == "Failed to parse API response: "@ + m,
        e matches ProviderErrorModel::Network(m) ==> e.text() == "Network error: "@ + m,
        e matches ProviderErrorModel::StreamUnexpected(m) ==> e.text() == "Stream ended unexpectedly: "@ + m,
        e matches ProviderErrorModel::Config(m) ==> e.text() == "Configuration error: "@ + m,
{
}

} // verus!
