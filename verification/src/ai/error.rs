//! What can go wrong between the agent and the language model.

use vstd::prelude::*;
use vstd::string::StringExecFns;
use crate::text;

verus! {

/// What can go wrong between the agent and the language model.
#[derive(Debug)]
pub enum AiError {
    /// The reply had a status that is no success.
    Api { status: u16, message: String },
    /// The request could not be encoded.
    Encode(String),
    /// The reply could not be understood.
    Parse(String),
    /// The network failed.
    Network(String),
    /// The reply ended too early.
    StreamUnexpected(String),
    /// The configuration is not usable.
    Config(String),
}

/// What an error says.
pub enum AiErrorModel {
    Api { status: u16, message: Seq<char> },
    Encode(Seq<char>),
    Parse(Seq<char>),
    Network(Seq<char>),
    StreamUnexpected(Seq<char>),
    Config(Seq<char>),
}

impl AiErrorModel {
    /// The error in words.
    pub open spec fn text(self) -> Seq<char> {
        match self {
            AiErrorModel::Api { status, message } => "API error ("@ + text::decimal(status as nat) + "): "@ + message,
            AiErrorModel::Encode(m) => "Failed to encode request: "@ + m,
            AiErrorModel::Parse(m) => "Failed to parse API response: "@ + m,
            AiErrorModel::Network(m) => "Network error: "@ + m,
            AiErrorModel::StreamUnexpected(m) => "Stream ended unexpectedly: "@ + m,
            AiErrorModel::Config(m) => "Configuration error: "@ + m,
        }
    }
}

impl DeepView for AiError {
    type V = AiErrorModel;

    open spec fn deep_view(&self) -> AiErrorModel {
        match *self {
            AiError::Api { status, message } => AiErrorModel::Api { status, message: message@ },
            AiError::Encode(m) => AiErrorModel::Encode(m@),
            AiError::Parse(m) => AiErrorModel::Parse(m@),
            AiError::Network(m) => AiErrorModel::Network(m@),
            AiError::StreamUnexpected(m) => AiErrorModel::StreamUnexpected(m@),
            AiError::Config(m) => AiErrorModel::Config(m@),
        }
    }
}

impl AiError {
    /// The error in words.
    pub fn to_text(&self) -> (r: String)
        ensures
            r@ == self.deep_view().text(),
    {
        match self {
            AiError::Api { status, message } => {
                let mut r = "API error (".to_owned();
                r.append(text::decimal_of(*status as u64).as_str());
                r.append("): ");
                r.append(message.as_str());
                r
            },
            AiError::Encode(m) => "Failed to encode request: ".to_owned().concat(m.as_str()),
            AiError::Parse(m) => "Failed to parse API response: ".to_owned().concat(m.as_str()),
            AiError::Network(m) => "Network error: ".to_owned().concat(m.as_str()),
            AiError::StreamUnexpected(m) => "Stream ended unexpectedly: ".to_owned().concat(m.as_str()),
            AiError::Config(m) => "Configuration error: ".to_owned().concat(m.as_str()),
        }
    }
}

/// The words of an error say of what kind it is and hold all that is known of it.
pub proof fn lemma_error_is_told(e: AiErrorModel)
    ensures
        e matches AiErrorModel::Api { status, message } ==> e.text() == "API error ("@ + text::decimal(status as nat)
            + "): "@ + message,
        e matches AiErrorModel::Encode(m) ==> e.text() == "Failed to encode request: "@ + m,
        e matches AiErrorModel::Parse(m) ==> e.text() == "Failed to parse API response: "@ + m,
        e matches AiErrorModel::Network(m) ==> e.text() == "Network error: "@ + m,
        e matches AiErrorModel::StreamUnexpected(m) ==> e.text() == "Stream ended unexpectedly: "@ + m,
        e matches AiErrorModel::Config(m) ==> e.text() == "Configuration error: "@ + m,
{
}

} // verus!
