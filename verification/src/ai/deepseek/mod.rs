//! DeepSeek, which speaks the protocol of OpenAI's chat completions.

pub mod reply;
pub mod stream;

use vstd::prelude::*;
use vstd::string::StringExecFns;
use crate::ai::message::{Message, MessageModel, ToolSpec, ToolSpecModel};
use crate::ai::protocol::openai_completions::{build_api_messages, build_api_tools, make_request};
use crate::ai::transport::{is_success, HttpRequest, HttpRequestModel};
use crate::json::{Json, JsonModel};
use crate::provider::error::{ProviderError, ProviderErrorModel};
use crate::provider::{Provider, ProviderType};

pub use crate::ai::deepseek::stream::DeepSeekStreamIterator;

verus! {

/// The interface by which a provider is spoken to.
#[derive(Debug, Clone, Copy, PartialEq, Eq, Structural)]
pub enum ApiProtocol {
    OpenAI,
}

/// How a provider is reached.
#[derive(Debug)]
pub struct ProviderConfig {
    pub api_key: String,
    pub base_url: String,
    pub model: String,
    pub protocol: Option<ApiProtocol>,
}

/// How a provider is reached.
pub struct ConfigModel {
    pub api_key: Seq<char>,
    pub base_url: Seq<char>,
    pub model: Seq<char>,
    pub protocol: Option<ApiProtocol>,
}

impl DeepView for ProviderConfig {
    type V = ConfigModel;

    open spec fn deep_view(&self) -> ConfigModel {
        ConfigModel {
            api_key: self.api_key@,
            base_url: self.base_url@,
            model: self.model@,
            protocol: self.protocol,
        }
    }
}

/// DeepSeek's address.
pub open spec fn default_base_url() -> Seq<char> {
    "https://api.deepseek.com"@
}

/// The model that is asked when none is named.
pub open spec fn default_model() -> Seq<char> {
    "deepseek-v4-flash"@
}

/// The configuration with what is missing filled in.
pub open spec fn with_defaults(c: ConfigModel) -> ConfigModel {
    ConfigModel {
        api_key: c.api_key,
        base_url: if c.base_url.len() == 0 {
            default_base_url()
        } else {
            c.base_url
        },
        model: if c.model.len() == 0 {
            default_model()
        } else {
            c.model
        },
        protocol: if c.protocol is None {
            Some(ApiProtocol::OpenAI)
        } else {
            c.protocol
        },
    }
}

/// A request to DeepSeek.
pub open spec fn deepseek_request(
    api_key: Seq<char>,
    base_url: Seq<char>,
    model: Seq<char>,
    messages: Seq<JsonModel>,
    tools: Seq<JsonModel>,
) -> HttpRequestModel {
    HttpRequestModel {
        url: base_url + "/chat/completions"@,
        headers: seq![("Authorization"@, "Bearer "@ + api_key)],
        body: crate::ai::protocol::openai_completions::chat_request(model, messages, tools, None, None, None),
    }
}

/// A request to DeepSeek.
pub fn make_deepseek_request(
    api_key: &str,
    base_url: &str,
    model: &str,
    messages: Vec<Json>,
    tools: Vec<Json>,
) -> (r: HttpRequest)
    ensures
        r.deep_view() == deepseek_request(api_key@, base_url@, model@, messages.deep_view(), tools.deep_view()),
{
    let url = base_url.to_owned().concat("/chat/completions");
    let mut headers: Vec<(String, String)> = Vec::new();
    headers.push(("Authorization".to_owned(), "Bearer ".to_owned().concat(api_key)));
    assert(headers.deep_view() =~= seq![("Authorization"@, "Bearer "@ + api_key@)]);
    let body = make_request(model, messages, tools, None, None, None).to_value();
    HttpRequest { url, headers, body }
}

/// The error of a reply with a status, unless the status means success.
pub open spec fn error_of(status: u16, body: Seq<char>) -> Option<ProviderErrorModel> {
    if 200 <= status <= 299 {
        None
    } else {
        Some(ProviderErrorModel::Api { status, message: body })
    }
}

/// A status means success if and only if it begins with a two; the error of any other tells
/// the status and the whole body.
pub proof fn lemma_error_tells_the_reply(status: u16, body: Seq<char>)
    ensures
        error_of(status, body) is None <==> status / 100 == 2,
        error_of(status, body) matches Some(e) ==> e == (ProviderErrorModel::Api { status, message: body })
            && e.text() == "API error ("@ + crate::text::decimal(status as nat) + "): "@ + body,
{
}

/// DeepSeek as a provider.
#[derive(Debug)]
pub struct DeepSeekProvider {
    config: ProviderConfig,
}

impl View for DeepSeekProvider {
    type V = ConfigModel;

    closed spec fn view(&self) -> ConfigModel {
        self.config.deep_view()
    }
}

impl DeepSeekProvider {
    /// DeepSeek, with what is missing in the configuration filled in.
    pub fn new(config: ProviderConfig) -> (r: Self)
        ensures
            r@ == with_defaults(config.deep_view()),
    {
        let base_url = if config.base_url.as_str().is_empty() {
            "https://api.deepseek.com".to_owned()
        } else {
            config.base_url
        };
        let model = if config.model.as_str().is_empty() {
            "deepseek-v4-flash".to_owned()
        } else {
            config.model
        };
        let protocol = match config.protocol {
            Some(p) => Some(p),
            None => Some(ApiProtocol::OpenAI),
        };
        DeepSeekProvider { config: ProviderConfig { api_key: config.api_key, base_url, model, protocol } }
    }

    /// The request that asks the model to go on with a conversation.
    pub fn chat_request(&self, messages: &[Message], tools: &[ToolSpec]) -> (r: HttpRequest)
        ensures
            r.deep_view() == deepseek_request(
                self@.api_key,
                self@.base_url,
                self@.model,
                messages.deep_view().map_values(
                    |m: MessageModel| crate::ai::protocol::openai_completions::conversation_message(m),
                ),
                tools.deep_view().map_values(
                    |t: ToolSpecModel| crate::ai::protocol::openai_completions::api_tool(t),
                ),
            ),
            r.deep_view() == deepseek_request(
                self@.api_key,
                self@.base_url,
                self@.model,
                crate::ai::protocol::openai_completions::api_messages(messages.deep_view()),
                crate::ai::protocol::openai_completions::api_tools(tools.deep_view()),
            ),
    {
        make_deepseek_request(
            self.config.api_key.as_str(),
            self.config.base_url.as_str(),
            self.config.model.as_str(),
            build_api_messages(messages),
            build_api_tools(tools),
        )
    }

    /// The error of a reply whose status means no success.
    pub fn reply_error(status: u16, body: String) -> (r: Option<ProviderError>)
        ensures
            r.deep_view() == if 200 <= status <= 299 {
                None
            } else {
                Some(ProviderErrorModel::Api { status, message: body@ })
            },
            r.deep_view() == error_of(status, body@),
    {
        if is_success(status) {
            None
        } else {
            Some(ProviderError::Api { status, message: body })
        }
    }
}

impl Provider for DeepSeekProvider {
    open spec fn kind(&self) -> ProviderType {
        ProviderType::DeepSeek
    }

    fn provider_type(&self) -> (r: ProviderType) {
        ProviderType::DeepSeek
    }
}

} // verus!
