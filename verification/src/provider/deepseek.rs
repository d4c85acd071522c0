//! DeepSeek as a provider of messages that say their role.

use vstd::prelude::*;
use vstd::string::StringExecFns;
use crate::ai::deepseek::make_deepseek_request;
use crate::ai::message::{Role, ToolSpec, ToolSpecModel};
use crate::ai::protocol::openai_completions::{build_api_tools, make_message};
use crate::ai::transport::{is_success, HttpRequest};
use crate::json::{Json, JsonModel};
use crate::provider::{Message, MessageModel, Provider, ProviderType};

pub use crate::ai::deepseek::stream::DeepSeekStreamIterator;

verus! {

/// How DeepSeek is reached.
#[derive(Debug)]
pub struct DeepSeekConfig {
    pub api_key: String,
    pub base_url: String,
    pub model: String,
}

/// How DeepSeek is reached.
pub struct DeepSeekConfigModel {
    pub api_key: Seq<char>,
    pub base_url: Seq<char>,
    pub model: Seq<char>,
}

impl DeepView for DeepSeekConfig {
    type V = DeepSeekConfigModel;

    open spec fn deep_view(&self) -> DeepSeekConfigModel {
        DeepSeekConfigModel { api_key: self.api_key@, base_url: self.base_url@, model: self.model@ }
    }
}

impl Clone for DeepSeekConfig {
    fn clone(&self) -> (r: Self)
        ensures
            r.deep_view() == self.deep_view(),
    {
        DeepSeekConfig {
            api_key: self.api_key.clone(),
            base_url: self.base_url.clone(),
            model: self.model.clone(),
        }
    }
}

impl DeepSeekConfig {
    /// DeepSeek's own address and its usual model.
    pub fn new(api_key: &str) -> (r: Self)
        ensures
            r.deep_view() == (DeepSeekConfigModel {
                api_key: api_key@,
                base_url: crate::ai::deepseek::default_base_url(),
                model: crate::ai::deepseek::default_model(),
            }),
    {
        DeepSeekConfig {
            api_key: api_key.to_owned(),
            base_url: "https://api.deepseek.com".to_owned(),
            model: "deepseek-v4-flash".to_owned(),
        }
    }

    /// The configuration with another address.
    pub fn with_base_url(self, url: &str) -> (r: Self)
        ensures
            r.deep_view() == (DeepSeekConfigModel { base_url: url@, ..self.deep_view() }),
    {
        DeepSeekConfig { api_key: self.api_key, base_url: url.to_owned(), model: self.model }
    }

    /// The configuration with another model.
    pub fn with_model(self, model: &str) -> (r: Self)
        ensures
            r.deep_view() == (DeepSeekConfigModel { model: model@, ..self.deep_view() }),
    {
        DeepSeekConfig { api_key: self.api_key, base_url: self.base_url, model: model.to_owned() }
    }
}

/// The name of a role.
pub open spec fn role_name(role: Role) -> Seq<char> {
    match role {
        Role::System => "system"@,
        Role::User => "user"@,
        Role::Assistant => "assistant"@,
        Role::Tool => "tool"@,
    }
}

/// A message of the conversation.
pub open spec fn conversation_message(m: MessageModel) -> JsonModel {
    crate::ai::protocol::openai_completions::api_message(
        role_name(m.role),
        m.content,
        m.tool_calls,
        m.tool_call_id,
    )
}

/// The messages of a conversation.
pub open spec fn api_messages(messages: Seq<MessageModel>) -> Seq<JsonModel> {
    messages.map_values(|m: MessageModel| conversation_message(m))
}

/// The name of a role.
pub fn role_str(role: &Role) -> (r: &'static str)
    ensures
        r@ == role_name(*role),
{
    match role {
        Role::System => "system",
        Role::User => "user",
        Role::Assistant => "assistant",
        Role::Tool => "tool",
    }
}

/// The messages of the conversation.
pub fn build_api_messages(messages: &[Message]) -> (r: Vec<Json>)
    ensures
        r.deep_view() == messages.deep_view().map_values(|m: MessageModel| conversation_message(m)),
        r.deep_view() == api_messages(messages.deep_view()),
{
    let mut r: Vec<Json> = Vec::new();
    let mut i: usize = 0;
    while i < messages.len()
        invariant
            i <= messages.len(),
            r@.len() == i,
            forall|j: int|
                0 <= j < i ==> (#[trigger] r@[j]).model() == conversation_message(messages@[j].deep_view()),
        decreases messages.len() - i,
    {
        let m = &messages[i];
        let tool_call_id = match &m.tool_call_id {
            Some(id) => Some(id.as_str()),
            None => None,
        };
        r.push(make_message(role_str(&m.role), m.content.as_str(), m.tool_calls.as_ref(), tool_call_id));
        i = i + 1;
    }
    assert(r.deep_view() =~= messages.deep_view().map_values(|m: MessageModel| conversation_message(m)));
    r
}

/// The error of a reply with a status, unless the status means success.
pub open spec fn error_of(code: u16, status: Seq<char>, body: Seq<char>) -> Option<Seq<char>> {
    if 200 <= code <= 299 {
        None
    } else {
        Some("DeepSeek API error ("@ + status + "): "@ + body)
    }
}

/// A status means success if and only if it begins with a two; the error of any other begins
/// with the status and ends with the whole body.
pub proof fn lemma_error_tells_the_reply(code: u16, status: Seq<char>, body: Seq<char>)
    ensures
        error_of(code, status, body) is None <==> code / 100 == 2,
        error_of(code, status, body) matches Some(e) ==> {
            &&& crate::text::has_prefix(e, "DeepSeek API error ("@ + status)
            &&& crate::text::has_suffix(e, "): "@ + body)
            &&& e.len() == ("DeepSeek API error ("@ + status).len() + ("): "@ + body).len()
        },
{
    if let Some(e) = error_of(code, status, body) {
        let head = "DeepSeek API error ("@ + status;
        let tail = "): "@ + body;
        assert(e.subrange(0, head.len() as int) =~= head);
        assert(e.subrange(e.len() - tail.len(), e.len() as int) =~= tail);
    }
}

/// DeepSeek as a provider.
#[derive(Debug)]
pub struct DeepSeekProvider {
    config: DeepSeekConfig,
}

impl View for DeepSeekProvider {
    type V = DeepSeekConfigModel;

    closed spec fn view(&self) -> DeepSeekConfigModel {
        self.config.deep_view()
    }
}

impl DeepSeekProvider {
    /// DeepSeek, reached in the given way.
    pub fn new(config: DeepSeekConfig) -> (r: Self)
        ensures
            r@ == config.deep_view(),
    {
        DeepSeekProvider { config }
    }

    /// The request that asks the model to go on with a conversation.
    pub fn chat_request(&self, messages: &[Message], tools: &[ToolSpec]) -> (r: HttpRequest)
        ensures
            r.deep_view() == crate::ai::deepseek::deepseek_request(
                self@.api_key,
                self@.base_url,
                self@.model,
                messages.deep_view().map_values(|m: MessageModel| conversation_message(m)),
                tools.deep_view().map_values(
                    |t: ToolSpecModel| crate::ai::protocol::openai_completions::api_tool(t),
                ),
            ),
            r.deep_view() == crate::ai::deepseek::deepseek_request(
                self@.api_key,
                self@.base_url,
                self@.model,
                api_messages(messages.deep_view()),
                crate::ai::protocol::openai_completions::api_tools(tools.deep_view()),
            ),
    {
        make_deepseek_request(
            self.config.api_key.as_str(),
            self.config.base_url.as_str(),
            self.config.model.as_str(),
            build_api_messages(messages),
            build_api_tools(tools),
        )
    }

    /// The error of a reply whose status, given as a number and in words, means no
    /// success.
    pub fn reply_error(code: u16, status: &str, body: &str) -> (r: Option<String>)
        ensures
            r.deep_view() == if 200 <= code <= 299 {
                None
            } else {
                Some("DeepSeek API error ("@ + status@ + "): "@ + body@)
            },
            r.deep_view() == error_of(code, status@, body@),
    {
        if is_success(code) {
            return None;
        }
        let mut r = "DeepSeek API error (".to_owned();
        r.append(status);
        r.append("): ");
        r.append(body);
        Some(r)
    }
}

impl Provider for DeepSeekProvider {
    open spec fn kind(&self) -> ProviderType {
        ProviderType::DeepSeek
    }

    fn provider_type(&self) -> (r: ProviderType) {
        ProviderType::DeepSeek
    }
}

} // verus!
