//! The protocol of OpenAI's chat completions, which others speak as well.

use vstd::prelude::*;
use crate::ai::error::{AiError, AiErrorModel};
use crate::ai::message::{Message, MessageModel, ToolCallModel, ToolCallRequest, ToolSpec, ToolSpecModel};
use crate::ai::protocol::{Protocol, ProtocolKind, RequestModel, SamplingParams, ThinkingLevel};
use crate::json::{copy_number, no_fields, set_field, Json, JsonModel};

verus! {

/// The protocol of OpenAI's chat completions.
#[derive(Debug, Clone, Copy)]
pub struct OpenAiCompletionsProtocol;

// ---------------------------------------------------------------------------
// What is sent
// ---------------------------------------------------------------------------

/// A tool call, the number `i` of its message.
pub open spec fn api_tool_call(i: int, call: ToolCallModel) -> JsonModel {
    JsonModel::Object(
        Map::empty().insert("index"@, JsonModel::Number(crate::json::number_from_u64((i as u32) as u64))).insert(
            "id"@,
            JsonModel::Str(call.id),
        ).insert("type"@, JsonModel::Str("function"@)).insert(
            "function"@,
            JsonModel::Object(
                Map::empty().insert("name"@, JsonModel::Str(call.name)).insert(
                    "arguments"@,
                    JsonModel::Str(crate::json::compact_text(call.input)),
                ),
            ),
        ),
    )
}

/// A message. What it does not have is left out, and so is an empty text.
pub open spec fn api_message(
    role: Seq<char>,
    content: Seq<char>,
    tool_calls: Option<Seq<ToolCallModel>>,
    tool_call_id: Option<Seq<char>>,
) -> JsonModel {
    let m = Map::empty().insert("role"@, JsonModel::Str(role));
    let m = if content.len() == 0 {
        m
    } else {
        m.insert("content"@, JsonModel::Str(content))
    };
    let m = match tool_calls {
        Some(calls) => m.insert(
            "tool_calls"@,
            JsonModel::Array(Seq::new(calls.len(), |i: int| api_tool_call(i, calls[i]))),
        ),
        None => m,
    };
    let m = match tool_call_id {
        Some(id) => m.insert("tool_call_id"@, JsonModel::Str(id)),
        None => m,
    };
    JsonModel::Object(m)
}

/// A message of the conversation.
pub open spec fn conversation_message(m: MessageModel) -> JsonModel {
    match m {
        MessageModel::System { content } => api_message("system"@, content, None, None),
        MessageModel::User { content } => api_message("user"@, content, None, None),
        MessageModel::Assistant { content, tool_calls } => api_message("assistant"@, content, tool_calls, None),
        MessageModel::Tool { content, tool_call_id } => api_message("tool"@, content, None, Some(tool_call_id)),
    }
}

/// A tool.
pub open spec fn api_tool(t: ToolSpecModel) -> JsonModel {
    JsonModel::Object(
        Map::empty().insert("type"@, JsonModel::Str("function"@)).insert(
            "function"@,
            JsonModel::Object(
                Map::empty().insert("name"@, JsonModel::Str(t.name)).insert(
                    "description"@,
                    JsonModel::Str(t.description),
                ).insert("parameters"@, t.parameters),
            ),
        ),
    )
}

/// The messages of a conversation.
pub open spec fn api_messages(messages: Seq<MessageModel>) -> Seq<JsonModel> {
    messages.map_values(|m: MessageModel| conversation_message(m))
}

/// Tools.
pub open spec fn api_tools(tools: Seq<ToolSpecModel>) -> Seq<JsonModel> {
    tools.map_values(|t: ToolSpecModel| api_tool(t))
}

/// How hard the language model is to think, as the protocol says it.
pub open spec fn effort(level: ThinkingLevel) -> Seq<char> {
    match level {
        ThinkingLevel::Off => "none"@,
        ThinkingLevel::Low => "low"@,
        ThinkingLevel::Medium => "medium"@,
        ThinkingLevel::High => "high"@,
        ThinkingLevel::Xhigh => "xhigh"@,
        ThinkingLevel::Max => "max"@,
    }
}

/// A request for a streamed reply. What it does not have is left out.
pub open spec fn chat_request(
    model: Seq<char>,
    messages: Seq<JsonModel>,
    tools: Seq<JsonModel>,
    max_tokens: Option<u32>,
    temperature: Option<serde_json::Number>,
    thinking_level: Option<ThinkingLevel>,
) -> JsonModel {
    let m = Map::empty().insert("model"@, JsonModel::Str(model));
    let m = if tools.len() == 0 {
        m
    } else {
        m.insert("tools"@, JsonModel::Array(tools))
    };
    let m = m.insert("messages"@, JsonModel::Array(messages)).insert("stream"@, JsonModel::Bool(true));
    let m = match max_tokens {
        Some(n) => m.insert("max_tokens"@, JsonModel::Number(crate::json::number_from_u64(n as u64))),
        None => m,
    };
    let m = match temperature {
        Some(t) => m.insert("temperature"@, JsonModel::Number(t)),
        None => m,
    };
    let m = match thinking_level {
        Some(level) => m.insert("reasoning_effort"@, JsonModel::Str(effort(level))),
        None => m,
    };
    JsonModel::Object(m)
}

// ---------------------------------------------------------------------------
// How it is made
// ---------------------------------------------------------------------------

/// A tool call, the number `i` of its message.
fn make_tool_call(i: usize, call: &ToolCallRequest) -> (r: Json)
    ensures
        r.model() == api_tool_call(i as int, call.deep_view()),
{
    let mut function = no_fields();
    set_field(&mut function, "name", Json::Str(call.name.clone()));
    set_field(&mut function, "arguments", Json::Str(call.input.to_text()));
    let mut fields = no_fields();
    set_field(&mut fields, "index", Json::unsigned((i as u32) as u64));
    set_field(&mut fields, "id", Json::Str(call.id.clone()));
    set_field(&mut fields, "type", Json::Str("function".to_owned()));
    set_field(&mut fields, "function", Json::Object(function));
    Json::Object(fields)
}

/// A message.
pub fn make_message(
    role: &str,
    content: &str,
    tool_calls: Option<&Vec<ToolCallRequest>>,
    tool_call_id: Option<&str>,
) -> (r: Json)
    ensures
        r.model() == api_message(role@, content@, tool_calls.deep_view(), tool_call_id.deep_view()),
{
    let mut fields = no_fields();
    set_field(&mut fields, "role", Json::Str(role.to_owned()));
    if !content.is_empty() {
        set_field(&mut fields, "content", Json::Str(content.to_owned()));
    }
    match tool_calls {
        Some(calls) => {
            let mut list: Vec<Json> = Vec::new();
            let mut i: usize = 0;
            while i < calls.len()
                invariant
                    i <= calls.len(),
                    list@.len() == i,
                    forall|j: int|
                        0 <= j < i ==> (#[trigger] list@[j]).model() == api_tool_call(j, calls@[j].deep_view()),
                decreases calls.len() - i,
            {
                list.push(make_tool_call(i, &calls[i]));
                i = i + 1;
            }
            let list = Json::Array(list);
            assert(list.model()->Array_0 =~= Seq::new(
                calls.deep_view().len(),
                |i: int| api_tool_call(i, calls.deep_view()[i]),
            ));
            set_field(&mut fields, "tool_calls", list);
        },
        None => {},
    }
    match tool_call_id {
        Some(id) => {
            set_field(&mut fields, "tool_call_id", Json::Str(id.to_owned()));
        },
        None => {},
    }
    Json::Object(fields)
}

/// The messages of the conversation.
pub fn build_api_messages(messages: &[Message]) -> (r: Vec<Json>)
    ensures
        r.deep_view() == messages.deep_view().map_values(|m: MessageModel| conversation_message(m)),
        r.deep_view() == api_messages(messages.deep_view()),
{
    let mut r: Vec<Json> = Vec::new();
    let mut i: usize = 0;
    while i < messages.len()
        invariant
            i <= messages.len(),
            r@.len() == i,
            forall|j: int|
                0 <= j < i ==> (#[trigger] r@[j]).model() == conversation_message(messages@[j].deep_view()),
        decreases messages.len() - i,
    {
        let m = match &messages[i] {
            Message::System { content } => make_message("system", content.as_str(), None, None),
            Message::User { content } => make_message("user", content.as_str(), None, None),
            Message::Assistant { content, tool_calls } => make_message(
                "assistant",
                content.as_str(),
                tool_calls.as_ref(),
                None,
            ),
            Message::Tool { content, tool_call_id } => make_message(
                "tool",
                content.as_str(),
                None,
                Some(tool_call_id.as_str()),
            ),
        };
        r.push(m);
        i = i + 1;
    }
    assert(r.deep_view() =~= messages.deep_view().map_values(|m: MessageModel| conversation_message(m)));
    r
}

/// The tools.
pub fn build_api_tools(tools: &[ToolSpec]) -> (r: Vec<Json>)
    ensures
        r.deep_view() == tools.deep_view().map_values(|t: ToolSpecModel| api_tool(t)),
        r.deep_view() == api_tools(tools.deep_view()),
{
    let mut r: Vec<Json> = Vec::new();
    let mut i: usize = 0;
    while i < tools.len()
        invariant
            i <= tools.len(),
            r@.len() == i,
            forall|j: int| 0 <= j < i ==> (#[trigger] r@[j]).model() == api_tool(tools@[j].deep_view()),
        decreases tools.len() - i,
    {
        let mut function = no_fields();
        set_field(&mut function, "name", Json::Str(tools[i].name.clone()));
        set_field(&mut function, "description", Json::Str(tools[i].description.clone()));
        set_field(&mut function, "parameters", tools[i].parameters.clone());
        let mut fields = no_fields();
        set_field(&mut fields, "type", Json::Str("function".to_owned()));
        set_field(&mut fields, "function", Json::Object(function));
        r.push(Json::Object(fields));
        i = i + 1;
    }
    assert(r.deep_view() =~= tools.deep_view().map_values(|t: ToolSpecModel| api_tool(t)));
    r
}

/// How hard the language model is to think, as the protocol says it.
fn effort_name(level: ThinkingLevel) -> (r: &'static str)
    ensures
        r@ == effort(level),
{
    match level {
        ThinkingLevel::Off => "none",
        ThinkingLevel::Low => "low",
        ThinkingLevel::Medium => "medium",
        ThinkingLevel::High => "high",
        ThinkingLevel::Xhigh => "xhigh",
        ThinkingLevel::Max => "max",
    }
}

/// A request for a streamed reply.
pub fn make_request(
    model: &str,
    messages: Vec<Json>,
    tools: Vec<Json>,
    max_tokens: Option<u32>,
    temperature: Option<&serde_json::Number>,
    thinking_level: Option<ThinkingLevel>,
) -> (r: Json)
    ensures
        r.model() == chat_request(
            model@,
            messages.deep_view(),
            tools.deep_view(),
            max_tokens,
            match temperature {
                Some(t) => Some(*t),
                None => None,
            },
            thinking_level,
        ),
{
    let mut fields = no_fields();
    set_field(&mut fields, "model", Json::Str(model.to_owned()));
    if tools.len() > 0 {
        let list = Json::Array(tools);
        assert(list.model()->Array_0 =~= tools.deep_view());
        set_field(&mut fields, "tools", list);
    }
    let list = Json::Array(messages);
    assert(list.model()->Array_0 =~= messages.deep_view());
    set_field(&mut fields, "messages", list);
    set_field(&mut fields, "stream", Json::Bool(true));
    match max_tokens {
        Some(n) => {
            set_field(&mut fields, "max_tokens", Json::unsigned(n as u64));
        },
        None => {},
    }
    match temperature {
        Some(t) => {
            set_field(&mut fields, "temperature", Json::Number(copy_number(t)));
        },
        None => {},
    }
    match thinking_level {
        Some(level) => {
            set_field(&mut fields, "reasoning_effort", Json::Str(effort_name(level).to_owned()));
        },
        None => {},
    }
    Json::Object(fields)
}

impl Default for OpenAiCompletionsProtocol {
    fn default() -> (r: Self)
        ensures
            r == OpenAiCompletionsProtocol,
    {
        OpenAiCompletionsProtocol::new()
    }
}

impl OpenAiCompletionsProtocol {
    /// The protocol.
    pub fn new() -> (r: Self)
        ensures
            r == OpenAiCompletionsProtocol,
    {
        OpenAiCompletionsProtocol
    }
}

impl Protocol for OpenAiCompletionsProtocol {
    open spec fn protocol_kind(&self) -> ProtocolKind {
        ProtocolKind::OpenAiCompletions
    }

    open spec fn path(&self) -> Seq<char> {
        "/chat/completions"@
    }

    open spec fn headers(&self) -> Seq<(Seq<char>, Seq<char>)> {
        Seq::empty()
    }

    open spec fn body(&self, request: RequestModel) -> Result<JsonModel, AiErrorModel> {
        Ok(
            chat_request(
                request.model_id,
                request.messages.map_values(|m: MessageModel| conversation_message(m)),
                request.tools.map_values(|t: ToolSpecModel| api_tool(t)),
                request.params.max_tokens,
                request.params.temperature,
                request.params.thinking_level,
            ),
        )
    }

    fn kind(&self) -> (r: ProtocolKind) {
        ProtocolKind::OpenAiCompletions
    }

    fn endpoint_path(&self) -> (r: &str) {
        "/chat/completions"
    }

    fn protocol_headers(&self) -> (r: Vec<(String, String)>) {
        let r: Vec<(String, String)> = Vec::new();
        assert(r.deep_view() =~= self.headers());
        r
    }

    fn build_body(
        &self,
        model_id: &str,
        params: &SamplingParams,
        messages: &[Message],
        tools: &[ToolSpec],
    ) -> (r: Result<serde_json::Value, AiError>) {
        let request = make_request(
            model_id,
            build_api_messages(messages),
            build_api_tools(tools),
            params.max_tokens,
            params.temperature.as_ref(),
            params.thinking_level,
        );
        Ok(request.to_value())
    }
}

/// The thinking level matters: requests that differ in it have different bodies.
pub proof fn lemma_thinking_level_matters(p: OpenAiCompletionsProtocol, a: RequestModel, b: RequestModel)
    requires
        a.params.thinking_level != b.params.thinking_level,
    ensures
        p.body(a) != p.body(b),
{
    reveal_strlit("none");
    reveal_strlit("low");
    reveal_strlit("medium");
    reveal_strlit("high");
    reveal_strlit("xhigh");
    reveal_strlit("max");
    reveal_strlit("model");
    reveal_strlit("tools");
    reveal_strlit("messages");
    reveal_strlit("stream");
    reveal_strlit("max_tokens");
    reveal_strlit("temperature");
    reveal_strlit("reasoning_effort");
    let key = "reasoning_effort"@;
    assert("model"@.len() == 5 && "tools"@.len() == 5 && "messages"@.len() == 8 && "stream"@.len() == 6);
    assert("max_tokens"@.len() == 10 && "temperature"@.len() == 11 && key.len() == 16);
    let said = |r: RequestModel|
        match r.params.thinking_level {
            Some(level) => Some(JsonModel::Str(effort(level))),
            None => None,
        };
    assert(p.body(a) is Ok && p.body(a)->Ok_0.field(key) == said(a));
    assert(p.body(b) is Ok && p.body(b)->Ok_0.field(key) == said(b));
    if let (Some(x), Some(y)) = (a.params.thinking_level, b.params.thinking_level) {
        assert("none"@[0] == 'n' && "low"@[0] == 'l' && "max"@[1] == 'a' && "medium"@[1] == 'e');
        assert("high"@[0] == 'h' && "xhigh"@[0] == 'x' && "low"@[1] == 'o' && "none"@[1] == 'o');
        assert(effort(x) != effort(y));
    }
}

} // verus!
