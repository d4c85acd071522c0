//! What a request says: each part of the conversation, of the tools and of the
//! parameters is found in its own field, whatever the other parts are.

use vstd::prelude::*;
use crate::ai::message::{MessageModel, ToolCallModel, ToolSpecModel};
use crate::ai::protocol::openai_completions::OpenAiCompletionsProtocol;
use crate::ai::protocol::{Protocol, RequestModel, ThinkingLevel};
use crate::json::JsonModel;

verus! {

/// What an object says under a key.
pub open spec fn said(v: JsonModel, key: Seq<char>) -> Option<JsonModel> {
    match v {
        JsonModel::Object(fields) if fields.contains_key(key) => Some(fields[key]),
        _ => None,
    }
}

/// Whether an object says nothing under other keys than these.
pub open spec fn says_only(v: JsonModel, keys: Seq<Seq<char>>) -> bool {
    v is Object && forall|key: Seq<char>| #[trigger] v->Object_0.contains_key(key) ==> keys.contains(key)
}

/// Whether an object asks for a tool call: its id, its name and what the tool is asked
/// with.
pub open spec fn asks_for(v: JsonModel, call: ToolCallModel) -> bool {
    &&& said(v, "id"@) == Some(JsonModel::Str(call.id))
    &&& said(v, "type"@) == Some(JsonModel::Str("function"@))
    &&& said(v, "function"@) is Some
    &&& said(said(v, "function"@)->0, "name"@) == Some(JsonModel::Str(call.name))
    &&& said(said(v, "function"@)->0, "arguments"@) == Some(JsonModel::Str(crate::json::compact_text(call.input)))
}

/// Whether a message says its text, unless that is empty.
pub open spec fn says_text(v: JsonModel, content: Seq<char>) -> bool {
    said(v, "content"@) == if content.len() == 0 {
        None
    } else {
        Some(JsonModel::Str(content))
    }
}

/// Whether a message asks for these tool calls, in their order and with their numbers.
pub open spec fn asks_for_all(v: JsonModel, tool_calls: Option<Seq<ToolCallModel>>) -> bool {
    match tool_calls {
        None => said(v, "tool_calls"@) is None,
        Some(calls) => {
            &&& said(v, "tool_calls"@) matches Some(JsonModel::Array(list))
            &&& list.len() == calls.len()
            &&& forall|i: int|
                0 <= i < calls.len() ==> asks_for(#[trigger] list[i], calls[i]) && said(list[i], "index"@) == Some(
                    JsonModel::Number(crate::json::number_from_u64((i as u32) as u64)),
                )
        },
    }
}

proof fn lemma_keys_of_a_call()
    ensures
        "index"@ != "id"@,
        "index"@ != "type"@,
        "index"@ != "function"@,
        "id"@ != "type"@,
        "id"@ != "function"@,
        "type"@ != "function"@,
        "name"@ != "arguments"@,
        "name"@ != "description"@,
        "name"@ != "parameters"@,
        "description"@ != "parameters"@,
{
    reveal_strlit("index");
    reveal_strlit("id");
    reveal_strlit("type");
    reveal_strlit("function");
    reveal_strlit("name");
    reveal_strlit("arguments");
    reveal_strlit("description");
    reveal_strlit("parameters");
    assert("index"@.len() == 5 && "id"@.len() == 2 && "type"@.len() == 4 && "function"@.len() == 8);
    assert("name"@.len() == 4 && "arguments"@.len() == 9 && "description"@.len() == 11 && "parameters"@.len() == 10);
}

proof fn lemma_keys_of_a_message()
    ensures
        "role"@ != "content"@,
        "role"@ != "tool_calls"@,
        "role"@ != "tool_call_id"@,
        "content"@ != "tool_calls"@,
        "content"@ != "tool_call_id"@,
        "tool_calls"@ != "tool_call_id"@,
{
    reveal_strlit("role");
    reveal_strlit("content");
    reveal_strlit("tool_calls");
    reveal_strlit("tool_call_id");
    assert("role"@.len() == 4 && "content"@.len() == 7 && "tool_calls"@.len() == 10 && "tool_call_id"@.len() == 12);
}

/// A tool call is sent with its id, its name and what the tool is asked with.
pub proof fn lemma_call_is_sent(i: int, call: ToolCallModel)
    ensures
        asks_for(crate::ai::protocol::openai_completions::api_tool_call(i, call), call),
        said(crate::ai::protocol::openai_completions::api_tool_call(i, call), "index"@) == Some(
            JsonModel::Number(crate::json::number_from_u64((i as u32) as u64)),
        ),
{
    lemma_keys_of_a_call();
}

/// The parts of a message are sent in fields of their own, and whether one is there does
/// not depend on another: its role; its text, if it is not empty; all the tool calls that
/// it asks for, in their order; and the call that it answers.
pub proof fn lemma_message_is_sent(
    role: Seq<char>,
    content: Seq<char>,
    tool_calls: Option<Seq<ToolCallModel>>,
    tool_call_id: Option<Seq<char>>,
)
    ensures
        ({
            let v = crate::ai::protocol::openai_completions::api_message(role, content, tool_calls, tool_call_id);
            &&& said(v, "role"@) == Some(JsonModel::Str(role))
            &&& says_text(v, content)
            &&& asks_for_all(v, tool_calls)
            &&& said(v, "tool_call_id"@) == match tool_call_id {
                Some(id) => Some(JsonModel::Str(id)),
                None => None,
            }
            &&& says_only(v, seq!["role"@, "content"@, "tool_calls"@, "tool_call_id"@])
        }),
{
    lemma_keys_of_a_message();
    let v = crate::ai::protocol::openai_completions::api_message(role, content, tool_calls, tool_call_id);
    if let Some(calls) = tool_calls {
        let list = said(v, "tool_calls"@)->0->Array_0;
        assert forall|i: int| 0 <= i < calls.len() implies asks_for(#[trigger] list[i], calls[i]) && said(
            list[i],
            "index"@,
        ) == Some(JsonModel::Number(crate::json::number_from_u64((i as u32) as u64))) by {
            lemma_call_is_sent(i, calls[i]);
            assert(list[i] == crate::ai::protocol::openai_completions::api_tool_call(i, calls[i]));
        }
    }
    let keys = seq!["role"@, "content"@, "tool_calls"@, "tool_call_id"@];
    assert(keys[0] == "role"@ && keys[1] == "content"@ && keys[2] == "tool_calls"@ && keys[3] == "tool_call_id"@);
    assert forall|key: Seq<char>| #[trigger] v->Object_0.contains_key(key) implies keys.contains(key) by {
        assert(key == keys[0] || key == keys[1] || key == keys[2] || key == keys[3]);
    }
}

/// Whether a message of the conversation is sent whole: who says it, what is said, what
/// is asked for and what is answered.
pub open spec fn tells(v: JsonModel, m: MessageModel) -> bool {
    match m {
        MessageModel::System { content } => {
            &&& said(v, "role"@) == Some(JsonModel::Str("system"@))
            &&& says_text(v, content)
            &&& asks_for_all(v, None)
            &&& said(v, "tool_call_id"@) is None
        },
        MessageModel::User { content } => {
            &&& said(v, "role"@) == Some(JsonModel::Str("user"@))
            &&& says_text(v, content)
            &&& asks_for_all(v, None)
            &&& said(v, "tool_call_id"@) is None
        },
        MessageModel::Assistant { content, tool_calls } => {
            &&& said(v, "role"@) == Some(JsonModel::Str("assistant"@))
            &&& says_text(v, content)
            &&& asks_for_all(v, tool_calls)
            &&& said(v, "tool_call_id"@) is None
        },
        MessageModel::Tool { content, tool_call_id } => {
            &&& said(v, "role"@) == Some(JsonModel::Str("tool"@))
            &&& says_text(v, content)
            &&& asks_for_all(v, None)
            &&& said(v, "tool_call_id"@) == Some(JsonModel::Str(tool_call_id))
        },
    }
}

/// Every message of the conversation is sent whole.
pub proof fn lemma_conversation_is_told(m: MessageModel)
    ensures
        tells(crate::ai::protocol::openai_completions::conversation_message(m), m),
{
    match m {
        MessageModel::System { content } => lemma_message_is_sent("system"@, content, None, None),
        MessageModel::User { content } => lemma_message_is_sent("user"@, content, None, None),
        MessageModel::Assistant { content, tool_calls } => lemma_message_is_sent(
            "assistant"@,
            content,
            tool_calls,
            None,
        ),
        MessageModel::Tool { content, tool_call_id } => lemma_message_is_sent(
            "tool"@,
            content,
            None,
            Some(tool_call_id),
        ),
    }
}

/// Whether a tool is described with its name, what it does and its parameters.
pub open spec fn describes(v: JsonModel, t: ToolSpecModel) -> bool {
    &&& said(v, "type"@) == Some(JsonModel::Str("function"@))
    &&& said(v, "function"@) is Some
    &&& said(said(v, "function"@)->0, "name"@) == Some(JsonModel::Str(t.name))
    &&& said(said(v, "function"@)->0, "description"@) == Some(JsonModel::Str(t.description))
    &&& said(said(v, "function"@)->0, "parameters"@) == Some(t.parameters)
}

/// A tool is described with its name, what it does and its parameters.
pub proof fn lemma_tool_is_described(t: ToolSpecModel)
    ensures
        describes(crate::ai::protocol::openai_completions::api_tool(t), t),
{
    lemma_keys_of_a_call();
}

/// The whole conversation is sent, message by message and in its order, and so are all tools.
pub proof fn lemma_nothing_is_left_out(messages: Seq<MessageModel>, tools: Seq<ToolSpecModel>)
    ensures
        ({
            let sent = crate::ai::protocol::openai_completions::api_messages(messages);
            &&& sent.len() == messages.len()
            &&& forall|i: int| 0 <= i < messages.len() ==> tells(#[trigger] sent[i], messages[i])
        }),
        ({
            let sent = crate::ai::protocol::openai_completions::api_tools(tools);
            &&& sent.len() == tools.len()
            &&& forall|i: int| 0 <= i < tools.len() ==> describes(#[trigger] sent[i], tools[i])
        }),
{
    let sent = crate::ai::protocol::openai_completions::api_messages(messages);
    assert forall|i: int| 0 <= i < messages.len() implies tells(#[trigger] sent[i], messages[i]) by {
        lemma_conversation_is_told(messages[i]);
    }
    let listed = crate::ai::protocol::openai_completions::api_tools(tools);
    assert forall|i: int| 0 <= i < tools.len() implies describes(#[trigger] listed[i], tools[i]) by {
        lemma_tool_is_described(tools[i]);
    }
}

proof fn lemma_keys_of_a_request()
    ensures
        "model"@ != "tools"@,
        forall|a: int, b: int|
            0 <= a < b < 7 ==> #[trigger] keys_of_a_request()[a] != #[trigger] keys_of_a_request()[b],
{
    reveal_strlit("model");
    reveal_strlit("tools");
    reveal_strlit("messages");
    reveal_strlit("stream");
    reveal_strlit("max_tokens");
    reveal_strlit("temperature");
    reveal_strlit("reasoning_effort");
    let keys = keys_of_a_request();
    assert("model"@[0] == 'm' && "tools"@[0] == 't');
    assert("model"@.len() == 5 && "tools"@.len() == 5 && "messages"@.len() == 8 && "stream"@.len() == 6);
    assert("max_tokens"@.len() == 10 && "temperature"@.len() == 11 && "reasoning_effort"@.len() == 16);
}

/// The keys of a request.
pub open spec fn keys_of_a_request() -> Seq<Seq<char>> {
    seq![
        "model"@,
        "tools"@,
        "messages"@,
        "stream"@,
        "max_tokens"@,
        "temperature"@,
        "reasoning_effort"@,
    ]
}

/// The parts of a request are sent in fields of their own, and whether one is there does
/// not depend on another: the model, the messages in their order, that the reply is to be
/// streamed, the tools if there are any, and each parameter that is set.
pub proof fn lemma_request_is_sent(
    model: Seq<char>,
    messages: Seq<JsonModel>,
    tools: Seq<JsonModel>,
    max_tokens: Option<u32>,
    temperature: Option<serde_json::Number>,
    thinking_level: Option<ThinkingLevel>,
)
    ensures
        ({
            let v = crate::ai::protocol::openai_completions::chat_request(
                model,
                messages,
                tools,
                max_tokens,
                temperature,
                thinking_level,
            );
            &&& said(v, "model"@) == Some(JsonModel::Str(model))
            &&& said(v, "messages"@) == Some(JsonModel::Array(messages))
            &&& said(v, "stream"@) == Some(JsonModel::Bool(true))
            &&& said(v, "tools"@) == if tools.len() == 0 {
                None
            } else {
                Some(JsonModel::Array(tools))
            }
            &&& said(v, "max_tokens"@) == match max_tokens {
                Some(n) => Some(JsonModel::Number(crate::json::number_from_u64(n as u64))),
                None => None,
            }
            &&& said(v, "temperature"@) == match temperature {
                Some(t) => Some(JsonModel::Number(t)),
                None => None,
            }
            &&& said(v, "reasoning_effort"@) == match thinking_level {
                Some(ThinkingLevel::Off) => Some(JsonModel::Str("none"@)),
                Some(ThinkingLevel::Low) => Some(JsonModel::Str("low"@)),
                Some(ThinkingLevel::Medium) => Some(JsonModel::Str("medium"@)),
                Some(ThinkingLevel::High) => Some(JsonModel::Str("high"@)),
                Some(ThinkingLevel::Xhigh) => Some(JsonModel::Str("xhigh"@)),
                Some(ThinkingLevel::Max) => Some(JsonModel::Str("max"@)),
                None => None,
            }
            &&& says_only(v, keys_of_a_request())
        }),
{
    lemma_keys_of_a_request();
    let keys = keys_of_a_request();
    assert(keys[0] == "model"@ && keys[1] == "tools"@ && keys[2] == "messages"@ && keys[3] == "stream"@);
    assert(keys[4] == "max_tokens"@ && keys[5] == "temperature"@ && keys[6] == "reasoning_effort"@);
    let v = crate::ai::protocol::openai_completions::chat_request(
        model,
        messages,
        tools,
        max_tokens,
        temperature,
        thinking_level,
    );
    assert forall|key: Seq<char>| #[trigger] v->Object_0.contains_key(key) implies keys.contains(key) by {
        assert(key == keys[0] || key == keys[1] || key == keys[2] || key == keys[3] || key == keys[4] || key == keys[5]
            || key == keys[6]);
    }
}

/// The body of a request holds the whole conversation, message by message and in its
/// order, every tool, and the parameters that are set.
pub proof fn lemma_body_holds_everything(p: OpenAiCompletionsProtocol, request: RequestModel)
    ensures
        ({
            &&& p.body(request) matches Ok(v)
            &&& said(v, "model"@) == Some(JsonModel::Str(request.model_id))
            &&& said(v, "stream"@) == Some(JsonModel::Bool(true))
            &&& said(v, "messages"@) matches Some(JsonModel::Array(messages))
            &&& messages.len() == request.messages.len()
            &&& forall|i: int| 0 <= i < messages.len() ==> tells(#[trigger] messages[i], request.messages[i])
            &&& request.tools.len() == 0 ==> said(v, "tools"@) is None
            &&& request.tools.len() > 0 ==> {
                &&& said(v, "tools"@) matches Some(JsonModel::Array(tools))
                &&& tools.len() == request.tools.len()
                &&& forall|i: int| 0 <= i < tools.len() ==> describes(#[trigger] tools[i], request.tools[i])
            }
            &&& said(v, "max_tokens"@) == match request.params.max_tokens {
                Some(n) => Some(JsonModel::Number(crate::json::number_from_u64(n as u64))),
                None => None,
            }
            &&& said(v, "temperature"@) == match request.params.temperature {
                Some(t) => Some(JsonModel::Number(t)),
                None => None,
            }
            &&& said(v, "reasoning_effort"@) is Some <==> request.params.thinking_level is Some
        }),
        p.path() == "/chat/completions"@,
        p.headers().len() == 0,
{
    let messages = request.messages.map_values(
        |m: MessageModel| crate::ai::protocol::openai_completions::conversation_message(m),
    );
    let tools = request.tools.map_values(|t: ToolSpecModel| crate::ai::protocol::openai_completions::api_tool(t));
    lemma_request_is_sent(
        request.model_id,
        messages,
        tools,
        request.params.max_tokens,
        request.params.temperature,
        request.params.thinking_level,
    );
    assert forall|i: int| 0 <= i < messages.len() implies tells(#[trigger] messages[i], request.messages[i]) by {
        lemma_conversation_is_told(request.messages[i]);
    }
    assert forall|i: int| 0 <= i < tools.len() implies describes(#[trigger] tools[i], request.tools[i]) by {
        lemma_tool_is_described(request.tools[i]);
    }
}

/// A request to DeepSeek goes to its address, shows the key, and says what it is asked to
/// say.
pub proof fn lemma_deepseek_request(
    api_key: Seq<char>,
    base_url: Seq<char>,
    model: Seq<char>,
    messages: Seq<JsonModel>,
    tools: Seq<JsonModel>,
)
    ensures
        ({
            let r = crate::ai::deepseek::deepseek_request(api_key, base_url, model, messages, tools);
            &&& r.url == base_url + "/chat/completions"@
            &&& r.headers == seq![("Authorization"@, "Bearer "@ + api_key)]
            &&& said(r.body, "model"@) == Some(JsonModel::Str(model))
            &&& said(r.body, "messages"@) == Some(JsonModel::Array(messages))
            &&& said(r.body, "stream"@) == Some(JsonModel::Bool(true))
            &&& said(r.body, "tools"@) == if tools.len() == 0 {
                None
            } else {
                Some(JsonModel::Array(tools))
            }
            &&& said(r.body, "max_tokens"@) is None
            &&& said(r.body, "temperature"@) is None
            &&& said(r.body, "reasoning_effort"@) is None
        }),
{
    lemma_request_is_sent(model, messages, tools, None, None, None);
}

/// What the configuration of DeepSeek says is kept, and only what it leaves empty is
/// filled in.
pub proof fn lemma_configuration_is_kept(c: crate::ai::deepseek::ConfigModel)
    ensures
        ({
            let r = crate::ai::deepseek::with_defaults(c);
            &&& r.api_key == c.api_key
            &&& c.base_url.len() > 0 ==> r.base_url == c.base_url
            &&& c.base_url.len() == 0 ==> r.base_url == "https://api.deepseek.com"@
            &&& c.model.len() > 0 ==> r.model == c.model
            &&& c.model.len() == 0 ==> r.model == "deepseek-v4-flash"@
            &&& c.protocol is Some ==> r.protocol == c.protocol
            &&& r.protocol is Some
        }),
{
}

/// A message whose role stands beside it is sent whole, under the name of its role.
pub proof fn lemma_message_with_role_is_sent(m: crate::provider::MessageModel)
    ensures
        ({
            let v = crate::provider::deepseek::conversation_message(m);
            let role = match m.role {
                crate::ai::message::Role::System => "system"@,
                crate::ai::message::Role::User => "user"@,
                crate::ai::message::Role::Assistant => "assistant"@,
                crate::ai::message::Role::Tool => "tool"@,
            };
            &&& said(v, "role"@) == Some(JsonModel::Str(role))
            &&& says_text(v, m.content)
            &&& asks_for_all(v, m.tool_calls)
            &&& said(v, "tool_call_id"@) == match m.tool_call_id {
                Some(id) => Some(JsonModel::Str(id)),
                None => None,
            }
        }),
{
    lemma_message_is_sent(
        crate::provider::deepseek::role_name(m.role),
        m.content,
        m.tool_calls,
        m.tool_call_id,
    );
}

/// All messages whose roles stand beside them are sent, in their order.
pub proof fn lemma_no_message_with_role_is_left_out(messages: Seq<crate::provider::MessageModel>)
    ensures
        ({
            let sent = crate::provider::deepseek::api_messages(messages);
            &&& sent.len() == messages.len()
            &&& forall|i: int|
                0 <= i < messages.len() ==> says_text(#[trigger] sent[i], messages[i].content) && asks_for_all(
                    sent[i],
                    messages[i].tool_calls,
                )
        }),
{
    let sent = crate::provider::deepseek::api_messages(messages);
    assert forall|i: int| 0 <= i < messages.len() implies says_text(#[trigger] sent[i], messages[i].content)
        && asks_for_all(sent[i], messages[i].tool_calls) by {
        lemma_message_with_role_is_sent(messages[i]);
    }
}

} // verus!
