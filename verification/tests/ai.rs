//! Providers, protocols, requests, token counts and registries.

use agent_tutorial::ai::deepseek::{ApiProtocol, DeepSeekProvider as AiDeepSeekProvider, ProviderConfig};
use agent_tutorial::ai::message::{Message, ToolCallRequest, ToolSpec};
use agent_tutorial::ai::model::{Capabilities, LanguageModel, Model};
use agent_tutorial::ai::protocol::openai_completions::OpenAiCompletionsProtocol;
use agent_tutorial::ai::protocol::{Protocol, ProtocolKind, SamplingParams, ThinkingLevel};
use agent_tutorial::ai::provider::{AuthStyle, GenericProvider, Provider};
use agent_tutorial::ai::registry::ModelRegistry;
use agent_tutorial::ai::transport::{build_request, is_success, join_url, reply_error};
use agent_tutorial::ai::usage::{
    checked_normalize, DeepSeekUsageNormalizer, OpenAiUsageNormalizer, Usage, UsageNormalizer,
};
use agent_tutorial::json::Json;
use agent_tutorial::provider::error::ProviderError;
use agent_tutorial::provider::registry::ProviderRegistry;
use agent_tutorial::provider::{
    DeepSeekConfig, DeepSeekProvider, Message as RoleMessage, Provider as KindProvider, ProviderType, Role, ToolResult,
};
use agent_tutorial::tool::registry::{Tool, ToolRegistry};

fn json(text: &str) -> Json {
    Json::parse(text).unwrap()
}

fn bearer(base_url: &str) -> GenericProvider {
    GenericProvider::new(
        "deepseek",
        base_url,
        "sk-123",
        AuthStyle::Bearer,
        vec![ProtocolKind::OpenAiCompletions],
    )
}

// ========== Providers ==========

#[test]
fn bearer_auth_injects_authorization_header() {
    let p = bearer("https://api.deepseek.com");
    let ep = p.endpoint();
    assert_eq!(ep.base_url, "https://api.deepseek.com");
    assert!(ep
        .headers
        .iter()
        .any(|(k, v)| k == "Authorization" && v == "Bearer sk-123"));
    assert_eq!(p.supported_protocols(), &[ProtocolKind::OpenAiCompletions]);
    assert_eq!(p.name(), "deepseek");
}

#[test]
fn api_key_header_auth_injects_named_header() {
    let p = GenericProvider::new(
        "anthropic",
        "https://api.anthropic.com",
        "sk-ant",
        AuthStyle::ApiKeyHeader("x-api-key".to_string()),
        vec![ProtocolKind::AnthropicMessages],
    );
    let ep = p.endpoint();
    assert!(ep.headers.iter().any(|(k, v)| k == "x-api-key" && v == "sk-ant"));
}

#[test]
fn further_headers_come_before_the_key() {
    let p = bearer("u").with_header("a", "1").with_header("b", "2");
    let headers: Vec<(String, String)> = p.endpoint().clone().headers;
    let expected = [("a", "1"), ("b", "2"), ("Authorization", "Bearer sk-123")];
    assert_eq!(headers.len(), 3);
    for (h, e) in headers.iter().zip(expected) {
        assert_eq!((h.0.as_str(), h.1.as_str()), e);
    }
    assert!(matches!(AuthStyle::ApiKeyHeader("k".to_string()).clone(), AuthStyle::ApiKeyHeader(n) if n == "k"));
}

// ========== Addresses ==========

#[test]
fn join_url_handles_trailing_slash_on_base() {
    assert_eq!(
        join_url("https://api.deepseek.com/", "/chat/completions"),
        "https://api.deepseek.com/chat/completions"
    );
}

#[test]
fn join_url_handles_no_trailing_slash() {
    assert_eq!(
        join_url("https://api.deepseek.com", "/chat/completions"),
        "https://api.deepseek.com/chat/completions"
    );
}

#[test]
fn join_url_handles_path_without_leading_slash() {
    assert_eq!(
        join_url("https://api.deepseek.com", "chat/completions"),
        "https://api.deepseek.com/chat/completions"
    );
}

#[test]
fn join_url_handles_both_slashes() {
    assert_eq!(
        join_url("https://api.openai.com/v1/", "/chat/completions"),
        "https://api.openai.com/v1/chat/completions"
    );
}

#[test]
fn slashes_where_address_and_path_meet_do_not_matter() {
    for base in ["h", "h/", "h///"] {
        for path in ["p", "/p", "//p"] {
            assert_eq!(join_url(base, path), "h/p");
        }
    }
    assert_eq!(join_url("", ""), "/");
    assert_eq!(join_url("//", "//"), "/");
}

// ========== Requests ==========

#[test]
fn encodes_basic_chat_request() {
    let p = OpenAiCompletionsProtocol::new();
    let messages = vec![Message::system("sys"), Message::user("hi")];
    let body = p
        .build_body("deepseek-v4-flash", &SamplingParams::default(), &messages, &[])
        .unwrap();

    assert_eq!(body["model"], "deepseek-v4-flash");
    assert_eq!(body["stream"], true);
    assert_eq!(body["messages"][0]["role"], "system");
    assert_eq!(body["messages"][0]["content"], "sys");
    assert_eq!(body["messages"][1]["role"], "user");
    assert!(body.get("tools").is_none());
    assert!(body.get("max_tokens").is_none());
    assert!(body.get("temperature").is_none());
}

#[test]
fn includes_sampling_params_when_set() {
    let p = OpenAiCompletionsProtocol::new();
    let params = SamplingParams {
        max_tokens: Some(256),
        temperature: Some(serde_json::Number::from_f64(0.7).unwrap()),
        thinking_level: None,
    };
    let body = p
        .build_body("m", &params, &[Message::user("x")], &[])
        .unwrap();
    assert_eq!(body["max_tokens"], 256);
    assert_eq!(body["temperature"], 0.7);
}

#[test]
fn a_request_in_full() {
    let p = OpenAiCompletionsProtocol::default();
    let messages = [
        Message::Assistant {
            content: String::new(),
            tool_calls: Some(vec![
                ToolCallRequest {
                    id: "a".to_string(),
                    name: "bash".to_string(),
                    input: json(r#"{"z": 1, "command": "ls"}"#),
                },
                ToolCallRequest { id: "b".to_string(), name: "t".to_string(), input: Json::Null },
            ]),
        },
        Message::tool_result("a", "out"),
        Message::user(""),
    ];
    let tools = [ToolSpec {
        name: "bash".to_string(),
        description: "d".to_string(),
        parameters: json(r#"{"type": "object"}"#),
    }];
    let params = SamplingParams {
        max_tokens: None,
        temperature: None,
        thinking_level: Some(ThinkingLevel::High),
    };
    let body = p.build_body("m", &params.clone(), &messages, &tools.clone()).unwrap();
    let expected = concat_lines(&[
        r#"{"messages":["#,
        r#"{"role":"assistant","tool_calls":["#,
        r#"{"function":{"arguments":"{\"command\":\"ls\",\"z\":1}","name":"bash"},"id":"a","index":0,"type":"function"},"#,
        r#"{"function":{"arguments":"null","name":"t"},"id":"b","index":1,"type":"function"}]},"#,
        r#"{"content":"out","role":"tool","tool_call_id":"a"},"#,
        r#"{"role":"user"}],"#,
        r#""model":"m","reasoning_effort":"high","stream":true,"#,
        r#""tools":[{"function":{"description":"d","name":"bash","parameters":{"type":"object"}},"type":"function"}]}"#,
    ]);
    assert_eq!(body.to_string(), expected);
    assert_eq!(p.kind(), ProtocolKind::OpenAiCompletions);
    assert_eq!(p.endpoint_path(), "/chat/completions");
    assert!(p.protocol_headers().is_empty());
}

#[test]
fn how_hard_to_think() {
    let p = OpenAiCompletionsProtocol::new();
    let body = |thinking_level| {
        let params = SamplingParams { max_tokens: None, temperature: None, thinking_level };
        p.build_body("m", &params, &[], &[]).unwrap()
    };
    for (level, word) in [
        (ThinkingLevel::Off, "none"),
        (ThinkingLevel::Low, "low"),
        (ThinkingLevel::Medium, "medium"),
        (ThinkingLevel::High, "high"),
        (ThinkingLevel::Xhigh, "xhigh"),
        (ThinkingLevel::Max, "max"),
    ] {
        assert_eq!(body(Some(level))["reasoning_effort"], word);
    }
    assert!(body(None).get("reasoning_effort").is_none());
    assert_ne!(body(Some(ThinkingLevel::High)).to_string(), body(Some(ThinkingLevel::Low)).to_string());
}

fn concat_lines(parts: &[&str]) -> String {
    parts.join("")
}

#[test]
fn a_request_over_the_network() {
    let endpoint = bearer("https://api.deepseek.com/").endpoint();
    let p = OpenAiCompletionsProtocol::new();
    let request = build_request(&endpoint, &p, "m", &SamplingParams::default(), &[Message::user("x")], &[]).unwrap();
    assert_eq!(request.url, "https://api.deepseek.com/chat/completions");
    assert_eq!(
        request.headers,
        vec![("Authorization".to_string(), "Bearer sk-123".to_string())]
    );
    assert_eq!(request.body["model"], "m");
}

#[test]
fn statuses_that_are_no_success_are_errors() {
    for status in [200u16, 204, 299] {
        assert!(is_success(status));
        assert!(reply_error(status, "m".to_string()).is_none());
    }
    for status in [100u16, 199, 300, 404, 500] {
        assert!(!is_success(status));
        let error = reply_error(status, "m".to_string()).unwrap();
        assert_eq!(error.to_text(), format!("API error ({status}): m"));
    }
}

#[test]
fn model_id_and_display_name_default_to_id() {
    let provider = GenericProvider::new(
        "deepseek",
        "https://api.deepseek.com",
        "k",
        AuthStyle::Bearer,
        vec![ProtocolKind::OpenAiCompletions],
    );
    let model = Model::new(
        "deepseek-v4-flash",
        provider,
        OpenAiCompletionsProtocol::new(),
        SamplingParams::default(),
        Capabilities::default(),
    );
    assert_eq!(model.model_id(), "deepseek-v4-flash");
    assert_eq!(model.display_name, "deepseek-v4-flash");
}

#[test]
fn a_model_makes_its_requests() {
    let model = Model::new(
        "deepseek-v4-flash",
        bearer("https://api.deepseek.com"),
        OpenAiCompletionsProtocol::new(),
        SamplingParams::default(),
        Capabilities::default(),
    );
    assert!(!model.capabilities.reasoning);
    let shown = model.with_display_name("Flash");
    assert_eq!(shown.display_name, "Flash");
    assert_eq!(shown.model_id(), "deepseek-v4-flash");
    let request = shown.chat_request(&[Message::user("x")], &[]).unwrap();
    assert_eq!(request.body["model"], "deepseek-v4-flash");
    assert_eq!(request.url, "https://api.deepseek.com/chat/completions");
}

// ========== DeepSeek ==========

#[test]
fn deepseek_fills_in_what_is_missing() {
    let bare = AiDeepSeekProvider::new(ProviderConfig {
        api_key: "k".to_string(),
        base_url: String::new(),
        model: String::new(),
        protocol: None,
    });
    let request = bare.chat_request(&[Message::user("x")], &[]);
    assert_eq!(request.url, "https://api.deepseek.com/chat/completions");
    assert_eq!(request.body["model"], "deepseek-v4-flash");
    assert_eq!(
        request.headers,
        vec![("Authorization".to_string(), "Bearer k".to_string())]
    );

    assert_eq!(bare.provider_type(), ProviderType::DeepSeek);
    assert!(AiDeepSeekProvider::reply_error(204, String::new()).is_none());
    let error = AiDeepSeekProvider::reply_error(429, "slow down".to_string()).unwrap();
    assert_eq!(error.to_text(), "API error (429): slow down");

    let own = AiDeepSeekProvider::new(ProviderConfig {
        api_key: "k".to_string(),
        base_url: "https://proxy".to_string(),
        model: "m".to_string(),
        protocol: Some(ApiProtocol::OpenAI),
    });
    let request = own.chat_request(&[], &[]);
    assert_eq!(request.url, "https://proxy/chat/completions");
    assert_eq!(request.body.to_string(), r#"{"messages":[],"model":"m","stream":true}"#);
}

#[test]
fn deepseek_with_roles() {
    let config = DeepSeekConfig::new("key").with_base_url("https://your-proxy.com").with_model("deepseek-chat");
    assert_eq!(config.clone().base_url, "https://your-proxy.com");
    let provider = DeepSeekProvider::new(config);
    let messages = [
        RoleMessage { role: Role::System, content: "s".to_string(), tool_calls: None, tool_call_id: None },
        RoleMessage::user("u"),
        RoleMessage::assistant(""),
        RoleMessage::tool_result("id", "r").clone(),
    ];
    let request = provider.chat_request(&messages, &[]);
    assert_eq!(
        request.body.to_string(),
        concat_lines(&[
            r#"{"messages":[{"content":"s","role":"system"},{"content":"u","role":"user"},"#,
            r#"{"role":"assistant"},{"content":"r","role":"tool","tool_call_id":"id"}],"#,
            r#""model":"deepseek-chat","stream":true}"#,
        ])
    );
    assert_eq!(request.url, "https://your-proxy.com/chat/completions");
    assert_eq!(provider.provider_type(), ProviderType::DeepSeek);
    assert_eq!(
        DeepSeekProvider::reply_error(404, "404 Not Found", "gone").unwrap(),
        "DeepSeek API error (404 Not Found): gone"
    );
    assert!(DeepSeekProvider::reply_error(200, "200 OK", "").is_none());
    let defaults = DeepSeekConfig::new("k");
    assert_eq!(defaults.base_url, "https://api.deepseek.com");
    assert_eq!(defaults.model, "deepseek-v4-flash");
}

#[test]
fn kinds_of_providers_and_their_errors_in_words() {
    let names: Vec<&str> = [
        ProviderType::Anthropic,
        ProviderType::OpenAI,
        ProviderType::Ollama,
        ProviderType::DeepSeek,
    ]
    .iter()
    .map(|t| t.to_text())
    .collect();
    assert_eq!(names, vec!["anthropic", "openai", "ollama", "deepseek"]);
    let text = |e: ProviderError| e.to_text();
    assert_eq!(
        text(ProviderError::Api { status: 65535, message: "m".to_string() }),
        "API error (65535): m"
    );
    assert_eq!(text(ProviderError::Parse("x".to_string())), "Failed to parse API response: x");
    assert_eq!(text(ProviderError::Network("x".to_string())), "Network error: x");
    assert_eq!(
        text(ProviderError::StreamUnexpected("x".to_string())),
        "Stream ended unexpectedly: x"
    );
    assert_eq!(text(ProviderError::Config("x".to_string())), "Configuration error: x");
    let result = ToolResult { tool_use_id: "a".to_string(), content: "c".to_string(), is_error: true };
    assert!(result.is_error && result.content == "c" && result.tool_use_id == "a");
}

// ========== Token counts ==========

#[test]
fn from_components_sums_total() {
    let u = Usage::from_components(80, 20, 10, 5);
    assert_eq!(u.input, 80);
    assert_eq!(u.output, 20);
    assert_eq!(u.cache_read, 10);
    assert_eq!(u.cache_write, 5);
    assert_eq!(u.total_tokens, 80 + 20 + 10 + 5);
}

#[test]
fn default_is_all_zero() {
    let u = Usage::default();
    assert_eq!(u, Usage::from_components(0, 0, 0, 0));
    assert_eq!(u.total_tokens, 0);
}

#[test]
fn total_is_simple_sum_of_components() {
    let u = Usage::from_components(100, 50, 30, 0);
    assert_eq!(u.total_tokens, 180);
}

#[test]
fn openai_normalizer_reads_details_cached() {
    let extra = json(r#"{"prompt_tokens_details": {"cached_tokens": 25}}"#);
    let u = OpenAiUsageNormalizer.normalize(100, 5, &extra);
    assert_eq!(u.input, 75);
    assert_eq!(u.cache_read, 25);
    assert_eq!(u.total_tokens, 105);
}

#[test]
fn openai_normalizer_ignores_deepseek_field() {
    let extra = json(r#"{"prompt_cache_hit_tokens": 30}"#);
    let u = OpenAiUsageNormalizer.normalize(100, 5, &extra);
    assert_eq!(u.cache_read, 0);
    assert_eq!(u.input, 100);
}

#[test]
fn deepseek_normalizer_reads_cache_hit() {
    let extra = json(r#"{"prompt_cache_hit_tokens": 30, "prompt_cache_miss_tokens": 70}"#);
    let u = DeepSeekUsageNormalizer.normalize(100, 5, &extra);
    assert_eq!(u.input, 70);
    assert_eq!(u.cache_read, 30);
    assert_eq!(u.total_tokens, 105);
}

#[test]
fn deepseek_normalizer_ignores_openai_field() {
    let extra = json(r#"{"prompt_tokens_details": {"cached_tokens": 25}}"#);
    let u = DeepSeekUsageNormalizer.normalize(100, 5, &extra);
    assert_eq!(u.cache_read, 0);
    assert_eq!(u.input, 100);
}

#[test]
fn normalizer_zero_cache_when_field_absent() {
    let extra = json("{}");
    assert_eq!(OpenAiUsageNormalizer.normalize(50, 10, &extra).cache_read, 0);
    assert_eq!(DeepSeekUsageNormalizer.normalize(50, 10, &extra).cache_read, 0);
}

#[test]
fn totals_that_cannot_be_counted() {
    let n = DeepSeekUsageNormalizer::default();
    let none = json("{}");
    assert_eq!(checked_normalize(&n, u64::MAX, 1, &none), None);
    let some = checked_normalize(&n, u64::MAX, 0, &none).unwrap();
    assert_eq!(some.total_tokens, u64::MAX);
    let hit = json(r#"{"prompt_cache_hit_tokens": 30}"#);
    let more = checked_normalize(&n, 10, 1, &hit).unwrap();
    assert_eq!((more.input, more.cache_read, more.total_tokens), (0, 30, 31));
    assert_eq!(OpenAiUsageNormalizer::default().cached_tokens(&hit), 0);
    let odd = json(r#"{"prompt_cache_hit_tokens": "30"}"#);
    assert_eq!(n.cached_tokens(&odd), 0);
}

/// Reports input that was written to a cache.
struct StoringNormalizer;

impl UsageNormalizer for StoringNormalizer {
    fn cached_tokens(&self, _extra: &Json) -> u64 {
        2
    }

    fn stored_tokens(&self, _extra: &Json) -> u64 {
        7
    }

    fn normalize(&self, prompt_tokens: u64, completion_tokens: u64, extra: &Json) -> Usage {
        let cached = self.cached_tokens(extra);
        Usage::from_components(
            prompt_tokens.saturating_sub(cached),
            completion_tokens,
            cached,
            self.stored_tokens(extra),
        )
    }
}

#[test]
fn input_may_be_written_to_a_cache() {
    let none = json("{}");
    let u = checked_normalize(&StoringNormalizer, 10, 1, &none).unwrap();
    assert_eq!((u.input, u.output, u.cache_read, u.cache_write, u.total_tokens), (8, 1, 2, 7, 18));
    assert_eq!(checked_normalize(&StoringNormalizer, u64::MAX - 7, 0, &none).unwrap().total_tokens, u64::MAX);
    assert_eq!(checked_normalize(&StoringNormalizer, u64::MAX - 6, 0, &none), None);
    assert_eq!(DeepSeekUsageNormalizer.stored_tokens(&none), 0);
    assert_eq!(OpenAiUsageNormalizer.stored_tokens(&none), 0);
}

// ========== Registries ==========

struct MockModel {
    id: String,
}

impl LanguageModel for MockModel {
    fn model_id(&self) -> &str {
        &self.id
    }
}

fn mock(id: &str) -> MockModel {
    MockModel { id: id.to_string() }
}

struct MockProvider {
    ptype: ProviderType,
}

impl KindProvider for MockProvider {
    fn provider_type(&self) -> ProviderType {
        self.ptype
    }
}

fn two_providers() -> ProviderRegistry<MockProvider> {
    let mut registry = ProviderRegistry::new();
    registry.register("deepseek", MockProvider { ptype: ProviderType::DeepSeek });
    registry.register("openai", MockProvider { ptype: ProviderType::OpenAI });
    registry
}

#[test]
fn register_and_lookup() {
    let mut registry = ProviderRegistry::new();
    registry.register("deepseek", MockProvider { ptype: ProviderType::DeepSeek });
    assert!(registry.get("deepseek").is_some());
    assert!(registry.get("unknown").is_none());
    assert_eq!(registry.provider_type("deepseek"), Some(ProviderType::DeepSeek));
    assert_eq!(registry.provider_type("unknown"), None);
}

#[test]
fn first_registered_is_default() {
    let registry = two_providers();
    let default = registry.default_provider().unwrap();
    assert_eq!(default.provider_type(), ProviderType::DeepSeek);
}

#[test]
fn empty_registry_returns_none() {
    let registry = ProviderRegistry::<MockProvider>::new();
    assert!(registry.default_provider().is_none());
    assert!(registry.get("anything").is_none());
}

#[test]
fn provider_names_lists_all() {
    let registry = two_providers();
    let mut names = registry.provider_names();
    names.sort();
    assert_eq!(names, vec!["deepseek", "openai"]);
}

#[test]
fn registry_register_and_lookup() {
    let mut r = ModelRegistry::new();
    r.register("deepseek", mock("deepseek-v4-flash"));
    assert!(r.get("deepseek").is_some());
    assert!(r.get("unknown").is_none());
}

#[test]
fn registry_first_registered_is_default() {
    let mut r = ModelRegistry::new();
    r.register("a", mock("a"));
    r.register("b", mock("b"));
    assert_eq!(r.default_model().unwrap().model_id(), "a");
}

#[test]
fn registry_empty_registry_returns_none() {
    let r = ModelRegistry::<MockModel>::default();
    assert!(r.default_model().is_none());
    assert!(r.get("x").is_none());
}

#[test]
fn model_names_lists_all() {
    let mut r = ModelRegistry::new();
    r.register("a", mock("a"));
    r.register("b", mock("b"));
    let mut names = r.model_names();
    names.sort();
    assert_eq!(names, vec!["a", "b"]);
}

#[test]
fn a_name_that_is_registered_again_gets_the_new_value() {
    let mut r = ModelRegistry::new();
    r.register("a", mock("1"));
    r.register("b", mock("2"));
    r.register("a", mock("3"));
    assert_eq!(r.model_names(), vec!["a", "b"]);
    assert_eq!(r.get("a").unwrap().model_id(), "3");
    assert_eq!(r.default_model().unwrap().model_id(), "3");
}

struct NamedTool {
    name: &'static str,
    description: &'static str,
}

impl Tool for NamedTool {
    fn name(&self) -> &str {
        self.name
    }

    fn description(&self) -> &str {
        self.description
    }

    fn parameters(&self) -> Json {
        Json::Null
    }
}

#[test]
fn tools_by_their_names() {
    let mut tools = ToolRegistry::default();
    tools.register(NamedTool { name: "b", description: "1" });
    tools.register(NamedTool { name: "a", description: "2" });
    tools.register(NamedTool { name: "b", description: "3" });
    assert!(tools.get("c").is_none());
    assert_eq!(tools.get("b").unwrap().description(), "3");
    let specs: Vec<(String, String)> = tools
        .to_tool_specs()
        .into_iter()
        .map(|s| (s.name, s.description))
        .collect();
    assert_eq!(
        specs,
        vec![("b".to_string(), "3".to_string()), ("a".to_string(), "2".to_string())]
    );
}
