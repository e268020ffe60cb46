use casper::anthropic::{
    anthropic_error_message_of, anthropic_tool_of, build_anthropic_messages, fallback_events, finish_reason_of,
    map_anthropic_error, messages_endpoint, openai_tool_call_of, parse_block, parse_response, request_body,
    role_text, trim_slashes, LlmRequest, LlmResponse, Message, MessageRole, ProxyEvent, SseBuffer, StreamState,
};
use casper::codec::{from_serde, to_serde};
use casper::error::CasperError;
use casper::json::Json;
use casper::inference::{
    after_failure, check_not_streaming, completion_response, parse_openai_message_content, request_messages,
    tool_definitions, visible_models, FallbackStep,
};
use casper::llm::{CompletionResponse, ContentBlock, LlmRole, StopReason, TokenUsage};
use casper::routing::{
    check_quota, choose_provider, deployment_not_found, merge_params, require_backends, retry_delay_ms, DispatchPlan,
    ProviderKind, ResolvedBackend,
};
use casper::scope::Scope;

fn j(text: &str) -> Json {
    from_serde(&serde_json::from_str(text).unwrap())
}

fn v(x: &Json) -> serde_json::Value {
    to_serde(x)
}

fn s(text: &str) -> serde_json::Value {
    serde_json::from_str(text).unwrap()
}

// ── Anthropic conversion ────────────────────────────────────────

#[test]
fn system_extracted_from_messages() {
    let messages = vec![
        Message { role: MessageRole::System, content: j(r#""You are a helpful assistant""#) },
        Message { role: MessageRole::User, content: j(r#""Hello""#) },
    ];

    let (system, msgs) = build_anthropic_messages(&messages, &j("{}"));
    assert_eq!(system.map(|x| v(&x)), Some(s(r#""You are a helpful assistant""#)));
    assert_eq!(msgs.len(), 1);
    assert_eq!(v(&msgs[0])["role"], "user");
}

#[test]
fn system_extracted_from_extra() {
    let messages = vec![Message { role: MessageRole::User, content: j(r#""Hello""#) }];

    let (system, msgs) = build_anthropic_messages(&messages, &j(r#"{"system": "Be helpful"}"#));
    assert_eq!(system.map(|x| v(&x)), Some(s(r#""Be helpful""#)));
    assert_eq!(msgs.len(), 1);
}

#[test]
fn no_system() {
    let messages = vec![Message { role: MessageRole::User, content: j(r#""Hello""#) }];

    let (system, msgs) = build_anthropic_messages(&messages, &j("{}"));
    assert!(system.is_none());
    assert_eq!(msgs.len(), 1);
}

#[test]
fn tool_calls_converted_to_anthropic() {
    let messages = vec![Message {
        role: MessageRole::Assistant,
        content: j(r#"{
            "content": "Let me search.",
            "tool_calls": [{
                "id": "call_1",
                "type": "function",
                "function": {"name": "web_search", "arguments": "{\"query\":\"rust\"}"}
            }]
        }"#),
    }];

    let (_, msgs) = build_anthropic_messages(&messages, &j("{}"));
    assert_eq!(msgs.len(), 1);
    let m = v(&msgs[0]);
    let content = m["content"].as_array().unwrap();
    assert_eq!(content.len(), 2);
    assert_eq!(content[0]["type"], "text");
    assert_eq!(content[0]["text"], "Let me search.");
    assert_eq!(content[1]["type"], "tool_use");
    assert_eq!(content[1]["name"], "web_search");
    assert_eq!(content[1]["id"], "call_1");
    assert_eq!(content[1]["input"]["query"], "rust");
}

#[test]
fn tool_result_converted_to_anthropic() {
    let messages = vec![Message {
        role: MessageRole::Tool,
        content: j(r#"{"tool_call_id": "call_1", "content": "search results here"}"#),
    }];

    let (_, msgs) = build_anthropic_messages(&messages, &j("{}"));
    assert_eq!(msgs.len(), 1);
    let m = v(&msgs[0]);
    assert_eq!(m["role"], "user");
    let content = m["content"].as_array().unwrap();
    assert_eq!(content[0]["type"], "tool_result");
    assert_eq!(content[0]["tool_use_id"], "call_1");
    assert_eq!(content[0]["content"], "search results here");
}

#[test]
fn openai_tool_defs_converted() {
    let openai_tool = j(r#"{
        "type": "function",
        "function": {
            "name": "get_weather",
            "description": "Get weather",
            "parameters": {"type": "object", "properties": {"city": {"type": "string"}}}
        }
    }"#);
    let anthropic = v(&anthropic_tool_of(&openai_tool));
    assert_eq!(anthropic["name"], "get_weather");
    assert_eq!(anthropic["input_schema"]["properties"]["city"]["type"], "string");
}

#[test]
fn parse_anthropic_response() {
    let resp = j(r#"{
        "id": "msg_123",
        "type": "message",
        "role": "assistant",
        "model": "sonnet-4-20250514",
        "content": [{"type": "text", "text": "Hello! How can I help?"}],
        "stop_reason": "end_turn",
        "usage": {
            "input_tokens": 25,
            "output_tokens": 10,
            "cache_read_input_tokens": 5,
            "cache_creation_input_tokens": 20
        }
    }"#);

    let llm = parse_response(&resp).unwrap();
    assert_eq!(llm.content, "Hello! How can I help?");
    assert_eq!(llm.role, MessageRole::Assistant);
    assert_eq!(llm.input_tokens, 25);
    assert_eq!(llm.output_tokens, 10);
    assert_eq!(llm.cache_read_tokens, Some(5));
    assert_eq!(llm.cache_write_tokens, Some(20));
    assert_eq!(llm.finish_reason, Some("stop".to_string()));
}

#[test]
fn parse_anthropic_tool_use_returns_openai_format() {
    let resp = j(r#"{
        "id": "msg_456",
        "type": "message",
        "role": "assistant",
        "model": "sonnet-4-20250514",
        "content": [
            {"type": "text", "text": "Let me search."},
            {"type": "tool_use", "id": "toolu_123", "name": "search", "input": {"query": "rust programming"}}
        ],
        "stop_reason": "tool_use",
        "usage": {"input_tokens": 50, "output_tokens": 30}
    }"#);

    let llm = parse_response(&resp).unwrap();
    assert_eq!(llm.content, "Let me search.");
    assert_eq!(llm.finish_reason, Some("tool_calls".to_string()));

    let tc = llm.tool_calls.unwrap();
    assert_eq!(tc.len(), 1);
    let call = v(&tc[0]);
    assert_eq!(call["id"], "toolu_123");
    assert_eq!(call["type"], "function");
    assert_eq!(call["function"]["name"], "search");
    let args: serde_json::Value = serde_json::from_str(call["function"]["arguments"].as_str().unwrap()).unwrap();
    assert_eq!(args["query"], "rust programming");
}

#[test]
fn error_mapping() {
    let err = map_anthropic_error(429, r#"{"error":{"message":"rate limited"}}"#);
    assert!(matches!(err, CasperError::RateLimited));

    let err = map_anthropic_error(500, r#"{"error":{"message":"internal"}}"#);
    assert!(matches!(err, CasperError::BadGateway(_)));

    let err = map_anthropic_error(401, r#"{"error":{"message":"invalid key"}}"#);
    assert!(matches!(err, CasperError::BadGateway(_)));
}

#[test]
fn error_mapping_texts() {
    match map_anthropic_error(401, r#"{"error":{"message":"invalid key"}}"#) {
        CasperError::BadGateway(m) => assert_eq!(m, "Anthropic auth error: invalid key"),
        _ => panic!("expected a bad gateway"),
    }
    match map_anthropic_error(503, "oops") {
        CasperError::BadGateway(m) => assert_eq!(m, "Anthropic server error (503): oops"),
        _ => panic!("expected a bad gateway"),
    }
}

#[test]
fn finish_reasons_map_to_openai() {
    assert_eq!(finish_reason_of("end_turn"), "stop");
    assert_eq!(finish_reason_of("tool_use"), "tool_calls");
    assert_eq!(finish_reason_of("max_tokens"), "length");
}

#[test]
fn messages_endpoint_trims_slashes() {
    assert_eq!(messages_endpoint("https://api.anthropic.com/"), "https://api.anthropic.com/v1/messages");
    assert_eq!(messages_endpoint("https://api.anthropic.com"), "https://api.anthropic.com/v1/messages");
}

#[test]
fn sse_buffer_splits_on_blank_lines() {
    let mut b = SseBuffer::new();
    b.push_text("event: a\r\ndata: 1\r\n\r\nevent: b\n");
    assert_eq!(b.next_block(), Some("event: a\ndata: 1".to_string()));
    assert_eq!(b.next_block(), None);
    b.push_text("data: 2\n\n");
    assert_eq!(b.next_block(), Some("event: b\ndata: 2".to_string()));
}

// ── Routing ─────────────────────────────────────────────────────

#[test]
fn merge_params_request_overrides_defaults() {
    let defaults = j(r#"{"temperature": 0.7, "max_tokens": 1024, "top_p": 0.9}"#);
    let request = j(r#"{"temperature": 0.3, "max_tokens": 2048}"#);
    let merged = v(&merge_params(&defaults, &request));
    assert_eq!(merged["temperature"], 0.3);
    assert_eq!(merged["max_tokens"], 2048);
    assert_eq!(merged["top_p"], 0.9);
}

#[test]
fn merge_params_empty_defaults() {
    let merged = v(&merge_params(&j("{}"), &j(r#"{"temperature": 0.5}"#)));
    assert_eq!(merged["temperature"], 0.5);
}

#[test]
fn merge_params_empty_request() {
    let merged = v(&merge_params(&j(r#"{"temperature": 0.7}"#), &j("{}")));
    assert_eq!(merged["temperature"], 0.7);
}

#[test]
fn merge_params_non_object_request() {
    let merged = v(&merge_params(&j(r#"{"temperature": 0.7}"#), &j("null")));
    assert!(merged.is_null());
}

#[test]
fn resolved_backend_debug() {
    let backend = ResolvedBackend {
        id: 0,
        name: "test".to_string(),
        provider: "anthropic".to_string(),
        base_url: Some("https://api.anthropic.com".to_string()),
        api_key_enc: None,
    };
    let debug = format!("{backend:?}");
    assert!(debug.contains("anthropic"));
}

#[test]
fn quota_required() {
    assert!(check_quota(Some(60)).is_ok());
    match check_quota(None) {
        Err(CasperError::Forbidden(m)) => assert_eq!(m, "no quota allocated for this model"),
        _ => panic!("expected forbidden"),
    }
}

#[test]
fn deployment_without_backends_unavailable() {
    match require_backends("fast", Vec::new()) {
        Err(CasperError::Unavailable(m)) => assert_eq!(m, "no active backends for deployment 'fast'"),
        _ => panic!("expected unavailable"),
    }
}

#[test]
fn retry_delay_doubles() {
    assert_eq!(retry_delay_ms(1000, 1), 1000);
    assert_eq!(retry_delay_ms(1000, 2), 2000);
    assert_eq!(retry_delay_ms(1000, 4), 8000);
}

fn plain_response(content: &str, thinking: Option<&str>) -> LlmResponse {
    LlmResponse {
        content: content.to_string(),
        role: MessageRole::Assistant,
        model: "m".to_string(),
        input_tokens: 1,
        output_tokens: 2,
        cache_read_tokens: None,
        cache_write_tokens: None,
        tool_calls: None,
        finish_reason: Some("stop".to_string()),
        thinking: thinking.map(|t| t.to_string()),
    }
}

#[test]
fn fallback_events_send_thinking_then_text() {
    let events = fallback_events(&plain_response("hello", Some("hmm")));
    assert_eq!(events.len(), 2);
    assert!(matches!(&events[0], ProxyEvent::Thinking { delta } if delta == "hmm"));
    assert!(matches!(&events[1], ProxyEvent::ContentDelta { delta } if delta == "hello"));
}

#[test]
fn fallback_events_skip_empty_text() {
    assert!(fallback_events(&plain_response("", None)).is_empty());
    let only_text = fallback_events(&plain_response("x", None));
    assert_eq!(only_text.len(), 1);
    assert!(matches!(&only_text[0], ProxyEvent::ContentDelta { delta } if delta == "x"));
}

// ── Request body and streaming ──────────────────────────────────

#[test]
fn request_body_defaults_and_extra() {
    let req = LlmRequest {
        messages: vec![
            Message { role: MessageRole::System, content: j(r#""be brief""#) },
            Message { role: MessageRole::User, content: j(r#""hi""#) },
        ],
        model: "model-a".to_string(),
        max_tokens: None,
        temperature: Some(j("0.5")),
        tools: None,
        extra: j(r#"{"top_k": 5, "system": "ignored", "model": "other"}"#),
    };
    let body = v(&request_body(&req, true));
    assert_eq!(body["model"], "model-a");
    assert_eq!(body["max_tokens"], 4096);
    assert_eq!(body["stream"], true);
    assert_eq!(body["system"], "be brief");
    assert_eq!(body["temperature"], 0.5);
    assert_eq!(body["top_k"], 5);
    assert_eq!(body["messages"].as_array().unwrap().len(), 1);
    assert!(body.get("tools").is_none());
    let plain = v(&request_body(&req, false));
    assert!(plain.get("stream").is_none());
}

#[test]
fn sse_block_fields() {
    let ev = parse_block("event: content_block_delta\ndata: {\"a\": 1}\n");
    assert_eq!(ev.event_type, "content_block_delta");
    assert_eq!(ev.data, "{\"a\": 1}");
    let none = parse_block(": keep-alive");
    assert_eq!(none.event_type, "");
    assert_eq!(none.data, "");
}

#[test]
fn stream_state_assembles_text_thinking_and_tools() {
    let mut st = StreamState::new();
    let blocks = [
        "event: message_start\ndata: {\"message\": {\"model\": \"model-x\", \"usage\": {\"input_tokens\": 12, \"cache_read_input_tokens\": 3}}}",
        "event: content_block_start\ndata: {\"index\": 0, \"content_block\": {\"type\": \"thinking\"}}",
        "event: content_block_delta\ndata: {\"delta\": {\"type\": \"thinking_delta\", \"thinking\": \"hmm\"}}",
        "event: content_block_stop\ndata: {\"index\": 0}",
        "event: content_block_start\ndata: {\"index\": 1, \"content_block\": {\"type\": \"text\"}}",
        "event: content_block_delta\ndata: {\"delta\": {\"type\": \"text_delta\", \"text\": \"Hel\"}}",
        "event: content_block_delta\ndata: {\"delta\": {\"type\": \"text_delta\", \"text\": \"lo\"}}",
        "event: content_block_stop\ndata: {\"index\": 1}",
        "event: content_block_start\ndata: {\"index\": 2, \"content_block\": {\"type\": \"tool_use\", \"id\": \"tu_1\", \"name\": \"search\"}}",
        "event: content_block_delta\ndata: {\"delta\": {\"type\": \"input_json_delta\", \"partial_json\": \"{\\\"q\\\": \"}}",
        "event: content_block_delta\ndata: {\"delta\": {\"type\": \"input_json_delta\", \"partial_json\": \"\\\"rust\\\"}\"}}",
        "event: content_block_stop\ndata: {\"index\": 2}",
        "event: message_delta\ndata: {\"delta\": {\"stop_reason\": \"tool_use\"}, \"usage\": {\"output_tokens\": 40}}",
        "event: message_stop\ndata: {}",
    ];
    let mut deltas = Vec::new();
    let mut thinking = Vec::new();
    let mut tool_starts = Vec::new();
    for b in blocks.iter() {
        match st.on_block(b) {
            Some(ProxyEvent::ContentDelta { delta }) => deltas.push(delta),
            Some(ProxyEvent::Thinking { delta }) => thinking.push(delta),
            Some(ProxyEvent::ToolCallStart { id, name, .. }) => tool_starts.push((id, name)),
            None => {}
        }
    }
    assert_eq!(deltas, vec!["Hel".to_string(), "lo".to_string()]);
    assert_eq!(thinking, vec!["hmm".to_string()]);
    assert_eq!(tool_starts, vec![("tu_1".to_string(), "search".to_string())]);
    let resp = st.finish();
    assert_eq!(resp.content, "Hello");
    assert_eq!(resp.thinking.as_deref(), Some("hmm"));
    assert_eq!(resp.model, "model-x");
    assert_eq!(resp.input_tokens, 12);
    assert_eq!(resp.output_tokens, 40);
    assert_eq!(resp.cache_read_tokens, Some(3));
    assert_eq!(resp.cache_write_tokens, None);
    assert_eq!(resp.finish_reason.as_deref(), Some("tool_calls"));
    let calls: Vec<serde_json::Value> = resp.tool_calls.unwrap().iter().map(v).collect();
    assert_eq!(calls.len(), 1);
    assert_eq!(calls[0]["id"], "tu_1");
    assert_eq!(calls[0]["function"]["name"], "search");
    let args: serde_json::Value = serde_json::from_str(calls[0]["function"]["arguments"].as_str().unwrap()).unwrap();
    assert_eq!(args["q"], "rust");
}

#[test]
fn stream_state_ignores_blocks_without_json() {
    let mut st = StreamState::new();
    assert!(st.on_block("event: ping").is_none());
    assert!(st.on_block("event: content_block_delta\ndata: not json").is_none());
    let resp = st.finish();
    assert_eq!(resp.content, "");
    assert!(resp.tool_calls.is_none());
}

#[test]
fn anthropic_helpers() {
    assert_eq!(role_text(MessageRole::Assistant), "assistant");
    assert_eq!(role_text(MessageRole::Tool), "tool");
    assert_eq!(trim_slashes("https://api.example.com///"), "https://api.example.com");
    assert_eq!(anthropic_error_message_of(r#"{"error": {"message": "overloaded"}}"#), "overloaded");
    assert_eq!(anthropic_error_message_of("plain failure"), "plain failure");
    let call = v(&openai_tool_call_of("id1", "f", &j(r#"{"x": 1}"#)));
    assert_eq!(call["type"], "function");
    assert_eq!(call["function"]["arguments"], r#"{"x":1}"#);
}

// ── OpenAI-compatible endpoint ──────────────────────────────────

#[test]
fn openai_messages_become_llm_messages() {
    let msgs = vec![
        j(r#"{"role": "system", "content": "sys"}"#),
        j(r#"{"role": "assistant", "content": "", "tool_calls": [{"id": "c1", "function": {"name": "f", "arguments": "{\"a\": 1}"}}]}"#),
        j(r#"{"role": "tool", "tool_call_id": "c1", "content": "ok"}"#),
        j(r#"{"content": "no role"}"#),
    ];
    let out = request_messages(&msgs);
    assert_eq!(out.len(), 4);
    assert!(matches!(out[0].role, LlmRole::System));
    assert!(matches!(&out[1].content[..], [ContentBlock::ToolUse { id, name, .. }] if id == "c1" && name == "f"));
    match &out[1].content[0] {
        ContentBlock::ToolUse { input, .. } => assert_eq!(v(input)["a"], 1),
        _ => panic!("expected a tool use"),
    }
    assert!(matches!(out[2].role, LlmRole::Tool));
    assert!(matches!(&out[2].content[..], [ContentBlock::ToolResult { tool_use_id, content, is_error: false }]
        if tool_use_id == "c1" && content == "ok"));
    assert!(matches!(out[3].role, LlmRole::User));
    let bad_args = parse_openai_message_content("assistant",
        &j(r#"{"tool_calls": [{"id": "c2", "function": {"name": "g", "arguments": "not json"}}]}"#));
    match &bad_args[0] {
        ContentBlock::ToolUse { input, .. } => assert_eq!(v(input), s("{}")),
        _ => panic!("expected a tool use"),
    }
}

#[test]
fn openai_tools_and_streaming_flag() {
    let defs = tool_definitions(&Some(vec![j(r#"{"type": "function", "function": {"name": "f", "description": "d", "parameters": {"type": "object"}}}"#)]));
    assert_eq!(defs.len(), 1);
    assert_eq!(defs[0].name, "f");
    assert_eq!(defs[0].description, "d");
    assert!(tool_definitions(&None).is_empty());
    assert!(check_not_streaming(false).is_ok());
    match check_not_streaming(true) {
        Err(CasperError::BadRequest(m)) => assert_eq!(m, "streaming not yet supported; set stream=false"),
        _ => panic!("expected a bad request"),
    }
}

#[test]
fn completion_response_shape() {
    let resp = CompletionResponse {
        content: vec![ContentBlock::Text { text: "hi".to_string() }],
        reasoning: vec![],
        stop_reason: StopReason::MaxTokens,
        usage: TokenUsage { input_tokens: 7, output_tokens: 3 },
        model: "backend-model".to_string(),
    };
    let r = completion_response("chatcmpl-1".to_string(), "fast".to_string(), &resp);
    assert_eq!(r.object, "chat.completion");
    assert_eq!(r.model, "fast");
    assert_eq!(r.choices.len(), 1);
    assert_eq!(r.choices[0].message.role, "assistant");
    assert_eq!(r.choices[0].message.content.as_deref(), Some("hi"));
    assert!(r.choices[0].message.tool_calls.is_none());
    assert!(r.choices[0].message.thinking.is_none());
    assert_eq!(r.choices[0].finish_reason.as_deref(), Some("length"));
    assert_eq!((r.usage.prompt_tokens, r.usage.completion_tokens, r.usage.total_tokens), (7, 3, 10));
}

#[test]
fn fallback_after_failures() {
    assert!(matches!(after_failure(0, CasperError::Unavailable("x".into()), Some("backup".into())),
        FallbackStep::TryNext(n) if n == "backup"));
    assert!(matches!(after_failure(3, CasperError::Unavailable("x".into()), Some("backup".into())),
        FallbackStep::Fail(CasperError::Unavailable(_))));
    assert!(matches!(after_failure(0, CasperError::BadRequest("x".into()), Some("backup".into())),
        FallbackStep::Fail(CasperError::BadRequest(_))));
    assert!(matches!(after_failure(0, CasperError::Internal("x".into()), None),
        FallbackStep::Fail(CasperError::Internal(_))));
}

#[test]
fn models_visible_by_scope() {
    let rows = vec![("fast".to_string(), "anthropic".to_string()), ("slow".to_string(), "openai".to_string())];
    let all = visible_models(&vec![Scope::parse("inference:call").unwrap()], &rows);
    assert_eq!(all.object, "list");
    assert_eq!(all.data.iter().map(|m| m.id.as_str()).collect::<Vec<_>>(), vec!["fast", "slow"]);
    assert_eq!(all.data[0].owned_by, "anthropic");
    let one = visible_models(&vec![Scope::parse("inference:slow:call").unwrap()], &rows);
    assert_eq!(one.data.iter().map(|m| m.id.as_str()).collect::<Vec<_>>(), vec!["slow"]);
    let none = visible_models(&vec![Scope::parse("agents:run").unwrap()], &rows);
    assert!(none.data.is_empty());
}

// ── Providers and dispatch plans ────────────────────────────────

fn backend(provider: &str, base_url: Option<&str>) -> ResolvedBackend {
    ResolvedBackend {
        id: 1,
        name: "primary".to_string(),
        provider: provider.to_string(),
        base_url: base_url.map(|u| u.to_string()),
        api_key_enc: Some("enc".to_string()),
    }
}

#[test]
fn providers_chosen_by_kind() {
    let c = choose_provider(&backend("openai_compatible", Some("http://x")), false).ok().unwrap();
    assert_eq!(c.kind, ProviderKind::OpenAi);
    assert_eq!(c.base_url.as_deref(), Some("http://x"));
    assert_eq!(c.api_key, "enc");
    match choose_provider(&backend("anthropic", None), false) {
        Err(CasperError::Internal(m)) => assert_eq!(m, "backend 'primary' has no base_url configured"),
        _ => panic!("expected an internal error"),
    }
    match choose_provider(&backend("agent", None), false) {
        Err(CasperError::Unavailable(m)) => assert_eq!(m, "no agent backend connections for 'primary'"),
        _ => panic!("expected unavailable"),
    }
    assert_eq!(choose_provider(&backend("agent", None), true).ok().unwrap().kind, ProviderKind::Agent);
    match choose_provider(&backend("gemini", Some("http://x")), true) {
        Err(CasperError::Internal(m)) => assert_eq!(m, "unsupported provider: gemini"),
        _ => panic!("expected an internal error"),
    }
    match deployment_not_found("fast") {
        CasperError::NotFound(m) => assert_eq!(m, "deployment 'fast' not found or inactive"),
        _ => panic!("expected not found"),
    }
}

#[test]
fn dispatch_plan_walks_backends_and_retries() {
    let mut plan = DispatchPlan::new(2, 1, true);
    let mut tries = Vec::new();
    while let Some(t) = plan.next_attempt() {
        tries.push(t);
        assert!(plan.record_failure(CasperError::Unavailable(format!("try {}", tries.len()))).is_none());
    }
    assert_eq!(tries, vec![(0, 0), (0, 1), (1, 0), (1, 1)]);
    match plan.give_up() {
        CasperError::Unavailable(m) => assert_eq!(m, "try 4"),
        _ => panic!("expected the last error"),
    }
    let mut single = DispatchPlan::new(3, 0, false);
    assert_eq!(single.next_attempt(), Some((0, 0)));
    assert!(matches!(single.record_failure(CasperError::Forbidden("no".into())), Some(CasperError::Forbidden(_))));
    single.record_skip(CasperError::Internal("setup".into()));
    assert_eq!(single.next_attempt(), None);
    match DispatchPlan::new(0, 2, true).give_up() {
        CasperError::Unavailable(m) => assert_eq!(m, "all backends exhausted"),
        _ => panic!("expected exhaustion"),
    }
}
