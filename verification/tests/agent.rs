use casper::assembler::{assemble_system_prompt, datetime_text, generate_tool_documentation, AssemblyInputs, DateParts, PLATFORM_PREAMBLE};
use casper::codec::{from_serde, to_serde};
use casper::history::{group_into_turns, select_within_budget, chronological_messages, HistoryMessage, MessageRow, Turn};
use casper::json::Json;
use casper::llm::{
    content_blocks_to_json, extract_text, extract_thinking, parse_history_content, parse_role, CompletionResponse,
    ContentBlock, LlmRole, StopReason, TokenUsage,
};
use casper::prompt::estimate_tokens;
use casper::react::{
    ask_user_request, ask_user_result, connect_timeout_result, delegate_settings, delegation_refusal, delegation_request,
    delegation_result, effective_max_turns, history_to_messages, mcp_oauth_request, mcp_oauth_timeout_result,
    mcp_oauth_unavailable_result, tool_uses, AgentUsage, Decision, DelegationOutcome, ReactLoop, ToolCall, UserReply,
    done_event, out_of_turns_event, tool_result_event, StreamEvent, StreamedTurn,
};
use casper::registry::{pick_connection, ActorKey, ActorRegistry, ConnectionLoad, InFlight, ReaperConfig};
use casper::knowledge::{prepare_upload, UploadInput};
use casper::error::CasperError;
use casper::text::str_less;
use casper::tools::{
    mcp_server_of_name, AskUserTool, DelegateTool, KnowledgeSearchTool, McpAuth, McpTool, Tool, ToolDispatcher, ToolResult,
    UpdateMemoryTool, WebFetchTool, WebSearchTool,
};

fn j(text: &str) -> Json {
    from_serde(&serde_json::from_str(text).unwrap())
}

fn v(x: &Json) -> serde_json::Value {
    to_serde(x)
}

// ── Usage ───────────────────────────────────────────────────────

#[test]
fn agent_usage_default() {
    let usage = AgentUsage::default();
    assert_eq!(usage.input_tokens, 0);
    assert_eq!(usage.llm_calls, 0);
}

#[test]
fn engine_usage_accumulation() {
    let mut usage = AgentUsage::default();
    usage.input_tokens += 100;
    usage.output_tokens += 50;
    usage.llm_calls += 1;
    usage.tool_calls += 2;

    assert_eq!(usage.input_tokens, 100);
    assert_eq!(usage.output_tokens, 50);
    assert_eq!(usage.llm_calls, 1);
    assert_eq!(usage.tool_calls, 2);
}

#[test]
fn mod_usage_accumulation() {
    let mut usage = AgentUsage::default();
    usage.input_tokens += 100;
    usage.output_tokens += 50;
    usage.llm_calls += 1;
    usage.tool_calls += 2;

    assert_eq!(usage.input_tokens, 100);
    assert_eq!(usage.output_tokens, 50);
    assert_eq!(usage.llm_calls, 1);
    assert_eq!(usage.tool_calls, 2);
}

#[test]
fn reaper_config_default() {
    let config = ReaperConfig::default();
    assert_eq!(config.scan_interval_secs, 60);
    assert_eq!(config.idle_timeout_secs, 300);
}

#[test]
fn idle_actors_past_timeout() {
    let idle = casper::registry::idle_actors(1000, &vec![100, 800, 699, 1000], 300);
    assert_eq!(idle, vec![0, 2]);
}

#[test]
fn token_limit_check() {
    let _tool = UpdateMemoryTool::new(10);
    let long_content = "a".repeat(100);
    let tokens = estimate_tokens(&long_content);
    assert!(tokens > 10);
}

#[test]
fn estimate_tokens_quarter_of_bytes_at_least_one() {
    assert_eq!(estimate_tokens(""), 1);
    assert_eq!(estimate_tokens("abc"), 1);
    assert_eq!(estimate_tokens(&"a".repeat(100)), 25);
}

// ── Content ─────────────────────────────────────────────────────

#[test]
fn parse_role_works() {
    assert_eq!(parse_role("user"), Some(LlmRole::User));
    assert_eq!(parse_role("assistant"), Some(LlmRole::Assistant));
    assert_eq!(parse_role("tool"), Some(LlmRole::Tool));
    assert_eq!(parse_role("system"), Some(LlmRole::System));
    assert_eq!(parse_role("bogus"), None);
}

#[test]
fn parse_history_content_plain_string() {
    let val = Json::Str("hello".to_string());
    let blocks = parse_history_content(LlmRole::User, &val);
    assert_eq!(blocks.len(), 1);
    assert!(matches!(&blocks[0], ContentBlock::Text { text } if text == "hello"));
}

#[test]
fn parse_history_content_new_format_array() {
    let blocks_json = content_blocks_to_json(&vec![
        ContentBlock::Text { text: "thinking...".to_string() },
        ContentBlock::ToolUse { id: "call_1".to_string(), name: "echo".to_string(), input: j(r#"{"message": "hi"}"#) },
    ]);

    let parsed = parse_history_content(LlmRole::Assistant, &blocks_json);
    assert_eq!(parsed.len(), 2);
    assert!(matches!(&parsed[0], ContentBlock::Text { text } if text == "thinking..."));
    assert!(matches!(&parsed[1], ContentBlock::ToolUse { name, .. } if name == "echo"));
}

#[test]
fn parse_history_content_legacy_tool_result() {
    let val = j(r#"{"tool_call_id": "call_123", "content": "result text"}"#);
    let blocks = parse_history_content(LlmRole::Tool, &val);
    assert_eq!(blocks.len(), 1);
    assert!(matches!(
        &blocks[0],
        ContentBlock::ToolResult { tool_use_id, content, is_error }
        if tool_use_id == "call_123" && content == "result text" && !is_error
    ));
}

#[test]
fn parse_history_content_legacy_assistant_with_tool_calls() {
    let val = j(r#"{
        "content": "Let me help.",
        "tool_calls": [{
            "id": "call_001",
            "type": "function",
            "function": {"name": "search", "arguments": "{\"query\": \"rust\"}"}
        }]
    }"#);
    let blocks = parse_history_content(LlmRole::Assistant, &val);
    assert_eq!(blocks.len(), 2);
    assert!(matches!(&blocks[0], ContentBlock::Text { text } if text == "Let me help."));
    assert!(matches!(&blocks[1], ContentBlock::ToolUse { id, name, .. } if id == "call_001" && name == "search"));
    if let ContentBlock::ToolUse { input, .. } = &blocks[1] {
        assert_eq!(v(input)["query"], "rust");
    }
}

#[test]
fn content_blocks_json_roundtrip() {
    let blocks = vec![
        ContentBlock::Text { text: "a".to_string() },
        ContentBlock::ToolResult { tool_use_id: "t1".to_string(), content: "r".to_string(), is_error: true },
        ContentBlock::Thinking { text: "hm".to_string() },
    ];
    let back = casper::llm::content_blocks_from_json(&content_blocks_to_json(&blocks)).unwrap();
    assert_eq!(back.len(), 3);
    assert!(matches!(&back[1], ContentBlock::ToolResult { tool_use_id, content, is_error }
        if tool_use_id == "t1" && content == "r" && *is_error));
    assert!(matches!(&back[2], ContentBlock::Thinking { text } if text == "hm"));
}

#[test]
fn extract_text_concatenates() {
    let blocks = vec![
        ContentBlock::Text { text: "Hello ".to_string() },
        ContentBlock::ToolUse { id: "x".to_string(), name: "y".to_string(), input: j("{}") },
        ContentBlock::Text { text: "world".to_string() },
    ];
    assert_eq!(extract_text(&blocks), "Hello world");
}

#[test]
fn extract_thinking_from_reasoning() {
    let response = CompletionResponse {
        content: vec![ContentBlock::Text { text: "answer".to_string() }],
        reasoning: vec![ContentBlock::Thinking { text: "I need to think about this.".to_string() }],
        stop_reason: StopReason::EndTurn,
        usage: TokenUsage { input_tokens: 10, output_tokens: 5 },
        model: "test".to_string(),
    };
    assert_eq!(extract_thinking(&response), Some("I need to think about this.".to_string()));
}

#[test]
fn extract_thinking_empty_reasoning() {
    let response = CompletionResponse {
        content: vec![ContentBlock::Text { text: "answer".to_string() }],
        reasoning: vec![],
        stop_reason: StopReason::EndTurn,
        usage: TokenUsage { input_tokens: 10, output_tokens: 5 },
        model: "test".to_string(),
    };
    assert_eq!(extract_thinking(&response), None);
}

// ── History ─────────────────────────────────────────────────────

fn make_msg(role: &str, content: Json, tokens: i32) -> MessageRow {
    MessageRow { role: role.to_string(), content, token_count: Some(tokens) }
}

#[test]
fn group_simple_messages() {
    let rows = vec![
        make_msg("assistant", j(r#""Response 2""#), 10),
        make_msg("user", j(r#""Question 2""#), 5),
        make_msg("assistant", j(r#""Response 1""#), 10),
        make_msg("user", j(r#""Question 1""#), 5),
    ];

    let turns = group_into_turns(rows);
    assert_eq!(turns.len(), 4);
    assert_eq!(turns[0].total_tokens(), 10);
    assert_eq!(turns[1].total_tokens(), 5);
}

#[test]
fn group_tool_use_pairs() {
    let rows = vec![
        make_msg("tool", j(r#"{"type": "tool_result", "content": "result"}"#), 20),
        make_msg("assistant", j(r#"[{"type": "tool_use", "name": "search", "input": {}}]"#), 15),
        make_msg("user", j(r#""Search for something""#), 10),
    ];

    let turns = group_into_turns(rows);
    assert_eq!(turns.len(), 2);
    assert_eq!(turns[0].total_tokens(), 35);
    assert_eq!(turns[0].messages.len(), 2);
    assert_eq!(turns[0].messages[0].role, "assistant");
    assert_eq!(turns[0].messages[1].role, "tool");
    assert_eq!(turns[1].total_tokens(), 10);
}

#[test]
fn group_multiple_tool_results() {
    let rows = vec![
        make_msg("tool", j(r#"{"content": "result2"}"#), 10),
        make_msg("tool", j(r#"{"content": "result1"}"#), 10),
        make_msg(
            "assistant",
            j(r#"[{"type": "tool_use", "name": "tool1", "input": {}}, {"type": "tool_use", "name": "tool2", "input": {}}]"#),
            20,
        ),
        make_msg("user", j(r#""Do two things""#), 5),
    ];

    let turns = group_into_turns(rows);
    assert_eq!(turns.len(), 2);
    assert_eq!(turns[0].messages.len(), 3);
    assert_eq!(turns[0].total_tokens(), 40);
}

fn take_within(turns: Vec<Turn>, budget: i128) -> (Vec<Turn>, i128) {
    let mut selected: Vec<Turn> = Vec::new();
    let mut used = 0;
    for turn in turns {
        let t = turn.total_tokens();
        if used + t > budget {
            break;
        }
        used += t;
        selected.push(turn);
    }
    (selected, used)
}

#[test]
fn budget_truncation_keeps_pairs_intact() {
    let rows = vec![
        make_msg("tool", j(r#"{"content": "result"}"#), 20),
        make_msg("assistant", j(r#"[{"type": "tool_use", "name": "t", "input": {}}]"#), 15),
        make_msg("user", j(r#""question 2""#), 5),
        make_msg("assistant", j(r#""answer 1""#), 10),
        make_msg("user", j(r#""question 1""#), 5),
    ];

    let turns = group_into_turns(rows);
    let (selected, used) = take_within(turns, 45);
    assert_eq!(selected.len(), 2);
    assert_eq!(used, 40);
}

#[test]
fn budget_too_small_for_tool_pair_skips_it() {
    let rows = vec![
        make_msg("tool", j(r#"{"content": "result"}"#), 20),
        make_msg("assistant", j(r#"[{"type": "tool_use", "name": "t", "input": {}}]"#), 15),
        make_msg("user", j(r#""question""#), 5),
    ];

    let turns = group_into_turns(rows);
    let (selected, _) = take_within(turns, 10);
    assert_eq!(selected.len(), 0);
}

#[test]
fn twenty_messages_budget_for_ten() {
    let mut rows = Vec::new();
    for i in (0..20).rev() {
        let role = if i % 2 == 0 { "user" } else { "assistant" };
        rows.push(make_msg(role, Json::Str(format!("message {i}")), 5));
    }

    let turns = group_into_turns(rows);
    assert_eq!(turns.len(), 20);

    let (mut selected, used) = take_within(turns, 50);
    assert_eq!(selected.len(), 10);
    assert_eq!(used, 50);

    selected.reverse();
    let messages: Vec<HistoryMessage> = selected.into_iter().flat_map(|t| t.messages).collect();
    assert_eq!(messages.len(), 10);
}

#[test]
fn library_budget_selection_matches_manual_loop() {
    let rows = vec![
        make_msg("tool", j(r#"{"content": "result"}"#), 20),
        make_msg("assistant", j(r#"[{"type": "tool_use", "name": "t", "input": {}}]"#), 15),
        make_msg("user", j(r#""question 2""#), 5),
        make_msg("assistant", j(r#""answer 1""#), 10),
        make_msg("user", j(r#""question 1""#), 5),
    ];
    let (selected, used) = select_within_budget(group_into_turns(rows), 45);
    assert_eq!(selected.len(), 2);
    assert_eq!(used, 40);
    let msgs = chronological_messages(selected);
    let roles: Vec<&str> = msgs.iter().map(|m| m.role.as_str()).collect();
    assert_eq!(roles, vec!["user", "assistant", "tool"]);
}

// ── Tools ───────────────────────────────────────────────────────

#[test]
fn tool_result_ok() {
    let r = ToolResult::ok(j(r#""success""#));
    assert!(!r.is_error);
    assert_eq!(v(&r.content), serde_json::Value::String("success".to_string()));
}

#[test]
fn tool_result_error() {
    let r = ToolResult::error("something went wrong");
    assert!(r.is_error);
    assert_eq!(v(&r.content), serde_json::Value::String("something went wrong".to_string()));
}

#[test]
fn ask_user_tool_metadata() {
    let tool = AskUserTool;
    assert_eq!(tool.name(), "ask_user");
    let schema = v(&tool.parameters_schema());
    assert!(schema["properties"]["question"].is_object());
    assert!(schema["properties"]["options"].is_object());
}

#[test]
fn ask_user_returns_sentinel() {
    let tool = AskUserTool;
    let result = tool.execute(&j(r#"{ "question": "Which environment?", "options": ["staging", "prod"] }"#)).unwrap();
    assert!(!result.is_error);
    let c = v(&result.content);
    assert_eq!(c["__ask_user__"], true);
    assert_eq!(c["question"], "Which environment?");
}

#[test]
fn ask_user_no_options() {
    let tool = AskUserTool;
    let result = tool.execute(&j(r#"{ "question": "What should I do?" }"#)).unwrap();
    assert!(!result.is_error);
    assert_eq!(v(&result.content)["__ask_user__"], true);
}

#[test]
fn ask_user_without_question_refused() {
    assert!(AskUserTool.execute(&j("{}")).is_err());
}

#[test]
fn delegate_tool_metadata() {
    let tool = DelegateTool;
    assert_eq!(tool.name(), "delegate");
    let schema = v(&tool.parameters_schema());
    assert!(schema["properties"]["agent"].is_object());
    assert!(schema["properties"]["message"].is_object());
}

#[test]
fn delegate_returns_sentinel() {
    let tool = DelegateTool;
    let result = tool.execute(&j(r#"{ "agent": "devops", "message": "deploy v1.2" }"#)).unwrap();
    assert!(!result.is_error);
    let c = v(&result.content);
    assert_eq!(c["__delegate__"], true);
    assert_eq!(c["agent"], "devops");
    assert_eq!(c["message"], "deploy v1.2");
}

#[test]
fn knowledge_search_tool_metadata() {
    let tool = KnowledgeSearchTool::new(10, j("0.5"));
    assert_eq!(tool.name(), "knowledge_search");
    let schema = v(&tool.parameters_schema());
    assert_eq!(schema["type"], "object");
    assert!(schema["properties"]["query"].is_object());
}

#[test]
fn update_memory_tool_metadata() {
    let tool = UpdateMemoryTool::new(4000);
    assert_eq!(tool.name(), "update_memory");
    assert!(!tool.description().is_empty());
    let schema = v(&tool.parameters_schema());
    assert_eq!(schema["type"], "object");
    assert!(schema["properties"]["content"].is_object());
}

#[test]
fn web_fetch_tool_metadata() {
    let tool = WebFetchTool::new(30, 1_000_000);
    assert_eq!(tool.name(), "web_fetch");
    let schema = v(&tool.parameters_schema());
    assert!(schema["properties"]["url"].is_object());
}

#[test]
fn web_search_tool_metadata() {
    let tool = WebSearchTool::new("http://localhost:8080".into(), 5);
    assert_eq!(tool.name(), "web_search");
    let schema = v(&tool.parameters_schema());
    assert!(schema["properties"]["query"].is_object());
}

#[test]
fn qualified_name_format() {
    let tool = McpTool::new(
        "jira",
        "search_issues".into(),
        "Search Jira issues".into(),
        j(r#"{"type": "object"}"#),
        McpAuth::NoAuth,
    );
    assert_eq!(tool.name(), "mcp__jira__search_issues");
    assert_eq!(tool.description(), "Search Jira issues");
}

#[test]
fn parameters_schema_passthrough() {
    let schema = r#"{"type": "object", "properties": {"query": { "type": "string" }}, "required": ["query"]}"#;
    let tool = McpTool::new("docs", "search".into(), "Search docs".into(), j(schema), McpAuth::Bearer);
    assert_eq!(v(&tool.parameters_schema()), serde_json::from_str::<serde_json::Value>(schema).unwrap());
}

#[test]
fn actor_key_display() {
    let key = casper::registry::ActorKey { tenant_id: 0, agent_name: "triage".to_string(), conversation_id: 0 };
    let s = key.to_text();
    assert!(s.contains("triage"));
    assert_eq!(s, "00000000-0000-0000-0000-000000000000:triage:00000000-0000-0000-0000-000000000000");
}

#[test]
fn actor_key_equality() {
    let a = casper::registry::ActorKey { tenant_id: 0, agent_name: "triage".to_string(), conversation_id: 0 };
    let b = a.clone();
    assert_eq!(a, b);
}

#[test]
fn round_robin_skips_full_connections() {
    let loads = vec![
        ConnectionLoad { active_requests: 2, max_concurrent: 2 },
        ConnectionLoad { active_requests: 0, max_concurrent: 2 },
    ];
    assert_eq!(pick_connection(0, &loads).unwrap(), (1, 2));
    assert_eq!(pick_connection(1, &loads).unwrap(), (1, 2));
    assert!(pick_connection(0, &Vec::new()).is_err());
}

#[test]
fn memory_versions_count_up() {
    assert_eq!(UpdateMemoryTool::next_version(None), 1);
    assert_eq!(UpdateMemoryTool::next_version(Some(4)), 5);
}

#[test]
fn upload_prepared_for_storage() {
    let input = UploadInput {
        file_data: b"first paragraph\n\nsecond".to_vec(),
        original_filename: "Notes.MD".to_string(),
        doc_name: "notes".to_string(),
        source: "upload".to_string(),
    };
    let doc = prepare_upload(&input);
    assert_eq!(doc.extension, "MD");
    assert_eq!(doc.content_type, "text/markdown");
    assert_eq!(doc.token_count, 5);
    assert_eq!(doc.chunks.len(), 1);
    assert_eq!(doc.chunks[0].content, "first paragraph\n\nsecond");
}

// ── Actor registry ──────────────────────────────────────────────

#[test]
fn registry_new() {
    let registry: ActorRegistry<u32> = ActorRegistry::new(32);
    assert_eq!(registry.active_count(), 0);
}

fn actor(agent: &str, conversation: u128) -> ActorKey {
    ActorKey { tenant_id: 0, agent_name: agent.to_string(), conversation_id: conversation }
}

#[test]
fn registry_keeps_one_actor_per_key() {
    let mut registry: ActorRegistry<u32> = ActorRegistry::new(8);
    assert_eq!(registry.mailbox_size(), 8);
    assert_eq!(registry.get_or_activate(actor("triage", 1), 10), (0, true));
    assert_eq!(registry.get_or_activate(actor("triage", 2), 20), (1, true));
    // The same key finds the running actor; the new handle is not kept.
    assert_eq!(registry.get_or_activate(actor("triage", 1), 30), (0, false));
    assert_eq!(registry.active_count(), 2);
    assert_eq!(*registry.handle(0), 10);
    assert!(registry.contains(&actor("triage", 2)));
    assert!(!registry.contains(&actor("billing", 1)));
    let keys: Vec<String> = registry.keys().iter().map(|k| k.to_text()).collect();
    assert_eq!(keys, vec![actor("triage", 1).to_text(), actor("triage", 2).to_text()]);
}

#[test]
fn registry_remove_closes_only_that_actor() {
    let mut registry: ActorRegistry<u32> = ActorRegistry::new(4);
    registry.get_or_activate(actor("a", 1), 1);
    registry.get_or_activate(actor("b", 1), 2);
    assert!(registry.remove(&actor("a", 1)));
    assert!(!registry.remove(&actor("a", 1)));
    assert_eq!(registry.active_count(), 1);
    assert_eq!(registry.position(&actor("b", 1)), Some(0));
    assert_eq!(registry.position(&actor("a", 1)), None);
}

// ── Tool dispatcher ─────────────────────────────────────────────

/// A trivial tool for testing.
struct EchoTool;

impl Tool for EchoTool {
    fn name(&self) -> &str {
        "echo"
    }
    fn description(&self) -> &str {
        "Echoes the input back."
    }
    fn parameters_schema(&self) -> Json {
        j(r#"{"type": "object", "properties": {"message": {"type": "string"}}, "required": ["message"]}"#)
    }
}

#[test]
fn dispatcher_register_and_len() {
    let mut d = ToolDispatcher::new();
    assert!(d.is_empty());
    d.register(EchoTool);
    assert_eq!(d.len(), 1);
    assert!(!d.is_empty());
}

#[test]
fn dispatcher_get() {
    let mut d = ToolDispatcher::new();
    d.register(EchoTool);
    assert!(d.get("echo").is_some());
    assert!(d.get("nonexistent").is_none());
}

#[test]
fn dispatcher_tool_definitions_openai_format() {
    let mut d = ToolDispatcher::new();
    d.register(EchoTool);
    let defs: Vec<serde_json::Value> = d.tool_definitions().iter().map(v).collect();
    assert_eq!(defs.len(), 1);
    assert_eq!(defs[0]["type"], "function");
    assert_eq!(defs[0]["function"]["name"], "echo");
    assert!(defs[0]["function"]["parameters"].is_object());
}

#[test]
fn dispatcher_unknown_tool_is_a_bad_request() {
    let d: ToolDispatcher<EchoTool> = ToolDispatcher::new();
    match d.dispatch("nonexistent") {
        Err(CasperError::BadRequest(m)) => assert_eq!(m, "unknown tool: nonexistent"),
        _ => panic!("expected a bad request"),
    }
}

#[test]
fn dispatcher_register_overwrites_same_name() {
    let mut d = ToolDispatcher::new();
    d.register(UpdateMemoryTool::new(10));
    d.register(UpdateMemoryTool::new(20));
    assert_eq!(d.len(), 1);
    assert_eq!(d.dispatch("update_memory").ok().map(|t| t.max_document_tokens), Some(20));
}

fn mcp(server: &str, tool: &str) -> McpTool {
    McpTool::new(server, tool.to_string(), format!("{tool} tool"), Json::Null, McpAuth::NoAuth)
}

#[test]
fn mcp_summaries_grouped_by_server_and_sorted() {
    let mut d = ToolDispatcher::new();
    d.register(mcp("jira", "search"));
    d.register(mcp("github", "pulls"));
    d.register(mcp("jira", "comment"));
    d.register(mcp("jira", "assign"));
    let groups = d.mcp_tool_summaries();
    assert_eq!(groups.len(), 2);
    assert_eq!(groups[0].0, "jira");
    let jira: Vec<&str> = groups[0].1.iter().map(|e| e.0.as_str()).collect();
    assert_eq!(jira, vec!["mcp__jira__assign", "mcp__jira__comment", "mcp__jira__search"]);
    assert_eq!(groups[0].1[0].1, "assign tool");
    assert_eq!(groups[1].0, "github");
    assert_eq!(groups[1].1, vec![("mcp__github__pulls".to_string(), "pulls tool".to_string())]);
}

#[test]
fn mcp_server_names() {
    assert_eq!(mcp_server_of_name("mcp__jira__search").as_deref(), Some("jira"));
    assert_eq!(mcp_server_of_name("mcp__a__b__c").as_deref(), Some("a"));
    assert_eq!(mcp_server_of_name("mcp__nosep"), None);
    assert_eq!(mcp_server_of_name("web_search"), None);
}

#[test]
fn strings_sort_by_code_point() {
    assert!(str_less("abc", "abd"));
    assert!(str_less("ab", "abc"));
    assert!(!str_less("abc", "ab"));
    assert!(!str_less("same", "same"));
    assert!(str_less("Zebra", "apple"));
    assert_eq!(str_less("é", "z"), "é" < "z");
}

// ── ReAct loop ──────────────────────────────────────────────────

fn tool_use_response() -> CompletionResponse {
    CompletionResponse {
        content: vec![ContentBlock::ToolUse { id: "call_001".to_string(), name: "echo".to_string(), input: j(r#"{"message": "hi"}"#) }],
        reasoning: vec![],
        stop_reason: StopReason::ToolUse,
        usage: TokenUsage { input_tokens: 100, output_tokens: 50 },
        model: "mock-model".to_string(),
    }
}

fn final_response(text: &str) -> CompletionResponse {
    CompletionResponse {
        content: vec![ContentBlock::Text { text: text.to_string() }],
        reasoning: vec![],
        stop_reason: StopReason::EndTurn,
        usage: TokenUsage { input_tokens: 150, output_tokens: 60 },
        model: "mock-model".to_string(),
    }
}

#[test]
fn react_loop_runs_a_tool_then_answers() {
    let mut run = ReactLoop::start(Vec::new(), "hello", 5);
    assert_eq!(run.messages.len(), 1);
    assert!(run.has_turns_left());
    let first = tool_use_response();
    run.record_tokens(first.usage.input_tokens, first.usage.output_tokens);
    let calls = match run.on_response(&first) {
        Decision::CallTools { calls, thinking } => {
            assert!(thinking.is_none());
            calls
        }
        Decision::Finish { .. } => panic!("expected tool calls"),
    };
    assert_eq!(calls.len(), 1);
    assert_eq!(calls[0].name, "echo");
    let mut step_calls = Vec::new();
    let (text, is_error) = run.on_tool_outcome(&calls[0], &Ok(ToolResult::ok(j(r#"{"message": "hi"}"#))), &mut step_calls);
    assert_eq!(text, r#"{"message":"hi"}"#);
    assert!(!is_error);
    run.end_tool_turn(None, step_calls);
    let second = final_response("done");
    run.record_tokens(second.usage.input_tokens, second.usage.output_tokens);
    match run.on_response(&second) {
        Decision::Finish { message } => assert_eq!(message, "done"),
        Decision::CallTools { .. } => panic!("expected the final reply"),
    }
    assert_eq!(run.turn, 2);
    assert_eq!(run.usage.llm_calls, 2);
    assert_eq!(run.usage.tool_calls, 1);
    assert_eq!(run.usage.input_tokens, 250);
    assert_eq!(run.usage.output_tokens, 110);
    assert_eq!(run.steps.len(), 1);
    // user, assistant tool call, tool result
    assert_eq!(run.messages.len(), 3);
}

#[test]
fn react_loop_stops_after_its_turns() {
    let mut run = ReactLoop::start(Vec::new(), "loop", 1);
    assert!(matches!(run.on_response(&tool_use_response()), Decision::CallTools { .. }));
    assert!(!run.has_turns_left());
    match run.out_of_turns("triage") {
        CasperError::Internal(m) => assert_eq!(m, "Agent 'triage' exceeded maximum turns (1)"),
        _ => panic!("expected an internal error"),
    }
}

#[test]
fn react_loop_reports_tool_errors() {
    let mut run = ReactLoop::start(Vec::new(), "x", 3);
    let call = ToolCall { id: "c1".to_string(), name: "missing".to_string(), input: Json::Null };
    let mut step_calls = Vec::new();
    let (text, is_error) = run.on_tool_outcome(&call, &Err(CasperError::BadRequest("unknown tool: missing".to_string())), &mut step_calls);
    assert!(is_error);
    assert_eq!(text, "Tool error: Bad request: unknown tool: missing");
}

// ── System prompt ───────────────────────────────────────────────

fn inputs() -> AssemblyInputs {
    AssemblyInputs {
        agent_name: "triage".to_string(),
        tenant_name: "Acme".to_string(),
        datetime: "Monday, 6 January 2025, 10:00 UTC (11:00 CET, Europe/Zurich) \u{2014} Q1, day 6/365".to_string(),
        tenant_memory: Some("Office closes at 5.".to_string()),
        agent_memory: Some(String::new()),
        snippets: vec![("tone".to_string(), "Be polite.".to_string())],
    }
}

#[test]
fn system_prompt_sections_in_order() {
    let stack = j(r#"[
        {"type": "text", "label": "Role", "content": "You triage tickets."},
        {"type": "environment", "label": "Env"},
        {"type": "variable", "label": "Region", "key": "region", "value": "EU"},
        {"type": "snippet", "label": "Tone", "snippet_name": "tone"},
        {"type": "snippet", "label": "Missing", "snippet_name": "absent"},
        {"type": "agent_memory", "label": "Mine"},
        {"type": "tenant_memory", "label": "Shared"},
        {"type": "text", "label": "Empty", "content": ""}
    ]"#);
    let prompt = assemble_system_prompt(&stack, &j("{}"), &inputs());
    assert!(prompt.starts_with(PLATFORM_PREAMBLE));
    let rest = &prompt[PLATFORM_PREAMBLE.len()..];
    let expected = format!(
        "\n\nYou triage tickets.\n\nCurrent date/time: {}\nAgent: triage\nTenant: Acme\n\n## Region\n\nregion: EU\n\nBe polite.\n\n## Shared Knowledge\n\nOffice closes at 5.",
        inputs().datetime
    );
    assert_eq!(rest, expected);
}

#[test]
fn system_prompt_invalid_stack_is_empty() {
    // One malformed block makes the whole stack unreadable.
    let stack = j(r#"[{"type": "text", "label": "Role", "content": "x"}, {"type": "bogus", "label": "?"}]"#);
    let prompt = assemble_system_prompt(&stack, &j("{}"), &inputs());
    assert_eq!(prompt, PLATFORM_PREAMBLE);
}

#[test]
fn tool_documentation_for_configured_tools() {
    assert_eq!(generate_tool_documentation(&j("{}")), "");
    assert_eq!(generate_tool_documentation(&j(r#"{"builtin": [], "mcp": []}"#)), "");
    let doc = generate_tool_documentation(&j(r#"{"builtin": [{"name": "web_search", "max_results": 3},
        {"name": "web_fetch", "timeout_secs": 10, "max_response_bytes": 2048}, {"name": "custom"}],
        "mcp": [{"name": "jira"}]}"#));
    assert!(doc.starts_with("## Tool Reference\n\n"));
    assert!(doc.contains("### web_search\nSearch the web. Returns up to 3 results.\n\n"));
    assert!(doc.contains("### web_fetch\nFetch the content of a URL. Timeout: 10s, max response: 2KB.\n\n"));
    assert!(doc.contains("### custom\nBuilt-in tool. Refer to platform documentation for usage.\n\n"));
    assert!(doc.ends_with("### MCP: jira\nExternal tools discovered dynamically from this server. Call them by their discovered name with the parameters shown in their schema.\n\n"));
    let web_search = doc.find("### web_search").unwrap();
    let web_fetch = doc.find("### web_fetch").unwrap();
    assert!(web_search < web_fetch);
}

#[test]
fn datetime_line_format() {
    let parts = DateParts {
        weekday: "Friday".to_string(),
        day_month_year: "4 July 2025".to_string(),
        utc_time: "08:30".to_string(),
        local_time: "10:30".to_string(),
        zone_abbr: "CEST".to_string(),
        month: 7,
        year: 2025,
        day_of_year: "185".to_string(),
    };
    assert_eq!(datetime_text(&parts), "Friday, 4 July 2025, 08:30 UTC (10:30 CEST, Europe/Zurich) \u{2014} Q3, day 185/365");
    let leap = DateParts { zone_abbr: "GMT".to_string(), month: 12, year: 2024, ..parts };
    assert_eq!(datetime_text(&leap), "Friday, 4 July 2025, 08:30 UTC (10:30 CET, Europe/Zurich) \u{2014} Q4, day 185/366");
}

// ── Loop helpers ────────────────────────────────────────────────

#[test]
fn max_turns_capped() {
    assert_eq!(effective_max_turns(5), 5);
    assert_eq!(effective_max_turns(100), 25);
    assert_eq!(effective_max_turns(-1), 25);
    assert_eq!(effective_max_turns(0), 0);
}

#[test]
fn sentinels_read_back() {
    let delegate = DelegateTool.execute(&j(r#"{"agent": "billing", "message": "refund #7"}"#)).ok().unwrap();
    assert_eq!(delegation_request(&delegate.content), Some(("billing".to_string(), "refund #7".to_string())));
    assert_eq!(delegation_request(&j(r#"{"__delegate__": false, "agent": "x"}"#)), None);
    let ask = AskUserTool.execute(&j(r#"{"question": "Which?", "options": ["A", 3, "B"]}"#)).ok().unwrap();
    assert_eq!(ask_user_request(&ask.content), Some(("Which?".to_string(), vec!["A".to_string(), "B".to_string()])));
    assert_eq!(ask_user_request(&j("{}")), None);
    assert_eq!(mcp_oauth_request(&j(r#"{"__mcp_oauth_required__": true, "mcp_server_url": "https://mcp"}"#)),
        Some("https://mcp".to_string()));
    assert_eq!(mcp_oauth_request(&j(r#"{"mcp_server_url": "https://mcp"}"#)), None);
}

#[test]
fn delegation_limits_and_results() {
    assert_eq!(delegate_settings(&j(r#"{"builtin": [{"name": "web_search"}, {"name": "delegate", "timeout_secs": 60, "max_depth": 2}]}"#)), (60, 2));
    assert_eq!(delegate_settings(&j(r#"{"builtin": [{"name": "delegate"}]}"#)), (300, 3));
    assert_eq!(delegate_settings(&j("{}")), (300, 3));
    assert!(delegation_refusal(1, 3, "triage", "billing").is_none());
    let refused = delegation_refusal(3, 3, "triage", "billing").unwrap();
    assert!(refused.is_error);
    assert_eq!(v(&refused.content), str_value("Maximum delegation depth (3) exceeded. Cannot delegate from 'triage' to 'billing'."));
    let ok = delegation_result("billing", 60, DelegationOutcome::Replied("done".to_string()));
    assert!(!ok.is_error);
    assert_eq!(v(&ok.content), str_value("done"));
    let failed = delegation_result("billing", 60, DelegationOutcome::Failed(CasperError::NotFound("agent 'billing'".to_string())));
    assert_eq!(v(&failed.content), str_value("Agent 'billing' failed: Resource not found: agent 'billing'"));
    let late = delegation_result("billing", 60, DelegationOutcome::TimedOut);
    assert!(late.is_error);
    assert_eq!(v(&late.content), str_value("Delegation to 'billing' timed out after 60s"));
}

#[test]
fn waiting_results() {
    assert_eq!(v(&ask_user_result(UserReply::Answer("B".to_string())).content), str_value("B"));
    assert_eq!(v(&ask_user_result(UserReply::TimedOut).content), str_value("User did not respond within 5 minutes."));
    assert_eq!(v(&ask_user_result(UserReply::Closed).content), str_value("User did not respond (channel closed)."));
    assert_eq!(v(&connect_timeout_result("github").content), str_value("User did not connect github within the timeout."));
    assert!(mcp_oauth_timeout_result().is_error);
    assert_eq!(v(&mcp_oauth_unavailable_result("https://mcp").content),
        str_value("MCP server at https://mcp requires OAuth but the flow could not be started."));
}

#[test]
fn tool_uses_and_history_messages() {
    let content = vec![
        ContentBlock::Text { text: "let me check".to_string() },
        ContentBlock::ToolUse { id: "a".to_string(), name: "f".to_string(), input: Json::Null },
        ContentBlock::ToolUse { id: "b".to_string(), name: "g".to_string(), input: Json::Null },
    ];
    let calls = tool_uses(&content);
    assert_eq!(calls.iter().map(|c| (c.id.as_str(), c.name.as_str())).collect::<Vec<_>>(), vec![("a", "f"), ("b", "g")]);
    let history = vec![
        HistoryMessage { role: "user".to_string(), content: j(r#""hi""#), token_count: 1 },
        HistoryMessage { role: "bogus".to_string(), content: j(r#""skip""#), token_count: 1 },
        HistoryMessage { role: "assistant".to_string(), content: j(r#""hello""#), token_count: 1 },
    ];
    let msgs = history_to_messages(&history);
    assert_eq!(msgs.len(), 2);
    assert!(matches!(msgs[0].role, LlmRole::User));
    assert!(matches!(msgs[1].role, LlmRole::Assistant));
}

fn str_value(text: &str) -> serde_json::Value {
    serde_json::Value::String(text.to_string())
}

// ── Streaming a run ─────────────────────────────────────────────

#[test]
fn streamed_blocks_forwarded_and_kept() {
    let mut turn = StreamedTurn::new();
    assert!(matches!(turn.on_block(ContentBlock::Thinking { text: "hmm".to_string() }), Some(StreamEvent::Thinking { delta }) if delta == "hmm"));
    assert!(matches!(turn.on_block(ContentBlock::Text { text: "Hi".to_string() }), Some(StreamEvent::ContentDelta { delta }) if delta == "Hi"));
    assert!(matches!(turn.on_block(ContentBlock::ToolUse { id: "t1".to_string(), name: "f".to_string(), input: Json::Null }),
        Some(StreamEvent::ToolCallStart { id, name, .. }) if id == "t1" && name == "f"));
    assert!(turn.on_block(ContentBlock::ToolResult { tool_use_id: "x".to_string(), content: String::new(), is_error: false }).is_none());
    assert_eq!(turn.content.len(), 3);
    assert_eq!(turn.reasoning.len(), 1);
    let call = ToolCall { id: "t1".to_string(), name: "f".to_string(), input: Json::Null };
    assert!(matches!(tool_result_event(&call, "ok", false), StreamEvent::ToolResult { id, content, is_error: false, .. } if id == "t1" && content == "ok"));
    let usage = AgentUsage { input_tokens: 5, output_tokens: 6, cache_read_tokens: 1, cache_write_tokens: 2, llm_calls: 1, tool_calls: 0, duration_ms: 0 };
    match done_event("conv-1", &usage) {
        StreamEvent::Done { conversation_id, input_tokens, output_tokens, cache_read_tokens, cache_write_tokens } => {
            assert_eq!(conversation_id, "conv-1");
            assert_eq!((input_tokens, output_tokens), (5, 6));
            assert_eq!((cache_read_tokens, cache_write_tokens), (Some(1), Some(2)));
        }
        _ => panic!("expected done"),
    }
    assert!(matches!(out_of_turns_event("triage", 3), StreamEvent::Error { message } if message == "Agent 'triage' exceeded maximum turns (3)"));
}

#[test]
fn requests_in_flight_bookkeeping() {
    let mut f = InFlight::new();
    f.begin("req-1".to_string());
    f.begin("req-2".to_string());
    assert_eq!(f.active(), 2);
    assert!(f.is_pending("req-1"));
    assert!(f.finish("req-1"));
    assert!(!f.is_pending("req-1"));
    assert!(!f.finish("req-1"));
    assert_eq!(f.active(), 0);
    assert!(f.is_pending("req-2"));
}
