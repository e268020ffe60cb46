use base64::Engine;
use casper::codec::{from_serde, to_serde};
use casper::connection::{
    alnum_char, authorization_url, available_providers, callback_url, code_exchange_form, decode_oauth_state,
    form_urlencode, generate_random_string, granted_scopes, needs_refresh, not_connected_error, pkce_challenge,
    refresh_form, refresh_rejected_error, seal_tokens, start_oauth_flow, state_from_json, state_json, token_expiry,
    token_plan, OAuthState, ProviderConfig, ProviderListing, StoredTokens, TokenPlan, TokenResponse,
};
use casper::error::CasperError;
use casper::json::Json;
use casper::mcp_connection::{
    default_auth_type, extract_mcp_names, resolve_connection, resolve_connections, sealed_api_key, updated_api_key,
    CreateMcpConnectionRequest, McpConnectionRow,
};
use casper::react::{connect_required_provider, AgentResponse, AgentStep, AgentUsage};
use casper::requests::{
    CreateSnippetRequest, UpdateSnippetRequest,
    check_outcome, default_page, default_per_page, default_priority, default_retry_attempts, default_retry_backoff_ms,
    default_timeout_ms, default_true, page_window, validate_feedback, CreateFeedbackRequest, ListConversationsParams,
};
use casper::run::{
    conversation_title, default_source, placeholder_reply, reply_message, run_reply, task_status, token_count,
    MessageResponse,
};
use casper::training::{
    group_conversations, training_pair, validate_export, CorrectionRow, ExportKind, ExportParams, MessageRow,
    QualityRow,
};
use casper::types::TenantId;
use casper::vault::Vault;
use casper::wire::{
    ack_config, admit_agent_key, agent_key_hash, api_key_material, bearer_token, default_max_concurrent, hex_encode,
    new_api_key, new_request_id, registration_step, session_step, stream_step, streaming_request, RegistrationFrame,
    RegistrationStep, SessionAction, SessionEvent, StreamStep, WireEvent, WireToolCall, WireUsage, WsMessage,
};

fn j(text: &str) -> Json {
    from_serde(&serde_json::from_str(text).unwrap())
}

fn v(x: &Json) -> serde_json::Value {
    to_serde(x)
}

fn s(text: &str) -> serde_json::Value {
    serde_json::from_str(text).unwrap()
}

fn sha256_hex(data: &[u8]) -> String {
    let d = ring::digest::digest(&ring::digest::SHA256, data);
    d.as_ref().iter().map(|b| format!("{b:02x}")).collect()
}

fn vault() -> Vault {
    Vault::new(b"test-master-key-32-bytes-long!!!".to_vec())
}

fn provider() -> ProviderConfig {
    ProviderConfig {
        authorization_url: "https://auth.example.com/authorize".to_string(),
        token_url: "https://auth.example.com/token".to_string(),
        revocation_url: None,
        client_id: "client 1".to_string(),
        client_secret: "s3cret".to_string(),
        default_scopes: "read write".to_string(),
    }
}

// ── OAuth connections ───────────────────────────────────────────

#[test]
fn alnum_indices_map_to_digits_then_letters() {
    assert_eq!(alnum_char(0), '0');
    assert_eq!(alnum_char(9), '9');
    assert_eq!(alnum_char(10), 'a');
    assert_eq!(alnum_char(35), 'z');
    assert_eq!(alnum_char(36), 'A');
    assert_eq!(alnum_char(61), 'Z');
}

#[test]
fn random_strings_have_length_and_alphabet() {
    let r = generate_random_string(64);
    assert_eq!(r.chars().count(), 64);
    assert!(r.chars().all(|c| c.is_ascii_alphanumeric()));
    assert_eq!(generate_random_string(0), "");
}

#[test]
fn pkce_challenge_is_base64url_sha256() {
    let verifier = "dBjftJeZ4CVP-mtALYsmqtD0cEnxLX3BjMh3GBpYs8Q";
    let digest = ring::digest::digest(&ring::digest::SHA256, verifier.as_bytes());
    let expected = base64::engine::general_purpose::URL_SAFE_NO_PAD.encode(digest.as_ref());
    assert_eq!(pkce_challenge(verifier), expected);
    assert_ne!(pkce_challenge(verifier), verifier);
}

#[test]
fn form_encoding_of_pairs() {
    let pairs: Vec<(&str, &str)> = vec![("a b", "x&y=z"), ("k", "é*-._~")];
    assert_eq!(form_urlencode(&pairs), "a+b=x%26y%3Dz&k=%C3%A9*-._%7E");
    assert_eq!(form_urlencode(&Vec::new()), "");
}

#[test]
fn authorization_url_query() {
    let url = authorization_url(&provider(), "https://casper.example/api/v1/connections/callback", "st", "ch");
    assert_eq!(
        url,
        "https://auth.example.com/authorize?client_id=client+1\
         &redirect_uri=https%3A%2F%2Fcasper.example%2Fapi%2Fv1%2Fconnections%2Fcallback\
         &response_type=code&scope=read+write&state=st&code_challenge=ch&code_challenge_method=S256\
         &access_type=offline&prompt=consent"
    );
}

#[test]
fn callback_under_redirect_base() {
    assert_eq!(callback_url("https://x.io"), "https://x.io/api/v1/connections/callback");
}

fn query_param(url: &str, name: &str) -> String {
    let query = url.split_once('?').unwrap().1;
    for pair in query.split('&') {
        let (k, val) = pair.split_once('=').unwrap();
        if k == name {
            return val.to_string();
        }
    }
    panic!("missing {name}");
}

#[test]
fn state_survives_the_flow_for_the_platform_tenant() {
    let vault = vault();
    let url = start_oauth_flow(&vault, &provider(), TenantId(0), "user:alice", "google", "https://x.io").unwrap();
    assert!(url.starts_with("https://auth.example.com/authorize?client_id=client+1&"));
    let state = query_param(&url, "state");
    let decoded = decode_oauth_state(&vault, &state).unwrap().unwrap();
    assert_eq!(decoded.tenant_id, 0);
    assert_eq!(decoded.user_subject, "user:alice");
    assert_eq!(decoded.provider, "google");
    assert_eq!(decoded.pkce_verifier.len(), 64);
    assert_eq!(decoded.nonce.len(), 32);
    assert_eq!(query_param(&url, "code_challenge"), pkce_challenge(&decoded.pkce_verifier));
}

#[test]
fn state_of_another_tenant_is_opened_with_the_platform_key() {
    let vault = vault();
    let url = start_oauth_flow(&vault, &provider(), TenantId(5), "user:alice", "google", "https://x.io").unwrap();
    let state = query_param(&url, "state");
    match decode_oauth_state(&vault, &state) {
        Some(Err(CasperError::BadRequest(m))) => assert_eq!(m, "invalid or expired state parameter"),
        _ => panic!("expected the state to be refused"),
    }
}

#[test]
fn malformed_state_refused() {
    match decode_oauth_state(&vault(), "!!!") {
        Some(Err(CasperError::BadRequest(m))) => assert_eq!(m, "invalid state parameter"),
        _ => panic!("expected a bad request"),
    }
    let not_utf8 = base64::engine::general_purpose::URL_SAFE_NO_PAD.encode([0xffu8, 0xfe]);
    match decode_oauth_state(&vault(), &not_utf8) {
        Some(Err(CasperError::BadRequest(m))) => assert_eq!(m, "invalid state encoding"),
        _ => panic!("expected a bad request"),
    }
}

#[test]
fn sealed_state_that_is_not_a_state_is_corrupted() {
    let vault = vault();
    let sealed = vault.encrypt_value(TenantId(0), b"[1, 2]").unwrap();
    let param = base64::engine::general_purpose::URL_SAFE_NO_PAD.encode(sealed.as_bytes());
    match decode_oauth_state(&vault, &param) {
        Some(Err(CasperError::BadRequest(m))) => assert_eq!(m, "corrupted state parameter"),
        _ => panic!("expected a bad request"),
    }
}

#[test]
fn state_json_roundtrip() {
    let st = OAuthState {
        tenant_id: 42,
        user_subject: "u".to_string(),
        provider: "p".to_string(),
        pkce_verifier: "v".to_string(),
        nonce: "n".to_string(),
    };
    let back = state_from_json(&state_json(&st)).unwrap();
    assert_eq!((back.tenant_id, back.user_subject, back.provider, back.pkce_verifier, back.nonce),
        (42, "u".to_string(), "p".to_string(), "v".to_string(), "n".to_string()));
    let arr = j(r#"["00000000-0000-0000-0000-000000000001", "u", "p", "v", "n"]"#);
    assert_eq!(state_from_json(&arr).unwrap().tenant_id, 1);
    assert!(state_from_json(&j(r#"{"tenant_id": "x"}"#)).is_none());
}

#[test]
fn token_forms() {
    let f = code_exchange_form("abc", "https://cb", &provider(), "ver");
    let names: Vec<&str> = f.iter().map(|(k, _)| k.as_str()).collect();
    assert_eq!(names, vec!["grant_type", "code", "redirect_uri", "client_id", "client_secret", "code_verifier"]);
    assert_eq!(f[0].1, "authorization_code");
    assert_eq!(f[5].1, "ver");
    let r = refresh_form("rt", &provider());
    assert_eq!(r[0], ("grant_type".to_string(), "refresh_token".to_string()));
    assert_eq!(r[1], ("refresh_token".to_string(), "rt".to_string()));
    assert_eq!(r[3], ("client_secret".to_string(), "s3cret".to_string()));
}

#[test]
fn expiry_and_scopes_of_tokens() {
    assert_eq!(token_expiry(1000, Some(3600)), Some(4600));
    assert_eq!(token_expiry(1000, None), None);
    let tokens = TokenResponse {
        access_token: "at".to_string(),
        refresh_token: None,
        expires_in: None,
        scope: None,
        token_type: None,
    };
    assert_eq!(granted_scopes(&tokens, "read"), "read");
    let t2 = TokenResponse { scope: Some("all".to_string()), ..tokens };
    assert_eq!(granted_scopes(&t2, "read"), "all");
}

#[test]
fn sealed_tokens_open_to_the_tokens() {
    let vault = vault();
    let tenant = TenantId(9);
    let tokens = TokenResponse {
        access_token: "access-1".to_string(),
        refresh_token: Some("refresh-1".to_string()),
        expires_in: Some(60),
        scope: None,
        token_type: Some("Bearer".to_string()),
    };
    let sealed = seal_tokens(&vault, tenant, &tokens, 100).unwrap();
    assert_eq!(sealed.token_expires_at, Some(160));
    assert_eq!(vault.decrypt_value(tenant, &sealed.access_token_enc).unwrap().expose_str().unwrap(), "access-1");
    let r = sealed.refresh_token_enc.unwrap();
    assert_eq!(vault.decrypt_value(tenant, &r).unwrap().expose_str().unwrap(), "refresh-1");
}

#[test]
fn refresh_within_five_minutes() {
    assert!(needs_refresh(Some(1299), 1000));
    assert!(!needs_refresh(Some(1300), 1000));
    assert!(!needs_refresh(None, 1000));
}

#[test]
fn token_plans() {
    match token_plan(None, "bob", "github", 0) {
        Err(CasperError::Forbidden(m)) => assert_eq!(
            m,
            "User 'bob' has not connected 'github'. They need to connect it in Settings > Connections."
        ),
        _ => panic!("expected forbidden"),
    }
    let stored = |exp: Option<i64>, refresh: Option<&str>| StoredTokens {
        access_token_enc: "acc".to_string(),
        refresh_token_enc: refresh.map(|r| r.to_string()),
        token_expires_at: exp,
    };
    assert!(matches!(token_plan(Some(stored(None, None)), "bob", "github", 0), Ok(TokenPlan::UseStored(a)) if a == "acc"));
    assert!(matches!(token_plan(Some(stored(Some(100), Some("ref"))), "bob", "github", 0), Ok(TokenPlan::Refresh(r)) if r == "ref"));
    match token_plan(Some(stored(Some(100), None)), "bob", "github", 0) {
        Err(CasperError::Forbidden(m)) => assert_eq!(
            m,
            "User 'bob's 'github' token has expired and cannot be refreshed. They need to reconnect in Settings > Connections."
        ),
        _ => panic!("expected forbidden"),
    }
}

#[test]
fn refusal_names_the_provider_to_connect() {
    let e = not_connected_error("alice@x.ch", "google");
    assert_eq!(connect_required_provider(&e), Some("google".to_string()));
}

#[test]
fn refresh_rejection_text() {
    match refresh_rejected_error("bob", "gh", "bad grant") {
        CasperError::Forbidden(m) => assert_eq!(m, "Token refresh failed for 'bob' on 'gh': bad grant. They may need to reconnect."),
        _ => panic!("expected forbidden"),
    }
}

#[test]
fn available_providers_marks_connections() {
    let listing = |n: &str, active: bool| ProviderListing {
        name: n.to_string(),
        display_name: n.to_uppercase(),
        icon_url: None,
        is_active: active,
    };
    let providers = vec![listing("github", true), listing("slack", false), listing("google", true)];
    let out = available_providers(&providers, &vec!["google".to_string()]);
    assert_eq!(out.len(), 2);
    assert_eq!((out[0].name.as_str(), out[0].connected), ("github", false));
    assert_eq!((out[1].name.as_str(), out[1].connected), ("google", true));
    assert_eq!(out[1].display_name, "GOOGLE");
}

// ── Agent backend link ──────────────────────────────────────────

fn register(backend_id: u128) -> WsMessage {
    WsMessage::Register {
        backend_id,
        hostname: "gpu-1".to_string(),
        inference_server: None,
        inference_version: None,
        models_loaded: vec![],
        max_concurrent: 4,
        gpu_info: None,
    }
}

#[test]
fn registration_steps() {
    assert!(matches!(registration_step(RegistrationFrame::Text(Ok(register(7))), 7),
        RegistrationStep::Registered(h, 4) if h == "gpu-1"));
    assert!(matches!(registration_step(RegistrationFrame::Text(Ok(register(8))), 7),
        RegistrationStep::Rejected(CasperError::Forbidden(m)) if m == "backend_id does not match authenticated key"));
    assert!(matches!(registration_step(RegistrationFrame::Text(Ok(WsMessage::Ping { timestamp: "t".into() })), 7),
        RegistrationStep::Rejected(CasperError::BadRequest(m)) if m == "expected register message"));
    assert!(matches!(registration_step(RegistrationFrame::Text(Err("eof".into())), 7),
        RegistrationStep::Rejected(CasperError::BadRequest(m)) if m == "invalid registration message: eof"));
    assert!(matches!(registration_step(RegistrationFrame::Close, 7),
        RegistrationStep::Rejected(CasperError::BadRequest(m)) if m == "connection closed before registration"));
    assert!(matches!(registration_step(RegistrationFrame::Other, 7), RegistrationStep::Wait));
    assert!(matches!(registration_step(RegistrationFrame::Failed("reset".into()), 7),
        RegistrationStep::Rejected(CasperError::Internal(m)) if m == "WebSocket error: reset"));
}

#[test]
fn ack_config_prefers_backend_setting() {
    assert_eq!(default_max_concurrent(), 8);
    assert_eq!(ack_config(&j(r#"{"max_concurrent": 16}"#), "h", 4).max_concurrent, 16);
    assert_eq!(ack_config(&j(r#"{"max_concurrent": "x"}"#), "h", 4).max_concurrent, 4);
    assert_eq!(ack_config(&j("{}"), "h", 4).hostname, Some("h".to_string()));
    assert_eq!(casper::wire::RegisterAckConfig::default().max_concurrent, 0);
}

#[test]
fn session_steps() {
    let resp = WsMessage::InferenceResponse {
        id: "req-1".into(),
        status: "ok".into(),
        message: None,
        usage: None,
        duration_ms: None,
        stop_reason: None,
    };
    assert!(matches!(session_step(&SessionEvent::Message(Ok(resp))), SessionAction::Deliver(id) if id == "req-1"));
    let pong = WsMessage::Pong { timestamp: "t".into(), active_requests: 0, queue_depth: 0 };
    assert!(matches!(session_step(&SessionEvent::Message(Ok(pong))), SessionAction::Continue));
    assert!(matches!(session_step(&SessionEvent::Message(Err("bad".into()))), SessionAction::Continue));
    assert!(matches!(session_step(&SessionEvent::TimedOut), SessionAction::Stop));
    assert!(matches!(session_step(&SessionEvent::Closed), SessionAction::Stop));
}

#[test]
fn streaming_request_fields() {
    let req = j(r#"{"model": "llama", "messages": [{"role": "user", "content": "hi"}], "max_tokens": 100,
        "tools": [{"type": "function"}]}"#);
    let w = streaming_request(&req, "req-9");
    assert_eq!(w.id, "req-9");
    assert_eq!(w.model, "llama");
    assert_eq!(w.messages.len(), 1);
    assert_eq!(w.timeout_ms, 120_000);
    let p = v(&w.params);
    assert_eq!(p, s(r#"{"max_tokens": 100, "temperature": null, "stream": true}"#));
    assert_eq!(v(&w.extra.unwrap()), s(r#"{"tools": [{"type": "function"}]}"#));
    let bare = streaming_request(&j(r#"{"timeout_ms": 5}"#), "r");
    assert_eq!((bare.model.as_str(), bare.messages.len(), bare.timeout_ms), ("", 0, 5));
    assert!(bare.extra.is_none());
}

#[test]
fn stream_steps() {
    match stream_step(&WireEvent::Chunk { delta: "he".into() }) {
        StreamStep::Emit(x) => assert_eq!(v(&x), s(r#"{"delta": "he"}"#)),
        _ => panic!("expected a chunk"),
    }
    match stream_step(&WireEvent::ToolCall(WireToolCall { tool_index: 1, tool_call_id: "c".into(), name: "n".into() })) {
        StreamStep::Emit(x) => assert_eq!(v(&x), s(r#"{"tool_call_start": {"tool_index": 1, "tool_call_id": "c", "name": "n"}}"#)),
        _ => panic!("expected a chunk"),
    }
    match stream_step(&WireEvent::Done { usage: Some(WireUsage { input_tokens: 3, output_tokens: 4 }) }) {
        StreamStep::Last(x) => assert_eq!(v(&x), s(r#"{"done": true, "usage": {"input_tokens": 3, "output_tokens": 4}}"#)),
        _ => panic!("expected the last chunk"),
    }
    match stream_step(&WireEvent::Response { message: None, usage: None, stop_reason: None }) {
        StreamStep::Last(x) => assert_eq!(v(&x), s(r#"{"message": {"role": "assistant", "content": null, "tool_calls": null},
            "usage": {"input_tokens": 0, "output_tokens": 0}, "stop_reason": null}"#)),
        _ => panic!("expected the last chunk"),
    }
    assert!(matches!(stream_step(&WireEvent::Error { error: "e".into(), message: Some("m".into()) }),
        StreamStep::Fail(CasperError::BadGateway(m)) if m == "m"));
    assert!(matches!(stream_step(&WireEvent::Error { error: "e".into(), message: None }),
        StreamStep::Fail(CasperError::BadGateway(m)) if m == "e"));
    assert!(matches!(stream_step(&WireEvent::Other), StreamStep::Skip));
    assert!(matches!(stream_step(&WireEvent::TimedOut),
        StreamStep::Fail(CasperError::GatewayTimeout(m)) if m == "agent backend request timed out"));
    assert!(matches!(stream_step(&WireEvent::Dropped),
        StreamStep::Fail(CasperError::Unavailable(m)) if m == "agent backend connection dropped"));
}

#[test]
fn request_ids_are_simple_uuids() {
    let id = new_request_id();
    assert!(id.starts_with("req-"));
    assert_eq!(id.len(), 36);
    assert!(id[4..].chars().all(|c| c.is_ascii_hexdigit() && !c.is_ascii_uppercase()));
}

#[test]
fn hex_of_bytes() {
    assert_eq!(hex_encode(&[0x00, 0xab, 0x10, 0xff]), "00ab10ff");
    assert_eq!(hex_encode(&[]), "");
}

#[test]
fn agent_keys_hash_only_with_prefix() {
    assert_eq!(agent_key_hash("csa-abc"), Some(sha256_hex(b"csa-abc")));
    assert_eq!(agent_key_hash("csk-abc"), None);
}

#[test]
fn bearer_tokens() {
    assert_eq!(bearer_token(Some("Bearer abc")).unwrap(), "abc");
    assert!(matches!(bearer_token(Some("Basic abc")), Err(CasperError::Unauthorized)));
    assert!(matches!(bearer_token(None), Err(CasperError::Unauthorized)));
}

#[test]
fn agent_key_admission() {
    assert!(matches!(admit_agent_key(Some((5, true)), Some(true)), Ok(5)));
    assert!(matches!(admit_agent_key(Some((5, false)), Some(true)), Err(CasperError::Unauthorized)));
    assert!(matches!(admit_agent_key(Some((5, true)), Some(false)), Err(CasperError::Unauthorized)));
    assert!(matches!(admit_agent_key(None, None), Err(CasperError::Unauthorized)));
}

#[test]
fn api_key_material_of_uuid() {
    let m = api_key_material(0x0123_4567_89ab_cdef_0011_2233_4455_6677);
    assert_eq!(m.key, "csk-01234567-89ab-cdef-0011-223344556677");
    assert_eq!(m.key_prefix, "csk-01234567");
    assert_eq!(m.key_hash, sha256_hex(m.key.as_bytes()));
    let fresh = new_api_key();
    assert!(fresh.key.starts_with("csk-"));
    assert_eq!(fresh.key_prefix, &fresh.key[..12]);
}

// ── Training export ─────────────────────────────────────────────

fn export(format: &str, tier: Option<&str>) -> ExportParams {
    ExportParams {
        format: format.to_string(),
        tier: tier.map(|t| t.to_string()),
        agent: None,
        from: None,
        to: None,
        limit: casper::training::default_limit(),
    }
}

#[test]
fn export_validation() {
    assert_eq!(casper::training::default_format(), "jsonl");
    assert_eq!(casper::training::default_limit(), 1000);
    assert_eq!(validate_export(&export("jsonl", None)).unwrap(), ExportKind::Conversations);
    assert_eq!(validate_export(&export("pairs", Some("gold"))).unwrap(), ExportKind::Pairs);
    match validate_export(&export("csv", None)) {
        Err(CasperError::BadRequest(m)) => assert_eq!(m, "invalid format 'csv', must be one of: jsonl, pairs"),
        _ => panic!("expected a bad request"),
    }
    match validate_export(&export("jsonl", Some("platinum"))) {
        Err(CasperError::BadRequest(m)) => {
            assert_eq!(m, "invalid tier 'platinum', must be one of: gold, silver, bronze, excluded")
        }
        _ => panic!("expected a bad request"),
    }
}

#[test]
fn messages_grouped_under_their_conversations() {
    let conv = |id: u128| QualityRow {
        id,
        agent_name: "a".to_string(),
        outcome: None,
        created_at: 0,
        quality_tier: "gold".to_string(),
    };
    let msg = |c: u128, role: &str| MessageRow { conversation_id: c, role: role.to_string(), content: j("1"), created_at: 0 };
    let out = group_conversations(
        &vec![conv(2), conv(1), conv(3), conv(2)],
        &vec![msg(1, "user"), msg(2, "user"), msg(1, "assistant"), msg(2, "assistant"), msg(9, "user")],
    );
    assert_eq!(out.len(), 4);
    let roles = |k: usize| out[k].messages.iter().map(|m| m.role.clone()).collect::<Vec<_>>();
    assert_eq!(roles(0), vec!["user", "assistant"]);
    assert_eq!(roles(1), vec!["user", "assistant"]);
    assert!(roles(2).is_empty());
    assert!(roles(3).is_empty());
    assert_eq!(out[1].conversation_id, 1);
}

#[test]
fn pairs_default_user_message() {
    let row = CorrectionRow {
        conversation_id: 1,
        agent_name: "a".to_string(),
        rejected: j(r#""bad""#),
        correction: "good".to_string(),
        created_at: 5,
    };
    let p = training_pair(row, None);
    assert_eq!(v(&p.user_message), s(r#""""#));
    assert_eq!(p.chosen, "good");
    assert_eq!(v(&p.rejected), s(r#""bad""#));
}

// ── Requests ────────────────────────────────────────────────────

#[test]
fn request_defaults() {
    assert_eq!(default_priority(), 100);
    assert_eq!(default_page(), 1);
    assert_eq!(default_per_page(), 50);
    assert_eq!(default_retry_attempts(), 1);
    assert_eq!(default_retry_backoff_ms(), 1000);
    assert!(default_true());
    assert_eq!(default_timeout_ms(), 30000);
    assert_eq!(casper::requests::default_limit(), 100);
    assert_eq!(default_auth_type(), "none");
    assert_eq!(default_source(), "api");
}

fn listing(page: i64, per_page: i64) -> ListConversationsParams {
    ListConversationsParams { page, per_page, agent_name: None, status: None, outcome: None }
}

#[test]
fn page_windows() {
    assert_eq!(page_window(&listing(1, 50)), (50, 0));
    assert_eq!(page_window(&listing(3, 20)), (20, 40));
    assert_eq!(page_window(&listing(0, 500)), (100, 0));
    assert_eq!(page_window(&listing(2, -5)), (1, 1));
}

#[test]
fn outcome_check() {
    assert!(check_outcome("resolved").is_ok());
    assert!(check_outcome("duplicate").is_ok());
    match check_outcome("meh") {
        Err(CasperError::BadRequest(m)) => {
            assert_eq!(m, "invalid outcome 'meh', must be one of: resolved, unresolved, escalated, duplicate")
        }
        _ => panic!("expected a bad request"),
    }
}

fn feedback(kind: &str, rating: Option<i32>, correction: Option<&str>, tags: Vec<&str>) -> CreateFeedbackRequest {
    CreateFeedbackRequest {
        message_id: 1,
        feedback_type: kind.to_string(),
        rating,
        correction: correction.map(|c| c.to_string()),
        tags: tags.into_iter().map(|t| t.to_string()).collect(),
    }
}

fn refusal(r: Result<(), CasperError>) -> String {
    match r {
        Err(CasperError::BadRequest(m)) => m,
        _ => panic!("expected a bad request"),
    }
}

#[test]
fn feedback_validation() {
    assert!(validate_feedback(&feedback("rating", Some(1), None, vec![])).is_ok());
    assert!(validate_feedback(&feedback("rating", Some(-1), None, vec![])).is_ok());
    assert_eq!(refusal(validate_feedback(&feedback("rating", Some(5), None, vec![]))), "rating must be +1 or -1, got 5");
    assert_eq!(refusal(validate_feedback(&feedback("rating", None, None, vec![]))),
        "rating field is required for feedback_type 'rating'");
    assert!(validate_feedback(&feedback("correction", None, Some("fix"), vec![])).is_ok());
    assert_eq!(refusal(validate_feedback(&feedback("correction", None, Some(""), vec![]))),
        "correction field is required for feedback_type 'correction'");
    assert!(validate_feedback(&feedback("tag", None, None, vec!["x"])).is_ok());
    assert_eq!(refusal(validate_feedback(&feedback("tag", None, None, vec![]))),
        "tags field must not be empty for feedback_type 'tag'");
    assert_eq!(refusal(validate_feedback(&feedback("like", None, None, vec![]))),
        "invalid feedback_type 'like', must be one of: rating, correction, tag");
}

// ── MCP connections ─────────────────────────────────────────────

#[test]
fn mcp_names_from_tools_config() {
    let names = extract_mcp_names(&j(r#"{"mcp": ["jira", 3, "docs"], "builtin": ["web_fetch"]}"#));
    assert_eq!(names, vec!["jira".to_string(), "docs".to_string()]);
    assert!(extract_mcp_names(&j(r#"{"mcp": "jira"}"#)).is_empty());
    assert!(extract_mcp_names(&j("[]")).is_empty());
}

fn create_req(auth: &str, key: Option<&str>) -> CreateMcpConnectionRequest {
    CreateMcpConnectionRequest {
        name: "jira".to_string(),
        display_name: "Jira".to_string(),
        url: "https://mcp".to_string(),
        auth_type: auth.to_string(),
        api_key: key.map(|k| k.to_string()),
        auth_provider: None,
    }
}

#[test]
fn only_bearer_keys_are_sealed() {
    let vault = vault();
    let t = TenantId(3);
    let sealed = sealed_api_key(&vault, t, &create_req("bearer", Some("k1"))).unwrap().unwrap();
    assert_eq!(vault.decrypt_value(t, &sealed).unwrap().expose_str().unwrap(), "k1");
    assert!(sealed_api_key(&vault, t, &create_req("bearer", Some(""))).unwrap().is_none());
    assert!(sealed_api_key(&vault, t, &create_req("none", Some("k1"))).unwrap().is_none());
    assert!(updated_api_key(&vault, t, "").unwrap().is_none());
    assert!(updated_api_key(&vault, t, "k2").unwrap().is_some());
}

#[test]
fn connections_resolve_with_opened_keys() {
    let vault = vault();
    let t = TenantId(3);
    let enc = vault.encrypt_value(t, b"token-1").unwrap();
    let row = |key: Option<String>| McpConnectionRow {
        name: "jira".to_string(),
        url: "https://mcp".to_string(),
        auth_type: "bearer".to_string(),
        api_key_enc: key,
        auth_provider: Some("atlassian".to_string()),
    };
    let c = resolve_connection(&vault, t, row(Some(enc.clone()))).unwrap().unwrap();
    assert_eq!(c.api_key, Some("token-1".to_string()));
    assert_eq!(c.auth_provider, Some("atlassian".to_string()));
    let none = resolve_connection(&vault, t, row(Some(String::new()))).unwrap().unwrap();
    assert!(none.api_key.is_none());
    let all = resolve_connections(&vault, t, &vec![row(None), row(Some(enc))]).unwrap().unwrap();
    assert_eq!(all.len(), 2);
    assert_eq!(all[1].api_key, Some("token-1".to_string()));
    assert!(matches!(resolve_connections(&vault, t, &vec![row(Some("garbage".to_string()))]),
        Some(Err(CasperError::Internal(_)))));
}

// ── Runs ────────────────────────────────────────────────────────

#[test]
fn titles_are_cut_at_fifty_bytes() {
    assert_eq!(conversation_title("short question"), "short question");
    let long = "x".repeat(60);
    assert_eq!(conversation_title(&long), format!("{}...", "x".repeat(50)));
    let exactly = "y".repeat(50);
    assert_eq!(conversation_title(&exactly), exactly);
    let multi = format!("{}é{}", "a".repeat(48), "b".repeat(10));
    assert_eq!(conversation_title(&multi), format!("{}é...", "a".repeat(48)));
}

#[test]
fn placeholder_names_agent_and_message() {
    assert_eq!(
        placeholder_reply("triage", "hello"),
        "[Placeholder] Agent 'triage' received your message but the LLM backend is unavailable. Message: hello"
    );
    let long = "z".repeat(150);
    assert!(placeholder_reply("a", &long).ends_with(&format!("Message: {}", "z".repeat(100))));
}

#[test]
fn run_replies() {
    let resp = AgentResponse {
        message: "done".to_string(),
        conversation_id: 1,
        usage: AgentUsage { input_tokens: 5, output_tokens: 6, cache_read_tokens: 0, cache_write_tokens: 0,
            llm_calls: 2, tool_calls: 1, duration_ms: 30 },
        correlation_id: 2,
        steps: vec![AgentStep { thinking: Some("t".to_string()), tool_calls: None }],
    };
    let ok = run_reply(Ok(resp), "a", "m");
    assert_eq!(ok.assistant_text, "done");
    assert_eq!(ok.usage.llm_calls, 2);
    assert_eq!(ok.steps.len(), 1);
    assert!(!ok.persist_exchange);

    let failed = run_reply(Err(CasperError::Unavailable("down".into())), "a", "m");
    assert!(failed.assistant_text.starts_with("[Placeholder] Agent 'a'"));
    assert_eq!(failed.usage.input_tokens, 0);
    assert!(failed.steps.is_empty());
    assert!(failed.persist_exchange);
}

#[test]
fn token_counts_and_messages() {
    assert_eq!(token_count("abcdefgh"), 2);
    assert_eq!(token_count("abc"), 0);
    let fresh = reply_message(None, "hi", 7, 99);
    assert_eq!((fresh.id, fresh.role.as_str(), fresh.created_at), (7, "assistant", 99));
    assert_eq!(v(&fresh.content), s(r#""hi""#));
    let stored = MessageResponse { id: 1, role: "assistant".into(), content: j(r#""x""#), created_at: 3 };
    assert_eq!(reply_message(Some(stored), "hi", 7, 99).id, 1);
}

#[test]
fn task_statuses() {
    let done = task_status(5, Some(Some(j(r#"{"ok": true}"#)))).unwrap();
    assert_eq!(done.status, "completed");
    assert_eq!(v(&done.result.unwrap()), s(r#"{"ok": true}"#));
    let pending = task_status(5, Some(None)).unwrap();
    assert_eq!(pending.status, "pending");
    assert!(pending.result.is_none());
    match task_status(5, None) {
        Err(CasperError::NotFound(m)) => assert_eq!(m, "task 00000000-0000-0000-0000-000000000005"),
        _ => panic!("expected not found"),
    }
}

#[test]
fn provider_secrets_sealed_for_the_platform() {
    let vault = vault();
    let enc = casper::connection::seal_client_secret(&vault, "cs-123").unwrap();
    let row = casper::connection::ProviderRow {
        authorization_url: "https://a".to_string(),
        token_url: "https://t".to_string(),
        revocation_url: Some("https://r".to_string()),
        client_id: "id".to_string(),
        client_secret_enc: enc,
        default_scopes: "s".to_string(),
    };
    let config = casper::connection::provider_config_of(&vault, row).unwrap().unwrap();
    assert_eq!(config.client_secret, "cs-123");
    assert_eq!(config.revocation_url, Some("https://r".to_string()));
    assert_eq!(config.token_url, "https://t");
}

#[test]
fn registration_scope_choice() {
    let v = |xs: &[&str]| xs.iter().map(|x| x.to_string()).collect::<Vec<String>>();
    assert_eq!(casper::connection::registration_scopes(&v(&["a", "b"]), &v(&["c"])), "a b");
    assert_eq!(casper::connection::registration_scopes(&v(&[]), &v(&["c", "d"])), "c d");
    assert_eq!(casper::connection::registration_scopes(&v(&[]), &v(&[])), "");
}

#[test]
fn snippet_token_estimate_is_a_quarter_of_the_bytes() {
    let create = CreateSnippetRequest {
        name: "tone".to_string(),
        display_name: "Tone".to_string(),
        content: "Be concise and friendly.".to_string(),
    };
    assert_eq!(create.token_estimate(), 6);
    let short = CreateSnippetRequest { name: "a".to_string(), display_name: "A".to_string(), content: "abc".to_string() };
    assert_eq!(short.token_estimate(), 0);
    let wide = UpdateSnippetRequest { name: None, display_name: None, content: Some("\u{e9}\u{e9}\u{e9}\u{e9}".to_string()) };
    assert_eq!(wide.token_estimate(), Some(2));
    let unchanged = UpdateSnippetRequest { name: Some("b".to_string()), display_name: None, content: None };
    assert_eq!(unchanged.token_estimate(), None);
}
