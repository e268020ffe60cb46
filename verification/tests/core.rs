use casper::audit::{audit_entry, AuditAction, AuditBatch, AuditEntry, AuditEvent};
use casper::codec::{from_serde, to_serde};
use casper::json::Json;
use casper::context::TenantContext;
use casper::error::CasperError;
use casper::jwt::{CasperClaims, JwtSigner, JwtVerifier};
use casper::revocation::{RevocationCache, RevocationCheck};
use casper::role::Role;
use casper::scope::{has_scope, Scope};
use casper::types::{CorrelationId, SecretValue, Subject, TenantId};
use casper::vault::{mcp_secret_key, Vault};
use ring::signature::KeyPair;

fn scope(s: &str) -> Scope {
    Scope::parse(s).unwrap()
}

// ── Scopes ──────────────────────────────────────────────────────

#[test]
fn exact_match() {
    assert!(scope("agents:triage:run").grants(&scope("agents:triage:run")));
}

#[test]
fn two_part_grants_three_part() {
    assert!(scope("agents:run").grants(&scope("agents:triage:run")));
}

#[test]
fn two_part_grants_two_part() {
    assert!(scope("agents:run").grants(&scope("agents:run")));
}

#[test]
fn explicit_wildcard() {
    assert!(scope("agents:*:run").grants(&scope("agents:triage:run")));
    assert!(scope("inference:*:call").grants(&scope("inference:sonnet-fast:call")));
}

#[test]
fn admin_star_grants_everything() {
    assert!(scope("admin:*").grants(&scope("agents:triage:run")));
    assert!(scope("admin:*").grants(&scope("inference:call")));
    assert!(scope("admin:*").grants(&scope("platform:admin")));
    assert!(scope("admin:*").grants(&scope("knowledge:write")));
}

#[test]
fn wrong_resource_denied() {
    assert!(!scope("agents:run").grants(&scope("inference:call")));
}

#[test]
fn wrong_action_denied() {
    assert!(!scope("agents:run").grants(&scope("agents:manage")));
}

#[test]
fn three_part_does_not_grant_different_identifier() {
    assert!(!scope("agents:triage:run").grants(&scope("agents:devops:run")));
}

#[test]
fn three_part_does_not_grant_two_part() {
    assert!(!scope("agents:triage:run").grants(&scope("agents:run")));
}

#[test]
fn inference_scopes() {
    assert!(scope("inference:sonnet-fast:call").grants(&scope("inference:sonnet-fast:call")));
    assert!(!scope("inference:sonnet-fast:call").grants(&scope("inference:gpt4o:call")));
    assert!(scope("inference:call").grants(&scope("inference:sonnet-fast:call")));
    assert!(scope("inference:call").grants(&scope("inference:gpt4o:call")));
}

#[test]
fn scope_display_roundtrip() {
    let s = scope("agents:triage:run");
    assert_eq!(s.to_text(), "agents:triage:run");

    let s2 = scope("agents:run");
    assert_eq!(s2.to_text(), "agents:run");

    let s3 = scope("admin:*");
    assert_eq!(s3.to_text(), "admin:*");
}

#[test]
fn has_scope_check() {
    let scopes = vec![scope("inference:sonnet-fast:call"), scope("agents:triage:run")];
    assert!(has_scope(&scopes, &scope("agents:triage:run")));
    assert!(has_scope(&scopes, &scope("inference:sonnet-fast:call")));
    assert!(!has_scope(&scopes, &scope("agents:devops:run")));
    assert!(!has_scope(&scopes, &scope("inference:gpt4o:call")));
}

#[test]
fn parse_invalid() {
    assert!(Scope::parse("").is_err());
    assert!(Scope::parse("single").is_err());
    assert!(Scope::parse("a:b:c:d").is_err());
}

#[test]
fn scope_text_parses_back() {
    for text in ["agents:triage:run", "agents:run", "admin:*", "inference:*:call"] {
        let again = scope(&scope(text).to_text());
        assert_eq!(again.to_text(), text);
        assert!(again.grants(&scope(text)) && scope(text).grants(&again));
    }
}

// ── Roles, subjects, identifiers, secrets ───────────────────────

#[test]
fn role_ordering() {
    assert!(Role::Viewer < Role::Operator);
    assert!(Role::Operator < Role::Admin);
    assert!(Role::Admin < Role::Owner);
    assert!(Role::Viewer < Role::Owner);
    assert!(!(Role::Admin < Role::Viewer));
    assert_eq!(Role::Admin, Role::Admin);
}

#[test]
fn role_roundtrip() {
    for role in [Role::Viewer, Role::Operator, Role::Admin, Role::Owner] {
        let s = role.to_text();
        let parsed: Role = s.parse().unwrap();
        assert_eq!(role, parsed);
    }
}

#[test]
fn role_unknown_name_refused() {
    assert_eq!(Role::parse_name("superuser").unwrap_err(), "unknown role: superuser");
}

#[test]
fn subject_parsing() {
    let user = Subject::parse("user:alice@ventoo.ch").unwrap();
    assert_eq!(user, Subject::User("alice@ventoo.ch".to_string()));
    assert_eq!(user.to_text(), "user:alice@ventoo.ch");

    let key = Subject::parse("apikey:my-key").unwrap();
    assert_eq!(key, Subject::ApiKey("my-key".to_string()));
    assert_eq!(key.to_text(), "apikey:my-key");

    assert!(Subject::parse("invalid").is_err());
}

#[test]
fn secret_value_basics() {
    let secret = SecretValue::from_str("hunter2");
    assert_eq!(secret.expose_str().unwrap(), "hunter2");
    assert_eq!(secret.expose(), b"hunter2");
}

#[test]
fn secret_value_wipe_empties() {
    let mut secret = SecretValue::from_str("hunter2");
    secret.wipe();
    assert!(secret.expose().is_empty());
}

#[test]
fn tenant_id_display() {
    let id = TenantId::new();
    let s = id.to_text();
    let parsed: TenantId = s.parse().unwrap();
    assert_eq!(id, parsed);
}

#[test]
fn tenant_id_text_of_known_value() {
    let id = TenantId(0x0123_4567_89ab_cdef_0011_2233_4455_6677);
    assert_eq!(id.to_text(), "01234567-89ab-cdef-0011-223344556677");
    assert_eq!(TenantId::parse("01234567-89ab-cdef-0011-223344556677"), Some(id));
    assert_eq!(TenantId::parse("not-a-uuid"), None);
}

// ── Errors ──────────────────────────────────────────────────────

#[test]
fn error_status_codes() {
    assert_eq!(CasperError::Unauthorized.status_code(), 401);
    assert_eq!(CasperError::Forbidden("test".into()).status_code(), 403);
    assert_eq!(CasperError::NotFound("test".into()).status_code(), 404);
    assert_eq!(CasperError::Conflict("test".into()).status_code(), 409);
    assert_eq!(CasperError::BadRequest("test".into()).status_code(), 400);
    assert_eq!(CasperError::RateLimited.status_code(), 429);
    assert_eq!(CasperError::Internal("test".into()).status_code(), 500);
    assert_eq!(CasperError::Unavailable("test".into()).status_code(), 503);
    assert_eq!(CasperError::BadGateway("test".into()).status_code(), 502);
    assert_eq!(CasperError::GatewayTimeout("test".into()).status_code(), 504);
}

#[test]
fn error_json_format() {
    let err = CasperError::Forbidden("Token lacks scope agents:triage:run".into());
    let json = to_serde(&err.to_json());
    assert_eq!(json["error"], "forbidden");
    assert_eq!(json["message"], "Insufficient permissions: Token lacks scope agents:triage:run");
}

#[test]
fn error_non_retryable_kinds() {
    assert!(casper::error::is_non_retryable(&CasperError::BadRequest("x".into())));
    assert!(casper::error::is_non_retryable(&CasperError::Forbidden("x".into())));
    assert!(!casper::error::is_non_retryable(&CasperError::BadGateway("x".into())));
    assert!(!casper::error::is_non_retryable(&CasperError::Unavailable("x".into())));
}

// ── Request context ─────────────────────────────────────────────

fn make_ctx(scopes: &[&str], role: Role) -> TenantContext {
    TenantContext {
        tenant_id: TenantId(0),
        subject: Subject::User("test@test.com".to_string()),
        role,
        scopes: scopes.iter().map(|s| Scope::parse(s).unwrap()).collect(),
        token_id: "jti-123".to_string(),
        correlation_id: CorrelationId::new(),
    }
}

#[test]
fn require_scope_passes() {
    let ctx = make_ctx(&["agents:run", "inference:call"], Role::Operator);
    assert!(ctx.require_scope("agents:triage:run").is_ok());
    assert!(ctx.require_scope("inference:sonnet-fast:call").is_ok());
}

#[test]
fn require_scope_fails() {
    let ctx = make_ctx(&["agents:triage:run"], Role::Operator);
    let err = ctx.require_scope("agents:devops:run").unwrap_err();
    assert!(matches!(err, CasperError::Forbidden(_)));
}

#[test]
fn require_role_passes() {
    let ctx = make_ctx(&["admin:*"], Role::Admin);
    assert!(ctx.require_role(Role::Operator).is_ok());
    assert!(ctx.require_role(Role::Admin).is_ok());
}

#[test]
fn require_role_fails() {
    let ctx = make_ctx(&[], Role::Viewer);
    let err = ctx.require_role(Role::Admin).unwrap_err();
    assert!(matches!(err, CasperError::Forbidden(_)));
}

#[test]
fn admin_star_grants_any_scope() {
    let ctx = make_ctx(&["admin:*"], Role::Owner);
    assert!(ctx.require_scope("agents:triage:run").is_ok());
    assert!(ctx.require_scope("inference:sonnet-fast:call").is_ok());
    assert!(ctx.require_scope("platform:admin").is_ok());
}

// ── Revocation ──────────────────────────────────────────────────

#[test]
fn revocation_cache() {
    let mut cache = RevocationCache::new();
    assert!(!cache.is_revoked("jti-1"));

    cache.revoke("jti-1");
    assert!(cache.is_revoked("jti-1"));
    assert!(!cache.is_revoked("jti-2"));
}

#[test]
fn revocation_refresh_replaces_contents() {
    let mut cache = RevocationCache::new();
    cache.revoke("old");
    cache.replace_all(vec!["new-1".to_string(), "new-2".to_string()]);
    assert!(!cache.is_revoked("old"));
    assert!(cache.is_revoked("new-1"));
    assert!(cache.is_revoked("new-2"));
}

// ── Tokens ──────────────────────────────────────────────────────

struct NoRevocation;
impl RevocationCheck for NoRevocation {
    fn is_revoked(&self, _jti: &str) -> bool {
        false
    }
}

struct RevokeAll;
impl RevocationCheck for RevokeAll {
    fn is_revoked(&self, _jti: &str) -> bool {
        true
    }
}

fn make_keypair() -> (Vec<u8>, JwtSigner, JwtVerifier) {
    let rng = ring::rand::SystemRandom::new();
    let pkcs8 = ring::signature::Ed25519KeyPair::generate_pkcs8(&rng).unwrap();
    let pkcs8_bytes = pkcs8.as_ref().to_vec();
    let key_pair = ring::signature::Ed25519KeyPair::from_pkcs8(pkcs8.as_ref()).unwrap();
    let pub_bytes: [u8; 32] = key_pair.public_key().as_ref().try_into().unwrap();
    let signer = JwtSigner::from_pkcs8_der(&pkcs8_bytes).unwrap();
    let verifier = JwtVerifier::from_public_key(&pub_bytes).unwrap();
    (pkcs8_bytes, signer, verifier)
}

fn now_secs() -> i64 {
    std::time::SystemTime::now().duration_since(std::time::UNIX_EPOCH).unwrap().as_secs() as i64
}

fn make_claims() -> CasperClaims {
    let now = now_secs();
    CasperClaims {
        sub: "user:alice@ventoo.ch".to_string(),
        tid: 0,
        role: "admin".to_string(),
        scopes: vec!["admin:*".to_string()],
        exp: now + 900,
        iat: now,
        iss: "casper".to_string(),
        jti: "test-jti-123".to_string(),
    }
}

#[test]
fn roundtrip_sign_verify() {
    let (_, signer, verifier) = make_keypair();
    let claims = make_claims();
    let token = signer.sign(&claims).unwrap();

    let decoded = verifier.verify(&token).unwrap();
    assert_eq!(decoded.sub, "user:alice@ventoo.ch");
    assert_eq!(decoded.jti, "test-jti-123");
}

#[test]
fn expired_rejected() {
    let (_, signer, verifier) = make_keypair();
    let mut claims = make_claims();
    claims.exp = now_secs() - 100;

    let token = signer.sign(&claims).unwrap();
    assert!(matches!(verifier.verify(&token), Err(CasperError::Unauthorized)));
}

#[test]
fn bad_signature_rejected() {
    let (_, signer, _) = make_keypair();
    let (_, _, other_verifier) = make_keypair();
    let claims = make_claims();
    let token = signer.sign(&claims).unwrap();

    assert!(matches!(other_verifier.verify(&token), Err(CasperError::Unauthorized)));
}

#[test]
fn wrong_issuer_rejected() {
    let (_, signer, verifier) = make_keypair();
    let mut claims = make_claims();
    claims.iss = "someone-else".to_string();
    let token = signer.sign(&claims).unwrap();
    assert!(matches!(verifier.verify(&token), Err(CasperError::Unauthorized)));
}

#[test]
fn authenticate_builds_context() {
    let (_, signer, verifier) = make_keypair();
    let claims = make_claims();
    let token = signer.sign(&claims).unwrap();

    let ctx = verifier.authenticate(&token, &NoRevocation).unwrap();
    assert_eq!(ctx.tenant_id.0, 0);
    assert_eq!(ctx.subject, Subject::User("alice@ventoo.ch".to_string()));
    assert_eq!(ctx.role, Role::Admin);
    assert_eq!(ctx.token_id, "test-jti-123");
    assert!(ctx.require_scope("agents:triage:run").is_ok());
}

#[test]
fn authenticate_refuses_bad_role() {
    let (_, signer, verifier) = make_keypair();
    let mut claims = make_claims();
    claims.role = "superuser".to_string();
    let token = signer.sign(&claims).unwrap();
    match verifier.authenticate(&token, &NoRevocation) {
        Err(CasperError::BadRequest(m)) => assert_eq!(m, "invalid role: unknown role: superuser"),
        _ => panic!("expected a bad request"),
    }
}

#[test]
fn revoked_token_rejected() {
    let (_, signer, verifier) = make_keypair();
    let claims = make_claims();
    let token = signer.sign(&claims).unwrap();

    assert!(matches!(verifier.authenticate(&token, &RevokeAll), Err(CasperError::Unauthorized)));
}

#[test]
fn sign_and_verify() {
    let (_, signer, verifier) = make_keypair();
    let tid = TenantId::new();
    let (token, jti) = signer
        .sign_access_token(tid, "user:test@test.com", "admin", vec!["admin:*".to_string()])
        .unwrap();

    let claims = verifier.verify(&token).unwrap();
    assert_eq!(claims.sub, "user:test@test.com");
    assert_eq!(claims.tid, tid.0);
    assert_eq!(claims.role, "admin");
    assert_eq!(claims.jti, jti);
    assert_eq!(claims.exp - claims.iat, 900);
}

#[test]
fn refresh_token() {
    let (_, signer, verifier) = make_keypair();
    let tid = TenantId::new();
    let (token, _jti) = signer.sign_refresh_token(tid, "user:test@test.com").unwrap();

    let claims = verifier.verify(&token).unwrap();
    assert_eq!(claims.role, "refresh");
    assert!(claims.scopes.is_empty());
    assert!(claims.exp - claims.iat >= 604800);
}

#[test]
fn sign_verify_with_revocation() {
    let (_, signer, verifier) = make_keypair();
    let mut cache = RevocationCache::new();

    let tid = TenantId::new();
    let (token, jti) = signer
        .sign_access_token(tid, "user:test@test.com", "admin", vec!["admin:*".to_string()])
        .unwrap();

    let ctx = verifier.authenticate(&token, &cache).unwrap();
    assert_eq!(ctx.token_id, jti);

    cache.revoke(&jti);
    assert!(verifier.authenticate(&token, &cache).is_err());
}

#[test]
fn unusable_signing_key_refused() {
    let signer = JwtSigner::from_pkcs8_der(b"not a key").unwrap();
    match signer.sign(&make_claims()) {
        Err(CasperError::Internal(m)) => assert!(m.starts_with("JWT signing failed: ")),
        _ => panic!("expected a signing failure"),
    }
}

#[test]
fn claims_from_json_reads_all_fields() {
    let v: serde_json::Value = serde_json::from_str(
        r#"{"sub":"user:a","tid":"00000000-0000-0000-0000-00000000002a","role":"viewer",
            "scopes":["agents:run"],"exp":10,"iat":5,"iss":"casper","jti":"j","extra":1}"#,
    )
    .unwrap();
    let c = casper::jwt::claims_from_json(&from_serde(&v)).unwrap();
    assert_eq!(c.tid, 42);
    assert_eq!(c.scopes, vec!["agents:run".to_string()]);
    assert_eq!((c.exp, c.iat), (10, 5));

    let missing: serde_json::Value = serde_json::from_str(r#"{"sub":"user:a"}"#).unwrap();
    assert!(casper::jwt::claims_from_json(&from_serde(&missing)).is_none());
}

#[test]
fn verifier_from_short_pkcs8_refused() {
    match JwtVerifier::from_pkcs8_der(&[0u8; 10]) {
        Err(CasperError::Internal(m)) => assert_eq!(m, "PKCS8 DER too short"),
        _ => panic!("expected an error"),
    }
    let (pkcs8, _, _) = make_keypair();
    let v = JwtVerifier::from_pkcs8_der(&pkcs8).unwrap();
    assert_eq!(v.public_key(), &pkcs8[pkcs8.len() - 32..]);
}

// ── Vault ───────────────────────────────────────────────────────

fn test_vault() -> Vault {
    Vault::new(b"test-master-key-32-bytes-long!!!".to_vec())
}

#[test]
fn encrypt_decrypt_roundtrip() {
    let vault = test_vault();
    let tenant = TenantId::new();
    let (ct, nonce) = vault.encrypt(tenant, b"hello world").unwrap();
    let decrypted = vault.decrypt(tenant, &ct, &nonce).unwrap();
    assert_eq!(decrypted.expose_str().unwrap(), "hello world");
}

#[test]
fn different_tenants_different_keys() {
    let vault = test_vault();
    let t1 = TenantId::new();
    let t2 = TenantId::new();
    let (ct, nonce) = vault.encrypt(t1, b"secret").unwrap();
    assert!(vault.decrypt(t2, &ct, &nonce).is_err());
}

#[test]
fn encrypt_value_roundtrip() {
    let vault = test_vault();
    let tenant = TenantId::new();
    let combined = vault.encrypt_value(tenant, b"my-api-key-123").unwrap();
    let decrypted = vault.decrypt_value(tenant, &combined).unwrap();
    assert_eq!(decrypted.expose_str().unwrap(), "my-api-key-123");
}

#[test]
fn decrypt_value_without_colon_refused() {
    let vault = test_vault();
    match vault.decrypt_value(TenantId(1), "no-colon-here") {
        Err(CasperError::Internal(m)) => assert_eq!(m, "invalid encrypted value format"),
        _ => panic!("expected an error"),
    }
}

#[test]
fn try_decrypt_value_with_short_nonce_is_none() {
    let vault = test_vault();
    assert!(vault.try_decrypt_value(TenantId(1), "AAAA:AAAA").is_none());
    let tenant = TenantId(7);
    let combined = vault.encrypt_value(tenant, b"x").unwrap();
    assert!(matches!(vault.try_decrypt_value(tenant, &combined), Some(Ok(_))));
}

#[test]
fn resolve_mcp_secret_validates_prefix() {
    assert!(mcp_secret_key("invalid_ref").is_err());
    assert_eq!(mcp_secret_key("secret:my_key").unwrap(), "my_key");
}

#[test]
fn mcp_secret_key_error_text() {
    match mcp_secret_key("token") {
        Err(CasperError::BadRequest(m)) => {
            assert_eq!(m, "invalid token_ref format: token (expected 'secret:key_name')")
        }
        _ => panic!("expected a bad request"),
    }
}

// ── Audit batching ──────────────────────────────────────────────

fn entry(n: u128) -> AuditEntry {
    audit_entry(1, "user:alice", "agent.run", Some("agents/triage"), Json::Null, "ok", n, "tok")
}

#[test]
fn audit_entry_keeps_fields() {
    let e = entry(7);
    assert_eq!(e.actor, "user:alice");
    assert_eq!(e.action, "agent.run");
    assert_eq!(e.resource.as_deref(), Some("agents/triage"));
    assert_eq!(e.outcome, "ok");
    assert_eq!(e.correlation_id, 7);
    assert_eq!(e.token_id, "tok");
}

#[test]
fn audit_batch_written_when_nothing_more_is_ready() {
    let (mut batch, first) = AuditBatch::new();
    assert!(matches!(first, AuditAction::Receive));
    assert!(matches!(batch.on_event(AuditEvent::Received(entry(1))), AuditAction::TryReceive));
    assert!(matches!(batch.on_event(AuditEvent::Received(entry(2))), AuditAction::TryReceive));
    match batch.on_event(AuditEvent::NoneReady) {
        AuditAction::Write(w) => {
            assert_eq!(w.iter().map(|e| e.correlation_id).collect::<Vec<_>>(), vec![1, 2]);
        }
        _ => panic!("expected a write"),
    }
    match batch.on_event(AuditEvent::Closed) {
        AuditAction::Stop(w) => assert!(w.is_empty()),
        _ => panic!("expected a stop"),
    }
}

#[test]
fn audit_batch_holds_at_most_a_hundred() {
    let (mut batch, _) = AuditBatch::new();
    for n in 0..99u128 {
        assert!(matches!(batch.on_event(AuditEvent::Received(entry(n))), AuditAction::TryReceive));
    }
    match batch.on_event(AuditEvent::Received(entry(99))) {
        AuditAction::Write(w) => {
            assert_eq!(w.len(), 100);
            assert_eq!(w[0].correlation_id, 0);
            assert_eq!(w[99].correlation_id, 99);
        }
        _ => panic!("expected a full batch"),
    }
    assert!(matches!(batch.on_event(AuditEvent::Received(entry(100))), AuditAction::TryReceive));
    match batch.on_event(AuditEvent::Closed) {
        AuditAction::Stop(w) => assert_eq!(w.len(), 1),
        _ => panic!("expected a stop"),
    }
}

#[test]
fn fresh_identifiers_are_version_seven() {
    let t = TenantId::new().to_text();
    assert_eq!(t.len(), 36);
    assert_eq!(t.as_bytes()[14], b'7');
    let c = CorrelationId::new();
    assert_eq!((c.0 >> 76) & 0xf, 7);
}

#[test]
fn from_str_errors_name_the_text() {
    assert_eq!("owner".parse::<Role>().ok(), Some(Role::Owner));
    assert_eq!("chief".parse::<Role>().err().as_deref(), Some("unknown role: chief"));
    assert_eq!("nope".parse::<TenantId>().err().as_deref(), Some("invalid UUID: nope"));
    let t = TenantId::new();
    assert_eq!(t.to_text().parse::<TenantId>().ok(), Some(t));
}

#[test]
fn revocation_cache_answers_from_its_contents() {
    let mut cache = RevocationCache::new();
    assert!(!cache.is_revoked("a"));
    cache.revoke("a");
    assert!(cache.is_revoked("a"));
    assert!(!cache.is_revoked("b"));
}

#[test]
fn secrets_prefer_the_file_and_trim_it() {
    use_secret_cases();
}

fn use_secret_cases() {
    let from_file = casper::types::secret_from(
        "API_KEY",
        casper::types::SecretFile::Read { path: "/run/k".to_string(), contents: "  s3cret\n".to_string() },
        Some("ignored".to_string()),
    )
    .unwrap();
    assert_eq!(from_file.expose(), b"s3cret");
    let from_env = casper::types::secret_from("API_KEY", casper::types::SecretFile::Unset, Some(" raw ".to_string())).unwrap();
    assert_eq!(from_env.expose(), b" raw ");
    assert_eq!(
        casper::types::secret_from("API_KEY", casper::types::SecretFile::Unset, None).err().unwrap(),
        "secret API_KEY not found (checked API_KEY and API_KEY_FILE)"
    );
    assert_eq!(
        casper::types::secret_from(
            "API_KEY",
            casper::types::SecretFile::Unreadable { path: "/run/k".to_string(), error: "denied".to_string() },
            None
        )
        .err()
        .unwrap(),
        "failed to read secret file /run/k: denied"
    );
}
