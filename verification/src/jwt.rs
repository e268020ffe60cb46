//! Casper token claims, the verifier's key material, and the building of the
//! request context from verified claims.

use vstd::prelude::*;
use crate::context::TenantContext;
use crate::error::CasperError;
use crate::revocation::RevocationCheck;
use crate::role::{Role, spec_parse_role};
use crate::scope::{Scope, ScopeV, spec_parse_scope};
use crate::text::concat_str;
use crate::types::{CorrelationId, Subject, TenantId, spec_parse_subject};
use crate::context::scopes_view;
use crate::codec::{from_serde, serde_form, serde_view, to_serde};
use crate::json::{jget, jget_i64, jget_str, jobject, jstring, Json, JsonV};
use crate::text::{push_chars, string_of};
use crate::types::{new_uuid_v7, parse_uuid, spec_parse_uuid, spec_uuid_text, uuid_text, uuid_version};

verus! {

/// JWT claims of a Casper token.
pub struct CasperClaims {
    /// Subject: "user:alice@ventoo.ch"
    pub sub: String,
    /// Tenant ID (a UUID as its 128-bit value)
    pub tid: u128,
    /// Role
    pub role: String,
    /// Scopes
    pub scopes: Vec<String>,
    /// Expiration (Unix timestamp)
    pub exp: i64,
    /// Issued at (Unix timestamp)
    pub iat: i64,
    /// Issuer
    pub iss: String,
    /// JWT ID (for revocation)
    pub jti: String,
}

/// Verifies Casper JWTs using Ed25519; holds the raw Ed25519 public key.
pub struct JwtVerifier {
    public_key_der: Vec<u8>,
}

impl View for JwtVerifier {
    type V = Seq<u8>;

    closed spec fn view(&self) -> Seq<u8> {
        self.public_key_der@
    }
}

/// The scopes of a list of scope strings that parse, in order; the others are dropped.
pub open spec fn parsed_scopes(ss: Seq<Seq<char>>) -> Seq<ScopeV>
    decreases ss.len(),
{
    if ss.len() == 0 {
        Seq::empty()
    } else {
        let rest = parsed_scopes(ss.drop_last());
        match spec_parse_scope(ss.last()) {
            Some(sc) => rest.push(sc),
            None => rest,
        }
    }
}

/// Every well-formed scope string of a token becomes a scope of its
/// context, in the order of the strings, and the others are dropped: the
/// parsed scopes are the strings filtered and mapped through the scope
/// parser.
pub proof fn lemma_parsed_scopes_law(ss: Seq<Seq<char>>)
    ensures
        parsed_scopes(ss) == ss.filter_map(|s: Seq<char>| spec_parse_scope(s)),
        parsed_scopes(ss).len() <= ss.len(),
        forall|i: int| 0 <= i < ss.len() && #[trigger] spec_parse_scope(ss[i]) is Some
            ==> parsed_scopes(ss).contains(spec_parse_scope(ss[i])->0),
    decreases ss.len(),
{
    if ss.len() > 0 {
        let rest = ss.drop_last();
        lemma_parsed_scopes_law(rest);
        let f = |s: Seq<char>| spec_parse_scope(s);
        match spec_parse_scope(ss.last()) {
            Some(sc) => {
                assert(rest.filter_map(f) + seq![sc] =~= parsed_scopes(rest).push(sc));
            },
            None => {},
        }
        assert forall|i: int| 0 <= i < ss.len() && #[trigger] spec_parse_scope(ss[i]) is Some
            implies parsed_scopes(ss).contains(spec_parse_scope(ss[i])->0) by {
            let sc = spec_parse_scope(ss[i])->0;
            if i == ss.len() - 1 {
                assert(ss[i] == ss.last());
                assert(parsed_scopes(ss) == parsed_scopes(rest).push(sc));
                assert(parsed_scopes(ss)[parsed_scopes(rest).len() as int] == sc);
            } else {
                assert(rest[i] == ss[i]);
                assert(spec_parse_scope(rest[i]) is Some);
                let k = choose|k: int| 0 <= k < parsed_scopes(rest).len() && parsed_scopes(rest)[k] == sc;
                match spec_parse_scope(ss.last()) {
                    Some(x) => assert(parsed_scopes(ss)[k] == sc),
                    None => assert(parsed_scopes(ss)[k] == sc),
                }
            }
        }
    }
}

/// Parsing the scopes of two lists one after the other gives the scopes of
/// the first followed by those of the second.
pub proof fn lemma_parsed_scopes_concat(a: Seq<Seq<char>>, b: Seq<Seq<char>>)
    ensures
        parsed_scopes(a + b) == parsed_scopes(a) + parsed_scopes(b),
    decreases b.len(),
{
    if b.len() == 0 {
        assert(a + b =~= a);
        assert(parsed_scopes(a) + parsed_scopes(b) =~= parsed_scopes(a));
    } else {
        lemma_parsed_scopes_concat(a, b.drop_last());
        assert((a + b).drop_last() =~= a + b.drop_last());
        assert((a + b).last() == b.last());
        match spec_parse_scope(b.last()) {
            Some(sc) => {
                assert(parsed_scopes(a) + parsed_scopes(b.drop_last()).push(sc)
                    =~= (parsed_scopes(a) + parsed_scopes(b.drop_last())).push(sc));
            },
            None => {},
        }
    }
}

impl JwtVerifier {
    /// Create from raw Ed25519 public key bytes (32 bytes).
    pub fn from_public_key(public_key_bytes: &[u8; 32]) -> (r: Result<JwtVerifier, CasperError>)
        ensures
            r matches Ok(v) && v@ == public_key_bytes@,
    {
        let mut key: Vec<u8> = Vec::new();
        let mut i: usize = 0;
        while i < 32
            invariant
                i <= 32,
                public_key_bytes@.len() == 32,
                key@ == public_key_bytes@.take(i as int),
            decreases 32 - i,
        {
            key.push(public_key_bytes[i]);
            i += 1;
            assert(key@ =~= public_key_bytes@.take(i as int));
        }
        assert(public_key_bytes@.take(32) =~= public_key_bytes@);
        Ok(JwtVerifier { public_key_der: key })
    }

    /// Create from PKCS8 DER bytes of an Ed25519 key pair: the public key is
    /// the last 32 bytes. Fewer than 32 bytes are refused.
    pub fn from_pkcs8_der(pkcs8_der: &[u8]) -> (r: Result<JwtVerifier, CasperError>)
        ensures
            pkcs8_der@.len() < 32 ==> (r matches Err(CasperError::Internal(m)) && m@ == "PKCS8 DER too short"@),
            pkcs8_der@.len() >= 32 ==> (r matches Ok(v)
                && v@ == pkcs8_der@.subrange(pkcs8_der@.len() - 32, pkcs8_der@.len() as int)),
    {
        if pkcs8_der.len() < 32 {
            return Err(CasperError::Internal("PKCS8 DER too short".to_string()));
        }
        let start = pkcs8_der.len() - 32;
        let mut pub_bytes: [u8; 32] = [0u8; 32];
        let mut i: usize = 0;
        while i < 32
            invariant
                i <= 32,
                start + 32 == pkcs8_der@.len(),
                pkcs8_der@.len() <= usize::MAX,
                pub_bytes@.len() == 32,
                forall|k: int| 0 <= k < i ==> pub_bytes@[k] == pkcs8_der@[start + k],
            decreases 32 - i,
        {
            pub_bytes[i] = pkcs8_der[start + i];
            i += 1;
        }
        assert(pub_bytes@ =~= pkcs8_der@.subrange(start as int, pkcs8_der@.len() as int));
        JwtVerifier::from_public_key(&pub_bytes)
    }

    /// The raw Ed25519 public key.
    pub fn public_key(&self) -> (r: &[u8])
        ensures
            r@ == self@,
    {
        self.public_key_der.as_slice()
    }
}

/// Parse the scope strings that are well formed, dropping the others.
pub fn parse_valid_scopes(strings: &Vec<String>) -> (r: Vec<Scope>)
    ensures
        scopes_view(r@) == parsed_scopes(strings@.map_values(|s: String| s@)),
{
    let ghost ss = strings@.map_values(|s: String| s@);
    let mut out: Vec<Scope> = Vec::new();
    let mut i: usize = 0;
    assert(ss.take(0) =~= Seq::<Seq<char>>::empty());
    while i < strings.len()
        invariant
            i <= strings.len(),
            ss == strings@.map_values(|s: String| s@),
            scopes_view(out@) == parsed_scopes(ss.take(i as int)),
        decreases strings.len() - i,
    {
        assert(ss.take(i + 1).drop_last() =~= ss.take(i as int));
        assert(ss.take(i + 1).last() == strings@[i as int]@);
        let ghost before = scopes_view(out@);
        match Scope::parse(&strings[i]) {
            Ok(sc) => {
                out.push(sc);
                assert(scopes_view(out@) =~= before.push(sc@));
            }
            Err(_) => {}
        }
        i += 1;
    }
    assert(ss.take(strings.len() as int) =~= ss);
    out
}

/// Build the request context from verified claims: a revoked token is
/// refused as unauthenticated; the subject and role must parse; scopes that
/// do not parse are dropped.
pub fn context_from_claims(claims: CasperClaims, revoked: bool) -> (r: Result<TenantContext, CasperError>)
    ensures
        revoked ==> r matches Err(CasperError::Unauthorized),
        !revoked && spec_parse_subject(claims.sub@) is None ==> r matches Err(CasperError::BadRequest(_)),
        !revoked && spec_parse_subject(claims.sub@) is Some && spec_parse_role(claims.role@) is None
            ==> r matches Err(CasperError::BadRequest(_)),
        !revoked && spec_parse_subject(claims.sub@) is Some && spec_parse_role(claims.role@) is Some
            ==> (r matches Ok(ctx)
                && ctx.tenant_id == TenantId(claims.tid)
                && Some(ctx.subject@) == spec_parse_subject(claims.sub@)
                && Some(ctx.role) == spec_parse_role(claims.role@)
                && scopes_view(ctx.scopes@) == parsed_scopes(claims.scopes@.map_values(|s: String| s@))
                && ctx.token_id@ == claims.jti@),
{
    if revoked {
        return Err(CasperError::Unauthorized);
    }
    let subject = match Subject::parse(&claims.sub) {
        Ok(s) => s,
        Err(e) => return Err(CasperError::BadRequest(concat_str("invalid subject: ", &e))),
    };
    let role = match Role::parse_name(&claims.role) {
        Ok(r) => r,
        Err(e) => return Err(CasperError::BadRequest(concat_str("invalid role: ", &e))),
    };
    let scopes = parse_valid_scopes(&claims.scopes);
    Ok(TenantContext {
        tenant_id: TenantId(claims.tid),
        subject,
        role,
        scopes,
        token_id: claims.jti,
        correlation_id: CorrelationId::new(),
    })
}

/// Build the request context from verified claims, consulting `revocation`
/// for the token id first.
pub fn authenticate_claims<R: RevocationCheck>(claims: CasperClaims, revocation: &R) -> (r: Result<TenantContext, CasperError>)
    ensures
        revocation.spec_is_revoked(claims.jti@) ==> r matches Err(CasperError::Unauthorized),
        !revocation.spec_is_revoked(claims.jti@) && spec_parse_subject(claims.sub@) is None
            ==> r matches Err(CasperError::BadRequest(_)),
        !revocation.spec_is_revoked(claims.jti@) && spec_parse_subject(claims.sub@) is Some
            && spec_parse_role(claims.role@) is None ==> r matches Err(CasperError::BadRequest(_)),
        !revocation.spec_is_revoked(claims.jti@) && spec_parse_subject(claims.sub@) is Some
            && spec_parse_role(claims.role@) is Some ==> (r matches Ok(ctx)
                && ctx.tenant_id == TenantId(claims.tid)
                && Some(ctx.subject@) == spec_parse_subject(claims.sub@)
                && Some(ctx.role) == spec_parse_role(claims.role@)
                && scopes_view(ctx.scopes@) == parsed_scopes(claims.scopes@.map_values(|s: String| s@))
                && ctx.token_id@ == claims.jti@),
{
    let revoked = revocation.is_revoked(&claims.jti);
    context_from_claims(claims, revoked)
}


// ── Encoding and decoding tokens ────────────────────────────────

/// The error of a JWT operation.
#[verifier::external_type_specification]
#[verifier::external_body]
pub struct ExJwtError(jsonwebtoken::errors::Error);

/// The JWT that `jsonwebtoken::encode` makes of a claims object under an
/// EdDSA header with the Ed25519 key given as PKCS8 DER, if the key is usable.
pub uninterp spec fn spec_jwt_encode(claims: JsonV, pkcs8_der: Seq<u8>) -> Option<Seq<char>>;

/// `jsonwebtoken::encode(&Header::new(Algorithm::EdDSA), claims,
/// &EncodingKey::from_ed_der(pkcs8_der))`. Ed25519 signatures are
/// deterministic, so the token is a function of the claims and the key.
#[verifier::external_body]
fn jwt_encode_eddsa(claims: &serde_json::Value, pkcs8_der: &[u8]) -> (r: Result<String, jsonwebtoken::errors::Error>)
    ensures
        r is Ok <==> spec_jwt_encode(serde_view(*claims), pkcs8_der@) is Some,
        r matches Ok(t) ==> spec_jwt_encode(serde_view(*claims), pkcs8_der@) == Some(t@),
{
    let header = jsonwebtoken::Header::new(jsonwebtoken::Algorithm::EdDSA);
    jsonwebtoken::encode(&header, claims, &jsonwebtoken::EncodingKey::from_ed_der(pkcs8_der))
}

/// The claims object that the payload segment of a JWT holds: the JSON its
/// Base64url text decodes to, if it decodes.
pub uninterp spec fn spec_jwt_payload(token: Seq<char>) -> Option<JsonV>;

/// Whether a JWT names the EdDSA algorithm in its header and its signature
/// verifies over its header and payload under the Ed25519 public key.
pub uninterp spec fn spec_ed25519_signed(public_key: Seq<u8>, token: Seq<char>) -> bool;

/// Whether `required` names `claim`.
pub open spec fn names_claim(required: Seq<String>, claim: Seq<char>) -> bool {
    exists|i: int| 0 <= i < required.len() && (#[trigger] required[i])@ == claim
}

/// `jsonwebtoken::decode::<Value>` under `Validation::new(EdDSA)` with the
/// one `issuer` and the `required` registered claims, checked against the
/// raw Ed25519 public key: the token's claims object. A token comes back
/// only when its signature verifies under the key, and then as its payload;
/// each of `exp`, `sub` and `iss` that is required is present, and a string
/// `iss` is the issuer. Whether an unexpired token is accepted depends on
/// the clock, so success is not stated.
#[verifier::external_body]
fn jwt_decode_eddsa(token: &str, public_key: &[u8], issuer: &str, required: &[String])
    -> (r: Result<serde_json::Value, jsonwebtoken::errors::Error>)
    ensures
        r matches Ok(v) ==> spec_jwt_payload(token@) == Some(serde_view(v)),
        r matches Ok(v) ==> spec_ed25519_signed(public_key@, token@),
        r matches Ok(v) ==> (jget_str(serde_view(v), "iss"@) matches Some(i) ==> i == issuer@),
        r matches Ok(v) ==> (names_claim(required@, "exp"@) ==> jget(serde_view(v), "exp"@) is Some),
        r matches Ok(v) ==> (names_claim(required@, "sub"@) ==> jget(serde_view(v), "sub"@) is Some),
        r matches Ok(v) ==> (names_claim(required@, "iss"@) ==> jget(serde_view(v), "iss"@) is Some),
{
    let key = jsonwebtoken::DecodingKey::from_ed_der(public_key);
    let mut validation = jsonwebtoken::Validation::new(jsonwebtoken::Algorithm::EdDSA);
    validation.set_issuer(&[issuer]);
    validation.set_required_spec_claims(required);
    jsonwebtoken::decode::<serde_json::Value>(token, &key, &validation).map(|d| d.claims)
}

/// The `Display` text of a JWT error.
#[verifier::external_body]
fn jwt_error_text(e: &jsonwebtoken::errors::Error) -> (r: String) {
    format!("{e}")
}

/// The current Unix time in seconds, from the system clock.
#[verifier::external_body]
fn unix_now() -> (r: i64) {
    std::time::SystemTime::now().duration_since(std::time::UNIX_EPOCH).map(|d| d.as_secs() as i64).unwrap_or(0)
}

/// The texts of a list of strings.
pub open spec fn strings_view(v: Seq<String>) -> Seq<Seq<char>> {
    v.map_values(|s: String| s@)
}

/// The abstract value of claims.
pub struct ClaimsV {
    pub sub: Seq<char>,
    pub tid: u128,
    pub role: Seq<char>,
    pub scopes: Seq<Seq<char>>,
    pub exp: i64,
    pub iat: i64,
    pub iss: Seq<char>,
    pub jti: Seq<char>,
}

/// The abstract value of claims.
pub open spec fn claims_view(c: CasperClaims) -> ClaimsV {
    ClaimsV {
        sub: c.sub@,
        tid: c.tid,
        role: c.role@,
        scopes: c.scopes@.map_values(|s: String| s@),
        exp: c.exp,
        iat: c.iat,
        iss: c.iss@,
        jti: c.jti@,
    }
}

/// Whether all values are strings.
pub open spec fn all_strings(a: Seq<JsonV>) -> bool {
    forall|i: int| 0 <= i < a.len() ==> (#[trigger] a[i]) is Str
}

/// The claims object of a token: `sub`, `tid` (hyphenated UUID), `role`,
/// `scopes` (strings), `exp` and `iat` (integers), `iss` and `jti`.
pub open spec fn spec_claims_json(c: ClaimsV) -> JsonV {
    JsonV::Object(seq![
        ("sub"@, JsonV::Str(c.sub)),
        ("tid"@, JsonV::Str(spec_uuid_text(c.tid))),
        ("role"@, JsonV::Str(c.role)),
        ("scopes"@, JsonV::Array(c.scopes.map_values(|s: Seq<char>| JsonV::Str(s)))),
        ("exp"@, JsonV::Int(c.exp)),
        ("iat"@, JsonV::Int(c.iat)),
        ("iss"@, JsonV::Str(c.iss)),
        ("jti"@, JsonV::Str(c.jti)),
    ])
}

/// Whether `scopes` is an array of strings.
pub open spec fn scopes_ok(j: JsonV) -> bool {
    match jget(j, "scopes"@) {
        Some(JsonV::Array(a)) => all_strings(a),
        _ => false,
    }
}

/// The claims a JSON object deserializes to: all eight fields present with
/// their types (other members ignored).
pub open spec fn spec_claims_of(j: JsonV) -> Option<ClaimsV> {
    if j is Object && jget_str(j, "sub"@) is Some && jget_str(j, "tid"@) is Some
        && spec_parse_uuid(jget_str(j, "tid"@)->0) is Some && jget_str(j, "role"@) is Some
        && scopes_ok(j)
        && jget_i64(j, "exp"@) is Some && jget_i64(j, "iat"@) is Some
        && jget_str(j, "iss"@) is Some && jget_str(j, "jti"@) is Some {
        Some(ClaimsV {
            sub: jget_str(j, "sub"@)->0,
            tid: spec_parse_uuid(jget_str(j, "tid"@)->0)->0,
            role: jget_str(j, "role"@)->0,
            scopes: jget(j, "scopes"@)->0->Array_0.map_values(|v: JsonV| v->Str_0),
            exp: jget_i64(j, "exp"@)->0,
            iat: jget_i64(j, "iat"@)->0,
            iss: jget_str(j, "iss"@)->0,
            jti: jget_str(j, "jti"@)->0,
        })
    } else {
        None
    }
}

fn field_str(j: &Json, key: &str) -> (r: Option<String>)
    ensures
        r matches Some(s) ==> jget_str(j@, key@) == Some(s@),
        r is None ==> jget_str(j@, key@) is None,
{
    match j.get(key) {
        Some(v) => match v.as_str() {
            Some(s) => Some(s.clone()),
            None => None,
        },
        None => None,
    }
}

fn field_i64(j: &Json, key: &str) -> (r: Option<i64>)
    ensures
        r == jget_i64(j@, key@),
{
    match j.get(key) {
        Some(v) => v.as_i64(),
        None => None,
    }
}

fn strings_of(items: &Vec<Json>) -> (r: Option<Vec<String>>)
    ensures
        r is Some <==> all_strings(items@.map_values(|x: Json| x@)),
        r matches Some(v) ==> v@.map_values(|s: String| s@)
            == items@.map_values(|x: Json| x@).map_values(|v: JsonV| v->Str_0),
{
    let ghost view = items@.map_values(|x: Json| x@);
    let mut out: Vec<String> = Vec::new();
    let mut i: usize = 0;
    while i < items.len()
        invariant
            i <= items.len(),
            view == items@.map_values(|x: Json| x@),
            all_strings(view.take(i as int)),
            out@.map_values(|s: String| s@) == view.take(i as int).map_values(|v: JsonV| v->Str_0),
        decreases items.len() - i,
    {
        assert(view[i as int] == items@[i as int]@);
        match items[i].as_str() {
            Some(s) => {
                let ghost before = out@.map_values(|s: String| s@);
                out.push(s.clone());
                assert(view.take(i as int + 1) =~= view.take(i as int).push(view[i as int]));
                assert(out@.map_values(|s: String| s@) =~= before.push(s@));
                assert(view.take(i as int + 1).map_values(|v: JsonV| v->Str_0)
                    =~= view.take(i as int).map_values(|v: JsonV| v->Str_0).push(view[i as int]->Str_0));
                assert(all_strings(view.take(i as int + 1))) by {
                    assert forall|k: int| 0 <= k < i + 1 implies (#[trigger] view.take(i as int + 1)[k]) is Str by {
                        if k < i {
                            assert(view.take(i as int + 1)[k] == view.take(i as int)[k]);
                        }
                    }
                }
            },
            None => {
                proof {
                    if all_strings(view) {
                        assert(view[i as int] is Str);
                    }
                }
                return None;
            },
        }
        i += 1;
    }
    assert(view.take(items.len() as int) =~= view);
    Some(out)
}

/// The claims a JSON value deserializes to, if it does.
pub fn claims_from_json(j: &Json) -> (r: Option<CasperClaims>)
    ensures
        r is Some <==> spec_claims_of(j@) is Some,
        r matches Some(c) ==> spec_claims_of(j@) == Some(claims_view(c)),
{
    match j {
        Json::Object(_) => {},
        _ => return None,
    }
    let sub = field_str(j, "sub");
    let tid_text = field_str(j, "tid");
    let role = field_str(j, "role");
    let iss = field_str(j, "iss");
    let jti = field_str(j, "jti");
    let exp = field_i64(j, "exp");
    let iat = field_i64(j, "iat");
    assert(j@ is Object);
    let scopes = match j.get("scopes") {
        Some(v) => match v {
            Json::Array(items) => {
                proof {
                    crate::json::lemma_view_array(v);
                    assert(v@->Array_0 =~= items@.map_values(|x: Json| x@));
                }
                let r = strings_of(items);
                assert(jget(j@, "scopes"@) == Some(JsonV::Array(items@.map_values(|x: Json| x@))));
                assert(r is Some <==> scopes_ok(j@));
                r
            },
            _ => {
                assert(!(v@ is Array));
                assert(!scopes_ok(j@));
                None
            },
        },
        None => None,
    };
    assert(scopes is Some <==> scopes_ok(j@));
    assert(scopes matches Some(sv) ==> sv@.map_values(|s: String| s@)
        == jget(j@, "scopes"@)->0->Array_0.map_values(|v: JsonV| v->Str_0));
    let tid = match &tid_text {
        Some(t) => parse_uuid(t.as_str()),
        None => None,
    };
    match (sub, tid, role, scopes, exp, iat, iss, jti) {
        (Some(sub), Some(tid), Some(role), Some(scopes), Some(exp), Some(iat), Some(iss), Some(jti)) => {
            let c = CasperClaims { sub, tid, role, scopes, exp, iat, iss, jti };
            assert(spec_claims_of(j@) == Some(claims_view(c)));
            Some(c)
        },
        _ => None,
    }
}

/// The claims object of `claims`.
pub fn claims_json(claims: &CasperClaims) -> (r: Json)
    ensures
        r@ == spec_claims_json(claims_view(*claims)),
{
    let mut scopes: Vec<Json> = Vec::new();
    let mut i: usize = 0;
    while i < claims.scopes.len()
        invariant
            i <= claims.scopes.len(),
            scopes@.len() == i,
            forall|k: int| 0 <= k < i ==> (#[trigger] scopes@[k])@ == JsonV::Str(claims.scopes@[k]@),
        decreases claims.scopes.len() - i,
    {
        scopes.push(jstring(claims.scopes[i].as_str()));
        i += 1;
    }
    let arr = Json::Array(scopes);
    proof {
        crate::json::lemma_view_array(&arr);
        assert(arr@->Array_0 =~= claims_view(*claims).scopes.map_values(|s: Seq<char>| JsonV::Str(s)));
    }
    let mut e: Vec<(String, Json)> = Vec::new();
    e.push(("sub".to_owned(), jstring(claims.sub.as_str())));
    e.push(("tid".to_owned(), jstring(uuid_text(claims.tid).as_str())));
    e.push(("role".to_owned(), jstring(claims.role.as_str())));
    e.push(("scopes".to_owned(), arr));
    e.push(("exp".to_owned(), Json::Int(claims.exp)));
    e.push(("iat".to_owned(), Json::Int(claims.iat)));
    e.push(("iss".to_owned(), jstring(claims.iss.as_str())));
    e.push(("jti".to_owned(), jstring(claims.jti.as_str())));
    let r = jobject(e);
    assert(r@->Object_0 =~= spec_claims_json(claims_view(*claims))->Object_0);
    r
}

/// The claims `c` that `token` carries under `public_key`: its signature
/// verifies under the key, its payload reads as `c`, and its issuer is
/// `casper`.
pub open spec fn spec_token_claims(public_key: Seq<u8>, token: Seq<char>, c: ClaimsV) -> bool {
    &&& spec_ed25519_signed(public_key, token)
    &&& spec_jwt_payload(token) matches Some(p) && spec_claims_of(p) == Some(c)
    &&& c.iss == "casper"@
}

impl JwtVerifier {
    /// Verify a JWT token string and return the claims. Any failure (bad
    /// signature, expired, wrong issuer, missing claims, claims of the wrong
    /// shape) is unauthorized.
    pub fn verify(&self, token: &str) -> (r: Result<CasperClaims, CasperError>)
        ensures
            r matches Err(e) ==> e is Unauthorized,
            r matches Ok(c) ==> spec_token_claims(self@, token@, claims_view(c)),
    {
        let mut required: Vec<String> = Vec::new();
        required.push("exp".to_string());
        required.push("iss".to_string());
        required.push("sub".to_string());
        match jwt_decode_eddsa(token, self.public_key_der.as_slice(), "casper", required.as_slice()) {
            Ok(v) => {
                let j = from_serde(&v);
                match claims_from_json(&j) {
                    Some(c) => Ok(c),
                    None => Err(CasperError::Unauthorized),
                }
            },
            Err(_) => Err(CasperError::Unauthorized),
        }
    }

    /// Full authentication: verify the token, check revocation, build the
    /// request context. Whether the token verifies rests on its signature and
    /// the clock; a token that does not verify, or whose id is revoked, is
    /// unauthorized; verified claims whose subject or role does not parse are
    /// a bad request; otherwise the context is built from the claims.
    pub fn authenticate<R: RevocationCheck>(&self, token: &str, revocation: &R) -> (r: Result<TenantContext, CasperError>)
        ensures
            r matches Err(e) ==> e is Unauthorized || e is BadRequest,
            r matches Err(CasperError::BadRequest(_)) ==> exists|c: ClaimsV|
                #[trigger] spec_token_claims(self@, token@, c) && !revocation.spec_is_revoked(c.jti)
                && (spec_parse_subject(c.sub) is None || spec_parse_role(c.role) is None),
            r matches Ok(ctx) ==> exists|c: ClaimsV| #[trigger] spec_token_claims(self@, token@, c)
                && !revocation.spec_is_revoked(c.jti)
                && spec_parse_subject(c.sub) is Some
                && ctx.tenant_id == TenantId(c.tid)
                && Some(ctx.subject@) == spec_parse_subject(c.sub)
                && Some(ctx.role) == spec_parse_role(c.role)
                && scopes_view(ctx.scopes@) == parsed_scopes(c.scopes)
                && ctx.token_id@ == c.jti,
    {
        let claims = self.verify(token)?;
        let ghost cv = claims_view(claims);
        assert(spec_token_claims(self@, token@, cv));
        let r = authenticate_claims(claims, revocation);
        r
    }
}

/// Signs Casper JWTs using an Ed25519 private key (PKCS8 DER format).
pub struct JwtSigner {
    pkcs8_der: Vec<u8>,
}

impl View for JwtSigner {
    type V = Seq<u8>;

    closed spec fn view(&self) -> Seq<u8> {
        self.pkcs8_der@
    }
}

/// How long an access token lives, in seconds (15 minutes).
pub const ACCESS_TOKEN_SECS: i64 = 900;

/// How long a refresh token lives, in seconds (7 days).
pub const REFRESH_TOKEN_SECS: i64 = 604800;

/// The claims of a token for `subject` in `tenant` issued at `now` with id
/// `jti`, living `ttl` seconds (the expiry wraps around as `i64` addition
/// does in release builds).
pub open spec fn issued_claims(tenant: TenantId, subject: Seq<char>, role: Seq<char>, scopes: Seq<Seq<char>>,
    now: i64, ttl: i64, jti: Seq<char>) -> ClaimsV {
    ClaimsV { sub: subject, tid: tenant.0, role, scopes, exp: now.wrapping_add(ttl), iat: now, iss: "casper"@, jti }
}

impl JwtSigner {
    /// Create from PKCS8 DER bytes (Ed25519 private key). The key is only
    /// used, and refused if unusable, when signing.
    pub fn from_pkcs8_der(pkcs8_der: &[u8]) -> (r: Result<JwtSigner, CasperError>)
        ensures
            r matches Ok(s) && s@ == pkcs8_der@,
    {
        let mut key: Vec<u8> = Vec::new();
        let mut i: usize = 0;
        while i < pkcs8_der.len()
            invariant
                i <= pkcs8_der.len(),
                key@ == pkcs8_der@.take(i as int),
            decreases pkcs8_der.len() - i,
        {
            key.push(pkcs8_der[i]);
            i += 1;
            assert(key@ =~= pkcs8_der@.take(i as int));
        }
        assert(pkcs8_der@.take(pkcs8_der.len() as int) =~= pkcs8_der@);
        Ok(JwtSigner { pkcs8_der: key })
    }

    /// Sign a set of claims into a JWT string.
    pub fn sign(&self, claims: &CasperClaims) -> (r: Result<String, CasperError>)
        ensures
            r is Ok <==> spec_jwt_encode(serde_form(spec_claims_json(claims_view(*claims))), self@) is Some,
            r matches Ok(t) ==> spec_jwt_encode(serde_form(spec_claims_json(claims_view(*claims))), self@) == Some(t@),
            r matches Err(e) ==> e is Internal,
    {
        let v = to_serde(&claims_json(claims));
        match jwt_encode_eddsa(&v, self.pkcs8_der.as_slice()) {
            Ok(t) => Ok(t),
            Err(e) => {
                let mut m: Vec<char> = Vec::new();
                push_chars(&mut m, "JWT signing failed: ");
                push_chars(&mut m, jwt_error_text(&e).as_str());
                Err(CasperError::Internal(string_of(m.as_slice())))
            },
        }
    }

    fn sign_issued(&self, tenant_id: TenantId, subject: &str, role: &str, scopes: Vec<String>, ttl: i64)
        -> (r: Result<(String, String), CasperError>)
        ensures
            r matches Ok((token, jti)) ==> exists|now: i64, x: u128| uuid_version(x) == 7 && jti@ == spec_uuid_text(x)
                && spec_jwt_encode(serde_form(spec_claims_json(#[trigger] issued_claims(tenant_id, subject@, role@,
                    strings_view(scopes@), now, ttl, spec_uuid_text(x)))), self@) == Some(token@),
            r is Err ==> exists|now: i64, x: u128| uuid_version(x) == 7
                && spec_jwt_encode(serde_form(spec_claims_json(#[trigger] issued_claims(tenant_id, subject@, role@,
                    strings_view(scopes@), now, ttl, spec_uuid_text(x)))), self@) is None,
            r matches Err(e) ==> e is Internal,
    {
        let now = unix_now();
        let x = new_uuid_v7();
        let jti = uuid_text(x);
        let claims = CasperClaims {
            sub: subject.to_owned(),
            tid: tenant_id.0,
            role: role.to_owned(),
            scopes,
            exp: now.wrapping_add(ttl),
            iat: now,
            iss: "casper".to_string(),
            jti: jti.clone(),
        };
        assert(claims_view(claims) == issued_claims(tenant_id, subject@, role@, strings_view(claims.scopes@),
            now, ttl, spec_uuid_text(x)));
        match self.sign(&claims) {
            Ok(token) => Ok((token, jti)),
            Err(e) => Err(e),
        }
    }

    /// Build claims and sign an access token (15 minutes) with a fresh id;
    /// returns the token and its id.
    pub fn sign_access_token(&self, tenant_id: TenantId, subject: &str, role: &str, scopes: Vec<String>)
        -> (r: Result<(String, String), CasperError>)
        ensures
            r matches Ok((token, jti)) ==> exists|now: i64, x: u128| uuid_version(x) == 7 && jti@ == spec_uuid_text(x)
                && spec_jwt_encode(serde_form(spec_claims_json(#[trigger] issued_claims(tenant_id, subject@, role@,
                    strings_view(scopes@), now, ACCESS_TOKEN_SECS, spec_uuid_text(x)))), self@) == Some(token@),
            r is Err ==> exists|now: i64, x: u128| uuid_version(x) == 7
                && spec_jwt_encode(serde_form(spec_claims_json(#[trigger] issued_claims(tenant_id, subject@, role@,
                    strings_view(scopes@), now, ACCESS_TOKEN_SECS, spec_uuid_text(x)))), self@) is None,
            r matches Err(e) ==> e is Internal,
    {
        self.sign_issued(tenant_id, subject, role, scopes, ACCESS_TOKEN_SECS)
    }

    /// Build claims and sign a refresh token (7 days, role `refresh`, no
    /// scopes) with a fresh id; returns the token and its id.
    pub fn sign_refresh_token(&self, tenant_id: TenantId, subject: &str) -> (r: Result<(String, String), CasperError>)
        ensures
            r matches Ok((token, jti)) ==> exists|now: i64, x: u128| uuid_version(x) == 7 && jti@ == spec_uuid_text(x)
                && spec_jwt_encode(serde_form(spec_claims_json(#[trigger] issued_claims(tenant_id, subject@, "refresh"@,
                    Seq::empty(), now, REFRESH_TOKEN_SECS, spec_uuid_text(x)))), self@) == Some(token@),
            r is Err ==> exists|now: i64, x: u128| uuid_version(x) == 7
                && spec_jwt_encode(serde_form(spec_claims_json(#[trigger] issued_claims(tenant_id, subject@, "refresh"@,
                    Seq::empty(), now, REFRESH_TOKEN_SECS, spec_uuid_text(x)))), self@) is None,
            r matches Err(e) ==> e is Internal,
    {
        let r = self.sign_issued(tenant_id, subject, "refresh", Vec::new(), REFRESH_TOKEN_SECS);
        proof {
            assert(Seq::<String>::empty().map_values(|s: String| s@) =~= Seq::<Seq<char>>::empty());
        }
        r
    }
}

} // verus!
