//! Per-user OAuth connections: PKCE material, the authorization redirect and
//! its form-encoded query, the state parameter that carries a flow through
//! the provider, the token requests, and when a stored token is refreshed.

use base64::Engine;
use rand::Rng;
use sha2::Digest;
use vstd::prelude::*;
use vstd::string::StringSliceAdditionalSpecFns;
use vstd::utf8::{decode_utf8, encode_utf8, valid_utf8};
use crate::codec::{json_text, parse_json, serde_form, spec_json_parse, spec_json_text};
use crate::error::{spec_error_message, CasperError};
use crate::react::spec_connect_provider;
use crate::json::{jget_str, jobject, jstring, Json, JsonV};
use crate::text::{concat_str, string_of, push_chars, str_eq, split_on, spec_contains, lemma_split_on_no_sep, lemma_split_on_append, join_with};
use crate::types::{parse_uuid, spec_parse_uuid, spec_uuid_text, str_from_utf8, utf8_error_text, uuid_text, TenantId};
use crate::vault::{colon_free, combined_ok, sealed_text, spec_aes256gcm_seal, spec_base64_encode, tenant_key, Vault};

verus! {

/// SHA-256 digest of `data`.
pub uninterp spec fn spec_sha256(data: Seq<u8>) -> Seq<u8>;

/// Unpadded URL-safe Base64 text of `bytes`.
pub uninterp spec fn spec_base64url_encode(bytes: Seq<u8>) -> Seq<char>;

/// The bytes that unpadded URL-safe Base64 `text` decodes to, if it is valid.
pub uninterp spec fn spec_base64url_decode(text: Seq<char>) -> Option<Seq<u8>>;

/// The URL-safe Base64 alphabet (no padding).
pub open spec fn is_base64url_char(c: char) -> bool {
    ('A' <= c && c <= 'Z') || ('a' <= c && c <= 'z') || ('0' <= c && c <= '9') || c == '-' || c == '_'
}

/// `rand::rng().random_range(0..62)`: a random index below 62.
#[verifier::external_body]
fn random_alnum_index() -> (r: u8)
    ensures
        r < 62,
{
    rand::rng().random_range(0..62u8)
}

/// `Sha256::new()`, `update(data)`, `finalize()`: the 32-byte digest.
#[verifier::external_body]
pub(crate) fn sha256(data: &[u8]) -> (r: Vec<u8>)
    ensures
        r@ == spec_sha256(data@),
        r@.len() == 32,
{
    let mut hasher = sha2::Sha256::new();
    hasher.update(data);
    hasher.finalize().to_vec()
}

/// `general_purpose::URL_SAFE_NO_PAD.encode(data)`.
#[verifier::external_body]
fn base64_url_encode(data: &[u8]) -> (r: String)
    ensures
        r@ == spec_base64url_encode(data@),
        forall|i: int| 0 <= i < r@.len() ==> is_base64url_char(#[trigger] r@[i]),
{
    base64::engine::general_purpose::URL_SAFE_NO_PAD.encode(data)
}

/// `general_purpose::URL_SAFE_NO_PAD.decode(text)`. Text that encodes some
/// bytes decodes back to them.
#[verifier::external_body]
fn base64_url_decode(text: &str) -> (r: Result<Vec<u8>, base64::DecodeError>)
    ensures
        r is Ok <==> spec_base64url_decode(text@) is Some,
        r matches Ok(b) ==> spec_base64url_decode(text@) == Some(b@),
        r is Err ==> forall|b: Seq<u8>| text@ != spec_base64url_encode(b),
        r matches Ok(d) ==> forall|b: Seq<u8>| text@ == spec_base64url_encode(b) ==> d@ == b,
{
    base64::engine::general_purpose::URL_SAFE_NO_PAD.decode(text)
}

// ── Random strings and PKCE ─────────────────────────────────────

/// An ASCII letter or digit.
pub open spec fn is_alnum(c: char) -> bool {
    ('0' <= c && c <= '9') || ('a' <= c && c <= 'z') || ('A' <= c && c <= 'Z')
}

/// The character for index `idx < 62`: the digits, then the lowercase
/// letters, then the uppercase letters.
pub open spec fn spec_alnum(idx: int) -> char {
    if idx < 10 {
        (48 + idx) as char
    } else if idx < 36 {
        (97 + idx - 10) as char
    } else {
        (65 + idx - 36) as char
    }
}

/// The character that `generate_random_string` draws for index `idx`.
pub fn alnum_char(idx: u8) -> (c: char)
    requires
        idx < 62,
    ensures
        c == spec_alnum(idx as int),
        is_alnum(c),
{
    if idx < 10 {
        (48u8 + idx) as char
    } else if idx < 36 {
        (87u8 + idx) as char
    } else {
        (29u8 + idx) as char
    }
}

/// A random string of `len` ASCII letters and digits.
pub fn generate_random_string(len: usize) -> (r: String)
    ensures
        r@.len() == len,
        forall|i: int| 0 <= i < len ==> is_alnum(#[trigger] r@[i]),
{
    let mut v: Vec<char> = Vec::new();
    let mut i: usize = 0;
    while i < len
        invariant
            i <= len,
            v@.len() == i,
            forall|k: int| 0 <= k < i ==> is_alnum(#[trigger] v@[k]),
        decreases len - i,
    {
        let idx = random_alnum_index();
        v.push(alnum_char(idx));
        i += 1;
    }
    string_of(v.as_slice())
}

/// The S256 PKCE challenge of a verifier: unpadded URL-safe Base64 of the
/// SHA-256 of its UTF-8 bytes.
pub open spec fn spec_pkce_challenge(verifier: Seq<char>) -> Seq<char> {
    spec_base64url_encode(spec_sha256(encode_utf8(verifier)))
}

/// The S256 PKCE challenge of `verifier`.
pub fn pkce_challenge(verifier: &str) -> (r: String)
    ensures
        r@ == spec_pkce_challenge(verifier@),
{
    let digest = sha256(verifier.as_bytes());
    base64_url_encode(digest.as_slice())
}

// ── application/x-www-form-urlencoded ───────────────────────────

/// Bytes that form encoding leaves as they are.
pub open spec fn form_safe_byte(b: u8) -> bool {
    (48 <= b && b <= 57) || (65 <= b && b <= 90) || (97 <= b && b <= 122)
        || b == 42 || b == 45 || b == 46 || b == 95
}

/// The uppercase hexadecimal digit of a value below 16.
pub open spec fn upper_hex(n: int) -> char {
    if n < 10 { (48 + n) as char } else { (55 + n) as char }
}

/// The form encoding of one byte: itself when safe, `+` for a space,
/// `%XX` in uppercase hexadecimal otherwise.
pub open spec fn form_encode_byte(b: u8) -> Seq<char> {
    if form_safe_byte(b) {
        seq![b as char]
    } else if b == 32 {
        seq!['+']
    } else {
        seq!['%', upper_hex(b as int / 16), upper_hex(b as int % 16)]
    }
}

/// The form encoding of a byte sequence, byte by byte.
pub open spec fn form_encode(bytes: Seq<u8>) -> Seq<char>
    decreases bytes.len(),
{
    if bytes.len() == 0 {
        Seq::empty()
    } else {
        form_encode(bytes.drop_last()) + form_encode_byte(bytes.last())
    }
}

/// One `name=value` pair, both form-encoded from their UTF-8 bytes.
pub open spec fn form_pair(pair: (Seq<char>, Seq<char>)) -> Seq<char> {
    form_encode(encode_utf8(pair.0)) + seq!['='] + form_encode(encode_utf8(pair.1))
}

/// The pairs form-encoded and joined by `&`.
pub open spec fn form_pairs(pairs: Seq<(Seq<char>, Seq<char>)>) -> Seq<char>
    decreases pairs.len(),
{
    if pairs.len() == 0 {
        Seq::empty()
    } else if pairs.len() == 1 {
        form_pair(pairs[0])
    } else {
        form_pairs(pairs.drop_last()) + seq!['&'] + form_pair(pairs.last())
    }
}

fn push_encoded_byte(out: &mut Vec<char>, b: u8)
    ensures
        final(out)@ == old(out)@ + form_encode_byte(b),
{
    if (48 <= b && b <= 57) || (65 <= b && b <= 90) || (97 <= b && b <= 122)
        || b == 42 || b == 45 || b == 46 || b == 95 {
        out.push(b as char);
    } else if b == 32 {
        out.push('+');
    } else {
        out.push('%');
        out.push(upper_hex_char(b / 16));
        out.push(upper_hex_char(b % 16));
    }
    assert(final(out)@ =~= old(out)@ + form_encode_byte(b)) by {
        assert(b as int / 16 == (b / 16) as int);
        assert(b as int % 16 == (b % 16) as int);
    }
}

fn upper_hex_char(n: u8) -> (c: char)
    requires
        n < 16,
    ensures
        c == upper_hex(n as int),
{
    if n < 10 { (48u8 + n) as char } else { (55u8 + n) as char }
}

/// Appends the form encoding of the UTF-8 bytes of `s`.
fn push_form_encoded(out: &mut Vec<char>, s: &str)
    ensures
        final(out)@ == old(out)@ + form_encode(encode_utf8(s@)),
{
    let bytes = s.as_bytes();
    let ghost start = out@;
    let mut i: usize = 0;
    while i < bytes.len()
        invariant
            i <= bytes.len(),
            bytes@ == encode_utf8(s@),
            out@ == start + form_encode(bytes@.take(i as int)),
        decreases bytes.len() - i,
    {
        push_encoded_byte(out, bytes[i]);
        assert(bytes@.take(i as int + 1).drop_last() =~= bytes@.take(i as int));
        i += 1;
    }
    assert(bytes@.take(bytes.len() as int) =~= bytes@);
}

/// `form_urlencoded::Serializer` with each pair appended in order, then
/// `finish()`: the `application/x-www-form-urlencoded` text of the pairs.
pub fn form_urlencode(pairs: &Vec<(&str, &str)>) -> (r: String)
    ensures
        r@ == form_pairs(pairs@.map_values(|p: (&str, &str)| (p.0@, p.1@))),
{
    let ghost view = pairs@.map_values(|p: (&str, &str)| (p.0@, p.1@));
    let mut out: Vec<char> = Vec::new();
    let mut i: usize = 0;
    while i < pairs.len()
        invariant
            i <= pairs.len(),
            view == pairs@.map_values(|p: (&str, &str)| (p.0@, p.1@)),
            out@ == form_pairs(view.take(i as int)),
        decreases pairs.len() - i,
    {
        let (name, value) = pairs[i];
        let ghost before = out@;
        if i > 0 {
            out.push('&');
        }
        push_form_encoded(&mut out, name);
        out.push('=');
        push_form_encoded(&mut out, value);
        proof {
            let t = view.take(i as int + 1);
            assert(t.drop_last() =~= view.take(i as int));
            assert(t.last() == (name@, value@));
            if i == 0 {
                assert(t.len() == 1);
                assert(out@ =~= form_pair(t[0]));
            } else {
                assert(out@ =~= before + seq!['&'] + form_pair(t.last()));
            }
        }
        i += 1;
    }
    assert(view.take(pairs.len() as int) =~= view);
    string_of(out.as_slice())
}


// ── The authorization redirect ──────────────────────────────────

/// Decrypted provider configuration used for token exchange.
pub struct ProviderConfig {
    pub authorization_url: String,
    pub token_url: String,
    pub revocation_url: Option<String>,
    pub client_id: String,
    pub client_secret: String,
    pub default_scopes: String,
}

/// The callback path under a redirect base.
pub open spec fn spec_callback_url(redirect_base: Seq<char>) -> Seq<char> {
    redirect_base + "/api/v1/connections/callback"@
}

/// `{redirect_base}/api/v1/connections/callback`.
pub fn callback_url(redirect_base: &str) -> (r: String)
    ensures
        r@ == spec_callback_url(redirect_base@),
{
    concat_str(redirect_base, "/api/v1/connections/callback")
}

/// The query of the authorization redirect, in the order the flow sends it.
pub open spec fn spec_auth_query(client_id: Seq<char>, callback: Seq<char>, scopes: Seq<char>,
    state_param: Seq<char>, challenge: Seq<char>) -> Seq<char> {
    form_pairs(seq![
        ("client_id"@, client_id),
        ("redirect_uri"@, callback),
        ("response_type"@, "code"@),
        ("scope"@, scopes),
        ("state"@, state_param),
        ("code_challenge"@, challenge),
        ("code_challenge_method"@, "S256"@),
        ("access_type"@, "offline"@),
        ("prompt"@, "consent"@),
    ])
}

/// The provider's authorization URL, `?`, and the form-encoded query that
/// asks for a code with PKCE (S256), offline access and forced consent.
pub fn authorization_url(provider: &ProviderConfig, callback: &str, state_param: &str, challenge: &str) -> (r: String)
    ensures
        r@ == provider.authorization_url@ + seq!['?']
            + spec_auth_query(provider.client_id@, callback@, provider.default_scopes@, state_param@, challenge@),
{
    let mut pairs: Vec<(&str, &str)> = Vec::new();
    pairs.push(("client_id", provider.client_id.as_str()));
    pairs.push(("redirect_uri", callback));
    pairs.push(("response_type", "code"));
    pairs.push(("scope", provider.default_scopes.as_str()));
    pairs.push(("state", state_param));
    pairs.push(("code_challenge", challenge));
    pairs.push(("code_challenge_method", "S256"));
    pairs.push(("access_type", "offline"));
    pairs.push(("prompt", "consent"));
    let query = form_urlencode(&pairs);
    proof {
        assert(pairs@.map_values(|p: (&str, &str)| (p.0@, p.1@)) =~= seq![
            ("client_id"@, provider.client_id@),
            ("redirect_uri"@, callback@),
            ("response_type"@, "code"@),
            ("scope"@, provider.default_scopes@),
            ("state"@, state_param@),
            ("code_challenge"@, challenge@),
            ("code_challenge_method"@, "S256"@),
            ("access_type"@, "offline"@),
            ("prompt"@, "consent"@),
        ]);
    }
    let mut out: Vec<char> = Vec::new();
    push_chars(&mut out, provider.authorization_url.as_str());
    out.push('?');
    push_chars(&mut out, query.as_str());
    string_of(out.as_slice())
}

// ── The state parameter ─────────────────────────────────────────

/// OAuth state parameter (encrypted, passed through the redirect).
pub struct OAuthState {
    pub tenant_id: u128,
    pub user_subject: String,
    pub provider: String,
    pub pkce_verifier: String,
    pub nonce: String,
}

/// The abstract value of an OAuth state.
pub struct OAuthStateV {
    pub tenant_id: u128,
    pub user_subject: Seq<char>,
    pub provider: Seq<char>,
    pub pkce_verifier: Seq<char>,
    pub nonce: Seq<char>,
}

impl View for OAuthState {
    type V = OAuthStateV;

    open spec fn view(&self) -> OAuthStateV {
        OAuthStateV {
            tenant_id: self.tenant_id,
            user_subject: self.user_subject@,
            provider: self.provider@,
            pkce_verifier: self.pkce_verifier@,
            nonce: self.nonce@,
        }
    }
}

/// The JSON object of a state, its fields in declaration order and the
/// tenant as hyphenated UUID text.
pub open spec fn spec_state_json(st: OAuthStateV) -> JsonV {
    JsonV::Object(seq![
        ("tenant_id"@, JsonV::Str(spec_uuid_text(st.tenant_id))),
        ("user_subject"@, JsonV::Str(st.user_subject)),
        ("provider"@, JsonV::Str(st.provider)),
        ("pkce_verifier"@, JsonV::Str(st.pkce_verifier)),
        ("nonce"@, JsonV::Str(st.nonce)),
    ])
}

/// The JSON object of a state.
pub fn state_json(st: &OAuthState) -> (r: Json)
    ensures
        r@ == spec_state_json(st@),
{
    let mut entries: Vec<(String, Json)> = Vec::new();
    entries.push(("tenant_id".to_owned(), jstring(uuid_text(st.tenant_id).as_str())));
    entries.push(("user_subject".to_owned(), jstring(st.user_subject.as_str())));
    entries.push(("provider".to_owned(), jstring(st.provider.as_str())));
    entries.push(("pkce_verifier".to_owned(), jstring(st.pkce_verifier.as_str())));
    entries.push(("nonce".to_owned(), jstring(st.nonce.as_str())));
    let r = jobject(entries);
    assert(r@ =~= spec_state_json(st@)) by {
        assert(r@->Object_0 =~= spec_state_json(st@)->Object_0);
    }
    r
}

/// The state a JSON value deserializes to: an object with the five fields
/// (others ignored), or an array of exactly the five values in order; each
/// a string, the tenant a UUID.
pub open spec fn spec_state_of(j: JsonV) -> Option<OAuthStateV> {
    match j {
        JsonV::Object(_) => {
            if jget_str(j, "tenant_id"@) is Some && jget_str(j, "user_subject"@) is Some
                && jget_str(j, "provider"@) is Some && jget_str(j, "pkce_verifier"@) is Some
                && jget_str(j, "nonce"@) is Some
                && spec_parse_uuid(jget_str(j, "tenant_id"@)->0) is Some {
                Some(OAuthStateV {
                    tenant_id: spec_parse_uuid(jget_str(j, "tenant_id"@)->0)->0,
                    user_subject: jget_str(j, "user_subject"@)->0,
                    provider: jget_str(j, "provider"@)->0,
                    pkce_verifier: jget_str(j, "pkce_verifier"@)->0,
                    nonce: jget_str(j, "nonce"@)->0,
                })
            } else {
                None
            }
        },
        JsonV::Array(a) => {
            if a.len() == 5 && a[0] is Str && a[1] is Str && a[2] is Str && a[3] is Str && a[4] is Str
                && spec_parse_uuid(a[0]->Str_0) is Some {
                Some(OAuthStateV {
                    tenant_id: spec_parse_uuid(a[0]->Str_0)->0,
                    user_subject: a[1]->Str_0,
                    provider: a[2]->Str_0,
                    pkce_verifier: a[3]->Str_0,
                    nonce: a[4]->Str_0,
                })
            } else {
                None
            }
        },
        _ => None,
    }
}

fn str_field(j: &Json, key: &str) -> (r: Option<String>)
    ensures
        r matches Some(s) ==> jget_str(j@, key@) == Some(s@),
        r is None ==> jget_str(j@, key@) is None,
{
    match j.get(key) {
        Some(v) => match v.as_str() {
            Some(s) => Some(s.clone()),
            None => None,
        },
        None => None,
    }
}

fn str_item(items: &Vec<Json>, i: usize) -> (r: Option<String>)
    requires
        i < items.len(),
    ensures
        r matches Some(s) ==> items@[i as int]@ == JsonV::Str(s@),
        r is None ==> !(items@[i as int]@ is Str),
{
    match items[i].as_str() {
        Some(s) => Some(s.clone()),
        None => None,
    }
}

/// The state a JSON value deserializes to, if it does.
pub fn state_from_json(j: &Json) -> (r: Option<OAuthState>)
    ensures
        r is Some <==> spec_state_of(j@) is Some,
        r matches Some(st) ==> spec_state_of(j@) == Some(st@),
{
    match j {
        Json::Object(_) => {
            let t = str_field(j, "tenant_id");
            let u = str_field(j, "user_subject");
            let p = str_field(j, "provider");
            let v = str_field(j, "pkce_verifier");
            let n = str_field(j, "nonce");
            match (t, u, p, v, n) {
                (Some(t), Some(u), Some(p), Some(v), Some(n)) => match parse_uuid(t.as_str()) {
                    Some(tid) => Some(OAuthState { tenant_id: tid, user_subject: u, provider: p, pkce_verifier: v, nonce: n }),
                    None => None,
                },
                _ => None,
            }
        },
        Json::Array(items) => {
            proof { crate::json::lemma_view_array(j); }
            if items.len() != 5 {
                return None;
            }
            let t = str_item(items, 0);
            let u = str_item(items, 1);
            let p = str_item(items, 2);
            let v = str_item(items, 3);
            let n = str_item(items, 4);
            match (t, u, p, v, n) {
                (Some(t), Some(u), Some(p), Some(v), Some(n)) => match parse_uuid(t.as_str()) {
                    Some(tid) => Some(OAuthState { tenant_id: tid, user_subject: u, provider: p, pkce_verifier: v, nonce: n }),
                    None => None,
                },
                _ => None,
            }
        },
        _ => None,
    }
}

/// A state's JSON object reads back as that state, wherever its tenant's
/// UUID text parses back to the tenant (which `parse_uuid` shows of every
/// hyphenated text it is given).
pub proof fn lemma_state_json_roundtrip(st: OAuthStateV)
    ensures
        spec_parse_uuid(spec_uuid_text(st.tenant_id)) == Some(st.tenant_id)
            ==> spec_state_of(spec_state_json(st)) == Some(st),
{
    reveal_strlit("tenant_id");
    reveal_strlit("user_subject");
    reveal_strlit("provider");
    reveal_strlit("pkce_verifier");
    reveal_strlit("nonce");
    reveal_with_fuel(crate::json::obj_lookup, 6);
    let j = spec_state_json(st);
    assert("tenant_id"@[0] != "user_subject"@[0] && "tenant_id"@[0] != "provider"@[0]
        && "tenant_id"@[0] != "pkce_verifier"@[0] && "tenant_id"@[0] != "nonce"@[0]
        && "user_subject"@[0] != "provider"@[0] && "user_subject"@[0] != "pkce_verifier"@[0]
        && "user_subject"@[0] != "nonce"@[0] && "provider"@[1] != "pkce_verifier"@[1]
        && "provider"@[0] != "nonce"@[0] && "pkce_verifier"@[0] != "nonce"@[0]);
    assert(jget_str(j, "tenant_id"@) == Some(spec_uuid_text(st.tenant_id)));
    assert(jget_str(j, "user_subject"@) == Some(st.user_subject));
    assert(jget_str(j, "provider"@) == Some(st.provider));
    assert(jget_str(j, "pkce_verifier"@) == Some(st.pkce_verifier));
    assert(jget_str(j, "nonce"@) == Some(st.nonce));
}

// ── Starting a flow and coming back from it ─────────────────────

/// `text` is what `Vault::encrypt_value` returns for `plaintext` under the
/// key of `tenant` derived from `master`: some nonce and the sealed bytes
/// (only plaintexts of at most 2^36 bytes are sealed).
pub open spec fn sealed_for(master: Seq<u8>, tenant: TenantId, plaintext: Seq<u8>, text: Seq<char>) -> bool {
    plaintext.len() <= 0x10_0000_0000 && exists|n: Seq<u8>| n.len() == 12 && colon_free(spec_base64_encode(n))
        && text == sealed_text(n, spec_aes256gcm_seal(tenant_key(master, tenant), n, plaintext))
}

/// The bytes that are encrypted into the state parameter: the compact JSON
/// text of the state object.
pub open spec fn spec_state_plaintext(st: OAuthStateV) -> Seq<u8> {
    encode_utf8(spec_json_text(serde_form(spec_state_json(st))))
}

/// A string of `len` random letters and digits.
pub open spec fn fresh_secret(s: Seq<char>, len: nat) -> bool {
    s.len() == len && forall|i: int| 0 <= i < s.len() ==> is_alnum(#[trigger] s[i])
}

/// The state minted for a flow of `user_subject` in `tenant` towards
/// `provider_name`: fresh 64-character PKCE verifier and 32-character nonce.
pub open spec fn minted_state(st: OAuthStateV, tenant: TenantId, user_subject: Seq<char>, provider_name: Seq<char>) -> bool {
    st.tenant_id == tenant.0 && st.user_subject == user_subject && st.provider == provider_name
        && fresh_secret(st.pkce_verifier, 64) && fresh_secret(st.nonce, 32)
}

/// Starts the OAuth flow: draws a PKCE verifier and a nonce, seals the state
/// under the tenant's key into the `state` parameter, and returns the
/// authorization URL to redirect the user to. It fails only when the state
/// text is too long to seal.
pub fn start_oauth_flow(vault: &Vault, provider: &ProviderConfig, tenant_id: TenantId, user_subject: &str,
    provider_name: &str, redirect_base: &str) -> (r: Result<String, CasperError>)
    ensures
        r matches Ok(url) ==> exists|st: OAuthStateV, sealed: Seq<char>|
            minted_state(st, tenant_id, user_subject@, provider_name@)
            && sealed_for(vault@, tenant_id, spec_state_plaintext(st), sealed)
            && url@ == provider.authorization_url@ + seq!['?'] + spec_auth_query(provider.client_id@,
                spec_callback_url(redirect_base@), provider.default_scopes@,
                spec_base64url_encode(encode_utf8(sealed)), spec_pkce_challenge(st.pkce_verifier)),
        r matches Err(e) ==> e is Internal && exists|st: OAuthStateV|
            minted_state(st, tenant_id, user_subject@, provider_name@)
            && spec_state_plaintext(st).len() > 0x10_0000_0000,
{
    let pkce_verifier = generate_random_string(64);
    let challenge = pkce_challenge(pkce_verifier.as_str());
    let state = OAuthState {
        tenant_id: tenant_id.0,
        user_subject: user_subject.to_owned(),
        provider: provider_name.to_owned(),
        pkce_verifier,
        nonce: generate_random_string(32),
    };
    let state_text = json_text(&state_json(&state));
    let encrypted = match vault.encrypt_value(tenant_id, state_text.as_str().as_bytes()) {
        Ok(t) => t,
        Err(e) => {
            assert(minted_state(state@, tenant_id, user_subject@, provider_name@));
            return Err(e);
        },
    };
    let state_param = base64_url_encode(encrypted.as_str().as_bytes());
    let callback = callback_url(redirect_base);
    let url = authorization_url(provider, callback.as_str(), state_param.as_str(), challenge.as_str());
    assert(minted_state(state@, tenant_id, user_subject@, provider_name@));
    assert(sealed_for(vault@, tenant_id, spec_state_plaintext(state@), encrypted@));
    Ok(url)
}

/// The state that decrypted state bytes hold: UTF-8 JSON that deserializes.
pub open spec fn spec_state_from_plaintext(pt: Seq<u8>) -> Option<OAuthStateV> {
    if valid_utf8(pt) {
        match spec_json_parse(decode_utf8(pt)) {
            Some(j) => spec_state_of(j),
            None => None,
        }
    } else {
        None
    }
}

/// Decrypts and checks the `state` parameter of a callback. The parameter is
/// unpadded URL-safe Base64 of the sealed text, which is opened with the
/// platform (nil-tenant) key. `None` stands for a sealed text whose nonce
/// does not decode to 12 bytes, on which AES-GCM cannot be called.
pub fn decode_oauth_state(vault: &Vault, state_param: &str) -> (r: Option<Result<OAuthState, CasperError>>)
    ensures
        spec_base64url_decode(state_param@) is None ==> (r matches Some(Err(CasperError::BadRequest(m)))
            && m@ == "invalid state parameter"@),
        spec_base64url_decode(state_param@) matches Some(b) ==> (!valid_utf8(b) ==> (r matches Some(Err(CasperError::BadRequest(m)))
            && m@ == "invalid state encoding"@)),
        spec_base64url_decode(state_param@) matches Some(b) ==> (valid_utf8(b) ==> (r is None <==> !combined_ok(decode_utf8(b)))),
        forall|pt: Seq<u8>| #![trigger sealed_for(vault@, TenantId(0), pt, decode_utf8(spec_base64url_decode(state_param@)->0))]
            spec_base64url_decode(state_param@) is Some && valid_utf8(spec_base64url_decode(state_param@)->0)
            && sealed_for(vault@, TenantId(0), pt, decode_utf8(spec_base64url_decode(state_param@)->0))
            ==> match spec_state_from_plaintext(pt) {
                Some(st) => r matches Some(Ok(s)) && s@ == st,
                None => r matches Some(Err(CasperError::BadRequest(m))) && m@ == "corrupted state parameter"@,
            },
        r matches Some(Ok(s)) ==> exists|pt: Seq<u8>| spec_state_from_plaintext(pt) == Some(s@),
        r matches Some(Err(e)) ==> e is BadRequest,
{
    let bytes = match base64_url_decode(state_param) {
        Ok(b) => b,
        Err(_) => return Some(Err(CasperError::BadRequest("invalid state parameter".to_string()))),
    };
    let text = match str_from_utf8(bytes.as_slice()) {
        Ok(t) => t,
        Err(_) => return Some(Err(CasperError::BadRequest("invalid state encoding".to_string()))),
    };
    let decrypted = match vault.try_decrypt_value(TenantId(0), text) {
        None => return None,
        Some(Err(_)) => {
            proof {
                assert forall|pt: Seq<u8>| #![trigger sealed_for(vault@, TenantId(0), pt, text@)]
                    sealed_for(vault@, TenantId(0), pt, text@) implies false by {
                    let n = choose|n: Seq<u8>| n.len() == 12 && colon_free(spec_base64_encode(n))
                        && text@ == sealed_text(n, spec_aes256gcm_seal(tenant_key(vault@, TenantId(0)), n, pt));
                }
            }
            return Some(Err(CasperError::BadRequest("invalid or expired state parameter".to_string())));
        },
        Some(Ok(d)) => d,
    };
    let plain = decrypted.expose();
    proof {
        assert forall|pt: Seq<u8>| #![trigger sealed_for(vault@, TenantId(0), pt, text@)]
            sealed_for(vault@, TenantId(0), pt, text@) implies plain@ == pt by {
            let n = choose|n: Seq<u8>| n.len() == 12 && colon_free(spec_base64_encode(n))
                && text@ == sealed_text(n, spec_aes256gcm_seal(tenant_key(vault@, TenantId(0)), n, pt));
        }
    }
    let parsed = match str_from_utf8(plain) {
        Ok(s) => match parse_json(s) {
            Some(j) => state_from_json(&j),
            None => None,
        },
        Err(_) => None,
    };
    assert(parsed is Some <==> spec_state_from_plaintext(plain@) is Some);
    match parsed {
        Some(st) => Some(Ok(st)),
        None => Some(Err(CasperError::BadRequest("corrupted state parameter".to_string()))),
    }
}


// ── Token requests ──────────────────────────────────────────────

/// A form as name/value texts.
pub open spec fn form_view(f: Seq<(String, String)>) -> Seq<(Seq<char>, Seq<char>)> {
    f.map_values(|p: (String, String)| (p.0@, p.1@))
}

/// The form that exchanges an authorization code for tokens.
pub fn code_exchange_form(code: &str, callback: &str, provider: &ProviderConfig, pkce_verifier: &str) -> (r: Vec<(String, String)>)
    ensures
        form_view(r@) == seq![
            ("grant_type"@, "authorization_code"@),
            ("code"@, code@),
            ("redirect_uri"@, callback@),
            ("client_id"@, provider.client_id@),
            ("client_secret"@, provider.client_secret@),
            ("code_verifier"@, pkce_verifier@),
        ],
{
    let mut f: Vec<(String, String)> = Vec::new();
    f.push(("grant_type".to_owned(), "authorization_code".to_owned()));
    f.push(("code".to_owned(), code.to_owned()));
    f.push(("redirect_uri".to_owned(), callback.to_owned()));
    f.push(("client_id".to_owned(), provider.client_id.clone()));
    f.push(("client_secret".to_owned(), provider.client_secret.clone()));
    f.push(("code_verifier".to_owned(), pkce_verifier.to_owned()));
    assert(form_view(f@) =~= seq![
        ("grant_type"@, "authorization_code"@),
        ("code"@, code@),
        ("redirect_uri"@, callback@),
        ("client_id"@, provider.client_id@),
        ("client_secret"@, provider.client_secret@),
        ("code_verifier"@, pkce_verifier@),
    ]);
    f
}

/// The form that trades a refresh token for new tokens.
pub fn refresh_form(refresh_token: &str, provider: &ProviderConfig) -> (r: Vec<(String, String)>)
    ensures
        form_view(r@) == seq![
            ("grant_type"@, "refresh_token"@),
            ("refresh_token"@, refresh_token@),
            ("client_id"@, provider.client_id@),
            ("client_secret"@, provider.client_secret@),
        ],
{
    let mut f: Vec<(String, String)> = Vec::new();
    f.push(("grant_type".to_owned(), "refresh_token".to_owned()));
    f.push(("refresh_token".to_owned(), refresh_token.to_owned()));
    f.push(("client_id".to_owned(), provider.client_id.clone()));
    f.push(("client_secret".to_owned(), provider.client_secret.clone()));
    assert(form_view(f@) =~= seq![
        ("grant_type"@, "refresh_token"@),
        ("refresh_token"@, refresh_token@),
        ("client_id"@, provider.client_id@),
        ("client_secret"@, provider.client_secret@),
    ]);
    f
}

/// Token response from the OAuth provider.
pub struct TokenResponse {
    pub access_token: String,
    pub refresh_token: Option<String>,
    pub expires_in: Option<i64>,
    pub scope: Option<String>,
    pub token_type: Option<String>,
}

/// The earliest instant a timestamp can hold, in Unix seconds
/// (-9999-01-01T00:00:00Z).
pub const MIN_UNIX_SECONDS: i64 = -377705116800;

/// The latest instant a timestamp can hold, in Unix seconds
/// (9999-12-31T23:59:59Z).
pub const MAX_UNIX_SECONDS: i64 = 253402300799;

/// Whether `t` Unix seconds is an instant a timestamp can hold.
pub open spec fn instant_ok(t: int) -> bool {
    MIN_UNIX_SECONDS <= t && t <= MAX_UNIX_SECONDS
}

/// When tokens that live `expires_in` seconds from `now` expire.
pub open spec fn spec_token_expiry(now: i64, expires_in: Option<i64>) -> Option<int> {
    match expires_in {
        Some(s) => Some(now + s),
        None => None,
    }
}

/// The expiry instant of tokens received at `now` (Unix seconds), if the
/// provider said how long they live.
pub fn token_expiry(now: i64, expires_in: Option<i64>) -> (r: Option<i64>)
    requires
        instant_ok(now as int),
        expires_in matches Some(s) ==> instant_ok(now + s),
    ensures
        r matches Some(t) ==> spec_token_expiry(now, expires_in) == Some(t as int),
        r is None <==> expires_in is None,
{
    match expires_in {
        Some(s) => Some(now + s),
        None => None,
    }
}

/// The scopes a connection records: those the provider granted, or the
/// provider's default scopes when the response names none.
pub fn granted_scopes(tokens: &TokenResponse, default_scopes: &str) -> (r: String)
    ensures
        r@ == match tokens.scope {
            Some(s) => s@,
            None => default_scopes@,
        },
{
    match &tokens.scope {
        Some(s) => s.clone(),
        None => default_scopes.to_owned(),
    }
}

/// Tokens sealed for storage.
pub struct SealedTokens {
    pub access_token_enc: String,
    pub refresh_token_enc: Option<String>,
    pub token_expires_at: Option<i64>,
}

/// Seals the access token and the refresh token (when given) under the
/// tenant's key and computes their expiry from `now`. It fails only for a
/// token too long to seal.
pub fn seal_tokens(vault: &Vault, tenant_id: TenantId, tokens: &TokenResponse, now: i64) -> (r: Result<SealedTokens, CasperError>)
    requires
        instant_ok(now as int),
        tokens.expires_in matches Some(s) ==> instant_ok(now + s),
    ensures
        encode_utf8(tokens.access_token@).len() <= 0x10_0000_0000
            && (tokens.refresh_token matches Some(t) ==> encode_utf8(t@).len() <= 0x10_0000_0000) ==> r is Ok,
        r matches Ok(st) ==> sealed_for(vault@, tenant_id, encode_utf8(tokens.access_token@), st.access_token_enc@),
        r matches Ok(st) ==> (st.refresh_token_enc is Some <==> tokens.refresh_token is Some),
        r matches Ok(st) ==> (tokens.refresh_token matches Some(t) ==> sealed_for(vault@, tenant_id,
            encode_utf8(t@), st.refresh_token_enc->0@)),
        r matches Ok(st) ==> (st.token_expires_at matches Some(x) ==> spec_token_expiry(now, tokens.expires_in) == Some(x as int)),
        r matches Ok(st) ==> (st.token_expires_at is None <==> tokens.expires_in is None),
        r matches Err(e) ==> e is Internal,
{
    let access = vault.encrypt_value(tenant_id, tokens.access_token.as_str().as_bytes())?;
    let refresh = match &tokens.refresh_token {
        Some(t) => Some(vault.encrypt_value(tenant_id, t.as_str().as_bytes())?),
        None => None,
    };
    Ok(SealedTokens {
        access_token_enc: access,
        refresh_token_enc: refresh,
        token_expires_at: token_expiry(now, tokens.expires_in),
    })
}

/// Stored tokens of a connection.
pub struct StoredTokens {
    pub access_token_enc: String,
    pub refresh_token_enc: Option<String>,
    pub token_expires_at: Option<i64>,
}

/// What to do to obtain a usable access token.
pub enum TokenPlan {
    /// The stored access token is still good: decrypt it.
    UseStored(String),
    /// The access token expires within five minutes: refresh it with this
    /// sealed refresh token.
    Refresh(String),
}

/// Whether a token expiring at `expires_at` must be refreshed at `now`: it
/// expires within five minutes. A token without expiry never is.
pub open spec fn spec_needs_refresh(expires_at: Option<i64>, now: i64) -> bool {
    match expires_at {
        Some(ea) => ea < now + 300,
        None => false,
    }
}

/// Whether a token expiring at `expires_at` must be refreshed at `now`.
pub fn needs_refresh(expires_at: Option<i64>, now: i64) -> (r: bool)
    requires
        instant_ok(now + 300),
    ensures
        r == spec_needs_refresh(expires_at, now),
{
    match expires_at {
        Some(ea) => ea < now + 300,
        None => false,
    }
}

/// The error for a user who has not connected a provider.
pub open spec fn spec_not_connected_text(user_subject: Seq<char>, provider_name: Seq<char>) -> Seq<char> {
    "User '"@ + user_subject + "' has not connected '"@ + provider_name
        + "'. They need to connect it in Settings > Connections."@
}

/// The error for an expired token without a refresh token.
pub open spec fn spec_expired_text(user_subject: Seq<char>, provider_name: Seq<char>) -> Seq<char> {
    "User '"@ + user_subject + "'s '"@ + provider_name
        + "' token has expired and cannot be refreshed. They need to reconnect in Settings > Connections."@
}

fn five(a: &str, b: &str, c: &str, d: &str, e: &str) -> (r: String)
    ensures
        r@ == a@ + b@ + c@ + d@ + e@,
{
    let mut v: Vec<char> = Vec::new();
    push_chars(&mut v, a);
    push_chars(&mut v, b);
    push_chars(&mut v, c);
    push_chars(&mut v, d);
    push_chars(&mut v, e);
    string_of(v.as_slice())
}

/// `Forbidden`: the user has not connected the provider.
pub fn not_connected_error(user_subject: &str, provider_name: &str) -> (r: CasperError)
    ensures
        r matches CasperError::Forbidden(m) && m@ == spec_not_connected_text(user_subject@, provider_name@),
{
    CasperError::Forbidden(five("User '", user_subject, "' has not connected '", provider_name,
        "'. They need to connect it in Settings > Connections."))
}

/// How to obtain the access token of a user's connection at `now`: refused
/// when there is no connection, or when the token must be refreshed and no
/// refresh token was stored.
pub fn token_plan(row: Option<StoredTokens>, user_subject: &str, provider_name: &str, now: i64) -> (r: Result<TokenPlan, CasperError>)
    requires
        instant_ok(now + 300),
    ensures
        row is None ==> (r matches Err(CasperError::Forbidden(m)) && m@ == spec_not_connected_text(user_subject@, provider_name@)),
        row matches Some(t) ==> (spec_needs_refresh(t.token_expires_at, now) ==> match t.refresh_token_enc {
            Some(rt) => r matches Ok(TokenPlan::Refresh(x)) && x@ == rt@,
            None => r matches Err(CasperError::Forbidden(m)) && m@ == spec_expired_text(user_subject@, provider_name@),
        }),
        row matches Some(t) ==> (!spec_needs_refresh(t.token_expires_at, now) ==> (r matches Ok(TokenPlan::UseStored(x))
            && x@ == t.access_token_enc@)),
{
    match row {
        None => Err(not_connected_error(user_subject, provider_name)),
        Some(t) => {
            if needs_refresh(t.token_expires_at, now) {
                match t.refresh_token_enc {
                    Some(rt) => Ok(TokenPlan::Refresh(rt)),
                    None => Err(CasperError::Forbidden(five("User '", user_subject, "'s '", provider_name,
                        "' token has expired and cannot be refreshed. They need to reconnect in Settings > Connections."))),
                }
            } else {
                Ok(TokenPlan::UseStored(t.access_token_enc))
            }
        },
    }
}

/// `Forbidden`: the provider refused to refresh the token, with its answer.
pub fn refresh_rejected_error(user_subject: &str, provider_name: &str, body: &str) -> (r: CasperError)
    ensures
        r matches CasperError::Forbidden(m) && m@ == "Token refresh failed for '"@ + user_subject@ + "' on '"@
            + provider_name@ + "': "@ + body@ + ". They may need to reconnect."@,
{
    let mut v: Vec<char> = Vec::new();
    push_chars(&mut v, "Token refresh failed for '");
    push_chars(&mut v, user_subject);
    push_chars(&mut v, "' on '");
    push_chars(&mut v, provider_name);
    push_chars(&mut v, "': ");
    push_chars(&mut v, body);
    push_chars(&mut v, ". They may need to reconnect.");
    CasperError::Forbidden(string_of(v.as_slice()))
}

// ── Providers a user can connect ────────────────────────────────

/// A configured OAuth provider as listed for users.
pub struct ProviderListing {
    pub name: String,
    pub display_name: String,
    pub icon_url: Option<String>,
    pub is_active: bool,
}

/// Available provider for the "connect" UI.
pub struct AvailableProvider {
    pub name: String,
    pub display_name: String,
    pub icon_url: Option<String>,
    pub connected: bool,
}

/// The abstract value of an available provider.
pub struct AvailableProviderV {
    pub name: Seq<char>,
    pub display_name: Seq<char>,
    pub icon_url: Option<Seq<char>>,
    pub connected: bool,
}

/// The abstract value of an optional string.
pub open spec fn opt_view(o: Option<String>) -> Option<Seq<char>> {
    match o {
        Some(s) => Some(s@),
        None => None,
    }
}

/// The abstract value of an available provider.
pub open spec fn available_view(a: AvailableProvider) -> AvailableProviderV {
    AvailableProviderV { name: a.name@, display_name: a.display_name@, icon_url: opt_view(a.icon_url), connected: a.connected }
}

/// Whether `name` is among the connected providers.
pub open spec fn is_connected(connected: Seq<String>, name: Seq<char>) -> bool {
    exists|i: int| 0 <= i < connected.len() && #[trigger] connected[i]@ == name
}

/// The active providers in order, each marked with whether the user has
/// connected it.
pub open spec fn spec_available(providers: Seq<ProviderListing>, connected: Seq<String>) -> Seq<AvailableProviderV>
    decreases providers.len(),
{
    if providers.len() == 0 {
        Seq::empty()
    } else {
        let rest = spec_available(providers.drop_last(), connected);
        let p = providers.last();
        if p.is_active {
            rest.push(AvailableProviderV { name: p.name@, display_name: p.display_name@, icon_url: opt_view(p.icon_url),
                connected: is_connected(connected, p.name@) })
        } else {
            rest
        }
    }
}

fn contains_name(connected: &Vec<String>, name: &str) -> (r: bool)
    ensures
        r == is_connected(connected@, name@),
{
    let mut i: usize = 0;
    while i < connected.len()
        invariant
            i <= connected.len(),
            forall|k: int| 0 <= k < i ==> connected@[k]@ != name@,
        decreases connected.len() - i,
    {
        if str_eq(connected[i].as_str(), name) {
            return true;
        }
        i += 1;
    }
    false
}

/// The active providers, in the order given, with their connection status
/// for the user.
pub fn available_providers(providers: &Vec<ProviderListing>, connected: &Vec<String>) -> (r: Vec<AvailableProvider>)
    ensures
        r@.map_values(|a: AvailableProvider| available_view(a)) == spec_available(providers@, connected@),
{
    let mut out: Vec<AvailableProvider> = Vec::new();
    let mut i: usize = 0;
    while i < providers.len()
        invariant
            i <= providers.len(),
            out@.map_values(|a: AvailableProvider| available_view(a)) == spec_available(providers@.take(i as int), connected@),
        decreases providers.len() - i,
    {
        let p = &providers[i];
        let ghost before = out@.map_values(|a: AvailableProvider| available_view(a));
        assert(providers@.take(i as int + 1).drop_last() =~= providers@.take(i as int));
        if p.is_active {
            let icon = match &p.icon_url {
                Some(u) => Some(u.clone()),
                None => None,
            };
            let connected_now = contains_name(connected, p.name.as_str());
            out.push(AvailableProvider { name: p.name.clone(), display_name: p.display_name.clone(), icon_url: icon,
                connected: connected_now });
            assert(out@.map_values(|a: AvailableProvider| available_view(a)) =~= before.push(
                available_view(out@.last())));
        }
        i += 1;
    }
    assert(providers@.take(providers.len() as int) =~= providers@);
    out
}


/// The refusal for a provider the user has not connected names that
/// provider where the agent loop looks for it: reading the error's text, the
/// loop asks the user to connect exactly `provider_name`. User and provider
/// names hold no single quote.
pub proof fn lemma_not_connected_names_provider(e: CasperError, user_subject: Seq<char>, provider_name: Seq<char>)
    requires
        e matches CasperError::Forbidden(m) && m@ == spec_not_connected_text(user_subject, provider_name),
        !user_subject.contains('\''),
        !provider_name.contains('\''),
    ensures
        spec_connect_provider(spec_error_message(e)) == Some(provider_name),
{
    reveal_strlit("Insufficient permissions: ");
    reveal_strlit("User '");
    reveal_strlit("' has not connected '");
    reveal_strlit("'. They need to connect it in Settings > Connections.");
    reveal_strlit("has not connected");
    let q = '\'';
    let a = "Insufficient permissions: "@ + "User '"@.drop_last();
    let b = "' has not connected '"@;
    let mid = b.subrange(1, b.len() - 1);
    let tail = "'. They need to connect it in Settings > Connections."@.drop_first();
    let msg = spec_error_message(e);
    let s1 = a.push(q) + user_subject;
    let s2 = s1.push(q) + mid;
    let s3 = s2.push(q) + provider_name;
    let s4 = s3.push(q) + tail;
    assert(msg =~= s4);
    assert(!a.contains(q)) by {
        assert forall|k: int| 0 <= k < a.len() implies a[k] != q by {}
    }
    assert(!mid.contains(q)) by {
        assert forall|k: int| 0 <= k < mid.len() implies mid[k] != q by {}
    }
    assert(!tail.contains(q)) by {
        assert forall|k: int| 0 <= k < tail.len() implies tail[k] != q by {}
    }
    lemma_split_on_no_sep(a, q);
    lemma_split_on_append(a, q, user_subject);
    lemma_split_on_append(s1, q, mid);
    lemma_split_on_append(s2, q, provider_name);
    lemma_split_on_append(s3, q, tail);
    assert(split_on(msg, q) == seq![a, user_subject, mid, provider_name, tail]);
    let i: int = (a.len() + 1 + user_subject.len() + 2) as int;
    assert(msg.subrange(i, i + 17) =~= "has not connected"@);
    assert(spec_contains(msg, "has not connected"@));
}


// ── OAuth providers ─────────────────────────────────────────────

/// Request to configure an OAuth provider.
pub struct CreateProviderRequest {
    pub name: String,
    pub display_name: String,
    pub authorization_url: String,
    pub token_url: String,
    pub revocation_url: Option<String>,
    pub client_id: String,
    pub client_secret: String,
    pub default_scopes: String,
    pub icon_url: Option<String>,
}

/// Request to change an OAuth provider; absent fields stay.
pub struct UpdateProviderRequest {
    pub display_name: Option<String>,
    pub authorization_url: Option<String>,
    pub token_url: Option<String>,
    pub revocation_url: Option<String>,
    pub client_id: Option<String>,
    pub client_secret: Option<String>,
    pub default_scopes: Option<String>,
    pub icon_url: Option<String>,
    pub is_active: Option<bool>,
}

/// Request for registering an MCP server as an OAuth provider.
pub struct RegisterMcpRequest {
    pub mcp_url: String,
    pub display_name: Option<String>,
}

/// The platform scope: client secrets are sealed for the nil tenant.
pub open spec fn platform() -> TenantId {
    TenantId(0)
}

/// Seals a provider's client secret under the platform key. It fails only
/// for a secret too long to seal.
pub fn seal_client_secret(vault: &Vault, client_secret: &str) -> (r: Result<String, CasperError>)
    ensures
        encode_utf8(client_secret@).len() <= 0x10_0000_0000 ==> r is Ok,
        r matches Ok(t) ==> sealed_for(vault@, platform(), encode_utf8(client_secret@), t@),
        r matches Err(e) ==> e is Internal,
{
    vault.encrypt_value(TenantId(0), client_secret.as_bytes())
}

/// A stored provider, its client secret sealed.
pub struct ProviderRow {
    pub authorization_url: String,
    pub token_url: String,
    pub revocation_url: Option<String>,
    pub client_id: String,
    pub client_secret_enc: String,
    pub default_scopes: String,
}

/// The configuration of a stored provider with its client secret opened.
/// `None` stands for a sealed secret whose nonce does not decode to 12
/// bytes, on which AES-GCM cannot be called.
pub fn provider_config_of(vault: &Vault, row: ProviderRow) -> (r: Option<Result<ProviderConfig, CasperError>>)
    ensures
        r is None <==> !combined_ok(row.client_secret_enc@),
        forall|pt: Seq<u8>| #[trigger] sealed_for(vault@, platform(), pt, row.client_secret_enc@) ==> (valid_utf8(pt)
            ==> (r matches Some(Ok(c)) && encode_utf8(c.client_secret@) == pt)),
        r matches Some(Ok(c)) ==> c.authorization_url@ == row.authorization_url@ && c.token_url@ == row.token_url@
            && c.client_id@ == row.client_id@ && c.default_scopes@ == row.default_scopes@
            && c.revocation_url is Some == row.revocation_url is Some
            && (c.revocation_url matches Some(u) ==> u@ == row.revocation_url->0@),
        r matches Some(Err(e)) ==> e is Internal,
{
    let ProviderRow { authorization_url, token_url, revocation_url, client_id, client_secret_enc, default_scopes } = row;
    match vault.try_decrypt_value(TenantId(0), client_secret_enc.as_str()) {
        None => None,
        Some(Err(e)) => {
            proof {
                assert forall|pt: Seq<u8>| #[trigger] sealed_for(vault@, platform(), pt, client_secret_enc@) implies false by {
                    let n = choose|n: Seq<u8>| n.len() == 12 && colon_free(spec_base64_encode(n))
                        && client_secret_enc@ == sealed_text(n, spec_aes256gcm_seal(tenant_key(vault@, TenantId(0)), n, pt));
                }
            }
            Some(Err(e))
        },
        Some(Ok(secret)) => {
            proof {
                assert forall|pt: Seq<u8>| #[trigger] sealed_for(vault@, platform(), pt, client_secret_enc@) implies secret@ == pt by {
                    let n = choose|n: Seq<u8>| n.len() == 12 && colon_free(spec_base64_encode(n))
                        && client_secret_enc@ == sealed_text(n, spec_aes256gcm_seal(tenant_key(vault@, TenantId(0)), n, pt));
                }
            }
            match str_from_utf8(secret.expose()) {
                Ok(text) => {
                    proof { vstd::utf8::decode_utf8_encode_utf8(secret@); }
                    Some(Ok(ProviderConfig {
                        authorization_url,
                        token_url,
                        revocation_url,
                        client_id,
                        client_secret: text.to_owned(),
                        default_scopes,
                    }))
                },
                Err(e) => {
                    let mut v: Vec<char> = Vec::new();
                    push_chars(&mut v, "invalid client_secret encoding: ");
                    push_chars(&mut v, utf8_error_text(&e).as_str());
                    Some(Err(CasperError::Internal(string_of(v.as_slice()))))
                },
            }
        },
    }
}

/// The texts of a list of strings.
pub open spec fn texts(v: Seq<String>) -> Seq<Seq<char>> {
    v.map_values(|s: String| s@)
}

fn join_spaces(parts: &Vec<String>) -> (r: String)
    ensures
        r@ == join_with(texts(parts@), ' '),
{
    let mut out: Vec<char> = Vec::new();
    let mut i: usize = 0;
    while i < parts.len()
        invariant
            i <= parts.len(),
            out@ == join_with(texts(parts@.take(i as int)), ' '),
        decreases parts.len() - i,
    {
        let ghost before = out@;
        if i > 0 {
            out.push(' ');
        }
        push_chars(&mut out, parts[i].as_str());
        proof {
            let t = texts(parts@.take(i as int + 1));
            assert(t.drop_last() =~= texts(parts@.take(i as int)));
            assert(t.last() == parts@[i as int]@);
            if i == 0 {
                assert(t.len() == 1);
                assert(out@ =~= t[0]);
            } else {
                assert(out@ =~= before.push(' ') + t.last());
            }
        }
        i += 1;
    }
    assert(parts@.take(parts.len() as int) =~= parts@);
    string_of(out.as_slice())
}

/// The scopes a registered MCP server's provider asks for: those its
/// protected-resource metadata lists, else those its authorization server
/// lists, joined by spaces; none when neither lists any.
pub fn registration_scopes(resource_scopes: &Vec<String>, server_scopes: &Vec<String>) -> (r: String)
    ensures
        resource_scopes@.len() > 0 ==> r@ == join_with(texts(resource_scopes@), ' '),
        resource_scopes@.len() == 0 && server_scopes@.len() > 0 ==> r@ == join_with(texts(server_scopes@), ' '),
        resource_scopes@.len() == 0 && server_scopes@.len() == 0 ==> r@.len() == 0,
{
    if resource_scopes.len() > 0 {
        join_spaces(resource_scopes)
    } else if server_scopes.len() > 0 {
        join_spaces(server_scopes)
    } else {
        String::new()
    }
}

} // verus!
