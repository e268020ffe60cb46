//! AES-256-GCM secret vault with HKDF-derived per-tenant keys: key
//! derivation, sealing and opening of secrets, and the text forms in which
//! sealed secrets are stored.

use aes_gcm::aead::Aead;
use aes_gcm::KeyInit;
use base64::Engine;
use vstd::prelude::*;
use vstd::string::StringSliceAdditionalSpecFns;
use vstd::utf8::encode_utf8;
use crate::error::CasperError;
use crate::text::{chars_of, concat_str, concat3, has_prefix, string_of, strip_prefix_chars};
use crate::types::{SecretValue, TenantId, spec_uuid_text};

verus! {

/// HKDF-SHA256 (no salt) of `ikm` expanded with `info` into 32 bytes.
pub uninterp spec fn spec_hkdf_sha256_32(ikm: Seq<u8>, info: Seq<u8>) -> Seq<u8>;

/// AES-256-GCM encryption of `plaintext` under `key` and `nonce` (no
/// associated data): the ciphertext followed by the 16-byte tag. Only
/// plaintexts of at most 2^36 bytes are sealed; of longer ones nothing is
/// claimed.
pub uninterp spec fn spec_aes256gcm_seal(key: Seq<u8>, nonce: Seq<u8>, plaintext: Seq<u8>) -> Seq<u8>;

/// AES-256-GCM decryption of `ciphertext` under `key` and `nonce`: the
/// plaintext when the tag authenticates, nothing otherwise.
pub uninterp spec fn spec_aes256gcm_open(key: Seq<u8>, nonce: Seq<u8>, ciphertext: Seq<u8>) -> Option<Seq<u8>>;

/// Standard padded Base64 text of `bytes`.
pub uninterp spec fn spec_base64_encode(bytes: Seq<u8>) -> Seq<char>;

/// The bytes that standard padded Base64 `text` decodes to, if it is valid.
pub uninterp spec fn spec_base64_decode(text: Seq<char>) -> Option<Seq<u8>>;

/// The standard Base64 alphabet with its padding character.
pub open spec fn is_base64_char(c: char) -> bool {
    ('A' <= c && c <= 'Z') || ('a' <= c && c <= 'z') || ('0' <= c && c <= '9') || c == '+' || c == '/' || c == '='
}

/// The error of an AEAD operation.
#[verifier::external_type_specification]
#[verifier::external_body]
pub struct ExAeadError(aes_gcm::aead::Error);

/// The error of a Base64 decoding.
#[verifier::external_type_specification]
#[verifier::external_body]
pub struct ExDecodeError(base64::DecodeError);

/// `Hkdf::<Sha256>::new(None, ikm).expand(info, &mut [0u8; 32])`: 32 bytes
/// of key material. Expanding to 32 bytes is within HKDF-SHA256's limit of
/// 255 * 32, so it does not fail.
#[verifier::external_body]
fn hkdf_sha256_32(ikm: &[u8], info: &[u8]) -> (r: [u8; 32])
    ensures
        r@ == spec_hkdf_sha256_32(ikm@, info@),
{
    let hk = hkdf::Hkdf::<sha2::Sha256>::new(None, ikm);
    let mut key = [0u8; 32];
    hk.expand(info, &mut key).expect("32 bytes is a valid HKDF-SHA256 length");
    key
}

/// `Aes256Gcm::new(key).encrypt(nonce, plaintext)`: fails exactly for a
/// plaintext longer than 2^36 bytes (`P_MAX`).
#[verifier::external_body]
fn aes256gcm_seal(key: &[u8; 32], nonce: &[u8; 12], plaintext: &[u8]) -> (r: Result<Vec<u8>, aes_gcm::aead::Error>)
    ensures
        r is Ok <==> plaintext@.len() <= 0x10_0000_0000,
        r matches Ok(ct) ==> ct@ == spec_aes256gcm_seal(key@, nonce@, plaintext@),
{
    let cipher = aes_gcm::Aes256Gcm::new(key.into());
    cipher.encrypt(aes_gcm::Nonce::from_slice(nonce), plaintext)
}

/// `Aes256Gcm::new(key).decrypt(nonce, ciphertext)`: the plaintext when the
/// tag authenticates. A ciphertext sealed under the same key and nonce from
/// a plaintext of at most 2^36 bytes opens to that plaintext.
#[verifier::external_body]
fn aes256gcm_open(key: &[u8; 32], nonce: &[u8; 12], ciphertext: &[u8]) -> (r: Result<Vec<u8>, aes_gcm::aead::Error>)
    ensures
        r is Ok <==> spec_aes256gcm_open(key@, nonce@, ciphertext@) is Some,
        r matches Ok(pt) ==> spec_aes256gcm_open(key@, nonce@, ciphertext@) == Some(pt@),
        r is Err ==> forall|pt: Seq<u8>| pt.len() <= 0x10_0000_0000
            ==> ciphertext@ != spec_aes256gcm_seal(key@, nonce@, pt),
        r matches Ok(p) ==> forall|pt: Seq<u8>| pt.len() <= 0x10_0000_0000
            && ciphertext@ == spec_aes256gcm_seal(key@, nonce@, pt) ==> p@ == pt,
{
    let cipher = aes_gcm::Aes256Gcm::new(key.into());
    cipher.decrypt(aes_gcm::Nonce::from_slice(nonce), ciphertext)
}

/// `rand::random::<[u8; 12]>()`: a fresh random nonce.
#[verifier::external_body]
fn random_nonce() -> (r: [u8; 12]) {
    rand::random()
}

/// `general_purpose::STANDARD.encode(bytes)`: padded Base64 over the
/// standard alphabet.
#[verifier::external_body]
fn base64_encode(bytes: &[u8]) -> (r: String)
    ensures
        r@ == spec_base64_encode(bytes@),
        forall|i: int| 0 <= i < r@.len() ==> is_base64_char(#[trigger] r@[i]),
{
    base64::engine::general_purpose::STANDARD.encode(bytes)
}

/// `general_purpose::STANDARD.decode(text)`. Text that encodes some bytes
/// decodes back to them.
#[verifier::external_body]
fn base64_decode(text: &str) -> (r: Result<Vec<u8>, base64::DecodeError>)
    ensures
        r is Ok <==> spec_base64_decode(text@) is Some,
        r matches Ok(b) ==> spec_base64_decode(text@) == Some(b@),
        r is Err ==> forall|b: Seq<u8>| text@ != spec_base64_encode(b),
        r matches Ok(d) ==> forall|b: Seq<u8>| text@ == spec_base64_encode(b) ==> d@ == b,
{
    base64::engine::general_purpose::STANDARD.decode(text)
}

/// The `Display` text of an AEAD error.
#[verifier::external_body]
fn aead_error_text(e: &aes_gcm::aead::Error) -> (r: String) {
    format!("{e}")
}

/// The `Display` text of a Base64 decoding error.
#[verifier::external_body]
fn decode_error_text(e: &base64::DecodeError) -> (r: String) {
    format!("{e}")
}

/// AES-256-GCM secret vault with HKDF-derived per-tenant keys.
pub struct Vault {
    master_key: Vec<u8>,
}

impl View for Vault {
    type V = Seq<u8>;

    closed spec fn view(&self) -> Seq<u8> {
        self.master_key@
    }
}

/// The HKDF info of a tenant: `casper-vault:<tenant uuid>`.
pub open spec fn key_info(tenant: TenantId) -> Seq<u8> {
    encode_utf8("casper-vault:"@ + spec_uuid_text(tenant.0))
}

/// The per-tenant key derived from the master key.
pub open spec fn tenant_key(master: Seq<u8>, tenant: TenantId) -> Seq<u8> {
    spec_hkdf_sha256_32(master, key_info(tenant))
}

/// The stored text of a sealed secret: Base64 nonce, `:`, Base64 ciphertext.
pub open spec fn sealed_text(nonce: Seq<u8>, ciphertext: Seq<u8>) -> Seq<char> {
    spec_base64_encode(nonce) + seq![':'] + spec_base64_encode(ciphertext)
}

/// Whether `s` holds no `:`.
pub open spec fn colon_free(s: Seq<char>) -> bool {
    forall|i: int| 0 <= i < s.len() ==> s[i] != ':'
}

/// Whether a stored Base64 nonce, if it decodes at all, decodes to 12 bytes
/// (AES-GCM's nonce size; another size is refused by a panic).
pub open spec fn nonce_text_ok(nonce_b64: Seq<char>) -> bool {
    match spec_base64_decode(nonce_b64) {
        Some(n) => n.len() == 12,
        None => true,
    }
}

/// The index of the first `:` in `s`, if any.
pub open spec fn first_colon(s: Seq<char>) -> Option<int> {
    if exists|i: int| 0 <= i < s.len() && s[i] == ':' {
        Some(choose|i: int| 0 <= i < s.len() && s[i] == ':' && forall|j: int| 0 <= j < i ==> s[j] != ':')
    } else {
        None
    }
}

/// Whether a combined `nonce:ciphertext` value can be opened without a panic.
pub open spec fn combined_ok(combined: Seq<char>) -> bool {
    match first_colon(combined) {
        Some(i) => nonce_text_ok(combined.subrange(0, i)),
        None => true,
    }
}

/// `str::split_once(':')` on characters: the parts before and after the first colon.
fn split_once_colon(v: &Vec<char>) -> (r: Option<(Vec<char>, Vec<char>)>)
    ensures
        r is None <==> first_colon(v@) is None,
        r matches Some((a, b)) ==> first_colon(v@) == Some(a@.len() as int)
            && a@ == v@.subrange(0, a@.len() as int)
            && b@ == v@.subrange(a@.len() as int + 1, v@.len() as int),
{
    let mut i: usize = 0;
    while i < v.len()
        invariant
            i <= v.len(),
            forall|j: int| 0 <= j < i ==> v@[j] != ':',
        decreases v.len() - i,
    {
        if v[i] == ':' {
            let mut a: Vec<char> = Vec::new();
            let mut k: usize = 0;
            while k < i
                invariant
                    k <= i < v.len(),
                    a@ == v@.subrange(0, k as int),
                decreases i - k,
            {
                a.push(v[k]);
                k += 1;
                assert(a@ =~= v@.subrange(0, k as int));
            }
            let mut b: Vec<char> = Vec::new();
            let mut m: usize = i + 1;
            while m < v.len()
                invariant
                    i + 1 <= m <= v.len(),
                    b@ == v@.subrange(i + 1, m as int),
                decreases v.len() - m,
            {
                b.push(v[m]);
                m += 1;
                assert(b@ =~= v@.subrange(i + 1, m as int));
            }
            proof {
                let f = choose|f: int| 0 <= f < v@.len() && v@[f] == ':' && forall|j: int| 0 <= j < f ==> v@[j] != ':';
                assert(0 <= i < v@.len() && v@[i as int] == ':' && forall|j: int| 0 <= j < i ==> v@[j] != ':');
                if f < i {
                    assert(v@[f] != ':');
                } else if f > i {
                    assert(v@[i as int] != ':');
                }
            }
            return Some((a, b));
        }
        i += 1;
    }
    None
}

impl Vault {
    /// A vault over `master_key`.
    pub fn new(master_key: Vec<u8>) -> (r: Vault)
        ensures
            r@ == master_key@,
    {
        Vault { master_key }
    }

    /// Derive a per-tenant encryption key using HKDF-SHA256.
    fn derive_key(&self, tenant_id: TenantId) -> (r: [u8; 32])
        ensures
            r@ == tenant_key(self@, tenant_id),
    {
        let info = concat_str("casper-vault:", &tenant_id.to_text());
        hkdf_sha256_32(self.master_key.as_slice(), info.as_str().as_bytes())
    }

    /// Encrypt a value for a tenant under a fresh random nonce. Returns the
    /// Base64 ciphertext and the Base64 nonce.
    pub fn encrypt(&self, tenant_id: TenantId, plaintext: &[u8]) -> (r: Result<(String, String), CasperError>)
        ensures
            r is Ok <==> plaintext@.len() <= 0x10_0000_0000,
            r matches Ok((ct, nonce)) ==> exists|n: Seq<u8>| n.len() == 12
                && nonce@ == spec_base64_encode(n) && colon_free(nonce@)
                && ct@ == spec_base64_encode(spec_aes256gcm_seal(tenant_key(self@, tenant_id), n, plaintext@)),
            r matches Err(e) ==> e is Internal,
    {
        let key = self.derive_key(tenant_id);
        let nonce_bytes = random_nonce();
        match aes256gcm_seal(&key, &nonce_bytes, plaintext) {
            Ok(ciphertext) => {
                let ct = base64_encode(ciphertext.as_slice());
                let nonce = base64_encode(&nonce_bytes);
                assert(nonce_bytes@.len() == 12);
                Ok((ct, nonce))
            }
            Err(e) => Err(CasperError::Internal(concat_str("encryption failed: ", &aead_error_text(&e)))),
        }
    }

    /// Decrypt a Base64 ciphertext with a Base64 nonce for a tenant.
    pub fn decrypt(&self, tenant_id: TenantId, ciphertext_b64: &str, nonce_b64: &str) -> (r: Result<SecretValue, CasperError>)
        requires
            nonce_text_ok(nonce_b64@),
        ensures
            spec_base64_decode(ciphertext_b64@) is None ==> r matches Err(CasperError::Internal(_)),
            spec_base64_decode(ciphertext_b64@) is Some && spec_base64_decode(nonce_b64@) is None
                ==> r matches Err(CasperError::Internal(_)),
            spec_base64_decode(ciphertext_b64@) is Some && spec_base64_decode(nonce_b64@) is Some
                ==> match spec_aes256gcm_open(tenant_key(self@, tenant_id), spec_base64_decode(nonce_b64@)->0,
                    spec_base64_decode(ciphertext_b64@)->0) {
                    Some(pt) => r matches Ok(s) && s@ == pt,
                    None => r matches Err(CasperError::Internal(m)) && m@ == "decryption failed"@,
                },
            forall|n: Seq<u8>, pt: Seq<u8>| n.len() == 12 && pt.len() <= 0x10_0000_0000 && nonce_b64@ == spec_base64_encode(n)
                && ciphertext_b64@ == spec_base64_encode(spec_aes256gcm_seal(tenant_key(self@, tenant_id), n, pt))
                ==> (r matches Ok(s) && s@ == pt),
    {
        let key = self.derive_key(tenant_id);
        let ciphertext = match base64_decode(ciphertext_b64) {
            Ok(c) => c,
            Err(e) => return Err(CasperError::Internal(concat_str("base64 decode ciphertext: ", &decode_error_text(&e)))),
        };
        let nonce_bytes = match base64_decode(nonce_b64) {
            Ok(n) => n,
            Err(e) => return Err(CasperError::Internal(concat_str("base64 decode nonce: ", &decode_error_text(&e)))),
        };
        let mut nonce: [u8; 12] = [0u8; 12];
        let mut i: usize = 0;
        while i < 12
            invariant
                i <= 12,
                nonce_bytes@.len() == 12,
                nonce@.len() == 12,
                forall|k: int| 0 <= k < i ==> nonce@[k] == nonce_bytes@[k],
            decreases 12 - i,
        {
            nonce[i] = nonce_bytes[i];
            i += 1;
        }
        assert(nonce@ =~= nonce_bytes@);
        match aes256gcm_open(&key, &nonce, ciphertext.as_slice()) {
            Ok(plaintext) => Ok(SecretValue::new(plaintext)),
            Err(_) => Err(CasperError::Internal("decryption failed".to_string())),
        }
    }

    /// Encrypt a value and return `nonce:ciphertext`, both in Base64.
    pub fn encrypt_value(&self, tenant_id: TenantId, plaintext: &[u8]) -> (r: Result<String, CasperError>)
        ensures
            r is Ok <==> plaintext@.len() <= 0x10_0000_0000,
            r matches Ok(text) ==> exists|n: Seq<u8>| n.len() == 12 && colon_free(spec_base64_encode(n))
                && text@ == sealed_text(n, spec_aes256gcm_seal(tenant_key(self@, tenant_id), n, plaintext@)),
            r matches Err(e) ==> e is Internal,
    {
        let (ct, nonce) = self.encrypt(tenant_id, plaintext)?;
        let text = concat3(&nonce, ":", &ct);
        proof {
            reveal_strlit(":");
            let n = choose|n: Seq<u8>| n.len() == 12 && nonce@ == spec_base64_encode(n) && colon_free(nonce@)
                && ct@ == spec_base64_encode(spec_aes256gcm_seal(tenant_key(self@, tenant_id), n, plaintext@));
            assert(text@ =~= sealed_text(n, spec_aes256gcm_seal(tenant_key(self@, tenant_id), n, plaintext@)));
        }
        Ok(text)
    }

    /// Decrypt a combined `nonce:ciphertext` value. A value without `:` is
    /// refused; a value that `encrypt_value` made for this tenant opens to
    /// the plaintext it sealed.
    pub fn decrypt_value(&self, tenant_id: TenantId, combined: &str) -> (r: Result<SecretValue, CasperError>)
        requires
            combined_ok(combined@),
        ensures
            first_colon(combined@) is None ==> (r matches Err(CasperError::Internal(m)) && m@ == "invalid encrypted value format"@),
            forall|n: Seq<u8>, pt: Seq<u8>| n.len() == 12 && pt.len() <= 0x10_0000_0000 && colon_free(spec_base64_encode(n))
                && combined@ == sealed_text(n, spec_aes256gcm_seal(tenant_key(self@, tenant_id), n, pt))
                ==> (r matches Ok(s) && s@ == pt),
            r matches Err(e) ==> e is Internal,
    {
        let v = chars_of(combined);
        match split_once_colon(&v) {
            None => {
                proof {
                    assert forall|n: Seq<u8>, pt: Seq<u8>| n.len() == 12 && pt.len() <= 0x10_0000_0000 && colon_free(spec_base64_encode(n))
                        && combined@ == sealed_text(n, spec_aes256gcm_seal(tenant_key(self@, tenant_id), n, pt))
                        implies false by {
                        assert(combined@[spec_base64_encode(n).len() as int] == ':');
                    }
                }
                Err(CasperError::Internal("invalid encrypted value format".to_string()))
            }
            Some((nonce_c, ct_c)) => {
                let nonce_b64 = string_of(nonce_c.as_slice());
                let ct_b64 = string_of(ct_c.as_slice());
                proof {
                    assert forall|n: Seq<u8>, pt: Seq<u8>| n.len() == 12 && pt.len() <= 0x10_0000_0000 && colon_free(spec_base64_encode(n))
                        && combined@ == sealed_text(n, spec_aes256gcm_seal(tenant_key(self@, tenant_id), n, pt))
                        implies nonce_b64@ == spec_base64_encode(n)
                            && ct_b64@ == spec_base64_encode(spec_aes256gcm_seal(tenant_key(self@, tenant_id), n, pt)) by {
                        lemma_sealed_text_split(n, spec_aes256gcm_seal(tenant_key(self@, tenant_id), n, pt), v@, nonce_c@, ct_c@);
                    }
                }
                self.decrypt(tenant_id, &ct_b64, &nonce_b64)
            }
        }
    }

    /// `decrypt_value` for any stored text: `None` exactly when the text's
    /// nonce decodes to a size other than AES-GCM's 12 bytes, which
    /// `decrypt_value` cannot take. Text this vault sealed always opens.
    pub fn try_decrypt_value(&self, tenant_id: TenantId, combined: &str) -> (r: Option<Result<SecretValue, CasperError>>)
        ensures
            r is None <==> !combined_ok(combined@),
            forall|n: Seq<u8>, pt: Seq<u8>| n.len() == 12 && pt.len() <= 0x10_0000_0000 && colon_free(spec_base64_encode(n))
                && combined@ == sealed_text(n, spec_aes256gcm_seal(tenant_key(self@, tenant_id), n, pt))
                ==> (r matches Some(Ok(s)) && s@ == pt),
            r matches Some(Err(e)) ==> e is Internal,
    {
        let v = chars_of(combined);
        match split_once_colon(&v) {
            None => Some(self.decrypt_value(tenant_id, combined)),
            Some((nonce_c, _ct_c)) => {
                let nonce_b64 = string_of(nonce_c.as_slice());
                let ok = match base64_decode(&nonce_b64) {
                    Ok(n) => n.len() == 12,
                    Err(_) => true,
                };
                if ok {
                    Some(self.decrypt_value(tenant_id, combined))
                } else {
                    proof {
                        assert forall|n: Seq<u8>, pt: Seq<u8>| n.len() == 12 && pt.len() <= 0x10_0000_0000 && colon_free(spec_base64_encode(n))
                            && combined@ == sealed_text(n, spec_aes256gcm_seal(tenant_key(self@, tenant_id), n, pt))
                            implies false by {
                            lemma_sealed_text_split(n, spec_aes256gcm_seal(tenant_key(self@, tenant_id), n, pt), v@, nonce_c@, _ct_c@);
                        }
                    }
                    None
                }
            }
        }
    }
}

/// The text `encrypt_value` stores splits at its first colon into the
/// Base64 nonce and the Base64 ciphertext.
proof fn lemma_sealed_text_split(n: Seq<u8>, ct: Seq<u8>, v: Seq<char>, a: Seq<char>, b: Seq<char>)
    requires
        v == sealed_text(n, ct),
        first_colon(v) == Some(a.len() as int),
        a == v.subrange(0, a.len() as int),
        b == v.subrange(a.len() as int + 1, v.len() as int),
        colon_free(spec_base64_encode(n)),
    ensures
        a == spec_base64_encode(n),
        b == spec_base64_encode(ct),
{
    let e = spec_base64_encode(n);
    assert(v[e.len() as int] == ':');
    assert forall|j: int| 0 <= j < e.len() implies v[j] != ':' by {
        assert(v[j] == e[j]);
    }
    let f = a.len() as int;
    assert(f == e.len()) by {
        assert(v[f] == ':');
        if f < e.len() {
            assert(v[f] != ':');
        }
    }
    assert(a =~= e);
    assert(b =~= spec_base64_encode(ct));
}

/// The key a token reference of the form `secret:<key>` names; other
/// references are refused.
pub fn mcp_secret_key(token_ref: &str) -> (r: Result<String, CasperError>)
    ensures
        has_prefix(token_ref@, "secret:"@) ==> (r matches Ok(k) && k@ == token_ref@.subrange(7, token_ref@.len() as int)),
        !has_prefix(token_ref@, "secret:"@) ==> (r matches Err(CasperError::BadRequest(m))
            && m@ == "invalid token_ref format: "@ + token_ref@ + " (expected 'secret:key_name')"@),
{
    proof { reveal_strlit("secret:"); }
    let v = chars_of(token_ref);
    match strip_prefix_chars(&v, "secret:") {
        Some(rest) => Ok(string_of(rest.as_slice())),
        None => Err(CasperError::BadRequest(concat3("invalid token_ref format: ", token_ref, " (expected 'secret:key_name')"))),
    }
}

} // verus!
