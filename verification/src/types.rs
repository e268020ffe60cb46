//! Identifiers, authentication subjects and secret values.

use vstd::prelude::*;
use vstd::utf8::{decode_utf8, valid_utf8};
use vstd::string::StringSliceAdditionalSpecFns;
use crate::text::{chars_of, concat_str, concat3, string_of, strip_prefix_chars, has_prefix};
use crate::knowledge::{trim, trim_chars};

verus! {

/// Tenant identifier (a UUID, held as its 128-bit value).
#[derive(Clone, Copy, PartialEq, Eq, Structural, Debug, Hash)]
pub struct TenantId(pub u128);

/// Correlation identifier for request tracing (a UUID, held as its 128-bit value).
#[derive(Clone, Copy, PartialEq, Eq, Structural, Debug, Hash)]
pub struct CorrelationId(pub u128);

/// The version number of a UUID given as its 128-bit value: the high four
/// bits of its seventh byte.
pub open spec fn uuid_version(x: u128) -> u128 {
    (x >> 76u128) & 0xfu128
}

/// A fresh time-ordered UUID (`Uuid::now_v7`), as its 128-bit value
/// (`as_u128`, the bytes in order). The crate documents it as a version 7
/// UUID; the rest of its value depends on the clock and on random bits and
/// is not stated.
#[verifier::external_body]
pub(crate) fn new_uuid_v7() -> (r: u128)
    ensures
        uuid_version(r) == 7,
{
    uuid::Uuid::now_v7().as_u128()
}

/// The 128-bit value of the UUID that `s` spells, if `Uuid::parse_str`
/// accepts it (hyphenated, simple, braced or URN form).
pub uninterp spec fn spec_parse_uuid(s: Seq<char>) -> Option<u128>;

/// `Uuid::parse_str(s)`, as the 128-bit value. The hyphenated lowercase text
/// of a UUID parses back to it.
#[verifier::external_body]
pub(crate) fn parse_uuid(s: &str) -> (r: Option<u128>)
    ensures
        r == spec_parse_uuid(s@),
        r matches Some(v) ==> forall|x: u128| s@ == spec_uuid_text(x) ==> v == x,
        r is None ==> forall|x: u128| s@ != spec_uuid_text(x),
{
    uuid::Uuid::parse_str(s).ok().map(|u| u.as_u128())
}

/// The lowercase hexadecimal digit of a value below 16.
pub open spec fn hex_digit(n: u8) -> char {
    if n < 10 { (48 + n) as char } else { (87 + n) as char }
}

/// The `i`-th hexadecimal digit of `x`, most significant first (`0 <= i < 32`).
pub open spec fn nibble(x: u128, i: int) -> u8 {
    ((x >> ((124 - 4 * i) as u128)) & 0xf) as u8
}

/// The 32 lowercase hexadecimal digits of `x`.
pub open spec fn hex32(x: u128) -> Seq<char> {
    Seq::new(32, |i: int| hex_digit(nibble(x, i)))
}

/// The hyphenated form of a UUID: groups of 8, 4, 4, 4 and 12 lowercase
/// hexadecimal digits joined by `-` (`Uuid`'s `Display`).
pub open spec fn spec_uuid_text(x: u128) -> Seq<char> {
    let h = hex32(x);
    h.subrange(0, 8) + seq!['-'] + h.subrange(8, 12) + seq!['-'] + h.subrange(12, 16) + seq!['-']
        + h.subrange(16, 20) + seq!['-'] + h.subrange(20, 32)
}

/// How many hyphens precede the `k`-th digit once `k` digits are written.
pub open spec fn hyphens_before(k: int) -> int {
    if k > 20 { 4 } else if k > 16 { 3 } else if k > 12 { 2 } else if k > 8 { 1 } else { 0 }
}

/// The simple form of a UUID: its 32 lowercase hexadecimal digits
/// (`Uuid::simple`).
pub fn uuid_simple_text(x: u128) -> (r: String)
    ensures
        r@ == hex32(x),
{
    let mut h: Vec<char> = Vec::new();
    let mut i: usize = 0;
    while i < 32
        invariant
            i <= 32,
            h@ == hex32(x).take(i as int),
        decreases 32 - i,
    {
        let shift: u128 = (124 - 4 * i) as u128;
        let n: u8 = ((x >> shift) & 0xf) as u8;
        assert(n == nibble(x, i as int));
        assert(n < 16) by (bit_vector)
            requires n == ((x >> shift) & 0xf) as u8;
        let c: char = if n < 10 { (48 + n) as char } else { (87 + n) as char };
        h.push(c);
        i += 1;
        assert(h@ =~= hex32(x).take(i as int));
    }
    assert(h@ =~= hex32(x));
    string_of(h.as_slice())
}

/// The hyphenated lowercase form of a UUID given as its 128-bit value.
pub fn uuid_text(x: u128) -> (r: String)
    ensures
        r@ == spec_uuid_text(x),
{
    let h = chars_of(uuid_simple_text(x).as_str());
    let mut out: Vec<char> = Vec::new();
    let mut k: usize = 0;
    while k < 32
        invariant
            k <= 32,
            h@ == hex32(x),
            out@ == spec_uuid_text(x).take(k + hyphens_before(k as int)),
        decreases 32 - k,
    {
        if k == 8 || k == 12 || k == 16 || k == 20 {
            out.push('-');
        }
        out.push(h[k]);
        k += 1;
        assert(out@ =~= spec_uuid_text(x).take(k + hyphens_before(k as int)));
    }
    assert(out@ =~= spec_uuid_text(x));
    string_of(out.as_slice())
}

impl TenantId {
    /// A fresh tenant identifier: a version 7 UUID.
    pub fn new() -> (r: TenantId)
        ensures
            uuid_version(r.0) == 7,
    {
        TenantId(new_uuid_v7())
    }

    /// The hyphenated lowercase UUID text of the identifier (its `Display` form).
    pub fn to_text(&self) -> (r: String)
        ensures
            r@ == spec_uuid_text(self.0),
    {
        uuid_text(self.0)
    }

    /// The identifier that `s` spells as a UUID (`FromStr`), if it is one.
    /// The identifier's own text parses back to it.
    pub fn parse(s: &str) -> (r: Option<TenantId>)
        ensures
            r is Some <==> spec_parse_uuid(s@) is Some,
            r matches Some(t) ==> Some(t.0) == spec_parse_uuid(s@),
            r matches Some(t) ==> forall|x: u128| s@ == spec_uuid_text(x) ==> t.0 == x,
            forall|x: u128| s@ == spec_uuid_text(x) ==> r == Some(TenantId(x)),
    {
        match parse_uuid(s) {
            Some(x) => Some(TenantId(x)),
            None => None,
        }
    }
}

impl std::str::FromStr for TenantId {
    type Err = String;

    /// The identifier `s` spells as a UUID (`TenantId::parse`), else an
    /// error naming the text.
    fn from_str(s: &str) -> (r: Result<TenantId, String>)
        ensures
            r is Ok <==> spec_parse_uuid(s@) is Some,
            r matches Ok(t) ==> Some(t.0) == spec_parse_uuid(s@),
            forall|x: u128| s@ == spec_uuid_text(x) ==> r == Ok::<TenantId, String>(TenantId(x)),
            r matches Err(msg) ==> msg@ == "invalid UUID: "@ + s@,
    {
        match TenantId::parse(s) {
            Some(t) => Ok(t),
            None => Err(concat_str("invalid UUID: ", s)),
        }
    }
}

impl CorrelationId {
    /// A fresh correlation identifier: a version 7 UUID.
    pub fn new() -> (r: CorrelationId)
        ensures
            uuid_version(r.0) == 7,
    {
        CorrelationId(new_uuid_v7())
    }
}

/// Authentication subject — either a human user or an API key.
#[derive(Debug, Clone, PartialEq, Eq)]
pub enum Subject {
    User(String),
    ApiKey(String),
}

/// The abstract value of a subject.
pub enum SubjectV {
    User(Seq<char>),
    ApiKey(Seq<char>),
}

impl View for Subject {
    type V = SubjectV;

    open spec fn view(&self) -> SubjectV {
        match self {
            Subject::User(s) => SubjectV::User(s@),
            Subject::ApiKey(s) => SubjectV::ApiKey(s@),
        }
    }
}

/// What `Subject::parse` makes of a string: `user:<id>` or `apikey:<id>`.
pub open spec fn spec_parse_subject(s: Seq<char>) -> Option<SubjectV> {
    if has_prefix(s, "user:"@) {
        Some(SubjectV::User(s.subrange(5, s.len() as int)))
    } else if has_prefix(s, "apikey:"@) {
        Some(SubjectV::ApiKey(s.subrange(7, s.len() as int)))
    } else {
        None
    }
}

/// The textual form of a subject.
pub open spec fn spec_subject_text(s: SubjectV) -> Seq<char> {
    match s {
        SubjectV::User(id) => "user:"@ + id,
        SubjectV::ApiKey(id) => "apikey:"@ + id,
    }
}

impl Subject {
    /// Parse `user:<id>` or `apikey:<id>`.
    pub fn parse(s: &str) -> (r: Result<Subject, String>)
        ensures
            r is Ok <==> spec_parse_subject(s@) is Some,
            r matches Ok(sub) ==> Some(sub@) == spec_parse_subject(s@),
            r matches Err(msg) ==> msg@ == "invalid subject format: "@ + s@,
    {
        proof {
            reveal_strlit("user:");
            reveal_strlit("apikey:");
        }
        let v = chars_of(s);
        if let Some(rest) = strip_prefix_chars(&v, "user:") {
            Ok(Subject::User(string_of(rest.as_slice())))
        } else if let Some(rest) = strip_prefix_chars(&v, "apikey:") {
            Ok(Subject::ApiKey(string_of(rest.as_slice())))
        } else {
            let mut msg = chars_of("invalid subject format: ");
            let mut tail = v;
            msg.append(&mut tail);
            Err(string_of(msg.as_slice()))
        }
    }

    /// The textual form `user:<id>` or `apikey:<id>`.
    pub fn to_text(&self) -> (r: String)
        ensures
            r@ == spec_subject_text(self@),
    {
        let (prefix, id) = match self {
            Subject::User(id) => ("user:", id),
            Subject::ApiKey(id) => ("apikey:", id),
        };
        let mut out = chars_of(prefix);
        let mut idc = chars_of(id);
        out.append(&mut idc);
        string_of(out.as_slice())
    }
}

/// A subject's textual form parses back to the subject.
pub proof fn lemma_subject_roundtrip(s: SubjectV)
    ensures
        spec_parse_subject(spec_subject_text(s)) == Some(s),
{
    reveal_strlit("user:");
    reveal_strlit("apikey:");
    match s {
        SubjectV::User(id) => {
            let t = "user:"@ + id;
            assert(t.subrange(0, 5) =~= "user:"@);
            assert(t.subrange(5, t.len() as int) =~= id);
        }
        SubjectV::ApiKey(id) => {
            let t = "apikey:"@ + id;
            assert(t.subrange(0, 5) != "user:"@) by {
                assert(t.subrange(0, 5)[0] == 'a');
            }
            assert(t.subrange(0, 7) =~= "apikey:"@);
            assert(t.subrange(7, t.len() as int) =~= id);
        }
    }
}

/// The error `std::str::from_utf8` gives for bytes that are not UTF-8.
#[verifier::external_type_specification]
#[verifier::external_body]
pub struct ExUtf8Error(std::str::Utf8Error);

/// `std::str::from_utf8`: the bytes read as UTF-8 text; an error exactly when
/// they are not valid UTF-8.
#[verifier::external_body]
pub(crate) fn str_from_utf8(b: &[u8]) -> (r: Result<&str, std::str::Utf8Error>)
    ensures
        r is Ok <==> valid_utf8(b@),
        r matches Ok(s) ==> s@ == decode_utf8(b@),
{
    std::str::from_utf8(b)
}

/// The `Display` text of a UTF-8 error.
#[verifier::external_body]
pub(crate) fn utf8_error_text(e: &std::str::Utf8Error) -> (r: String) {
    format!("{e}")
}

/// `Zeroize::zeroize` on a byte vector: overwrites every byte (and the spare
/// capacity) with zero, then clears the vector.
#[verifier::external_body]
fn zeroize_bytes(v: &mut Vec<u8>)
    ensures
        final(v)@ == Seq::<u8>::empty(),
{
    zeroize::Zeroize::zeroize(v)
}

/// A secret value. It has no `Debug`, `Display`, `Clone` or serialization,
/// which keeps it from leaking by accident; `wipe` zeroizes it.
pub struct SecretValue {
    inner: Vec<u8>,
}

impl View for SecretValue {
    type V = Seq<u8>;

    closed spec fn view(&self) -> Seq<u8> {
        self.inner@
    }
}

impl SecretValue {
    /// A secret holding `value`.
    pub fn new(value: Vec<u8>) -> (r: SecretValue)
        ensures
            r@ == value@,
    {
        SecretValue { inner: value }
    }

    /// A secret holding the UTF-8 bytes of `s`.
    pub fn from_str(s: &str) -> (r: SecretValue)
        ensures
            r@ == s.spec_bytes(),
    {
        let b = s.as_bytes();
        let mut inner: Vec<u8> = Vec::new();
        let mut i: usize = 0;
        while i < b.len()
            invariant
                i <= b.len(),
                inner@ == b@.take(i as int),
            decreases b.len() - i,
        {
            inner.push(b[i]);
            i += 1;
            assert(inner@ =~= b@.take(i as int));
        }
        assert(b@.take(b.len() as int) =~= b@);
        SecretValue { inner }
    }

    /// The secret bytes.
    pub fn expose(&self) -> (r: &[u8])
        ensures
            r@ == self@,
    {
        self.inner.as_slice()
    }

    /// The secret read as UTF-8 text; an error when it is not UTF-8.
    pub fn expose_str(&self) -> (r: Result<&str, std::str::Utf8Error>)
        ensures
            r is Ok <==> valid_utf8(self@),
            r matches Ok(s) ==> s@ == decode_utf8(self@),
    {
        str_from_utf8(self.inner.as_slice())
    }

    /// Overwrites the secret with zeros and empties it.
    pub fn wipe(&mut self)
        ensures
            final(self)@ == Seq::<u8>::empty(),
    {
        zeroize_bytes(&mut self.inner);
    }
}


// ── Secrets from the environment ───────────────────────────────

/// The variable naming a file that holds the secret `key`: `<KEY>_FILE`.
pub open spec fn spec_secret_file_var(key: Seq<char>) -> Seq<char> {
    key + "_FILE"@
}

/// The variable naming a file that holds the secret `key`.
pub fn secret_file_var(key: &str) -> (r: String)
    ensures
        r@ == spec_secret_file_var(key@),
{
    concat_str(key, "_FILE")
}

/// What the environment gave for a secret: the file variable's path with
/// the file's contents, or the text of the failure to read it, when the
/// file variable is set; and the value of the variable itself.
pub enum SecretFile {
    Unset,
    Read { path: String, contents: String },
    Unreadable { path: String, error: String },
}

/// The secret `key` from what the environment gave: the file variable wins,
/// and the secret is the file's contents trimmed; a file that cannot be read
/// is an error naming it; else the variable's value; else an error naming
/// both variables.
pub fn secret_from(key: &str, file: SecretFile, value: Option<String>) -> (r: Result<SecretValue, String>)
    ensures
        file matches SecretFile::Read { contents, .. } ==> (r matches Ok(sv)
            && sv@ == vstd::utf8::encode_utf8(trim(contents@))),
        file matches SecretFile::Unreadable { path, error } ==> (r matches Err(m)
            && m@ == "failed to read secret file "@ + path@ + ": "@ + error@),
        file is Unset ==> match value {
            Some(v) => r matches Ok(sv) && sv@ == vstd::utf8::encode_utf8(v@),
            None => r matches Err(m) && m@ == "secret "@ + key@ + " not found (checked "@ + key@ + " and "@
                + spec_secret_file_var(key@) + ")"@,
        },
{
    match file {
        SecretFile::Read { contents, .. } => {
            let t = trim_chars(&chars_of(contents.as_str()));
            let text = string_of(t.as_slice());
            let sv = SecretValue::from_str(text.as_str());
            Ok(sv)
        },
        SecretFile::Unreadable { path, error } => {
            let a = concat3("failed to read secret file ", path.as_str(), ": ");
            Err(concat_str(a.as_str(), error.as_str()))
        },
        SecretFile::Unset => match value {
            Some(v) => {
                let sv = SecretValue::from_str(v.as_str());
                Ok(sv)
            },
            None => {
                let a = concat3("secret ", key, " not found (checked ");
                let b = concat3(a.as_str(), key, " and ");
                let c = concat3(b.as_str(), secret_file_var(key).as_str(), ")");
                Err(c)
            },
        },
    }
}

} // verus!
