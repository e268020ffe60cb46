//! Model routing: deployments and their backends, quota decisions, request
//! parameter merging, the choice of provider for a backend, and the order in
//! which backends are tried, retried and fallen back on. The database reads
//! and the calls to the providers are made by the caller.

use vstd::prelude::*;
use crate::error::{CasperError, spec_is_non_retryable};
use crate::json::{Json, JsonV, jget, obj_lookup, lemma_view_object};
use crate::text::{concat3, str_eq};
use vstd::arithmetic::power2::pow2;

verus! {

/// A resolved backend with connection info.
#[derive(Debug)]
pub struct ResolvedBackend {
    pub id: u128,
    pub name: String,
    pub provider: String,
    pub base_url: Option<String>,
    pub api_key_enc: Option<String>,
}

/// A fully resolved deployment ready for dispatch.
pub struct ResolvedDeployment {
    pub deployment_id: u128,
    pub model_id: u128,
    pub model_name: String,
    pub slug: String,
    pub backend_sequence: Vec<ResolvedBackend>,
    pub retry_attempts: i32,
    pub retry_backoff_ms: i32,
    pub fallback_enabled: bool,
    pub timeout_ms: i32,
    pub default_params: Json,
    pub fallback_deployment_id: Option<u128>,
}

// ── Quotas ──────────────────────────────────────────────────────

/// Basic quota check on the requests-per-minute allocated to a tenant for a
/// model: none allocated is forbidden, a non-positive allocation is rate
/// limited, a positive one allows the request.
pub fn check_quota(requests_per_minute: Option<i32>) -> (r: Result<(), CasperError>)
    ensures
        requests_per_minute is None ==> (r matches Err(CasperError::Forbidden(m))
            && m@ == "no quota allocated for this model"@),
        requests_per_minute matches Some(v) ==> (v <= 0 <==> r matches Err(CasperError::RateLimited)),
        requests_per_minute matches Some(v) ==> (v > 0 <==> r is Ok),
{
    match requests_per_minute {
        None => Err(CasperError::Forbidden("no quota allocated for this model".to_string())),
        Some(v) => if v <= 0 { Err(CasperError::RateLimited) } else { Ok(()) },
    }
}

/// The error for a deployment that is missing or inactive.
pub fn deployment_not_found(slug: &str) -> (r: CasperError)
    ensures
        r matches CasperError::NotFound(m) && m@ == "deployment '"@ + slug@ + "' not found or inactive"@,
{
    CasperError::NotFound(concat3("deployment '", slug, "' not found or inactive"))
}

/// A deployment's backends, refused when there is none active.
pub fn require_backends(slug: &str, backends: Vec<ResolvedBackend>) -> (r: Result<Vec<ResolvedBackend>, CasperError>)
    ensures
        backends@.len() == 0 ==> (r matches Err(CasperError::Unavailable(m))
            && m@ == "no active backends for deployment '"@ + slug@ + "'"@),
        backends@.len() > 0 ==> (r matches Ok(v) && v@ == backends@),
{
    if backends.len() == 0 {
        Err(CasperError::Unavailable(concat3("no active backends for deployment '", slug, "'")))
    } else {
        Ok(backends)
    }
}

// ── Parameters ──────────────────────────────────────────────────

/// An object's entries with `key` set to `value`: the first entry with that
/// key gets the value; without one, the entry is added at the end.
pub open spec fn obj_set(m: Seq<(Seq<char>, JsonV)>, key: Seq<char>, value: JsonV) -> Seq<(Seq<char>, JsonV)>
    decreases m.len(),
{
    if m.len() == 0 {
        seq![(key, value)]
    } else if m[0].0 == key {
        seq![(key, value)] + m.subrange(1, m.len() as int)
    } else {
        seq![m[0]] + obj_set(m.subrange(1, m.len() as int), key, value)
    }
}

/// The defaults with each request entry set over them, in order.
pub open spec fn obj_merge(defaults: Seq<(Seq<char>, JsonV)>, req: Seq<(Seq<char>, JsonV)>) -> Seq<(Seq<char>, JsonV)>
    decreases req.len(),
{
    if req.len() == 0 {
        defaults
    } else {
        let acc = obj_merge(defaults, req.drop_last());
        obj_set(acc, req.last().0, req.last().1)
    }
}

/// Merged parameters: when both are objects, the defaults with the request's
/// entries set over them; otherwise the request as it is.
pub open spec fn spec_merge_params(defaults: JsonV, req: JsonV) -> JsonV {
    match (defaults, req) {
        (JsonV::Object(d), JsonV::Object(q)) => JsonV::Object(obj_merge(d, q)),
        _ => req,
    }
}

/// Set `key` to `value` in an object's entries.
fn set_entry(m: &mut Vec<(String, Json)>, key: &String, value: Json)
    ensures
        final(m)@.map_values(|e: (String, Json)| (e.0@, e.1@))
            == obj_set(old(m)@.map_values(|e: (String, Json)| (e.0@, e.1@)), key@, value@),
{
    let ghost mv = old(m)@.map_values(|e: (String, Json)| (e.0@, e.1@));
    let mut i: usize = 0;
    while i < m.len()
        invariant
            i <= m.len(),
            m@ == old(m)@,
            mv == m@.map_values(|e: (String, Json)| (e.0@, e.1@)),
            forall|j: int| 0 <= j < i ==> (#[trigger] mv[j]).0 != key@,
        decreases m.len() - i,
    {
        if m[i].0 == *key {
            m.set(i, (key.clone(), value));
            proof { lemma_obj_set_at(mv, key@, value@, i as int); }
            assert(m@.map_values(|e: (String, Json)| (e.0@, e.1@)) =~= mv.update(i as int, (key@, value@)));
            return;
        }
        i += 1;
    }
    proof { lemma_obj_set_absent(mv, key@, value@); }
    let ghost before = m@;
    m.push((key.clone(), value));
    assert(m@.map_values(|e: (String, Json)| (e.0@, e.1@)) =~= mv.push((key@, value@)));
}

/// Setting a key that first occurs at `i` updates that entry.
proof fn lemma_obj_set_at(m: Seq<(Seq<char>, JsonV)>, key: Seq<char>, value: JsonV, i: int)
    requires
        0 <= i < m.len(),
        m[i].0 == key,
        forall|j: int| 0 <= j < i ==> (#[trigger] m[j]).0 != key,
    ensures
        obj_set(m, key, value) == m.update(i, (key, value)),
    decreases i,
{
    if i == 0 {
        assert(seq![(key, value)] + m.subrange(1, m.len() as int) =~= m.update(0, (key, value)));
    } else {
        let rest = m.subrange(1, m.len() as int);
        assert forall|j: int| 0 <= j < i - 1 implies (#[trigger] rest[j]).0 != key by {
            assert(rest[j] == m[j + 1]);
        }
        lemma_obj_set_at(rest, key, value, i - 1);
        assert(seq![m[0]] + rest.update(i - 1, (key, value)) =~= m.update(i, (key, value)));
    }
}

/// Setting a key that does not occur adds it at the end.
proof fn lemma_obj_set_absent(m: Seq<(Seq<char>, JsonV)>, key: Seq<char>, value: JsonV)
    requires
        forall|j: int| 0 <= j < m.len() ==> (#[trigger] m[j]).0 != key,
    ensures
        obj_set(m, key, value) == m.push((key, value)),
    decreases m.len(),
{
    if m.len() > 0 {
        let rest = m.subrange(1, m.len() as int);
        assert forall|j: int| 0 <= j < rest.len() implies (#[trigger] rest[j]).0 != key by {
            assert(rest[j] == m[j + 1]);
        }
        lemma_obj_set_absent(rest, key, value);
        assert(seq![m[0]] + rest.push((key, value)) =~= m.push((key, value)));
    } else {
        assert(seq![(key, value)] =~= m.push((key, value)));
    }
}

/// Merge deployment default params under the request's params: request
/// params take precedence, defaults fill in missing fields; when either is
/// not an object, the request is taken as it is.
pub fn merge_params(default_params: &Json, request_extra: &Json) -> (r: Json)
    ensures
        r@ == spec_merge_params(default_params@, request_extra@),
{
    match (default_params, request_extra) {
        (Json::Object(defaults), Json::Object(req)) => {
            proof { lemma_view_object(default_params); lemma_view_object(request_extra); }
            let ghost dv = default_params@->Object_0;
            let ghost qv = request_extra@->Object_0;
            assert(dv =~= defaults@.map_values(|e: (String, Json)| (e.0@, e.1@)));
            assert(qv =~= req@.map_values(|e: (String, Json)| (e.0@, e.1@)));
            let mut merged: Vec<(String, Json)> = Vec::new();
            let mut k: usize = 0;
            while k < defaults.len()
                invariant
                    k <= defaults.len(),
                    merged.len() == k,
                    forall|j: int| 0 <= j < k ==> (#[trigger] merged@[j]).0@ == defaults@[j].0@ && merged@[j].1@ == defaults@[j].1@,
                decreases defaults.len() - k,
            {
                merged.push((defaults[k].0.clone(), defaults[k].1.deep_clone()));
                k += 1;
            }
            assert(merged@.map_values(|e: (String, Json)| (e.0@, e.1@)) =~= dv);
            let mut i: usize = 0;
            while i < req.len()
                invariant
                    i <= req.len(),
                    qv == req@.map_values(|e: (String, Json)| (e.0@, e.1@)),
                    merged@.map_values(|e: (String, Json)| (e.0@, e.1@)) == obj_merge(dv, qv.take(i as int)),
                decreases req.len() - i,
            {
                assert(qv.take(i + 1).drop_last() =~= qv.take(i as int));
                assert(qv.take(i + 1).last() == (req@[i as int].0@, req@[i as int].1@));
                set_entry(&mut merged, &req[i].0, req[i].1.deep_clone());
                i += 1;
            }
            assert(qv.take(req.len() as int) =~= qv);
            crate::json::jobject(merged)
        }
        _ => request_extra.deep_clone(),
    }
}

/// Looking a key up in merged parameters finds the request's value when the
/// request has the key, and the default's otherwise.
pub proof fn lemma_merge_lookup(defaults: Seq<(Seq<char>, JsonV)>, req: Seq<(Seq<char>, JsonV)>, key: Seq<char>)
    ensures
        obj_lookup(obj_merge(defaults, req), key) == (match last_lookup(req, key) {
            Some(v) => Some(v),
            None => obj_lookup(defaults, key),
        }),
    decreases req.len(),
{
    if req.len() > 0 {
        lemma_merge_lookup(defaults, req.drop_last(), key);
        lemma_set_lookup(obj_merge(defaults, req.drop_last()), req.last().0, req.last().1, key);
    }
}

/// The value of the last entry with `key`, if any.
pub open spec fn last_lookup(m: Seq<(Seq<char>, JsonV)>, key: Seq<char>) -> Option<JsonV>
    decreases m.len(),
{
    if m.len() == 0 {
        None
    } else if m.last().0 == key {
        Some(m.last().1)
    } else {
        last_lookup(m.drop_last(), key)
    }
}

/// Looking up in an object after setting a key.
proof fn lemma_set_lookup(m: Seq<(Seq<char>, JsonV)>, k: Seq<char>, v: JsonV, key: Seq<char>)
    ensures
        obj_lookup(obj_set(m, k, v), key) == (if k == key { Some(v) } else { obj_lookup(m, key) }),
    decreases m.len(),
{
    let s = obj_set(m, k, v);
    if m.len() == 0 {
        assert(s =~= seq![(k, v)]);
        assert(s.subrange(1, 1) =~= Seq::<(Seq<char>, JsonV)>::empty());
        assert(obj_lookup(s, key) == (if k == key { Some(v) } else { obj_lookup(s.subrange(1, 1), key) }));
    } else if m[0].0 == k {
        assert(s =~= seq![(k, v)] + m.subrange(1, m.len() as int));
        assert(s[0] == (k, v));
        assert(s.subrange(1, s.len() as int) =~= m.subrange(1, m.len() as int));
        assert(obj_lookup(s, key) == (if k == key { Some(v) } else { obj_lookup(s.subrange(1, s.len() as int), key) }));
        assert(obj_lookup(m, key) == (if m[0].0 == key { Some(m[0].1) } else { obj_lookup(m.subrange(1, m.len() as int), key) }));
    } else {
        let rest = m.subrange(1, m.len() as int);
        lemma_set_lookup(rest, k, v, key);
        assert(s =~= seq![m[0]] + obj_set(rest, k, v));
        assert(s[0] == m[0]);
        assert(s.subrange(1, s.len() as int) =~= obj_set(rest, k, v));
        assert(obj_lookup(s, key) == (if m[0].0 == key { Some(m[0].1) } else { obj_lookup(s.subrange(1, s.len() as int), key) }));
        assert(obj_lookup(m, key) == (if m[0].0 == key { Some(m[0].1) } else { obj_lookup(rest, key) }));
    }
}

/// A merged parameter is the request's when the request has it, else the
/// default's.
pub proof fn lemma_merge_params_member(defaults: JsonV, req: JsonV, key: Seq<char>)
    requires
        defaults is Object,
        req is Object,
    ensures
        jget(spec_merge_params(defaults, req), key) == (match last_lookup(req->Object_0, key) {
            Some(v) => Some(v),
            None => jget(defaults, key),
        }),
{
    lemma_merge_lookup(defaults->Object_0, req->Object_0, key);
}

// ── Providers ───────────────────────────────────────────────────

/// The kind of provider a backend is served by.
#[derive(PartialEq, Eq, Structural, Clone, Copy, Debug)]
pub enum ProviderKind {
    Anthropic,
    AzureOpenAi,
    OpenAi,
    Agent,
}

/// The provider kind named by a backend's `provider`, if supported.
pub open spec fn spec_provider_kind(p: Seq<char>) -> Option<ProviderKind> {
    if p == "anthropic"@ {
        Some(ProviderKind::Anthropic)
    } else if p == "azure_openai"@ {
        Some(ProviderKind::AzureOpenAi)
    } else if p == "openai"@ || p == "openai_compatible"@ {
        Some(ProviderKind::OpenAi)
    } else if p == "agent"@ {
        Some(ProviderKind::Agent)
    } else {
        None
    }
}

/// How to reach a backend: its provider kind, and for HTTP providers the
/// base URL and API key (empty when none is stored).
pub struct ProviderChoice {
    pub kind: ProviderKind,
    pub base_url: Option<String>,
    pub api_key: String,
}

/// A backend's base URL, which HTTP providers require.
pub fn require_base_url(backend: &ResolvedBackend) -> (r: Result<String, CasperError>)
    ensures
        backend.base_url matches Some(u) ==> (r matches Ok(x) && x@ == u@),
        backend.base_url is None ==> (r matches Err(CasperError::Internal(m))
            && m@ == "backend '"@ + backend.name@ + "' has no base_url configured"@),
{
    match &backend.base_url {
        Some(u) => Ok(u.clone()),
        None => Err(CasperError::Internal(concat3("backend '", backend.name.as_str(), "' has no base_url configured"))),
    }
}

/// Choose the provider for a backend: an HTTP provider needs a base URL; an
/// agent backend needs a live connection (`agent_available`); other
/// providers are not supported.
pub fn choose_provider(backend: &ResolvedBackend, agent_available: bool) -> (r: Result<ProviderChoice, CasperError>)
    ensures
        spec_provider_kind(backend.provider@) is None ==> (r matches Err(CasperError::Internal(m))
            && m@ == "unsupported provider: "@ + backend.provider@),
        spec_provider_kind(backend.provider@) == Some(ProviderKind::Agent) ==> (
            if agent_available {
                r matches Ok(c) && c.kind == ProviderKind::Agent
            } else {
                r matches Err(CasperError::Unavailable(m))
                    && m@ == "no agent backend connections for '"@ + backend.name@ + "'"@
            }),
        spec_provider_kind(backend.provider@) is Some && spec_provider_kind(backend.provider@) != Some(ProviderKind::Agent) ==> (
            match backend.base_url {
                Some(u) => r matches Ok(c) && Some(c.kind) == spec_provider_kind(backend.provider@)
                    && (c.base_url matches Some(b) && b@ == u@)
                    && c.api_key@ == (match backend.api_key_enc { Some(a) => a@, None => Seq::<char>::empty() }),
                None => r matches Err(CasperError::Internal(m))
                    && m@ == "backend '"@ + backend.name@ + "' has no base_url configured"@,
            }),
{
    let p = backend.provider.as_str();
    let kind = if str_eq(p, "anthropic") {
        ProviderKind::Anthropic
    } else if str_eq(p, "azure_openai") {
        ProviderKind::AzureOpenAi
    } else if str_eq(p, "openai") || str_eq(p, "openai_compatible") {
        ProviderKind::OpenAi
    } else if str_eq(p, "agent") {
        ProviderKind::Agent
    } else {
        return Err(CasperError::Internal(crate::text::concat_str("unsupported provider: ", p)));
    };
    if kind == ProviderKind::Agent {
        if !agent_available {
            return Err(CasperError::Unavailable(concat3("no agent backend connections for '", backend.name.as_str(), "'")));
        }
        return Ok(ProviderChoice { kind, base_url: None, api_key: String::new() });
    }
    let api_key = match &backend.api_key_enc {
        Some(a) => a.clone(),
        None => String::new(),
    };
    match require_base_url(backend) {
        Ok(base_url) => Ok(ProviderChoice { kind, base_url: Some(base_url), api_key }),
        Err(e) => Err(e),
    }
}

// ── Retries and fallback ────────────────────────────────────────

/// The tries each backend gets: `retry_attempts + 1`, none when negative.
pub open spec fn tries_per_backend(retry_attempts: i32) -> nat {
    if retry_attempts < 0 { 0 } else { (retry_attempts + 1) as nat }
}

/// The backends tried: all of them with fallback, else only the first.
pub open spec fn backends_tried(n: nat, fallback: bool) -> nat {
    if fallback { n } else if n > 0 { 1 } else { 0 }
}

/// The order in which a deployment's backends are tried: backend by backend
/// (the first only, unless fallback is enabled), each tried
/// `retry_attempts + 1` times in a row. A failure that retrying cannot help
/// ends the dispatch at once; when every try has failed, the last error is
/// the answer (`all backends exhausted` when nothing was tried).
pub struct DispatchPlan {
    pub per_backend: u64,
    pub total: u128,
    pub pos: u128,
    pub last_error: Option<CasperError>,
}

impl DispatchPlan {
    /// Whether this plan is the one for `n` backends, `retry_attempts` and
    /// `fallback`, with `pos` tries already failed.
    pub open spec fn plans(&self, n: nat, retry_attempts: i32, fallback: bool) -> bool {
        &&& self.per_backend == tries_per_backend(retry_attempts)
        &&& self.total == backends_tried(n, fallback) * tries_per_backend(retry_attempts)
        &&& self.pos <= self.total
    }

    /// The plan for a deployment with `backends` backends.
    pub fn new(backends: usize, retry_attempts: i32, fallback_enabled: bool) -> (r: DispatchPlan)
        ensures
            r.plans(backends as nat, retry_attempts, fallback_enabled),
            r.pos == 0,
            r.last_error is None,
    {
        let per: u64 = if retry_attempts < 0 { 0 } else { (retry_attempts as u64) + 1 };
        let tried: u128 = if fallback_enabled { backends as u128 } else if backends > 0 { 1 } else { 0 };
        assert(tried * (per as u128) <= 0x1_0000_0000_0000_0000u128 * 0x1_0000_0000u128) by (nonlinear_arith)
            requires
                tried <= 0x1_0000_0000_0000_0000u128,
                per <= 0x1_0000_0000u64,
        {
        }
        let total: u128 = tried * (per as u128);
        DispatchPlan { per_backend: per, total, pos: 0, last_error: None }
    }

    /// The next try to make: the backend's index in the sequence and the try's
    /// number for that backend (from 0); `None` once every try is spent.
    pub fn next_attempt(&self) -> (r: Option<(u128, u64)>)
        requires
            self.pos <= self.total,
            self.per_backend > 0 || self.total == 0,
        ensures
            self.pos < self.total ==> r == Some(((self.pos / (self.per_backend as u128)), (self.pos % (self.per_backend as u128)) as u64)),
            self.pos >= self.total ==> r is None,
    {
        if self.pos < self.total {
            let per = self.per_backend as u128;
            Some((self.pos / per, (self.pos % per) as u64))
        } else {
            None
        }
    }

    /// Take a failed try: an error that retrying cannot help is returned to
    /// end the dispatch; any other becomes the last error and the plan moves
    /// to the next try.
    pub fn record_failure(&mut self, e: CasperError) -> (r: Option<CasperError>)
        requires
            old(self).pos < old(self).total,
        ensures
            spec_is_non_retryable(e) ==> r == Some(e) && *final(self) == *old(self),
            !spec_is_non_retryable(e) ==> r is None && final(self).pos == old(self).pos + 1
                && final(self).last_error == Some(e) && final(self).total == old(self).total
                && final(self).per_backend == old(self).per_backend,
    {
        if crate::error::is_non_retryable(&e) {
            Some(e)
        } else {
            self.last_error = Some(e);
            self.pos = self.pos + 1;
            None
        }
    }

    /// Take a backend that could not be set up (streaming dispatch): its
    /// error becomes the last error and the plan moves on, whatever the error.
    pub fn record_skip(&mut self, e: CasperError)
        requires
            old(self).pos < old(self).total,
        ensures
            final(self).pos == old(self).pos + 1,
            final(self).last_error == Some(e),
            final(self).total == old(self).total,
            final(self).per_backend == old(self).per_backend,
    {
        self.last_error = Some(e);
        self.pos = self.pos + 1;
    }

    /// The error when every try failed: the last error, else `all backends
    /// exhausted`.
    pub fn give_up(self) -> (r: CasperError)
        ensures
            self.last_error matches Some(e) ==> r == e,
            self.last_error is None ==> (r matches CasperError::Unavailable(m) && m@ == "all backends exhausted"@),
    {
        match self.last_error {
            Some(e) => e,
            None => CasperError::Unavailable("all backends exhausted".to_string()),
        }
    }
}

/// Every try of a plan is of a backend that is tried: the first backend
/// only, unless fallback is enabled.
pub proof fn lemma_plan_backends(n: nat, retry_attempts: i32, fallback: bool, k: nat)
    requires
        k < backends_tried(n, fallback) * tries_per_backend(retry_attempts),
    ensures
        tries_per_backend(retry_attempts) > 0,
        k / tries_per_backend(retry_attempts) < backends_tried(n, fallback),
        !fallback ==> k / tries_per_backend(retry_attempts) == 0,
        k % tries_per_backend(retry_attempts) <= retry_attempts,
{
    let per = tries_per_backend(retry_attempts);
    let b = backends_tried(n, fallback);
    assert(per > 0) by (nonlinear_arith)
        requires
            k < b * per,
            per >= 0,
            b >= 0,
    {
    }
    assert(k / per < b) by (nonlinear_arith)
        requires
            k < b * per,
            per > 0,
    {
    }
    assert(k % per < per) by (nonlinear_arith)
        requires
            per > 0,
    {
    }
}

/// The delay before try `attempt` (from 1) of a backend: the backoff doubled
/// for each earlier retry.
pub fn retry_delay_ms(backoff_ms: i32, attempt: u64) -> (r: u64)
    requires
        1 <= attempt <= 64,
        (backoff_ms as u64) * pow2((attempt - 1) as nat) <= u64::MAX,
    ensures
        r == (backoff_ms as u64) * pow2((attempt - 1) as nat),
{
    let shift: u64 = attempt - 1;
    proof {
        vstd::bits::lemma_u64_pow2_no_overflow(shift as nat);
        vstd::bits::lemma_u64_shl_is_mul(1u64, shift);
    }
    let factor: u64 = 1u64 << shift;
    assert(factor == pow2(shift as nat));
    #[verifier::truncate]
    let b = backoff_ms as u64;
    b * factor
}


/// Tries go in order: a later try is of a later backend, or of the same
/// backend with a later try number.
pub proof fn lemma_tries_in_order(per: nat, p: nat, q: nat)
    requires
        per > 0,
        p < q,
    ensures
        p / per < q / per || (p / per == q / per && p % per < q % per),
{
    assert(p == per * (p / per) + p % per && q == per * (q / per) + q % per) by (nonlinear_arith)
        requires per > 0;
    assert(p % per < per && q % per < per) by (nonlinear_arith)
        requires per > 0;
    if p / per > q / per {
        assert(per * (p / per) >= per * (q / per) + per) by (nonlinear_arith)
            requires p / per > q / per, per > 0;
    }
}

/// Each retry of a backend waits twice as long as the one before it.
pub proof fn lemma_backoff_doubles(backoff_ms: nat, attempt: nat)
    requires
        attempt >= 1,
    ensures
        backoff_ms * pow2(attempt as nat) == 2 * (backoff_ms * pow2((attempt - 1) as nat)),
{
    vstd::arithmetic::power2::lemma_pow2_unfold(attempt);
    assert(backoff_ms * (2 * pow2((attempt - 1) as nat)) == 2 * (backoff_ms * pow2((attempt - 1) as nat))) by (nonlinear_arith);
}
} // verus!
