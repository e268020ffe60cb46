//! Admin and user API requests: the defaults their optional fields take,
//! conversation paging, and the checks on conversation outcomes and message
//! feedback.

use vstd::prelude::*;
use crate::error::CasperError;
use vstd::string::StringSliceAdditionalSpecFns;
use vstd::utf8::encode_utf8;
use crate::prompt::utf8_len;
use crate::run::token_count;
use crate::text::{i64_text, push_chars, spec_int_text, str_eq, string_of};

verus! {

// ── Defaults ────────────────────────────────────────────────────

/// The priority of a backend created without one.
pub fn default_priority() -> (r: i32)
    ensures
        r == 100,
{
    100
}

/// The retry attempts of a deployment created without them.
pub fn default_retry_attempts() -> (r: i32)
    ensures
        r == 1,
{
    1
}

/// The retry backoff of a deployment created without one, in milliseconds.
pub fn default_retry_backoff_ms() -> (r: i32)
    ensures
        r == 1000,
{
    1000
}

/// A flag that is on unless the request turns it off.
pub fn default_true() -> (r: bool)
    ensures
        r,
{
    true
}

/// The request timeout of a deployment created without one, in
/// milliseconds.
pub fn default_timeout_ms() -> (r: i32)
    ensures
        r == 30000,
{
    30000
}

// ── Conversations ───────────────────────────────────────────────

/// The page listed when the request names none.
pub fn default_page() -> (r: i64)
    ensures
        r == 1,
{
    1
}

/// The page size when the request names none.
pub fn default_per_page() -> (r: i64)
    ensures
        r == 50,
{
    50
}

/// Query parameters for listing conversations.
pub struct ListConversationsParams {
    pub page: i64,
    pub per_page: i64,
    pub agent_name: Option<String>,
    pub status: Option<String>,
    pub outcome: Option<String>,
}

/// The page size actually used: the requested size clamped to 1..=100.
pub open spec fn spec_page_limit(per_page: i64) -> int {
    if per_page < 1 { 1 } else if per_page > 100 { 100 } else { per_page as int }
}

/// The rows skipped before the requested page: pages before it (a page
/// below 1 counts as the first) times the page size used.
pub open spec fn spec_page_offset(page: i64, per_page: i64) -> int {
    ((if page < 1 { 1 } else { page as int }) - 1) * spec_page_limit(per_page)
}

/// The `LIMIT` and `OFFSET` of a conversation listing.
pub fn page_window(params: &ListConversationsParams) -> (r: (i64, i64))
    requires
        spec_page_offset(params.page, params.per_page) <= i64::MAX,
    ensures
        r.0 == spec_page_limit(params.per_page),
        r.1 == spec_page_offset(params.page, params.per_page),
{
    let limit: i64 = if params.per_page < 1 { 1 } else if params.per_page > 100 { 100 } else { params.per_page };
    let page: i64 = if params.page < 1 { 1 } else { params.page };
    let offset: i64 = (page - 1) * limit;
    (limit, offset)
}

/// Request to record how a conversation ended.
pub struct SetOutcomeRequest {
    pub outcome: String,
    pub outcome_notes: Option<String>,
}

/// Whether `o` is one of the recorded outcomes.
pub open spec fn is_outcome(o: Seq<char>) -> bool {
    o == "resolved"@ || o == "unresolved"@ || o == "escalated"@ || o == "duplicate"@
}

/// Checks a conversation outcome: `resolved`, `unresolved`, `escalated` or
/// `duplicate`.
pub fn check_outcome(outcome: &str) -> (r: Result<(), CasperError>)
    ensures
        is_outcome(outcome@) ==> r is Ok,
        !is_outcome(outcome@) ==> (r matches Err(CasperError::BadRequest(m)) && m@ == "invalid outcome '"@ + outcome@
            + "', must be one of: "@ + "resolved, unresolved, escalated, duplicate"@),
{
    if str_eq(outcome, "resolved") || str_eq(outcome, "unresolved") || str_eq(outcome, "escalated")
        || str_eq(outcome, "duplicate") {
        return Ok(());
    }
    let mut v: Vec<char> = Vec::new();
    push_chars(&mut v, "invalid outcome '");
    push_chars(&mut v, outcome);
    push_chars(&mut v, "', must be one of: ");
    push_chars(&mut v, "resolved, unresolved, escalated, duplicate");
    Err(CasperError::BadRequest(string_of(v.as_slice())))
}

// ── Feedback ────────────────────────────────────────────────────

/// How many feedback entries a listing returns when the request names no
/// limit.
pub fn default_limit() -> (r: i64)
    ensures
        r == 100,
{
    100
}

/// Query parameters for listing feedback.
pub struct ListFeedbackParams {
    pub agent_name: Option<String>,
    pub feedback_type: Option<String>,
    pub from: Option<String>,
    pub to: Option<String>,
    pub limit: i64,
    pub offset: i64,
}

/// Feedback on an assistant message.
pub struct CreateFeedbackRequest {
    pub message_id: u128,
    pub feedback_type: String,
    pub rating: Option<i32>,
    pub correction: Option<String>,
    pub tags: Vec<String>,
}

/// The message of a refused feedback request, if it is refused: the type
/// must be `rating`, `correction` or `tag`; a rating needs a rating of +1 or
/// -1, a correction a non-empty correction, a tag at least one tag.
pub open spec fn spec_feedback_problem(req: CreateFeedbackRequest) -> Option<Seq<char>> {
    let t = req.feedback_type@;
    if t == "rating"@ {
        match req.rating {
            Some(x) => if x == 1 || x == -1 { None } else { Some("rating must be +1 or -1, got "@ + spec_int_text(x as int)) },
            None => Some("rating field is required for feedback_type 'rating'"@),
        }
    } else if t == "correction"@ {
        match req.correction {
            Some(c) => if c@.len() == 0 { Some("correction field is required for feedback_type 'correction'"@) } else { None },
            None => Some("correction field is required for feedback_type 'correction'"@),
        }
    } else if t == "tag"@ {
        if req.tags@.len() == 0 { Some("tags field must not be empty for feedback_type 'tag'"@) } else { None }
    } else {
        Some("invalid feedback_type '"@ + t + "', must be one of: "@ + "rating, correction, tag"@)
    }
}

/// Checks a feedback request before it is stored.
pub fn validate_feedback(req: &CreateFeedbackRequest) -> (r: Result<(), CasperError>)
    ensures
        spec_feedback_problem(*req) is None ==> r is Ok,
        spec_feedback_problem(*req) matches Some(p) ==> (r matches Err(CasperError::BadRequest(m)) && m@ == p),
{
    let t = req.feedback_type.as_str();
    if str_eq(t, "rating") {
        match req.rating {
            Some(x) => {
                if x == 1 || x == -1 {
                    Ok(())
                } else {
                    let mut v: Vec<char> = Vec::new();
                    push_chars(&mut v, "rating must be +1 or -1, got ");
                    push_chars(&mut v, i64_text(x as i64).as_str());
                    Err(CasperError::BadRequest(string_of(v.as_slice())))
                }
            },
            None => Err(CasperError::BadRequest("rating field is required for feedback_type 'rating'".to_string())),
        }
    } else if str_eq(t, "correction") {
        let missing = match &req.correction {
            Some(c) => c.as_str().is_empty(),
            None => true,
        };
        if missing {
            Err(CasperError::BadRequest("correction field is required for feedback_type 'correction'".to_string()))
        } else {
            Ok(())
        }
    } else if str_eq(t, "tag") {
        if req.tags.len() == 0 {
            Err(CasperError::BadRequest("tags field must not be empty for feedback_type 'tag'".to_string()))
        } else {
            Ok(())
        }
    } else {
        let mut v: Vec<char> = Vec::new();
        push_chars(&mut v, "invalid feedback_type '");
        push_chars(&mut v, t);
        push_chars(&mut v, "', must be one of: ");
        push_chars(&mut v, "rating, correction, tag");
        Err(CasperError::BadRequest(string_of(v.as_slice())))
    }
}

// ── API keys, users, secrets, snippets ──────────────────────────

/// Request to create an API key; `scopes` is empty when the request names
/// none.
pub struct CreateApiKeyRequest {
    pub name: String,
    pub scopes: Vec<String>,
}

/// Request to change an API key; each field left out stays as it is.
pub struct UpdateApiKeyRequest {
    pub name: Option<String>,
    pub scopes: Option<Vec<String>>,
}

/// Request to create a user; `scopes` is empty when the request names none.
pub struct CreateUserRequest {
    pub subject: String,
    pub role: String,
    pub scopes: Vec<String>,
    pub email: Option<String>,
    pub display_name: Option<String>,
}

/// Request to change a user; each field left out stays as it is.
pub struct UpdateUserRequest {
    pub role: Option<String>,
    pub scopes: Option<Vec<String>>,
    pub display_name: Option<String>,
}

/// Request to store a tenant secret under a key.
pub struct SetSecretRequest {
    pub key: String,
    pub value: String,
}

/// A stored secret as listed: its key and when it was written, never its
/// value.
pub struct SecretKeyResponse {
    pub key: String,
    pub created_at: String,
    pub updated_at: String,
}

/// Request to create a prompt snippet.
pub struct CreateSnippetRequest {
    pub name: String,
    pub display_name: String,
    pub content: String,
}

/// Request to change a prompt snippet; each field left out stays as it is.
pub struct UpdateSnippetRequest {
    pub name: Option<String>,
    pub display_name: Option<String>,
    pub content: Option<String>,
}

/// The token estimate stored with a snippet's content: a quarter of its
/// UTF-8 length, as `i32` (truncating).
pub open spec fn spec_snippet_tokens(content: Seq<char>) -> i32 {
    (utf8_len(content) / 4) as i32
}

impl CreateSnippetRequest {
    /// The token estimate stored with the new snippet.
    pub fn token_estimate(&self) -> (r: i32)
        ensures
            r == spec_snippet_tokens(self.content@),
    {
        let text = self.content.as_str();
        proof { assert(encode_utf8(text@) == text.spec_bytes()); }
        token_count(text)
    }
}

impl UpdateSnippetRequest {
    /// The new token estimate: that of the new content, `None` when the
    /// content is left as it is.
    pub fn token_estimate(&self) -> (r: Option<i32>)
        ensures
            match self.content {
                Some(c) => r == Some(spec_snippet_tokens(c@)),
                None => r is None,
            },
    {
        match &self.content {
            Some(c) => {
                let text = c.as_str();
                proof { assert(encode_utf8(text@) == text.spec_bytes()); }
                Some(token_count(text))
            },
            None => None,
        }
    }
}

} // verus!
