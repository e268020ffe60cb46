//! Running an agent through the API: the title a new conversation gets, the
//! reply reported when the engine fails, the usage and steps reported when it
//! succeeds, the message returned, and polling of asynchronous runs.

use vstd::prelude::*;
use vstd::string::StringSliceAdditionalSpecFns;
use vstd::utf8::{decode_utf8, encode_utf8, is_char_boundary};
use crate::error::CasperError;
use crate::json::{Json, JsonV};
use crate::react::{AgentResponse, AgentStep, AgentUsage, steps_view};
use crate::text::{concat_str, push_chars, string_of};
use crate::types::{spec_uuid_text, uuid_text};

verus! {

/// The source recorded for a run that names none.
pub fn default_source() -> (r: String)
    ensures
        r@ == "api"@,
{
    "api".to_string()
}

/// The first `n` bytes of `s`'s UTF-8, read back as text.
pub open spec fn byte_prefix(s: Seq<char>, n: int) -> Seq<char> {
    decode_utf8(encode_utf8(s).subrange(0, n))
}

/// `s` cut to its first `n` UTF-8 bytes when it is longer (at a character
/// boundary, which the caller guarantees).
fn cut_bytes(s: &str, n: usize) -> (r: String)
    requires
        s.spec_bytes().len() > n ==> is_char_boundary(s.spec_bytes(), n as int),
    ensures
        s.spec_bytes().len() <= n ==> r@ == s@,
        s.spec_bytes().len() > n ==> r@ == byte_prefix(s@, n as int),
{
    if s.as_bytes().len() > n {
        let (head, _tail) = s.split_at(n);
        proof {
            assert(head.spec_bytes() == s.spec_bytes().subrange(0, n as int));
            vstd::utf8::encode_utf8_decode_utf8(head@);
            assert(decode_utf8(encode_utf8(head@)) == head@);
            assert(encode_utf8(head@) == head.spec_bytes());
            assert(encode_utf8(s@) == s.spec_bytes());
            assert(head@ == byte_prefix(s@, n as int));
        }
        let r = head.to_owned();
        assert(r@ == head@);
        r
    } else {
        s.to_owned()
    }
}

/// The title of a conversation opened by `message`: the message, or its
/// first 50 bytes and `...` when it is longer.
pub open spec fn spec_title(message: Seq<char>) -> Seq<char> {
    if encode_utf8(message).len() > 50 {
        byte_prefix(message, 50) + "..."@
    } else {
        message
    }
}

/// The title of a conversation opened by `message`.
pub fn conversation_title(message: &str) -> (r: String)
    requires
        message.spec_bytes().len() > 50 ==> is_char_boundary(message.spec_bytes(), 50),
    ensures
        r@ == spec_title(message@),
{
    if message.as_bytes().len() > 50 {
        let head = cut_bytes(message, 50);
        concat_str(head.as_str(), "...")
    } else {
        message.to_owned()
    }
}

/// The reply stored and returned when the engine cannot run: it names the
/// agent and repeats the message, cut to its first 100 bytes.
pub open spec fn spec_placeholder(agent_name: Seq<char>, message: Seq<char>) -> Seq<char> {
    "[Placeholder] Agent '"@ + agent_name + "' received your message but the LLM backend is unavailable. Message: "@
        + if encode_utf8(message).len() > 100 { byte_prefix(message, 100) } else { message }
}

/// The reply stored and returned when the engine cannot run.
pub fn placeholder_reply(agent_name: &str, message: &str) -> (r: String)
    requires
        message.spec_bytes().len() > 100 ==> is_char_boundary(message.spec_bytes(), 100),
    ensures
        r@ == spec_placeholder(agent_name@, message@),
{
    let shown = cut_bytes(message, 100);
    let mut v: Vec<char> = Vec::new();
    push_chars(&mut v, "[Placeholder] Agent '");
    push_chars(&mut v, agent_name);
    push_chars(&mut v, "' received your message but the LLM backend is unavailable. Message: ");
    push_chars(&mut v, shown.as_str());
    string_of(v.as_slice())
}

/// Usage reported for a run.
#[derive(PartialEq, Eq, Structural, Clone, Copy, Debug)]
pub struct UsageResponse {
    pub input_tokens: i32,
    pub output_tokens: i32,
    pub cache_read_tokens: i32,
    pub cache_write_tokens: i32,
    pub llm_calls: i32,
    pub tool_calls: i32,
    pub duration_ms: u64,
}

/// The usage reported for the engine's usage, field for field.
pub open spec fn spec_usage_response(u: AgentUsage) -> UsageResponse {
    UsageResponse {
        input_tokens: u.input_tokens,
        output_tokens: u.output_tokens,
        cache_read_tokens: u.cache_read_tokens,
        cache_write_tokens: u.cache_write_tokens,
        llm_calls: u.llm_calls,
        tool_calls: u.tool_calls,
        duration_ms: u.duration_ms,
    }
}

/// What a run reports, and whether the exchange must be stored here (the
/// engine stores it itself when it ran).
pub struct RunReply {
    pub assistant_text: String,
    pub usage: UsageResponse,
    pub steps: Vec<AgentStep>,
    pub persist_exchange: bool,
}

/// The reply of a run from the engine's outcome: its message, usage and
/// steps when it ran; the placeholder, zero usage and no steps when it
/// failed. The exchange is stored here exactly when the usage shows no LLM
/// call.
pub fn run_reply(outcome: Result<AgentResponse, CasperError>, agent_name: &str, message: &str) -> (r: RunReply)
    requires
        outcome is Err ==> (message.spec_bytes().len() > 100 ==> is_char_boundary(message.spec_bytes(), 100)),
    ensures
        outcome matches Ok(resp) ==> r.assistant_text@ == resp.message@ && r.usage == spec_usage_response(resp.usage)
            && steps_view(r.steps@) == steps_view(resp.steps@),
        outcome is Err ==> r.assistant_text@ == spec_placeholder(agent_name@, message@)
            && r.usage == spec_usage_response(AgentUsage { input_tokens: 0, output_tokens: 0, cache_read_tokens: 0,
                cache_write_tokens: 0, llm_calls: 0, tool_calls: 0, duration_ms: 0 })
            && r.steps@.len() == 0,
        r.persist_exchange == (r.usage.llm_calls == 0),
{
    match outcome {
        Ok(resp) => {
            let u = resp.usage;
            let usage = UsageResponse {
                input_tokens: u.input_tokens,
                output_tokens: u.output_tokens,
                cache_read_tokens: u.cache_read_tokens,
                cache_write_tokens: u.cache_write_tokens,
                llm_calls: u.llm_calls,
                tool_calls: u.tool_calls,
                duration_ms: u.duration_ms,
            };
            RunReply { assistant_text: resp.message, usage, steps: resp.steps, persist_exchange: usage.llm_calls == 0 }
        },
        Err(_) => {
            let usage = UsageResponse {
                input_tokens: 0,
                output_tokens: 0,
                cache_read_tokens: 0,
                cache_write_tokens: 0,
                llm_calls: 0,
                tool_calls: 0,
                duration_ms: 0,
            };
            RunReply { assistant_text: placeholder_reply(agent_name, message), usage, steps: Vec::new(), persist_exchange: true }
        },
    }
}

/// The token count recorded for a stored message: a quarter of its UTF-8
/// length, as `i32` (truncating).
pub fn token_count(text: &str) -> (r: i32)
    ensures
        r == (text.spec_bytes().len() / 4) as i32,
{
    (text.as_bytes().len() / 4) as i32
}

/// A message as a run returns it (`created_at` in Unix nanoseconds).
pub struct MessageResponse {
    pub id: u128,
    pub role: String,
    pub content: Json,
    pub created_at: i128,
}

/// The message a run returns: the latest stored assistant message when it
/// could be read, otherwise the reply text itself as a new assistant message
/// with the given id and time.
pub fn reply_message(stored: Option<MessageResponse>, assistant_text: &str, fresh_id: u128, now: i128) -> (r: MessageResponse)
    ensures
        stored matches Some(m) ==> r.id == m.id && r.role@ == m.role@ && r.content@ == m.content@ && r.created_at == m.created_at,
        stored is None ==> r.id == fresh_id && r.role@ == "assistant"@ && r.content@ == JsonV::Str(assistant_text@)
            && r.created_at == now,
{
    match stored {
        Some(m) => m,
        None => MessageResponse {
            id: fresh_id,
            role: "assistant".to_string(),
            content: Json::Str(assistant_text.to_owned()),
            created_at: now,
        },
    }
}

/// The state of an asynchronous run.
pub struct TaskStatusResponse {
    pub task_id: u128,
    pub status: String,
    pub result: Option<Json>,
}

/// The status of an asynchronous run from its entry in the task table:
/// completed with its result once it has one, pending before; unknown tasks
/// are not found.
pub fn task_status(task_id: u128, entry: Option<Option<Json>>) -> (r: Result<TaskStatusResponse, CasperError>)
    ensures
        entry is None ==> (r matches Err(CasperError::NotFound(m)) && m@ == "task "@ + spec_uuid_text(task_id)),
        entry matches Some(Some(v)) ==> (r matches Ok(t) && t.task_id == task_id && t.status@ == "completed"@
            && (t.result matches Some(x) && x@ == v@)),
        entry matches Some(None) ==> (r matches Ok(t) && t.task_id == task_id && t.status@ == "pending"@
            && t.result is None),
{
    match entry {
        Some(Some(v)) => Ok(TaskStatusResponse { task_id, status: "completed".to_string(), result: Some(v) }),
        Some(None) => Ok(TaskStatusResponse { task_id, status: "pending".to_string(), result: None }),
        None => Err(CasperError::NotFound(concat_str("task ", uuid_text(task_id).as_str()))),
    }
}

} // verus!
