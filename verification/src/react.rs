//! The decisions of the agent's ReAct loop: how many turns it may take,
//! how stored history becomes LLM messages, what each model response leads
//! to, how tool outcomes are reported back to the model, and how the
//! sentinels of the `delegate`, `ask_user` and MCP OAuth tools are read.
//! The caller performs the LLM calls, tool calls and storage these
//! decisions ask for.

use vstd::prelude::*;
use crate::codec::{json_text, serde_form, spec_json_text};
use crate::error::{CasperError, spec_error_message};
use crate::history::{HistoryMessage, HistoryMessageV};
use crate::json::{Json, JsonV, jarr, jbool, jget, jget_str, jget_u64, jstr};
use crate::llm::{
    ContentBlock, ContentBlockV, CompletionResponse, LlmMessage, LlmRole, StopReason, blocks_view,
    clone_blocks, extract_text, extract_thinking, parse_history_content, parse_role, spec_extract_text,
    spec_extract_thinking, spec_history_content, spec_parse_role,
};
use crate::text::{chars_of, concat_str, concat3, contains_str, spec_contains, spec_decimal, split_chars, split_on, str_eq, string_of, u64_text};
use crate::tools::{ask_user_sentinel, delegate_sentinel, ToolResult};

verus! {

/// Maximum number of ReAct loop iterations.
pub const DEFAULT_MAX_TURNS: usize = 25;

/// The number of turns an agent may take: its configured `max_turns`,
/// at most `DEFAULT_MAX_TURNS` (a negative value allows the default).
pub open spec fn spec_max_turns(configured: i32) -> usize {
    if configured < 0 || configured > 25 { 25 } else { configured as usize }
}

/// The number of turns an agent may take.
pub fn effective_max_turns(configured: i32) -> (r: usize)
    ensures
        r == spec_max_turns(configured),
{
    if configured < 0 || configured > 25 {
        DEFAULT_MAX_TURNS
    } else {
        configured as usize
    }
}

// ── Usage ───────────────────────────────────────────────────────

/// Token and call usage for a single agent invocation.
#[derive(PartialEq, Eq, Structural, Clone, Copy, Debug)]
pub struct AgentUsage {
    pub input_tokens: i32,
    pub output_tokens: i32,
    pub cache_read_tokens: i32,
    pub cache_write_tokens: i32,
    pub llm_calls: i32,
    pub tool_calls: i32,
    pub duration_ms: u64,
}

impl Default for AgentUsage {
    fn default() -> (r: AgentUsage)
        ensures
            r == (AgentUsage { input_tokens: 0, output_tokens: 0, cache_read_tokens: 0, cache_write_tokens: 0,
                llm_calls: 0, tool_calls: 0, duration_ms: 0 }),
    {
        AgentUsage { input_tokens: 0, output_tokens: 0, cache_read_tokens: 0, cache_write_tokens: 0,
            llm_calls: 0, tool_calls: 0, duration_ms: 0 }
    }
}

/// One tool call with its input and result.
pub struct ToolCallStep {
    pub name: String,
    pub input: Json,
    pub result: String,
    pub is_error: bool,
}

/// A single ReAct loop iteration: optional thinking and optional tool calls.
pub struct AgentStep {
    pub thinking: Option<String>,
    pub tool_calls: Option<Vec<ToolCallStep>>,
}

/// The response from processing a message through the agent engine.
pub struct AgentResponse {
    /// The agent's reply text.
    pub message: String,
    /// The conversation this reply belongs to.
    pub conversation_id: u128,
    /// Token and call usage for this invocation.
    pub usage: AgentUsage,
    /// Correlation id for tracing.
    pub correlation_id: u128,
    /// Intermediate ReAct steps (thinking and tool calls per turn).
    pub steps: Vec<AgentStep>,
}

// ── Messages ────────────────────────────────────────────────────

/// The abstract value of an LLM message.
pub struct LlmMessageV {
    pub role: LlmRole,
    pub content: Seq<ContentBlockV>,
}

/// The abstract value of an LLM message.
pub open spec fn message_view(m: LlmMessage) -> LlmMessageV {
    LlmMessageV { role: m.role, content: blocks_view(m.content@) }
}

/// The abstract values of a sequence of LLM messages.
pub open spec fn messages_view(s: Seq<LlmMessage>) -> Seq<LlmMessageV> {
    s.map_values(|m: LlmMessage| message_view(m))
}

/// The LLM messages of stored history: each message whose role is known,
/// with its content parsed; messages with an unknown role are left out.
pub open spec fn spec_history_messages(h: Seq<HistoryMessageV>) -> Seq<LlmMessageV>
    decreases h.len(),
{
    if h.len() == 0 {
        Seq::empty()
    } else {
        spec_history_messages(h.drop_last()) + match spec_parse_role(h.last().role) {
            Some(role) => seq![LlmMessageV { role, content: spec_history_content(role, h.last().content) }],
            None => Seq::empty(),
        }
    }
}

/// Convert stored history to LLM messages.
pub fn history_to_messages(history: &Vec<HistoryMessage>) -> (r: Vec<LlmMessage>)
    ensures
        messages_view(r@) == spec_history_messages(history@.map_values(|m: HistoryMessage| m@)),
{
    let ghost hv = history@.map_values(|m: HistoryMessage| m@);
    let mut out: Vec<LlmMessage> = Vec::new();
    let mut i: usize = 0;
    while i < history.len()
        invariant
            i <= history.len(),
            hv == history@.map_values(|m: HistoryMessage| m@),
            messages_view(out@) == spec_history_messages(hv.take(i as int)),
        decreases history.len() - i,
    {
        assert(hv.take(i + 1).drop_last() =~= hv.take(i as int));
        assert(hv.take(i + 1).last() == history@[i as int]@);
        let h = &history[i];
        match parse_role(h.role.as_str()) {
            Some(role) => {
                let content = parse_history_content(role, &h.content);
                let ghost before = out@;
                out.push(LlmMessage { role, content });
                assert(messages_view(out@) =~= messages_view(before).push(message_view(out@.last())));
                assert(messages_view(out@) =~= spec_history_messages(hv.take(i + 1)));
            }
            None => {
                assert(messages_view(out@) =~= spec_history_messages(hv.take(i + 1)));
            }
        }
        i += 1;
    }
    assert(hv.take(history.len() as int) =~= hv);
    out
}

/// A message of one text block.
pub fn text_message(role: LlmRole, text: &str) -> (r: LlmMessage)
    ensures
        message_view(r) == (LlmMessageV { role, content: seq![ContentBlockV::Text { text: text@ }] }),
{
    let mut content: Vec<ContentBlock> = Vec::new();
    content.push(ContentBlock::Text { text: text.to_string() });
    let r = LlmMessage { role, content };
    assert(blocks_view(r.content@) =~= seq![ContentBlockV::Text { text: text@ }]);
    r
}

/// A copy of a message.
fn clone_message(m: &LlmMessage) -> (r: LlmMessage)
    ensures
        message_view(r) == message_view(*m),
{
    LlmMessage { role: m.role, content: clone_blocks(&m.content) }
}

/// The messages of a completion request: the system prompt first, then the
/// conversation so far.
pub fn request_messages(system_prompt: &str, messages: &Vec<LlmMessage>) -> (r: Vec<LlmMessage>)
    ensures
        messages_view(r@) == seq![LlmMessageV { role: LlmRole::System, content: seq![ContentBlockV::Text { text: system_prompt@ }] }]
            + messages_view(messages@),
{
    let mut out: Vec<LlmMessage> = Vec::new();
    out.push(text_message(LlmRole::System, system_prompt));
    let ghost first = message_view(out@[0]);
    let mut i: usize = 0;
    while i < messages.len()
        invariant
            i <= messages.len(),
            out.len() == i + 1,
            message_view(out@[0]) == first,
            forall|k: int| 0 <= k < i ==> message_view(#[trigger] out@[k + 1]) == message_view(messages@[k]),
        decreases messages.len() - i,
    {
        out.push(clone_message(&messages[i]));
        i += 1;
    }
    assert forall|k: int| 0 <= k < out@.len() implies #[trigger] messages_view(out@)[k]
        == (seq![first] + messages_view(messages@))[k] by {
        if k > 0 {
            assert(message_view(out@[(k - 1) + 1]) == message_view(messages@[k - 1]));
        }
    }
    assert(messages_view(out@) =~= seq![first] + messages_view(messages@));
    out
}

/// The tool calls of a response's content, in order: each tool-use block's
/// id, name and input.
pub open spec fn spec_tool_uses(s: Seq<ContentBlockV>) -> Seq<(Seq<char>, Seq<char>, JsonV)>
    decreases s.len(),
{
    if s.len() == 0 {
        Seq::empty()
    } else {
        spec_tool_uses(s.drop_last()) + match s.last() {
            ContentBlockV::ToolUse { id, name, input } => seq![(id, name, input)],
            _ => Seq::empty(),
        }
    }
}

/// A tool call the model asked for.
pub struct ToolCall {
    pub id: String,
    pub name: String,
    pub input: Json,
}

/// The abstract value of a tool call.
pub open spec fn call_view(c: ToolCall) -> (Seq<char>, Seq<char>, JsonV) {
    (c.id@, c.name@, c.input@)
}

/// The tool calls in content blocks, in order.
pub fn tool_uses(content: &Vec<ContentBlock>) -> (r: Vec<ToolCall>)
    ensures
        r@.map_values(|c: ToolCall| call_view(c)) == spec_tool_uses(blocks_view(content@)),
{
    let ghost bv = blocks_view(content@);
    let mut out: Vec<ToolCall> = Vec::new();
    let mut i: usize = 0;
    while i < content.len()
        invariant
            i <= content.len(),
            bv == blocks_view(content@),
            out@.map_values(|c: ToolCall| call_view(c)) == spec_tool_uses(bv.take(i as int)),
        decreases content.len() - i,
    {
        assert(bv.take(i + 1).drop_last() =~= bv.take(i as int));
        assert(bv.take(i + 1).last() == content@[i as int]@);
        match &content[i] {
            ContentBlock::ToolUse { id, name, input } => {
                let ghost before = out@;
                out.push(ToolCall { id: id.clone(), name: name.clone(), input: input.deep_clone() });
                assert(out@.map_values(|c: ToolCall| call_view(c))
                    =~= before.map_values(|c: ToolCall| call_view(c)).push(call_view(out@.last())));
            }
            _ => {}
        }
        i += 1;
    }
    assert(bv.take(content.len() as int) =~= bv);
    out
}

// ── Reporting tool outcomes ─────────────────────────────────────

/// The text and error flag that report a tool's outcome to the model: an
/// error result as `Error: <JSON text>`, a result as its JSON text, a failed
/// call as `Tool error: <error>`.
pub open spec fn spec_tool_report(outcome: Result<(JsonV, bool), CasperError>) -> (Seq<char>, bool) {
    match outcome {
        Ok((content, is_error)) => if is_error {
            ("Error: "@ + spec_json_text(serde_form(content)), true)
        } else {
            (spec_json_text(serde_form(content)), false)
        },
        Err(e) => ("Tool error: "@ + spec_error_message(e), true),
    }
}

/// The view of a tool outcome.
pub open spec fn outcome_view(o: Result<ToolResult, CasperError>) -> Result<(JsonV, bool), CasperError> {
    match o {
        Ok(t) => Ok((t.content@, t.is_error)),
        Err(e) => Err(e),
    }
}

/// The text and error flag that report a tool's outcome to the model.
pub fn tool_report(outcome: &Result<ToolResult, CasperError>) -> (r: (String, bool))
    ensures
        (r.0@, r.1) == spec_tool_report(outcome_view(*outcome)),
{
    match outcome {
        Ok(result) => {
            if result.is_error {
                (concat_str("Error: ", &json_text(&result.content)), true)
            } else {
                (json_text(&result.content), false)
            }
        }
        Err(e) => (concat_str("Tool error: ", &e.message()), true),
    }
}

// ── Sentinels ───────────────────────────────────────────────────

/// Whether `content[key]` is the boolean `true`.
pub open spec fn flag_set(content: JsonV, key: Seq<char>) -> bool {
    match jget(content, key) {
        Some(v) => jbool(v) == Some(true),
        None => false,
    }
}

/// Whether `content[key]` is the boolean `true`.
pub fn has_flag(content: &Json, key: &str) -> (r: bool)
    ensures
        r == flag_set(content@, key@),
{
    match content.get(key) {
        Some(v) => match v.as_bool() {
            Some(b) => b,
            None => false,
        },
        None => false,
    }
}

/// `content[key]` as a string, or the empty string.
pub open spec fn str_member(content: JsonV, key: Seq<char>) -> Seq<char> {
    match jget_str(content, key) {
        Some(s) => s,
        None => Seq::empty(),
    }
}

/// `content[key]` as a string, or the empty string.
fn str_member_of(content: &Json, key: &str) -> (r: String)
    ensures
        r@ == str_member(content@, key@),
{
    match content.get(key) {
        Some(v) => match v.as_str() {
            Some(s) => s.clone(),
            None => String::new(),
        },
        None => String::new(),
    }
}

/// A delegation the `delegate` sentinel asks for: target agent and message.
pub open spec fn spec_delegation(content: JsonV) -> Option<(Seq<char>, Seq<char>)> {
    if flag_set(content, "__delegate__"@) {
        Some((str_member(content, "agent"@), str_member(content, "message"@)))
    } else {
        None
    }
}

/// The delegation a successful tool result asks for, if it is the
/// `delegate` sentinel.
pub fn delegation_request(content: &Json) -> (r: Option<(String, String)>)
    ensures
        r is Some <==> spec_delegation(content@) is Some,
        r matches Some((a, m)) ==> spec_delegation(content@) == Some((a@, m@)),
{
    if has_flag(content, "__delegate__") {
        Some((str_member_of(content, "agent"), str_member_of(content, "message")))
    } else {
        None
    }
}

/// The first entry of `entries` whose `name` is `name`.
pub open spec fn find_named(entries: Seq<JsonV>, name: Seq<char>) -> Option<JsonV>
    decreases entries.len(),
{
    if entries.len() == 0 {
        None
    } else if jget(entries[0], "name"@) == Some(JsonV::Str(name)) {
        Some(entries[0])
    } else {
        find_named(entries.subrange(1, entries.len() as int), name)
    }
}

/// The `builtin` entry of a tools config named `name`.
pub open spec fn builtin_entry(tools: JsonV, name: Seq<char>) -> Option<JsonV> {
    match jget(tools, "builtin"@) {
        Some(b) => match jarr(b) {
            Some(a) => find_named(a, name),
            None => None,
        },
        None => None,
    }
}

/// The delegation limits of a tools config: the `delegate` entry's
/// `timeout_secs` (default 300) and `max_depth` (default 3, cast to `u32`).
pub open spec fn spec_delegate_settings(tools: JsonV) -> (u64, u32) {
    let e = builtin_entry(tools, "delegate"@);
    let timeout = match e {
        Some(c) => match jget_u64(c, "timeout_secs"@) {
            Some(t) => t,
            None => 300,
        },
        None => 300,
    };
    let depth = match e {
        Some(c) => match jget_u64(c, "max_depth"@) {
            Some(d) => d,
            None => 3,
        },
        None => 3,
    };
    (timeout, depth as u32)
}

/// The first element of `entries` whose `name` is `name`.
fn find_named_entry<'a>(entries: &'a Vec<Json>, name: &str) -> (r: Option<&'a Json>)
    ensures
        r is Some <==> find_named(entries@.map_values(|x: Json| x@), name@) is Some,
        r matches Some(x) ==> find_named(entries@.map_values(|x: Json| x@), name@) == Some(x@),
{
    let ghost ev = entries@.map_values(|x: Json| x@);
    let mut i: usize = 0;
    assert(ev.subrange(0, ev.len() as int) =~= ev);
    while i < entries.len()
        invariant
            i <= entries.len(),
            ev == entries@.map_values(|x: Json| x@),
            find_named(ev, name@) == find_named(ev.subrange(i as int, ev.len() as int), name@),
        decreases entries.len() - i,
    {
        let ghost rest = ev.subrange(i as int, ev.len() as int);
        assert(rest[0] == entries@[i as int]@);
        let matches_name = match entries[i].get("name") {
            Some(n) => match n.as_str() {
                Some(s) => str_eq(s.as_str(), name),
                None => false,
            },
            None => false,
        };
        assert(matches_name == (jget(rest[0], "name"@) == Some(JsonV::Str(name@))));
        if matches_name {
            return Some(&entries[i]);
        }
        assert(rest.subrange(1, rest.len() as int) =~= ev.subrange(i + 1, ev.len() as int));
        i += 1;
    }
    None
}

/// `config[key]` as a `u64`, or `default`.
fn u64_member(config: &Json, key: &str, default: u64) -> (r: u64)
    ensures
        r == (match jget_u64(config@, key@) {
            Some(v) => v,
            None => default,
        }),
{
    match config.get(key) {
        Some(v) => match v.as_u64() {
            Some(x) => x,
            None => default,
        },
        None => default,
    }
}

/// The delegation limits of a tools config.
pub fn delegate_settings(tools: &Json) -> (r: (u64, u32))
    ensures
        r == spec_delegate_settings(tools@),
{
    let entry = match tools.get("builtin") {
        Some(b) => match b.as_array() {
            Some(a) => find_named_entry(a, "delegate"),
            None => None,
        },
        None => None,
    };
    match entry {
        Some(c) => {
            let t = u64_member(c, "timeout_secs", 300);
            let d = u64_member(c, "max_depth", 3);
            #[verifier::truncate]
            let d32 = d as u32;
            (t, d32)
        }
        None => (300, 3),
    }
}

/// A question the `ask_user` sentinel asks: the question and the string
/// options (other options are left out).
pub open spec fn spec_ask_user(content: JsonV) -> Option<(Seq<char>, Seq<Seq<char>>)> {
    if flag_set(content, "__ask_user__"@) {
        Some((str_member(content, "question"@), match jget(content, "options"@) {
            Some(o) => match jarr(o) {
                Some(a) => string_items(a),
                None => Seq::empty(),
            },
            None => Seq::empty(),
        }))
    } else {
        None
    }
}

/// The strings among JSON values, in order.
pub open spec fn string_items(a: Seq<JsonV>) -> Seq<Seq<char>>
    decreases a.len(),
{
    if a.len() == 0 {
        Seq::empty()
    } else {
        string_items(a.drop_last()) + match jstr(a.last()) {
            Some(s) => seq![s],
            None => Seq::empty(),
        }
    }
}

/// The strings among JSON values, in order.
pub fn string_items_of(a: &Vec<Json>) -> (r: Vec<String>)
    ensures
        r@.map_values(|s: String| s@) == string_items(a@.map_values(|x: Json| x@)),
{
    let ghost av = a@.map_values(|x: Json| x@);
    let mut out: Vec<String> = Vec::new();
    let mut i: usize = 0;
    while i < a.len()
        invariant
            i <= a.len(),
            av == a@.map_values(|x: Json| x@),
            out@.map_values(|s: String| s@) == string_items(av.take(i as int)),
        decreases a.len() - i,
    {
        assert(av.take(i + 1).drop_last() =~= av.take(i as int));
        assert(av.take(i + 1).last() == a@[i as int]@);
        match a[i].as_str() {
            Some(s) => {
                let ghost before = out@;
                out.push(s.clone());
                assert(out@.map_values(|s: String| s@) =~= before.map_values(|s: String| s@).push(s@));
            }
            None => {}
        }
        i += 1;
    }
    assert(av.take(a.len() as int) =~= av);
    out
}

/// The question a successful tool result asks, if it is the `ask_user`
/// sentinel.
pub fn ask_user_request(content: &Json) -> (r: Option<(String, Vec<String>)>)
    ensures
        r is Some <==> spec_ask_user(content@) is Some,
        r matches Some((q, opts)) ==> spec_ask_user(content@) == Some((q@, opts@.map_values(|s: String| s@))),
{
    if !has_flag(content, "__ask_user__") {
        return None;
    }
    let question = str_member_of(content, "question");
    let options = match content.get("options") {
        Some(o) => match o.as_array() {
            Some(a) => string_items_of(a),
            None => Vec::new(),
        },
        None => Vec::new(),
    };
    assert(options@.map_values(|s: String| s@) =~= match jget(content@, "options"@) {
        Some(o) => match jarr(o) {
            Some(a) => string_items(a),
            None => Seq::<Seq<char>>::empty(),
        },
        None => Seq::<Seq<char>>::empty(),
    });
    Some((question, options))
}

/// What came back while waiting for the user.
pub enum UserReply {
    /// The user answered.
    Answer(String),
    /// The channel closed before an answer.
    Closed,
    /// No answer within the time allowed.
    TimedOut,
}

/// The text handed to the model for the user's reply to `ask_user`.
pub fn ask_user_answer(reply: UserReply) -> (r: String)
    ensures
        reply matches UserReply::Answer(t) ==> r@ == t@,
        reply is Closed ==> r@ == "User did not respond (channel closed)."@,
        reply is TimedOut ==> r@ == "User did not respond within 5 minutes."@,
{
    match reply {
        UserReply::Answer(t) => t,
        UserReply::Closed => "User did not respond (channel closed).".to_string(),
        UserReply::TimedOut => "User did not respond within 5 minutes.".to_string(),
    }
}

/// The MCP server URL an MCP OAuth sentinel names, if the result is one.
pub open spec fn spec_mcp_oauth(content: JsonV) -> Option<Seq<char>> {
    if flag_set(content, "__mcp_oauth_required__"@) {
        Some(str_member(content, "mcp_server_url"@))
    } else {
        None
    }
}

/// The MCP server URL a successful tool result names, if it is the MCP
/// OAuth sentinel.
pub fn mcp_oauth_request(content: &Json) -> (r: Option<String>)
    ensures
        r is Some <==> spec_mcp_oauth(content@) is Some,
        r matches Some(u) ==> spec_mcp_oauth(content@) == Some(u@),
{
    if has_flag(content, "__mcp_oauth_required__") {
        Some(str_member_of(content, "mcp_server_url"))
    } else {
        None
    }
}

// ── Final messages ──────────────────────────────────────────────

/// The error of a loop that ran out of turns.
pub open spec fn exceeded_turns_message(agent_name: Seq<char>, max_turns: usize) -> Seq<char> {
    "Agent '"@ + agent_name + "' exceeded maximum turns ("@ + spec_decimal(max_turns as nat) + ")"@
}

/// The error of a loop that ran out of turns.
pub fn exceeded_turns(agent_name: &str, max_turns: usize) -> (r: CasperError)
    ensures
        r matches CasperError::Internal(m) && m@ == exceeded_turns_message(agent_name@, max_turns),
{
    let a = concat3("Agent '", agent_name, "' exceeded maximum turns (");
    let b = concat3(&a, &u64_text(max_turns as u64), ")");
    CasperError::Internal(b)
}

// ── The loop ────────────────────────────────────────────────────

/// The abstract value of a recorded tool call.
pub struct ToolCallStepV {
    pub name: Seq<char>,
    pub input: JsonV,
    pub result: Seq<char>,
    pub is_error: bool,
}

/// The abstract value of a recorded tool call.
pub open spec fn tool_step_view(t: ToolCallStep) -> ToolCallStepV {
    ToolCallStepV { name: t.name@, input: t.input@, result: t.result@, is_error: t.is_error }
}

/// The abstract value of a loop iteration.
pub struct AgentStepV {
    pub thinking: Option<Seq<char>>,
    pub tool_calls: Option<Seq<ToolCallStepV>>,
}

/// The abstract value of a loop iteration.
pub open spec fn step_view(s: AgentStep) -> AgentStepV {
    AgentStepV {
        thinking: match s.thinking {
            Some(t) => Some(t@),
            None => None,
        },
        tool_calls: match s.tool_calls {
            Some(v) => Some(v@.map_values(|t: ToolCallStep| tool_step_view(t))),
            None => None,
        },
    }
}

/// The abstract values of loop iterations.
pub open spec fn steps_view(s: Seq<AgentStep>) -> Seq<AgentStepV> {
    s.map_values(|t: AgentStep| step_view(t))
}

/// What the loop does after a model response.
pub enum Decision {
    /// Run these tool calls, report each outcome, then call the model again.
    CallTools { calls: Vec<ToolCall>, thinking: Option<String> },
    /// The response is final: this is the agent's reply.
    Finish { message: String },
}

/// The state of a ReAct loop between model calls: the conversation so far,
/// the usage counted, the iterations recorded, and the turns taken of those
/// allowed (one model call per turn).
pub struct ReactLoop {
    pub messages: Vec<LlmMessage>,
    pub usage: AgentUsage,
    pub steps: Vec<AgentStep>,
    pub turn: usize,
    pub max_turns: usize,
}

/// The thinking of a response as an optional string view.
pub open spec fn opt_view(o: Option<String>) -> Option<Seq<char>> {
    match o {
        Some(t) => Some(t@),
        None => None,
    }
}

impl ReactLoop {
    /// The loop's counts agree: one model call per turn taken, and no more
    /// turns taken than allowed.
    pub open spec fn counts_ok(&self) -> bool {
        &&& self.usage.llm_calls == self.turn
        &&& self.turn <= self.max_turns
    }

    /// A loop over the stored conversation with the new user message
    /// appended, allowed `max_turns` turns.
    pub fn start(history: Vec<LlmMessage>, user_message: &str, max_turns: usize) -> (r: ReactLoop)
        ensures
            messages_view(r.messages@) == messages_view(history@).push(
                LlmMessageV { role: LlmRole::User, content: seq![ContentBlockV::Text { text: user_message@ }] }),
            r.usage == AgentUsage::default_spec(),
            r.steps@.len() == 0,
            r.turn == 0,
            r.max_turns == max_turns,
            r.counts_ok(),
    {
        let mut messages = history;
        let ghost before = messages@;
        messages.push(text_message(LlmRole::User, user_message));
        assert(messages_view(messages@) =~= messages_view(before).push(message_view(messages@.last())));
        ReactLoop { messages, usage: AgentUsage { input_tokens: 0, output_tokens: 0, cache_read_tokens: 0,
            cache_write_tokens: 0, llm_calls: 0, tool_calls: 0, duration_ms: 0 }, steps: Vec::new(),
            turn: 0, max_turns }
    }

    /// Whether the loop may take another turn (call the model again).
    pub fn has_turns_left(&self) -> (r: bool)
        ensures
            r == (self.turn < self.max_turns),
    {
        self.turn < self.max_turns
    }

    /// The error of a loop that used all its turns without a final reply.
    pub fn out_of_turns(&self, agent_name: &str) -> (r: CasperError)
        requires
            self.turn >= self.max_turns,
        ensures
            r matches CasperError::Internal(m) && m@ == exceeded_turns_message(agent_name@, self.max_turns),
    {
        exceeded_turns(agent_name, self.max_turns)
    }

    /// Count the tokens of a model response.
    pub fn record_tokens(&mut self, input_tokens: u32, output_tokens: u32)
        requires
            old(self).usage.input_tokens + (input_tokens as i32) <= i32::MAX,
            old(self).usage.input_tokens + (input_tokens as i32) >= i32::MIN,
            old(self).usage.output_tokens + (output_tokens as i32) <= i32::MAX,
            old(self).usage.output_tokens + (output_tokens as i32) >= i32::MIN,
        ensures
            final(self).usage == (AgentUsage {
                input_tokens: (old(self).usage.input_tokens + (input_tokens as i32)) as i32,
                output_tokens: (old(self).usage.output_tokens + (output_tokens as i32)) as i32,
                ..old(self).usage
            }),
            messages_view(final(self).messages@) == messages_view(old(self).messages@),
            steps_view(final(self).steps@) == steps_view(old(self).steps@),
            final(self).turn == old(self).turn,
            final(self).max_turns == old(self).max_turns,
    {
        #[verifier::truncate]
        let i = input_tokens as i32;
        #[verifier::truncate]
        let o = output_tokens as i32;
        self.usage.input_tokens = self.usage.input_tokens + i;
        self.usage.output_tokens = self.usage.output_tokens + o;
    }

    /// Take a model response: count the call; a response that stops for tool
    /// use joins the conversation and asks for its tool calls; any other is
    /// the final reply, recorded as an iteration when it has thinking.
    pub fn on_response(&mut self, response: &CompletionResponse) -> (d: Decision)
        requires
            old(self).usage.llm_calls < i32::MAX,
            old(self).turn < old(self).max_turns,
        ensures
            final(self).usage == (AgentUsage { llm_calls: (old(self).usage.llm_calls + 1) as i32, ..old(self).usage }),
            final(self).turn == old(self).turn + 1,
            final(self).max_turns == old(self).max_turns,
            old(self).counts_ok() ==> final(self).counts_ok(),
            response.stop_reason == StopReason::ToolUse ==> {
                &&& messages_view(final(self).messages@) == messages_view(old(self).messages@).push(
                    LlmMessageV { role: LlmRole::Assistant, content: blocks_view(response.content@) })
                &&& steps_view(final(self).steps@) == steps_view(old(self).steps@)
                &&& d matches Decision::CallTools { calls, thinking }
                &&& calls@.map_values(|c: ToolCall| call_view(c)) == spec_tool_uses(blocks_view(response.content@))
                &&& opt_view(thinking) == spec_extract_thinking(blocks_view(response.reasoning@))
            },
            response.stop_reason != StopReason::ToolUse ==> {
                &&& messages_view(final(self).messages@) == messages_view(old(self).messages@)
                &&& d matches Decision::Finish { message }
                &&& message@ == spec_extract_text(blocks_view(response.content@))
                &&& steps_view(final(self).steps@) == match spec_extract_thinking(blocks_view(response.reasoning@)) {
                    Some(t) => steps_view(old(self).steps@).push(AgentStepV { thinking: Some(t), tool_calls: None }),
                    None => steps_view(old(self).steps@),
                }
            },
    {
        self.usage.llm_calls = self.usage.llm_calls + 1;
        self.turn = self.turn + 1;
        let thinking = extract_thinking(response);
        if response.stop_reason == StopReason::ToolUse {
            let ghost before = self.messages@;
            self.messages.push(LlmMessage { role: LlmRole::Assistant, content: clone_blocks(&response.content) });
            assert(messages_view(self.messages@) =~= messages_view(before).push(message_view(self.messages@.last())));
            let calls = tool_uses(&response.content);
            Decision::CallTools { calls, thinking }
        } else {
            let message = extract_text(&response.content);
            match thinking {
                Some(t) => {
                    let ghost before = self.steps@;
                    self.steps.push(AgentStep { thinking: Some(t), tool_calls: None });
                    assert(steps_view(self.steps@) =~= steps_view(before).push(step_view(self.steps@.last())));
                }
                None => {}
            }
            Decision::Finish { message }
        }
    }

    /// Report a tool call's outcome: count the call, add the tool-result
    /// message to the conversation and the call to this iteration's record.
    /// Returns the text and error flag reported to the model.
    pub fn on_tool_outcome(&mut self, call: &ToolCall, outcome: &Result<ToolResult, CasperError>,
        step_calls: &mut Vec<ToolCallStep>) -> (r: (String, bool))
        requires
            old(self).usage.tool_calls < i32::MAX,
        ensures
            (r.0@, r.1) == spec_tool_report(outcome_view(*outcome)),
            final(self).usage == (AgentUsage { tool_calls: (old(self).usage.tool_calls + 1) as i32, ..old(self).usage }),
            messages_view(final(self).messages@) == messages_view(old(self).messages@).push(LlmMessageV {
                role: LlmRole::Tool,
                content: seq![ContentBlockV::ToolResult { tool_use_id: call.id@, content: r.0@, is_error: r.1 }],
            }),
            steps_view(final(self).steps@) == steps_view(old(self).steps@),
            final(self).turn == old(self).turn,
            final(self).max_turns == old(self).max_turns,
            final(step_calls)@.map_values(|t: ToolCallStep| tool_step_view(t))
                == old(step_calls)@.map_values(|t: ToolCallStep| tool_step_view(t)).push(
                    ToolCallStepV { name: call.name@, input: call.input@, result: r.0@, is_error: r.1 }),
    {
        self.usage.tool_calls = self.usage.tool_calls + 1;
        let (result_str, is_error) = tool_report(outcome);
        let ghost sc = step_calls@;
        step_calls.push(ToolCallStep { name: call.name.clone(), input: call.input.deep_clone(),
            result: result_str.clone(), is_error });
        assert(step_calls@.map_values(|t: ToolCallStep| tool_step_view(t))
            =~= sc.map_values(|t: ToolCallStep| tool_step_view(t)).push(tool_step_view(step_calls@.last())));
        let mut content: Vec<ContentBlock> = Vec::new();
        content.push(ContentBlock::ToolResult { tool_use_id: call.id.clone(), content: result_str.clone(), is_error });
        let ghost before = self.messages@;
        self.messages.push(LlmMessage { role: LlmRole::Tool, content });
        assert(blocks_view(self.messages@.last().content@)
            =~= seq![ContentBlockV::ToolResult { tool_use_id: call.id@, content: result_str@, is_error }]);
        assert(messages_view(self.messages@) =~= messages_view(before).push(message_view(self.messages@.last())));
        (result_str, is_error)
    }

    /// Close an iteration that ran tool calls: record its thinking and calls.
    pub fn end_tool_turn(&mut self, thinking: Option<String>, calls: Vec<ToolCallStep>)
        ensures
            steps_view(final(self).steps@) == steps_view(old(self).steps@).push(AgentStepV {
                thinking: opt_view(thinking),
                tool_calls: Some(calls@.map_values(|t: ToolCallStep| tool_step_view(t))),
            }),
            messages_view(final(self).messages@) == messages_view(old(self).messages@),
            final(self).usage == old(self).usage,
            final(self).turn == old(self).turn,
            final(self).max_turns == old(self).max_turns,
    {
        let ghost before = self.steps@;
        self.steps.push(AgentStep { thinking, tool_calls: Some(calls) });
        assert(steps_view(self.steps@) =~= steps_view(before).push(step_view(self.steps@.last())));
    }
}

impl AgentUsage {
    /// All counters zero.
    pub open spec fn default_spec() -> AgentUsage {
        AgentUsage { input_tokens: 0, output_tokens: 0, cache_read_tokens: 0, cache_write_tokens: 0,
            llm_calls: 0, tool_calls: 0, duration_ms: 0 }
    }
}

// ── Delegation ──────────────────────────────────────────────────

/// How a child agent's run ended.
pub enum DelegationOutcome {
    /// The child replied with this message.
    Replied(String),
    /// The child's run failed.
    Failed(CasperError),
    /// The child did not finish within the time allowed.
    TimedOut,
}

/// The refusal of a delegation beyond the depth limit.
pub open spec fn depth_exceeded_message(max_depth: u32, parent: Seq<char>, target: Seq<char>) -> Seq<char> {
    "Maximum delegation depth ("@ + spec_decimal(max_depth as nat) + ") exceeded. Cannot delegate from '"@
        + parent + "' to '"@ + target + "'."@
}

/// The error result that refuses a delegation at `depth` when it has reached
/// `max_depth`; `None` when the delegation may go ahead.
pub fn delegation_refusal(depth: u32, max_depth: u32, parent: &str, target: &str) -> (r: Option<ToolResult>)
    ensures
        depth < max_depth <==> r is None,
        r matches Some(t) ==> t.is_error && t.content@ == JsonV::Str(depth_exceeded_message(max_depth, parent@, target@)),
{
    if depth >= max_depth {
        let a = concat3("Maximum delegation depth (", &u64_text(max_depth as u64), ") exceeded. Cannot delegate from '");
        let b = concat3(&a, parent, "' to '");
        let c = concat3(&b, target, "'.");
        Some(ToolResult::error(c.as_str()))
    } else {
        None
    }
}

/// The tool result a delegation comes back as: the child's reply, or an
/// error naming the failure or the timeout.
pub fn delegation_result(target: &str, timeout_secs: u64, outcome: DelegationOutcome) -> (r: ToolResult)
    ensures
        outcome matches DelegationOutcome::Replied(m) ==> !r.is_error && r.content@ == JsonV::Str(m@),
        outcome matches DelegationOutcome::Failed(e) ==> r.is_error
            && r.content@ == JsonV::Str("Agent '"@ + target@ + "' failed: "@ + spec_error_message(e)),
        outcome is TimedOut ==> r.is_error && r.content@ == JsonV::Str("Delegation to '"@ + target@
            + "' timed out after "@ + spec_decimal(timeout_secs as nat) + "s"@),
{
    match outcome {
        DelegationOutcome::Replied(m) => ToolResult::ok(Json::Str(m)),
        DelegationOutcome::Failed(e) => {
            let a = concat3("Agent '", target, "' failed: ");
            let b = concat_str(&a, &e.message());
            ToolResult::error(b.as_str())
        }
        DelegationOutcome::TimedOut => {
            let a = concat3("Delegation to '", target, "' timed out after ");
            let b = concat3(&a, &u64_text(timeout_secs), "s");
            ToolResult::error(b.as_str())
        }
    }
}

// ── Connections the user still has to make ──────────────────────

/// The provider a failed tool call asks the user to connect: when the
/// error's text says `has not connected`, its fourth `'`-separated piece
/// (`unknown` when there is none).
pub open spec fn spec_connect_provider(error_text: Seq<char>) -> Option<Seq<char>> {
    if spec_contains(error_text, "has not connected"@) {
        let parts = split_on(error_text, '\'');
        Some(if parts.len() > 3 { parts[3] } else { "unknown"@ })
    } else {
        None
    }
}

/// The provider a failed tool call asks the user to connect, if any.
pub fn connect_required_provider(err: &CasperError) -> (r: Option<String>)
    ensures
        r is Some <==> spec_connect_provider(spec_error_message(*err)) is Some,
        r matches Some(p) ==> spec_connect_provider(spec_error_message(*err)) == Some(p@),
{
    let msg = err.message();
    if !contains_str(msg.as_str(), "has not connected") {
        return None;
    }
    let v = chars_of(msg.as_str());
    let parts = split_chars(&v, '\'');
    if parts.len() > 3 {
        Some(string_of(parts[3].as_slice()))
    } else {
        Some("unknown".to_string())
    }
}

/// The error result when the user did not connect `provider` in time.
pub fn connect_timeout_result(provider: &str) -> (r: ToolResult)
    ensures
        r.is_error,
        r.content@ == JsonV::Str("User did not connect "@ + provider@ + " within the timeout."@),
{
    let m = concat3("User did not connect ", provider, " within the timeout.");
    ToolResult::error(m.as_str())
}

/// The error result when the user did not complete MCP OAuth in time.
pub fn mcp_oauth_timeout_result() -> (r: ToolResult)
    ensures
        r.is_error,
        r.content@ == JsonV::Str("User did not complete MCP OAuth within the timeout."@),
{
    ToolResult::error("User did not complete MCP OAuth within the timeout.")
}

/// The error result when the MCP OAuth flow could not be started.
pub fn mcp_oauth_unavailable_result(mcp_url: &str) -> (r: ToolResult)
    ensures
        r.is_error,
        r.content@ == JsonV::Str("MCP server at "@ + mcp_url@ + " requires OAuth but the flow could not be started."@),
{
    let m = concat3("MCP server at ", mcp_url, " requires OAuth but the flow could not be started.");
    ToolResult::error(m.as_str())
}

/// The result handed to the model for the user's reply to `ask_user`.
pub fn ask_user_result(reply: UserReply) -> (r: ToolResult)
    ensures
        !r.is_error,
        reply matches UserReply::Answer(t) ==> r.content@ == JsonV::Str(t@),
        reply is Closed ==> r.content@ == JsonV::Str("User did not respond (channel closed)."@),
        reply is TimedOut ==> r.content@ == JsonV::Str("User did not respond within 5 minutes."@),
{
    ToolResult::ok(Json::Str(ask_user_answer(reply)))
}


// ── The sentinels the built-in tools hand the loop ──────────────

/// The `delegate` tool's sentinel is read back by the loop as the
/// delegation it asks for: the same agent and the same message.
pub proof fn lemma_delegate_sentinel_read(agent: Seq<char>, message: Seq<char>)
    ensures
        spec_delegation(delegate_sentinel(agent, message)) == Some((agent, message)),
{
    reveal_strlit("__delegate__");
    reveal_strlit("agent");
    reveal_strlit("message");
    reveal_with_fuel(crate::json::obj_lookup, 4);
    assert("__delegate__"@ != "agent"@) by { assert("__delegate__"@[0] != "agent"@[0]); }
    assert("__delegate__"@ != "message"@) by { assert("__delegate__"@[0] != "message"@[0]); }
    assert("agent"@ != "message"@) by { assert("agent"@[0] != "message"@[0]); }
    let m = delegate_sentinel(agent, message)->Object_0;
    assert(m.subrange(1, 3) =~= seq![("agent"@, JsonV::Str(agent)), ("message"@, JsonV::Str(message))]);
    assert(m.subrange(1, 3).subrange(1, 2) =~= seq![("message"@, JsonV::Str(message))]);
}

/// The `ask_user` tool's sentinel is read back by the loop as the question
/// it asks, with the string options it was given (other options dropped).
pub proof fn lemma_ask_user_sentinel_read(question: Seq<char>, options: Seq<JsonV>)
    ensures
        spec_ask_user(ask_user_sentinel(question, JsonV::Array(options))) == Some((question, string_items(options))),
{
    reveal_strlit("__ask_user__");
    reveal_strlit("question");
    reveal_strlit("options");
    reveal_with_fuel(crate::json::obj_lookup, 4);
    assert("__ask_user__"@ != "question"@) by { assert("__ask_user__"@[0] != "question"@[0]); }
    assert("__ask_user__"@ != "options"@) by { assert("__ask_user__"@[0] != "options"@[0]); }
    assert("question"@ != "options"@) by { assert("question"@[0] != "options"@[0]); }
    let m = ask_user_sentinel(question, JsonV::Array(options))->Object_0;
    assert(m.subrange(1, 3) =~= seq![("question"@, JsonV::Str(question)), ("options"@, JsonV::Array(options))]);
    assert(m.subrange(1, 3).subrange(1, 2) =~= seq![("options"@, JsonV::Array(options))]);
}

/// The MCP OAuth sentinel an MCP tool returns is read back by the loop as
/// the server to authorize.
pub proof fn lemma_mcp_oauth_sentinel_read(server_url: Seq<char>)
    ensures
        spec_mcp_oauth(JsonV::Object(seq![
            ("__mcp_oauth_required__"@, JsonV::Bool(true)),
            ("mcp_server_url"@, JsonV::Str(server_url)),
        ])) == Some(server_url),
{
    reveal_strlit("__mcp_oauth_required__");
    reveal_strlit("mcp_server_url");
    reveal_with_fuel(crate::json::obj_lookup, 3);
    assert("__mcp_oauth_required__"@ != "mcp_server_url"@) by {
        assert("__mcp_oauth_required__"@[0] != "mcp_server_url"@[0]);
    }
    let m = seq![
        ("__mcp_oauth_required__"@, JsonV::Bool(true)),
        ("mcp_server_url"@, JsonV::Str(server_url)),
    ];
    assert(m.subrange(1, 2) =~= seq![("mcp_server_url"@, JsonV::Str(server_url))]);
}


// ── Streaming a run ─────────────────────────────────────────────

/// A single streaming event sent from the agent engine to the client.
pub enum StreamEvent {
    /// Extended thinking / reasoning tokens.
    Thinking { delta: String },
    /// Content token(s) from the model.
    ContentDelta { delta: String },
    /// The model is requesting a tool call.
    ToolCallStart { id: String, name: String, input: Json },
    /// Result of executing a tool.
    ToolResult { id: String, name: String, content: String, is_error: bool },
    /// Stream finished: the conversation and the final usage.
    Done { conversation_id: String, input_tokens: i32, output_tokens: i32, cache_read_tokens: Option<i32>, cache_write_tokens: Option<i32> },
    /// An MCP tool requires a user OAuth connection that does not exist yet.
    ConnectRequired { provider: String, display_name: String },
    /// An MCP server requires OAuth 2.1 authorization.
    McpOAuthRequired { mcp_server_url: String, authorization_url: String },
    /// The agent is asking the user a question.
    AskUser { question_id: String, question: String, options: Vec<String> },
    /// Unrecoverable error.
    Error { message: String },
}

/// The blocks of a streamed model response gathered so far: the content
/// blocks and the reasoning blocks, each in the order they came.
pub struct StreamedTurn {
    pub content: Vec<ContentBlock>,
    pub reasoning: Vec<ContentBlock>,
}

impl StreamedTurn {
    /// Nothing streamed yet.
    pub fn new() -> (r: StreamedTurn)
        ensures
            r.content@.len() == 0,
            r.reasoning@.len() == 0,
    {
        StreamedTurn { content: Vec::new(), reasoning: Vec::new() }
    }

    /// Take a streamed block: text is forwarded as a content delta and a
    /// tool use as the start of a tool call, both kept as content; thinking
    /// is forwarded and kept as reasoning; any other block is kept as content
    /// and not forwarded.
    pub fn on_block(&mut self, block: ContentBlock) -> (r: Option<StreamEvent>)
        ensures
            (match block {
                ContentBlock::Thinking { .. } => blocks_view(final(self).reasoning@) == blocks_view(old(self).reasoning@).push(block@)
                    && blocks_view(final(self).content@) == blocks_view(old(self).content@),
                _ => blocks_view(final(self).content@) == blocks_view(old(self).content@).push(block@)
                    && blocks_view(final(self).reasoning@) == blocks_view(old(self).reasoning@),
            }),
            (match block {
                ContentBlock::Text { text } => r matches Some(StreamEvent::ContentDelta { delta }) && delta@ == text@,
                ContentBlock::Thinking { text } => r matches Some(StreamEvent::Thinking { delta }) && delta@ == text@,
                ContentBlock::ToolUse { id, name, input } => r matches Some(StreamEvent::ToolCallStart { id: i, name: n, input: x })
                    && i@ == id@ && n@ == name@ && x@ == input@,
                ContentBlock::ToolResult { .. } => r is None,
            }),
    {
        let ghost bv = block@;
        let ghost c0 = blocks_view(self.content@);
        let ghost r0 = blocks_view(self.reasoning@);
        let ev = match &block {
            ContentBlock::Text { text } => Some(StreamEvent::ContentDelta { delta: text.clone() }),
            ContentBlock::Thinking { text } => Some(StreamEvent::Thinking { delta: text.clone() }),
            ContentBlock::ToolUse { id, name, input } =>
                Some(StreamEvent::ToolCallStart { id: id.clone(), name: name.clone(), input: input.deep_clone() }),
            ContentBlock::ToolResult { .. } => None,
        };
        match block {
            ContentBlock::Thinking { .. } => {
                self.reasoning.push(block);
                assert(blocks_view(self.reasoning@) =~= r0.push(bv));
            },
            _ => {
                self.content.push(block);
                assert(blocks_view(self.content@) =~= c0.push(bv));
            },
        }
        ev
    }
}

/// The event that reports a tool call's result to the client.
pub fn tool_result_event(call: &ToolCall, content: &str, is_error: bool) -> (r: StreamEvent)
    ensures
        r matches StreamEvent::ToolResult { id, name, content: c, is_error: e }
            && id@ == call.id@ && name@ == call.name@ && c@ == content@ && e == is_error,
{
    StreamEvent::ToolResult { id: call.id.clone(), name: call.name.clone(), content: content.to_string(), is_error }
}

/// The event that ends a successful stream: the conversation and the run's
/// token usage, cache counts included.
pub fn done_event(conversation_id: &str, usage: &AgentUsage) -> (r: StreamEvent)
    ensures
        r matches StreamEvent::Done { conversation_id: c, input_tokens, output_tokens, cache_read_tokens, cache_write_tokens }
            && c@ == conversation_id@ && input_tokens == usage.input_tokens && output_tokens == usage.output_tokens
            && cache_read_tokens == Some(usage.cache_read_tokens) && cache_write_tokens == Some(usage.cache_write_tokens),
{
    StreamEvent::Done {
        conversation_id: conversation_id.to_string(),
        input_tokens: usage.input_tokens,
        output_tokens: usage.output_tokens,
        cache_read_tokens: Some(usage.cache_read_tokens),
        cache_write_tokens: Some(usage.cache_write_tokens),
    }
}

/// The event that ends a stream that ran out of turns.
pub fn out_of_turns_event(agent_name: &str, max_turns: usize) -> (r: StreamEvent)
    ensures
        r matches StreamEvent::Error { message } && message@ == exceeded_turns_message(agent_name@, max_turns),
{
    match exceeded_turns(agent_name, max_turns) {
        CasperError::Internal(m) => StreamEvent::Error { message: m },
        _ => StreamEvent::Error { message: String::new() },
    }
}

/// Whether `depths` is a chain of delegations: the i-th delegation is made
/// at depth i, and `delegation_refusal` lets it go ahead, which it does only
/// below the depth limit.
pub open spec fn delegation_chain(depths: Seq<u32>, max_depth: u32) -> bool {
    forall|i: int| 0 <= i < depths.len() ==> (#[trigger] depths[i]) == i && depths[i] < max_depth
}

/// Delegation stops at the depth limit: a chain of delegations that each
/// went ahead is at most `max_depth` long.
pub proof fn lemma_delegation_depth_bounded(depths: Seq<u32>, max_depth: u32)
    requires
        delegation_chain(depths, max_depth),
    ensures
        depths.len() <= max_depth,
{
    if depths.len() > max_depth {
        assert(depths[max_depth as int] == max_depth);
    }
}

/// A run calls the model at most as often as its turns allow: whatever
/// sequence of responses, tool outcomes and token counts drove a loop from
/// `start`, its model calls equal its turns, which are at most the agent's
/// effective `max_turns`, itself at most 25.
pub proof fn lemma_run_calls_bounded(lp: ReactLoop, configured: i32)
    requires
        lp.counts_ok(),
        lp.max_turns == spec_max_turns(configured),
    ensures
        lp.usage.llm_calls == lp.turn,
        lp.usage.llm_calls <= 25,
        0 <= configured ==> lp.usage.llm_calls <= configured,
{
}
} // verus!
