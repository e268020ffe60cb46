//! The OpenAI-compatible inference endpoint: requests read into LLM
//! messages and tool definitions, completions written back as OpenAI chat
//! completion responses, the fallback from deployment to deployment, and the
//! models a caller may see. The model calls and database reads are made by
//! the caller.

use vstd::prelude::*;
use crate::error::{CasperError, spec_is_non_retryable};
use crate::json::{Json, JsonV, jget, jget_arr, jget_str, jobj1, jstring};
use crate::llm::{
    ContentBlock, ContentBlockV, CompletionResponse, LlmMessage, LlmRole, StopReason, blocks_view, empty_object,
    extract_text, legacy_arguments, spec_extract_text, spec_thinking_text, str_or,
};
use crate::anthropic::{at, openai_tool_call, openai_tool_call_of};
use crate::react::{LlmMessageV, message_view, messages_view, spec_tool_uses, tool_uses};
use crate::scope::{Scope, ScopeV, has_scope, spec_has_scope, spec_parse_scope};
use crate::codec::parse_json;
use crate::text::{concat3, str_eq};

verus! {

/// The most deployments a request falls back through after the first.
pub const MAX_FALLBACK_DEPTH: usize = 3;

/// Token usage of a chat completion.
#[derive(PartialEq, Eq, Structural, Clone, Copy, Debug)]
pub struct Usage {
    pub prompt_tokens: i32,
    pub completion_tokens: i32,
    pub total_tokens: i32,
}

/// The message of a completion choice.
pub struct ChoiceMessage {
    pub role: String,
    pub content: Option<String>,
    pub tool_calls: Option<Vec<Json>>,
    pub thinking: Option<String>,
}

/// A completion choice.
pub struct Choice {
    pub index: i32,
    pub message: ChoiceMessage,
    pub finish_reason: Option<String>,
}

/// An OpenAI-compatible chat completion response.
pub struct ChatCompletionResponse {
    pub id: String,
    pub object: String,
    pub model: String,
    pub choices: Vec<Choice>,
    pub usage: Usage,
}

/// A model a caller may use.
pub struct ModelEntry {
    pub id: String,
    pub object: String,
    pub owned_by: String,
}

/// The models list response.
pub struct ModelsListResponse {
    pub object: String,
    pub data: Vec<ModelEntry>,
}

/// A tool the model may call.
pub struct ToolDefinition {
    pub name: String,
    pub description: String,
    pub input_schema: Json,
}

// ── Requests ────────────────────────────────────────────────────

/// The LLM role of an OpenAI role name; unknown names are the user's.
pub open spec fn spec_openai_role(r: Seq<char>) -> LlmRole {
    if r == "system"@ {
        LlmRole::System
    } else if r == "assistant"@ {
        LlmRole::Assistant
    } else if r == "tool"@ {
        LlmRole::Tool
    } else {
        LlmRole::User
    }
}

/// A tool-use block of an OpenAI tool call: its id, the function's name and
/// the arguments text parsed (`{}` when absent or not JSON).
pub open spec fn openai_call_block(tc: JsonV) -> ContentBlockV {
    ContentBlockV::ToolUse {
        id: str_or(jget_str(tc, "id"@), Seq::empty()),
        name: str_or(jget_str(at(tc, "function"@), "name"@), Seq::empty()),
        input: legacy_arguments(at(tc, "function"@)),
    }
}

/// The content blocks of an OpenAI message: a tool message is a tool result;
/// an assistant message is its text (if non-empty) and tool calls, when it
/// has any; anything else is its text (empty when not a string).
pub open spec fn spec_openai_content(role: Seq<char>, m: JsonV) -> Seq<ContentBlockV> {
    let text = str_or(jget_str(m, "content"@), Seq::empty());
    if role == "tool"@ {
        seq![ContentBlockV::ToolResult {
            tool_use_id: str_or(jget_str(m, "tool_call_id"@), Seq::empty()),
            content: text,
            is_error: false,
        }]
    } else {
        let blocks = if role == "assistant"@ {
            (if text.len() > 0 { seq![ContentBlockV::Text { text }] } else { Seq::empty() })
                + match jget_arr(m, "tool_calls"@) {
                    Some(a) => a.map_values(|tc: JsonV| openai_call_block(tc)),
                    None => Seq::empty(),
                }
        } else {
            Seq::empty()
        };
        if blocks.len() > 0 { blocks } else { seq![ContentBlockV::Text { text }] }
    }
}

/// `j[key]` as a string, or empty.
fn str_member(j: &Json, key: &str) -> (r: String)
    ensures
        r@ == str_or(jget_str(j@, key@), Seq::empty()),
{
    match j.get(key) {
        Some(v) => match v.as_str() {
            Some(s) => s.clone(),
            None => String::new(),
        },
        None => String::new(),
    }
}

/// An empty JSON object.
fn empty_obj() -> (r: Json)
    ensures
        r@ == empty_object(),
{
    let r = crate::json::jobject(Vec::new());
    assert(r@->Object_0 =~= Seq::<(Seq<char>, JsonV)>::empty());
    r
}

/// The tool-use block of an OpenAI tool call.
fn openai_call_block_of(tc: &Json) -> (r: ContentBlock)
    ensures
        r@ == openai_call_block(tc@),
{
    let id = str_member(tc, "id");
    let null = Json::Null;
    let func = match tc.get("function") {
        Some(f) => f,
        None => &null,
    };
    let name = str_member(func, "name");
    let input = match func.get("arguments") {
        Some(a) => match a.as_str() {
            Some(text) => match parse_json(text.as_str()) {
                Some(x) => x,
                None => empty_obj(),
            },
            None => empty_obj(),
        },
        None => empty_obj(),
    };
    ContentBlock::ToolUse { id, name, input }
}

/// Parse an OpenAI message's content into content blocks.
pub fn parse_openai_message_content(role: &str, m: &Json) -> (r: Vec<ContentBlock>)
    ensures
        blocks_view(r@) == spec_openai_content(role@, m@),
{
    let text = str_member(m, "content");
    if str_eq(role, "tool") {
        let mut v: Vec<ContentBlock> = Vec::new();
        v.push(ContentBlock::ToolResult { tool_use_id: str_member(m, "tool_call_id"), content: text, is_error: false });
        assert(blocks_view(v@) =~= spec_openai_content(role@, m@));
        return v;
    }
    let mut blocks: Vec<ContentBlock> = Vec::new();
    if str_eq(role, "assistant") {
        if !text.as_str().is_empty() {
            blocks.push(ContentBlock::Text { text: text.clone() });
        }
        let ghost head = blocks_view(blocks@);
        let ghost tcs: Seq<JsonV> = match jget_arr(m@, "tool_calls"@) { Some(a) => a, None => Seq::empty() };
        match m.get("tool_calls") {
            Some(tv) => match tv.as_array() {
                Some(a) => {
                    let mut i: usize = 0;
                    while i < a.len()
                        invariant
                            i <= a.len(),
                            tcs == a@.map_values(|x: Json| x@),
                            blocks_view(blocks@) == head + tcs.take(i as int).map_values(|tc: JsonV| openai_call_block(tc)),
                        decreases a.len() - i,
                    {
                        let b = openai_call_block_of(&a[i]);
                        let ghost before = blocks@;
                        blocks.push(b);
                        assert(tcs.take(i + 1).map_values(|tc: JsonV| openai_call_block(tc))
                            =~= tcs.take(i as int).map_values(|tc: JsonV| openai_call_block(tc)).push(openai_call_block(tcs[i as int])));
                        assert(blocks_view(blocks@) =~= blocks_view(before).push(b@));
                        i += 1;
                    }
                    assert(tcs.take(a.len() as int) =~= tcs);
                }
                None => {
                    assert(tcs.map_values(|tc: JsonV| openai_call_block(tc)) =~= Seq::<ContentBlockV>::empty());
                    assert(blocks_view(blocks@) =~= head + tcs.map_values(|tc: JsonV| openai_call_block(tc)));
                }
            },
            None => {
                assert(tcs.map_values(|tc: JsonV| openai_call_block(tc)) =~= Seq::<ContentBlockV>::empty());
                assert(blocks_view(blocks@) =~= head + tcs.map_values(|tc: JsonV| openai_call_block(tc)));
            }
        }
        if blocks.len() > 0 {
            return blocks;
        }
    } else {
        assert(blocks_view(blocks@) =~= Seq::<ContentBlockV>::empty());
    }
    let mut v: Vec<ContentBlock> = Vec::new();
    v.push(ContentBlock::Text { text });
    assert(blocks_view(v@) =~= seq![ContentBlockV::Text { text: str_or(jget_str(m@, "content"@), Seq::empty()) }]);
    v
}

/// The role name of an OpenAI message (`user` when absent).
pub open spec fn message_role_name(m: JsonV) -> Seq<char> {
    str_or(jget_str(m, "role"@), "user"@)
}

/// The LLM messages of an OpenAI request.
pub open spec fn spec_request_messages(ms: Seq<JsonV>) -> Seq<LlmMessageV> {
    ms.map_values(|m: JsonV| LlmMessageV {
        role: spec_openai_role(message_role_name(m)),
        content: spec_openai_content(message_role_name(m), m),
    })
}

/// The LLM messages of an OpenAI request.
pub fn request_messages(messages: &Vec<Json>) -> (r: Vec<LlmMessage>)
    ensures
        messages_view(r@) == spec_request_messages(messages@.map_values(|x: Json| x@)),
{
    let mut out: Vec<LlmMessage> = Vec::new();
    let mut i: usize = 0;
    while i < messages.len()
        invariant
            i <= messages.len(),
            out.len() == i,
            forall|k: int| 0 <= k < i ==> message_view(#[trigger] out@[k]) == (LlmMessageV {
                role: spec_openai_role(message_role_name(messages@[k]@)),
                content: spec_openai_content(message_role_name(messages@[k]@), messages@[k]@),
            }),
        decreases messages.len() - i,
    {
        let m = &messages[i];
        let role_name = match m.get("role") {
            Some(v) => match v.as_str() {
                Some(s) => s.clone(),
                None => "user".to_string(),
            },
            None => "user".to_string(),
        };
        let rn = role_name.as_str();
        let role = if str_eq(rn, "system") {
            LlmRole::System
        } else if str_eq(rn, "assistant") {
            LlmRole::Assistant
        } else if str_eq(rn, "tool") {
            LlmRole::Tool
        } else {
            LlmRole::User
        };
        let content = parse_openai_message_content(rn, m);
        out.push(LlmMessage { role, content });
        i += 1;
    }
    assert(messages_view(out@) =~= spec_request_messages(messages@.map_values(|x: Json| x@)));
    out
}

/// The tool definition of an OpenAI tool, when it has a function with a
/// string name: the description (empty unless a string) and the parameters
/// (`{"type": "object"}` when absent).
pub open spec fn spec_tool_definition(t: JsonV) -> Option<(Seq<char>, Seq<char>, JsonV)> {
    match jget(t, "function"@) {
        Some(func) => match jget_str(func, "name"@) {
            Some(name) => Some((
                name,
                str_or(jget_str(func, "description"@), Seq::empty()),
                match jget(func, "parameters"@) {
                    Some(p) => p,
                    None => JsonV::Object(seq![("type"@, JsonV::Str("object"@))]),
                },
            )),
            None => None,
        },
        None => None,
    }
}

/// The tool definitions of OpenAI tools, in order, leaving out the ones
/// without a named function.
pub open spec fn spec_tool_definitions(ts: Seq<JsonV>) -> Seq<(Seq<char>, Seq<char>, JsonV)>
    decreases ts.len(),
{
    if ts.len() == 0 {
        Seq::empty()
    } else {
        spec_tool_definitions(ts.drop_last()) + match spec_tool_definition(ts.last()) {
            Some(d) => seq![d],
            None => Seq::empty(),
        }
    }
}

/// The abstract value of a tool definition.
pub open spec fn tool_def_view(d: ToolDefinition) -> (Seq<char>, Seq<char>, JsonV) {
    (d.name@, d.description@, d.input_schema@)
}

/// The tool definitions of an OpenAI request's tools.
pub fn tool_definitions(tools: &Option<Vec<Json>>) -> (r: Vec<ToolDefinition>)
    ensures
        r@.map_values(|d: ToolDefinition| tool_def_view(d)) == (match tools {
            Some(ts) => spec_tool_definitions(ts@.map_values(|x: Json| x@)),
            None => Seq::empty(),
        }),
{
    let mut out: Vec<ToolDefinition> = Vec::new();
    match tools {
        None => {
            assert(out@.map_values(|d: ToolDefinition| tool_def_view(d)) =~= Seq::<(Seq<char>, Seq<char>, JsonV)>::empty());
            out
        }
        Some(ts) => {
            let ghost tv = ts@.map_values(|x: Json| x@);
            let mut i: usize = 0;
            while i < ts.len()
                invariant
                    i <= ts.len(),
                    tv == ts@.map_values(|x: Json| x@),
                    out@.map_values(|d: ToolDefinition| tool_def_view(d)) == spec_tool_definitions(tv.take(i as int)),
                decreases ts.len() - i,
            {
                assert(tv.take(i + 1).drop_last() =~= tv.take(i as int));
                assert(tv.take(i + 1).last() == ts@[i as int]@);
                match ts[i].get("function") {
                    Some(func) => match func.get("name") {
                        Some(n) => match n.as_str() {
                            Some(name) => {
                                let description = str_member(func, "description");
                                let input_schema = match func.get("parameters") {
                                    Some(p) => p.deep_clone(),
                                    None => jobj1("type", jstring("object")),
                                };
                                let ghost before = out@;
                                out.push(ToolDefinition { name: name.clone(), description, input_schema });
                                assert(out@.map_values(|d: ToolDefinition| tool_def_view(d))
                                    =~= before.map_values(|d: ToolDefinition| tool_def_view(d)).push(tool_def_view(out@.last())));
                            }
                            None => {}
                        },
                        None => {}
                    },
                    None => {}
                }
                i += 1;
            }
            assert(tv.take(ts.len() as int) =~= tv);
            out
        }
    }
}

/// The error of a streaming request, which this endpoint does not serve.
pub fn check_not_streaming(stream: bool) -> (r: Result<(), CasperError>)
    ensures
        !stream <==> r is Ok,
        stream ==> (r matches Err(CasperError::BadRequest(m)) && m@ == "streaming not yet supported; set stream=false"@),
{
    if stream {
        Err(CasperError::BadRequest("streaming not yet supported; set stream=false".to_string()))
    } else {
        Ok(())
    }
}

// ── Responses ───────────────────────────────────────────────────

/// The OpenAI finish reason of a stop reason.
pub open spec fn spec_openai_finish(s: StopReason) -> Seq<char> {
    match s {
        StopReason::EndTurn => "stop"@,
        StopReason::ToolUse => "tool_calls"@,
        StopReason::MaxTokens => "length"@,
        StopReason::StopSequence => "stop"@,
    }
}

/// Each stop reason is reported under its own OpenAI finish reason: a
/// completion that stopped to call tools is reported as `tool_calls`, one
/// cut off at the token limit as `length`, and only a finished turn or a
/// stop sequence as `stop`.
pub proof fn lemma_openai_finish_law(s: StopReason)
    ensures
        spec_openai_finish(s) == "tool_calls"@ <==> s is ToolUse,
        spec_openai_finish(s) == "length"@ <==> s is MaxTokens,
        spec_openai_finish(s) == "stop"@ <==> (s is EndTurn || s is StopSequence),
{
    reveal_strlit("tool_calls");
    reveal_strlit("length");
    reveal_strlit("stop");
    assert("tool_calls"@[0] != "stop"@[0]);
    assert("tool_calls"@.len() != "length"@.len());
    assert("stop"@.len() != "length"@.len());
}

/// The OpenAI tool calls of content blocks.
pub open spec fn openai_calls(s: Seq<ContentBlockV>) -> Seq<JsonV> {
    spec_tool_uses(s).map_values(|t: (Seq<char>, Seq<char>, JsonV)| openai_tool_call(t.0, t.1, t.2))
}

/// Write a completion as an OpenAI chat completion response for the
/// requested model: one choice holding the text (none when empty), the tool
/// calls (none when there are none) and the thinking (none when empty); the
/// finish reason in OpenAI's terms; and the usage with its total.
pub fn completion_response(id: String, model: String, response: &CompletionResponse) -> (r: ChatCompletionResponse)
    requires
        (response.usage.input_tokens as i32) + (response.usage.output_tokens as i32) <= i32::MAX,
        (response.usage.input_tokens as i32) + (response.usage.output_tokens as i32) >= i32::MIN,
    ensures
        r.id@ == id@,
        r.object@ == "chat.completion"@,
        r.model@ == model@,
        r.choices@.len() == 1,
        r.choices@[0].index == 0,
        r.choices@[0].message.role@ == "assistant"@,
        ({
            let text = spec_extract_text(blocks_view(response.content@));
            match r.choices@[0].message.content {
                Some(c) => text.len() > 0 && c@ == text,
                None => text.len() == 0,
            }
        }),
        ({
            let calls = openai_calls(blocks_view(response.content@));
            match r.choices@[0].message.tool_calls {
                Some(tc) => calls.len() > 0 && tc@.map_values(|x: Json| x@) == calls,
                None => calls.len() == 0,
            }
        }),
        ({
            let t = spec_thinking_text(blocks_view(response.reasoning@));
            match r.choices@[0].message.thinking {
                Some(x) => t.len() > 0 && x@ == t,
                None => t.len() == 0,
            }
        }),
        r.choices@[0].finish_reason matches Some(f) && f@ == spec_openai_finish(response.stop_reason),
        r.usage.prompt_tokens == response.usage.input_tokens as i32,
        r.usage.completion_tokens == response.usage.output_tokens as i32,
        r.usage.total_tokens == (response.usage.input_tokens as i32) + (response.usage.output_tokens as i32),
{
    let text = extract_text(&response.content);
    let uses = tool_uses(&response.content);
    let mut calls: Vec<Json> = Vec::new();
    let ghost uv = spec_tool_uses(blocks_view(response.content@));
    let mut i: usize = 0;
    while i < uses.len()
        invariant
            i <= uses.len(),
            uses@.map_values(|c: crate::react::ToolCall| crate::react::call_view(c)) == uv,
            calls.len() == i,
            forall|k: int| 0 <= k < i ==> (#[trigger] calls@[k])@ == openai_tool_call(uv[k].0, uv[k].1, uv[k].2),
        decreases uses.len() - i,
    {
        assert(crate::react::call_view(uses@[i as int]) == uv[i as int]);
        calls.push(openai_tool_call_of(uses[i].id.as_str(), uses[i].name.as_str(), &uses[i].input));
        i += 1;
    }
    assert(calls@.map_values(|x: Json| x@) =~= openai_calls(blocks_view(response.content@)));
    let thinking_text = crate::llm::thinking_text(&response.reasoning);
    let finish = match response.stop_reason {
        StopReason::EndTurn => "stop",
        StopReason::ToolUse => "tool_calls",
        StopReason::MaxTokens => "length",
        StopReason::StopSequence => "stop",
    };
    #[verifier::truncate]
    let input_tokens = response.usage.input_tokens as i32;
    #[verifier::truncate]
    let output_tokens = response.usage.output_tokens as i32;
    let message = ChoiceMessage {
        role: "assistant".to_string(),
        content: if text.as_str().is_empty() { None } else { Some(text) },
        tool_calls: if calls.len() == 0 { None } else { Some(calls) },
        thinking: if thinking_text.as_str().is_empty() { None } else { Some(thinking_text) },
    };
    let mut choices: Vec<Choice> = Vec::new();
    choices.push(Choice { index: 0, message, finish_reason: Some(finish.to_string()) });
    ChatCompletionResponse {
        id,
        object: "chat.completion".to_string(),
        model,
        choices,
        usage: Usage {
            prompt_tokens: input_tokens,
            completion_tokens: output_tokens,
            total_tokens: input_tokens + output_tokens,
        },
    }
}

/// What to do after a deployment failed at fallback depth `depth`: an error
/// that retrying cannot help is the answer; otherwise fall back to the next
/// deployment while there is one and the depth allows.
pub enum FallbackStep {
    /// Answer with this error.
    Fail(CasperError),
    /// Try the deployment with this slug next.
    TryNext(String),
}

/// What to do after a deployment failed: stop on an error retrying cannot
/// help, or when there is no fallback deployment or the fallback depth is
/// spent (the error is then the answer); else try the fallback.
pub fn after_failure(depth: usize, e: CasperError, fallback_slug: Option<String>) -> (r: FallbackStep)
    ensures
        spec_is_non_retryable(e) ==> r == FallbackStep::Fail(e),
        !spec_is_non_retryable(e) && (fallback_slug is None || depth >= MAX_FALLBACK_DEPTH) ==> r == FallbackStep::Fail(e),
        !spec_is_non_retryable(e) && depth < MAX_FALLBACK_DEPTH && fallback_slug is Some
            ==> (r matches FallbackStep::TryNext(n) && n@ == fallback_slug->0@),
{
    if crate::error::is_non_retryable(&e) {
        return FallbackStep::Fail(e);
    }
    match fallback_slug {
        Some(s) => if depth < MAX_FALLBACK_DEPTH { FallbackStep::TryNext(s) } else { FallbackStep::Fail(e) },
        None => FallbackStep::Fail(e),
    }
}

// ── Models ──────────────────────────────────────────────────────

/// Whether a caller with these scopes may see a deployment: with
/// `inference:call` every one; otherwise one whose
/// `inference:<slug>:call` parses and is granted.
pub open spec fn spec_model_visible(scopes: Seq<ScopeV>, slug: Seq<char>) -> bool {
    spec_has_scope(scopes, spec_parse_scope("inference:call"@)->0)
        || (spec_parse_scope("inference:"@ + slug + ":call"@) is Some
            && spec_has_scope(scopes, spec_parse_scope("inference:"@ + slug + ":call"@)->0))
}

/// The deployments a caller may see, in order, as model entries.
pub open spec fn spec_visible_models(scopes: Seq<ScopeV>, rows: Seq<(Seq<char>, Seq<char>)>) -> Seq<(Seq<char>, Seq<char>)>
    decreases rows.len(),
{
    if rows.len() == 0 {
        Seq::empty()
    } else {
        spec_visible_models(scopes, rows.drop_last()) + if spec_model_visible(scopes, rows.last().0) {
            seq![rows.last()]
        } else {
            Seq::empty()
        }
    }
}

/// `inference:call` is a scope without identifier.
proof fn lemma_broad_scope_parses()
    ensures
        spec_parse_scope("inference:call"@) is Some,
{
    reveal_strlit("inference:call");
    reveal_strlit("inference");
    reveal_strlit("call");
    let x = "inference"@;
    let y = "call"@;
    assert(x.push(':') + y =~= "inference:call"@);
    assert(!x.contains(':')) by {
        assert forall|i: int| 0 <= i < x.len() implies x[i] != ':' by {
            assert(x[i] == seq!['i', 'n', 'f', 'e', 'r', 'e', 'n', 'c', 'e'][i]);
        }
    }
    assert(!y.contains(':')) by {
        assert forall|i: int| 0 <= i < y.len() implies y[i] != ':' by {
            assert(y[i] == seq!['c', 'a', 'l', 'l'][i]);
        }
    }
    crate::text::lemma_split_on_no_sep(x, ':');
    crate::text::lemma_split_on_append(x, ':', y);
}

/// Whether a caller with these scopes may see a deployment.
fn model_visible(scopes: &Vec<Scope>, broad: bool, slug: &str) -> (r: bool)
    requires
        spec_parse_scope("inference:call"@) is Some,
        broad == spec_has_scope(scopes@.map_values(|s: Scope| s@), spec_parse_scope("inference:call"@)->0),
    ensures
        r == spec_model_visible(scopes@.map_values(|s: Scope| s@), slug@),
{
    if broad {
        return true;
    }
    let text = concat3("inference:", slug, ":call");
    match Scope::parse(text.as_str()) {
        Ok(sc) => has_scope(scopes.as_slice(), &sc),
        Err(_) => false,
    }
}

/// The models list for a caller: the tenant's active deployments (slug and
/// provider, in order) that the caller's scopes let it see.
pub fn visible_models(scopes: &Vec<Scope>, rows: &Vec<(String, String)>) -> (r: ModelsListResponse)
    ensures
        r.object@ == "list"@,
        r.data@.map_values(|e: ModelEntry| (e.id@, e.owned_by@))
            == spec_visible_models(scopes@.map_values(|s: Scope| s@), rows@.map_values(|e: (String, String)| (e.0@, e.1@))),
        forall|k: int| 0 <= k < r.data@.len() ==> (#[trigger] r.data@[k]).object@ == "model"@,
{
    let ghost sv = scopes@.map_values(|s: Scope| s@);
    let ghost rv = rows@.map_values(|e: (String, String)| (e.0@, e.1@));
    let broad_scope = Scope::parse("inference:call");
    proof { lemma_broad_scope_parses(); }
    let broad = match &broad_scope {
        Ok(b) => has_scope(scopes.as_slice(), b),
        Err(_) => false,
    };
    let mut data: Vec<ModelEntry> = Vec::new();
    let mut i: usize = 0;
    while i < rows.len()
        invariant
            i <= rows.len(),
            sv == scopes@.map_values(|s: Scope| s@),
            rv == rows@.map_values(|e: (String, String)| (e.0@, e.1@)),
            spec_parse_scope("inference:call"@) is Some,
            broad == spec_has_scope(sv, spec_parse_scope("inference:call"@)->0),
            data@.map_values(|e: ModelEntry| (e.id@, e.owned_by@)) == spec_visible_models(sv, rv.take(i as int)),
            forall|k: int| 0 <= k < data@.len() ==> (#[trigger] data@[k]).object@ == "model"@,
        decreases rows.len() - i,
    {
        assert(rv.take(i + 1).drop_last() =~= rv.take(i as int));
        assert(rv.take(i + 1).last() == (rows@[i as int].0@, rows@[i as int].1@));
        if model_visible(scopes, broad, rows[i].0.as_str()) {
            let ghost before = data@;
            data.push(ModelEntry { id: rows[i].0.clone(), object: "model".to_string(), owned_by: rows[i].1.clone() });
            assert(data@.map_values(|e: ModelEntry| (e.id@, e.owned_by@))
                =~= before.map_values(|e: ModelEntry| (e.id@, e.owned_by@)).push((rows@[i as int].0@, rows@[i as int].1@)));
        }
        i += 1;
    }
    assert(rv.take(rows.len() as int) =~= rv);
    ModelsListResponse { object: "list".to_string(), data }
}


/// Whether `steps` is a run of fallbacks: the i-th deployment, tried at
/// depth i, failed and `after_failure` sent the request on to the next,
/// which it does only below the depth limit.
pub open spec fn fallback_run(steps: Seq<usize>) -> bool {
    forall|i: int| 0 <= i < steps.len() ==> (#[trigger] steps[i]) == i && steps[i] < MAX_FALLBACK_DEPTH
}

/// A request reaches at most `MAX_FALLBACK_DEPTH + 1` deployments: the
/// first, and one more for each fallback taken below the depth limit.
pub proof fn lemma_fallback_bounded(steps: Seq<usize>)
    requires
        fallback_run(steps),
    ensures
        steps.len() + 1 <= MAX_FALLBACK_DEPTH + 1,
{
    if steps.len() > MAX_FALLBACK_DEPTH {
        assert(steps[MAX_FALLBACK_DEPTH as int] == MAX_FALLBACK_DEPTH);
    }
}
} // verus!
