//! The Anthropic Messages API adapter: converts the platform's
//! OpenAI-shaped requests to Anthropic's format, and Anthropic's responses,
//! errors and server-sent event streams back. The HTTP exchange itself is
//! made by the caller.

use vstd::prelude::*;
use crate::codec::{json_text, parse_json, serde_form, spec_json_parse, spec_json_text};
use crate::error::CasperError;
use crate::json::{
    Json, JsonV, jget, jget_arr, jget_i64, jget_str, jobj1, jobj2, jobj3, jobj4, jarray, jstring,
    lemma_view_object, obj_lookup,
};
use crate::llm::{empty_object, legacy_arguments, str_or};
use crate::knowledge::{trim, trim_chars};
use crate::text::{chars_of, concat_str, concat3, has_prefix, join_with, push_chars, spec_decimal, split_chars, split_on, str_eq, string_of, strip_prefix_chars, u64_text};

verus! {

/// The author of an OpenAI-shaped message.
#[derive(PartialEq, Eq, Structural, Clone, Copy, Debug)]
pub enum MessageRole {
    System,
    User,
    Assistant,
    Tool,
}

/// The name a role is written with.
pub open spec fn role_name(r: MessageRole) -> Seq<char> {
    match r {
        MessageRole::System => "system"@,
        MessageRole::User => "user"@,
        MessageRole::Assistant => "assistant"@,
        MessageRole::Tool => "tool"@,
    }
}

/// The name a role is written with.
pub fn role_text(r: MessageRole) -> (s: &'static str)
    ensures
        s@ == role_name(r),
{
    match r {
        MessageRole::System => "system",
        MessageRole::User => "user",
        MessageRole::Assistant => "assistant",
        MessageRole::Tool => "tool",
    }
}

/// An OpenAI-shaped message: its role and JSON content.
pub struct Message {
    pub role: MessageRole,
    pub content: Json,
}

/// The abstract value of a message.
pub struct MessageV {
    pub role: MessageRole,
    pub content: JsonV,
}

/// The abstract values of messages.
pub open spec fn messages_v(s: Seq<Message>) -> Seq<MessageV> {
    s.map_values(|m: Message| MessageV { role: m.role, content: m.content@ })
}

/// A normalized response of a model.
pub struct LlmResponse {
    pub content: String,
    pub role: MessageRole,
    pub model: String,
    pub input_tokens: i32,
    pub output_tokens: i32,
    pub cache_read_tokens: Option<i32>,
    pub cache_write_tokens: Option<i32>,
    pub tool_calls: Option<Vec<Json>>,
    pub finish_reason: Option<String>,
    pub thinking: Option<String>,
}

// ── Request conversion (OpenAI → Anthropic) ─────────────────────

/// The system prompt given in the request's extra parameters, if a
/// non-empty string.
pub open spec fn extra_system(extra: JsonV) -> Option<JsonV> {
    match jget_str(extra, "system"@) {
        Some(s) => if s.len() > 0 { Some(JsonV::Str(s)) } else { None },
        None => None,
    }
}

/// An OpenAI tool call `{id, function: {name, arguments}}` as an Anthropic
/// `tool_use` block; its input is the arguments text parsed, or `{}`.
pub open spec fn tool_use_block(tc: JsonV) -> JsonV {
    let func = match jget(tc, "function"@) {
        Some(f) => f,
        None => JsonV::Null,
    };
    JsonV::Object(seq![
        ("type"@, JsonV::Str("tool_use"@)),
        ("id"@, JsonV::Str(str_or(jget_str(tc, "id"@), Seq::empty()))),
        ("name"@, JsonV::Str(str_or(jget_str(func, "name"@), Seq::empty()))),
        ("input"@, legacy_arguments(func)),
    ])
}

/// The text block of an assistant message, when its `content` is a
/// non-empty string.
pub open spec fn assistant_text_block(content: JsonV) -> Seq<JsonV> {
    match jget_str(content, "content"@) {
        Some(t) => if t.len() > 0 {
            seq![JsonV::Object(seq![("type"@, JsonV::Str("text"@)), ("text"@, JsonV::Str(t))])]
        } else {
            Seq::empty()
        },
        None => Seq::empty(),
    }
}

/// An assistant message with tool calls, as Anthropic content blocks.
pub open spec fn assistant_message(content: JsonV) -> JsonV {
    let calls = match jget_arr(content, "tool_calls"@) {
        Some(a) => a,
        None => Seq::empty(),
    };
    JsonV::Object(seq![
        ("role"@, JsonV::Str("assistant"@)),
        ("content"@, JsonV::Array(assistant_text_block(content) + calls.map_values(|tc: JsonV| tool_use_block(tc)))),
    ])
}

/// A tool message as a user message holding a `tool_result` block.
pub open spec fn tool_result_message(content: JsonV) -> JsonV {
    JsonV::Object(seq![
        ("role"@, JsonV::Str("user"@)),
        ("content"@, JsonV::Array(seq![JsonV::Object(seq![
            ("type"@, JsonV::Str("tool_result"@)),
            ("tool_use_id"@, JsonV::Str(str_or(jget_str(content, "tool_call_id"@), Seq::empty()))),
            ("content"@, match jget(content, "content"@) {
                Some(c) => c,
                None => JsonV::Str(Seq::empty()),
            }),
        ])])),
    ])
}

/// Any other message, passed on as `{role, content}`.
pub open spec fn plain_message(m: MessageV) -> JsonV {
    JsonV::Object(seq![("role"@, JsonV::Str(role_name(m.role))), ("content"@, m.content)])
}

/// The Anthropic system prompt and messages for OpenAI-shaped messages:
/// the system prompt is the last system message, else the extra
/// parameters' `system`; assistant messages with `tool_calls` become
/// `tool_use` blocks and tool messages become `tool_result` blocks.
pub open spec fn spec_build_messages(msgs: Seq<MessageV>, extra: JsonV) -> (Option<JsonV>, Seq<JsonV>)
    decreases msgs.len(),
{
    if msgs.len() == 0 {
        (extra_system(extra), Seq::empty())
    } else {
        let prev = spec_build_messages(msgs.drop_last(), extra);
        let m = msgs.last();
        match m.role {
            MessageRole::System => (Some(m.content), prev.1),
            MessageRole::Assistant => if jget(m.content, "tool_calls"@) is Some {
                (prev.0, prev.1.push(assistant_message(m.content)))
            } else {
                (prev.0, prev.1.push(plain_message(m)))
            },
            MessageRole::Tool => (prev.0, prev.1.push(tool_result_message(m.content))),
            MessageRole::User => (prev.0, prev.1.push(plain_message(m))),
        }
    }
}

/// The member `key` of `j` as a string, or empty.
fn str_or_empty(j: &Json, key: &str) -> (r: String)
    ensures
        r@ == str_or(jget_str(j@, key@), Seq::empty()),
{
    match j.get(key) {
        Some(v) => match v.as_str() {
            Some(s) => s.clone(),
            None => String::new(),
        },
        None => String::new(),
    }
}

/// An empty JSON object.
fn empty_obj() -> (r: Json)
    ensures
        r@ == empty_object(),
{
    let r = Json::Object(Vec::new());
    proof { lemma_view_object(&r); }
    assert(r@->Object_0 =~= Seq::<(Seq<char>, JsonV)>::empty());
    r
}

/// The arguments text of a function call parsed as JSON, or `{}`.
fn arguments_of(func: &Json) -> (r: Json)
    ensures
        r@ == legacy_arguments(func@),
{
    match func.get("arguments") {
        Some(a) => match a.as_str() {
            Some(text) => match parse_json(text.as_str()) {
                Some(x) => x,
                None => empty_obj(),
            },
            None => empty_obj(),
        },
        None => empty_obj(),
    }
}

/// An OpenAI tool call as an Anthropic `tool_use` block.
fn tool_use_of(tc: &Json) -> (r: Json)
    ensures
        r@ == tool_use_block(tc@),
{
    let id = str_or_empty(tc, "id");
    let (name, input) = match tc.get("function") {
        Some(func) => (str_or_empty(func, "name"), arguments_of(func)),
        None => {
            let null = Json::Null;
            (str_or_empty(&null, "name"), arguments_of(&null))
        }
    };
    jobj4("type", jstring("tool_use"), "id", Json::Str(id), "name", Json::Str(name), "input", input)
}

/// An assistant message with tool calls, as Anthropic content blocks.
fn assistant_message_of(content: &Json) -> (r: Json)
    ensures
        r@ == assistant_message(content@),
{
    let mut blocks: Vec<Json> = Vec::new();
    match content.get("content") {
        Some(v) => match v.as_str() {
            Some(t) => {
                if !t.as_str().is_empty() {
                    blocks.push(jobj2("type", jstring("text"), "text", Json::Str(t.clone())));
                }
            }
            None => {}
        },
        None => {}
    }
    let ghost head = blocks@.map_values(|x: Json| x@);
    assert(head =~= assistant_text_block(content@));
    let ghost calls: Seq<JsonV> = match jget_arr(content@, "tool_calls"@) {
        Some(a) => a,
        None => Seq::empty(),
    };
    match content.get("tool_calls") {
        Some(tv) => match tv.as_array() {
            Some(tool_calls) => {
                let mut i: usize = 0;
                while i < tool_calls.len()
                    invariant
                        i <= tool_calls.len(),
                        calls == tool_calls@.map_values(|x: Json| x@),
                        blocks@.map_values(|x: Json| x@) == head + calls.take(i as int).map_values(|tc: JsonV| tool_use_block(tc)),
                    decreases tool_calls.len() - i,
                {
                    let b = tool_use_of(&tool_calls[i]);
                    let ghost before = blocks@;
                    blocks.push(b);
                    assert(calls.take(i + 1).map_values(|tc: JsonV| tool_use_block(tc))
                        =~= calls.take(i as int).map_values(|tc: JsonV| tool_use_block(tc)).push(tool_use_block(calls[i as int])));
                    assert(blocks@.map_values(|x: Json| x@) =~= before.map_values(|x: Json| x@).push(b@));
                    i += 1;
                }
                assert(calls.take(tool_calls.len() as int) =~= calls);
            }
            None => {
                assert(calls.map_values(|tc: JsonV| tool_use_block(tc)) =~= Seq::<JsonV>::empty());
                assert(blocks@.map_values(|x: Json| x@) =~= head + calls.map_values(|tc: JsonV| tool_use_block(tc)));
            }
        },
        None => {
            assert(calls.map_values(|tc: JsonV| tool_use_block(tc)) =~= Seq::<JsonV>::empty());
            assert(blocks@.map_values(|x: Json| x@) =~= head + calls.map_values(|tc: JsonV| tool_use_block(tc)));
        }
    }
    jobj2("role", jstring("assistant"), "content", jarray(blocks))
}

/// A tool message as a user message holding a `tool_result` block.
fn tool_result_message_of(content: &Json) -> (r: Json)
    ensures
        r@ == tool_result_message(content@),
{
    let id = str_or_empty(content, "tool_call_id");
    let c = match content.get("content") {
        Some(c) => c.deep_clone(),
        None => Json::Str(String::new()),
    };
    let ghost idv = id@;
    let ghost cv = c@;
    assert(cv == match jget(content@, "content"@) {
        Some(x) => x,
        None => JsonV::Str(Seq::empty()),
    });
    assert(idv == str_or(jget_str(content@, "tool_call_id"@), Seq::empty()));
    let block = jobj3("type", jstring("tool_result"), "tool_use_id", Json::Str(id), "content", c);
    assert(block@ == JsonV::Object(seq![("type"@, JsonV::Str("tool_result"@)), ("tool_use_id"@, JsonV::Str(idv)), ("content"@, cv)]));
    let ghost bv = block@;
    let mut items: Vec<Json> = Vec::new();
    items.push(block);
    let ghost iv = items@;
    let arr = jarray(items);
    assert(iv.map_values(|x: Json| x@) =~= seq![bv]);
    let r = jobj2("role", jstring("user"), "content", arr);
    assert(r@ == JsonV::Object(seq![("role"@, JsonV::Str("user"@)), ("content"@, JsonV::Array(seq![bv]))]));
    let ghost inner = JsonV::Object(seq![
            ("type"@, JsonV::Str("tool_result"@)),
            ("tool_use_id"@, JsonV::Str(str_or(jget_str(content@, "tool_call_id"@), Seq::empty()))),
            ("content"@, match jget(content@, "content"@) {
                Some(c) => c,
                None => JsonV::Str(Seq::empty()),
            }),
        ]);
    assert(JsonV::Str(idv) == JsonV::Str(str_or(jget_str(content@, "tool_call_id"@), Seq::empty())));
    assert(cv == match jget(content@, "content"@) {
                Some(c) => c,
                None => JsonV::Str(Seq::empty()),
            });
    assert(bv->Object_0 =~= inner->Object_0);
    assert(bv == inner);
    assert(tool_result_message(content@) == JsonV::Object(seq![("role"@, JsonV::Str("user"@)), ("content"@, JsonV::Array(seq![inner]))]));
    r
}

/// Build Anthropic messages from OpenAI-shaped messages: the system prompt
/// (from the messages or `extra.system`) and the conversation.
pub fn build_anthropic_messages(messages: &Vec<Message>, extra: &Json) -> (r: (Option<Json>, Vec<Json>))
    ensures
        (match r.0 {
            Some(s) => Some(s@),
            None => None,
        }, r.1@.map_values(|x: Json| x@)) == spec_build_messages(messages_v(messages@), extra@),
{
    let ghost mv = messages_v(messages@);
    let mut system: Option<Json> = match extra.get("system") {
        Some(v) => match v.as_str() {
            Some(s) => if !s.as_str().is_empty() { Some(Json::Str(s.clone())) } else { None },
            None => None,
        },
        None => None,
    };
    let mut out: Vec<Json> = Vec::new();
    let mut i: usize = 0;
    while i < messages.len()
        invariant
            i <= messages.len(),
            mv == messages_v(messages@),
            (match system {
                Some(s) => Some(s@),
                None => None,
            }, out@.map_values(|x: Json| x@)) == spec_build_messages(mv.take(i as int), extra@),
        decreases messages.len() - i,
    {
        assert(mv.take(i + 1).drop_last() =~= mv.take(i as int));
        let msg = &messages[i];
        assert(mv.take(i + 1).last() == MessageV { role: msg.role, content: msg.content@ });
        let ghost before = out@;
        match msg.role {
            MessageRole::System => {
                system = Some(msg.content.deep_clone());
            }
            MessageRole::Assistant => {
                if msg.content.get("tool_calls").is_some() {
                    out.push(assistant_message_of(&msg.content));
                } else {
                    out.push(jobj2("role", jstring(role_text(msg.role)), "content", msg.content.deep_clone()));
                }
                assert(out@.map_values(|x: Json| x@) =~= before.map_values(|x: Json| x@).push(out@.last()@));
            }
            MessageRole::Tool => {
                out.push(tool_result_message_of(&msg.content));
                assert(out@.map_values(|x: Json| x@) =~= before.map_values(|x: Json| x@).push(out@.last()@));
            }
            MessageRole::User => {
                out.push(jobj2("role", jstring(role_text(msg.role)), "content", msg.content.deep_clone()));
                assert(out@.map_values(|x: Json| x@) =~= before.map_values(|x: Json| x@).push(out@.last()@));
            }
        }
        i += 1;
    }
    assert(mv.take(messages.len() as int) =~= mv);
    (system, out)
}

// ── Tool definitions and the request body ───────────────────────

/// An OpenAI tool definition `{type: "function", function: {name,
/// description, parameters}}` in Anthropic's form `{name, description,
/// input_schema}`; any other definition is passed through.
pub open spec fn anthropic_tool(t: JsonV) -> JsonV {
    match jget(t, "function"@) {
        Some(func) => JsonV::Object(seq![
            ("name"@, match jget(func, "name"@) {
                Some(n) => n,
                None => JsonV::Null,
            }),
            ("description"@, match jget(func, "description"@) {
                Some(d) => d,
                None => JsonV::Str(Seq::empty()),
            }),
            ("input_schema"@, match jget(func, "parameters"@) {
                Some(p) => p,
                None => JsonV::Object(seq![("type"@, JsonV::Str("object"@))]),
            }),
        ]),
        None => t,
    }
}

/// A tool definition in Anthropic's form.
pub fn anthropic_tool_of(t: &Json) -> (r: Json)
    ensures
        r@ == anthropic_tool(t@),
{
    match t.get("function") {
        Some(func) => {
            let name = match func.get("name") {
                Some(n) => n.deep_clone(),
                None => Json::Null,
            };
            let description = match func.get("description") {
                Some(d) => d.deep_clone(),
                None => Json::Str(String::new()),
            };
            let schema = match func.get("parameters") {
                Some(p) => p.deep_clone(),
                None => jobj1("type", jstring("object")),
            };
            let ghost (nv, dv, sv) = (name@, description@, schema@);
            let r = jobj3("name", name, "description", description, "input_schema", schema);
            assert(r@->Object_0 =~= anthropic_tool(t@)->Object_0);
            r
        }
        None => t.deep_clone(),
    }
}

/// A request to a model in the platform's OpenAI shape. The temperature is
/// carried as the JSON number it is sent as.
pub struct LlmRequest {
    pub messages: Vec<Message>,
    pub model: String,
    pub max_tokens: Option<u32>,
    pub temperature: Option<Json>,
    pub tools: Option<Vec<Json>>,
    pub extra: Json,
}

/// Add the extra parameters to a body, in order: each one whose key is not
/// `system` and not yet in the body.
pub open spec fn merge_extra(body: Seq<(Seq<char>, JsonV)>, extra: Seq<(Seq<char>, JsonV)>) -> Seq<(Seq<char>, JsonV)>
    decreases extra.len(),
{
    if extra.len() == 0 {
        body
    } else {
        let acc = merge_extra(body, extra.drop_last());
        let (k, v) = extra.last();
        if k == "system"@ || obj_lookup(acc, k) is Some { acc } else { acc.push((k, v)) }
    }
}

/// The fields of an Anthropic request body before the extra parameters.
pub open spec fn base_body(model: Seq<char>, messages: Seq<JsonV>, max_tokens: u32, stream: bool,
    system: Option<JsonV>, temperature: Option<JsonV>, tools: Option<Seq<JsonV>>) -> Seq<(Seq<char>, JsonV)> {
    seq![("model"@, JsonV::Str(model)), ("messages"@, JsonV::Array(messages)), ("max_tokens"@, JsonV::Int(max_tokens as i64))]
        + (if stream { seq![("stream"@, JsonV::Bool(true))] } else { Seq::empty() })
        + (match system {
            Some(s) => seq![("system"@, s)],
            None => Seq::empty(),
        })
        + (match temperature {
            Some(t) => seq![("temperature"@, t)],
            None => Seq::empty(),
        })
        + (match tools {
            Some(ts) => if ts.len() > 0 { seq![("tools"@, JsonV::Array(ts.map_values(|t: JsonV| anthropic_tool(t))))] } else { Seq::empty() },
            None => Seq::empty(),
        })
}

/// The body of an Anthropic Messages API request: model, converted messages,
/// `max_tokens` (4096 by default), `stream` when streaming, the system prompt,
/// the temperature, the converted tools when there are any, then the extra
/// parameters not already set.
pub open spec fn spec_request_body(req_model: Seq<char>, msgs: Seq<MessageV>, max_tokens: Option<u32>, stream: bool,
    temperature: Option<JsonV>, tools: Option<Seq<JsonV>>, extra: JsonV) -> JsonV {
    let built = spec_build_messages(msgs, extra);
    let base = base_body(req_model, built.1, match max_tokens {
        Some(m) => m,
        None => 4096,
    }, stream, built.0, temperature, tools);
    JsonV::Object(match extra {
        JsonV::Object(e) => merge_extra(base, e),
        _ => base,
    })
}

/// The view of an optional JSON value.
pub open spec fn opt_json(o: Option<Json>) -> Option<JsonV> {
    match o {
        Some(j) => Some(j@),
        None => None,
    }
}

/// The views of optional JSON values.
pub open spec fn opt_jsons(o: Option<Vec<Json>>) -> Option<Seq<JsonV>> {
    match o {
        Some(ts) => Some(ts@.map_values(|t: Json| t@)),
        None => None,
    }
}

/// Whether an object's entries hold `key`.
fn has_key(entries: &Vec<(String, Json)>, key: &String) -> (r: bool)
    ensures
        r == (obj_lookup(entries@.map_values(|e: (String, Json)| (e.0@, e.1@)), key@) is Some),
{
    let ghost ev = entries@.map_values(|e: (String, Json)| (e.0@, e.1@));
    let mut i: usize = 0;
    assert(ev.subrange(0, ev.len() as int) =~= ev);
    while i < entries.len()
        invariant
            i <= entries.len(),
            ev == entries@.map_values(|e: (String, Json)| (e.0@, e.1@)),
            (obj_lookup(ev, key@) is Some) == (obj_lookup(ev.subrange(i as int, ev.len() as int), key@) is Some),
        decreases entries.len() - i,
    {
        let ghost rest = ev.subrange(i as int, ev.len() as int);
        assert(rest[0] == ev[i as int]);
        if entries[i].0 == *key {
            return true;
        }
        assert(rest.subrange(1, rest.len() as int) =~= ev.subrange(i + 1, ev.len() as int));
        i += 1;
    }
    false
}

/// The body of an Anthropic Messages API request.
pub fn request_body(request: &LlmRequest, stream: bool) -> (r: Json)
    ensures
        r@ == spec_request_body(request.model@, messages_v(request.messages@), request.max_tokens, stream,
            opt_json(request.temperature), opt_jsons(request.tools), request.extra@),
{
    let (system, messages) = build_anthropic_messages(&request.messages, &request.extra);
    let ghost mview = messages@.map_values(|x: Json| x@);
    let ghost sys_v = opt_json(system);
    let max_tokens: u32 = match request.max_tokens {
        Some(m) => m,
        None => 4096,
    };
    let mut body: Vec<(String, Json)> = Vec::new();
    body.push(("model".to_string(), Json::Str(request.model.clone())));
    body.push(("messages".to_string(), jarray(messages)));
    body.push(("max_tokens".to_string(), Json::Int(max_tokens as i64)));
    if stream {
        body.push(("stream".to_string(), Json::Bool(true)));
    }
    match system {
        Some(s) => body.push(("system".to_string(), s)),
        None => {}
    }
    match &request.temperature {
        Some(t) => body.push(("temperature".to_string(), t.deep_clone())),
        None => {}
    }
    let ghost tools_v = opt_jsons(request.tools);
    match &request.tools {
        Some(tools) => {
            if tools.len() > 0 {
                let mut converted: Vec<Json> = Vec::new();
                let mut i: usize = 0;
                while i < tools.len()
                    invariant
                        i <= tools.len(),
                        converted.len() == i,
                        forall|k: int| 0 <= k < i ==> (#[trigger] converted@[k])@ == anthropic_tool(tools@[k]@),
                    decreases tools.len() - i,
                {
                    converted.push(anthropic_tool_of(&tools[i]));
                    i += 1;
                }
                let ghost cv = converted@;
                let arr = jarray(converted);
                assert(cv.map_values(|x: Json| x@) =~= tools@.map_values(|t: Json| t@).map_values(|t: JsonV| anthropic_tool(t)));
                body.push(("tools".to_string(), arr));
            }
        }
        None => {}
    }
    let ghost base = base_body(request.model@, mview, max_tokens, stream,
        sys_v, opt_json(request.temperature), tools_v);
    assert(body@.map_values(|e: (String, Json)| (e.0@, e.1@)) =~= base);
    match &request.extra {
        Json::Object(extra) => {
            let ghost xv = extra@.map_values(|e: (String, Json)| (e.0@, e.1@));
            proof { lemma_view_object(&request.extra); }
            assert(request.extra@->Object_0 =~= xv);
            let mut i: usize = 0;
            while i < extra.len()
                invariant
                    i <= extra.len(),
                    xv == extra@.map_values(|e: (String, Json)| (e.0@, e.1@)),
                    body@.map_values(|e: (String, Json)| (e.0@, e.1@)) == merge_extra(base, xv.take(i as int)),
                decreases extra.len() - i,
            {
                assert(xv.take(i + 1).drop_last() =~= xv.take(i as int));
                assert(xv.take(i + 1).last() == (extra@[i as int].0@, extra@[i as int].1@));
                let k = &extra[i].0;
                let is_system = str_eq(k.as_str(), "system");
                if !is_system && !has_key(&body, k) {
                    let ghost before = body@;
                    body.push((k.clone(), extra[i].1.deep_clone()));
                    assert(body@.map_values(|e: (String, Json)| (e.0@, e.1@))
                        =~= before.map_values(|e: (String, Json)| (e.0@, e.1@)).push((k@, extra@[i as int].1@)));
                }
                i += 1;
            }
            assert(xv.take(extra.len() as int) =~= xv);
        }
        _ => {}
    }
    crate::json::jobject(body)
}

/// The messages endpoint under a base URL, without doubled slashes.
pub open spec fn messages_url(base: Seq<char>) -> Seq<char> {
    trim_trailing_slashes(base) + "/v1/messages"@
}

/// `base` without its trailing `/` characters.
pub open spec fn trim_trailing_slashes(base: Seq<char>) -> Seq<char>
    decreases base.len(),
{
    if base.len() > 0 && base.last() == '/' { trim_trailing_slashes(base.drop_last()) } else { base }
}

/// `base` without its trailing `/` characters (`trim_end_matches('/')`).
pub fn trim_slashes(base: &str) -> (r: String)
    ensures
        r@ == trim_trailing_slashes(base@),
{
    let mut v = chars_of(base);
    while v.len() > 0 && v[v.len() - 1] == '/'
        invariant
            trim_trailing_slashes(v@) == trim_trailing_slashes(base@),
        decreases v.len(),
    {
        let ghost before = v@;
        v.pop();
        assert(v@ =~= before.drop_last());
    }
    string_of(v.as_slice())
}

/// The messages endpoint under a base URL.
pub fn messages_endpoint(base_url: &str) -> (r: String)
    ensures
        r@ == messages_url(base_url@),
{
    concat_str(&trim_slashes(base_url), "/v1/messages")
}

// ── Response conversion (Anthropic → OpenAI) ────────────────────

/// Anthropic's stop reason in OpenAI's terms: `end_turn` is `stop`,
/// `max_tokens` is `length`, `tool_use` is `tool_calls`; others stay.
pub open spec fn spec_finish_reason(s: Seq<char>) -> Seq<char> {
    if s == "end_turn"@ {
        "stop"@
    } else if s == "max_tokens"@ {
        "length"@
    } else if s == "tool_use"@ {
        "tool_calls"@
    } else {
        s
    }
}

/// A stop reason maps to an OpenAI finish reason that names the same cause:
/// `tool_calls` only for a stop to call tools, `stop` only for a finished
/// turn, `length` only for the token limit; any other reason is kept as
/// it is.
pub proof fn lemma_finish_reason_law(s: Seq<char>)
    ensures
        spec_finish_reason(s) == "tool_calls"@ <==> (s == "tool_use"@ || s == "tool_calls"@),
        spec_finish_reason(s) == "stop"@ <==> (s == "end_turn"@ || s == "stop"@),
        spec_finish_reason(s) == "length"@ <==> (s == "max_tokens"@ || s == "length"@),
        s != "end_turn"@ && s != "max_tokens"@ && s != "tool_use"@ ==> spec_finish_reason(s) == s,
{
    reveal_strlit("tool_calls");
    reveal_strlit("tool_use");
    reveal_strlit("stop");
    reveal_strlit("end_turn");
    reveal_strlit("length");
    reveal_strlit("max_tokens");
    assert("tool_calls"@[0] != "max_tokens"@[0]);
    assert("tool_use"@[0] != "end_turn"@[0]);
    assert("stop"@.len() != "tool_calls"@.len() && "stop"@.len() != "length"@.len() && "length"@.len() != "tool_calls"@.len());
    assert("stop"@.len() != "end_turn"@.len() && "stop"@.len() != "max_tokens"@.len() && "stop"@.len() != "tool_use"@.len());
    assert("length"@.len() != "end_turn"@.len() && "length"@.len() != "max_tokens"@.len() && "length"@.len() != "tool_use"@.len());
    assert("tool_calls"@.len() != "end_turn"@.len() && "tool_calls"@.len() != "tool_use"@.len());
}

/// Anthropic's stop reason in OpenAI's terms.
pub fn finish_reason_of(s: &str) -> (r: String)
    ensures
        r@ == spec_finish_reason(s@),
{
    if str_eq(s, "end_turn") {
        "stop".to_string()
    } else if str_eq(s, "max_tokens") {
        "length".to_string()
    } else if str_eq(s, "tool_use") {
        "tool_calls".to_string()
    } else {
        s.to_string()
    }
}

/// An OpenAI tool call `{id, type: "function", function: {name, arguments}}`
/// whose arguments are the JSON text of the input.
pub open spec fn openai_tool_call(id: Seq<char>, name: Seq<char>, input: JsonV) -> JsonV {
    JsonV::Object(seq![
        ("id"@, JsonV::Str(id)),
        ("type"@, JsonV::Str("function"@)),
        ("function"@, JsonV::Object(seq![
            ("name"@, JsonV::Str(name)),
            ("arguments"@, JsonV::Str(spec_json_text(serde_form(input)))),
        ])),
    ])
}

/// An OpenAI tool call whose arguments are the JSON text of the input.
pub fn openai_tool_call_of(id: &str, name: &str, input: &Json) -> (r: Json)
    ensures
        r@ == openai_tool_call(id@, name@, input@),
{
    let arguments = json_text(input);
    let func = jobj2("name", jstring(name), "arguments", Json::Str(arguments));
    jobj3("id", jstring(id), "type", jstring("function"), "function", func)
}

/// What a response's content blocks come to: the text, the thinking
/// (`None` when there is no thinking block), and the tool calls.
pub struct ContentSummary {
    pub text: Seq<char>,
    pub thinking: Option<Seq<char>>,
    pub calls: Seq<JsonV>,
}

/// `t` appended to optional text, separated by `sep` from what is there.
pub open spec fn append_part(acc: Option<Seq<char>>, t: Seq<char>, sep: Seq<char>) -> Option<Seq<char>> {
    match acc {
        Some(a) => Some(a + sep + t),
        None => Some(t),
    }
}

/// Anthropic content blocks summarized: `text` blocks' texts concatenated,
/// `thinking` blocks' texts joined by newlines, `tool_use` blocks as OpenAI
/// tool calls; other blocks are ignored.
pub open spec fn summarize_blocks(blocks: Seq<JsonV>) -> ContentSummary
    decreases blocks.len(),
{
    if blocks.len() == 0 {
        ContentSummary { text: Seq::empty(), thinking: None, calls: Seq::empty() }
    } else {
        let acc = summarize_blocks(blocks.drop_last());
        let b = blocks.last();
        match jget_str(b, "type"@) {
            Some(t) => if t == "thinking"@ {
                match jget_str(b, "thinking"@) {
                    Some(x) => ContentSummary { thinking: append_part(acc.thinking, x, "\n"@), ..acc },
                    None => acc,
                }
            } else if t == "text"@ {
                match jget_str(b, "text"@) {
                    Some(x) => ContentSummary { text: acc.text + x, ..acc },
                    None => acc,
                }
            } else if t == "tool_use"@ {
                ContentSummary {
                    calls: acc.calls.push(openai_tool_call(
                        str_or(jget_str(b, "id"@), Seq::empty()),
                        str_or(jget_str(b, "name"@), Seq::empty()),
                        match jget(b, "input"@) {
                            Some(i) => i,
                            None => empty_object(),
                        },
                    )),
                    ..acc
                }
            } else {
                acc
            },
            None => acc,
        }
    }
}

/// The text of a `thinking` block, if the block is one and its text is a
/// string.
pub open spec fn block_thinking(b: JsonV) -> Option<Seq<char>> {
    if jget_str(b, "type"@) == Some("thinking"@) {
        jget_str(b, "thinking"@)
    } else {
        None
    }
}

/// The thinking of a response is every thinking block's text, in order,
/// joined by newlines; there is none exactly when no block is a thinking
/// block with a text.
pub proof fn lemma_summary_thinking_law(blocks: Seq<JsonV>)
    ensures
        ({
            let ts = blocks.filter_map(|b: JsonV| block_thinking(b));
            summarize_blocks(blocks).thinking == if ts.len() == 0 { None } else { Some(join_with(ts, '\n')) }
        }),
    decreases blocks.len(),
{
    if blocks.len() > 0 {
        let rest = blocks.drop_last();
        lemma_summary_thinking_law(rest);
        let f = |b: JsonV| block_thinking(b);
        let tr = rest.filter_map(f);
        let ts = blocks.filter_map(f);
        let b = blocks.last();
        match block_thinking(b) {
            Some(x) => {
                assert(ts == tr + seq![x]);
                assert(jget_str(b, "type"@) == Some("thinking"@));
                reveal_strlit("\n");
                if tr.len() == 0 {
                    assert(ts =~= seq![x]);
                } else {
                    assert(ts.drop_last() =~= tr);
                    assert(ts.last() == x);
                    assert(join_with(ts, '\n') == join_with(tr, '\n').push('\n') + x);
                    assert(join_with(tr, '\n') + "\n"@ + x =~= join_with(tr, '\n').push('\n') + x);
                }
            },
            None => {
                assert(ts == tr);
            },
        }
    }
}

/// The text of a `text` block, if the block is one and its text is a
/// string.
pub open spec fn block_text(b: JsonV) -> Option<Seq<char>> {
    if jget_str(b, "type"@) == Some("text"@) {
        jget_str(b, "text"@)
    } else {
        None
    }
}

/// The OpenAI tool call of a `tool_use` block, if the block is one.
pub open spec fn block_call(b: JsonV) -> Option<JsonV> {
    if jget_str(b, "type"@) == Some("tool_use"@) {
        Some(openai_tool_call(
            str_or(jget_str(b, "id"@), Seq::empty()),
            str_or(jget_str(b, "name"@), Seq::empty()),
            match jget(b, "input"@) {
                Some(i) => i,
                None => empty_object(),
            },
        ))
    } else {
        None
    }
}

/// The text of a response is the texts of its text blocks one after the
/// other, and its tool calls are its tool-use blocks, one call each, in
/// order; no other block adds to either.
pub proof fn lemma_summary_text_calls_law(blocks: Seq<JsonV>)
    ensures
        summarize_blocks(blocks).text == blocks.filter_map(|b: JsonV| block_text(b)).flatten(),
        summarize_blocks(blocks).calls == blocks.filter_map(|b: JsonV| block_call(b)),
    decreases blocks.len(),
{
    if blocks.len() > 0 {
        let rest = blocks.drop_last();
        lemma_summary_text_calls_law(rest);
        let ft = |b: JsonV| block_text(b);
        let fc = |b: JsonV| block_call(b);
        let b = blocks.last();
        reveal_strlit("text");
        reveal_strlit("thinking");
        reveal_strlit("tool_use");
        assert("text"@.len() != "thinking"@.len() && "text"@.len() != "tool_use"@.len());
        assert("thinking"@[1] != "tool_use"@[1]);
        match block_text(b) {
            Some(x) => {
                assert(blocks.filter_map(ft) == rest.filter_map(ft) + seq![x]);
                assert(rest.filter_map(ft) + seq![x] =~= rest.filter_map(ft).push(x));
                rest.filter_map(ft).lemma_flatten_push(x);
                assert(jget_str(b, "type"@) == Some("text"@));
            },
            None => {
                assert(blocks.filter_map(ft) == rest.filter_map(ft));
            },
        }
        match block_call(b) {
            Some(c) => {
                assert(blocks.filter_map(fc) == rest.filter_map(fc) + seq![c]);
                assert(rest.filter_map(fc) + seq![c] =~= summarize_blocks(rest).calls.push(c));
                assert(jget_str(b, "type"@) == Some("tool_use"@));
            },
            None => {
                assert(blocks.filter_map(fc) == rest.filter_map(fc));
            },
        }
    }
}

/// `resp[outer][key]` as an `i64`.
pub open spec fn nested_i64(resp: JsonV, outer: Seq<char>, key: Seq<char>) -> Option<i64> {
    match jget(resp, outer) {
        Some(o) => jget_i64(o, key),
        None => None,
    }
}

/// An optional `i64` cast to `i32`.
pub open spec fn opt_i32(o: Option<i64>) -> Option<i32> {
    match o {
        Some(v) => Some(v as i32),
        None => None,
    }
}

/// The content blocks of a response.
pub open spec fn response_blocks(resp: JsonV) -> Seq<JsonV> {
    match jget_arr(resp, "content"@) {
        Some(a) => a,
        None => Seq::empty(),
    }
}

/// `resp[outer][key]` as an `i64`.
fn nested_i64_of(resp: &Json, outer: &str, key: &str) -> (r: Option<i64>)
    ensures
        r == nested_i64(resp@, outer@, key@),
{
    match resp.get(outer) {
        Some(o) => match o.get(key) {
            Some(v) => v.as_i64(),
            None => None,
        },
        None => None,
    }
}

/// An optional `i64` cast to `i32`.
fn opt_i32_of(o: Option<i64>) -> (r: Option<i32>)
    ensures
        r == opt_i32(o),
{
    match o {
        Some(v) => {
            #[verifier::truncate]
            let x = v as i32;
            Some(x)
        }
        None => None,
    }
}

/// Parse an Anthropic Messages API response into the normalized response:
/// text, thinking, tool calls in OpenAI's form, token usage (absent counts
/// are 0), the finish reason in OpenAI's terms and the model (`unknown`
/// when absent).
pub fn parse_response(resp: &Json) -> (r: Result<LlmResponse, CasperError>)
    ensures
        r matches Ok(l) && {
            let sm = summarize_blocks(response_blocks(resp@));
            &&& l.content@ == sm.text
            &&& l.role == MessageRole::Assistant
            &&& l.model@ == str_or(jget_str(resp@, "model"@), "unknown"@)
            &&& l.input_tokens == (match nested_i64(resp@, "usage"@, "input_tokens"@) { Some(v) => v, None => 0 }) as i32
            &&& l.output_tokens == (match nested_i64(resp@, "usage"@, "output_tokens"@) { Some(v) => v, None => 0 }) as i32
            &&& l.cache_read_tokens == opt_i32(nested_i64(resp@, "usage"@, "cache_read_input_tokens"@))
            &&& l.cache_write_tokens == opt_i32(nested_i64(resp@, "usage"@, "cache_creation_input_tokens"@))
            &&& (match l.tool_calls {
                Some(tc) => sm.calls.len() > 0 && tc@.map_values(|x: Json| x@) == sm.calls,
                None => sm.calls.len() == 0,
            })
            &&& (match l.finish_reason {
                Some(f) => jget_str(resp@, "stop_reason"@) is Some && f@ == spec_finish_reason(jget_str(resp@, "stop_reason"@)->0),
                None => jget_str(resp@, "stop_reason"@) is None,
            })
            &&& (match l.thinking {
                Some(t) => sm.thinking == Some(t@),
                None => sm.thinking is None,
            })
        },
{
    let ghost blocks = response_blocks(resp@);
    let mut text: Vec<char> = Vec::new();
    let mut thinking: Option<Vec<char>> = None;
    let mut calls: Vec<Json> = Vec::new();
    let empty: Vec<Json> = Vec::new();
    let arr: &Vec<Json> = match resp.get("content") {
        Some(c) => match c.as_array() {
            Some(a) => a,
            None => &empty,
        },
        None => &empty,
    };
    assert(arr@.map_values(|x: Json| x@) =~= blocks);
    let mut i: usize = 0;
    while i < arr.len()
        invariant
            i <= arr.len(),
            blocks == arr@.map_values(|x: Json| x@),
            ({
                let sm = summarize_blocks(blocks.take(i as int));
                &&& text@ == sm.text
                &&& (match thinking { Some(t) => Some(t@), None => None }) == sm.thinking
                &&& calls@.map_values(|x: Json| x@) == sm.calls
            }),
        decreases arr.len() - i,
    {
        assert(blocks.take(i + 1).drop_last() =~= blocks.take(i as int));
        assert(blocks.take(i + 1).last() == arr@[i as int]@);
        let b = &arr[i];
        let ty = match b.get("type") {
            Some(t) => match t.as_str() {
                Some(s) => Some(s.clone()),
                None => None,
            },
            None => None,
        };
        match ty {
            Some(t) => {
                if str_eq(t.as_str(), "thinking") {
                    match b.get("thinking") {
                        Some(x) => match x.as_str() {
                            Some(xs) => {
                                let next = match thinking {
                                    Some(mut acc) => {
                                        acc.push('\n');
                                        push_chars(&mut acc, xs.as_str());
                                        acc
                                    }
                                    None => chars_of(xs.as_str()),
                                };
                                proof { reveal_strlit("\n"); }
                                thinking = Some(next);
                            }
                            None => {}
                        },
                        None => {}
                    }
                } else if str_eq(t.as_str(), "text") {
                    match b.get("text") {
                        Some(x) => match x.as_str() {
                            Some(xs) => push_chars(&mut text, xs.as_str()),
                            None => {}
                        },
                        None => {}
                    }
                } else if str_eq(t.as_str(), "tool_use") {
                    let id = match b.get("id") {
                        Some(v) => match v.as_str() { Some(s) => s.clone(), None => String::new() },
                        None => String::new(),
                    };
                    let name = match b.get("name") {
                        Some(v) => match v.as_str() { Some(s) => s.clone(), None => String::new() },
                        None => String::new(),
                    };
                    let input = match b.get("input") {
                        Some(v) => v.deep_clone(),
                        None => empty_obj(),
                    };
                    let ghost before = calls@;
                    calls.push(openai_tool_call_of(id.as_str(), name.as_str(), &input));
                    assert(calls@.map_values(|x: Json| x@) =~= before.map_values(|x: Json| x@).push(calls@.last()@));
                }
            }
            None => {}
        }
        i += 1;
    }
    assert(blocks.take(arr.len() as int) =~= blocks);
    let input_tokens: i64 = match nested_i64_of(resp, "usage", "input_tokens") {
        Some(v) => v,
        None => 0,
    };
    let output_tokens: i64 = match nested_i64_of(resp, "usage", "output_tokens") {
        Some(v) => v,
        None => 0,
    };
    #[verifier::truncate]
    let input_tokens = input_tokens as i32;
    #[verifier::truncate]
    let output_tokens = output_tokens as i32;
    let cache_read_tokens = opt_i32_of(nested_i64_of(resp, "usage", "cache_read_input_tokens"));
    let cache_write_tokens = opt_i32_of(nested_i64_of(resp, "usage", "cache_creation_input_tokens"));
    let finish_reason = match resp.get("stop_reason") {
        Some(v) => match v.as_str() {
            Some(sr) => Some(finish_reason_of(sr.as_str())),
            None => None,
        },
        None => None,
    };
    let model = match resp.get("model") {
        Some(v) => match v.as_str() {
            Some(m) => m.clone(),
            None => "unknown".to_string(),
        },
        None => "unknown".to_string(),
    };
    let tool_calls = if calls.len() == 0 { None } else { Some(calls) };
    let thinking = match thinking {
        Some(t) => Some(string_of(t.as_slice())),
        None => None,
    };
    Ok(LlmResponse {
        content: string_of(text.as_slice()),
        role: MessageRole::Assistant,
        model,
        input_tokens,
        output_tokens,
        cache_read_tokens,
        cache_write_tokens,
        tool_calls,
        finish_reason,
        thinking,
    })
}

/// The message of an Anthropic error body: the body's `error.message` when
/// it is JSON holding one, else the body's first 500 characters.
pub open spec fn anthropic_error_message(body: Seq<char>) -> Seq<char> {
    let fallback = if body.len() <= 500 { body } else { body.take(500) };
    match spec_json_parse(body) {
        Some(v) => match jget(v, "error"@) {
            Some(e) => match jget_str(e, "message"@) {
                Some(m) => m,
                None => fallback,
            },
            None => fallback,
        },
        None => fallback,
    }
}

/// The first 500 characters of a text.
fn first_500(body: &str) -> (r: String)
    ensures
        r@ == (if body@.len() <= 500 { body@ } else { body@.take(500) }),
{
    let v = chars_of(body);
    if v.len() <= 500 {
        string_of(v.as_slice())
    } else {
        let mut out: Vec<char> = Vec::new();
        let mut i: usize = 0;
        while i < 500
            invariant
                i <= 500 < v.len(),
                out@ == v@.take(i as int),
            decreases 500 - i,
        {
            out.push(v[i]);
            i += 1;
            assert(out@ =~= v@.take(i as int));
        }
        string_of(out.as_slice())
    }
}

/// The message of an Anthropic error body.
pub fn anthropic_error_message_of(body: &str) -> (r: String)
    ensures
        r@ == anthropic_error_message(body@),
{
    match parse_json(body) {
        Some(v) => match v.get("error") {
            Some(e) => match e.get("message") {
                Some(m) => match m.as_str() {
                    Some(ms) => ms.clone(),
                    None => first_500(body),
                },
                None => first_500(body),
            },
            None => first_500(body),
        },
        None => first_500(body),
    }
}

/// Map an Anthropic HTTP error status and body to the platform's error:
/// 401 is an auth error, 429 is rate limiting, 5xx a server error, anything
/// else a plain error; all but rate limiting are `BadGateway`.
pub fn map_anthropic_error(status: u16, body: &str) -> (r: CasperError)
    ensures
        status == 429 <==> r is RateLimited,
        status == 401 ==> (r matches CasperError::BadGateway(m)
            && m@ == "Anthropic auth error: "@ + anthropic_error_message(body@)),
        500 <= status <= 599 ==> (r matches CasperError::BadGateway(m)
            && m@ == "Anthropic server error ("@ + spec_decimal(status as nat) + "): "@ + anthropic_error_message(body@)),
        status != 401 && status != 429 && !(500 <= status <= 599) ==> (r matches CasperError::BadGateway(m)
            && m@ == "Anthropic error ("@ + spec_decimal(status as nat) + "): "@ + anthropic_error_message(body@)),
{
    let message = anthropic_error_message_of(body);
    if status == 401 {
        CasperError::BadGateway(concat_str("Anthropic auth error: ", &message))
    } else if status == 429 {
        CasperError::RateLimited
    } else if 500 <= status && status <= 599 {
        let a = concat3("Anthropic server error (", &u64_text(status as u64), "): ");
        CasperError::BadGateway(concat_str(&a, &message))
    } else {
        let a = concat3("Anthropic error (", &u64_text(status as u64), "): ");
        CasperError::BadGateway(concat_str(&a, &message))
    }
}

// ── Server-sent events ──────────────────────────────────────────

/// Line breaks normalized: each `\r\n`, then each remaining `\r`, becomes `\n`.
pub open spec fn normalize_newlines(s: Seq<char>) -> Seq<char>
    decreases s.len(),
{
    if s.len() == 0 {
        s
    } else if s.len() >= 2 && s[0] == '\r' && s[1] == '\n' {
        seq!['\n'] + normalize_newlines(s.subrange(2, s.len() as int))
    } else if s[0] == '\r' {
        seq!['\n'] + normalize_newlines(s.subrange(1, s.len() as int))
    } else {
        seq![s[0]] + normalize_newlines(s.subrange(1, s.len() as int))
    }
}

/// Line breaks normalized.
fn normalize_chars(v: &Vec<char>) -> (r: Vec<char>)
    ensures
        r@ == normalize_newlines(v@),
{
    let mut out: Vec<char> = Vec::new();
    let mut i: usize = 0;
    assert(v@.subrange(0, v@.len() as int) =~= v@);
    assert(out@ + normalize_newlines(v@) =~= normalize_newlines(v@));
    while i < v.len()
        invariant
            i <= v.len(),
            out@ + normalize_newlines(v@.subrange(i as int, v@.len() as int)) == normalize_newlines(v@),
        decreases v.len() - i,
    {
        let ghost rest = v@.subrange(i as int, v@.len() as int);
        if v[i] == '\r' && i + 1 < v.len() && v[i + 1] == '\n' {
            assert(rest.subrange(2, rest.len() as int) =~= v@.subrange(i + 2, v@.len() as int));
            out.push('\n');
            i += 2;
        } else {
            assert(rest.subrange(1, rest.len() as int) =~= v@.subrange(i + 1, v@.len() as int));
            if v[i] == '\r' {
                out.push('\n');
            } else {
                out.push(v[i]);
            }
            i += 1;
        }
        assert(out@ + normalize_newlines(v@.subrange(i as int, v@.len() as int)) =~= normalize_newlines(v@));
    }
    assert(v@.subrange(v@.len() as int, v@.len() as int) =~= Seq::<char>::empty());
    assert(out@ + Seq::<char>::empty() =~= out@);
    out
}

/// Whether a blank line (`\n\n`) starts at `i` in `s`.
pub open spec fn blank_at(s: Seq<char>, i: int) -> bool {
    0 <= i && i + 1 < s.len() && s[i] == '\n' && s[i + 1] == '\n'
}

/// The position of the first blank line (`\n\n`) in `s`, if any.
pub open spec fn first_blank_line(s: Seq<char>) -> Option<int> {
    if exists|i: int| #[trigger] blank_at(s, i) {
        Some(choose|i: int| #[trigger] blank_at(s, i) && forall|j: int| 0 <= j < i ==> !blank_at(s, j))
    } else {
        None
    }
}

/// The buffer of a server-sent event stream: text received but not yet
/// split into events, with line breaks normalized.
pub struct SseBuffer {
    pub buffer: Vec<char>,
}

impl SseBuffer {
    /// An empty buffer.
    pub fn new() -> (r: SseBuffer)
        ensures
            r.buffer@ == Seq::<char>::empty(),
    {
        SseBuffer { buffer: Vec::new() }
    }

    /// Append received text and normalize the buffer's line breaks.
    pub fn push_text(&mut self, chunk: &str)
        ensures
            final(self).buffer@ == normalize_newlines(old(self).buffer@ + chunk@),
    {
        let mut w = chars_of(chunk);
        self.buffer.append(&mut w);
        self.buffer = normalize_chars(&self.buffer);
    }

    /// Take the next complete event block: the text before the first blank
    /// line, leaving what follows it.
    pub fn next_block(&mut self) -> (r: Option<String>)
        ensures
            first_blank_line(old(self).buffer@) is None ==> (r is None && final(self).buffer@ == old(self).buffer@),
            first_blank_line(old(self).buffer@) matches Some(p) ==> (r matches Some(b)
                && b@ == old(self).buffer@.take(p)
                && final(self).buffer@ == old(self).buffer@.skip(p + 2)),
    {
        let ghost s = self.buffer@;
        let n = self.buffer.len();
        let mut found: Option<usize> = None;
        let mut i: usize = 0;
        while i < n && found.is_none()
            invariant
                s == self.buffer@,
                n == s.len(),
                i <= n,
                found is None ==> forall|j: int| 0 <= j < i ==> !blank_at(s, j),
                found matches Some(p) ==> blank_at(s, p as int) && forall|j: int| 0 <= j < p ==> !blank_at(s, j),
            decreases n - i + (if found is None { 1int } else { 0int }),
        {
            if i + 1 < n && self.buffer[i] == '\n' && self.buffer[i + 1] == '\n' {
                found = Some(i);
            } else {
                i += 1;
            }
        }
        match found {
            None => {
                assert(!exists|k: int| #[trigger] blank_at(s, k)) by {
                    assert forall|k: int| !#[trigger] blank_at(s, k) by {
                        if 0 <= k < i {
                        }
                    }
                }
                None
            }
            Some(p) => {
                proof {
                    let f = choose|f: int| #[trigger] blank_at(s, f) && forall|j: int| 0 <= j < f ==> !blank_at(s, j);
                    if f < p {
                        assert(!blank_at(s, f));
                    } else if f > p {
                        assert(!blank_at(s, p as int));
                    }
                }
                let mut block: Vec<char> = Vec::new();
                let mut k: usize = 0;
                while k < p
                    invariant
                        k <= p,
                        p + 1 < s.len(),
                        s == self.buffer@,
                        block@ == s.take(k as int),
                    decreases p - k,
                {
                    block.push(self.buffer[k]);
                    k += 1;
                    assert(block@ =~= s.take(k as int));
                }
                let mut rest: Vec<char> = Vec::new();
                let mut m: usize = p + 2;
                while m < self.buffer.len()
                    invariant
                        p + 2 <= m <= s.len(),
                        s == self.buffer@,
                        rest@ == s.subrange(p + 2, m as int),
                    decreases self.buffer.len() - m,
                {
                    rest.push(self.buffer[m]);
                    m += 1;
                    assert(rest@ =~= s.subrange(p + 2, m as int));
                }
                assert(rest@ =~= s.skip(p + 2));
                self.buffer = rest;
                Some(string_of(block.as_slice()))
            }
        }
    }
}

/// The lines of a text (`str::lines` on text without `\r`): the pieces
/// between line breaks, without a last empty piece.
pub open spec fn text_lines(s: Seq<char>) -> Seq<Seq<char>> {
    let parts = split_on(s, '\n');
    if parts.last().len() == 0 { parts.drop_last() } else { parts }
}

/// The event type and data of an event block: the trimmed text of its last
/// `event: ` line, and its `data: ` lines joined by line breaks.
pub open spec fn spec_parse_block(lines: Seq<Seq<char>>) -> (Seq<char>, Option<Seq<char>>)
    decreases lines.len(),
{
    if lines.len() == 0 {
        (Seq::empty(), None)
    } else {
        let acc = spec_parse_block(lines.drop_last());
        let l = lines.last();
        if has_prefix(l, "event: "@) {
            (trim(l.skip(7)), acc.1)
        } else if has_prefix(l, "data: "@) {
            (acc.0, crate::anthropic::append_part(acc.1, l.skip(6), "\n"@))
        } else {
            acc
        }
    }
}

/// An event of a server-sent event stream.
pub struct SseEvent {
    pub event_type: String,
    pub data: String,
}

/// The event type and data of an event block (the data empty when it has
/// no `data: ` line).
pub fn parse_block(block: &str) -> (r: SseEvent)
    ensures
        r.event_type@ == spec_parse_block(text_lines(block@)).0,
        r.data@ == str_or(spec_parse_block(text_lines(block@)).1, Seq::empty()),
{
    proof { reveal_strlit("event: "); reveal_strlit("data: "); reveal_strlit("\n"); }
    let v = chars_of(block);
    let parts = split_chars(&v, '\n');
    let n = if parts[parts.len() - 1].len() == 0 { parts.len() - 1 } else { parts.len() };
    let ghost lines = text_lines(block@);
    assert(lines.len() == n);
    let mut event_type: Vec<char> = Vec::new();
    let mut data: Option<Vec<char>> = None;
    let mut i: usize = 0;
    while i < n
        invariant
            i <= n <= parts.len(),
            lines == text_lines(block@),
            lines.len() == n,
            forall|k: int| 0 <= k < n ==> #[trigger] lines[k] == parts@[k]@,
            event_type@ == spec_parse_block(lines.take(i as int)).0,
            (match data { Some(d) => Some(d@), None => None }) == spec_parse_block(lines.take(i as int)).1,
        decreases n - i,
    {
        proof { reveal_strlit("event: "); reveal_strlit("data: "); reveal_strlit("\n"); }
        assert(lines.take(i + 1).drop_last() =~= lines.take(i as int));
        assert(lines.take(i + 1).last() == parts@[i as int]@);
        let line = &parts[i];
        match strip_prefix_chars(line, "event: ") {
            Some(rest) => {
                assert(rest@ =~= parts@[i as int]@.skip(7));
                event_type = trim_chars(&rest);
            }
            None => match strip_prefix_chars(line, "data: ") {
                Some(rest) => {
                    assert(rest@ =~= parts@[i as int]@.skip(6));
                    let next = match data {
                        Some(mut d) => {
                            d.push('\n');
                            let mut r2 = rest;
                            d.append(&mut r2);
                            d
                        }
                        None => rest,
                    };
                    data = Some(next);
                }
                None => {}
            },
        }
        i += 1;
    }
    assert(lines.take(n as int) =~= lines);
    let data_text = match data {
        Some(d) => string_of(d.as_slice()),
        None => String::new(),
    };
    SseEvent { event_type: string_of(event_type.as_slice()), data: data_text }
}

// ── Streamed responses ──────────────────────────────────────────

/// An event forwarded to the client while a response streams.
pub enum ProxyEvent {
    Thinking { delta: String },
    ContentDelta { delta: String },
    ToolCallStart { id: String, name: String, input: Json },
}

/// The abstract value of a forwarded event.
pub enum ProxyEventV {
    Thinking { delta: Seq<char> },
    ContentDelta { delta: Seq<char> },
    ToolCallStart { id: Seq<char>, name: Seq<char>, input: JsonV },
}

/// The abstract value of a forwarded event.
pub open spec fn event_view(e: ProxyEvent) -> ProxyEventV {
    match e {
        ProxyEvent::Thinking { delta } => ProxyEventV::Thinking { delta: delta@ },
        ProxyEvent::ContentDelta { delta } => ProxyEventV::ContentDelta { delta: delta@ },
        ProxyEvent::ToolCallStart { id, name, input } => ProxyEventV::ToolCallStart { id: id@, name: name@, input: input@ },
    }
}

/// What a stream has delivered so far.
pub struct StreamState {
    pub model: String,
    pub input_tokens: i32,
    pub output_tokens: i32,
    pub cache_read_tokens: Option<i32>,
    pub cache_write_tokens: Option<i32>,
    pub content: Vec<char>,
    pub thinking: Option<Vec<char>>,
    pub tool_calls: Vec<Json>,
    pub finish_reason: Option<String>,
    pub tool_id: String,
    pub tool_name: String,
    pub tool_json: Vec<char>,
    pub block_type: Option<String>,
}

/// The abstract value of a stream's state.
pub struct StreamStateV {
    pub model: Seq<char>,
    pub input_tokens: i32,
    pub output_tokens: i32,
    pub cache_read_tokens: Option<i32>,
    pub cache_write_tokens: Option<i32>,
    pub content: Seq<char>,
    pub thinking: Option<Seq<char>>,
    pub tool_calls: Seq<JsonV>,
    pub finish_reason: Option<Seq<char>>,
    pub tool_id: Seq<char>,
    pub tool_name: Seq<char>,
    pub tool_json: Seq<char>,
    pub block_type: Option<Seq<char>>,
}

/// An optional string's view.
pub open spec fn opt_str(o: Option<String>) -> Option<Seq<char>> {
    match o {
        Some(s) => Some(s@),
        None => None,
    }
}

/// An optional character vector's view.
pub open spec fn opt_chars(o: Option<Vec<char>>) -> Option<Seq<char>> {
    match o {
        Some(s) => Some(s@),
        None => None,
    }
}

/// The abstract value of a stream's state.
pub open spec fn state_view(st: StreamState) -> StreamStateV {
    StreamStateV {
        model: st.model@,
        input_tokens: st.input_tokens,
        output_tokens: st.output_tokens,
        cache_read_tokens: st.cache_read_tokens,
        cache_write_tokens: st.cache_write_tokens,
        content: st.content@,
        thinking: opt_chars(st.thinking),
        tool_calls: st.tool_calls@.map_values(|x: Json| x@),
        finish_reason: opt_str(st.finish_reason),
        tool_id: st.tool_id@,
        tool_name: st.tool_name@,
        tool_json: st.tool_json@,
        block_type: opt_str(st.block_type),
    }
}

/// `j[key]`, null when absent.
pub open spec fn at(j: JsonV, key: Seq<char>) -> JsonV {
    match jget(j, key) {
        Some(v) => v,
        None => JsonV::Null,
    }
}

/// The input a finished `tool_use` block carries: its accumulated JSON text
/// parsed, or `{}`.
pub open spec fn accumulated_input(text: Seq<char>) -> JsonV {
    match spec_json_parse(text) {
        Some(x) => x,
        None => empty_object(),
    }
}

/// How one stream event changes the state, and the event forwarded to the
/// client, if any:
/// - `message_start` sets the model, the input token count and the cache counts;
/// - `content_block_start` starts a block, and a `tool_use` block's id and name;
/// - `content_block_delta` adds thinking, text, or tool input text;
/// - `content_block_stop` finishes a `tool_use` block into a tool call;
/// - `message_delta` sets the finish reason and the output token count.
pub open spec fn spec_on_event(st: StreamStateV, ty: Seq<char>, data: JsonV) -> (StreamStateV, Option<ProxyEventV>) {
    if ty == "message_start"@ {
        let msg = at(data, "message"@);
        let usage = at(msg, "usage"@);
        (StreamStateV {
            model: match jget_str(msg, "model"@) {
                Some(m) => m,
                None => st.model,
            },
            input_tokens: (match jget_i64(usage, "input_tokens"@) { Some(v) => v, None => 0 }) as i32,
            cache_read_tokens: opt_i32(jget_i64(usage, "cache_read_input_tokens"@)),
            cache_write_tokens: opt_i32(jget_i64(usage, "cache_creation_input_tokens"@)),
            ..st
        }, None)
    } else if ty == "content_block_start"@ {
        let block = at(data, "content_block"@);
        let bt = str_or(jget_str(block, "type"@), Seq::empty());
        if bt == "tool_use"@ {
            (StreamStateV {
                block_type: Some(bt),
                tool_id: str_or(jget_str(block, "id"@), Seq::empty()),
                tool_name: str_or(jget_str(block, "name"@), Seq::empty()),
                tool_json: Seq::empty(),
                ..st
            }, None)
        } else {
            (StreamStateV { block_type: Some(bt), ..st }, None)
        }
    } else if ty == "content_block_delta"@ {
        let delta = at(data, "delta"@);
        match jget_str(delta, "type"@) {
            Some(dt) => if dt == "thinking_delta"@ {
                match jget_str(delta, "thinking"@) {
                    Some(t) => (StreamStateV { thinking: append_part(st.thinking, t, Seq::empty()), ..st },
                        Some(ProxyEventV::Thinking { delta: t })),
                    None => (st, None),
                }
            } else if dt == "text_delta"@ {
                match jget_str(delta, "text"@) {
                    Some(t) => (StreamStateV { content: st.content + t, ..st }, Some(ProxyEventV::ContentDelta { delta: t })),
                    None => (st, None),
                }
            } else if dt == "input_json_delta"@ {
                match jget_str(delta, "partial_json"@) {
                    Some(j) => (StreamStateV { tool_json: st.tool_json + j, ..st }, None),
                    None => (st, None),
                }
            } else {
                (st, None)
            },
            None => (st, None),
        }
    } else if ty == "content_block_stop"@ {
        if st.block_type == Some("tool_use"@) {
            let input = accumulated_input(st.tool_json);
            (StreamStateV {
                tool_calls: st.tool_calls.push(openai_tool_call(st.tool_id, st.tool_name, input)),
                block_type: None,
                ..st
            }, Some(ProxyEventV::ToolCallStart { id: st.tool_id, name: st.tool_name, input }))
        } else {
            (StreamStateV { block_type: None, ..st }, None)
        }
    } else if ty == "message_delta"@ {
        let st2 = match jget_str(at(data, "delta"@), "stop_reason"@) {
            Some(sr) => StreamStateV { finish_reason: Some(spec_finish_reason(sr)), ..st },
            None => st,
        };
        (match jget_i64(at(data, "usage"@), "output_tokens"@) {
            Some(ot) => StreamStateV { output_tokens: ot as i32, ..st2 },
            None => st2,
        }, None)
    } else {
        (st, None)
    }
}

/// `j[key]` as a string, copied out.
fn get_str(j: &Json, key: &str) -> (r: Option<String>)
    ensures
        r is Some <==> jget_str(j@, key@) is Some,
        r matches Some(s) ==> jget_str(j@, key@) == Some(s@),
{
    match j.get(key) {
        Some(v) => match v.as_str() {
            Some(s) => Some(s.clone()),
            None => None,
        },
        None => None,
    }
}

/// `j[key]` as an `i64`.
fn get_i64(j: &Json, key: &str) -> (r: Option<i64>)
    ensures
        r == jget_i64(j@, key@),
{
    match j.get(key) {
        Some(v) => v.as_i64(),
        None => None,
    }
}

/// `j[key]`, a copy; null when absent.
fn at_of(j: &Json, key: &str) -> (r: Json)
    ensures
        r@ == at(j@, key@),
{
    match j.get(key) {
        Some(v) => v.deep_clone(),
        None => Json::Null,
    }
}

/// The view of an optional event.
pub open spec fn opt_event(e: Option<ProxyEvent>) -> Option<ProxyEventV> {
    match e {
        Some(x) => Some(event_view(x)),
        None => None,
    }
}

impl StreamState {
    /// Nothing delivered yet.
    pub fn new() -> (r: StreamState)
        ensures
            state_view(r) == (StreamStateV {
                model: Seq::empty(), input_tokens: 0, output_tokens: 0, cache_read_tokens: None,
                cache_write_tokens: None, content: Seq::empty(), thinking: None, tool_calls: Seq::empty(),
                finish_reason: None, tool_id: Seq::empty(), tool_name: Seq::empty(), tool_json: Seq::empty(),
                block_type: None,
            }),
    {
        let r = StreamState {
            model: String::new(), input_tokens: 0, output_tokens: 0, cache_read_tokens: None,
            cache_write_tokens: None, content: Vec::new(), thinking: None, tool_calls: Vec::new(),
            finish_reason: None, tool_id: String::new(), tool_name: String::new(), tool_json: Vec::new(),
            block_type: None,
        };
        assert(state_view(r).tool_calls =~= Seq::<JsonV>::empty());
        r
    }

    /// Take one stream event; returns the event to forward to the client.
    pub fn on_event(&mut self, event_type: &str, data: &Json) -> (r: Option<ProxyEvent>)
        ensures
            (state_view(*final(self)), opt_event(r)) == spec_on_event(state_view(*old(self)), event_type@, data@),
    {
        let ghost st0 = state_view(*self);
        if str_eq(event_type, "message_start") {
            let msg = at_of(data, "message");
            let usage = at_of(&msg, "usage");
            match get_str(&msg, "model") {
                Some(m) => { self.model = m; }
                None => {}
            }
            let it: i64 = match get_i64(&usage, "input_tokens") {
                Some(v) => v,
                None => 0,
            };
            #[verifier::truncate]
            let it32 = it as i32;
            self.input_tokens = it32;
            self.cache_read_tokens = opt_i32_of(get_i64(&usage, "cache_read_input_tokens"));
            self.cache_write_tokens = opt_i32_of(get_i64(&usage, "cache_creation_input_tokens"));
            None
        } else if str_eq(event_type, "content_block_start") {
            let block = at_of(data, "content_block");
            let bt = match get_str(&block, "type") {
                Some(t) => t,
                None => String::new(),
            };
            if str_eq(bt.as_str(), "tool_use") {
                self.tool_id = match get_str(&block, "id") {
                    Some(x) => x,
                    None => String::new(),
                };
                self.tool_name = match get_str(&block, "name") {
                    Some(x) => x,
                    None => String::new(),
                };
                self.tool_json = Vec::new();
            }
            self.block_type = Some(bt);
            None
        } else if str_eq(event_type, "content_block_delta") {
            let delta = at_of(data, "delta");
            match get_str(&delta, "type") {
                Some(dt) => {
                    if str_eq(dt.as_str(), "thinking_delta") {
                        match get_str(&delta, "thinking") {
                            Some(t) => {
                                let next = match self.thinking.take() {
                                    Some(mut acc) => {
                                        push_chars(&mut acc, t.as_str());
                                        acc
                                    }
                                    None => chars_of(t.as_str()),
                                };
                                assert(Some(next@) == append_part(st0.thinking, t@, Seq::empty()));
                                self.thinking = Some(next);
                                Some(ProxyEvent::Thinking { delta: t })
                            }
                            None => None,
                        }
                    } else if str_eq(dt.as_str(), "text_delta") {
                        match get_str(&delta, "text") {
                            Some(t) => {
                                push_chars(&mut self.content, t.as_str());
                                Some(ProxyEvent::ContentDelta { delta: t })
                            }
                            None => None,
                        }
                    } else if str_eq(dt.as_str(), "input_json_delta") {
                        match get_str(&delta, "partial_json") {
                            Some(j) => {
                                push_chars(&mut self.tool_json, j.as_str());
                                None
                            }
                            None => None,
                        }
                    } else {
                        None
                    }
                }
                None => None,
            }
        } else if str_eq(event_type, "content_block_stop") {
            let is_tool = match &self.block_type {
                Some(b) => str_eq(b.as_str(), "tool_use"),
                None => false,
            };
            self.block_type = None;
            if is_tool {
                let text = string_of(self.tool_json.as_slice());
                let input = match parse_json(text.as_str()) {
                    Some(x) => x,
                    None => empty_obj(),
                };
                let call = openai_tool_call_of(self.tool_id.as_str(), self.tool_name.as_str(), &input);
                let ghost before = self.tool_calls@;
                self.tool_calls.push(call);
                assert(self.tool_calls@.map_values(|x: Json| x@) =~= before.map_values(|x: Json| x@).push(self.tool_calls@.last()@));
                Some(ProxyEvent::ToolCallStart { id: self.tool_id.clone(), name: self.tool_name.clone(), input })
            } else {
                None
            }
        } else if str_eq(event_type, "message_delta") {
            let delta = at_of(data, "delta");
            match get_str(&delta, "stop_reason") {
                Some(sr) => { self.finish_reason = Some(finish_reason_of(sr.as_str())); }
                None => {}
            }
            let usage = at_of(data, "usage");
            match get_i64(&usage, "output_tokens") {
                Some(ot) => {
                    #[verifier::truncate]
                    let ot32 = ot as i32;
                    self.output_tokens = ot32;
                }
                None => {}
            }
            None
        } else {
            None
        }
    }

    /// Take one event block of the stream: blocks without data, or whose
    /// data is not JSON, are skipped; others are taken as events.
    pub fn on_block(&mut self, block: &str) -> (r: Option<ProxyEvent>)
        ensures
            ({
                let ev = spec_parse_block(text_lines(block@));
                let data = str_or(ev.1, Seq::empty());
                if data.len() == 0 || spec_json_parse(data) is None {
                    state_view(*final(self)) == state_view(*old(self)) && r is None
                } else {
                    (state_view(*final(self)), opt_event(r))
                        == spec_on_event(state_view(*old(self)), ev.0, spec_json_parse(data)->0)
                }
            }),
    {
        let ev = parse_block(block);
        if ev.data.as_str().is_empty() {
            return None;
        }
        match parse_json(ev.data.as_str()) {
            Some(data) => self.on_event(ev.event_type.as_str(), &data),
            None => None,
        }
    }

    /// The response the stream delivered: text and thinking joined, tool
    /// calls (`None` when there are none), usage, finish reason and model.
    pub fn finish(self) -> (r: LlmResponse)
        ensures
            r.content@ == state_view(self).content,
            r.role == MessageRole::Assistant,
            r.model@ == self.model@,
            r.input_tokens == self.input_tokens,
            r.output_tokens == self.output_tokens,
            r.cache_read_tokens == self.cache_read_tokens,
            r.cache_write_tokens == self.cache_write_tokens,
            match r.tool_calls {
                Some(tc) => self.tool_calls@.len() > 0 && tc@.map_values(|x: Json| x@) == state_view(self).tool_calls,
                None => self.tool_calls@.len() == 0,
            },
            opt_str(r.finish_reason) == state_view(self).finish_reason,
            opt_str(r.thinking) == state_view(self).thinking,
    {
        let thinking = match &self.thinking {
            Some(t) => Some(string_of(t.as_slice())),
            None => None,
        };
        let tool_calls = if self.tool_calls.len() == 0 { None } else { Some(self.tool_calls) };
        LlmResponse {
            content: string_of(self.content.as_slice()),
            role: MessageRole::Assistant,
            model: self.model,
            input_tokens: self.input_tokens,
            output_tokens: self.output_tokens,
            cache_read_tokens: self.cache_read_tokens,
            cache_write_tokens: self.cache_write_tokens,
            tool_calls,
            finish_reason: self.finish_reason,
            thinking,
        }
    }
}


// ── Streaming a response that was not streamed ──────────────────

/// The events forwarded for a whole response when the backend answers
/// without streaming: its thinking, if any, then its text, if not empty.
pub open spec fn spec_fallback_events(thinking: Option<Seq<char>>, content: Seq<char>) -> Seq<ProxyEventV> {
    let t = match thinking {
        Some(d) => seq![ProxyEventV::Thinking { delta: d }],
        None => Seq::empty(),
    };
    if content.len() > 0 { t.push(ProxyEventV::ContentDelta { delta: content }) } else { t }
}

/// The events to forward for a whole response: its thinking, if any, then
/// its text, if not empty.
pub fn fallback_events(response: &LlmResponse) -> (r: Vec<ProxyEvent>)
    ensures
        r@.map_values(|e: ProxyEvent| event_view(e)) == spec_fallback_events(opt_str(response.thinking), response.content@),
{
    let mut out: Vec<ProxyEvent> = Vec::new();
    match &response.thinking {
        Some(t) => out.push(ProxyEvent::Thinking { delta: t.clone() }),
        None => {},
    }
    if !response.content.as_str().is_empty() {
        out.push(ProxyEvent::ContentDelta { delta: response.content.clone() });
    }
    assert(out@.map_values(|e: ProxyEvent| event_view(e)) =~= spec_fallback_events(opt_str(response.thinking), response.content@));
    out
}


// ── Laws of message building ────────────────────────────────────

/// The number of messages that are not system messages.
pub open spec fn non_system_count(msgs: Seq<MessageV>) -> nat
    decreases msgs.len(),
{
    if msgs.len() == 0 {
        0
    } else {
        non_system_count(msgs.drop_last()) + if msgs.last().role == MessageRole::System { 0nat } else { 1nat }
    }
}

/// The content of the last system message, if there is one.
pub open spec fn last_system(msgs: Seq<MessageV>) -> Option<JsonV>
    decreases msgs.len(),
{
    if msgs.len() == 0 {
        None
    } else if msgs.last().role == MessageRole::System {
        Some(msgs.last().content)
    } else {
        last_system(msgs.drop_last())
    }
}

/// The role a converted message is sent with.
pub open spec fn sent_role(m: JsonV) -> Option<Seq<char>> {
    jget_str(m, "role"@)
}

/// Building the Anthropic messages drops exactly the system messages: one
/// message goes out per non-system message, none of them with the role
/// `system`; the system prompt is the last system message's content, else
/// the extra parameters' non-empty `system`, else none.
pub proof fn lemma_build_messages_law(msgs: Seq<MessageV>, extra: JsonV)
    ensures
        spec_build_messages(msgs, extra).1.len() == non_system_count(msgs),
        forall|i: int| 0 <= i < spec_build_messages(msgs, extra).1.len()
            ==> sent_role(#[trigger] spec_build_messages(msgs, extra).1[i]) != Some("system"@),
        spec_build_messages(msgs, extra).0 == match last_system(msgs) {
            Some(c) => Some(c),
            None => extra_system(extra),
        },
    decreases msgs.len(),
{
    if msgs.len() > 0 {
        let rest = msgs.drop_last();
        lemma_build_messages_law(rest, extra);
        let prev = spec_build_messages(rest, extra);
        let cur = spec_build_messages(msgs, extra);
        let m = msgs.last();
        reveal_with_fuel(crate::json::obj_lookup, 2);
        reveal_strlit("system");
        reveal_strlit("user");
        reveal_strlit("assistant");
        reveal_strlit("tool");
        assert("user"@ != "system"@) by { assert("user"@[0] != "system"@[0]); }
        assert("assistant"@ != "system"@) by { assert("assistant"@[0] != "system"@[0]); }
        assert("tool"@ != "system"@) by { assert("tool"@[0] != "system"@[0]); }
        assert forall|i: int| 0 <= i < cur.1.len() implies sent_role(#[trigger] cur.1[i]) != Some("system"@) by {
            if i < prev.1.len() {
                assert(cur.1[i] == prev.1[i]);
            }
        }
    }
}

// ── Laws of stream assembly ─────────────────────────────────────

/// The state after a sequence of stream events (type and data), and the
/// events forwarded to the client, in order.
pub open spec fn stream_run(st: StreamStateV, evs: Seq<(Seq<char>, JsonV)>) -> (StreamStateV, Seq<ProxyEventV>)
    decreases evs.len(),
{
    if evs.len() == 0 {
        (st, Seq::empty())
    } else {
        let prev = stream_run(st, evs.drop_last());
        let step = spec_on_event(prev.0, evs.last().0, evs.last().1);
        (step.0, match step.1 {
            Some(x) => prev.1.push(x),
            None => prev.1,
        })
    }
}

/// The text of forwarded events, concatenated.
pub open spec fn forwarded_text(es: Seq<ProxyEventV>) -> Seq<char>
    decreases es.len(),
{
    if es.len() == 0 {
        Seq::empty()
    } else {
        forwarded_text(es.drop_last()) + match es.last() {
            ProxyEventV::ContentDelta { delta } => delta,
            _ => Seq::empty(),
        }
    }
}

/// The thinking of forwarded events, joined onto `acc`.
pub open spec fn forwarded_thinking(acc: Option<Seq<char>>, es: Seq<ProxyEventV>) -> Option<Seq<char>>
    decreases es.len(),
{
    if es.len() == 0 {
        acc
    } else {
        let prev = forwarded_thinking(acc, es.drop_last());
        match es.last() {
            ProxyEventV::Thinking { delta } => append_part(prev, delta, Seq::empty()),
            _ => prev,
        }
    }
}

/// The OpenAI tool calls of forwarded tool-call events, in order.
pub open spec fn forwarded_calls(es: Seq<ProxyEventV>) -> Seq<JsonV>
    decreases es.len(),
{
    if es.len() == 0 {
        Seq::empty()
    } else {
        forwarded_calls(es.drop_last()) + match es.last() {
            ProxyEventV::ToolCallStart { id, name, input } => seq![openai_tool_call(id, name, input)],
            _ => Seq::empty(),
        }
    }
}

/// What a stream accumulates is what it forwarded, in the same order: over
/// any sequence of events, the text is the text deltas sent, the thinking
/// the thinking deltas sent (none when none came), and the tool calls one
/// per tool-call event sent.
pub proof fn lemma_stream_accumulates_forwarded(st: StreamStateV, evs: Seq<(Seq<char>, JsonV)>)
    ensures
        stream_run(st, evs).0.content == st.content + forwarded_text(stream_run(st, evs).1),
        stream_run(st, evs).0.thinking == forwarded_thinking(st.thinking, stream_run(st, evs).1),
        stream_run(st, evs).0.tool_calls == st.tool_calls + forwarded_calls(stream_run(st, evs).1),
    decreases evs.len(),
{
    if evs.len() == 0 {
        assert(st.content + Seq::<char>::empty() =~= st.content);
        assert(st.tool_calls + Seq::<JsonV>::empty() =~= st.tool_calls);
    } else {
        lemma_stream_accumulates_forwarded(st, evs.drop_last());
        let prev = stream_run(st, evs.drop_last());
        let step = spec_on_event(prev.0, evs.last().0, evs.last().1);
        let out = stream_run(st, evs).1;
        match step.1 {
            Some(x) => {
                assert(out == prev.1.push(x));
                assert(out.drop_last() =~= prev.1);
                match x {
                    ProxyEventV::ContentDelta { delta } => {
                        assert(step.0.content == prev.0.content + delta);
                        assert(step.0.tool_calls == prev.0.tool_calls);
                        assert(step.0.content =~= st.content + forwarded_text(out));
                        assert(step.0.tool_calls =~= st.tool_calls + forwarded_calls(out));
                    },
                    ProxyEventV::Thinking { delta } => {
                        assert(step.0.content == prev.0.content);
                        assert(step.0.content =~= st.content + forwarded_text(out));
                        assert(step.0.tool_calls =~= st.tool_calls + forwarded_calls(out));
                    },
                    ProxyEventV::ToolCallStart { id, name, input } => {
                        assert(step.0.content == prev.0.content);
                        assert(step.0.content =~= st.content + forwarded_text(out));
                        assert(step.0.tool_calls =~= st.tool_calls + forwarded_calls(out));
                    },
                }
            },
            None => {
                assert(step.0.content == prev.0.content);
                assert(step.0.thinking == prev.0.thinking);
                assert(step.0.tool_calls == prev.0.tool_calls);
            },
        }
    }
}
} // verus!
