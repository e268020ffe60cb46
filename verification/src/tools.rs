//! Built-in agent tools: their names, descriptions and input schemas, the
//! checks they make on their input, and the results they hand back to the
//! model. The network and database work of a tool is done by its caller
//! between these steps.

use vstd::prelude::*;
use crate::error::CasperError;
use crate::json::{Json, JsonV, jget, jget_str, jget_i64, jget_u64, jobj1, jobj2, jobj3, jobj4, jempty_array, jarray, jstring};
use crate::prompt::{estimate_tokens, spec_estimate_tokens};
use crate::anthropic::{trim_slashes, trim_trailing_slashes};
use crate::knowledge::{trim, trim_chars};
use crate::text::{chars_of, concat_str, concat3, has_prefix, i64_text, spec_decimal, spec_int_text, starts_with, str_eq, string_of, u64_text,
    strip_prefix_chars, str_less, str_lt, lemma_str_lt_total, lemma_str_lt_transitive};
use crate::types::{spec_uuid_text, uuid_text};

verus! {

/// The result returned by a tool execution.
pub struct ToolResult {
    /// The content payload returned to the model.
    pub content: Json,
    /// Whether this result represents an error.
    pub is_error: bool,
}

impl ToolResult {
    /// A successful result.
    pub fn ok(content: Json) -> (r: ToolResult)
        ensures
            r.content@ == content@,
            !r.is_error,
    {
        ToolResult { content, is_error: false }
    }

    /// An error result carrying `message` as a string.
    pub fn error(message: &str) -> (r: ToolResult)
        ensures
            r.content@ == JsonV::Str(message@),
            r.is_error,
    {
        ToolResult { content: jstring(message), is_error: true }
    }
}

/// What every tool, built-in or custom, tells the model about itself: its
/// unique name, its description and the JSON Schema of its input. Running a
/// tool is up to its caller. A tool states its three values in the spec
/// functions; each has a default, so that an unverified tool compiles, and a
/// verified one overrides all three.
pub trait Tool {
    /// The tool's name.
    open spec fn tool_name(&self) -> Seq<char> {
        Seq::empty()
    }

    /// The tool's description.
    open spec fn tool_description(&self) -> Seq<char> {
        Seq::empty()
    }

    /// The JSON Schema of the tool's input.
    open spec fn tool_schema(&self) -> JsonV {
        JsonV::Null
    }

    /// The unique name of the tool, used in the model's tool definitions.
    fn name(&self) -> (r: &str)
        ensures
            r@ == self.tool_name();

    /// Human-readable description for the model.
    fn description(&self) -> (r: &str)
        ensures
            r@ == self.tool_description();

    /// JSON Schema describing the tool's input parameters.
    fn parameters_schema(&self) -> (r: Json)
        ensures
            r@ == self.tool_schema();
}

// ── Input schemas ───────────────────────────────────────────────

/// `{"type": ty, "description": description}`.
pub open spec fn typed_prop(ty: Seq<char>, description: Seq<char>) -> JsonV {
    JsonV::Object(seq![("type"@, JsonV::Str(ty)), ("description"@, JsonV::Str(description))])
}

/// An object schema with these properties and required names.
pub open spec fn object_schema(props: Seq<(Seq<char>, JsonV)>, required: Seq<Seq<char>>) -> JsonV {
    JsonV::Object(seq![
        ("type"@, JsonV::Str("object"@)),
        ("properties"@, JsonV::Object(props)),
        ("required"@, JsonV::Array(required.map_values(|s: Seq<char>| JsonV::Str(s)))),
    ])
}

/// A schema of one required string property.
pub open spec fn one_string_schema(name: Seq<char>, description: Seq<char>) -> JsonV {
    object_schema(seq![(name, typed_prop("string"@, description))], seq![name])
}

/// `{"type": ty, "description": description}`.
fn typed_prop_json(ty: &str, description: &str) -> (r: Json)
    ensures
        r@ == typed_prop(ty@, description@),
{
    proof { reveal_strlit("type"); reveal_strlit("description"); }
    jobj2("type", jstring(ty), "description", jstring(description))
}

/// An object schema with these properties and required names.
fn object_schema_json(props: Vec<(String, Json)>, required: Vec<String>) -> (r: Json)
    ensures
        r@ == object_schema(props@.map_values(|e: (String, Json)| (e.0@, e.1@)), required@.map_values(|s: String| s@)),
{
    let ghost rv = required@.map_values(|s: String| s@);
    let mut req: Vec<Json> = Vec::new();
    let mut i: usize = 0;
    while i < required.len()
        invariant
            i <= required.len(),
            req.len() == i,
            forall|k: int| 0 <= k < i ==> (#[trigger] req@[k])@ == JsonV::Str(required@[k]@),
        decreases required.len() - i,
    {
        req.push(Json::Str(required[i].clone()));
        i += 1;
    }
    let reqj = jarray(req);
    assert(req@.map_values(|x: Json| x@) =~= rv.map_values(|s: Seq<char>| JsonV::Str(s)));
    let propj = crate::json::jobject(props);
    jobj3("type", jstring("object"), "properties", propj, "required", reqj)
}

/// A schema of one required string property.
fn one_string_schema_json(name: &str, description: &str) -> (r: Json)
    ensures
        r@ == one_string_schema(name@, description@),
{
    let mut props: Vec<(String, Json)> = Vec::new();
    props.push((name.to_string(), typed_prop_json("string", description)));
    let mut req: Vec<String> = Vec::new();
    req.push(name.to_string());
    let ghost pv = props@;
    let ghost qv = req@;
    let r = object_schema_json(props, req);
    assert(pv.map_values(|e: (String, Json)| (e.0@, e.1@)) =~= seq![(name@, typed_prop("string"@, description@))]);
    assert(qv.map_values(|s: String| s@) =~= seq![name@]);
    r
}

/// The member `key` of `input` as a string, or the `BadRequest` that a tool
/// answers when it is missing: `missing '<key>' string`.
pub fn required_string(input: &Json, key: &str) -> (r: Result<String, CasperError>)
    ensures
        jget_str(input@, key@) matches Some(s) ==> (r matches Ok(v) && v@ == s),
        jget_str(input@, key@) is None ==> (r matches Err(CasperError::BadRequest(m))
            && m@ == "missing '"@ + key@ + "' string"@),
{
    match input.get(key) {
        Some(v) => match v.as_str() {
            Some(s) => Ok(s.clone()),
            None => Err(CasperError::BadRequest(concat3("missing '", key, "' string"))),
        },
        None => Err(CasperError::BadRequest(concat3("missing '", key, "' string"))),
    }
}

// ── ask_user ────────────────────────────────────────────────────

/// Built-in tool that asks the user a question and pauses for a response.
/// The engine checks for `__ask_user__: true` in the result.
pub struct AskUserTool;

/// The schema of `ask_user`'s input.
pub open spec fn ask_user_schema() -> JsonV {
    object_schema(seq![
        ("question"@, typed_prop("string"@, "The question to ask the user."@)),
        ("options"@, JsonV::Object(seq![
            ("type"@, JsonV::Str("array"@)),
            ("items"@, JsonV::Object(seq![("type"@, JsonV::Str("string"@))])),
            ("description"@, JsonV::Str("Optional list of choices for the user to pick from."@)),
        ])),
    ], seq!["question"@])
}

/// The sentinel `ask_user` returns: the question and the options given
/// (an empty array when none were).
pub open spec fn ask_user_sentinel(question: Seq<char>, options: JsonV) -> JsonV {
    JsonV::Object(seq![
        ("__ask_user__"@, JsonV::Bool(true)),
        ("question"@, JsonV::Str(question)),
        ("options"@, options),
    ])
}

impl AskUserTool {
    /// Ask the user: a `question` string is required; the sentinel carries
    /// it with the `options` given.
    pub fn execute(&self, input: &Json) -> (r: Result<ToolResult, CasperError>)
        ensures
            jget_str(input@, "question"@) matches Some(q) ==> (r matches Ok(t) && !t.is_error
                && t.content@ == ask_user_sentinel(q, match jget(input@, "options"@) {
                    Some(o) => o,
                    None => JsonV::Array(Seq::empty()),
                })),
            jget_str(input@, "question"@) is None ==> (r matches Err(CasperError::BadRequest(m))
                && m@ == "missing 'question' string"@),
    {
        proof { reveal_strlit("question"); reveal_strlit("missing '"); reveal_strlit("' string"); reveal_strlit("missing 'question' string"); }
        let question = match required_string(input, "question") {
            Ok(q) => q,
            Err(e) => {
                assert("missing '"@ + "question"@ + "' string"@ =~~= "missing 'question' string"@);
                return Err(e);
            }
        };
        let options = match input.get("options") {
            Some(o) => o.deep_clone(),
            None => jempty_array(),
        };
        let content = jobj3("__ask_user__", Json::Bool(true), "question", Json::Str(question), "options", options);
        Ok(ToolResult::ok(content))
    }
}

impl Tool for AskUserTool {
    open spec fn tool_name(&self) -> Seq<char> {
        "ask_user"@
    }

    open spec fn tool_description(&self) -> Seq<char> {
        "Ask the user a question when you need clarification or a decision. You may provide a list of options for the user to choose from."@
    }

    open spec fn tool_schema(&self) -> JsonV {
        ask_user_schema()
    }

    /// The tool's name.
    fn name(&self) -> (r: &str)
    {
        "ask_user"
    }

    /// The tool's description for the model.
    fn description(&self) -> (r: &str)
    {
        "Ask the user a question when you need clarification or a decision. You may provide a list of options for the user to choose from."
    }

    /// JSON Schema of the tool's input.
    fn parameters_schema(&self) -> (r: Json)
    {
        let opts = jobj3("type", jstring("array"), "items", jobj1("type", jstring("string")),
            "description", jstring("Optional list of choices for the user to pick from."));
        let mut props: Vec<(String, Json)> = Vec::new();
        props.push(("question".to_string(), typed_prop_json("string", "The question to ask the user.")));
        props.push(("options".to_string(), opts));
        let mut req: Vec<String> = Vec::new();
        req.push("question".to_string());
        let ghost pv = props@;
        let ghost qv = req@;
        let r = object_schema_json(props, req);
        proof {
            reveal_strlit("type"); reveal_strlit("items"); reveal_strlit("description"); reveal_strlit("question");
            reveal_strlit("options"); reveal_strlit("array"); reveal_strlit("string");
        }
        assert(pv.map_values(|e: (String, Json)| (e.0@, e.1@)) =~= seq![
            ("question"@, typed_prop("string"@, "The question to ask the user."@)),
            ("options"@, JsonV::Object(seq![
                ("type"@, JsonV::Str("array"@)),
                ("items"@, JsonV::Object(seq![("type"@, JsonV::Str("string"@))])),
                ("description"@, JsonV::Str("Optional list of choices for the user to pick from."@)),
            ])),
        ]);
        assert(qv.map_values(|s: String| s@) =~= seq!["question"@]);
        r
    }
}

// ── delegate ────────────────────────────────────────────────────

/// Built-in tool that delegates a task to another agent. Returns a sentinel
/// that the engine intercepts to run the child agent.
pub struct DelegateTool;

/// The schema of `delegate`'s input.
pub open spec fn delegate_schema() -> JsonV {
    object_schema(seq![
        ("agent"@, typed_prop("string"@, "The name of the agent to delegate to."@)),
        ("message"@, typed_prop("string"@, "The message or task to send to the other agent."@)),
    ], seq!["agent"@, "message"@])
}

/// The sentinel `delegate` returns.
pub open spec fn delegate_sentinel(agent: Seq<char>, message: Seq<char>) -> JsonV {
    JsonV::Object(seq![
        ("__delegate__"@, JsonV::Bool(true)),
        ("agent"@, JsonV::Str(agent)),
        ("message"@, JsonV::Str(message)),
    ])
}

impl DelegateTool {
    /// Delegate: `agent` and `message` strings are required.
    pub fn execute(&self, input: &Json) -> (r: Result<ToolResult, CasperError>)
        ensures
            jget_str(input@, "agent"@) is None ==> (r matches Err(CasperError::BadRequest(m))
                && m@ == "missing 'agent' string"@),
            jget_str(input@, "agent"@) is Some && jget_str(input@, "message"@) is None
                ==> (r matches Err(CasperError::BadRequest(m)) && m@ == "missing 'message' string"@),
            jget_str(input@, "agent"@) is Some && jget_str(input@, "message"@) is Some
                ==> (r matches Ok(t) && !t.is_error && t.content@ == delegate_sentinel(
                    jget_str(input@, "agent"@)->0, jget_str(input@, "message"@)->0)),
    {
        proof {
            reveal_strlit("agent"); reveal_strlit("message"); reveal_strlit("missing '"); reveal_strlit("' string");
            reveal_strlit("missing 'agent' string"); reveal_strlit("missing 'message' string");
        }
        let agent = match required_string(input, "agent") {
            Ok(a) => a,
            Err(e) => {
                assert("missing '"@ + "agent"@ + "' string"@ =~~= "missing 'agent' string"@);
                return Err(e);
            }
        };
        let message = match required_string(input, "message") {
            Ok(m) => m,
            Err(e) => {
                assert("missing '"@ + "message"@ + "' string"@ =~~= "missing 'message' string"@);
                return Err(e);
            }
        };
        let content = jobj3("__delegate__", Json::Bool(true), "agent", Json::Str(agent), "message", Json::Str(message));
        Ok(ToolResult::ok(content))
    }
}

impl Tool for DelegateTool {
    open spec fn tool_name(&self) -> Seq<char> {
        "delegate"@
    }

    open spec fn tool_description(&self) -> Seq<char> {
        "Delegate a task to another agent. The specified agent will receive your message and respond. Use this when a task is better handled by a specialized agent."@
    }

    open spec fn tool_schema(&self) -> JsonV {
        delegate_schema()
    }

    /// The tool's name.
    fn name(&self) -> (r: &str)
    {
        "delegate"
    }

    /// The tool's description for the model.
    fn description(&self) -> (r: &str)
    {
        "Delegate a task to another agent. The specified agent will receive your message and respond. Use this when a task is better handled by a specialized agent."
    }

    /// JSON Schema of the tool's input.
    fn parameters_schema(&self) -> (r: Json)
    {
        let mut props: Vec<(String, Json)> = Vec::new();
        props.push(("agent".to_string(), typed_prop_json("string", "The name of the agent to delegate to.")));
        props.push(("message".to_string(), typed_prop_json("string", "The message or task to send to the other agent.")));
        let mut req: Vec<String> = Vec::new();
        req.push("agent".to_string());
        req.push("message".to_string());
        let ghost pv = props@;
        let ghost qv = req@;
        let r = object_schema_json(props, req);
        proof { reveal_strlit("agent"); reveal_strlit("message"); }
        assert(pv.map_values(|e: (String, Json)| (e.0@, e.1@)) =~= seq![
            ("agent"@, typed_prop("string"@, "The name of the agent to delegate to."@)),
            ("message"@, typed_prop("string"@, "The message or task to send to the other agent."@)),
        ]);
        assert(qv.map_values(|s: String| s@) =~= seq!["agent"@, "message"@]);
        r
    }
}

// ── update_memory ───────────────────────────────────────────────

/// Built-in tool that lets an agent update its own memory document.
pub struct UpdateMemoryTool {
    /// Maximum tokens allowed for the memory document.
    pub max_document_tokens: i32,
}

/// What `update_memory` does with its input: write the content (with its
/// estimated token count), or answer with a result and write nothing.
pub enum MemoryWrite {
    Write { content: String, token_count: i32 },
    Refused(ToolResult),
}

/// The member `key` of `config` as an `i64`, else `default`, cast to `i32`.
pub open spec fn config_i32(config: JsonV, key: Seq<char>, default: i64) -> i32 {
    (match jget_i64(config, key) {
        Some(v) => v,
        None => default,
    }) as i32
}

/// The member `key` of `config` as an `i64`, else `default`, cast to `i32`.
pub fn config_i32_of(config: &Json, key: &str, default: i64) -> (r: i32)
    ensures
        r == config_i32(config@, key@, default),
{
    let v: i64 = match config.get(key) {
        Some(x) => match x.as_i64() {
            Some(v) => v,
            None => default,
        },
        None => default,
    };
    #[verifier::truncate]
    (v as i32)
}

/// The schema of `update_memory`'s input.
pub open spec fn update_memory_schema() -> JsonV {
    one_string_schema("content"@, "The new memory document content (replaces the current memory)."@)
}

/// The message of a refused memory document.
pub open spec fn memory_too_large_message(tokens: i32, limit: i32) -> Seq<char> {
    "Memory document too large: "@ + spec_int_text(tokens as int) + " tokens exceeds limit of "@ + spec_int_text(limit as int)
}

/// The result of a written memory document.
pub open spec fn memory_written(version: i32, token_count: i32) -> JsonV {
    JsonV::Object(seq![
        ("status"@, JsonV::Str("ok"@)),
        ("version"@, JsonV::Int(version as i64)),
        ("token_count"@, JsonV::Int(token_count as i64)),
    ])
}

impl UpdateMemoryTool {
    /// A tool with this token limit.
    pub fn new(max_document_tokens: i32) -> (r: UpdateMemoryTool)
        ensures
            r.max_document_tokens == max_document_tokens,
    {
        UpdateMemoryTool { max_document_tokens }
    }

    /// Construct from a tools-config entry: `max_document_tokens`, default 4000.
    pub fn from_config(config: &Json) -> (r: UpdateMemoryTool)
        ensures
            r.max_document_tokens == config_i32(config@, "max_document_tokens"@, 4000),
    {
        UpdateMemoryTool { max_document_tokens: config_i32_of(config, "max_document_tokens", 4000) }
    }

    /// Check the input: a `content` string is required, and a document whose
    /// estimated token count exceeds the limit is refused with an error result.
    pub fn check(&self, input: &Json) -> (r: Result<MemoryWrite, CasperError>)
        ensures
            jget_str(input@, "content"@) is None ==> (r matches Err(CasperError::BadRequest(m))
                && m@ == "missing 'content' string"@),
            jget_str(input@, "content"@) matches Some(c) ==> (r is Ok && (
                if spec_estimate_tokens(c) > self.max_document_tokens {
                    (r matches Ok(MemoryWrite::Refused(t)) && t.is_error
                        && t.content@ == JsonV::Str(memory_too_large_message(spec_estimate_tokens(c), self.max_document_tokens)))
                } else {
                    (r matches Ok(MemoryWrite::Write { content, token_count }) && content@ == c
                        && token_count == spec_estimate_tokens(c))
                })),
    {
        proof {
            reveal_strlit("content"); reveal_strlit("missing '"); reveal_strlit("' string");
            reveal_strlit("missing 'content' string");
        }
        let content = match required_string(input, "content") {
            Ok(c) => c,
            Err(e) => {
                assert("missing '"@ + "content"@ + "' string"@ =~~= "missing 'content' string"@);
                return Err(e);
            }
        };
        let token_count = estimate_tokens(content.as_str());
        if token_count > self.max_document_tokens {
            let m1 = concat_str("Memory document too large: ", &i64_text(token_count as i64));
            let m2 = concat3(&m1, " tokens exceeds limit of ", &i64_text(self.max_document_tokens as i64));
            return Ok(MemoryWrite::Refused(ToolResult::error(m2.as_str())));
        }
        Ok(MemoryWrite::Write { content, token_count })
    }

    /// The result of a written memory document.
    pub fn written(version: i32, token_count: i32) -> (r: ToolResult)
        ensures
            !r.is_error,
            r.content@ == memory_written(version, token_count),
    {
        let content = jobj3("status", jstring("ok"), "version", Json::Int(version as i64),
            "token_count", Json::Int(token_count as i64));
        ToolResult::ok(content)
    }

    /// The version a memory document gets when it is written: one more than
    /// the current version, or 1 for the first document.
    pub fn next_version(current: Option<i32>) -> (r: i32)
        requires
            current != Some(i32::MAX),
        ensures
            r == match current {
                Some(v) => v + 1,
                None => 1,
            },
    {
        match current {
            Some(v) => v + 1,
            None => 1,
        }
    }
}

impl Tool for UpdateMemoryTool {
    open spec fn tool_name(&self) -> Seq<char> {
        "update_memory"@
    }

    open spec fn tool_description(&self) -> Seq<char> {
        "Update this agent's memory document. The old content is preserved in history. Use this to remember important facts, decisions, or context across conversations."@
    }

    open spec fn tool_schema(&self) -> JsonV {
        update_memory_schema()
    }

    /// The tool's name.
    fn name(&self) -> (r: &str)
    {
        "update_memory"
    }

    /// The tool's description for the model.
    fn description(&self) -> (r: &str)
    {
        "Update this agent's memory document. The old content is preserved in history. Use this to remember important facts, decisions, or context across conversations."
    }

    /// JSON Schema of the tool's input.
    fn parameters_schema(&self) -> (r: Json)
    {
        one_string_schema_json("content", "The new memory document content (replaces the current memory).")
    }
}

/// An MCP call result whose content is text blocks reaches the model as
/// those texts joined by line breaks; one with no text block reaches it as
/// the raw result.
pub proof fn lemma_mcp_result_text(t1: Seq<char>, t2: Seq<char>, other: JsonV)
    ensures
        mcp_content(JsonV::Object(seq![("content"@, JsonV::Array(seq![
            JsonV::Object(seq![("type"@, JsonV::Str("text"@)), ("text"@, JsonV::Str(t1))]),
            JsonV::Object(seq![("type"@, JsonV::Str("text"@)), ("text"@, JsonV::Str(t2))]),
        ]))])) == JsonV::Str(t1 + "\n"@ + t2),
        mcp_content(JsonV::Object(seq![("content"@, JsonV::Array(Seq::empty())), ("extra"@, other)]))
            == JsonV::Object(seq![("content"@, JsonV::Array(Seq::empty())), ("extra"@, other)]),
{
    reveal_with_fuel(crate::json::obj_lookup, 3);
    reveal_strlit("type");
    reveal_strlit("text");
    assert("type"@ != "text"@) by { assert("type"@[1] != "text"@[1]); }
    let b1 = JsonV::Object(seq![("type"@, JsonV::Str("text"@)), ("text"@, JsonV::Str(t1))]);
    let b2 = JsonV::Object(seq![("type"@, JsonV::Str("text"@)), ("text"@, JsonV::Str(t2))]);
    let blocks = seq![b1, b2];
    assert(blocks.drop_last() =~= seq![b1]);
    assert(seq![b1].drop_last() =~= Seq::<JsonV>::empty());
    assert(mcp_texts(seq![b1]) =~= seq![t1]);
    assert(mcp_texts(blocks) =~= seq![t1, t2]);
    assert(seq![t1, t2].drop_last() =~= seq![t1]);
    assert(join_lines(seq![t1]) == t1);
    assert(join_lines(seq![t1, t2]) == t1 + "\n"@ + t2);
    let res = JsonV::Object(seq![("content"@, JsonV::Array(blocks))]);
    assert(crate::json::jget_arr(res, "content"@) == Some(blocks));
}

/// The version a memory document has after `n` writes, starting from
/// `current` (none when it was never written).
pub open spec fn version_after(current: Option<i32>, n: nat) -> int
    decreases n,
{
    if n == 0 {
        match current {
            Some(v) => v as int,
            None => 0,
        }
    } else {
        version_after(current, (n - 1) as nat) + 1
    }
}

/// Memory versions count writes: a document written `n` times from none has
/// version `n`, and each write is one version past the last.
pub proof fn lemma_memory_versions_count(n: nat)
    ensures
        version_after(None, n) == n,
        n > 0 ==> version_after(None, n) == version_after(None, (n - 1) as nat) + 1,
    decreases n,
{
    if n > 0 {
        lemma_memory_versions_count((n - 1) as nat);
    }
}

// ── web_fetch ───────────────────────────────────────────────────

/// Built-in tool that fetches a URL via HTTP GET, within a timeout and a
/// size limit.
pub struct WebFetchTool {
    /// Request timeout in seconds.
    pub timeout_secs: u64,
    /// Maximum response body size in bytes.
    pub max_response_bytes: usize,
}

/// The message of a response over the size limit.
pub open spec fn too_large_message(size: nat, limit: nat) -> Seq<char> {
    "Response too large: "@ + spec_decimal(size) + " bytes exceeds limit of "@ + spec_decimal(limit) + " bytes"@
}

/// The result of a fetched page.
pub open spec fn fetched_json(status: u16, url: Seq<char>, body: Seq<char>, bytes: usize) -> JsonV {
    JsonV::Object(seq![
        ("status"@, JsonV::Int(status as i64)),
        ("url"@, JsonV::Str(url)),
        ("content"@, JsonV::Str(body)),
        ("bytes"@, if bytes <= i64::MAX { JsonV::Int(bytes as i64) } else { JsonV::UInt(bytes as u64) }),
    ])
}

impl WebFetchTool {
    /// A tool with this timeout and size limit.
    pub fn new(timeout_secs: u64, max_response_bytes: usize) -> (r: WebFetchTool)
        ensures
            r.timeout_secs == timeout_secs,
            r.max_response_bytes == max_response_bytes,
    {
        WebFetchTool { timeout_secs, max_response_bytes }
    }

    /// Construct from a tools-config entry: `timeout_secs` (default 30) and
    /// `max_response_bytes` (default 1 MiB).
    pub fn from_config(config: &Json) -> (r: WebFetchTool)
        ensures
            r.timeout_secs == (match jget_u64(config@, "timeout_secs"@) { Some(t) => t, None => 30 }),
            r.max_response_bytes == (match jget_u64(config@, "max_response_bytes"@) { Some(m) => m, None => 1_048_576 }) as usize,
    {
        let t = match config.get("timeout_secs") {
            Some(v) => match v.as_u64() { Some(x) => x, None => 30 },
            None => 30,
        };
        let m: u64 = match config.get("max_response_bytes") {
            Some(v) => match v.as_u64() { Some(x) => x, None => 1_048_576 },
            None => 1_048_576,
        };
        #[verifier::truncate]
        let mb = m as usize;
        WebFetchTool { timeout_secs: t, max_response_bytes: mb }
    }

    /// Check the input: a `url` string is required, and it must be an
    /// `http://` or `https://` URL (else an error result).
    pub fn check_url(&self, input: &Json) -> (r: Result<Result<String, ToolResult>, CasperError>)
        ensures
            jget_str(input@, "url"@) is None ==> (r matches Err(CasperError::BadRequest(m)) && m@ == "missing 'url' string"@),
            jget_str(input@, "url"@) matches Some(u) ==> (
                if has_prefix(u, "http://"@) || has_prefix(u, "https://"@) {
                    r matches Ok(Ok(x)) && x@ == u
                } else {
                    r matches Ok(Err(t)) && t.is_error && t.content@ == JsonV::Str("URL must start with http:// or https://"@)
                }),
    {
        proof { reveal_strlit("url"); reveal_strlit("missing '"); reveal_strlit("' string"); reveal_strlit("missing 'url' string"); }
        let url = match required_string(input, "url") {
            Ok(u) => u,
            Err(e) => {
                assert("missing '"@ + "url"@ + "' string"@ =~= "missing 'url' string"@);
                return Err(e);
            }
        };
        if !starts_with(url.as_str(), "http://") && !starts_with(url.as_str(), "https://") {
            return Ok(Err(ToolResult::error("URL must start with http:// or https://")));
        }
        Ok(Ok(url))
    }

    /// The error result of a failed HTTP status.
    pub fn status_error(status: u16, url: &str) -> (r: ToolResult)
        ensures
            r.is_error,
            r.content@ == JsonV::Str("HTTP "@ + spec_decimal(status as nat) + " fetching "@ + url@),
    {
        let a = concat3("HTTP ", &u64_text(status as u64), " fetching ");
        ToolResult::error(concat_str(&a, url).as_str())
    }

    /// The error result of a response larger than the limit, if it is.
    pub fn size_check(&self, size: usize) -> (r: Option<ToolResult>)
        ensures
            size <= self.max_response_bytes ==> r is None,
            size > self.max_response_bytes ==> (r matches Some(t) && t.is_error
                && t.content@ == JsonV::Str(too_large_message(size as nat, self.max_response_bytes as nat))),
    {
        if size > self.max_response_bytes {
            let a = concat3("Response too large: ", &u64_text(size as u64), " bytes exceeds limit of ");
            let b = concat3(&a, &u64_text(self.max_response_bytes as u64), " bytes");
            Some(ToolResult::error(b.as_str()))
        } else {
            None
        }
    }

    /// The result of a fetched page: status, URL, body text and byte count.
    pub fn fetched(status: u16, url: &str, body: String, bytes: usize) -> (r: ToolResult)
        ensures
            !r.is_error,
            r.content@ == fetched_json(status, url@, body@, bytes),
    {
        let b = if bytes as u64 <= i64::MAX as u64 { Json::Int(bytes as i64) } else { Json::UInt(bytes as u64) };
        let content = jobj4("status", Json::Int(status as i64), "url", jstring(url), "content", Json::Str(body), "bytes", b);
        ToolResult::ok(content)
    }
}

impl Tool for WebFetchTool {
    open spec fn tool_name(&self) -> Seq<char> {
        "web_fetch"@
    }

    open spec fn tool_description(&self) -> Seq<char> {
        "Fetch the content of a web page by URL. Returns the response body as text. Respects timeout and size limits."@
    }

    open spec fn tool_schema(&self) -> JsonV {
        one_string_schema("url"@, "The URL to fetch."@)
    }

    /// The tool's name.
    fn name(&self) -> (r: &str)
    {
        "web_fetch"
    }

    /// The tool's description for the model.
    fn description(&self) -> (r: &str)
    {
        "Fetch the content of a web page by URL. Returns the response body as text. Respects timeout and size limits."
    }

    /// JSON Schema of the tool's input.
    fn parameters_schema(&self) -> (r: Json)
    {
        one_string_schema_json("url", "The URL to fetch.")
    }
}

// ── web_search ──────────────────────────────────────────────────

/// Built-in tool that searches the web through a SearXNG instance.
pub struct WebSearchTool {
    pub searxng_url: String,
    pub max_results: i32,
}

/// One search result as handed to the model.
pub open spec fn search_hit(r: JsonV) -> JsonV {
    JsonV::Object(seq![
        ("title"@, JsonV::Str(crate::llm::str_or(jget_str(r, "title"@), Seq::empty()))),
        ("url"@, JsonV::Str(crate::llm::str_or(jget_str(r, "url"@), Seq::empty()))),
        ("snippet"@, JsonV::Str(crate::llm::str_or(jget_str(r, "content"@), Seq::empty()))),
        ("engine"@, JsonV::Str(crate::llm::str_or(jget_str(r, "engine"@), Seq::empty()))),
    ])
}

/// At most `n` results: all when `n` is negative (it is taken as a `usize`).
pub open spec fn take_results(rs: Seq<JsonV>, n: i32) -> Seq<JsonV> {
    if n < 0 || rs.len() <= n { rs } else { rs.take(n as int) }
}

/// The string suggestions of a SearXNG response body.
pub open spec fn search_suggestions(body: JsonV) -> Seq<Seq<char>> {
    match crate::json::jget_arr(body, "suggestions"@) {
        Some(a) => crate::react::string_items(a),
        None => Seq::empty(),
    }
}

/// The result of a SearXNG response: at most `max_results` hits, their
/// number, and the suggestions when there are any.
pub open spec fn search_result(body: JsonV, max_results: i32) -> JsonV {
    let raw = match crate::json::jget_arr(body, "results"@) {
        Some(a) => a,
        None => Seq::empty(),
    };
    let hits = take_results(raw, max_results).map_values(|r: JsonV| search_hit(r));
    let sugg = search_suggestions(body);
    JsonV::Object(seq![
        ("results"@, JsonV::Array(hits)),
        ("total"@, JsonV::Int(hits.len() as i64)),
    ] + if sugg.len() > 0 {
        seq![("suggestions"@, JsonV::Array(sugg.map_values(|s: Seq<char>| JsonV::Str(s))))]
    } else {
        Seq::empty()
    })
}

impl WebSearchTool {
    /// A tool over this SearXNG instance.
    pub fn new(searxng_url: String, max_results: i32) -> (r: WebSearchTool)
        ensures
            r.searxng_url@ == searxng_url@,
            r.max_results == max_results,
    {
        WebSearchTool { searxng_url, max_results }
    }

    /// Construct from a tools-config entry: `searxng_url`, else the
    /// `SEARXNG_URL` the caller read from the environment, else the
    /// platform's instance; `max_results` (default 10).
    pub fn from_config(config: &Json, env_url: Option<String>) -> (r: WebSearchTool)
        ensures
            r.searxng_url@ == (match jget_str(config@, "searxng_url"@) {
                Some(u) => u,
                None => match env_url {
                    Some(e) => e@,
                    None => "https://search.arc126.io"@,
                },
            }),
            r.max_results == config_i32(config@, "max_results"@, 10),
    {
        let url = match config.get("searxng_url") {
            Some(v) => match v.as_str() {
                Some(u) => Some(u.clone()),
                None => None,
            },
            None => None,
        };
        let url = match url {
            Some(u) => u,
            None => match env_url {
                Some(e) => e,
                None => "https://search.arc126.io".to_string(),
            },
        };
        WebSearchTool { searxng_url: url, max_results: config_i32_of(config, "max_results", 10) }
    }

    /// The search endpoint of the instance.
    pub fn search_url(&self) -> (r: String)
        ensures
            r@ == trim_trailing_slashes(self.searxng_url@) + "/search"@,
    {
        concat_str(&trim_slashes(self.searxng_url.as_str()), "/search")
    }

    /// The error result of a failed HTTP status.
    pub fn status_error(status: u16) -> (r: ToolResult)
        ensures
            r.is_error,
            r.content@ == JsonV::Str("SearXNG returned HTTP "@ + spec_decimal(status as nat)),
    {
        ToolResult::error(concat_str("SearXNG returned HTTP ", &u64_text(status as u64)).as_str())
    }

    /// The result of a SearXNG response body.
    pub fn results(&self, body: &Json) -> (r: ToolResult)
        ensures
            !r.is_error,
            r.content@ == search_result(body@, self.max_results),
    {
        let empty: Vec<Json> = Vec::new();
        let raw: &Vec<Json> = match body.get("results") {
            Some(v) => match v.as_array() {
                Some(a) => a,
                None => &empty,
            },
            None => &empty,
        };
        let ghost rv = raw@.map_values(|x: Json| x@);
        assert(rv =~= match crate::json::jget_arr(body@, "results"@) { Some(a) => a, None => Seq::<JsonV>::empty() });
        let n: usize = if self.max_results < 0 || raw.len() <= self.max_results as usize {
            raw.len()
        } else {
            self.max_results as usize
        };
        let ghost taken = take_results(rv, self.max_results);
        assert(taken =~= rv.take(n as int));
        let mut hits: Vec<Json> = Vec::new();
        let mut i: usize = 0;
        while i < n
            invariant
                i <= n <= raw.len(),
                rv == raw@.map_values(|x: Json| x@),
                hits.len() == i,
                forall|k: int| 0 <= k < i ==> (#[trigger] hits@[k])@ == search_hit(rv[k]),
            decreases n - i,
        {
            let r = &raw[i];
            let title = str_of(r, "title");
            let url = str_of(r, "url");
            let snippet = str_of(r, "content");
            let engine = str_of(r, "engine");
            hits.push(jobj4("title", Json::Str(title), "url", Json::Str(url), "snippet", Json::Str(snippet),
                "engine", Json::Str(engine)));
            i += 1;
        }
        let ghost hv = taken.map_values(|r: JsonV| search_hit(r));
        assert(hits@.map_values(|x: Json| x@) =~= hv);
        let total = hits.len();
        let hits_json = jarray(hits);
        let suggestions = match body.get("suggestions") {
            Some(v) => match v.as_array() {
                Some(a) => crate::react::string_items_of(a),
                None => Vec::new(),
            },
            None => Vec::new(),
        };
        let ghost sv = suggestions@.map_values(|s: String| s@);
        assert(sv =~= search_suggestions(body@));
        let mut entries: Vec<(String, Json)> = Vec::new();
        entries.push(("results".to_string(), hits_json));
        entries.push(("total".to_string(), Json::Int(total as i64)));
        if suggestions.len() > 0 {
            let mut sj: Vec<Json> = Vec::new();
            let mut k: usize = 0;
            while k < suggestions.len()
                invariant
                    k <= suggestions.len(),
                    sj.len() == k,
                    forall|j: int| 0 <= j < k ==> (#[trigger] sj@[j])@ == JsonV::Str(suggestions@[j]@),
                decreases suggestions.len() - k,
            {
                sj.push(Json::Str(suggestions[k].clone()));
                k += 1;
            }
            assert(sj@.map_values(|x: Json| x@) =~= sv.map_values(|s: Seq<char>| JsonV::Str(s)));
            entries.push(("suggestions".to_string(), jarray(sj)));
        }
        let content = crate::json::jobject(entries);
        assert(content@->Object_0 =~= search_result(body@, self.max_results)->Object_0);
        ToolResult::ok(content)
    }
}

impl Tool for WebSearchTool {
    open spec fn tool_name(&self) -> Seq<char> {
        "web_search"@
    }

    open spec fn tool_description(&self) -> Seq<char> {
        "Search the web for current information. Returns a list of results with titles, URLs, and snippets."@
    }

    open spec fn tool_schema(&self) -> JsonV {
        one_string_schema("query"@, "The search query."@)
    }

    /// The tool's name.
    fn name(&self) -> (r: &str)
    {
        "web_search"
    }

    /// The tool's description for the model.
    fn description(&self) -> (r: &str)
    {
        "Search the web for current information. Returns a list of results with titles, URLs, and snippets."
    }

    /// JSON Schema of the tool's input.
    fn parameters_schema(&self) -> (r: Json)
    {
        one_string_schema_json("query", "The search query.")
    }
}

/// `j[k]` as a string, or empty.
fn str_of(j: &Json, k: &str) -> (r: String)
    ensures
        r@ == crate::llm::str_or(jget_str(j@, k@), Seq::empty()),
{
    match j.get(k) {
        Some(v) => match v.as_str() {
            Some(s) => s.clone(),
            None => String::new(),
        },
        None => String::new(),
    }
}

/// Check a search query: a `query` string is required, and an empty or
/// blank one gets an error result.
pub fn check_query(input: &Json) -> (r: Result<Result<String, ToolResult>, CasperError>)
    ensures
        jget_str(input@, "query"@) is None ==> (r matches Err(CasperError::BadRequest(m)) && m@ == "missing 'query' string"@),
        jget_str(input@, "query"@) matches Some(q) ==> (
            if trim(q).len() == 0 {
                r matches Ok(Err(t)) && t.is_error && t.content@ == JsonV::Str("query must not be empty"@)
            } else {
                r matches Ok(Ok(x)) && x@ == q
            }),
{
    proof { reveal_strlit("query"); reveal_strlit("missing '"); reveal_strlit("' string"); reveal_strlit("missing 'query' string"); }
    let q = match required_string(input, "query") {
        Ok(q) => q,
        Err(e) => {
            assert("missing '"@ + "query"@ + "' string"@ =~= "missing 'query' string"@);
            return Err(e);
        }
    };
    let v = chars_of(q.as_str());
    if trim_chars(&v).len() == 0 {
        return Ok(Err(ToolResult::error("query must not be empty")));
    }
    Ok(Ok(q))
}

// ── knowledge_search ────────────────────────────────────────────

/// Built-in tool that searches the tenant's knowledge base. The relevance
/// threshold is kept as the JSON number it was configured with.
pub struct KnowledgeSearchTool {
    pub max_results: i32,
    pub relevance_threshold: Json,
}

/// A matching chunk of a document.
pub struct ChunkRow {
    pub id: u128,
    pub document_id: u128,
    pub chunk_index: i32,
    pub content: String,
}

/// The result entry of a chunk.
pub open spec fn chunk_json(c: ChunkRow) -> JsonV {
    JsonV::Object(seq![
        ("chunk_id"@, JsonV::Str(spec_uuid_text(c.id))),
        ("document_id"@, JsonV::Str(spec_uuid_text(c.document_id))),
        ("chunk_index"@, JsonV::Int(c.chunk_index as i64)),
        ("content"@, JsonV::Str(c.content@)),
    ])
}

impl KnowledgeSearchTool {
    /// A tool returning at most `max_results` chunks.
    pub fn new(max_results: i32, relevance_threshold: Json) -> (r: KnowledgeSearchTool)
        ensures
            r.max_results == max_results,
            r.relevance_threshold@ == relevance_threshold@,
    {
        KnowledgeSearchTool { max_results, relevance_threshold }
    }

    /// Construct from a tools-config entry: `max_results` (default 5) and
    /// `relevance_threshold` (any number; 0.7 by default).
    pub fn from_config(config: &Json) -> (r: KnowledgeSearchTool)
        ensures
            r.max_results == config_i32(config@, "max_results"@, 5),
            (match jget(config@, "relevance_threshold"@) {
                Some(v) => (v is Int || v is UInt || v is Float) ==> r.relevance_threshold@ == v,
                None => true,
            }),
            (match jget(config@, "relevance_threshold"@) {
                Some(v) => v is Int || v is UInt || v is Float,
                None => false,
            }) || r.relevance_threshold@ == JsonV::Float("0.7"@),
    {
        let threshold = match config.get("relevance_threshold") {
            Some(v) => match v {
                Json::Int(_) | Json::UInt(_) | Json::Float(_) => v.deep_clone(),
                _ => Json::Float("0.7".to_string()),
            },
            None => Json::Float("0.7".to_string()),
        };
        KnowledgeSearchTool { max_results: config_i32_of(config, "max_results", 5), relevance_threshold: threshold }
    }

    /// The `ILIKE` pattern of a query: the query anywhere in the text.
    pub fn pattern(query: &str) -> (r: String)
        ensures
            r@ == "%"@ + query@ + "%"@,
    {
        concat3("%", query, "%")
    }

    /// The result of the matching chunks: their entries and number.
    pub fn results(rows: &Vec<ChunkRow>) -> (r: ToolResult)
        ensures
            !r.is_error,
            r.content@ == JsonV::Object(seq![
                ("results"@, JsonV::Array(rows@.map_values(|c: ChunkRow| chunk_json(c)))),
                ("total"@, JsonV::Int(rows@.len() as i64)),
            ]),
    {
        let mut out: Vec<Json> = Vec::new();
        let mut i: usize = 0;
        while i < rows.len()
            invariant
                i <= rows.len(),
                out.len() == i,
                forall|k: int| 0 <= k < i ==> (#[trigger] out@[k])@ == chunk_json(rows@[k]),
            decreases rows.len() - i,
        {
            let c = &rows[i];
            out.push(jobj4("chunk_id", Json::Str(uuid_text(c.id)), "document_id", Json::Str(uuid_text(c.document_id)),
                "chunk_index", Json::Int(c.chunk_index as i64), "content", Json::Str(c.content.clone())));
            i += 1;
        }
        assert(out@.map_values(|x: Json| x@) =~= rows@.map_values(|c: ChunkRow| chunk_json(c)));
        let total = out.len();
        ToolResult::ok(jobj2("results", jarray(out), "total", Json::Int(total as i64)))
    }
}

impl Tool for KnowledgeSearchTool {
    open spec fn tool_name(&self) -> Seq<char> {
        "knowledge_search"@
    }

    open spec fn tool_description(&self) -> Seq<char> {
        "Search the knowledge base for relevant information. Returns text chunks matching the query from ingested documents."@
    }

    open spec fn tool_schema(&self) -> JsonV {
        one_string_schema("query"@, "The search query to find relevant knowledge."@)
    }

    /// The tool's name.
    fn name(&self) -> (r: &str)
    {
        "knowledge_search"
    }

    /// The tool's description for the model.
    fn description(&self) -> (r: &str)
    {
        "Search the knowledge base for relevant information. Returns text chunks matching the query from ingested documents."
    }

    /// JSON Schema of the tool's input.
    fn parameters_schema(&self) -> (r: Json)
    {
        one_string_schema_json("query", "The search query to find relevant knowledge.")
    }
}

// ── MCP tools ───────────────────────────────────────────────────

/// MCP server auth configuration.
pub enum McpAuth {
    /// No authentication.
    NoAuth,
    /// Static bearer token (from config or vault).
    Bearer,
    /// Per-user OAuth token, resolved at call time.
    UserOAuth { provider: String },
    /// MCP OAuth 2.1, discovered from the server.
    McpOAuth,
}

impl McpAuth {
    /// A copy of this configuration.
    pub fn duplicate(&self) -> (r: McpAuth)
        ensures
            match (*self, r) {
                (McpAuth::NoAuth, McpAuth::NoAuth) => true,
                (McpAuth::Bearer, McpAuth::Bearer) => true,
                (McpAuth::McpOAuth, McpAuth::McpOAuth) => true,
                (McpAuth::UserOAuth { provider: a }, McpAuth::UserOAuth { provider: b }) => a@ == b@,
                _ => false,
            },
    {
        match self {
            McpAuth::NoAuth => McpAuth::NoAuth,
            McpAuth::Bearer => McpAuth::Bearer,
            McpAuth::UserOAuth { provider } => McpAuth::UserOAuth { provider: provider.clone() },
            McpAuth::McpOAuth => McpAuth::McpOAuth,
        }
    }
}

/// A single tool discovered from an MCP server; the server's client is
/// held by the caller.
pub struct McpTool {
    /// Fully qualified name: `mcp__{server}__{tool}`.
    pub qualified_name: String,
    /// The raw tool name as exposed by the MCP server.
    pub remote_name: String,
    /// Human-readable description from the MCP server.
    pub description: String,
    /// JSON Schema for the tool's input parameters.
    pub input_schema: Json,
    /// Auth mode for this server.
    pub auth: McpAuth,
}

/// The qualified name of an MCP tool.
pub open spec fn qualified_name(server: Seq<char>, remote: Seq<char>) -> Seq<char> {
    "mcp__"@ + server + "__"@ + remote
}

/// The text blocks of an MCP `tools/call` content list, in order.
pub open spec fn mcp_texts(blocks: Seq<JsonV>) -> Seq<Seq<char>>
    decreases blocks.len(),
{
    if blocks.len() == 0 {
        Seq::empty()
    } else {
        mcp_texts(blocks.drop_last()) + if jget_str(blocks.last(), "type"@) == Some("text"@) {
            match jget_str(blocks.last(), "text"@) {
                Some(t) => seq![t],
                None => Seq::empty(),
            }
        } else {
            Seq::empty()
        }
    }
}

/// Texts joined by line breaks.
pub open spec fn join_lines(ts: Seq<Seq<char>>) -> Seq<char>
    decreases ts.len(),
{
    if ts.len() == 0 {
        Seq::empty()
    } else if ts.len() == 1 {
        ts[0]
    } else {
        join_lines(ts.drop_last()) + "\n"@ + ts.last()
    }
}

/// The content an MCP call result is handed to the model as: its text
/// blocks joined by line breaks, or the raw result when it has none.
pub open spec fn mcp_content(result: JsonV) -> JsonV {
    match crate::json::jget_arr(result, "content"@) {
        Some(a) => if mcp_texts(a).len() == 0 { result } else { JsonV::Str(join_lines(mcp_texts(a))) },
        None => result,
    }
}

impl McpTool {
    /// A tool named `mcp__{server}__{remote}`.
    pub fn new(server_name: &str, remote_name: String, description: String, input_schema: Json, auth: McpAuth) -> (r: McpTool)
        ensures
            r.qualified_name@ == qualified_name(server_name@, remote_name@),
            r.remote_name@ == remote_name@,
            r.description@ == description@,
            r.input_schema@ == input_schema@,
            r.auth == auth,
    {
        let a = concat3("mcp__", server_name, "__");
        let qualified_name = concat_str(&a, remote_name.as_str());
        McpTool { qualified_name, remote_name, description, input_schema, auth }
    }

    /// The error when the tool needs a user and there is none: names the
    /// tool and its auth mode (`user_oauth` or `MCP OAuth`).
    pub fn missing_user(&self) -> (r: CasperError)
        ensures
            self.auth is McpOAuth ==> (r matches CasperError::Forbidden(m) && m@ == "Tool '"@ + self.qualified_name@
                + "' requires MCP OAuth but no user context is available."@),
            !(self.auth is McpOAuth) ==> (r matches CasperError::Forbidden(m) && m@ == "Tool '"@ + self.qualified_name@
                + "' requires user_oauth but no user context is available."@),
    {
        match self.auth {
            McpAuth::McpOAuth => CasperError::Forbidden(concat3("Tool '", self.qualified_name.as_str(),
                "' requires MCP OAuth but no user context is available.")),
            _ => CasperError::Forbidden(concat3("Tool '", self.qualified_name.as_str(),
                "' requires user_oauth but no user context is available.")),
        }
    }

    /// The sentinel that asks the engine to start the MCP OAuth flow.
    pub fn oauth_required(server_url: &str) -> (r: ToolResult)
        ensures
            !r.is_error,
            r.content@ == JsonV::Object(seq![
                ("__mcp_oauth_required__"@, JsonV::Bool(true)),
                ("mcp_server_url"@, JsonV::Str(server_url@)),
            ]),
    {
        ToolResult::ok(jobj2("__mcp_oauth_required__", Json::Bool(true), "mcp_server_url", jstring(server_url)))
    }

    /// The result of an MCP `tools/call`: its content for the model, an
    /// error when that content says `isError: true`.
    pub fn call_result(result: &Json) -> (r: ToolResult)
        ensures
            r.content@ == mcp_content(result@),
            r.is_error == (crate::react::flag_set(mcp_content(result@), "isError"@)),
    {
        let content = match result.get("content") {
            Some(c) => match c.as_array() {
                Some(arr) => {
                    let ghost av = arr@.map_values(|x: Json| x@);
                    let mut texts: Vec<char> = Vec::new();
                    let mut any = false;
                    let mut i: usize = 0;
                    while i < arr.len()
                        invariant
                            i <= arr.len(),
                            av == arr@.map_values(|x: Json| x@),
                            any == (mcp_texts(av.take(i as int)).len() > 0),
                            texts@ == join_lines(mcp_texts(av.take(i as int))),
                        decreases arr.len() - i,
                    {
                        assert(av.take(i + 1).drop_last() =~= av.take(i as int));
                        assert(av.take(i + 1).last() == arr@[i as int]@);
                        let b = &arr[i];
                        let is_text = match b.get("type") {
                            Some(t) => match t.as_str() {
                                Some(ts) => str_eq(ts.as_str(), "text"),
                                None => false,
                            },
                            None => false,
                        };
                        if is_text {
                            match b.get("text") {
                                Some(t) => match t.as_str() {
                                    Some(ts) => {
                                        proof { reveal_strlit("\n"); }
                                        let ghost prev = mcp_texts(av.take(i as int));
                                        if any {
                                            texts.push('\n');
                                        }
                                        crate::text::push_chars(&mut texts, ts.as_str());
                                        let ghost next = prev.push(ts@);
                                        assert(mcp_texts(av.take(i + 1)) =~= next);
                                        assert(next.drop_last() =~= prev);
                                        any = true;
                                    }
                                    None => {
                                        assert(mcp_texts(av.take(i + 1)) =~= mcp_texts(av.take(i as int)));
                                    }
                                },
                                None => {
                                    assert(mcp_texts(av.take(i + 1)) =~= mcp_texts(av.take(i as int)));
                                }
                            }
                        } else {
                            assert(mcp_texts(av.take(i + 1)) =~= mcp_texts(av.take(i as int)));
                        }
                        i += 1;
                    }
                    assert(av.take(arr.len() as int) =~= av);
                    if !any { result.deep_clone() } else { Json::Str(string_of(texts.as_slice())) }
                }
                None => result.deep_clone(),
            },
            None => result.deep_clone(),
        };
        let is_error = match content.get("isError") {
            Some(v) => match v.as_bool() {
                Some(b) => b,
                None => false,
            },
            None => false,
        };
        ToolResult { content, is_error }
    }

    /// The error result of a failed MCP call.
    pub fn call_failed(e: &CasperError) -> (r: ToolResult)
        ensures
            r.is_error,
            r.content@ == JsonV::Str("MCP tool error: "@ + crate::error::spec_error_message(*e)),
    {
        ToolResult::error(concat_str("MCP tool error: ", &e.message()).as_str())
    }
}

impl Tool for McpTool {
    open spec fn tool_name(&self) -> Seq<char> {
        self.qualified_name@
    }

    open spec fn tool_description(&self) -> Seq<char> {
        self.description@
    }

    open spec fn tool_schema(&self) -> JsonV {
        self.input_schema@
    }

    /// The tool's name.
    fn name(&self) -> (r: &str)
    {
        self.qualified_name.as_str()
    }

    /// The tool's description.
    fn description(&self) -> (r: &str)
    {
        self.description.as_str()
    }

    /// The tool's input schema, as the server gave it.
    fn parameters_schema(&self) -> (r: Json)
    {
        self.input_schema.deep_clone()
    }
}

// ── ToolDispatcher ──────────────────────────────────────────────

/// The names of tools, in order.
pub open spec fn tool_names<T: Tool>(s: Seq<T>) -> Seq<Seq<char>> {
    s.map_values(|t: T| t.tool_name())
}

/// No name occurs twice among the tools.
pub open spec fn distinct_names<T: Tool>(s: Seq<T>) -> bool {
    forall|i: int, j: int| 0 <= i < j < s.len() ==> (#[trigger] s[i]).tool_name() != (#[trigger] s[j]).tool_name()
}

/// Some tool has this name.
pub open spec fn has_tool<T: Tool>(s: Seq<T>, name: Seq<char>) -> bool {
    exists|i: int| 0 <= i < s.len() && (#[trigger] s[i]).tool_name() == name
}

/// The tools after registering `tool`: it takes the place of the tool with
/// its name, or comes last when there is none.
pub open spec fn registered<T: Tool>(s: Seq<T>, tool: T) -> Seq<T> {
    if has_tool(s, tool.tool_name()) {
        s.update(choose|i: int| 0 <= i < s.len() && (#[trigger] s[i]).tool_name() == tool.tool_name(), tool)
    } else {
        s.push(tool)
    }
}

/// The OpenAI function definition of a tool.
pub open spec fn definition_of<T: Tool>(t: T) -> JsonV {
    function_def(t.tool_name(), t.tool_description(), t.tool_schema())
}

/// The message of a call to a tool that is not registered.
pub open spec fn unknown_tool_message(name: Seq<char>) -> Seq<char> {
    "unknown tool: "@ + name
}

/// Registry of available tools, keyed by name, in the order they were
/// first registered. Routes the model's `tool_use` calls to the tool that
/// runs them.
pub struct ToolDispatcher<T> {
    tools: Vec<T>,
}

impl<T> View for ToolDispatcher<T> {
    type V = Seq<T>;

    closed spec fn view(&self) -> Seq<T> {
        self.tools@
    }
}

impl<T: Tool> ToolDispatcher<T> {
    /// Every name names one tool.
    pub open spec fn wf(&self) -> bool {
        distinct_names(self@)
    }

    /// A new empty dispatcher.
    pub fn new() -> (r: ToolDispatcher<T>)
        ensures
            r@ == Seq::<T>::empty(),
            r.wf(),
    {
        ToolDispatcher { tools: Vec::new() }
    }

    /// The position of the tool with this name, if registered.
    fn position(&self, name: &str) -> (r: Option<usize>)
        ensures
            r is None <==> !has_tool(self@, name@),
            r matches Some(i) ==> i < self@.len() && self@[i as int].tool_name() == name@,
    {
        let mut i: usize = 0;
        while i < self.tools.len()
            invariant
                i <= self.tools.len(),
                self@ == self.tools@,
                forall|k: int| 0 <= k < i ==> (#[trigger] self@[k]).tool_name() != name@,
            decreases self.tools.len() - i,
        {
            if str_eq(self.tools[i].name(), name) {
                return Some(i);
            }
            i += 1;
        }
        None
    }

    /// Register a tool; it overwrites any tool with the same name.
    pub fn register(&mut self, tool: T)
        requires
            old(self).wf(),
        ensures
            final(self).wf(),
            final(self)@ == registered(old(self)@, tool),
            has_tool(final(self)@, tool.tool_name()),
    {
        let ghost before = self@;
        match self.position(tool.name()) {
            Some(i) => {
                let ghost tn = tool.tool_name();
                proof {
                    let c = choose|k: int| 0 <= k < before.len() && (#[trigger] before[k]).tool_name() == tn;
                    if c != i {
                        if c < i { assert(before[c].tool_name() != before[i as int].tool_name()); }
                        else { assert(before[i as int].tool_name() != before[c].tool_name()); }
                    }
                }
                self.tools.set(i, tool);
                assert(self@ =~= before.update(i as int, tool));
                assert(self@[i as int] == tool);
                assert forall|a: int, b: int| 0 <= a < b < self@.len() implies (#[trigger] self@[a]).tool_name() != (#[trigger] self@[b]).tool_name() by {
                    if a != i && b != i {
                        assert(self@[a] == before[a] && self@[b] == before[b]);
                    } else if a == i {
                        assert(self@[b] == before[b]);
                        if b < i { assert(before[b].tool_name() != before[i as int].tool_name()); }
                        else { assert(before[i as int].tool_name() != before[b].tool_name()); }
                    } else {
                        assert(self@[a] == before[a]);
                        if a < i { assert(before[a].tool_name() != before[i as int].tool_name()); }
                        else { assert(before[i as int].tool_name() != before[a].tool_name()); }
                    }
                }
            },
            None => {
                self.tools.push(tool);
                assert(self@ =~= before.push(tool));
                assert(self@[before.len() as int] == tool);
                assert forall|a: int, b: int| 0 <= a < b < self@.len() implies (#[trigger] self@[a]).tool_name() != (#[trigger] self@[b]).tool_name() by {
                    if b == before.len() {
                        assert(self@[a] == before[a]);
                    } else {
                        assert(self@[a] == before[a] && self@[b] == before[b]);
                    }
                }
            },
        }
    }

    /// Look up a tool by name.
    pub fn get(&self, name: &str) -> (r: Option<&T>)
        ensures
            r is None <==> !has_tool(self@, name@),
            r matches Some(t) ==> t.tool_name() == name@ && self@.contains(*t),
    {
        match self.position(name) {
            Some(i) => {
                assert(self@[i as int] == self.tools@[i as int]);
                Some(&self.tools[i])
            },
            None => None,
        }
    }

    /// The tool a call of `tool_name` goes to, or a bad request for a name
    /// that no tool has. The caller runs the tool on the call's input.
    pub fn dispatch(&self, tool_name: &str) -> (r: Result<&T, CasperError>)
        ensures
            r is Err <==> !has_tool(self@, tool_name@),
            r matches Err(e) ==> (e matches CasperError::BadRequest(m) && m@ == unknown_tool_message(tool_name@)),
            r matches Ok(t) ==> t.tool_name() == tool_name@ && self@.contains(*t),
    {
        match self.get(tool_name) {
            Some(t) => Ok(t),
            None => Err(CasperError::BadRequest(concat_str("unknown tool: ", tool_name))),
        }
    }

    /// Tool definitions in OpenAI function-calling format, one per tool.
    pub fn tool_definitions(&self) -> (r: Vec<Json>)
        ensures
            r@.map_values(|d: Json| d@) == self@.map_values(|t: T| definition_of(t)),
    {
        let mut out: Vec<Json> = Vec::new();
        let mut i: usize = 0;
        while i < self.tools.len()
            invariant
                i <= self.tools.len(),
                self@ == self.tools@,
                out@.len() == i,
                forall|k: int| 0 <= k < i ==> (#[trigger] out@[k])@ == definition_of(self@[k]),
            decreases self.tools.len() - i,
        {
            let t = &self.tools[i];
            out.push(function_definition(t.name(), t.description(), t.parameters_schema()));
            i += 1;
        }
        assert(out@.map_values(|d: Json| d@) =~= self@.map_values(|t: T| definition_of(t)));
        out
    }

    /// Number of registered tools.
    pub fn len(&self) -> (r: usize)
        ensures
            r == self@.len(),
    {
        self.tools.len()
    }

    /// Whether the dispatcher has no tools.
    pub fn is_empty(&self) -> (r: bool)
        ensures
            r == (self@.len() == 0),
    {
        self.tools.len() == 0
    }
}

/// Registering a tool makes it the one its name looks up, keeps every name
/// naming one tool, and adds a tool only when its name is new.
pub proof fn lemma_register_overwrites<T: Tool>(s: Seq<T>, tool: T)
    requires
        distinct_names(s),
    ensures
        distinct_names(registered(s, tool)),
        registered(s, tool).contains(tool),
        forall|i: int| 0 <= i < registered(s, tool).len() && (#[trigger] registered(s, tool)[i]).tool_name() == tool.tool_name()
            ==> registered(s, tool)[i] == tool,
        registered(s, tool).len() == if has_tool(s, tool.tool_name()) { s.len() } else { s.len() + 1 },
{
    let r = registered(s, tool);
    if has_tool(s, tool.tool_name()) {
        let c = choose|i: int| 0 <= i < s.len() && (#[trigger] s[i]).tool_name() == tool.tool_name();
        assert(r[c] == tool);
        assert forall|a: int, b: int| 0 <= a < b < r.len() implies (#[trigger] r[a]).tool_name() != (#[trigger] r[b]).tool_name() by {
            if a != c && b != c {
                assert(r[a] == s[a] && r[b] == s[b]);
            } else if a == c {
                assert(r[b] == s[b]);
                assert(s[c].tool_name() != s[b].tool_name());
            } else {
                assert(r[a] == s[a]);
                assert(s[a].tool_name() != s[c].tool_name());
            }
        }
        assert forall|i: int| 0 <= i < r.len() && (#[trigger] r[i]).tool_name() == tool.tool_name() implies r[i] == tool by {
            if i != c {
                assert(r[i] == s[i]);
                if i < c { assert(s[i].tool_name() != s[c].tool_name()); }
                else { assert(s[c].tool_name() != s[i].tool_name()); }
            }
        }
    } else {
        assert(r[s.len() as int] == tool);
        assert forall|a: int, b: int| 0 <= a < b < r.len() implies (#[trigger] r[a]).tool_name() != (#[trigger] r[b]).tool_name() by {
            if b == s.len() {
                assert(r[a] == s[a]);
            } else {
                assert(r[a] == s[a] && r[b] == s[b]);
            }
        }
        assert forall|i: int| 0 <= i < r.len() && (#[trigger] r[i]).tool_name() == tool.tool_name() implies r[i] == tool by {
            if i < s.len() {
                assert(r[i] == s[i]);
            }
        }
    }
}

// ── MCP tool summaries ──────────────────────────────────────────

/// Two underscores at position `i` of `s`.
pub open spec fn dunder_at(s: Seq<char>, i: int) -> bool {
    0 <= i && i + 1 < s.len() && s[i] == '_' && s[i + 1] == '_'
}

/// The first position at or after `from` where `s` has two underscores.
pub open spec fn first_dunder(s: Seq<char>, from: int) -> Option<int>
    decreases s.len() - from,
{
    if from < 0 || from + 1 >= s.len() {
        None
    } else if dunder_at(s, from) {
        Some(from)
    } else {
        first_dunder(s, from + 1)
    }
}

/// The server of a tool named `mcp__{server}__{tool}`: the text between the
/// prefix and the first `__` after it; none for other names.
pub open spec fn mcp_server(name: Seq<char>) -> Option<Seq<char>> {
    if has_prefix(name, "mcp__"@) {
        let rest = name.skip(5);
        match first_dunder(rest, 0) {
            Some(i) => Some(rest.take(i)),
            None => None,
        }
    } else {
        None
    }
}

/// The MCP server a tool's name belongs to, if it is an MCP tool's name.
pub fn mcp_server_of_name(name: &str) -> (r: Option<String>)
    ensures
        (match r { Some(s) => Some(s@), None => None::<Seq<char>> }) == mcp_server(name@),
{
    proof { reveal_strlit("mcp__"); }
    let v = chars_of(name);
    let rest = match strip_prefix_chars(&v, "mcp__") {
        Some(r) => r,
        None => return None,
    };
    let ghost rs = name@.skip(5);
    assert("mcp__"@.len() == 5);
    assert(has_prefix(name@, "mcp__"@));
    assert(rest@ =~= rs);
    let mut i: usize = 0;
    while i < rest.len() && i + 1 < rest.len()
        invariant
            rest@ == rs,
            rs == name@.skip(5),
            has_prefix(name@, "mcp__"@),
            first_dunder(rs, 0) == first_dunder(rs, i as int),
        decreases rest.len() - i,
    {
        if rest[i] == '_' && rest[i + 1] == '_' {
            let mut out: Vec<char> = Vec::new();
            let mut k: usize = 0;
            while k < i
                invariant
                    k <= i,
                    i < rest.len(),
                    out@ == rest@.take(k as int),
                decreases i - k,
            {
                out.push(rest[k]);
                k += 1;
                assert(out@ =~= rest@.take(k as int));
            }
            assert(dunder_at(rs, i as int));
            assert(first_dunder(rs, i as int) == Some(i as int));
            let r = string_of(out.as_slice());
            assert(r@ =~= rs.take(i as int));
            assert(mcp_server(name@) == Some(rs.take(i as int)));
            return Some(r);
        }
        i += 1;
    }
    None
}

/// A tool's name and description.
pub open spec fn summary_of<T: Tool>(t: T) -> (Seq<char>, Seq<char>) {
    (t.tool_name(), t.tool_description())
}

/// The names and descriptions of the tools of MCP server `server`, in order.
pub open spec fn server_tools<T: Tool>(s: Seq<T>, server: Seq<char>) -> Seq<(Seq<char>, Seq<char>)>
    decreases s.len(),
{
    if s.len() == 0 {
        Seq::empty()
    } else {
        server_tools(s.drop_last(), server) + if mcp_server(s.last().tool_name()) == Some(server) {
            seq![summary_of(s.last())]
        } else {
            Seq::empty()
        }
    }
}

/// Sorted by name, no name twice.
pub open spec fn sorted_by_name(g: Seq<(Seq<char>, Seq<char>)>) -> bool {
    forall|i: int, j: int| 0 <= i < j < g.len() ==> str_lt((#[trigger] g[i]).0, (#[trigger] g[j]).0)
}

/// The abstract value of summaries grouped by server.
pub open spec fn summaries_view(r: Seq<(String, Vec<(String, String)>)>) -> Seq<(Seq<char>, Seq<(Seq<char>, Seq<char>)>)> {
    r.map_values(|g: (String, Vec<(String, String)>)| (g.0@, g.1@.map_values(|e: (String, String)| (e.0@, e.1@))))
}

/// The summaries of the MCP tools among `s`, grouped by server: one group
/// per server, each holding exactly that server's tools, sorted by name, and
/// a group for every server that has a tool.
pub open spec fn summaries_ok<T: Tool>(gs: Seq<(Seq<char>, Seq<(Seq<char>, Seq<char>)>)>, s: Seq<T>) -> bool {
    &&& forall|i: int, j: int| 0 <= i < j < gs.len() ==> (#[trigger] gs[i]).0 != (#[trigger] gs[j]).0
    &&& forall|i: int| 0 <= i < gs.len() ==> {
        &&& sorted_by_name((#[trigger] gs[i]).1)
        &&& gs[i].1.len() > 0
        &&& gs[i].1.to_multiset() == server_tools(s, gs[i].0).to_multiset()
    }
    &&& forall|m: int| 0 <= m < s.len() && (#[trigger] mcp_server(s[m].tool_name())) is Some
        ==> exists|i: int| 0 <= i < gs.len() && (#[trigger] gs[i]).0 == mcp_server(s[m].tool_name())->0
}

proof fn lemma_server_tools_push<T: Tool>(s: Seq<T>, t: T, server: Seq<char>)
    ensures
        server_tools(s.push(t), server) == server_tools(s, server) + if mcp_server(t.tool_name()) == Some(server) {
            seq![summary_of(t)]
        } else {
            Seq::empty()
        },
{
    assert(s.push(t).drop_last() =~= s);
}

proof fn lemma_server_tools_names<T: Tool>(s: Seq<T>, server: Seq<char>, e: (Seq<char>, Seq<char>))
    requires
        server_tools(s, server).contains(e),
    ensures
        exists|m: int| 0 <= m < s.len() && (#[trigger] s[m]).tool_name() == e.0,
    decreases s.len(),
{
    if s.len() > 0 {
        let prev = server_tools(s.drop_last(), server);
        let w = choose|w: int| 0 <= w < server_tools(s, server).len() && server_tools(s, server)[w] == e;
        if w < prev.len() {
            assert(prev[w] == e);
            lemma_server_tools_names(s.drop_last(), server, e);
            let m = choose|m: int| 0 <= m < s.drop_last().len() && (#[trigger] s.drop_last()[m]).tool_name() == e.0;
            assert(s[m] == s.drop_last()[m]);
        } else {
            assert(s[s.len() - 1] == s.last());
        }
    }
}

proof fn lemma_server_tools_none<T: Tool>(s: Seq<T>, server: Seq<char>)
    requires
        forall|m: int| 0 <= m < s.len() ==> mcp_server((#[trigger] s[m]).tool_name()) != Some(server),
    ensures
        server_tools(s, server).len() == 0,
    decreases s.len(),
{
    if s.len() > 0 {
        assert forall|m: int| 0 <= m < s.drop_last().len() implies mcp_server((#[trigger] s.drop_last()[m]).tool_name()) != Some(server) by {
            assert(s.drop_last()[m] == s[m]);
        }
        lemma_server_tools_none(s.drop_last(), server);
        assert(s[s.len() - 1] == s.last());
    }
}

proof fn lemma_sorted_insert(g: Seq<(Seq<char>, Seq<char>)>, p: int, x: (Seq<char>, Seq<char>))
    requires
        sorted_by_name(g),
        0 <= p <= g.len(),
        forall|q: int| 0 <= q < p ==> str_lt((#[trigger] g[q]).0, x.0),
        p < g.len() ==> !str_lt(g[p].0, x.0),
        forall|q: int| 0 <= q < g.len() ==> (#[trigger] g[q]).0 != x.0,
    ensures
        sorted_by_name(g.insert(p, x)),
{
    let h = g.insert(p, x);
    g.insert_ensures(p, x);
    if p < g.len() {
        assert(g[p].0 != x.0);
        lemma_str_lt_total(g[p].0, x.0);
    }
    assert forall|i: int, j: int| 0 <= i < j < h.len() implies str_lt((#[trigger] h[i]).0, (#[trigger] h[j]).0) by {
        if j < p {
            assert(h[i] == g[i] && h[j] == g[j]);
        } else if j == p {
            assert(h[i] == g[i] && h[j] == x);
        } else if i < p {
            assert(h[i] == g[i] && h[j] == g[j - 1]);
        } else if i == p {
            assert(h[i] == x && h[j] == g[j - 1]);
            if j - 1 > p {
                assert(str_lt(g[p].0, g[j - 1].0));
                lemma_str_lt_transitive(x.0, g[p].0, g[j - 1].0);
            }
        } else {
            assert(h[i] == g[i - 1] && h[j] == g[j - 1]);
        }
    }
}

proof fn lemma_summaries_other<T: Tool>(gs: Seq<(Seq<char>, Seq<(Seq<char>, Seq<char>)>)>, s: Seq<T>, t: T)
    requires
        summaries_ok(gs, s),
        mcp_server(t.tool_name()) is None,
    ensures
        summaries_ok(gs, s.push(t)),
{
    let s2 = s.push(t);
    assert forall|i: int| 0 <= i < gs.len() implies server_tools(s2, (#[trigger] gs[i]).0) == server_tools(s, gs[i].0) by {
        lemma_server_tools_push(s, t, gs[i].0);
        assert(server_tools(s, gs[i].0) + Seq::<(Seq<char>, Seq<char>)>::empty() =~= server_tools(s, gs[i].0));
    }
    assert forall|m: int| 0 <= m < s2.len() && (#[trigger] mcp_server(s2[m].tool_name())) is Some
        implies exists|i: int| 0 <= i < gs.len() && (#[trigger] gs[i]).0 == mcp_server(s2[m].tool_name())->0 by {
        if m < s.len() {
            assert(s2[m] == s[m]);
            assert(mcp_server(s[m].tool_name()) is Some);
        } else {
            assert(s2[m] == t);
        }
    }
}

proof fn lemma_summaries_add<T: Tool>(gs: Seq<(Seq<char>, Seq<(Seq<char>, Seq<char>)>)>, s: Seq<T>, t: T, j: int, p: int)
    requires
        summaries_ok(gs, s),
        distinct_names(s.push(t)),
        0 <= j < gs.len(),
        mcp_server(t.tool_name()) == Some(gs[j].0),
        0 <= p <= gs[j].1.len(),
        forall|q: int| 0 <= q < p ==> str_lt((#[trigger] gs[j].1[q]).0, t.tool_name()),
        p < gs[j].1.len() ==> !str_lt(gs[j].1[p].0, t.tool_name()),
    ensures
        summaries_ok(gs.update(j, (gs[j].0, gs[j].1.insert(p, summary_of(t)))), s.push(t)),
{
    broadcast use vstd::seq_lib::group_to_multiset_ensures;
    let s2 = s.push(t);
    let srv = gs[j].0;
    let g = gs[j].1;
    let x = summary_of(t);
    let g2 = g.insert(p, x);
    let gs2 = gs.update(j, (srv, g2));
    assert forall|q: int| 0 <= q < g.len() implies (#[trigger] g[q]).0 != x.0 by {
        assert(g.contains(g[q]));
        assert(g.to_multiset().count(g[q]) > 0);
        assert(server_tools(s, srv).contains(g[q]));
        lemma_server_tools_names(s, srv, g[q]);
        let m = choose|m: int| 0 <= m < s.len() && (#[trigger] s[m]).tool_name() == g[q].0;
        assert(s2[m] == s[m] && s2[s.len() as int] == t);
        assert(s2[m].tool_name() != s2[s.len() as int].tool_name());
    }
    lemma_sorted_insert(g, p, x);
    lemma_server_tools_push(s, t, srv);
    assert(gs[j].1.to_multiset() == server_tools(s, gs[j].0).to_multiset());
    assert(server_tools(s2, srv) =~= server_tools(s, srv).push(x));
    vstd::seq_lib::to_multiset_build(server_tools(s, srv), x);
    vstd::seq_lib::to_multiset_insert(g, p, x);
    assert(g2.to_multiset() =~= server_tools(s2, srv).to_multiset());
    assert forall|i: int| 0 <= i < gs2.len() implies {
        &&& sorted_by_name((#[trigger] gs2[i]).1)
        &&& gs2[i].1.len() > 0
        &&& gs2[i].1.to_multiset() == server_tools(s2, gs2[i].0).to_multiset()
    } by {
        if i != j {
            assert(gs2[i] == gs[i]);
            assert(gs[i].0 != srv) by {
                if i < j { assert(gs[i].0 != gs[j].0); } else { assert(gs[j].0 != gs[i].0); }
            }
            lemma_server_tools_push(s, t, gs[i].0);
            assert(server_tools(s, gs[i].0) + Seq::<(Seq<char>, Seq<char>)>::empty() =~= server_tools(s, gs[i].0));
        }
    }
    assert forall|a: int, b: int| 0 <= a < b < gs2.len() implies (#[trigger] gs2[a]).0 != (#[trigger] gs2[b]).0 by {
        assert(gs2[a].0 == gs[a].0 && gs2[b].0 == gs[b].0);
    }
    assert forall|m: int| 0 <= m < s2.len() && (#[trigger] mcp_server(s2[m].tool_name())) is Some
        implies exists|i: int| 0 <= i < gs2.len() && (#[trigger] gs2[i]).0 == mcp_server(s2[m].tool_name())->0 by {
        if m < s.len() {
            assert(s2[m] == s[m]);
            assert(mcp_server(s[m].tool_name()) is Some);
            let i = choose|i: int| 0 <= i < gs.len() && (#[trigger] gs[i]).0 == mcp_server(s[m].tool_name())->0;
            assert(gs2[i].0 == gs[i].0);
        } else {
            assert(s2[m] == t);
            assert(gs2[j].0 == srv);
        }
    }
}

proof fn lemma_summaries_new<T: Tool>(gs: Seq<(Seq<char>, Seq<(Seq<char>, Seq<char>)>)>, s: Seq<T>, t: T, srv: Seq<char>)
    requires
        summaries_ok(gs, s),
        mcp_server(t.tool_name()) == Some(srv),
        forall|q: int| 0 <= q < gs.len() ==> (#[trigger] gs[q]).0 != srv,
    ensures
        summaries_ok(gs.push((srv, seq![summary_of(t)])), s.push(t)),
{
    let s2 = s.push(t);
    let x = summary_of(t);
    let gs2 = gs.push((srv, seq![x]));
    assert forall|m: int| 0 <= m < s.len() implies mcp_server((#[trigger] s[m]).tool_name()) != Some(srv) by {
        if mcp_server(s[m].tool_name()) == Some(srv) {
            let i = choose|i: int| 0 <= i < gs.len() && (#[trigger] gs[i]).0 == mcp_server(s[m].tool_name())->0;
            assert(gs[i].0 != srv);
        }
    }
    lemma_server_tools_none(s, srv);
    lemma_server_tools_push(s, t, srv);
    assert(server_tools(s2, srv) =~= seq![x]);
    assert forall|i: int| 0 <= i < gs2.len() implies {
        &&& sorted_by_name((#[trigger] gs2[i]).1)
        &&& gs2[i].1.len() > 0
        &&& gs2[i].1.to_multiset() == server_tools(s2, gs2[i].0).to_multiset()
    } by {
        if i < gs.len() {
            assert(gs2[i] == gs[i]);
            lemma_server_tools_push(s, t, gs[i].0);
            assert(server_tools(s, gs[i].0) + Seq::<(Seq<char>, Seq<char>)>::empty() =~= server_tools(s, gs[i].0));
        } else {
            assert(gs2[i] == (srv, seq![x]));
        }
    }
    assert forall|a: int, b: int| 0 <= a < b < gs2.len() implies (#[trigger] gs2[a]).0 != (#[trigger] gs2[b]).0 by {
        if b < gs.len() {
            assert(gs2[a] == gs[a] && gs2[b] == gs[b]);
        } else {
            assert(gs2[a] == gs[a] && gs2[b].0 == srv);
        }
    }
    assert forall|m: int| 0 <= m < s2.len() && (#[trigger] mcp_server(s2[m].tool_name())) is Some
        implies exists|i: int| 0 <= i < gs2.len() && (#[trigger] gs2[i]).0 == mcp_server(s2[m].tool_name())->0 by {
        if m < s.len() {
            assert(s2[m] == s[m]);
            assert(mcp_server(s[m].tool_name()) is Some);
            let i = choose|i: int| 0 <= i < gs.len() && (#[trigger] gs[i]).0 == mcp_server(s[m].tool_name())->0;
            assert(gs2[i] == gs[i]);
        } else {
            assert(s2[m] == t);
            assert(gs2[gs.len() as int].0 == srv);
        }
    }
}

/// The position of the group of `server`, if there is one.
fn find_group(groups: &Vec<(String, Vec<(String, String)>)>, server: &str) -> (r: Option<usize>)
    ensures
        r is None ==> forall|q: int| 0 <= q < groups@.len() ==> (#[trigger] summaries_view(groups@)[q]).0 != server@,
        r matches Some(j) ==> j < groups@.len() && summaries_view(groups@)[j as int].0 == server@,
{
    let mut j: usize = 0;
    while j < groups.len()
        invariant
            j <= groups.len(),
            forall|q: int| 0 <= q < j ==> (#[trigger] summaries_view(groups@)[q]).0 != server@,
        decreases groups.len() - j,
    {
        if str_eq(groups[j].0.as_str(), server) {
            return Some(j);
        }
        j += 1;
    }
    None
}

/// Where `name` goes in entries sorted by name: after every entry that
/// sorts before it.
fn insert_position(entries: &Vec<(String, String)>, name: &str) -> (p: usize)
    ensures
        p <= entries@.len(),
        forall|q: int| 0 <= q < p ==> str_lt((#[trigger] entries@[q]).0@, name@),
        p < entries@.len() ==> !str_lt(entries@[p as int].0@, name@),
{
    let mut p: usize = 0;
    while p < entries.len()
        invariant
            p <= entries.len(),
            forall|q: int| 0 <= q < p ==> str_lt((#[trigger] entries@[q]).0@, name@),
        decreases entries.len() - p,
    {
        if !str_less(entries[p].0.as_str(), name) {
            return p;
        }
        p += 1;
    }
    p
}

impl<T: Tool> ToolDispatcher<T> {
    /// The MCP tools' names and descriptions grouped by server, from the
    /// `mcp__{server}__{tool}` form of their names; within each group the
    /// tools are sorted by name. Groups come in the order their first tool
    /// was registered.
    pub fn mcp_tool_summaries(&self) -> (r: Vec<(String, Vec<(String, String)>)>)
        requires
            self.wf(),
        ensures
            summaries_ok(summaries_view(r@), self@),
    {
        let mut groups: Vec<(String, Vec<(String, String)>)> = Vec::new();
        let mut k: usize = 0;
        assert(self@.take(0) =~= Seq::<T>::empty());
        while k < self.tools.len()
            invariant
                k <= self.tools.len(),
                self@ == self.tools@,
                distinct_names(self@),
                summaries_ok(summaries_view(groups@), self@.take(k as int)),
            decreases self.tools.len() - k,
        {
            let t = &self.tools[k];
            let ghost s0 = self@.take(k as int);
            let ghost gv = summaries_view(groups@);
            assert(self@.take(k + 1) =~= s0.push(self@[k as int]));
            assert forall|a: int, b: int| 0 <= a < b < s0.push(self@[k as int]).len() implies
                (#[trigger] s0.push(self@[k as int])[a]).tool_name() != (#[trigger] s0.push(self@[k as int])[b]).tool_name() by {
                assert(s0.push(self@[k as int])[a] == self@[a] && s0.push(self@[k as int])[b] == self@[b]);
            }
            let name = t.name();
            match mcp_server_of_name(name) {
                None => {
                    proof { lemma_summaries_other(gv, s0, self@[k as int]); }
                },
                Some(server) => {
                    match find_group(&groups, server.as_str()) {
                        Some(j) => {
                            let (srv, mut entries) = groups.remove(j);
                            let p = insert_position(&entries, name);
                            let ghost ev = entries@.map_values(|e: (String, String)| (e.0@, e.1@));
                            assert(ev == gv[j as int].1);
                            entries.insert(p, (name.to_string(), t.description().to_string()));
                            assert(entries@.map_values(|e: (String, String)| (e.0@, e.1@))
                                =~= ev.insert(p as int, summary_of(self@[k as int])));
                            groups.insert(j, (srv, entries));
                            proof {
                                assert forall|q: int| 0 <= q < p implies str_lt((#[trigger] gv[j as int].1[q]).0, self@[k as int].tool_name()) by {
                                    assert(gv[j as int].1[q] == ev[q]);
                                }
                                lemma_summaries_add(gv, s0, self@[k as int], j as int, p as int);
                                assert(summaries_view(groups@) =~= gv.update(j as int,
                                    (gv[j as int].0, gv[j as int].1.insert(p as int, summary_of(self@[k as int])))));
                            }
                        },
                        None => {
                            let mut entries: Vec<(String, String)> = Vec::new();
                            entries.push((name.to_string(), t.description().to_string()));
                            assert(entries@.map_values(|e: (String, String)| (e.0@, e.1@)) =~= seq![summary_of(self@[k as int])]);
                            let ghost sv = server@;
                            groups.push((server, entries));
                            proof {
                                lemma_summaries_new(gv, s0, self@[k as int], sv);
                                assert(summaries_view(groups@) =~= gv.push((sv, seq![summary_of(self@[k as int])])));
                            }
                        },
                    }
                },
            }
            k += 1;
        }
        assert(self@.take(self.tools.len() as int) =~= self@);
        groups
    }
}

impl<T: Tool> Default for ToolDispatcher<T> {
    /// A new empty dispatcher.
    fn default() -> (r: ToolDispatcher<T>)
        ensures
            r@ == Seq::<T>::empty(),
    {
        ToolDispatcher::new()
    }
}

// ── Dispatcher configuration ────────────────────────────────────

/// A built-in tool named in an agent's tools config.
pub enum BuiltinTool {
    Delegate(DelegateTool),
    AskUser(AskUserTool),
    KnowledgeSearch(KnowledgeSearchTool),
    UpdateMemory(UpdateMemoryTool),
    WebSearch(WebSearchTool),
    WebFetch(WebFetchTool),
}

/// The built-in tool a config entry names, if a known one.
pub open spec fn builtin_kind(entry: JsonV) -> Option<nat> {
    let n = crate::llm::str_or(jget_str(entry, "name"@), Seq::empty());
    if n == "delegate"@ { Some(0) }
    else if n == "ask_user"@ { Some(1) }
    else if n == "knowledge_search"@ { Some(2) }
    else if n == "update_memory"@ { Some(3) }
    else if n == "web_search"@ { Some(4) }
    else if n == "web_fetch"@ { Some(5) }
    else { None }
}

/// The kind number of a built-in tool.
pub open spec fn tool_kind(t: BuiltinTool) -> nat {
    match t {
        BuiltinTool::Delegate(_) => 0,
        BuiltinTool::AskUser(_) => 1,
        BuiltinTool::KnowledgeSearch(_) => 2,
        BuiltinTool::UpdateMemory(_) => 3,
        BuiltinTool::WebSearch(_) => 4,
        BuiltinTool::WebFetch(_) => 5,
    }
}

/// The kinds of the built-in tools of a tools config, in order, leaving out
/// unknown names.
pub open spec fn builtin_kinds(entries: Seq<JsonV>) -> Seq<nat>
    decreases entries.len(),
{
    if entries.len() == 0 {
        Seq::empty()
    } else {
        builtin_kinds(entries.drop_last()) + match builtin_kind(entries.last()) {
            Some(k) => seq![k],
            None => Seq::empty(),
        }
    }
}

/// The built-in tools an agent's tools config names, in order, each
/// configured from its entry; unknown names are skipped. `searxng_env` is
/// the `SEARXNG_URL` the caller read from the environment.
pub fn builtin_tools(tools_config: &Json, searxng_env: Option<String>) -> (r: Vec<BuiltinTool>)
    ensures
        r@.map_values(|t: BuiltinTool| tool_kind(t)) == builtin_kinds(match crate::json::jget_arr(tools_config@, "builtin"@) {
            Some(a) => a,
            None => Seq::empty(),
        }),
{
    let mut out: Vec<BuiltinTool> = Vec::new();
    let empty: Vec<Json> = Vec::new();
    let entries: &Vec<Json> = match tools_config.get("builtin") {
        Some(b) => match b.as_array() {
            Some(a) => a,
            None => &empty,
        },
        None => &empty,
    };
    let ghost ev = entries@.map_values(|x: Json| x@);
    assert(ev =~= match crate::json::jget_arr(tools_config@, "builtin"@) { Some(a) => a, None => Seq::<JsonV>::empty() });
    let mut i: usize = 0;
    while i < entries.len()
        invariant
            i <= entries.len(),
            ev == entries@.map_values(|x: Json| x@),
            out@.map_values(|t: BuiltinTool| tool_kind(t)) == builtin_kinds(ev.take(i as int)),
        decreases entries.len() - i,
    {
        assert(ev.take(i + 1).drop_last() =~= ev.take(i as int));
        assert(ev.take(i + 1).last() == entries@[i as int]@);
        let e = &entries[i];
        let name = str_of(e, "name");
        let n = name.as_str();
        let ghost before = out@;
        let tool = if str_eq(n, "delegate") {
            Some(BuiltinTool::Delegate(DelegateTool))
        } else if str_eq(n, "ask_user") {
            Some(BuiltinTool::AskUser(AskUserTool))
        } else if str_eq(n, "knowledge_search") {
            Some(BuiltinTool::KnowledgeSearch(KnowledgeSearchTool::from_config(e)))
        } else if str_eq(n, "update_memory") {
            Some(BuiltinTool::UpdateMemory(UpdateMemoryTool::from_config(e)))
        } else if str_eq(n, "web_search") {
            let env = match &searxng_env {
                Some(s) => Some(s.clone()),
                None => None,
            };
            Some(BuiltinTool::WebSearch(WebSearchTool::from_config(e, env)))
        } else if str_eq(n, "web_fetch") {
            Some(BuiltinTool::WebFetch(WebFetchTool::from_config(e)))
        } else {
            None
        };
        match tool {
            Some(t) => {
                out.push(t);
                assert(out@.map_values(|t: BuiltinTool| tool_kind(t))
                    =~= before.map_values(|t: BuiltinTool| tool_kind(t)).push(tool_kind(out@.last())));
            }
            None => {}
        }
        i += 1;
    }
    assert(ev.take(entries.len() as int) =~= ev);
    out
}

/// An MCP server named in an agent's tools config.
pub struct McpServerConfig {
    pub name: String,
    pub url: String,
    pub api_key: Option<String>,
    pub auth: McpAuth,
}

/// The auth mode of an MCP server entry: `auth.type` (`bearer` by default);
/// `user_oauth` names its provider (the server's name by default); a bearer
/// server may carry an `api_key`.
pub open spec fn spec_mcp_auth(entry: JsonV, server_name: Seq<char>) -> (Option<Seq<char>>, nat, Seq<char>) {
    let auth = jget(entry, "auth"@);
    let ty = match auth {
        Some(a) => crate::llm::str_or(jget_str(a, "type"@), "bearer"@),
        None => "bearer"@,
    };
    if ty == "mcp_oauth"@ {
        (None, 3, Seq::empty())
    } else if ty == "user_oauth"@ {
        (None, 2, match auth {
            Some(a) => crate::llm::str_or(jget_str(a, "provider"@), server_name),
            None => server_name,
        })
    } else if ty == "none"@ {
        (None, 0, Seq::empty())
    } else {
        (jget_str(entry, "api_key"@), 1, Seq::empty())
    }
}

/// The kind number of an auth mode and its provider.
pub open spec fn auth_view(a: McpAuth) -> (nat, Seq<char>) {
    match a {
        McpAuth::NoAuth => (0, Seq::empty()),
        McpAuth::Bearer => (1, Seq::empty()),
        McpAuth::UserOAuth { provider } => (2, provider@),
        McpAuth::McpOAuth => (3, Seq::empty()),
    }
}

/// The MCP server an entry of the tools config describes: its `name`
/// (`unknown` by default) and `url`, none without a `url`.
pub fn mcp_server_of(entry: &Json) -> (r: Option<McpServerConfig>)
    ensures
        jget_str(entry@, "url"@) is None ==> r is None,
        jget_str(entry@, "url"@) matches Some(u) ==> (r matches Some(c) && {
            let name = crate::llm::str_or(jget_str(entry@, "name"@), "unknown"@);
            let (key, kind, provider) = spec_mcp_auth(entry@, name);
            &&& c.name@ == name
            &&& c.url@ == u
            &&& (match c.api_key { Some(k) => Some(k@), None => None }) == key
            &&& auth_view(c.auth) == (kind, provider)
        }),
{
    proof { reveal_strlit("unknown"); reveal_strlit("bearer"); }
    let name = match entry.get("name") {
        Some(v) => match v.as_str() {
            Some(n) => n.clone(),
            None => "unknown".to_string(),
        },
        None => "unknown".to_string(),
    };
    let url = match entry.get("url") {
        Some(v) => match v.as_str() {
            Some(u) => u.clone(),
            None => return None,
        },
        None => return None,
    };
    let auth_cfg = entry.get("auth");
    let ty = match auth_cfg {
        Some(a) => match a.get("type") {
            Some(t) => match t.as_str() {
                Some(s) => s.clone(),
                None => "bearer".to_string(),
            },
            None => "bearer".to_string(),
        },
        None => "bearer".to_string(),
    };
    let t = ty.as_str();
    let (api_key, auth) = if str_eq(t, "mcp_oauth") {
        (None, McpAuth::McpOAuth)
    } else if str_eq(t, "user_oauth") {
        let provider = match auth_cfg {
            Some(a) => match a.get("provider") {
                Some(p) => match p.as_str() {
                    Some(ps) => ps.clone(),
                    None => name.clone(),
                },
                None => name.clone(),
            },
            None => name.clone(),
        };
        (None, McpAuth::UserOAuth { provider })
    } else if str_eq(t, "none") {
        (None, McpAuth::NoAuth)
    } else {
        let key = match entry.get("api_key") {
            Some(k) => match k.as_str() {
                Some(ks) => Some(ks.clone()),
                None => None,
            },
            None => None,
        };
        (key, McpAuth::Bearer)
    };
    Some(McpServerConfig { name, url, api_key, auth })
}

/// A tool definition in OpenAI's function-calling form.
pub open spec fn function_def(name: Seq<char>, description: Seq<char>, parameters: JsonV) -> JsonV {
    JsonV::Object(seq![
        ("type"@, JsonV::Str("function"@)),
        ("function"@, JsonV::Object(seq![
            ("name"@, JsonV::Str(name)),
            ("description"@, JsonV::Str(description)),
            ("parameters"@, parameters),
        ])),
    ])
}

/// A tool definition in OpenAI's function-calling form.
pub fn function_definition(name: &str, description: &str, parameters: Json) -> (r: Json)
    ensures
        r@ == function_def(name@, description@, parameters@),
{
    let f = jobj3("name", jstring(name), "description", jstring(description), "parameters", parameters);
    jobj2("type", jstring("function"), "function", f)
}

} // verus!
