//! The LLM conversation model the engine works in: roles, content blocks,
//! completion responses, and the JSON form in which content blocks are
//! stored with a conversation.

use vstd::prelude::*;
use crate::codec::{json_text, parse_json, serde_form, spec_json_parse, spec_json_text};
use crate::json::{Json, JsonV, jget, jget_arr, jget_str, jstring, obj_lookup, lemma_view_array, lemma_view_object};
use crate::text::{push_chars, str_eq, string_of};

verus! {

/// The author of a message in an LLM conversation.
#[derive(PartialEq, Eq, Structural, Clone, Copy, Debug)]
pub enum LlmRole {
    System,
    User,
    Assistant,
    Tool,
}

/// Why the model stopped generating.
#[derive(PartialEq, Eq, Structural, Clone, Copy, Debug)]
pub enum StopReason {
    EndTurn,
    ToolUse,
    MaxTokens,
    StopSequence,
}

/// A block of message content.
#[derive(Debug)]
pub enum ContentBlock {
    Text { text: String },
    ToolUse { id: String, name: String, input: Json },
    ToolResult { tool_use_id: String, content: String, is_error: bool },
    Thinking { text: String },
}

/// The abstract value of a content block.
pub enum ContentBlockV {
    Text { text: Seq<char> },
    ToolUse { id: Seq<char>, name: Seq<char>, input: JsonV },
    ToolResult { tool_use_id: Seq<char>, content: Seq<char>, is_error: bool },
    Thinking { text: Seq<char> },
}

impl View for ContentBlock {
    type V = ContentBlockV;

    open spec fn view(&self) -> ContentBlockV {
        match self {
            ContentBlock::Text { text } => ContentBlockV::Text { text: text@ },
            ContentBlock::ToolUse { id, name, input } => ContentBlockV::ToolUse { id: id@, name: name@, input: input@ },
            ContentBlock::ToolResult { tool_use_id, content, is_error } =>
                ContentBlockV::ToolResult { tool_use_id: tool_use_id@, content: content@, is_error: *is_error },
            ContentBlock::Thinking { text } => ContentBlockV::Thinking { text: text@ },
        }
    }
}

/// The abstract values of a sequence of content blocks.
pub open spec fn blocks_view(s: Seq<ContentBlock>) -> Seq<ContentBlockV> {
    s.map_values(|b: ContentBlock| b@)
}

/// A message of an LLM conversation.
pub struct LlmMessage {
    pub role: LlmRole,
    pub content: Vec<ContentBlock>,
}

/// Token usage of one completion.
#[derive(PartialEq, Eq, Structural, Clone, Copy, Debug)]
pub struct TokenUsage {
    pub input_tokens: u32,
    pub output_tokens: u32,
}

/// The model's answer to a completion request.
pub struct CompletionResponse {
    pub content: Vec<ContentBlock>,
    pub reasoning: Vec<ContentBlock>,
    pub stop_reason: StopReason,
    pub usage: TokenUsage,
    pub model: String,
}

impl ContentBlock {
    /// A copy of this block.
    pub fn deep_clone(&self) -> (r: ContentBlock)
        ensures
            r@ == self@,
    {
        match self {
            ContentBlock::Text { text } => ContentBlock::Text { text: text.clone() },
            ContentBlock::ToolUse { id, name, input } =>
                ContentBlock::ToolUse { id: id.clone(), name: name.clone(), input: input.deep_clone() },
            ContentBlock::ToolResult { tool_use_id, content, is_error } =>
                ContentBlock::ToolResult { tool_use_id: tool_use_id.clone(), content: content.clone(), is_error: *is_error },
            ContentBlock::Thinking { text } => ContentBlock::Thinking { text: text.clone() },
        }
    }
}

/// A copy of a sequence of blocks.
pub fn clone_blocks(v: &Vec<ContentBlock>) -> (r: Vec<ContentBlock>)
    ensures
        blocks_view(r@) == blocks_view(v@),
{
    let mut out: Vec<ContentBlock> = Vec::new();
    let mut i: usize = 0;
    while i < v.len()
        invariant
            i <= v.len(),
            out.len() == i,
            forall|k: int| 0 <= k < i ==> (#[trigger] out@[k])@ == v@[k]@,
        decreases v.len() - i,
    {
        out.push(v[i].deep_clone());
        i += 1;
    }
    assert(blocks_view(out@) =~= blocks_view(v@));
    out
}

// ── Text extraction ─────────────────────────────────────────────

/// The texts of the `Text` blocks, concatenated.
pub open spec fn spec_extract_text(s: Seq<ContentBlockV>) -> Seq<char>
    decreases s.len(),
{
    if s.len() == 0 {
        Seq::empty()
    } else {
        spec_extract_text(s.drop_last()) + match s.last() {
            ContentBlockV::Text { text } => text,
            _ => Seq::empty(),
        }
    }
}

/// The texts of the `Thinking` blocks, concatenated.
pub open spec fn spec_thinking_text(s: Seq<ContentBlockV>) -> Seq<char>
    decreases s.len(),
{
    if s.len() == 0 {
        Seq::empty()
    } else {
        spec_thinking_text(s.drop_last()) + match s.last() {
            ContentBlockV::Thinking { text } => text,
            _ => Seq::empty(),
        }
    }
}

/// The thinking of a response: the text of its reasoning blocks, when there
/// is any.
pub open spec fn spec_extract_thinking(reasoning: Seq<ContentBlockV>) -> Option<Seq<char>> {
    if reasoning.len() == 0 || spec_thinking_text(reasoning).len() == 0 {
        None
    } else {
        Some(spec_thinking_text(reasoning))
    }
}

/// Extract all text from content blocks, concatenated.
pub fn extract_text(content: &Vec<ContentBlock>) -> (r: String)
    ensures
        r@ == spec_extract_text(blocks_view(content@)),
{
    let mut out: Vec<char> = Vec::new();
    let mut i: usize = 0;
    while i < content.len()
        invariant
            i <= content.len(),
            out@ == spec_extract_text(blocks_view(content@).take(i as int)),
        decreases content.len() - i,
    {
        assert(blocks_view(content@).take(i + 1).drop_last() =~= blocks_view(content@).take(i as int));
        match &content[i] {
            ContentBlock::Text { text } => {
                push_chars(&mut out, text.as_str());
            }
            _ => {}
        }
        i += 1;
    }
    assert(blocks_view(content@).take(content.len() as int) =~= blocks_view(content@));
    string_of(out.as_slice())
}

/// The thinking texts of the reasoning blocks, concatenated.
pub fn thinking_text(reasoning: &Vec<ContentBlock>) -> (r: String)
    ensures
        r@ == spec_thinking_text(blocks_view(reasoning@)),
{
    let mut out: Vec<char> = Vec::new();
    let mut i: usize = 0;
    while i < reasoning.len()
        invariant
            i <= reasoning.len(),
            out@ == spec_thinking_text(blocks_view(reasoning@).take(i as int)),
        decreases reasoning.len() - i,
    {
        assert(blocks_view(reasoning@).take(i + 1).drop_last() =~= blocks_view(reasoning@).take(i as int));
        match &reasoning[i] {
            ContentBlock::Thinking { text } => {
                push_chars(&mut out, text.as_str());
            }
            _ => {}
        }
        i += 1;
    }
    assert(blocks_view(reasoning@).take(reasoning.len() as int) =~= blocks_view(reasoning@));
    string_of(out.as_slice())
}

/// Extract thinking text from the response's reasoning blocks.
pub fn extract_thinking(response: &CompletionResponse) -> (r: Option<String>)
    ensures
        r matches Some(t) ==> spec_extract_thinking(blocks_view(response.reasoning@)) == Some(t@),
        r is None ==> spec_extract_thinking(blocks_view(response.reasoning@)) is None,
{
    if response.reasoning.len() == 0 {
        return None;
    }
    let text = thinking_text(&response.reasoning);
    if text.as_str().is_empty() {
        None
    } else {
        Some(text)
    }
}

/// The role a stored role name denotes.
pub open spec fn spec_parse_role(role: Seq<char>) -> Option<LlmRole> {
    if role == "system"@ {
        Some(LlmRole::System)
    } else if role == "user"@ {
        Some(LlmRole::User)
    } else if role == "assistant"@ {
        Some(LlmRole::Assistant)
    } else if role == "tool"@ {
        Some(LlmRole::Tool)
    } else {
        None
    }
}

/// Parse a role string from the database into an `LlmRole`.
pub fn parse_role(role: &str) -> (r: Option<LlmRole>)
    ensures
        r == spec_parse_role(role@),
{
    if str_eq(role, "system") {
        Some(LlmRole::System)
    } else if str_eq(role, "user") {
        Some(LlmRole::User)
    } else if str_eq(role, "assistant") {
        Some(LlmRole::Assistant)
    } else if str_eq(role, "tool") {
        Some(LlmRole::Tool)
    } else {
        None
    }
}

// ── The stored JSON form of content blocks ──────────────────────

/// An empty JSON object.
pub open spec fn empty_object() -> JsonV {
    JsonV::Object(Seq::empty())
}

/// `o`, or `d` when there is none.
pub open spec fn str_or(o: Option<Seq<char>>, d: Seq<char>) -> Seq<char> {
    match o {
        Some(s) => s,
        None => d,
    }
}

/// The JSON form of a content block: an object tagged by `type`, with the
/// block's fields.
pub open spec fn spec_block_json(b: ContentBlockV) -> JsonV {
    match b {
        ContentBlockV::Text { text } => JsonV::Object(seq![
            ("type"@, JsonV::Str("text"@)),
            ("text"@, JsonV::Str(text)),
        ]),
        ContentBlockV::ToolUse { id, name, input } => JsonV::Object(seq![
            ("type"@, JsonV::Str("tool_use"@)),
            ("id"@, JsonV::Str(id)),
            ("name"@, JsonV::Str(name)),
            ("input"@, input),
        ]),
        ContentBlockV::ToolResult { tool_use_id, content, is_error } => JsonV::Object(seq![
            ("type"@, JsonV::Str("tool_result"@)),
            ("tool_use_id"@, JsonV::Str(tool_use_id)),
            ("content"@, JsonV::Str(content)),
            ("is_error"@, JsonV::Bool(is_error)),
        ]),
        ContentBlockV::Thinking { text } => JsonV::Object(seq![
            ("type"@, JsonV::Str("thinking"@)),
            ("text"@, JsonV::Str(text)),
        ]),
    }
}

/// An optional boolean member: absent means `false`; a non-boolean is refused.
pub open spec fn flag_or_false(o: Option<JsonV>) -> Option<bool> {
    match o {
        None => Some(false),
        Some(JsonV::Bool(b)) => Some(b),
        Some(_) => None,
    }
}

/// The content block a JSON value is the form of, if any.
pub open spec fn spec_block_from_json(j: JsonV) -> Option<ContentBlockV> {
    match jget_str(j, "type"@) {
        Some(t) => if t == "text"@ {
            match jget_str(j, "text"@) {
                Some(x) => Some(ContentBlockV::Text { text: x }),
                None => None,
            }
        } else if t == "tool_use"@ {
            match (jget_str(j, "id"@), jget_str(j, "name"@), jget(j, "input"@)) {
                (Some(id), Some(name), Some(input)) => Some(ContentBlockV::ToolUse { id, name, input }),
                _ => None,
            }
        } else if t == "tool_result"@ {
            match (jget_str(j, "tool_use_id"@), jget_str(j, "content"@), flag_or_false(jget(j, "is_error"@))) {
                (Some(id), Some(c), Some(e)) => Some(ContentBlockV::ToolResult { tool_use_id: id, content: c, is_error: e }),
                _ => None,
            }
        } else if t == "thinking"@ {
            match jget_str(j, "text"@) {
                Some(x) => Some(ContentBlockV::Thinking { text: x }),
                None => None,
            }
        } else {
            None
        },
        None => None,
    }
}

/// The content blocks a sequence of JSON values are the forms of, if all are.
pub open spec fn spec_blocks_from_seq(s: Seq<JsonV>) -> Option<Seq<ContentBlockV>>
    decreases s.len(),
{
    if s.len() == 0 {
        Some(Seq::empty())
    } else {
        match (spec_blocks_from_seq(s.drop_last()), spec_block_from_json(s.last())) {
            (Some(bs), Some(b)) => Some(bs.push(b)),
            _ => None,
        }
    }
}

/// Once a prefix holds a value that is no block's form, so does the whole.
proof fn lemma_blocks_from_seq_prefix_none(s: Seq<JsonV>, k: int)
    requires
        0 <= k <= s.len(),
        spec_blocks_from_seq(s.take(k)) is None,
    ensures
        spec_blocks_from_seq(s) is None,
    decreases s.len() - k,
{
    if k < s.len() {
        assert(s.take(k + 1).drop_last() =~= s.take(k));
        lemma_blocks_from_seq_prefix_none(s, k + 1);
    } else {
        assert(s.take(k) =~= s);
    }
}

/// The content blocks a JSON array is the form of, if it is one.
pub open spec fn spec_blocks_from_json(j: JsonV) -> Option<Seq<ContentBlockV>> {
    match j {
        JsonV::Array(a) => spec_blocks_from_seq(a),
        _ => None,
    }
}

/// The JSON form of a content block.
pub fn content_block_to_json(b: &ContentBlock) -> (r: Json)
    ensures
        r@ == spec_block_json(b@),
{
    let mut entries: Vec<(String, Json)> = Vec::new();
    match b {
        ContentBlock::Text { text } => {
            entries.push(("type".to_string(), jstring("text")));
            entries.push(("text".to_string(), Json::Str(text.clone())));
        }
        ContentBlock::ToolUse { id, name, input } => {
            entries.push(("type".to_string(), jstring("tool_use")));
            entries.push(("id".to_string(), Json::Str(id.clone())));
            entries.push(("name".to_string(), Json::Str(name.clone())));
            entries.push(("input".to_string(), input.deep_clone()));
        }
        ContentBlock::ToolResult { tool_use_id, content, is_error } => {
            entries.push(("type".to_string(), jstring("tool_result")));
            entries.push(("tool_use_id".to_string(), Json::Str(tool_use_id.clone())));
            entries.push(("content".to_string(), Json::Str(content.clone())));
            entries.push(("is_error".to_string(), Json::Bool(*is_error)));
        }
        ContentBlock::Thinking { text } => {
            entries.push(("type".to_string(), jstring("thinking")));
            entries.push(("text".to_string(), Json::Str(text.clone())));
        }
    }
    let r = Json::Object(entries);
    proof { lemma_view_object(&r); }
    assert(r@->Object_0 =~= spec_block_json(b@)->Object_0);
    r
}

/// The JSON form of a sequence of content blocks: an array of their forms.
pub fn content_blocks_to_json(v: &Vec<ContentBlock>) -> (r: Json)
    ensures
        r@ == JsonV::Array(blocks_view(v@).map_values(|b: ContentBlockV| spec_block_json(b))),
{
    let mut out: Vec<Json> = Vec::new();
    let mut i: usize = 0;
    while i < v.len()
        invariant
            i <= v.len(),
            out.len() == i,
            forall|k: int| 0 <= k < i ==> (#[trigger] out@[k])@ == spec_block_json(v@[k]@),
        decreases v.len() - i,
    {
        out.push(content_block_to_json(&v[i]));
        i += 1;
    }
    let r = Json::Array(out);
    proof { lemma_view_array(&r); }
    assert(r@->Array_0 =~= blocks_view(v@).map_values(|b: ContentBlockV| spec_block_json(b)));
    r
}

/// The member `key` of `j` as a string, copied out.
fn get_string(j: &Json, key: &str) -> (r: Option<String>)
    ensures
        r is Some <==> jget_str(j@, key@) is Some,
        r matches Some(s) ==> jget_str(j@, key@) == Some(s@),
{
    match j.get(key) {
        Some(x) => match x.as_str() {
            Some(s) => Some(s.clone()),
            None => None,
        },
        None => None,
    }
}

/// The content block a JSON value is the form of, if any.
pub fn content_block_from_json(j: &Json) -> (r: Option<ContentBlock>)
    ensures
        r is Some <==> spec_block_from_json(j@) is Some,
        r matches Some(b) ==> spec_block_from_json(j@) == Some(b@),
{
    let t = match get_string(j, "type") {
        Some(t) => t,
        None => return None,
    };
    if str_eq(t.as_str(), "text") {
        match get_string(j, "text") {
            Some(x) => Some(ContentBlock::Text { text: x }),
            None => None,
        }
    } else if str_eq(t.as_str(), "tool_use") {
        let id = get_string(j, "id");
        let name = get_string(j, "name");
        let input = j.get("input");
        match (id, name, input) {
            (Some(id), Some(name), Some(input)) => Some(ContentBlock::ToolUse { id, name, input: input.deep_clone() }),
            _ => None,
        }
    } else if str_eq(t.as_str(), "tool_result") {
        let id = get_string(j, "tool_use_id");
        let c = get_string(j, "content");
        let e = match j.get("is_error") {
            None => Some(false),
            Some(Json::Bool(b)) => Some(*b),
            Some(_) => None,
        };
        match (id, c, e) {
            (Some(id), Some(c), Some(e)) => Some(ContentBlock::ToolResult { tool_use_id: id, content: c, is_error: e }),
            _ => None,
        }
    } else if str_eq(t.as_str(), "thinking") {
        match get_string(j, "text") {
            Some(x) => Some(ContentBlock::Thinking { text: x }),
            None => None,
        }
    } else {
        None
    }
}

/// The content blocks a JSON array is the form of, if it is an array and
/// every element is the form of a block.
pub fn content_blocks_from_json(j: &Json) -> (r: Option<Vec<ContentBlock>>)
    ensures
        r is Some <==> spec_blocks_from_json(j@) is Some,
        r matches Some(v) ==> spec_blocks_from_json(j@) == Some(blocks_view(v@)),
{
    let a = match j.as_array() {
        Some(a) => a,
        None => return None,
    };
    let ghost av = a@.map_values(|x: Json| x@);
    assert(j@ == JsonV::Array(av));
    let mut out: Vec<ContentBlock> = Vec::new();
    let mut i: usize = 0;
    while i < a.len()
        invariant
            i <= a.len(),
            av == a@.map_values(|x: Json| x@),
            j@ == JsonV::Array(av),
            spec_blocks_from_seq(av.take(i as int)) == Some(blocks_view(out@)),
        decreases a.len() - i,
    {
        assert(av.take(i + 1).drop_last() =~= av.take(i as int));
        assert(av.take(i + 1).last() == a@[i as int]@);
        match content_block_from_json(&a[i]) {
            Some(b) => {
                let ghost before = out@;
                out.push(b);
                assert(blocks_view(out@) =~= blocks_view(before).push(b@));
            }
            None => {
                assert(spec_block_from_json(av.take(i + 1).last()) is None);
                assert(spec_blocks_from_seq(av.take(i + 1)) is None);
                proof { lemma_blocks_from_seq_prefix_none(av, i + 1); }
                assert(av.take(a.len() as int) =~= av);
                return None;
            }
        }
        i += 1;
    }
    assert(av.take(a.len() as int) =~= av);
    Some(out)
}

/// Reading back the JSON form of a content block gives the block.
pub proof fn lemma_block_json_roundtrip(b: ContentBlockV)
    ensures
        spec_block_from_json(spec_block_json(b)) == Some(b),
{
    reveal_strlit("type");
    reveal_strlit("text");
    reveal_strlit("tool_use");
    reveal_strlit("id");
    reveal_strlit("name");
    reveal_strlit("input");
    reveal_strlit("tool_result");
    reveal_strlit("tool_use_id");
    reveal_strlit("content");
    reveal_strlit("is_error");
    reveal_strlit("thinking");
    let m = spec_block_json(b)->Object_0;
    reveal_with_fuel(obj_lookup, 5);
    assert("type"@ != "text"@) by { assert("type"@[1] != "text"@[1]); }
    assert("text"@ != "tool_use"@) by { assert("text"@.len() != "tool_use"@.len()); }
    assert("text"@ != "tool_result"@) by { assert("text"@.len() != "tool_result"@.len()); }
    assert("tool_use"@ != "tool_result"@) by { assert("tool_use"@.len() != "tool_result"@.len()); }
    assert("text"@ != "thinking"@) by { assert("text"@.len() != "thinking"@.len()); }
    assert("tool_use"@ != "thinking"@) by { assert("tool_use"@[1] != "thinking"@[1]); }
    assert("tool_result"@ != "thinking"@) by { assert("tool_result"@.len() != "thinking"@.len()); }
    assert("type"@ != "id"@) by { assert("type"@.len() != "id"@.len()); }
    assert("type"@ != "name"@) by { assert("type"@[0] != "name"@[0]); }
    assert("id"@ != "name"@) by { assert("id"@.len() != "name"@.len()); }
    assert("type"@ != "input"@) by { assert("type"@.len() != "input"@.len()); }
    assert("id"@ != "input"@) by { assert("id"@.len() != "input"@.len()); }
    assert("name"@ != "input"@) by { assert("name"@.len() != "input"@.len()); }
    assert("type"@ != "tool_use_id"@) by { assert("type"@.len() != "tool_use_id"@.len()); }
    assert("type"@ != "content"@) by { assert("type"@.len() != "content"@.len()); }
    assert("tool_use_id"@ != "content"@) by { assert("tool_use_id"@.len() != "content"@.len()); }
    assert("type"@ != "is_error"@) by { assert("type"@.len() != "is_error"@.len()); }
    assert("tool_use_id"@ != "is_error"@) by { assert("tool_use_id"@.len() != "is_error"@.len()); }
    assert("content"@ != "is_error"@) by { assert("content"@.len() != "is_error"@.len()); }
    match b {
        ContentBlockV::Text { text } => {
            assert(m.subrange(1, m.len() as int) =~= seq![("text"@, JsonV::Str(text))]);
        }
        ContentBlockV::ToolUse { id, name, input } => {
            assert(m.subrange(1, m.len() as int) =~= seq![("id"@, JsonV::Str(id)), ("name"@, JsonV::Str(name)), ("input"@, input)]);
            let m1 = m.subrange(1, m.len() as int);
            assert(m1.subrange(1, m1.len() as int) =~= seq![("name"@, JsonV::Str(name)), ("input"@, input)]);
            let m2 = m1.subrange(1, m1.len() as int);
            assert(m2.subrange(1, m2.len() as int) =~= seq![("input"@, input)]);
        }
        ContentBlockV::ToolResult { tool_use_id, content, is_error } => {
            assert(m.subrange(1, m.len() as int) =~= seq![("tool_use_id"@, JsonV::Str(tool_use_id)), ("content"@, JsonV::Str(content)), ("is_error"@, JsonV::Bool(is_error))]);
            let m1 = m.subrange(1, m.len() as int);
            assert(m1.subrange(1, m1.len() as int) =~= seq![("content"@, JsonV::Str(content)), ("is_error"@, JsonV::Bool(is_error))]);
            let m2 = m1.subrange(1, m1.len() as int);
            assert(m2.subrange(1, m2.len() as int) =~= seq![("is_error"@, JsonV::Bool(is_error))]);
        }
        ContentBlockV::Thinking { text } => {
            assert(m.subrange(1, m.len() as int) =~= seq![("text"@, JsonV::Str(text))]);
        }
    }
}

/// Reading back the JSON form of a sequence of content blocks gives the
/// blocks.
pub proof fn lemma_blocks_json_roundtrip(bs: Seq<ContentBlockV>)
    ensures
        spec_blocks_from_json(JsonV::Array(bs.map_values(|b: ContentBlockV| spec_block_json(b)))) == Some(bs),
    decreases bs.len(),
{
    let js = bs.map_values(|b: ContentBlockV| spec_block_json(b));
    if bs.len() > 0 {
        lemma_blocks_json_roundtrip(bs.drop_last());
        assert(js.drop_last() =~= bs.drop_last().map_values(|b: ContentBlockV| spec_block_json(b)));
        lemma_block_json_roundtrip(bs.last());
        assert(bs.drop_last().push(bs.last()) =~= bs);
    } else {
        assert(js =~= Seq::<JsonV>::empty());
    }
}

// ── Stored history content ───────────────────────────────────────

/// serde_json's compact text of a JSON value.
pub open spec fn jtext(v: JsonV) -> Seq<char> {
    spec_json_text(serde_form(v))
}

/// A text block.
pub open spec fn text_block(t: Seq<char>) -> ContentBlockV {
    ContentBlockV::Text { text: t }
}

/// The input of a legacy OpenAI tool call: its `arguments` text parsed as
/// JSON, or an empty object when there is no such text or it does not parse.
pub open spec fn legacy_arguments(func: JsonV) -> JsonV {
    match jget_str(func, "arguments"@) {
        Some(a) => match spec_json_parse(a) {
            Some(x) => x,
            None => empty_object(),
        },
        None => empty_object(),
    }
}

/// The tool-use block of a legacy tool call: OpenAI's
/// `{id, function: {name, arguments}}` or Anthropic's
/// `{type: "tool_use", id, name, input}`; other entries give none.
pub open spec fn legacy_tool_call(tc: JsonV) -> Option<ContentBlockV> {
    match jget(tc, "function"@) {
        Some(func) => Some(ContentBlockV::ToolUse {
            id: str_or(jget_str(tc, "id"@), "unknown"@),
            name: str_or(jget_str(func, "name"@), "unknown"@),
            input: legacy_arguments(func),
        }),
        None => if jget_str(tc, "type"@) == Some("tool_use"@) {
            Some(ContentBlockV::ToolUse {
                id: str_or(jget_str(tc, "id"@), "unknown"@),
                name: str_or(jget_str(tc, "name"@), "unknown"@),
                input: match jget(tc, "input"@) {
                    Some(x) => x,
                    None => empty_object(),
                },
            })
        } else {
            None
        },
    }
}

/// The tool-use blocks of a list of legacy tool calls, in order.
pub open spec fn legacy_tool_calls(tcs: Seq<JsonV>) -> Seq<ContentBlockV>
    decreases tcs.len(),
{
    if tcs.len() == 0 {
        Seq::empty()
    } else {
        legacy_tool_calls(tcs.drop_last()) + match legacy_tool_call(tcs.last()) {
            Some(b) => seq![b],
            None => Seq::empty(),
        }
    }
}

/// The text block of a legacy assistant message's `content`: the string if
/// it is a non-empty one, the JSON text of any other non-null value if
/// non-empty.
pub open spec fn legacy_assistant_text(obj: JsonV) -> Seq<ContentBlockV> {
    match jget(obj, "content"@) {
        Some(JsonV::Str(t)) => if t.len() > 0 { seq![text_block(t)] } else { Seq::empty() },
        Some(JsonV::Null) => Seq::empty(),
        Some(c) => if jtext(c).len() > 0 { seq![text_block(jtext(c))] } else { Seq::empty() },
        None => Seq::empty(),
    }
}

/// The blocks of a legacy assistant object: its text, then its tool calls;
/// its JSON text when it has neither.
pub open spec fn legacy_assistant_blocks(obj: JsonV) -> Seq<ContentBlockV> {
    let bs = legacy_assistant_text(obj) + legacy_tool_calls(match jget_arr(obj, "tool_calls"@) {
        Some(a) => a,
        None => Seq::empty(),
    });
    if bs.len() > 0 { bs } else { seq![text_block(jtext(obj))] }
}

/// The content blocks of a stored history message.
///
/// A string is one text block. An array is the blocks it is the form of,
/// when it is the non-empty form of some; otherwise its JSON text (empty
/// text for an empty array). An object is read in the legacy formats: an
/// assistant's `{content, tool_calls}`, a tool's `{tool_call_id, content}`.
/// Anything else becomes its JSON text.
pub open spec fn spec_history_content(role: LlmRole, v: JsonV) -> Seq<ContentBlockV> {
    match v {
        JsonV::Str(s) => seq![text_block(s)],
        JsonV::Array(a) => {
            if spec_blocks_from_json(v) is Some && spec_blocks_from_json(v)->0.len() > 0 {
                spec_blocks_from_json(v)->0
            } else if a.len() > 0 {
                seq![text_block(jtext(v))]
            } else {
                seq![text_block(Seq::empty())]
            }
        },
        JsonV::Object(_) => match role {
            LlmRole::Assistant => legacy_assistant_blocks(v),
            LlmRole::Tool => match jget_str(v, "tool_call_id"@) {
                Some(id) => seq![ContentBlockV::ToolResult {
                    tool_use_id: id,
                    content: str_or(jget_str(v, "content"@), Seq::empty()),
                    is_error: false,
                }],
                None => seq![text_block(jtext(v))],
            },
            _ => seq![text_block(jtext(v))],
        },
        _ => seq![text_block(jtext(v))],
    }
}

/// The member `key` of `j` as a string, or `default`.
fn get_string_or(j: &Json, key: &str, default: &str) -> (r: String)
    ensures
        r@ == str_or(jget_str(j@, key@), default@),
{
    match get_string(j, key) {
        Some(s) => s,
        None => default.to_string(),
    }
}

/// A text block.
fn text_of(s: String) -> (r: ContentBlock)
    ensures
        r@ == text_block(s@),
{
    ContentBlock::Text { text: s }
}

/// An empty JSON object.
fn new_empty_object() -> (r: Json)
    ensures
        r@ == empty_object(),
{
    let r = Json::Object(Vec::new());
    proof { lemma_view_object(&r); }
    assert(r@->Object_0 =~= Seq::<(Seq<char>, JsonV)>::empty());
    r
}

/// The tool-use block of a legacy tool call, if it is one.
fn legacy_tool_call_block(tc: &Json) -> (r: Option<ContentBlock>)
    ensures
        r is Some <==> legacy_tool_call(tc@) is Some,
        r matches Some(b) ==> legacy_tool_call(tc@) == Some(b@),
{
    match tc.get("function") {
        Some(func) => {
            let name = get_string_or(func, "name", "unknown");
            let id = get_string_or(tc, "id", "unknown");
            let input = match func.get("arguments") {
                Some(a) => match a.as_str() {
                    Some(text) => match parse_json(text.as_str()) {
                        Some(x) => x,
                        None => new_empty_object(),
                    },
                    None => new_empty_object(),
                },
                None => new_empty_object(),
            };
            Some(ContentBlock::ToolUse { id, name, input })
        }
        None => {
            let is_tool_use = match get_string(tc, "type") {
                Some(t) => str_eq(t.as_str(), "tool_use"),
                None => false,
            };
            if is_tool_use {
                let id = get_string_or(tc, "id", "unknown");
                let name = get_string_or(tc, "name", "unknown");
                let input = match tc.get("input") {
                    Some(x) => x.deep_clone(),
                    None => new_empty_object(),
                };
                Some(ContentBlock::ToolUse { id, name, input })
            } else {
                None
            }
        }
    }
}

/// The blocks of a legacy assistant object.
fn legacy_assistant(value: &Json) -> (r: Vec<ContentBlock>)
    requires
        value@ is Object,
    ensures
        blocks_view(r@) == legacy_assistant_blocks(value@),
{
    let mut blocks: Vec<ContentBlock> = Vec::new();
    match value.get("content") {
        Some(content_val) => {
            match content_val.as_str() {
                Some(text) => {
                    if !text.as_str().is_empty() {
                        blocks.push(text_of(text.clone()));
                    }
                }
                None => {
                    if !content_val.is_null() {
                        let text = json_text(content_val);
                        if !text.as_str().is_empty() {
                            blocks.push(text_of(text));
                        }
                    }
                }
            }
        }
        None => {}
    }
    assert(blocks_view(blocks@) =~= legacy_assistant_text(value@));
    let ghost head = blocks_view(blocks@);
    let ghost tcs: Seq<JsonV> = match jget_arr(value@, "tool_calls"@) {
        Some(a) => a,
        None => Seq::empty(),
    };
    match value.get("tool_calls") {
        Some(tcv) => match tcv.as_array() {
            Some(tool_calls) => {
                assert(tcs == tool_calls@.map_values(|x: Json| x@));
                let mut i: usize = 0;
                while i < tool_calls.len()
                    invariant
                        i <= tool_calls.len(),
                        tcs == tool_calls@.map_values(|x: Json| x@),
                        blocks_view(blocks@) == head + legacy_tool_calls(tcs.take(i as int)),
                    decreases tool_calls.len() - i,
                {
                    assert(tcs.take(i + 1).drop_last() =~= tcs.take(i as int));
                    assert(tcs.take(i + 1).last() == tool_calls@[i as int]@);
                    match legacy_tool_call_block(&tool_calls[i]) {
                        Some(b) => {
                            let ghost before = blocks@;
                            blocks.push(b);
                            assert(blocks_view(blocks@) =~= blocks_view(before).push(b@));
                            assert(blocks_view(blocks@) =~= head + legacy_tool_calls(tcs.take(i + 1)));
                        }
                        None => {
                            assert(blocks_view(blocks@) =~= head + legacy_tool_calls(tcs.take(i + 1)));
                        }
                    }
                    i += 1;
                }
                assert(tcs.take(tool_calls.len() as int) =~= tcs);
            }
            None => {
                assert(legacy_tool_calls(tcs) =~= Seq::<ContentBlockV>::empty());
                assert(blocks_view(blocks@) =~= head + legacy_tool_calls(tcs));
            }
        },
        None => {
            assert(legacy_tool_calls(tcs) =~= Seq::<ContentBlockV>::empty());
            assert(blocks_view(blocks@) =~= head + legacy_tool_calls(tcs));
        }
    }
    if blocks.len() == 0 {
        let mut out: Vec<ContentBlock> = Vec::new();
        out.push(text_of(json_text(value)));
        assert(blocks_view(out@) =~= seq![text_block(jtext(value@))]);
        out
    } else {
        blocks
    }
}

/// A vector of one block.
fn single(b: ContentBlock) -> (r: Vec<ContentBlock>)
    ensures
        blocks_view(r@) == seq![b@],
{
    let mut out: Vec<ContentBlock> = Vec::new();
    out.push(b);
    assert(blocks_view(out@) =~= seq![b@]);
    out
}

/// Parse stored history content (JSON) back into content blocks: plain
/// strings, arrays in the blocks' JSON form, and the legacy assistant and
/// tool objects.
pub fn parse_history_content(role: LlmRole, value: &Json) -> (r: Vec<ContentBlock>)
    ensures
        blocks_view(r@) == spec_history_content(role, value@),
{
    match value {
        Json::Str(text) => {
            let r = single(text_of(text.clone()));
            assert(blocks_view(r@) == spec_history_content(role, value@));
            r
        }
        Json::Array(arr) => {
            match content_blocks_from_json(value) {
                Some(blocks) => {
                    assert(blocks_view(blocks@).len() == blocks@.len());
                    if blocks.len() > 0 {
                        assert(blocks_view(blocks@) == spec_history_content(role, value@));
                        return blocks;
                    }
                }
                None => {}
            }
            proof { lemma_view_array(value); }
            assert(value@ is Array && value@->Array_0.len() == arr@.len());
            if arr.len() > 0 {
                let r = single(text_of(json_text(value)));
                assert(blocks_view(r@) == spec_history_content(role, value@));
                r
            } else {
                let r = single(text_of(String::new()));
                assert(blocks_view(r@) == spec_history_content(role, value@));
                r
            }
        }
        Json::Object(_) => match role {
            LlmRole::Assistant => {
                assert(value@ is Object);
                legacy_assistant(value)
            }
            LlmRole::Tool => match get_string(value, "tool_call_id") {
                Some(id) => {
                    let content = get_string_or(value, "content", "");
                    proof { reveal_strlit(""); }
                    assert(""@ =~= Seq::<char>::empty());
                    assert(value@ is Object);
                    let r = single(ContentBlock::ToolResult { tool_use_id: id, content, is_error: false });
                    assert(blocks_view(r@) == spec_history_content(role, value@));
                    r
                }
                None => {
                    let r = single(text_of(json_text(value)));
                    assert(blocks_view(r@) == spec_history_content(role, value@));
                    r
                }
            },
            _ => {
                let r = single(text_of(json_text(value)));
                assert(blocks_view(r@) == spec_history_content(role, value@));
                r
            }
        },
        _ => {
            let r = single(text_of(json_text(value)));
            assert(blocks_view(r@) == spec_history_content(role, value@));
            r
        }
    }
}

} // verus!
