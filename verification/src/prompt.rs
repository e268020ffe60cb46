//! Prompt-assembly types: named sections, delegate entries, datasource
//! policies, and the token estimate used for budgets.

use vstd::prelude::*;
use vstd::utf8::encode_utf8;
use crate::codec::{json_text, serde_form, spec_json_text};
use crate::json::{Json, JsonV};

verus! {

/// The UTF-8 length of a character sequence (`str::len`).
pub open spec fn utf8_len(s: Seq<char>) -> nat {
    encode_utf8(s).len()
}

/// Estimated token count of a text: a quarter of its UTF-8 length, at least 1,
/// cast to `i32`.
pub open spec fn spec_estimate_tokens(s: Seq<char>) -> i32 {
    let q = (utf8_len(s) as usize) / 4;
    (if q < 1 { 1 } else { q }) as i32
}

/// Estimate token count: ~4 characters per token.
pub fn estimate_tokens(text: &str) -> (r: i32)
    ensures
        r == spec_estimate_tokens(text@),
{
    let n = text.len();
    let q = n / 4;
    let q = if q < 1 { 1 } else { q };
    #[verifier::truncate]
    (q as i32)
}

/// Estimated token count of a JSON value: that of its compact JSON text.
pub open spec fn spec_estimate_tokens_json(v: JsonV) -> i32 {
    spec_estimate_tokens(spec_json_text(serde_form(v)))
}

/// Estimate tokens for a JSON value by serializing it.
pub fn estimate_tokens_json(value: &Json) -> (r: i32)
    ensures
        r == spec_estimate_tokens_json(value@),
{
    let s = json_text(value);
    estimate_tokens(s.as_str())
}

/// A named section of the system prompt.
pub struct PromptSection {
    pub label: String,
    pub content: String,
    pub token_count: i32,
}

/// A delegate agent entry in the Delegates prompt block.
pub struct DelegateAgent {
    pub name: String,
    pub description: String,
    pub when: String,
}

/// What to do when a datasource's metadata variables are missing.
#[derive(PartialEq, Eq, Structural, Clone, Copy, Debug)]
pub enum OnMissing {
    Skip,
    Fail,
}

/// Default token budget of a knowledge or datasource block.
pub fn default_budget() -> (r: i32)
    ensures
        r == 500,
{
    500
}

/// Default policy for a datasource whose variables are missing.
pub fn default_on_missing() -> (r: OnMissing)
    ensures
        r == OnMissing::Skip,
{
    OnMissing::Skip
}

/// Default HTTP method of an HTTP datasource.
pub fn default_http_method() -> (r: String)
    ensures
        r@ == "GET"@,
{
    "GET".to_string()
}

} // verus!
