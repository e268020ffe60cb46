//! Training data export: the accepted export formats and quality tiers, the
//! grouping of stored messages under the conversations they belong to, and
//! the preference pairs built from corrections.

use vstd::prelude::*;
use crate::error::CasperError;
use crate::json::{Json, JsonV};
use crate::text::{push_chars, str_eq, string_of};

verus! {

/// The export format when the request names none.
pub fn default_format() -> (r: String)
    ensures
        r@ == "jsonl"@,
{
    "jsonl".to_string()
}

/// How many records an export returns when the request names no limit.
pub fn default_limit() -> (r: i64)
    ensures
        r == 1000,
{
    1000
}

/// Query parameters of an export.
pub struct ExportParams {
    pub format: String,
    pub tier: Option<String>,
    pub agent: Option<String>,
    pub from: Option<String>,
    pub to: Option<String>,
    pub limit: i64,
}

/// What an export returns.
#[derive(PartialEq, Eq, Structural, Clone, Copy, Debug)]
pub enum ExportKind {
    /// Conversations with their messages and quality tier (`jsonl`).
    Conversations,
    /// Corrected replies as preference pairs (`pairs`).
    Pairs,
}

/// The accepted formats, joined for error messages.
pub open spec fn formats_text() -> Seq<char> {
    "jsonl, pairs"@
}

/// The accepted quality tiers, joined for error messages.
pub open spec fn tiers_text() -> Seq<char> {
    "gold, silver, bronze, excluded"@
}

/// Whether `t` is one of the quality tiers.
pub open spec fn is_tier(t: Seq<char>) -> bool {
    t == "gold"@ || t == "silver"@ || t == "bronze"@ || t == "excluded"@
}

/// Whether an optional tier is absent or one of the quality tiers.
pub open spec fn tier_ok(tier: Option<String>) -> bool {
    match tier {
        Some(t) => is_tier(t@),
        None => true,
    }
}

/// Whether an export is accepted: a known format, and a known tier or none.
pub open spec fn export_accepted(format: Seq<char>, tier: Option<String>) -> bool {
    (format == "jsonl"@ || format == "pairs"@) && tier_ok(tier)
}

/// Checks an export's format and tier: the format must be `jsonl` or
/// `pairs`, a tier, when given, one of `gold`, `silver`, `bronze`,
/// `excluded`; the format is checked first.
pub fn validate_export(params: &ExportParams) -> (r: Result<ExportKind, CasperError>)
    ensures
        r is Ok <==> export_accepted(params.format@, params.tier),
        params.format@ == "jsonl"@ && tier_ok(params.tier) ==> r == Ok::<ExportKind, CasperError>(ExportKind::Conversations),
        params.format@ == "pairs"@ && tier_ok(params.tier) ==> r == Ok::<ExportKind, CasperError>(ExportKind::Pairs),
        !(params.format@ == "jsonl"@ || params.format@ == "pairs"@) ==> (r matches Err(CasperError::BadRequest(m))
            && m@ == "invalid format '"@ + params.format@ + "', must be one of: "@ + formats_text()),
        (params.format@ == "jsonl"@ || params.format@ == "pairs"@) ==> (params.tier matches Some(t) ==> (!is_tier(t@)
            ==> (r matches Err(CasperError::BadRequest(m)) && m@ == "invalid tier '"@ + t@ + "', must be one of: "@ + tiers_text()))),
{
    proof {
        reveal_strlit("jsonl");
        reveal_strlit("pairs");
    }
    let f = params.format.as_str();
    let kind = if str_eq(f, "jsonl") {
        ExportKind::Conversations
    } else if str_eq(f, "pairs") {
        ExportKind::Pairs
    } else {
        let mut v: Vec<char> = Vec::new();
        push_chars(&mut v, "invalid format '");
        push_chars(&mut v, f);
        push_chars(&mut v, "', must be one of: ");
        push_chars(&mut v, "jsonl, pairs");
        return Err(CasperError::BadRequest(string_of(v.as_slice())));
    };
    assert("jsonl"@ != "pairs"@) by {
        assert("jsonl"@[0] != "pairs"@[0]);
    }
    match &params.tier {
        Some(t) => {
            let ts = t.as_str();
            if !(str_eq(ts, "gold") || str_eq(ts, "silver") || str_eq(ts, "bronze") || str_eq(ts, "excluded")) {
                let mut v: Vec<char> = Vec::new();
                push_chars(&mut v, "invalid tier '");
                push_chars(&mut v, ts);
                push_chars(&mut v, "', must be one of: ");
                push_chars(&mut v, "gold, silver, bronze, excluded");
                return Err(CasperError::BadRequest(string_of(v.as_slice())));
            }
        },
        None => {},
    }
    Ok(kind)
}

/// A stored message of an exported conversation (`created_at` in Unix
/// nanoseconds).
pub struct TrainingMessage {
    pub role: String,
    pub content: Json,
    pub created_at: i128,
}

/// An exported conversation with its messages.
pub struct TrainingConversation {
    pub conversation_id: u128,
    pub agent_name: String,
    pub quality_tier: String,
    pub outcome: Option<String>,
    pub created_at: i128,
    pub messages: Vec<TrainingMessage>,
}

/// A conversation row of the quality view, in export order.
pub struct QualityRow {
    pub id: u128,
    pub agent_name: String,
    pub outcome: Option<String>,
    pub created_at: i128,
    pub quality_tier: String,
}

/// A message row, tagged with its conversation.
pub struct MessageRow {
    pub conversation_id: u128,
    pub role: String,
    pub content: Json,
    pub created_at: i128,
}

/// The abstract value of an exported message.
pub struct TrainingMessageV {
    pub role: Seq<char>,
    pub content: JsonV,
    pub created_at: i128,
}

/// The abstract value of a message row.
pub open spec fn row_message_view(m: MessageRow) -> TrainingMessageV {
    TrainingMessageV { role: m.role@, content: m.content@, created_at: m.created_at }
}

/// The abstract value of an exported message.
pub open spec fn message_view(m: TrainingMessage) -> TrainingMessageV {
    TrainingMessageV { role: m.role@, content: m.content@, created_at: m.created_at }
}

/// The messages of conversation `id`, in the order of the rows.
pub open spec fn messages_of(rows: Seq<MessageRow>, id: u128) -> Seq<TrainingMessageV>
    decreases rows.len(),
{
    if rows.len() == 0 {
        Seq::empty()
    } else if rows.last().conversation_id == id {
        messages_of(rows.drop_last(), id).push(row_message_view(rows.last()))
    } else {
        messages_of(rows.drop_last(), id)
    }
}

/// Whether conversation row `k` repeats an id listed before it.
pub open spec fn listed_before(convs: Seq<QualityRow>, k: int) -> bool {
    exists|j: int| 0 <= j < k && #[trigger] convs[j].id == convs[k].id
}

fn seen_before(convs: &Vec<QualityRow>, k: usize) -> (r: bool)
    requires
        k < convs.len(),
    ensures
        r == listed_before(convs@, k as int),
{
    let mut j: usize = 0;
    while j < k
        invariant
            j <= k,
            k < convs.len(),
            forall|i: int| 0 <= i < j ==> convs@[i].id != convs@[k as int].id,
        decreases k - j,
    {
        if convs[j].id == convs[k].id {
            return true;
        }
        j += 1;
    }
    false
}

fn messages_for(msgs: &Vec<MessageRow>, id: u128) -> (r: Vec<TrainingMessage>)
    ensures
        r@.map_values(|m: TrainingMessage| message_view(m)) == messages_of(msgs@, id),
{
    let mut out: Vec<TrainingMessage> = Vec::new();
    let mut i: usize = 0;
    while i < msgs.len()
        invariant
            i <= msgs.len(),
            out@.map_values(|m: TrainingMessage| message_view(m)) == messages_of(msgs@.take(i as int), id),
        decreases msgs.len() - i,
    {
        let m = &msgs[i];
        assert(msgs@.take(i as int + 1).drop_last() =~= msgs@.take(i as int));
        if m.conversation_id == id {
            let ghost before = out@.map_values(|m: TrainingMessage| message_view(m));
            out.push(TrainingMessage { role: m.role.clone(), content: m.content.deep_clone(), created_at: m.created_at });
            assert(out@.map_values(|m: TrainingMessage| message_view(m)) =~= before.push(row_message_view(*m)));
        }
        i += 1;
    }
    assert(msgs@.take(msgs.len() as int) =~= msgs@);
    out
}

/// Groups the message rows under the conversation rows, keeping both
/// orders: each conversation gets its own messages in row order; a
/// conversation id listed twice gets its messages only the first time.
pub fn group_conversations(convs: &Vec<QualityRow>, msgs: &Vec<MessageRow>) -> (r: Vec<TrainingConversation>)
    ensures
        r@.len() == convs@.len(),
        forall|k: int| 0 <= k < r@.len() ==> {
            let c = #[trigger] r@[k];
            &&& c.conversation_id == convs@[k].id
            &&& c.agent_name@ == convs@[k].agent_name@
            &&& c.quality_tier@ == convs@[k].quality_tier@
            &&& c.outcome == convs@[k].outcome
            &&& c.created_at == convs@[k].created_at
            &&& c.messages@.map_values(|m: TrainingMessage| message_view(m)) == if listed_before(convs@, k) {
                Seq::empty()
            } else {
                messages_of(msgs@, convs@[k].id)
            }
        },
{
    let mut out: Vec<TrainingConversation> = Vec::new();
    let mut k: usize = 0;
    while k < convs.len()
        invariant
            k <= convs.len(),
            out@.len() == k,
            forall|i: int| 0 <= i < k ==> {
                let c = #[trigger] out@[i];
                &&& c.conversation_id == convs@[i].id
                &&& c.agent_name@ == convs@[i].agent_name@
                &&& c.quality_tier@ == convs@[i].quality_tier@
                &&& c.outcome == convs@[i].outcome
                &&& c.created_at == convs@[i].created_at
                &&& c.messages@.map_values(|m: TrainingMessage| message_view(m)) == if listed_before(convs@, i) {
                    Seq::empty()
                } else {
                    messages_of(msgs@, convs@[i].id)
                }
            },
        decreases convs.len() - k,
    {
        let row = &convs[k];
        let messages = if seen_before(convs, k) {
            let e: Vec<TrainingMessage> = Vec::new();
            assert(e@.map_values(|m: TrainingMessage| message_view(m)) =~= Seq::<TrainingMessageV>::empty());
            e
        } else {
            messages_for(msgs, row.id)
        };
        let outcome = match &row.outcome {
            Some(o) => Some(o.clone()),
            None => None,
        };
        out.push(TrainingConversation {
            conversation_id: row.id,
            agent_name: row.agent_name.clone(),
            quality_tier: row.quality_tier.clone(),
            outcome,
            created_at: row.created_at,
            messages,
        });
        k += 1;
    }
    out
}

/// A corrected reply as a preference pair: the user's message, the
/// correction as the chosen reply and the original reply as rejected.
pub struct TrainingPair {
    pub conversation_id: u128,
    pub agent_name: String,
    pub user_message: Json,
    pub chosen: String,
    pub rejected: Json,
    pub created_at: i128,
}

/// A correction row: the feedback's conversation and agent, the content of
/// the corrected message, the correction and when it was given.
pub struct CorrectionRow {
    pub conversation_id: u128,
    pub agent_name: String,
    pub rejected: Json,
    pub correction: String,
    pub created_at: i128,
}

/// The pair of a correction, with the content of the conversation's latest
/// user message (an empty string when it has none).
pub fn training_pair(row: CorrectionRow, user_content: Option<Json>) -> (r: TrainingPair)
    ensures
        r.conversation_id == row.conversation_id,
        r.agent_name@ == row.agent_name@,
        r.user_message@ == match user_content {
            Some(c) => c@,
            None => JsonV::Str(Seq::empty()),
        },
        r.chosen@ == row.correction@,
        r.rejected@ == row.rejected@,
        r.created_at == row.created_at,
{
    let user_message = match user_content {
        Some(c) => c,
        None => Json::Str(String::new()),
    };
    TrainingPair {
        conversation_id: row.conversation_id,
        agent_name: row.agent_name,
        user_message,
        chosen: row.correction,
        rejected: row.rejected,
        created_at: row.created_at,
    }
}

} // verus!
