//! Conversation history selection for prompt assembly.
//!
//! Messages are grouped into turns that are kept or dropped together: an
//! assistant message that calls tools is kept with the tool results that
//! answer it, so a tool call is never separated from its results. The most
//! recent turns that fit a token budget are then kept, in chronological order.

use vstd::prelude::*;
use crate::json::{Json, JsonV, jarr, jget_str};
use crate::prompt::{estimate_tokens_json, spec_estimate_tokens_json};
use crate::text::str_eq;

verus! {

/// A message in the conversation history, ready for prompt assembly.
pub struct HistoryMessage {
    pub role: String,
    pub content: Json,
    pub token_count: i32,
}

/// The abstract value of a history message.
pub struct HistoryMessageV {
    pub role: Seq<char>,
    pub content: JsonV,
    pub token_count: i32,
}

impl View for HistoryMessage {
    type V = HistoryMessageV;

    open spec fn view(&self) -> HistoryMessageV {
        HistoryMessageV { role: self.role@, content: self.content@, token_count: self.token_count }
    }
}

/// A stored message as read from the conversation, newest first. When no
/// token count was stored, it is estimated from the content's JSON text.
pub struct MessageRow {
    pub role: String,
    pub content: Json,
    pub token_count: Option<i32>,
}

/// A "turn": messages that must be kept or dropped together.
pub struct Turn {
    pub messages: Vec<HistoryMessage>,
}

/// The message a stored row becomes.
pub open spec fn row_message(r: MessageRow) -> HistoryMessageV {
    HistoryMessageV {
        role: r.role@,
        content: r.content@,
        token_count: match r.token_count {
            Some(t) => t,
            None => spec_estimate_tokens_json(r.content@),
        },
    }
}

/// The messages of a sequence of rows.
pub open spec fn rows_messages(rows: Seq<MessageRow>) -> Seq<HistoryMessageV> {
    rows.map_values(|r: MessageRow| row_message(r))
}

/// The views of a turn's messages.
pub open spec fn turn_view(t: Turn) -> Seq<HistoryMessageV> {
    t.messages@.map_values(|m: HistoryMessage| m@)
}

/// The views of a sequence of turns.
pub open spec fn turns_view(ts: Seq<Turn>) -> Seq<Seq<HistoryMessageV>> {
    ts.map_values(|t: Turn| turn_view(t))
}

/// Whether a content value holds a `tool_use` block: an array with an
/// element whose `type` is `"tool_use"`.
pub open spec fn spec_has_tool_use(content: JsonV) -> bool {
    match jarr(content) {
        Some(a) => exists|i: int| 0 <= i < a.len() && jget_str(#[trigger] a[i], "type"@) == Some("tool_use"@),
        None => false,
    }
}

/// Whether a message is a tool result.
pub open spec fn is_tool_msg(m: HistoryMessageV) -> bool {
    m.role == "tool"@
}

/// Whether a message is an assistant message that calls tools.
pub open spec fn is_tool_call_msg(m: HistoryMessageV) -> bool {
    m.role == "assistant"@ && spec_has_tool_use(m.content)
}

/// Whether every message of a turn is a tool result.
pub open spec fn all_tool(t: Seq<HistoryMessageV>) -> bool {
    forall|i: int| 0 <= i < t.len() ==> is_tool_msg(#[trigger] t[i])
}

/// The three shapes a turn can have: a tool call followed by the results that
/// answer it, a run of results whose call is not in the history, or one
/// ordinary message.
pub open spec fn well_formed_turn(t: Seq<HistoryMessageV>) -> bool {
    &&& t.len() >= 1
    &&& {
        ||| (is_tool_call_msg(t[0]) && forall|i: int| 1 <= i < t.len() ==> is_tool_msg(#[trigger] t[i]))
        ||| all_tool(t)
        ||| (t.len() == 1 && !is_tool_msg(t[0]) && !is_tool_call_msg(t[0]))
    }
}

/// The messages of turns listed newest first, each turn read backwards:
/// the original newest-first message order.
pub open spec fn flatten_newest_first(ts: Seq<Seq<HistoryMessageV>>) -> Seq<HistoryMessageV>
    decreases ts.len(),
{
    if ts.len() == 0 {
        Seq::empty()
    } else {
        flatten_newest_first(ts.drop_last()) + ts.last().reverse()
    }
}

/// The messages of turns in order, each turn read forwards.
pub open spec fn flatten(ts: Seq<Seq<HistoryMessageV>>) -> Seq<HistoryMessageV>
    decreases ts.len(),
{
    if ts.len() == 0 {
        Seq::empty()
    } else {
        flatten(ts.drop_last()) + ts.last()
    }
}

/// Grouping is maximal: a run of orphaned tool results is only ever followed
/// (going back in time) by an ordinary message, never by a tool call that
/// could have taken them.
pub open spec fn maximal_grouping(ts: Seq<Seq<HistoryMessageV>>) -> bool {
    forall|k: int| 0 <= k < ts.len() - 1 && all_tool(#[trigger] ts[k]) ==>
        ts[k + 1].len() == 1 && !is_tool_msg(ts[k + 1][0]) && !is_tool_call_msg(ts[k + 1][0])
}

/// Whether `ts` is a grouping of the newest-first messages `msgs`.
pub open spec fn is_grouping_of(ts: Seq<Seq<HistoryMessageV>>, msgs: Seq<HistoryMessageV>) -> bool {
    &&& flatten_newest_first(ts) == msgs
    &&& forall|k: int| 0 <= k < ts.len() ==> well_formed_turn(#[trigger] ts[k])
    &&& maximal_grouping(ts)
}

/// The tokens of a message sequence.
pub open spec fn msgs_tokens(ms: Seq<HistoryMessageV>) -> int
    decreases ms.len(),
{
    if ms.len() == 0 {
        0
    } else {
        msgs_tokens(ms.drop_last()) + ms.last().token_count
    }
}

/// The tokens of the first `k` turns.
pub open spec fn prefix_tokens(ts: Seq<Seq<HistoryMessageV>>, k: int) -> int
    decreases k,
{
    if k <= 0 {
        0
    } else {
        prefix_tokens(ts, k - 1) + msgs_tokens(ts[k - 1])
    }
}

/// How many of the newest turns the budget takes: turns are taken newest
/// first for as long as the running total stays within the budget.
pub open spec fn fits_count(ts: Seq<Seq<HistoryMessageV>>, budget: int, k: int) -> bool {
    &&& 0 <= k <= ts.len()
    &&& forall|j: int| 0 <= j < k ==> #[trigger] prefix_tokens(ts, j + 1) <= budget
    &&& (k == ts.len() || prefix_tokens(ts, k + 1) > budget)
}

/// Returns true if a content value contains tool_use blocks.
pub fn has_tool_use(content: &Json) -> (r: bool)
    ensures
        r == spec_has_tool_use(content@),
{
    match content.as_array() {
        Some(arr) => {
            let ghost a = jarr(content@)->0;
            let mut i: usize = 0;
            while i < arr.len()
                invariant
                    i <= arr.len(),
                    jarr(content@) == Some(a),
                    a == arr@.map_values(|x: Json| x@),
                    forall|k: int| 0 <= k < i ==> jget_str(#[trigger] a[k], "type"@) != Some("tool_use"@),
                decreases arr.len() - i,
            {
                let t = arr[i].get("type");
                match t {
                    Some(tv) => match tv.as_str() {
                        Some(s) => {
                            if str_eq(s, "tool_use") {
                                assert(jget_str(a[i as int], "type"@) == Some("tool_use"@));
                                return true;
                            }
                        }
                        None => {}
                    },
                    None => {}
                }
                assert(jget_str(a[i as int], "type"@) != Some("tool_use"@));
                i += 1;
            }
            false
        }
        None => false,
    }
}

impl Turn {
    /// Total tokens of the turn's messages.
    pub fn total_tokens(&self) -> (r: i128)
        requires
            self.messages.len() <= usize::MAX,
        ensures
            r == msgs_tokens(turn_view(*self)),
    {
        let ghost ms = turn_view(*self);
        let mut total: i128 = 0;
        let mut i: usize = 0;
        while i < self.messages.len()
            invariant
                i <= self.messages.len(),
                ms == turn_view(*self),
                ms.len() == self.messages.len(),
                total == msgs_tokens(ms.take(i as int)),
                -0x8000_0000 * i <= total <= 0x7fff_ffff * i,
            decreases self.messages.len() - i,
        {
            assert(ms.take(i + 1).drop_last() =~= ms.take(i as int));
            assert(ms.take(i + 1).last() == self.messages@[i as int]@);
            total = total + self.messages[i].token_count as i128;
            i += 1;
        }
        assert(ms.take(ms.len() as int) =~= ms);
        total
    }
}


/// The views of a vector of messages.
pub open spec fn msgs_view(v: Seq<HistoryMessage>) -> Seq<HistoryMessageV> {
    v.map_values(|m: HistoryMessage| m@)
}

/// `v` in reverse order.
fn reverse_messages(v: Vec<HistoryMessage>) -> (r: Vec<HistoryMessage>)
    ensures
        msgs_view(r@) == msgs_view(v@).reverse(),
{
    let mut src = v;
    let ghost orig = msgs_view(src@);
    let mut out: Vec<HistoryMessage> = Vec::new();
    while src.len() > 0
        invariant
            orig.len() == src.len() + out.len(),
            msgs_view(src@) == orig.take(src.len() as int),
            msgs_view(out@) == orig.reverse().take(out.len() as int),
        decreases src.len(),
    {
        let ghost before = msgs_view(src@);
        let m = src.pop().unwrap();
        assert(m@ == before[before.len() - 1]);
        assert(m@ == orig[src.len() as int]);
        out.push(m);
        assert(msgs_view(src@) =~= orig.take(src.len() as int));
        assert(msgs_view(out@) =~= orig.reverse().take(out.len() as int));
    }
    assert(msgs_view(out@) =~= orig.reverse());
    out
}

/// Reading a turn `[m] ++ reverse(p)` backwards gives `p` then `m`.
proof fn lemma_call_turn_reverse(p: Seq<HistoryMessageV>, m: HistoryMessageV)
    ensures
        (seq![m] + p.reverse()).reverse() == p.push(m),
{
    assert((seq![m] + p.reverse()).reverse() =~= p.push(m));
}

/// Reversing twice gives the sequence back.
proof fn lemma_reverse_reverse(p: Seq<HistoryMessageV>)
    ensures
        p.reverse().reverse() == p,
{
    assert(p.reverse().reverse() =~= p);
}

/// Group messages into turns. Input is in reverse chronological order
/// (newest first); turns come out newest first, each turn in chronological
/// order: a tool-calling assistant message with the tool results that answer
/// it, a run of tool results whose call is not present, or a single message.
pub fn group_into_turns(rows: Vec<MessageRow>) -> (turns: Vec<Turn>)
    ensures
        is_grouping_of(turns_view(turns@), rows_messages(rows@)),
{
    let ghost all = rows_messages(rows@);
    let mut turns: Vec<Turn> = Vec::new();
    let mut pending: Vec<HistoryMessage> = Vec::new();
    let ghost rows_seq = rows@;
    let mut idx: usize = 0;
    let mut rest = rows;
    // Consume the rows front to back.
    let mut rev_rows: Vec<MessageRow> = Vec::new();
    while rest.len() > 0
        invariant
            rows_seq.len() == rest.len() + rev_rows.len(),
            rest@ == rows_seq.take(rest.len() as int),
            forall|k: int| 0 <= k < rev_rows.len() ==> #[trigger] rev_rows@[k] == rows_seq[rows_seq.len() - 1 - k],
        decreases rest.len(),
    {
        let r = rest.pop().unwrap();
        rev_rows.push(r);
        assert(rest@ =~= rows_seq.take(rest.len() as int));
    }
    // rev_rows holds the rows oldest first; popping it yields them newest first.
    while rev_rows.len() > 0
        invariant
            idx + rev_rows.len() == rows_seq.len(),
            rows_seq.len() <= usize::MAX,
            all == rows_messages(rows_seq),
            forall|k: int| 0 <= k < rev_rows.len() ==> #[trigger] rev_rows@[k] == rows_seq[rows_seq.len() - 1 - k],
            flatten_newest_first(turns_view(turns@)) + msgs_view(pending@) == all.take(idx as int),
            forall|k: int| 0 <= k < turns.len() ==> well_formed_turn(#[trigger] turns_view(turns@)[k]),
            maximal_grouping(turns_view(turns@)),
            all_tool(msgs_view(pending@)),
            turns.len() > 0 ==> !all_tool(turns_view(turns@).last()),
        decreases rev_rows.len(),
    {
        let row = rev_rows.pop().unwrap();
        assert(row == rows_seq[idx as int]);
        let token_count = match row.token_count {
            Some(t) => t,
            None => estimate_tokens_json(&row.content),
        };
        let is_tool = str_eq(&row.role, "tool");
        let is_assistant = str_eq(&row.role, "assistant");
        let msg = HistoryMessage { role: row.role, content: row.content, token_count };
        assert(msg@ == all[idx as int]);
        assert(all.take(idx + 1) =~= all.take(idx as int).push(msg@));
        let ghost tv0 = turns_view(turns@);
        let ghost pv0 = msgs_view(pending@);
        if is_tool {
            pending.push(msg);
            assert(msgs_view(pending@) =~= pv0.push(msg@));
            assert(flatten_newest_first(tv0) + pv0.push(msg@) =~= (flatten_newest_first(tv0) + pv0).push(msg@));
        } else if is_assistant && has_tool_use(&msg.content) {
            let mut p: Vec<HistoryMessage> = Vec::new();
            std::mem::swap(&mut p, &mut pending);
            let mut tm: Vec<HistoryMessage> = Vec::new();
            tm.push(msg);
            let mut rp = reverse_messages(p);
            tm.append(&mut rp);
            let t = Turn { messages: tm };
            proof {
                assert(turn_view(t) =~= seq![msg@] + pv0.reverse());
                lemma_call_turn_reverse(pv0, msg@);
            }
            turns.push(t);
            proof {
                let tv1 = turns_view(turns@);
                assert(tv1 =~= tv0.push(turn_view(t)));
                assert(tv1.drop_last() =~= tv0);
                assert(flatten_newest_first(tv1) == flatten_newest_first(tv0) + pv0.push(msg@));
                assert(flatten_newest_first(tv1) + msgs_view(pending@) =~= all.take(idx + 1));
                assert(well_formed_turn(tv1.last()));
                assert forall|k: int| 0 <= k < tv1.len() - 1 && all_tool(#[trigger] tv1[k]) implies
                    tv1[k + 1].len() == 1 && !is_tool_msg(tv1[k + 1][0]) && !is_tool_call_msg(tv1[k + 1][0]) by {
                    if k == tv1.len() - 2 {
                        assert(tv1[k] == tv0.last());
                    } else {
                        assert(tv1[k] == tv0[k]);
                        assert(tv1[k + 1] == tv0[k + 1]);
                    }
                }
                assert(!is_tool_msg(tv1.last()[0]));
            }
        } else {
            if pending.len() > 0 {
                let mut p: Vec<HistoryMessage> = Vec::new();
            std::mem::swap(&mut p, &mut pending);
                let rp = reverse_messages(p);
                let t = Turn { messages: rp };
                proof {
                    assert(turn_view(t) == pv0.reverse());
                    lemma_reverse_reverse(pv0);
                    assert forall|i: int| 0 <= i < turn_view(t).len() implies is_tool_msg(#[trigger] turn_view(t)[i]) by {
                        assert(turn_view(t)[i] == pv0[pv0.len() - 1 - i]);
                    }
                }
                turns.push(t);
                proof {
                    let tv1 = turns_view(turns@);
                    assert(tv1 =~= tv0.push(turn_view(t)));
                    assert(tv1.drop_last() =~= tv0);
                    assert(flatten_newest_first(tv1) == flatten_newest_first(tv0) + pv0);
                    assert forall|k: int| 0 <= k < tv1.len() - 1 && all_tool(#[trigger] tv1[k]) implies
                        tv1[k + 1].len() == 1 && !is_tool_msg(tv1[k + 1][0]) && !is_tool_call_msg(tv1[k + 1][0]) by {
                        if k == tv1.len() - 2 {
                            assert(tv1[k] == tv0.last());
                        } else {
                            assert(tv1[k] == tv0[k]);
                            assert(tv1[k + 1] == tv0[k + 1]);
                        }
                    }
                }
            }
            let ghost tv_mid = turns_view(turns@);
            proof {
                assert(flatten_newest_first(tv_mid) == flatten_newest_first(tv0) + pv0);
            }
            let mut tm: Vec<HistoryMessage> = Vec::new();
            tm.push(msg);
            let t = Turn { messages: tm };
            assert(turn_view(t) =~= seq![msg@]);
            turns.push(t);
            proof {
                let tv1 = turns_view(turns@);
                assert(tv1 =~= tv_mid.push(turn_view(t)));
                assert(tv1.drop_last() =~= tv_mid);
                assert(seq![msg@].reverse() =~= seq![msg@]);
                assert(msgs_view(pending@) =~= Seq::<HistoryMessageV>::empty());
                assert(flatten_newest_first(tv1) + msgs_view(pending@) =~= all.take(idx + 1));
                assert(!is_tool_msg(msg@));
                assert(!is_tool_call_msg(msg@));
                assert(well_formed_turn(tv1.last()));
                assert forall|k: int| 0 <= k < tv1.len() - 1 && all_tool(#[trigger] tv1[k]) implies
                    tv1[k + 1].len() == 1 && !is_tool_msg(tv1[k + 1][0]) && !is_tool_call_msg(tv1[k + 1][0]) by {
                    if k == tv1.len() - 2 {
                    } else {
                        assert(tv1[k] == tv_mid[k]);
                        assert(tv1[k + 1] == tv_mid[k + 1]);
                    }
                }
                assert(!all_tool(tv1.last())) by {
                    assert(!is_tool_msg(tv1.last()[0]));
                }
            }
        }
        idx += 1;
    }
    // Flush any remaining tool results as their own turn.
    if pending.len() > 0 {
        let ghost tv0 = turns_view(turns@);
        let ghost pv0 = msgs_view(pending@);
        let mut p: Vec<HistoryMessage> = Vec::new();
            std::mem::swap(&mut p, &mut pending);
        let rp = reverse_messages(p);
        let t = Turn { messages: rp };
        proof {
            lemma_reverse_reverse(pv0);
            assert forall|i: int| 0 <= i < turn_view(t).len() implies is_tool_msg(#[trigger] turn_view(t)[i]) by {
                assert(turn_view(t)[i] == pv0[pv0.len() - 1 - i]);
            }
        }
        turns.push(t);
        proof {
            let tv1 = turns_view(turns@);
            assert(tv1 =~= tv0.push(turn_view(t)));
            assert(tv1.drop_last() =~= tv0);
            assert forall|k: int| 0 <= k < tv1.len() - 1 && all_tool(#[trigger] tv1[k]) implies
                tv1[k + 1].len() == 1 && !is_tool_msg(tv1[k + 1][0]) && !is_tool_call_msg(tv1[k + 1][0]) by {
                if k == tv1.len() - 2 {
                    assert(tv1[k] == tv0.last());
                } else {
                    assert(tv1[k] == tv0[k]);
                    assert(tv1[k + 1] == tv0[k + 1]);
                }
            }
        }
    }
    assert(all.take(rows_seq.len() as int) =~= all);
    assert(msgs_view(pending@) =~= Seq::<HistoryMessageV>::empty());
    assert(flatten_newest_first(turns_view(turns@)) =~= flatten_newest_first(turns_view(turns@)) + msgs_view(pending@));
    turns
}


/// The number of messages in the first `k` turns.
pub open spec fn total_msgs(ts: Seq<Seq<HistoryMessageV>>, k: int) -> int
    decreases k,
{
    if k <= 0 {
        0
    } else {
        total_msgs(ts, k - 1) + ts[k - 1].len()
    }
}

/// A message sequence's tokens are bounded by its length times the range of an `i32`.
proof fn lemma_msgs_tokens_bound(ms: Seq<HistoryMessageV>)
    ensures
        -0x8000_0000 * ms.len() <= msgs_tokens(ms) <= 0x8000_0000 * ms.len(),
    decreases ms.len(),
{
    if ms.len() > 0 {
        lemma_msgs_tokens_bound(ms.drop_last());
    }
}

/// The tokens of the first `k` turns are bounded by their message count times
/// the range of an `i32`.
proof fn lemma_prefix_tokens_bound(ts: Seq<Seq<HistoryMessageV>>, k: int)
    requires
        0 <= k <= ts.len(),
    ensures
        -0x8000_0000 * total_msgs(ts, k) <= prefix_tokens(ts, k) <= 0x8000_0000 * total_msgs(ts, k),
        0 <= total_msgs(ts, k),
    decreases k,
{
    if k > 0 {
        lemma_prefix_tokens_bound(ts, k - 1);
        lemma_msgs_tokens_bound(ts[k - 1]);
    }
}

/// The message count of the first `k` turns is the length of their flattening.
proof fn lemma_total_msgs_len(ts: Seq<Seq<HistoryMessageV>>, k: int)
    requires
        0 <= k <= ts.len(),
    ensures
        total_msgs(ts, k) == flatten_newest_first(ts.take(k)).len(),
    decreases k,
{
    if k > 0 {
        lemma_total_msgs_len(ts, k - 1);
        assert(ts.take(k).drop_last() =~= ts.take(k - 1));
        assert(ts.take(k).last() == ts[k - 1]);
    }
}

/// The message count of a prefix grows with the prefix.
proof fn lemma_total_msgs_mono(ts: Seq<Seq<HistoryMessageV>>, j: int, k: int)
    requires
        0 <= j <= k <= ts.len(),
    ensures
        total_msgs(ts, j) <= total_msgs(ts, k),
    decreases k - j,
{
    if j < k {
        lemma_total_msgs_mono(ts, j, k - 1);
    }
}

/// Select turns newest-first within `budget_tokens`: turns are taken in order
/// for as long as the running total stays within the budget; the first turn
/// that does not fit ends the selection. Returns the selected turns (newest
/// first) and the tokens they use.
pub fn select_within_budget(turns: Vec<Turn>, budget_tokens: i32) -> (r: (Vec<Turn>, i128))
    requires
        total_msgs(turns_view(turns@), turns@.len() as int) <= usize::MAX,
    ensures
        fits_count(turns_view(turns@), budget_tokens as int, r.0.len() as int),
        turns_view(r.0@) == turns_view(turns@).take(r.0.len() as int),
        r.1 == prefix_tokens(turns_view(turns@), r.0.len() as int),
{
    let ghost tv = turns_view(turns@);
    let mut selected: Vec<Turn> = Vec::new();
    let mut used: i128 = 0;
    let mut src = turns;
    // Reverse so that popping yields the newest turn first.
    let mut queue: Vec<Turn> = Vec::new();
    while src.len() > 0
        invariant
            tv.len() == src.len() + queue.len(),
            turns_view(src@) == tv.take(src.len() as int),
            forall|k: int| 0 <= k < queue.len() ==> #[trigger] turn_view(queue@[k]) == tv[tv.len() - 1 - k],
        decreases src.len(),
    {
        let ghost before = turns_view(src@);
        let t = src.pop().unwrap();
        assert(turn_view(t) == before[before.len() - 1]);
        queue.push(t);
        assert(turns_view(src@) =~= tv.take(src.len() as int));
    }
    while queue.len() > 0
        invariant
            selected.len() + queue.len() == tv.len(),
            tv == turns_view(turns@),
            tv.len() <= usize::MAX,
            forall|k: int| 0 <= k < queue.len() ==> #[trigger] turn_view(queue@[k]) == tv[tv.len() - 1 - k],
            turns_view(selected@) == tv.take(selected.len() as int),
            used == prefix_tokens(tv, selected.len() as int),
            forall|j: int| 0 <= j < selected.len() ==> #[trigger] prefix_tokens(tv, j + 1) <= budget_tokens,
            total_msgs(tv, tv.len() as int) <= usize::MAX,
            selected.len() > 0 ==> used <= budget_tokens,
        decreases queue.len(),
    {
        let t = queue.pop().unwrap();
        let n = selected.len();
        assert(turn_view(t) == tv[n as int]);
        let turn_tokens = t.total_tokens();
        proof {
            lemma_prefix_tokens_bound(tv, n + 1);
            lemma_total_msgs_mono(tv, n + 1, tv.len() as int);
        }
        assert(prefix_tokens(tv, n + 1) == used + turn_tokens);
        if used + turn_tokens > budget_tokens as i128 {
            return (selected, used);
        }
        used = used + turn_tokens;
        selected.push(t);
        assert(turns_view(selected@) =~= tv.take(selected.len() as int));
    }
    (selected, used)
}

/// The messages of selected turns (newest first), in chronological order.
pub fn chronological_messages(selected: Vec<Turn>) -> (msgs: Vec<HistoryMessage>)
    ensures
        msgs_view(msgs@) == flatten(turns_view(selected@).reverse()),
{
    let ghost tv = turns_view(selected@);
    let mut src = selected;
    let mut out: Vec<HistoryMessage> = Vec::new();
    assert(tv.reverse().take(0) =~= Seq::<Seq<HistoryMessageV>>::empty());
    while src.len() > 0
        invariant
            turns_view(src@) == tv.take(src.len() as int),
            tv.len() >= src.len(),
            msgs_view(out@) == flatten(tv.reverse().take(tv.len() - src.len())),
        decreases src.len(),
    {
        let ghost before = turns_view(src@);
        let t = src.pop().unwrap();
        let ghost done = tv.len() - src.len();
        assert(turn_view(t) == before[before.len() - 1]);
        assert(turn_view(t) == tv[src.len() as int]);
        let mut ms = t.messages;
        let ghost mv = msgs_view(ms@);
        let ghost out0 = msgs_view(out@);
        out.append(&mut ms);
        proof {
            let taken = tv.reverse().take(done);
            assert(taken.drop_last() =~= tv.reverse().take(done - 1));
            assert(taken.last() == tv[src.len() as int]);
            assert(msgs_view(out@) =~= out0 + mv);
        }
        assert(turns_view(src@) =~= tv.take(src.len() as int));
    }
    assert(tv.reverse().take(tv.len() as int) =~= tv.reverse());
    out
}

/// Select the conversation history that fits `budget_tokens` from stored
/// rows given newest first. The result is in chronological order: the most
/// recent whole turns whose running total, newest first, stays within the
/// budget. A tool call and the results that answer it are kept or dropped
/// together.
pub fn history_from_rows(rows: Vec<MessageRow>, budget_tokens: i32) -> (msgs: Vec<HistoryMessage>)
    ensures
        exists|ts: Seq<Seq<HistoryMessageV>>, k: int|
            is_grouping_of(ts, rows_messages(rows@))
            && fits_count(ts, budget_tokens as int, k)
            && msgs_view(msgs@) == flatten(ts.take(k).reverse()),
{
    if rows.len() == 0 {
        let ghost ts = Seq::<Seq<HistoryMessageV>>::empty();
        assert(rows_messages(rows@) =~= Seq::<HistoryMessageV>::empty());
        assert(ts.take(0).reverse() =~= ts);
        assert(fits_count(ts, budget_tokens as int, 0));
        return Vec::new();
    }
    let ghost rs = rows@;
    let turns = group_into_turns(rows);
    let ghost ts = turns_view(turns@);
    proof {
        lemma_total_msgs_len(ts, ts.len() as int);
        assert(ts.take(ts.len() as int) =~= ts);
    }
    let (selected, _used) = select_within_budget(turns, budget_tokens);
    let ghost k = selected.len() as int;
    let msgs = chronological_messages(selected);
    assert(is_grouping_of(ts, rows_messages(rs)) && fits_count(ts, budget_tokens as int, k)
        && msgs_view(msgs@) == flatten(ts.take(k).reverse()));
    msgs
}

/// The turns read forwards, taken oldest first, give the messages
/// oldest first.
pub proof fn lemma_flatten_reverse(ts: Seq<Seq<HistoryMessageV>>)
    ensures
        flatten(ts.reverse()) == flatten_newest_first(ts).reverse(),
    decreases ts.len(),
{
    if ts.len() > 0 {
        let rest = ts.drop_last();
        lemma_flatten_reverse(rest);
        // ts.reverse() = [ts.last()] + rest.reverse()
        lemma_flatten_prepend(rest.reverse(), ts.last());
        assert(ts.reverse() =~= seq![ts.last()] + rest.reverse());
        assert((flatten_newest_first(rest) + ts.last().reverse()).reverse()
            =~= ts.last() + flatten_newest_first(rest).reverse());
    }
}

/// Flattening a sequence with one more turn in front puts its messages in front.
pub proof fn lemma_flatten_prepend(ts: Seq<Seq<HistoryMessageV>>, t: Seq<HistoryMessageV>)
    ensures
        flatten(seq![t] + ts) == t + flatten(ts),
    decreases ts.len(),
{
    if ts.len() == 0 {
        assert(seq![t] + ts =~= seq![t]);
        assert(seq![t].drop_last() =~= Seq::<Seq<HistoryMessageV>>::empty());
        assert(flatten(seq![t]) == flatten(seq![t].drop_last()) + seq![t].last());
        assert(flatten(seq![t]) =~= t);
        assert(t + flatten(ts) =~= t);
    } else {
        lemma_flatten_prepend(ts.drop_last(), t);
        assert((seq![t] + ts).drop_last() =~= seq![t] + ts.drop_last());
        assert(t + flatten(ts.drop_last()) + ts.last() =~= t + (flatten(ts.drop_last()) + ts.last()));
    }
}

/// Flattening the first `k` turns of a sequence gives a prefix of flattening all of it.
pub proof fn lemma_flatten_prefix(ts: Seq<Seq<HistoryMessageV>>, k: int)
    requires
        0 <= k <= ts.len(),
    ensures
        flatten(ts).subrange(0, flatten(ts.take(k)).len() as int) == flatten(ts.take(k)),
        flatten(ts.take(k)).len() <= flatten(ts).len(),
    decreases ts.len() - k,
{
    if k == ts.len() {
        assert(ts.take(k) =~= ts);
        assert(flatten(ts).subrange(0, flatten(ts).len() as int) =~= flatten(ts));
    } else {
        lemma_flatten_prefix(ts, k + 1);
        let a = ts.take(k + 1);
        assert(a.drop_last() =~= ts.take(k));
        assert(flatten(a) == flatten(ts.take(k)) + a.last());
        assert(flatten(ts).subrange(0, flatten(ts.take(k)).len() as int)
            =~= flatten(a).subrange(0, flatten(ts.take(k)).len() as int));
        assert(flatten(a).subrange(0, flatten(ts.take(k)).len() as int) =~= flatten(ts.take(k)));
    }
}

/// The selected history is the most recent part of the conversation: a suffix
/// of the messages in chronological order.
pub proof fn lemma_selection_is_recent_suffix(ts: Seq<Seq<HistoryMessageV>>, msgs: Seq<HistoryMessageV>, k: int)
    requires
        is_grouping_of(ts, msgs),
        0 <= k <= ts.len(),
    ensures
        flatten(ts.take(k).reverse()).len() <= msgs.len(),
        msgs.reverse().subrange(msgs.len() - flatten(ts.take(k).reverse()).len(), msgs.len() as int)
            == flatten(ts.take(k).reverse()),
{
    lemma_flatten_reverse(ts.take(k));
    lemma_flatten_reverse(ts);
    // ts.take(k) is a prefix of ts, so its newest-first flattening is a prefix of msgs.
    lemma_newest_first_prefix(ts, k);
    let p = flatten_newest_first(ts.take(k));
    assert(msgs.subrange(0, p.len() as int) == p);
    assert(msgs.reverse().subrange(msgs.len() - p.len(), msgs.len() as int) =~= p.reverse());
}

/// The newest-first flattening of the first `k` turns is a prefix of the whole one.
pub proof fn lemma_newest_first_prefix(ts: Seq<Seq<HistoryMessageV>>, k: int)
    requires
        0 <= k <= ts.len(),
    ensures
        flatten_newest_first(ts.take(k)).len() <= flatten_newest_first(ts).len(),
        flatten_newest_first(ts).subrange(0, flatten_newest_first(ts.take(k)).len() as int)
            == flatten_newest_first(ts.take(k)),
    decreases ts.len() - k,
{
    if k == ts.len() {
        assert(ts.take(k) =~= ts);
        assert(flatten_newest_first(ts).subrange(0, flatten_newest_first(ts).len() as int) =~= flatten_newest_first(ts));
    } else {
        lemma_newest_first_prefix(ts, k + 1);
        let a = ts.take(k + 1);
        assert(a.drop_last() =~= ts.take(k));
        let p = flatten_newest_first(ts.take(k));
        assert(flatten_newest_first(a) == p + a.last().reverse());
        assert(flatten_newest_first(ts).subrange(0, p.len() as int)
            =~= flatten_newest_first(a).subrange(0, p.len() as int));
        assert(flatten_newest_first(a).subrange(0, p.len() as int) =~= p);
    }
}

/// When at least one turn is selected, the selected turns use no more tokens than the budget.
pub proof fn lemma_selection_within_budget(ts: Seq<Seq<HistoryMessageV>>, budget: int, k: int)
    requires
        fits_count(ts, budget, k),
        k > 0,
    ensures
        prefix_tokens(ts, k) <= budget,
{
    assert(prefix_tokens(ts, (k - 1) + 1) <= budget);
}


/// The tokens of two message sequences add up.
pub proof fn lemma_msgs_tokens_concat(a: Seq<HistoryMessageV>, b: Seq<HistoryMessageV>)
    ensures
        msgs_tokens(a + b) == msgs_tokens(a) + msgs_tokens(b),
    decreases b.len(),
{
    if b.len() == 0 {
        assert(a + b =~= a);
    } else {
        lemma_msgs_tokens_concat(a, b.drop_last());
        assert((a + b).drop_last() =~= a + b.drop_last());
    }
}

/// The tokens of turns, in any order, are the sum of their tokens.
proof fn lemma_flatten_reverse_tokens(ts: Seq<Seq<HistoryMessageV>>, k: int)
    requires
        0 <= k <= ts.len(),
    ensures
        msgs_tokens(flatten(ts.take(k).reverse())) == prefix_tokens(ts, k),
    decreases k,
{
    if k > 0 {
        lemma_flatten_reverse_tokens(ts, k - 1);
        let t = ts.take(k);
        assert(t.reverse() =~= seq![ts[k - 1]] + ts.take(k - 1).reverse());
        lemma_flatten_prepend(ts.take(k - 1).reverse(), ts[k - 1]);
        lemma_msgs_tokens_concat(ts[k - 1], flatten(ts.take(k - 1).reverse()));
    } else {
        assert(ts.take(0).reverse() =~= Seq::<Seq<HistoryMessageV>>::empty());
    }
}

/// The history handed to the model: whole turns only (a tool result never
/// without the tool call grouped with it), the most recent ones, oldest
/// first, as many as the budget takes newest first, and within the budget.
pub proof fn lemma_history_selection_law(ts: Seq<Seq<HistoryMessageV>>, msgs: Seq<HistoryMessageV>, budget: int, k: int)
    requires
        is_grouping_of(ts, msgs),
        fits_count(ts, budget, k),
    ensures
        forall|j: int| 0 <= j < k ==> well_formed_turn(#[trigger] ts.take(k).reverse()[j]),
        msgs_tokens(flatten(ts.take(k).reverse())) == prefix_tokens(ts, k),
        k > 0 ==> msgs_tokens(flatten(ts.take(k).reverse())) <= budget,
        k < ts.len() ==> prefix_tokens(ts, k + 1) > budget,
        flatten(ts.take(k).reverse()).len() <= msgs.len(),
        msgs.reverse().subrange(msgs.len() - flatten(ts.take(k).reverse()).len(), msgs.len() as int)
            == flatten(ts.take(k).reverse()),
{
    assert forall|j: int| 0 <= j < k implies well_formed_turn(#[trigger] ts.take(k).reverse()[j]) by {
        assert(ts.take(k).reverse()[j] == ts[k - 1 - j]);
    }
    lemma_flatten_reverse_tokens(ts, k);
    if k > 0 {
        lemma_selection_within_budget(ts, budget, k);
    }
    lemma_selection_is_recent_suffix(ts, msgs, k);
}
} // verus!
