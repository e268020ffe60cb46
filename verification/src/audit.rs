//! The audit writer's batching: entries arrive on a bounded channel and are
//! written in batches of at most a hundred, the first entry awaited and the
//! rest taken while they are ready. The channel, the task and the inserts
//! are the caller's; this decides what to do with each thing the channel
//! gives.

use vstd::prelude::*;
use crate::json::Json;

verus! {

/// A single audit log entry.
pub struct AuditEntry {
    pub tenant_id: u128,
    pub actor: String,
    pub action: String,
    pub resource: Option<String>,
    pub detail: Json,
    pub outcome: String,
    pub correlation_id: u128,
    pub token_id: String,
}

/// An entry with the common fields given (what `log_action` sends).
#[allow(clippy::too_many_arguments)]
pub fn audit_entry(tenant_id: u128, actor: &str, action: &str, resource: Option<&str>, detail: Json,
    outcome: &str, correlation_id: u128, token_id: &str) -> (r: AuditEntry)
    ensures
        r.tenant_id == tenant_id,
        r.actor@ == actor@,
        r.action@ == action@,
        (match r.resource { Some(s) => Some(s@), None => None::<Seq<char>> })
            == (match resource { Some(s) => Some(s@), None => None::<Seq<char>> }),
        r.detail@ == detail@,
        r.outcome@ == outcome@,
        r.correlation_id == correlation_id,
        r.token_id@ == token_id@,
{
    AuditEntry {
        tenant_id,
        actor: actor.to_string(),
        action: action.to_string(),
        resource: match resource {
            Some(s) => Some(s.to_string()),
            None => None,
        },
        detail,
        outcome: outcome.to_string(),
        correlation_id,
        token_id: token_id.to_string(),
    }
}

/// The most entries written in one batch.
pub const AUDIT_BATCH_SIZE: usize = 100;

/// What the channel gave the writer.
pub enum AuditEvent {
    /// An entry arrived.
    Received(AuditEntry),
    /// No further entry is ready now.
    NoneReady,
    /// Every sender is gone.
    Closed,
}

/// What the writer does next.
pub enum AuditAction {
    /// Wait for the next entry.
    Receive,
    /// Take another entry if one is ready, without waiting.
    TryReceive,
    /// Insert these entries, then wait for the next one.
    Write(Vec<AuditEntry>),
    /// Insert these entries (there may be none), then stop.
    Stop(Vec<AuditEntry>),
}

/// The batch after an event, and the entries it has the writer insert.
pub open spec fn audit_step(batch: Seq<AuditEntry>, event: AuditEvent) -> (Seq<AuditEntry>, Seq<AuditEntry>) {
    match event {
        AuditEvent::Received(e) => {
            let b = batch.push(e);
            if b.len() < AUDIT_BATCH_SIZE { (b, Seq::empty()) } else { (Seq::empty(), b) }
        },
        _ => (Seq::empty(), batch),
    }
}

/// The entries a sequence of events delivers, in order.
pub open spec fn received(events: Seq<AuditEvent>) -> Seq<AuditEntry>
    decreases events.len(),
{
    if events.len() == 0 {
        Seq::empty()
    } else {
        received(events.drop_last()) + match events.last() {
            AuditEvent::Received(e) => seq![e],
            _ => Seq::empty(),
        }
    }
}

/// The batch left after a sequence of events, starting from an empty one.
pub open spec fn batch_after(events: Seq<AuditEvent>) -> Seq<AuditEntry>
    decreases events.len(),
{
    if events.len() == 0 {
        Seq::empty()
    } else {
        audit_step(batch_after(events.drop_last()), events.last()).0
    }
}

/// The batches inserted during a sequence of events, in order (an event
/// that inserts nothing adds none).
pub open spec fn writes(events: Seq<AuditEvent>) -> Seq<Seq<AuditEntry>>
    decreases events.len(),
{
    if events.len() == 0 {
        Seq::empty()
    } else {
        let w = audit_step(batch_after(events.drop_last()), events.last()).1;
        writes(events.drop_last()) + if w.len() > 0 { seq![w] } else { Seq::empty() }
    }
}

/// The entries of batches, in order.
pub open spec fn concat_all(ws: Seq<Seq<AuditEntry>>) -> Seq<AuditEntry>
    decreases ws.len(),
{
    if ws.len() == 0 { Seq::empty() } else { concat_all(ws.drop_last()) + ws.last() }
}

/// The batch being gathered.
pub struct AuditBatch {
    entries: Vec<AuditEntry>,
}

impl View for AuditBatch {
    type V = Seq<AuditEntry>;

    closed spec fn view(&self) -> Seq<AuditEntry> {
        self.entries@
    }
}

impl AuditBatch {
    /// An empty batch; the writer first waits for an entry.
    pub fn new() -> (r: (AuditBatch, AuditAction))
        ensures
            r.0@ == Seq::<AuditEntry>::empty(),
            r.1 is Receive,
    {
        (AuditBatch { entries: Vec::new() }, AuditAction::Receive)
    }

    /// What to do after `event`: an arriving entry joins the batch, which is
    /// written once it holds a hundred entries and otherwise topped up with
    /// entries that are ready; when none is, the batch is written; when the
    /// channel closes, what is left is written and the writer stops.
    pub fn on_event(&mut self, event: AuditEvent) -> (r: AuditAction)
        requires
            old(self)@.len() < AUDIT_BATCH_SIZE,
        ensures
            final(self)@ == audit_step(old(self)@, event).0,
            final(self)@.len() < AUDIT_BATCH_SIZE,
            match event {
                AuditEvent::Received(_) => if final(self)@.len() > 0 {
                    r is TryReceive
                } else {
                    r matches AuditAction::Write(w) && w@ == audit_step(old(self)@, event).1
                },
                AuditEvent::NoneReady => r matches AuditAction::Write(w) && w@ == old(self)@,
                AuditEvent::Closed => r matches AuditAction::Stop(w) && w@ == old(self)@,
            },
    {
        match event {
            AuditEvent::Received(e) => {
                self.entries.push(e);
                if self.entries.len() < AUDIT_BATCH_SIZE {
                    AuditAction::TryReceive
                } else {
                    let mut full: Vec<AuditEntry> = Vec::new();
                    std::mem::swap(&mut full, &mut self.entries);
                    AuditAction::Write(full)
                }
            },
            AuditEvent::NoneReady => {
                let mut b: Vec<AuditEntry> = Vec::new();
                std::mem::swap(&mut b, &mut self.entries);
                AuditAction::Write(b)
            },
            AuditEvent::Closed => {
                let mut b: Vec<AuditEntry> = Vec::new();
                std::mem::swap(&mut b, &mut self.entries);
                AuditAction::Stop(b)
            },
        }
    }
}

/// Nothing is lost or repeated: over any sequence of events, the batches
/// written, followed by the batch still gathering, are exactly the entries
/// received, in order; each batch written holds one to a hundred entries,
/// and the batch gathering holds fewer than a hundred.
pub proof fn lemma_every_entry_written_once(events: Seq<AuditEvent>)
    ensures
        concat_all(writes(events)) + batch_after(events) == received(events),
        forall|k: int| 0 <= k < writes(events).len()
            ==> 0 < (#[trigger] writes(events)[k]).len() <= AUDIT_BATCH_SIZE,
        batch_after(events).len() < AUDIT_BATCH_SIZE,
    decreases events.len(),
{
    if events.len() > 0 {
        let prev = events.drop_last();
        lemma_every_entry_written_once(prev);
        let b = batch_after(prev);
        let ev = events.last();
        let w = audit_step(b, ev).1;
        let ws = writes(prev);
        if w.len() > 0 {
            assert((ws + seq![w]).drop_last() =~= ws);
            assert(concat_all(ws + seq![w]) == concat_all(ws) + w);
            assert forall|k: int| 0 <= k < writes(events).len()
                implies 0 < (#[trigger] writes(events)[k]).len() <= AUDIT_BATCH_SIZE by {
                if k < ws.len() {
                    assert(writes(events)[k] == ws[k]);
                }
            }
        } else {
            assert(ws + Seq::<Seq<AuditEntry>>::empty() =~= ws);
        }
        match ev {
            AuditEvent::Received(e) => {
                assert(concat_all(writes(events)) + batch_after(events)
                    =~= concat_all(ws) + b + seq![e]);
            },
            _ => {
                assert(concat_all(writes(events)) + batch_after(events) =~= concat_all(ws) + b);
            },
        }
    }
}

} // verus!
