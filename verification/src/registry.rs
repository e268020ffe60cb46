//! Decisions of the connection and actor registries: which agent-backend
//! connection takes a request, whether a backend can take one, which idle
//! actors are reaped, how actors are named, and the table that keeps one
//! actor per tenant, agent and conversation. The registries' shared maps,
//! atomics, channels and tasks are kept by the caller.

use vstd::prelude::*;
use crate::error::CasperError;
use crate::text::{concat3, str_eq};
use crate::types::{spec_uuid_text, uuid_text};

verus! {

/// The load of an agent-backend connection.
#[derive(PartialEq, Eq, Structural, Clone, Copy, Debug)]
pub struct ConnectionLoad {
    pub active_requests: u32,
    pub max_concurrent: u32,
}

/// Whether a connection can take another request.
pub open spec fn has_room(l: ConnectionLoad) -> bool {
    l.active_requests < l.max_concurrent
}

/// Whether some connection of a backend can take another request.
pub fn is_available(loads: &Vec<ConnectionLoad>) -> (r: bool)
    ensures
        r == exists|i: int| 0 <= i < loads@.len() && has_room(#[trigger] loads@[i]),
{
    let mut i: usize = 0;
    while i < loads.len()
        invariant
            i <= loads.len(),
            forall|j: int| 0 <= j < i ==> !has_room(#[trigger] loads@[j]),
        decreases loads.len() - i,
    {
        if loads[i].active_requests < loads[i].max_concurrent {
            return true;
        }
        i += 1;
    }
    false
}

/// The connection the round-robin counter points at after `k` more draws.
pub open spec fn slot(counter: u32, k: nat, len: nat) -> int {
    ((counter + k) % 0x1_0000_0000) % (len as int)
}

/// Whether the `k`-th draw from `counter` lands on a connection with room.
pub open spec fn draw_has_room(loads: Seq<ConnectionLoad>, counter: u32, k: nat) -> bool {
    has_room(loads[slot(counter, k, loads.len())])
}

/// Pick a connection by round robin: draw from the counter until a
/// connection with room comes up, at most once per connection; when none has
/// room, take the next draw anyway. Returns the connection's index and the
/// counter after the draws (it wraps around). A backend without connections
/// is unavailable.
pub fn pick_connection(counter: u32, loads: &Vec<ConnectionLoad>) -> (r: Result<(usize, u32), CasperError>)
    requires
        loads@.len() <= u32::MAX,
    ensures
        loads@.len() == 0 ==> (r matches Err(CasperError::Unavailable(m)) && m@ == "no agent backend connections"@),
        loads@.len() > 0 ==> (r matches Ok((idx, next)) && {
            let n = loads@.len();
            ||| exists|k: nat| #![trigger draw_has_room(loads@, counter, k)] k < n && draw_has_room(loads@, counter, k)
                && (forall|j: nat| j < k ==> !draw_has_room(loads@, counter, j))
                && idx == slot(counter, k, n) && next == (counter + k + 1) % 0x1_0000_0000
            ||| (forall|j: nat| j < n ==> !draw_has_room(loads@, counter, j))
                && idx == slot(counter, n, n) && next == (counter + n + 1) % 0x1_0000_0000
        }),
{
    if loads.len() == 0 {
        return Err(CasperError::Unavailable("no agent backend connections".to_string()));
    }
    let len: u32 = loads.len() as u32;
    let mut c: u32 = counter;
    let mut k: u32 = 0;
    while k < len
        invariant
            len as nat == loads@.len(),
            len > 0,
            k <= len,
            c as int == (counter + k) % 0x1_0000_0000,
            forall|j: nat| j < k ==> !draw_has_room(loads@, counter, j),
        decreases len - k,
    {
        let idx = c % len;
        let next = c.wrapping_add(1);
        assert(idx as int == slot(counter, k as nat, loads@.len()));
        if loads[idx as usize].active_requests < loads[idx as usize].max_concurrent {
            assert(draw_has_room(loads@, counter, k as nat));
            assert(next as int == (counter + k + 1) % 0x1_0000_0000);
            return Ok((idx as usize, next));
        }
        c = next;
        k = k + 1;
        assert(c as int == (counter + k) % 0x1_0000_0000);
    }
    let idx = c % len;
    let next = c.wrapping_add(1);
    assert(idx as int == slot(counter, len as nat, loads@.len()));
    Ok((idx as usize, next))
}

/// Round robin never passes over a connection with room: when one has room
/// and the counter does not wrap around within the draws, the connection
/// `pick_connection` returns has room.
pub proof fn lemma_pick_finds_room(loads: Seq<ConnectionLoad>, counter: u32, i: int, idx: int, next: int)
    requires
        0 <= i < loads.len(),
        has_room(loads[i]),
        counter + loads.len() <= u32::MAX,
        ({
            let n = loads.len();
            ||| exists|k: nat| #![trigger draw_has_room(loads, counter, k)] k < n && draw_has_room(loads, counter, k)
                && (forall|j: nat| j < k ==> !draw_has_room(loads, counter, j))
                && idx == slot(counter, k, n) && next == (counter + k + 1) % 0x1_0000_0000
            ||| (forall|j: nat| j < n ==> !draw_has_room(loads, counter, j))
                && idx == slot(counter, n, n) && next == (counter + n + 1) % 0x1_0000_0000
        }),
    ensures
        0 <= idx < loads.len(),
        has_room(loads[idx]),
{
    let n = loads.len();
    let r = (counter as int) % (n as int);
    let k: nat = (if i >= r { i - r } else { i - r + n }) as nat;
    assert(k < n);
    assert((counter + k) % 0x1_0000_0000 == counter + k);
    assert(slot(counter, k, n) == i) by {
        assert((counter + k) % (n as int) == i) by (nonlinear_arith)
            requires
                r == (counter as int) % (n as int),
                k == (if i >= r { i - r } else { i - r + n }),
                0 <= i < n,
                n > 0;
    }
    assert(draw_has_room(loads, counter, k));
    if exists|k2: nat| #![trigger draw_has_room(loads, counter, k2)] k2 < n && draw_has_room(loads, counter, k2)
        && (forall|j: nat| j < k2 ==> !draw_has_room(loads, counter, j))
        && idx == slot(counter, k2, n) && next == (counter + k2 + 1) % 0x1_0000_0000 {
        let k2 = choose|k2: nat| #![trigger draw_has_room(loads, counter, k2)] k2 < n && draw_has_room(loads, counter, k2)
            && (forall|j: nat| j < k2 ==> !draw_has_room(loads, counter, j))
            && idx == slot(counter, k2, n) && next == (counter + k2 + 1) % 0x1_0000_0000;
        assert((counter + k2) % 0x1_0000_0000 == counter + k2);
        assert(0 <= slot(counter, k2, n) < n) by (nonlinear_arith)
            requires n > 0, slot(counter, k2, n) == (counter + k2) % (n as int);
    } else {
        assert(!draw_has_room(loads, counter, k));
    }
}

/// The health of a backend's connections: how many, and their active
/// requests in all.
pub open spec fn active_sum(loads: Seq<ConnectionLoad>) -> int
    decreases loads.len(),
{
    if loads.len() == 0 { 0 } else { active_sum(loads.drop_last()) + loads.last().active_requests }
}

/// The health of a backend's connections: how many, and their active
/// requests in all.
pub fn health(loads: &Vec<ConnectionLoad>) -> (r: (usize, u32))
    requires
        active_sum(loads@) <= u32::MAX,
    ensures
        r.0 == loads@.len(),
        r.1 == active_sum(loads@),
{
    let mut total: u32 = 0;
    let mut i: usize = 0;
    while i < loads.len()
        invariant
            i <= loads.len(),
            active_sum(loads@) <= u32::MAX,
            total == active_sum(loads@.take(i as int)),
        decreases loads.len() - i,
    {
        assert(loads@.take(i + 1).drop_last() =~= loads@.take(i as int));
        proof { lemma_active_sum_prefix(loads@, i + 1); }
        total = total + loads[i].active_requests;
        i += 1;
    }
    assert(loads@.take(loads.len() as int) =~= loads@);
    (loads.len(), total)
}

/// A prefix's active requests are at most the whole's.
proof fn lemma_active_sum_prefix(s: Seq<ConnectionLoad>, k: int)
    requires
        0 <= k <= s.len(),
    ensures
        active_sum(s.take(k)) <= active_sum(s),
    decreases s.len() - k,
{
    if k < s.len() {
        lemma_active_sum_prefix(s, k + 1);
        assert(s.take(k + 1).drop_last() =~= s.take(k));
    } else {
        assert(s.take(k) =~= s);
    }
}

// ── Requests in flight on a connection ──────────────────────────

/// The requests in flight on an agent-backend connection: the active count
/// (a wrapping counter, as an atomic's `fetch_add`/`fetch_sub` is) and the
/// ids whose replies are routed back, each once.
pub struct InFlight {
    active: u32,
    pending: Vec<String>,
}

impl View for InFlight {
    type V = Seq<Seq<char>>;

    closed spec fn view(&self) -> Seq<Seq<char>> {
        self.pending@.map_values(|s: String| s@)
    }
}

impl InFlight {
    /// The number of active requests.
    pub closed spec fn spec_active(&self) -> u32 {
        self.active
    }

    /// The number of active requests.
    pub fn active(&self) -> (r: u32)
        ensures
            r == self.spec_active(),
    {
        self.active
    }
}

impl InFlight {
    /// Nothing in flight.
    pub fn new() -> (r: InFlight)
        ensures
            r.spec_active() == 0,
            r@ == Seq::<Seq<char>>::empty(),
    {
        let r = InFlight { active: 0, pending: Vec::new() };
        assert(r@ =~= Seq::<Seq<char>>::empty());
        r
    }

    /// The position of a request id among the pending ones.
    fn find(&self, request_id: &str) -> (r: Option<usize>)
        ensures
            r is None <==> !self@.contains(request_id@),
            r matches Some(i) ==> i < self@.len() && self@[i as int] == request_id@,
    {
        let mut i: usize = 0;
        while i < self.pending.len()
            invariant
                i <= self.pending.len(),
                self@.len() == self.pending@.len(),
                forall|k: int| 0 <= k < i ==> self@[k] != request_id@,
            decreases self.pending.len() - i,
        {
            assert(self@[i as int] == self.pending@[i as int]@);
            if str_eq(self.pending[i].as_str(), request_id) {
                assert(self@.contains(request_id@));
                return Some(i);
            }
            i += 1;
        }
        None
    }

    /// Whether replies to `request_id` are routed back.
    pub fn is_pending(&self, request_id: &str) -> (r: bool)
        ensures
            r == self@.contains(request_id@),
    {
        self.find(request_id).is_some()
    }

    /// A request starts: it counts as active and its replies are routed back.
    pub fn begin(&mut self, request_id: String)
        ensures
            final(self).spec_active() == old(self).spec_active().wrapping_add(1),
            final(self)@ == if old(self)@.contains(request_id@) { old(self)@ } else { old(self)@.push(request_id@) },
    {
        self.active = self.active.wrapping_add(1);
        if self.find(request_id.as_str()).is_none() {
            let ghost before = self@;
            self.pending.push(request_id);
            assert(self@ =~= before.push(self.pending@.last()@));
        }
    }

    /// A request ends (its stream finished, failed or could not be sent): it
    /// no longer counts as active and its replies are no longer routed back.
    /// Whether it was pending.
    pub fn finish(&mut self, request_id: &str) -> (r: bool)
        ensures
            final(self).spec_active() == old(self).spec_active().wrapping_sub(1),
            r == old(self)@.contains(request_id@),
            !r ==> final(self)@ == old(self)@,
            r ==> exists|i: int| 0 <= i < old(self)@.len() && old(self)@[i] == request_id@
                && final(self)@ == old(self)@.remove(i),
    {
        let ghost orig = self@;
        self.active = self.active.wrapping_sub(1);
        assert(self@ == orig);
        match self.find(request_id) {
            Some(i) => {
                let ghost before = self@;
                let _gone = self.pending.remove(i);
                assert(self@ =~= before.remove(i as int));
                assert(before[i as int] == request_id@);
                assert(orig[i as int] == request_id@ && self@ == orig.remove(i as int));
                true
            },
            None => false,
        }
    }
}

/// A request that starts and then ends leaves the connection as it was: the
/// active count back where it was, and the pending ids as they were, when
/// the request's id was fresh.
pub proof fn lemma_begin_finish_restores(active: u32, pending: Seq<Seq<char>>, id: Seq<char>)
    requires
        !pending.contains(id),
    ensures
        active.wrapping_add(1).wrapping_sub(1) == active,
        pending.push(id).remove(pending.len() as int) == pending,
        forall|i: int| 0 <= i < pending.push(id).len() && pending.push(id)[i] == id ==> i == pending.len(),
{
    assert(pending.push(id).remove(pending.len() as int) =~= pending);
    assert forall|i: int| 0 <= i < pending.push(id).len() && pending.push(id)[i] == id implies i == pending.len() by {
        if i < pending.len() {
            assert(pending[i] == pending.push(id)[i]);
            assert(pending.contains(id));
        }
    }
}

// ── Actors ──────────────────────────────────────────────────────

/// How often the reaper scans and how long an actor may stay idle.
pub struct ReaperConfig {
    pub scan_interval_secs: u64,
    pub idle_timeout_secs: u64,
}

impl Default for ReaperConfig {
    /// Scan every minute; reap after five idle minutes.
    fn default() -> (r: ReaperConfig)
        ensures
            r.scan_interval_secs == 60,
            r.idle_timeout_secs == 300,
    {
        ReaperConfig { scan_interval_secs: 60, idle_timeout_secs: 300 }
    }
}

/// Whether an actor last active at `last` is idle at `now` (times in the
/// same unit): the time since, counted from zero when `last` is later, is
/// longer than the timeout.
pub open spec fn spec_is_idle(now: u64, last: u64, timeout: u64) -> bool {
    (if now >= last { now - last } else { 0 }) > timeout
}

/// The actors to reap: the indices of those idle at `now`, in order.
pub fn idle_actors(now: u64, last_activity: &Vec<u64>, timeout: u64) -> (r: Vec<usize>)
    ensures
        forall|k: int| 0 <= k < r@.len() ==> (#[trigger] r@[k]) < last_activity@.len()
            && spec_is_idle(now, last_activity@[r@[k] as int], timeout),
        forall|i: int| 0 <= i < last_activity@.len() && spec_is_idle(now, last_activity@[i], timeout)
            ==> r@.contains(i as usize),
        forall|a: int, b: int| 0 <= a < b < r@.len() ==> r@[a] < r@[b],
{
    let mut out: Vec<usize> = Vec::new();
    let mut i: usize = 0;
    while i < last_activity.len()
        invariant
            i <= last_activity.len(),
            forall|k: int| 0 <= k < out@.len() ==> (#[trigger] out@[k]) < i
                && spec_is_idle(now, last_activity@[out@[k] as int], timeout),
            forall|j: int| 0 <= j < i && spec_is_idle(now, last_activity@[j], timeout) ==> out@.contains(j as usize),
            forall|a: int, b: int| 0 <= a < b < out@.len() ==> out@[a] < out@[b],
        decreases last_activity.len() - i,
    {
        let last = last_activity[i];
        let elapsed = if now >= last { now - last } else { 0 };
        if elapsed > timeout {
            let ghost before = out@;
            out.push(i);
            assert forall|j: int| 0 <= j < i + 1 && spec_is_idle(now, last_activity@[j], timeout)
                implies out@.contains(j as usize) by {
                if j < i {
                    let w = choose|w: int| 0 <= w < before.len() && before[w] == j as usize;
                    assert(out@[w] == j as usize);
                } else {
                    assert(out@[out@.len() - 1] == i);
                }
            }
        }
        i += 1;
    }
    out
}

/// The name of an actor: tenant, agent and conversation, colon-separated.
pub open spec fn spec_actor_key(tenant: u128, agent: Seq<char>, conversation: u128) -> Seq<char> {
    spec_uuid_text(tenant) + ":"@ + agent + ":"@ + spec_uuid_text(conversation)
}

/// The name of an actor.
pub fn actor_key_text(tenant: u128, agent: &str, conversation: u128) -> (r: String)
    ensures
        r@ == spec_actor_key(tenant, agent@, conversation),
{
    let a = concat3(&uuid_text(tenant), ":", agent);
    concat3(&a, ":", &uuid_text(conversation))
}

/// Key identifying an actor: one per tenant, agent and conversation.
#[derive(Clone, Debug, PartialEq, Eq, Hash)]
pub struct ActorKey {
    pub tenant_id: u128,
    pub agent_name: String,
    pub conversation_id: u128,
}

impl ActorKey {
    /// The key's text (its `Display` form).
    pub fn to_text(&self) -> (r: String)
        ensures
            r@ == spec_actor_key(self.tenant_id, self.agent_name@, self.conversation_id),
    {
        actor_key_text(self.tenant_id, self.agent_name.as_str(), self.conversation_id)
    }
}


/// The abstract value of an actor key.
pub struct ActorKeyV {
    pub tenant_id: u128,
    pub agent_name: Seq<char>,
    pub conversation_id: u128,
}

impl View for ActorKey {
    type V = ActorKeyV;

    open spec fn view(&self) -> ActorKeyV {
        ActorKeyV { tenant_id: self.tenant_id, agent_name: self.agent_name@, conversation_id: self.conversation_id }
    }
}

impl ActorKey {
    /// Whether two keys name the same actor.
    pub fn same_actor(&self, other: &ActorKey) -> (r: bool)
        ensures
            r == (self@ == other@),
    {
        self.tenant_id == other.tenant_id && self.conversation_id == other.conversation_id
            && str_eq(self.agent_name.as_str(), other.agent_name.as_str())
    }

    /// A copy of the key.
    pub fn copied(&self) -> (r: ActorKey)
        ensures
            r@ == self@,
    {
        ActorKey { tenant_id: self.tenant_id, agent_name: self.agent_name.clone(), conversation_id: self.conversation_id }
    }
}

/// No key occurs twice among the entries.
pub open spec fn distinct_keys<H>(s: Seq<(ActorKeyV, H)>) -> bool {
    forall|i: int, j: int| 0 <= i < j < s.len() ==> (#[trigger] s[i]).0 != (#[trigger] s[j]).0
}

/// Some entry has this key.
pub open spec fn has_actor<H>(s: Seq<(ActorKeyV, H)>, key: ActorKeyV) -> bool {
    exists|i: int| 0 <= i < s.len() && (#[trigger] s[i]).0 == key
}

/// The running actors, one per tenant, agent and conversation, each with
/// the handle its caller keeps for it (a mailbox sender and its last
/// activity), in the order they were activated.
pub struct ActorRegistry<H> {
    entries: Vec<(ActorKey, H)>,
    mailbox_size: usize,
}

impl<H> View for ActorRegistry<H> {
    type V = Seq<(ActorKeyV, H)>;

    closed spec fn view(&self) -> Seq<(ActorKeyV, H)> {
        self.entries@.map_values(|e: (ActorKey, H)| (e.0@, e.1))
    }
}

impl<H> ActorRegistry<H> {
    /// Every key names one actor.
    pub open spec fn wf(&self) -> bool {
        distinct_keys(self@)
    }

    /// The size of the bounded mailbox each actor gets.
    pub closed spec fn spec_mailbox_size(&self) -> usize {
        self.mailbox_size
    }

    /// An empty registry whose actors get mailboxes of this size.
    pub fn new(mailbox_size: usize) -> (r: ActorRegistry<H>)
        ensures
            r@ == Seq::<(ActorKeyV, H)>::empty(),
            r.wf(),
            r.spec_mailbox_size() == mailbox_size,
    {
        let r = ActorRegistry { entries: Vec::new(), mailbox_size };
        assert(r@ =~= Seq::<(ActorKeyV, H)>::empty());
        r
    }

    /// The size of the bounded mailbox each actor gets.
    pub fn mailbox_size(&self) -> (r: usize)
        ensures
            r == self.spec_mailbox_size(),
    {
        self.mailbox_size
    }

    /// The number of active actors.
    pub fn active_count(&self) -> (r: usize)
        ensures
            r == self@.len(),
    {
        self.entries.len()
    }

    /// The position of the actor with this key, if it is active.
    pub fn position(&self, key: &ActorKey) -> (r: Option<usize>)
        ensures
            r is None <==> !has_actor(self@, key@),
            r matches Some(i) ==> i < self@.len() && self@[i as int].0 == key@,
    {
        let mut i: usize = 0;
        while i < self.entries.len()
            invariant
                i <= self.entries.len(),
                self@.len() == self.entries@.len(),
                forall|k: int| 0 <= k < i ==> (#[trigger] self@[k]).0 != key@,
            decreases self.entries.len() - i,
        {
            if self.entries[i].0.same_actor(key) {
                assert(self@[i as int].0 == self.entries@[i as int].0@);
                return Some(i);
            }
            assert(self@[i as int].0 == self.entries@[i as int].0@);
            i += 1;
        }
        None
    }

    /// Whether the actor with this key is active.
    pub fn contains(&self, key: &ActorKey) -> (r: bool)
        ensures
            r == has_actor(self@, key@),
    {
        self.position(key).is_some()
    }

    /// The handle of the `i`-th actor.
    pub fn handle(&self, i: usize) -> (r: &H)
        requires
            i < self@.len(),
        ensures
            *r == self@[i as int].1,
    {
        &self.entries[i].1
    }

    /// Gets or activates the actor for `key`: when one is active, its
    /// position and `false`, the registry unchanged; otherwise `handle` is
    /// registered for the key at the end and its position comes back with
    /// `true`, telling the caller to start the actor's task.
    pub fn get_or_activate(&mut self, key: ActorKey, handle: H) -> (r: (usize, bool))
        requires
            old(self).wf(),
        ensures
            final(self).wf(),
            final(self).spec_mailbox_size() == old(self).spec_mailbox_size(),
            final(self)@ == activated(old(self)@, key@, handle),
            r.1 == !has_actor(old(self)@, key@),
            r.0 < final(self)@.len() && final(self)@[r.0 as int].0 == key@,
            r.1 ==> r.0 == old(self)@.len(),
    {
        match self.position(&key) {
            Some(i) => (i, false),
            None => {
                let n = self.entries.len();
                let ghost before = self@;
                self.entries.push((key, handle));
                assert(self@ =~= before.push((key@, handle)));
                assert forall|i: int, j: int| 0 <= i < j < self@.len() implies (#[trigger] self@[i]).0 != (#[trigger] self@[j]).0 by {
                    if j == before.len() {
                        assert(before[i] == self@[i]);
                    } else {
                        assert(before[i] == self@[i] && before[j] == self@[j]);
                    }
                }
                (n, true)
            },
        }
    }

    /// Removes the actor with this key, closing its mailbox; whether it was
    /// active.
    pub fn remove(&mut self, key: &ActorKey) -> (r: bool)
        requires
            old(self).wf(),
        ensures
            final(self).wf(),
            final(self).spec_mailbox_size() == old(self).spec_mailbox_size(),
            r == has_actor(old(self)@, key@),
            !r ==> final(self)@ == old(self)@,
            r ==> exists|i: int| 0 <= i < old(self)@.len() && (#[trigger] old(self)@[i]).0 == key@
                && final(self)@ == old(self)@.remove(i),
            !has_actor(final(self)@, key@),
    {
        match self.position(key) {
            Some(i) => {
                let ghost before = self@;
                let _gone = self.entries.remove(i);
                assert(self@ =~= before.remove(i as int));
                assert forall|a: int, b: int| 0 <= a < b < self@.len() implies (#[trigger] self@[a]).0 != (#[trigger] self@[b]).0 by {
                    let a0 = if a < i { a } else { a + 1 };
                    let b0 = if b < i { b } else { b + 1 };
                    assert(self@[a] == before[a0] && self@[b] == before[b0]);
                }
                assert forall|k: int| 0 <= k < self@.len() implies (#[trigger] self@[k]).0 != key@ by {
                    let k0 = if k < i { k } else { k + 1 };
                    assert(self@[k] == before[k0]);
                    assert(before[i as int].0 == key@);
                }
                true
            },
            None => false,
        }
    }

    /// The keys of the active actors, in order (what the reaper scans).
    pub fn keys(&self) -> (r: Vec<ActorKey>)
        ensures
            r@.map_values(|k: ActorKey| k@) == self@.map_values(|e: (ActorKeyV, H)| e.0),
    {
        let mut out: Vec<ActorKey> = Vec::new();
        let mut i: usize = 0;
        while i < self.entries.len()
            invariant
                i <= self.entries.len(),
                self@.len() == self.entries@.len(),
                out@.len() == i,
                forall|k: int| 0 <= k < i ==> (#[trigger] out@[k])@ == self@[k].0,
            decreases self.entries.len() - i,
        {
            let k = self.entries[i].0.copied();
            assert(self@[i as int].0 == self.entries@[i as int].0@);
            out.push(k);
            i += 1;
        }
        assert(out@.map_values(|k: ActorKey| k@) =~= self@.map_values(|e: (ActorKeyV, H)| e.0));
        out
    }
}

/// The entries after activating `key` with `handle`: unchanged when the key
/// is active, else with the new entry at the end.
pub open spec fn activated<H>(s: Seq<(ActorKeyV, H)>, key: ActorKeyV, handle: H) -> Seq<(ActorKeyV, H)> {
    if has_actor(s, key) { s } else { s.push((key, handle)) }
}

/// One actor per key: after an activation the key is active, every key
/// still names one actor, and activating the same key again, with any
/// handle, changes nothing.
pub proof fn lemma_one_actor_per_key<H>(s: Seq<(ActorKeyV, H)>, key: ActorKeyV, first: H, second: H)
    requires
        distinct_keys(s),
    ensures
        has_actor(activated(s, key, first), key),
        distinct_keys(activated(s, key, first)),
        activated(activated(s, key, first), key, second) == activated(s, key, first),
{
    let t = activated(s, key, first);
    if !has_actor(s, key) {
        assert(t[s.len() as int].0 == key);
        assert forall|i: int, j: int| 0 <= i < j < t.len() implies (#[trigger] t[i]).0 != (#[trigger] t[j]).0 by {
            if j == s.len() {
                assert(s[i] == t[i]);
            } else {
                assert(s[i] == t[i] && s[j] == t[j]);
            }
        }
    }
    assert(has_actor(t, key));
}

} // verus!
