//! Live client connections: the connection table, the per-connection
//! subscription handles, recipient filtering of queue events, and the
//! decision steps of the two connection duties. The runtime reads and
//! writes the socket; every decision about what a connection receives is
//! made here.

use vstd::prelude::*;
use vstd::string::StringExecFns;
use crate::events::ProgressUpdate;
use crate::events::QueueUpdate;
use crate::events::WebSocketMessage;
use crate::hub::BroadcastItem;
use crate::hub::RecvOutcome;
use crate::hub::Topic;
use crate::strutil::str_eq;
use crate::strutil::take_chars;

verus! {

/// Metadata of one live connection.
#[derive(Debug)]
pub struct ConnectionInfo {
    pub user_id: String,
    pub connected_at: u64,
}

/// One table entry: a connection id and its metadata.
#[derive(Debug)]
pub struct ConnectionEntry {
    pub conn_id: String,
    pub info: ConnectionInfo,
}

/// The first entry of `s` at or after `i` whose connection id is `id`.
pub open spec fn conn_lookup_from(s: Seq<ConnectionEntry>, id: Seq<char>, i: int) -> Option<
    ConnectionEntry,
>
    decreases s.len() - i,
{
    if i < 0 || i >= s.len() {
        None
    } else if s[i].conn_id@ == id {
        Some(s[i])
    } else {
        conn_lookup_from(s, id, i + 1)
    }
}

/// The table entry for connection `id`, if any.
pub open spec fn conn_lookup(s: Seq<ConnectionEntry>, id: Seq<char>) -> Option<ConnectionEntry> {
    conn_lookup_from(s, id, 0)
}

/// Connection ids are pairwise distinct.
pub open spec fn distinct_conn_ids(s: Seq<ConnectionEntry>) -> bool {
    forall|k: int, l: int| 0 <= k < l < s.len() ==> s[k].conn_id@ != s[l].conn_id@
}

proof fn lemma_conn_lookup_none(s: Seq<ConnectionEntry>, id: Seq<char>, i: int)
    requires
        0 <= i <= s.len(),
        conn_lookup_from(s, id, i) is None,
    ensures
        forall|k: int| i <= k < s.len() ==> s[k].conn_id@ != id,
    decreases s.len() - i,
{
    if i < s.len() {
        lemma_conn_lookup_none(s, id, i + 1);
    }
}

proof fn lemma_conn_lookup_update_same(s: Seq<ConnectionEntry>, idx: int, v: ConnectionEntry, i: int)
    requires
        0 <= i <= idx < s.len(),
        v.conn_id@ == s[idx].conn_id@,
        distinct_conn_ids(s),
    ensures
        conn_lookup_from(s.update(idx, v), s[idx].conn_id@, i) == Some(v),
    decreases idx - i,
{
    if i < idx {
        lemma_conn_lookup_update_same(s, idx, v, i + 1);
    }
}

proof fn lemma_conn_lookup_update_other(
    s: Seq<ConnectionEntry>,
    idx: int,
    v: ConnectionEntry,
    id2: Seq<char>,
    i: int,
)
    requires
        0 <= idx < s.len(),
        0 <= i <= s.len(),
        v.conn_id@ == s[idx].conn_id@,
        id2 != v.conn_id@,
    ensures
        conn_lookup_from(s.update(idx, v), id2, i) == conn_lookup_from(s, id2, i),
    decreases s.len() - i,
{
    if i < s.len() {
        lemma_conn_lookup_update_other(s, idx, v, id2, i + 1);
    }
}

proof fn lemma_conn_lookup_push(s: Seq<ConnectionEntry>, v: ConnectionEntry, id2: Seq<char>, i: int)
    requires
        0 <= i <= s.len(),
    ensures
        conn_lookup_from(s.push(v), id2, i) == if conn_lookup_from(s, id2, i) is Some {
            conn_lookup_from(s, id2, i)
        } else if id2 == v.conn_id@ {
            Some(v)
        } else {
            None
        },
    decreases s.len() - i,
{
    if i < s.len() {
        lemma_conn_lookup_push(s, v, id2, i + 1);
    } else {
        assert(s.push(v)[s.len() as int] == v);
        assert(conn_lookup_from(s.push(v), id2, s.len() as int + 1) is None);
    }
}

proof fn lemma_conn_lookup_remove(s: Seq<ConnectionEntry>, idx: int, id2: Seq<char>, i: int)
    requires
        0 <= idx < s.len(),
        0 <= i <= s.len() - 1,
        distinct_conn_ids(s),
        id2 != s[idx].conn_id@,
    ensures
        conn_lookup_from(s.remove(idx), id2, i) == if i <= idx {
            conn_lookup_from(s, id2, i)
        } else {
            conn_lookup_from(s, id2, i + 1)
        },
    decreases s.len() - i,
{
    if i < s.len() - 1 {
        lemma_conn_lookup_remove(s, idx, id2, i + 1);
    }
    if i <= idx && i < s.len() && s[i].conn_id@ == id2 {
        assert(i != idx);
    }
}

/// The table of live connections.
pub struct ConnectionTable {
    entries: Vec<ConnectionEntry>,
}

impl ConnectionTable {
    pub closed spec fn connections(&self) -> Seq<ConnectionEntry> {
        self.entries@
    }

    pub open spec fn wf(&self) -> bool {
        distinct_conn_ids(self.connections())
    }

    pub fn new() -> (r: Self)
        ensures
            r.wf(),
            r.connections() =~= Seq::<ConnectionEntry>::empty(),
    {
        ConnectionTable { entries: Vec::new() }
    }

    /// How many connections are live.
    pub fn len(&self) -> (r: usize)
        ensures
            r == self.connections().len(),
    {
        self.entries.len()
    }

    fn find_index(&self, conn_id: &str) -> (r: Option<usize>)
        ensures
            match r {
                Some(i) => i < self.connections().len() && self.connections()[i as int].conn_id@
                    == conn_id@ && conn_lookup(self.connections(), conn_id@) == Some(
                    self.connections()[i as int],
                ),
                None => conn_lookup(self.connections(), conn_id@) is None,
            },
    {
        let n = self.entries.len();
        let mut j: usize = 0;
        while j < n
            invariant
                0 <= j <= n,
                n == self.entries@.len(),
                conn_lookup_from(self.entries@, conn_id@, 0) == conn_lookup_from(
                    self.entries@,
                    conn_id@,
                    j as int,
                ),
            decreases n - j,
        {
            if str_eq(self.entries[j].conn_id.as_str(), conn_id) {
                return Some(j);
            }
            j = j + 1;
        }
        None
    }

    /// Record a connection's metadata under its id, replacing any stale
    /// entry with the same id.
    pub fn register(&mut self, conn_id: String, user_id: String, now: u64)
        requires
            old(self).wf(),
        ensures
            final(self).wf(),
            ({
                let entry = conn_lookup(final(self).connections(), conn_id@);
                &&& entry is Some
                &&& entry matches Some(e) ==> e.conn_id@ == conn_id@ && e.info.user_id@ == user_id@
                    && e.info.connected_at == now
            }),
            forall|id2: Seq<char>|
                id2 != conn_id@ ==> conn_lookup(final(self).connections(), id2) == conn_lookup(
                    old(self).connections(),
                    id2,
                ),
            final(self).connections().len() == old(self).connections().len() + (
            if conn_lookup(old(self).connections(), conn_id@) is Some {
                0int
            } else {
                1int
            }),
    {
        let entry = ConnectionEntry { conn_id, info: ConnectionInfo { user_id, connected_at: now } };
        let ghost before = self.entries@;
        match self.find_index(entry.conn_id.as_str()) {
            Some(i) => {
                let ghost v = entry;
                self.entries.remove(i);
                self.entries.insert(i, entry);
                proof {
                    assert(self.entries@ =~= before.update(i as int, v));
                    lemma_conn_lookup_update_same(before, i as int, v, 0);
                    assert forall|id2: Seq<char>| id2 != v.conn_id@ implies conn_lookup(
                        self.entries@,
                        id2,
                    ) == conn_lookup(before, id2) by {
                        lemma_conn_lookup_update_other(before, i as int, v, id2, 0);
                    }
                }
            },
            None => {
                let ghost v = entry;
                self.entries.push(entry);
                proof {
                    lemma_conn_lookup_none(before, v.conn_id@, 0);
                    lemma_conn_lookup_push(before, v, v.conn_id@, 0);
                    assert forall|id2: Seq<char>| id2 != v.conn_id@ implies conn_lookup(
                        self.entries@,
                        id2,
                    ) == conn_lookup(before, id2) by {
                        lemma_conn_lookup_push(before, v, id2, 0);
                    }
                    assert(self.entries@[before.len() as int] == v);
                    assert forall|k: int, l: int|
                        0 <= k < l < self.entries@.len() implies self.entries@[k].conn_id@
                        != self.entries@[l].conn_id@ by {
                        if l == before.len() {
                            assert(before[k].conn_id@ != v.conn_id@);
                        }
                    }
                }
            },
        }
    }

    /// Drop the entry for `conn_id`; cleanup runs on every exit path, so
    /// after this the connection is gone whatever state it was in.
    pub fn remove(&mut self, conn_id: &str)
        requires
            old(self).wf(),
        ensures
            final(self).wf(),
            conn_lookup(final(self).connections(), conn_id@) is None,
            forall|id2: Seq<char>|
                id2 != conn_id@ ==> conn_lookup(final(self).connections(), id2) == conn_lookup(
                    old(self).connections(),
                    id2,
                ),
            final(self).connections().len() == old(self).connections().len() - (
            if conn_lookup(old(self).connections(), conn_id@) is Some {
                1int
            } else {
                0int
            }),
    {
        let ghost before = self.entries@;
        match self.find_index(conn_id) {
            Some(i) => {
                self.entries.remove(i);
                proof {
                    assert(self.entries@ =~= before.remove(i as int));
                    assert forall|k: int, l: int|
                        0 <= k < l < self.entries@.len() implies self.entries@[k].conn_id@
                        != self.entries@[l].conn_id@ by {
                        let k0 = if k < i {
                            k
                        } else {
                            k + 1
                        };
                        let l0 = if l < i {
                            l
                        } else {
                            l + 1
                        };
                        assert(self.entries@[k] == before[k0]);
                        assert(self.entries@[l] == before[l0]);
                    }
                    assert forall|k: int|
                        0 <= k < self.entries@.len() implies self.entries@[k].conn_id@
                        != conn_id@ by {
                        let k0 = if k < i {
                            k
                        } else {
                            k + 1
                        };
                        assert(self.entries@[k] == before[k0]);
                        if k0 != i && before[k0].conn_id@ == conn_id@ {
                            assert(before[i as int].conn_id@ == conn_id@);
                        }
                    }
                    lemma_conn_lookup_none_from_distinct(self.entries@, conn_id@);
                    assert forall|id2: Seq<char>| id2 != conn_id@ implies conn_lookup(
                        self.entries@,
                        id2,
                    ) == conn_lookup(before, id2) by {
                        lemma_conn_lookup_remove(before, i as int, id2, 0);
                    }
                }
            },
            None => {},
        }
    }
}

/// A sequence none of whose entries carries `id` looks it up to `None`.
proof fn lemma_conn_lookup_none_from_distinct(s: Seq<ConnectionEntry>, id: Seq<char>)
    requires
        forall|k: int| 0 <= k < s.len() ==> s[k].conn_id@ != id,
    ensures
        conn_lookup(s, id) is None,
{
    lemma_conn_lookup_all_miss(s, id, 0);
}

proof fn lemma_conn_lookup_all_miss(s: Seq<ConnectionEntry>, id: Seq<char>, i: int)
    requires
        0 <= i <= s.len(),
        forall|k: int| 0 <= k < s.len() ==> s[k].conn_id@ != id,
    ensures
        conn_lookup_from(s, id, i) is None,
    decreases s.len() - i,
{
    if i < s.len() {
        lemma_conn_lookup_all_miss(s, id, i + 1);
    }
}

/// Whether a queue update is delivered to a connection: an update with an
/// affected user goes only to that user and to the privileged "admin"
/// identity; an update with no affected user goes to everyone, whatever
/// its position field holds.
pub open spec fn queue_update_visible(identity: Seq<char>, affected: Option<String>) -> bool {
    match affected {
        Some(a) => a@ == identity || identity == "admin"@,
        None => true,
    }
}

/// The recipient filter applied to queue updates before they are written
/// to a connection; progress updates are delivered to every connection
/// unfiltered.
pub fn should_deliver_queue_update(identity: &str, update: &QueueUpdate) -> (r: bool)
    ensures
        r == queue_update_visible(identity@, update.affected_user_id),
{
    match &update.affected_user_id {
        Some(a) => str_eq(a.as_str(), identity) || str_eq(identity, "admin"),
        None => true,
    }
}

/// The inbound duty's answer to a text frame: the literal token "ping"
/// gets the literal reply "pong"; any other text gets nothing.
pub fn heartbeat_reply(text: &str) -> (r: Option<String>)
    ensures
        (r is Some) == (text@ == "ping"@),
        r matches Some(p) ==> p@ == "pong"@,
{
    if str_eq(text, "ping") {
        Some("pong".to_owned())
    } else {
        None
    }
}

/// What the outbound duty does with one read from a topic.
#[derive(Debug)]
pub enum OutboundAction {
    /// Serialize and write this message to the connection.
    Send(WebSocketMessage),
    /// The subscriber lagged by this many events: log it, send nothing.
    NoteLag(usize),
    /// Nothing to do.
    Nothing,
}

/// The outbound decision for one read from the queue topic: a received
/// update is sent exactly when the recipient filter admits it, a lag is
/// noted and never forwarded, and an empty read does nothing.
pub fn queue_outbound_action(identity: &str, outcome: RecvOutcome<QueueUpdate>) -> (r:
    OutboundAction)
    ensures
        match outcome {
            RecvOutcome::Received(u) => if queue_update_visible(identity@, u.affected_user_id) {
                r == OutboundAction::Send(WebSocketMessage::QueueUpdate(u))
            } else {
                r is Nothing
            },
            RecvOutcome::Lagged(n) => r == OutboundAction::NoteLag(n),
            RecvOutcome::Empty => r is Nothing,
        },
{
    match outcome {
        RecvOutcome::Received(u) => {
            if should_deliver_queue_update(identity, &u) {
                OutboundAction::Send(WebSocketMessage::QueueUpdate(u))
            } else {
                OutboundAction::Nothing
            }
        },
        RecvOutcome::Lagged(n) => OutboundAction::NoteLag(n),
        RecvOutcome::Empty => OutboundAction::Nothing,
    }
}

/// The outbound decision for one read from the progress topic: every
/// received update is sent to every connection, a lag is noted and never
/// forwarded, and an empty read does nothing.
pub fn progress_outbound_action(outcome: RecvOutcome<ProgressUpdate>) -> (r: OutboundAction)
    ensures
        match outcome {
            RecvOutcome::Received(u) => r == OutboundAction::Send(
                WebSocketMessage::ProgressUpdate(u),
            ),
            RecvOutcome::Lagged(n) => r == OutboundAction::NoteLag(n),
            RecvOutcome::Empty => r is Nothing,
        },
{
    match outcome {
        RecvOutcome::Received(u) => OutboundAction::Send(WebSocketMessage::ProgressUpdate(u)),
        RecvOutcome::Lagged(n) => OutboundAction::NoteLag(n),
        RecvOutcome::Empty => OutboundAction::Nothing,
    }
}

/// Query parameters of a connection request.
#[derive(Debug)]
pub struct WebSocketQuery {
    pub user_id: Option<String>,
    pub token: Option<String>,
}

/// The identity a connection runs under: the explicit user id when given;
/// else a placeholder derived from the first eight characters of the
/// token; else the anonymous identity.
pub fn resolve_ws_identity(params: WebSocketQuery) -> (r: String)
    ensures
        match params.user_id {
            Some(uid) => r == uid,
            None => match params.token {
                Some(t) => r@ == "user_from_token_"@ + (if t@.len() <= 8 {
                    t@
                } else {
                    t@.subrange(0, 8)
                }),
                None => r@ == "anonymous"@,
            },
        },
{
    match params.user_id {
        Some(uid) => uid,
        None => match params.token {
            Some(t) => {
                let mut r = "user_from_token_".to_owned();
                let prefix = take_chars(t.as_str(), 8);
                r.append(prefix.as_str());
                r
            },
            None => "anonymous".to_owned(),
        },
    }
}

/// Owns the connection table and the two broadcast topics every
/// connection is subscribed to.
pub struct WebSocketManager {
    queue_topic: Topic<QueueUpdate>,
    progress_topic: Topic<ProgressUpdate>,
    connections: ConnectionTable,
}

impl WebSocketManager {
    pub closed spec fn queue_history(&self) -> Seq<QueueUpdate> {
        self.queue_topic.history()
    }

    pub closed spec fn progress_history(&self) -> Seq<ProgressUpdate> {
        self.progress_topic.history()
    }

    pub closed spec fn queue_cursors(&self) -> Seq<usize> {
        self.queue_topic.cursors()
    }

    pub closed spec fn progress_cursors(&self) -> Seq<usize> {
        self.progress_topic.cursors()
    }

    pub closed spec fn queue_capacity(&self) -> int {
        self.queue_topic.capacity()
    }

    pub closed spec fn progress_capacity(&self) -> int {
        self.progress_topic.capacity()
    }

    pub closed spec fn connections(&self) -> Seq<ConnectionEntry> {
        self.connections.connections()
    }

    pub closed spec fn wf(&self) -> bool {
        self.queue_topic.wf() && self.progress_topic.wf() && self.connections.wf()
    }

    pub fn new() -> (r: Self)
        ensures
            r.wf(),
            r.queue_history() =~= Seq::<QueueUpdate>::empty(),
            r.progress_history() =~= Seq::<ProgressUpdate>::empty(),
            r.queue_cursors() =~= Seq::<usize>::empty(),
            r.progress_cursors() =~= Seq::<usize>::empty(),
            r.connections() =~= Seq::<ConnectionEntry>::empty(),
            r.queue_capacity() == 1000,
            r.progress_capacity() == 1000,
    {
        WebSocketManager {
            queue_topic: Topic::new(1000),
            progress_topic: Topic::new(1000),
            connections: ConnectionTable::new(),
        }
    }

    /// On connect: record the connection's metadata and subscribe it to
    /// the queue topic and the progress topic. Returns the two
    /// subscription handles; both start at the end of their histories.
    pub fn register_connection(&mut self, conn_id: String, user_id: String, now: u64) -> (subs: (
        usize,
        usize,
    ))
        requires
            old(self).wf(),
        ensures
            final(self).wf(),
            subs.0 == old(self).queue_cursors().len(),
            subs.1 == old(self).progress_cursors().len(),
            final(self).queue_cursors() == old(self).queue_cursors().push(
                old(self).queue_history().len() as usize,
            ),
            final(self).progress_cursors() == old(self).progress_cursors().push(
                old(self).progress_history().len() as usize,
            ),
            final(self).queue_history() == old(self).queue_history(),
            final(self).progress_history() == old(self).progress_history(),
            final(self).queue_capacity() == old(self).queue_capacity(),
            final(self).progress_capacity() == old(self).progress_capacity(),
            ({
                let entry = conn_lookup(final(self).connections(), conn_id@);
                &&& entry is Some
                &&& entry matches Some(e) ==> e.conn_id@ == conn_id@ && e.info.user_id@ == user_id@
                    && e.info.connected_at == now
            }),
            forall|id2: Seq<char>|
                id2 != conn_id@ ==> conn_lookup(final(self).connections(), id2) == conn_lookup(
                    old(self).connections(),
                    id2,
                ),
    {
        self.connections.register(conn_id, user_id, now);
        let qsub = self.queue_topic.subscribe();
        let psub = self.progress_topic.subscribe();
        (qsub, psub)
    }

    /// On disconnect, from any exit path: the connection leaves the table.
    pub fn cleanup_connection(&mut self, conn_id: &str)
        requires
            old(self).wf(),
        ensures
            final(self).wf(),
            conn_lookup(final(self).connections(), conn_id@) is None,
            forall|id2: Seq<char>|
                id2 != conn_id@ ==> conn_lookup(final(self).connections(), id2) == conn_lookup(
                    old(self).connections(),
                    id2,
                ),
            final(self).queue_history() == old(self).queue_history(),
            final(self).progress_history() == old(self).progress_history(),
            final(self).queue_cursors() == old(self).queue_cursors(),
            final(self).progress_cursors() == old(self).progress_cursors(),
            final(self).queue_capacity() == old(self).queue_capacity(),
            final(self).progress_capacity() == old(self).progress_capacity(),
    {
        self.connections.remove(conn_id);
    }

    /// How many connections are live.
    pub fn connection_count(&self) -> (r: usize)
        ensures
            r == self.connections().len(),
    {
        self.connections.len()
    }

    /// Broadcast a queue update to all subscribed connections; never
    /// blocks, never fails, moves no subscriber's cursor.
    pub fn broadcast_queue_update(&mut self, update: QueueUpdate)
        requires
            old(self).wf(),
        ensures
            final(self).wf(),
            final(self).queue_history() == old(self).queue_history().push(update),
            final(self).queue_cursors() == old(self).queue_cursors(),
            final(self).progress_history() == old(self).progress_history(),
            final(self).progress_cursors() == old(self).progress_cursors(),
            final(self).connections() == old(self).connections(),
            final(self).queue_capacity() == old(self).queue_capacity(),
            final(self).progress_capacity() == old(self).progress_capacity(),
    {
        self.queue_topic.publish(update);
    }

    /// Broadcast a progress update to all subscribed connections; never
    /// blocks, never fails, moves no subscriber's cursor.
    pub fn broadcast_progress_update(&mut self, update: ProgressUpdate)
        requires
            old(self).wf(),
        ensures
            final(self).wf(),
            final(self).progress_history() == old(self).progress_history().push(update),
            final(self).progress_cursors() == old(self).progress_cursors(),
            final(self).queue_history() == old(self).queue_history(),
            final(self).queue_cursors() == old(self).queue_cursors(),
            final(self).connections() == old(self).connections(),
            final(self).queue_capacity() == old(self).queue_capacity(),
            final(self).progress_capacity() == old(self).progress_capacity(),
    {
        self.progress_topic.publish(update);
    }

    /// One read from the queue topic for subscription `sub`; see
    /// `Topic::recv`.
    pub fn recv_queue_update(&mut self, sub: usize) -> (r: RecvOutcome<QueueUpdate>)
        requires
            old(self).wf(),
            sub < old(self).queue_cursors().len(),
        ensures
            final(self).wf(),
            final(self).queue_history() == old(self).queue_history(),
            final(self).progress_history() == old(self).progress_history(),
            final(self).progress_cursors() == old(self).progress_cursors(),
            final(self).connections() == old(self).connections(),
            final(self).queue_capacity() == old(self).queue_capacity(),
            final(self).progress_capacity() == old(self).progress_capacity(),
            ({
                let c = old(self).queue_cursors()[sub as int] as int;
                let len = old(self).queue_history().len() as int;
                let oldest = crate::hub::oldest_available(len, old(self).queue_capacity());
                match r {
                    RecvOutcome::Received(e) => {
                        &&& oldest <= c < len
                        &&& e.equiv(&old(self).queue_history()[c])
                        &&& final(self).queue_cursors() == old(self).queue_cursors().update(
                            sub as int,
                            (c + 1) as usize,
                        )
                    },
                    RecvOutcome::Lagged(n) => {
                        &&& c < oldest
                        &&& n == oldest - c
                        &&& final(self).queue_cursors() == old(self).queue_cursors().update(
                            sub as int,
                            oldest as usize,
                        )
                    },
                    RecvOutcome::Empty => {
                        &&& c == len
                        &&& final(self).queue_cursors() == old(self).queue_cursors()
                    },
                }
            }),
    {
        self.queue_topic.recv(sub)
    }

    /// One read from the progress topic for subscription `sub`; see
    /// `Topic::recv`.
    pub fn recv_progress_update(&mut self, sub: usize) -> (r: RecvOutcome<ProgressUpdate>)
        requires
            old(self).wf(),
            sub < old(self).progress_cursors().len(),
        ensures
            final(self).wf(),
            final(self).progress_history() == old(self).progress_history(),
            final(self).queue_history() == old(self).queue_history(),
            final(self).queue_cursors() == old(self).queue_cursors(),
            final(self).connections() == old(self).connections(),
            final(self).queue_capacity() == old(self).queue_capacity(),
            final(self).progress_capacity() == old(self).progress_capacity(),
            ({
                let c = old(self).progress_cursors()[sub as int] as int;
                let len = old(self).progress_history().len() as int;
                let oldest = crate::hub::oldest_available(len, old(self).progress_capacity());
                match r {
                    RecvOutcome::Received(e) => {
                        &&& oldest <= c < len
                        &&& e.equiv(&old(self).progress_history()[c])
                        &&& final(self).progress_cursors() == old(self).progress_cursors().update(
                            sub as int,
                            (c + 1) as usize,
                        )
                    },
                    RecvOutcome::Lagged(n) => {
                        &&& c < oldest
                        &&& n == oldest - c
                        &&& final(self).progress_cursors() == old(self).progress_cursors().update(
                            sub as int,
                            oldest as usize,
                        )
                    },
                    RecvOutcome::Empty => {
                        &&& c == len
                        &&& final(self).progress_cursors() == old(self).progress_cursors()
                    },
                }
            }),
    {
        self.progress_topic.recv(sub)
    }
}

} // verus!
