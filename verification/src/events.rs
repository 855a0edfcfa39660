//! Typed real-time events delivered over client connections: queue
//! mutations carrying a full snapshot, task progress, and heartbeats, as a
//! closed sum handled exhaustively by every consumer.

use vstd::prelude::*;
use crate::hub::BroadcastItem;
use crate::queue_state::Meeting;
use crate::strutil::clone_opt_string;

verus! {

/// Kinds of queue mutation, as clients see them.
#[derive(Debug, Clone, Copy, PartialEq, Eq, Structural)]
pub enum QueueUpdateType {
    MeetingAdded,
    MeetingRemoved,
    PositionUpdated,
    QueueCleared,
}

/// A queue mutation with the full queue snapshot taken at the mutation.
#[derive(Debug)]
pub struct QueueUpdate {
    pub update_type: QueueUpdateType,
    pub queue: Vec<Meeting>,
    pub affected_user_id: Option<String>,
    pub global_position: Option<usize>,
    pub timestamp: u64,
}

/// A copy of a meeting list, equal element for element.
pub fn duplicate_meetings(v: &Vec<Meeting>) -> (r: Vec<Meeting>)
    ensures
        r@ == v@,
{
    let n = v.len();
    let mut r: Vec<Meeting> = Vec::new();
    let mut j: usize = 0;
    while j < n
        invariant
            0 <= j <= n,
            n == v@.len(),
            r@ == v@.subrange(0, j as int),
        decreases n - j,
    {
        r.push(v[j].duplicate());
        proof {
            assert(r@ =~= v@.subrange(0, j + 1));
        }
        j = j + 1;
    }
    proof {
        assert(v@.subrange(0, n as int) =~= v@);
    }
    r
}

impl BroadcastItem for QueueUpdate {
    /// Same event: equal fields, with the snapshot compared by contents.
    open spec fn equiv(&self, other: &Self) -> bool {
        &&& self.update_type == other.update_type
        &&& self.queue@ == other.queue@
        &&& self.affected_user_id == other.affected_user_id
        &&& self.global_position == other.global_position
        &&& self.timestamp == other.timestamp
    }

    fn duplicate(&self) -> (r: Self)
        ensures
            r.equiv(self),
    {
        QueueUpdate {
            update_type: self.update_type,
            queue: duplicate_meetings(&self.queue),
            affected_user_id: clone_opt_string(&self.affected_user_id),
            global_position: self.global_position,
            timestamp: self.timestamp,
        }
    }
}

/// Kinds of task progress, as clients see them.
#[derive(Debug, Clone, Copy, PartialEq, Eq, Structural)]
pub enum ProgressType {
    Processing,
    Completed,
    Error,
}

/// Progress of one meeting's processing.
#[derive(Debug)]
pub struct ProgressUpdate {
    pub meeting_id: u128,
    pub progress_type: ProgressType,
    pub details: String,
    pub timestamp: u64,
}

impl BroadcastItem for ProgressUpdate {
    open spec fn equiv(&self, other: &Self) -> bool {
        *self == *other
    }

    fn duplicate(&self) -> (r: Self)
        ensures
            r == *self,
    {
        ProgressUpdate {
            meeting_id: self.meeting_id,
            progress_type: self.progress_type,
            details: self.details.clone(),
            timestamp: self.timestamp,
        }
    }
}

/// The wire message union for the real-time channel.
#[derive(Debug)]
pub enum WebSocketMessage {
    QueueUpdate(QueueUpdate),
    ProgressUpdate(ProgressUpdate),
    Ping,
    Pong,
}

/// How a task-level queue update kind maps onto the client-facing kind.
pub open spec fn map_external_kind(k: crate::broadcast::QueueUpdateType) -> QueueUpdateType {
    match k {
        crate::broadcast::QueueUpdateType::TaskStarted => QueueUpdateType::PositionUpdated,
        crate::broadcast::QueueUpdateType::TaskCompleted => QueueUpdateType::MeetingRemoved,
        crate::broadcast::QueueUpdateType::TaskFailed => QueueUpdateType::PositionUpdated,
        crate::broadcast::QueueUpdateType::TaskRetried => QueueUpdateType::PositionUpdated,
        crate::broadcast::QueueUpdateType::PositionUpdated => QueueUpdateType::PositionUpdated,
        crate::broadcast::QueueUpdateType::QueueCleared => QueueUpdateType::QueueCleared,
    }
}

/// Convert a task-level broadcast into the client-facing form: the kind is
/// mapped, the recipient and position carry over, and the snapshot is left
/// empty for the queue state to fill.
pub fn map_external_update(update: crate::broadcast::QueueUpdate) -> (r: QueueUpdate)
    ensures
        r.update_type == map_external_kind(update.update_type),
        r.queue@.len() == 0,
        r.affected_user_id == update.affected_user_id,
        r.global_position == update.global_position,
        r.timestamp == update.timestamp,
{
    let update_type = match update.update_type {
        crate::broadcast::QueueUpdateType::TaskStarted => QueueUpdateType::PositionUpdated,
        crate::broadcast::QueueUpdateType::TaskCompleted => QueueUpdateType::MeetingRemoved,
        crate::broadcast::QueueUpdateType::TaskFailed => QueueUpdateType::PositionUpdated,
        crate::broadcast::QueueUpdateType::TaskRetried => QueueUpdateType::PositionUpdated,
        crate::broadcast::QueueUpdateType::PositionUpdated => QueueUpdateType::PositionUpdated,
        crate::broadcast::QueueUpdateType::QueueCleared => QueueUpdateType::QueueCleared,
    };
    QueueUpdate {
        update_type,
        queue: Vec::new(),
        affected_user_id: update.affected_user_id,
        global_position: update.global_position,
        timestamp: update.timestamp,
    }
}

} // verus!
