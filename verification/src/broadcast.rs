//! Shared broadcasting service for queue updates between the API layer and
//! worker processes: one bounded broadcast topic of task-level events.

use vstd::prelude::*;
use std::sync::Arc;
use crate::hub::BroadcastItem;
use crate::hub::RecvOutcome;
use crate::hub::Topic;
use crate::strutil::clone_opt_string;

verus! {

/// Types of queue updates.
#[derive(Debug, Clone, Copy, PartialEq, Eq, Structural)]
pub enum QueueUpdateType {
    TaskStarted,
    TaskCompleted,
    TaskFailed,
    TaskRetried,
    PositionUpdated,
    QueueCleared,
}

/// A queue update event.
#[derive(Debug)]
pub struct QueueUpdate {
    pub update_type: QueueUpdateType,
    pub affected_user_id: Option<String>,
    pub global_position: Option<usize>,
    pub task_id: Option<u128>,
    pub timestamp: u64,
}

impl BroadcastItem for QueueUpdate {
    open spec fn equiv(&self, other: &Self) -> bool {
        *self == *other
    }

    fn duplicate(&self) -> (r: Self)
        ensures
            r == *self,
    {
        QueueUpdate {
            update_type: self.update_type,
            affected_user_id: clone_opt_string(&self.affected_user_id),
            global_position: self.global_position,
            task_id: self.task_id,
            timestamp: self.timestamp,
        }
    }
}

/// Shared broadcasting service: one topic of `QueueUpdate` events.
pub struct BroadcastService {
    topic: Topic<QueueUpdate>,
}

impl BroadcastService {
    /// Every update ever broadcast, in order.
    pub closed spec fn history(&self) -> Seq<QueueUpdate> {
        self.topic.history()
    }

    pub closed spec fn capacity(&self) -> int {
        self.topic.capacity()
    }

    pub closed spec fn cursors(&self) -> Seq<usize> {
        self.topic.cursors()
    }

    pub closed spec fn wf(&self) -> bool {
        self.topic.wf()
    }

    /// A service whose per-subscriber buffer holds `capacity` events.
    pub fn new(capacity: usize) -> (r: Self)
        requires
            capacity >= 1,
        ensures
            r.wf(),
            r.history() =~= Seq::<QueueUpdate>::empty(),
            r.cursors() =~= Seq::<usize>::empty(),
            r.capacity() == capacity,
    {
        BroadcastService { topic: Topic::new(capacity) }
    }

    /// Subscribe to queue updates; the handle starts at the end of the
    /// history, so updates broadcast earlier are never seen.
    pub fn subscribe(&mut self) -> (id: usize)
        requires
            old(self).wf(),
        ensures
            final(self).wf(),
            id == old(self).cursors().len(),
            final(self).cursors() == old(self).cursors().push(old(self).history().len() as usize),
            final(self).history() == old(self).history(),
            final(self).capacity() == old(self).capacity(),
    {
        self.topic.subscribe()
    }

    /// Broadcast a queue update. Never blocks and never fails, with or
    /// without subscribers.
    pub fn broadcast(&mut self, update: QueueUpdate)
        requires
            old(self).wf(),
        ensures
            final(self).wf(),
            final(self).history() == old(self).history().push(update),
            final(self).cursors() == old(self).cursors(),
            final(self).capacity() == old(self).capacity(),
    {
        self.topic.publish(update);
    }

    /// One read for subscriber `sub`; see `Topic::recv`.
    pub fn recv(&mut self, sub: usize) -> (r: RecvOutcome<QueueUpdate>)
        requires
            old(self).wf(),
            sub < old(self).cursors().len(),
        ensures
            final(self).wf(),
            final(self).history() == old(self).history(),
            final(self).capacity() == old(self).capacity(),
            ({
                let c = old(self).cursors()[sub as int] as int;
                let len = old(self).history().len() as int;
                let oldest = crate::hub::oldest_available(len, old(self).capacity());
                match r {
                    RecvOutcome::Received(e) => {
                        &&& oldest <= c < len
                        &&& e == old(self).history()[c]
                        &&& final(self).cursors() == old(self).cursors().update(
                            sub as int,
                            (c + 1) as usize,
                        )
                    },
                    RecvOutcome::Lagged(n) => {
                        &&& c < oldest
                        &&& n == oldest - c
                        &&& final(self).cursors() == old(self).cursors().update(
                            sub as int,
                            oldest as usize,
                        )
                    },
                    RecvOutcome::Empty => {
                        &&& c == len
                        &&& final(self).cursors() == old(self).cursors()
                    },
                }
            }),
    {
        self.topic.recv(sub)
    }

    /// The number of active subscribers.
    pub fn subscriber_count(&self) -> (r: usize)
        ensures
            r == self.cursors().len(),
    {
        self.topic.subscriber_count()
    }
}

/// Factory for creating shared broadcast services.
pub struct BroadcastServiceFactory;

impl BroadcastServiceFactory {
    /// Create a shared broadcast service instance.
    pub fn create_shared(capacity: usize) -> (r: Arc<BroadcastService>)
        requires
            capacity >= 1,
        ensures
            r.wf(),
            r.history() =~= Seq::<QueueUpdate>::empty(),
            r.cursors() =~= Seq::<usize>::empty(),
            r.capacity() == capacity,
    {
        Arc::new(BroadcastService::new(capacity))
    }
}

} // verus!
