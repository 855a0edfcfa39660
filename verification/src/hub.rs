//! A bounded, multi-subscriber broadcast topic. Publishing never blocks and
//! never fails: each subscriber owns a cursor into the publication history,
//! and a subscriber that falls more than `capacity` events behind receives
//! an explicit lag signal — counting exactly the events dropped for it —
//! before resuming in order. Subscribers are independent: one subscriber's
//! reads move only its own cursor, and a new subscriber starts at the
//! current end of the history, so it never sees earlier events.

use vstd::prelude::*;

verus! {

/// An event that can be handed to each subscriber as an equal copy.
/// `equiv` says when two values carry the same event; for events holding a
/// vector it compares the contents.
pub trait BroadcastItem: Sized {
    spec fn equiv(&self, other: &Self) -> bool;

    fn duplicate(&self) -> (r: Self)
        ensures
            r.equiv(self),
    ;
}

/// What one read returns.
pub enum RecvOutcome<T> {
    /// The next event, in publication order.
    Received(T),
    /// The subscriber lagged: this many events were dropped for it.
    Lagged(usize),
    /// Nothing published beyond the cursor yet.
    Empty,
}

/// The oldest history index still retained for a topic of `cap` with `len`
/// events published.
pub open spec fn oldest_available(len: int, cap: int) -> int {
    if len > cap {
        len - cap
    } else {
        0
    }
}

/// Everything a subscriber at cursor `c` will receive from history `h`,
/// reading to exhaustion with no further publications: a lagged cursor
/// jumps to the oldest retained event, then events are taken in order.
pub open spec fn drain<T>(h: Seq<T>, cap: int, c: int) -> Seq<T>
    decreases h.len() - c,
{
    if c < 0 || cap < 1 {
        Seq::empty()
    } else if c < oldest_available(h.len() as int, cap) {
        drain(h, cap, oldest_available(h.len() as int, cap))
    } else if c >= h.len() {
        Seq::empty()
    } else {
        seq![h[c]] + drain(h, cap, c + 1)
    }
}

/// One topic of the broadcast hub.
pub struct Topic<T> {
    history: Vec<T>,
    capacity: usize,
    cursors: Vec<usize>,
}

impl<T> Topic<T> {
    /// Every event ever published on this topic, in order.
    pub closed spec fn history(&self) -> Seq<T> {
        self.history@
    }

    /// How many events a subscriber may fall behind before it lags.
    pub closed spec fn capacity(&self) -> int {
        self.capacity as int
    }

    /// One cursor per subscriber, indexing into the history.
    pub closed spec fn cursors(&self) -> Seq<usize> {
        self.cursors@
    }

    pub open spec fn wf(&self) -> bool {
        &&& self.capacity() >= 1
        &&& forall|k: int|
            0 <= k < self.cursors().len() ==> #[trigger] self.cursors()[k] <= self.history().len()
    }

    pub fn new(capacity: usize) -> (r: Self)
        requires
            capacity >= 1,
        ensures
            r.wf(),
            r.history() =~= Seq::<T>::empty(),
            r.cursors() =~= Seq::<usize>::empty(),
            r.capacity() == capacity,
    {
        Topic { history: Vec::new(), capacity, cursors: Vec::new() }
    }

    /// Add a subscriber; it starts at the end of the history, so it never
    /// sees events published before it subscribed. Returns its handle.
    pub fn subscribe(&mut self) -> (id: usize)
        requires
            old(self).wf(),
        ensures
            final(self).wf(),
            id == old(self).cursors().len(),
            final(self).cursors() == old(self).cursors().push(old(self).history().len() as usize),
            final(self).history() == old(self).history(),
            final(self).capacity() == old(self).capacity(),
    {
        let id = self.cursors.len();
        let at = self.history.len();
        self.cursors.push(at);
        proof {
            assert forall|k: int|
                0 <= k < self.cursors@.len() implies #[trigger] self.cursors@[k]
                <= self.history@.len() by {
                if k < old(self).cursors().len() {
                    assert(self.cursors@[k] == old(self).cursors()[k]);
                }
            }
        }
        id
    }

    /// Publish `event`. This never blocks and never fails, whether or not
    /// anyone subscribed: the event is appended to the history and no
    /// subscriber's cursor moves.
    pub fn publish(&mut self, event: T)
        requires
            old(self).wf(),
        ensures
            final(self).wf(),
            final(self).history() == old(self).history().push(event),
            final(self).cursors() == old(self).cursors(),
            final(self).capacity() == old(self).capacity(),
    {
        self.history.push(event);
        proof {
            assert forall|k: int|
                0 <= k < self.cursors@.len() implies #[trigger] self.cursors@[k]
                <= self.history@.len() by {
                assert(old(self).cursors()[k] <= old(self).history().len());
            }
        }
    }

    /// How many subscribers the topic has.
    pub fn subscriber_count(&self) -> (r: usize)
        ensures
            r == self.cursors().len(),
    {
        self.cursors.len()
    }
}

impl<T: BroadcastItem> Topic<T> {
    /// One read for subscriber `sub`. If the subscriber's cursor fell
    /// behind the retained window it receives `Lagged` with the exact
    /// number of events dropped for it and resumes at the oldest retained
    /// event; otherwise it receives the next event in publication order, or
    /// `Empty` when it has seen everything. Only `sub`'s cursor moves.
    pub fn recv(&mut self, sub: usize) -> (r: RecvOutcome<T>)
        requires
            old(self).wf(),
            sub < old(self).cursors().len(),
        ensures
            final(self).wf(),
            final(self).history() == old(self).history(),
            final(self).capacity() == old(self).capacity(),
            ({
                let c = old(self).cursors()[sub as int] as int;
                let len = old(self).history().len() as int;
                let oldest = oldest_available(len, old(self).capacity());
                match r {
                    RecvOutcome::Received(e) => {
                        &&& oldest <= c < len
                        &&& e.equiv(&old(self).history()[c])
                        &&& final(self).cursors() == old(self).cursors().update(
                            sub as int,
                            (c + 1) as usize,
                        )
                    },
                    RecvOutcome::Lagged(n) => {
                        &&& c < oldest
                        &&& n == oldest - c
                        &&& final(self).cursors() == old(self).cursors().update(
                            sub as int,
                            oldest as usize,
                        )
                    },
                    RecvOutcome::Empty => {
                        &&& c == len
                        &&& final(self).cursors() == old(self).cursors()
                    },
                }
            }),
    {
        let c = self.cursors[sub];
        let len = self.history.len();
        let oldest = if len > self.capacity {
            len - self.capacity
        } else {
            0
        };
        if c < oldest {
            let n = oldest - c;
            let cur = &mut self.cursors[sub];
            *cur = oldest;
            RecvOutcome::Lagged(n)
        } else if c == len {
            RecvOutcome::Empty
        } else {
            let e = self.history[c].duplicate();
            let cur = &mut self.cursors[sub];
            *cur = c + 1;
            RecvOutcome::Received(e)
        }
    }
}

/// LAW (broadcast fairness): a subscriber that is within the retained
/// window — in particular one that subscribed before `m` events were
/// published on a topic whose capacity holds them all — receives exactly
/// the events from its cursor to the end of the history, in publication
/// order, with no lag signal. Subscribers are independent: `recv` moves
/// only the reading subscriber's cursor, so this holds for each of any
/// number of subscribers, whatever the others do.
pub proof fn lemma_broadcast_fairness<T>(h: Seq<T>, cap: int, c: int)
    requires
        cap >= 1,
        0 <= c <= h.len(),
        h.len() - c <= cap,
    ensures
        drain(h, cap, c) =~= h.subrange(c, h.len() as int),
        c >= oldest_available(h.len() as int, cap),
    decreases h.len() - c,
{
    if c < h.len() {
        lemma_broadcast_fairness(h, cap, c + 1);
        assert(drain(h, cap, c) =~= seq![h[c]] + drain(h, cap, c + 1));
        assert(h.subrange(c, h.len() as int) =~= seq![h[c]] + h.subrange(c + 1, h.len() as int));
    }
}

/// LAW (lag signaling): a subscriber whose cursor fell behind by more than
/// the capacity observes a lag signal — never a silent skip — counting
/// exactly the dropped events, and then receives every retained event from
/// the oldest onward, in order.
pub proof fn lemma_lag_signaling<T>(h: Seq<T>, cap: int, c: int)
    requires
        cap >= 1,
        0 <= c,
        c + cap < h.len(),
    ensures
        oldest_available(h.len() as int, cap) - c > 0,
        drain(h, cap, c) =~= h.subrange(h.len() - cap, h.len() as int),
    decreases h.len() - c,
{
    let oldest = oldest_available(h.len() as int, cap);
    lemma_broadcast_fairness(h, cap, oldest);
    assert(drain(h, cap, c) == drain(h, cap, oldest));
}

} // verus!
