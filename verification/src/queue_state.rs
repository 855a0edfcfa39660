//! The shared waiting queue of meetings. Mutations renumber 1-based
//! positions and hand back the full snapshot taken at the mutation, so
//! the broadcast value always matches a queue state that existed.

use vstd::prelude::*;

verus! {

/// One queued meeting.
#[derive(Debug)]
pub struct Meeting {
    pub id: u128,
    pub user_id: String,
    pub topic: String,
    pub position: usize,
}

impl Meeting {
    /// A field-for-field copy.
    pub fn duplicate(&self) -> (r: Self)
        ensures
            r == *self,
    {
        Meeting {
            id: self.id,
            user_id: self.user_id.clone(),
            topic: self.topic.clone(),
            position: self.position,
        }
    }
}

/// Index of the first meeting with `id`, or -1 when absent.
pub open spec fn meeting_index(s: Seq<Meeting>, id: u128) -> int {
    meeting_index_from(s, id, 0)
}

pub open spec fn meeting_index_from(s: Seq<Meeting>, id: u128, i: int) -> int
    decreases s.len() - i,
{
    if i < 0 || i >= s.len() {
        -1
    } else if s[i].id == id {
        i
    } else {
        meeting_index_from(s, id, i + 1)
    }
}

/// Positions are 1-based and dense: entry `k` holds position `k + 1`.
pub open spec fn positions_dense(s: Seq<Meeting>) -> bool {
    forall|k: int| 0 <= k < s.len() ==> (#[trigger] s[k]).position == k + 1
}

/// The in-memory meetings queue.
pub struct MeetingsQueue {
    items: Vec<Meeting>,
}

impl MeetingsQueue {
    /// The queued meetings, in queue order.
    pub closed spec fn meetings(&self) -> Seq<Meeting> {
        self.items@
    }

    pub open spec fn wf(&self) -> bool {
        positions_dense(self.meetings())
    }

    pub fn new() -> (r: Self)
        ensures
            r.wf(),
            r.meetings() =~= Seq::<Meeting>::empty(),
    {
        MeetingsQueue { items: Vec::new() }
    }

    /// How many meetings are queued.
    pub fn len(&self) -> (r: usize)
        ensures
            r == self.meetings().len(),
    {
        self.items.len()
    }

    /// The full queue, copied out in order.
    pub fn snapshot(&self) -> (r: Vec<Meeting>)
        ensures
            r@ == self.meetings(),
    {
        let n = self.items.len();
        let mut r: Vec<Meeting> = Vec::new();
        let mut j: usize = 0;
        while j < n
            invariant
                0 <= j <= n,
                n == self.items@.len(),
                r@ == self.items@.subrange(0, j as int),
            decreases n - j,
        {
            r.push(self.items[j].duplicate());
            proof {
                assert(r@ =~= self.items@.subrange(0, j + 1));
            }
            j = j + 1;
        }
        proof {
            assert(self.items@.subrange(0, n as int) =~= self.items@);
        }
        r
    }

    /// Append a meeting at the tail with the next 1-based position, and
    /// return it (the caller broadcasts the snapshot separately).
    pub fn add_meeting(&mut self, id: u128, user_id: String, topic: String) -> (r: Meeting)
        requires
            old(self).wf(),
            old(self).meetings().len() < usize::MAX,
        ensures
            final(self).wf(),
            r.id == id,
            r.user_id == user_id,
            r.topic == topic,
            r.position == old(self).meetings().len() + 1,
            final(self).meetings() == old(self).meetings().push(r),
    {
        let position = self.items.len() + 1;
        let meeting = Meeting { id, user_id, topic, position };
        let r = meeting.duplicate();
        self.items.push(meeting);
        proof {
            assert forall|k: int|
                0 <= k < self.items@.len() implies (#[trigger] self.items@[k]).position == k
                + 1 by {
                if k < old(self).meetings().len() {
                    assert(self.items@[k] == old(self).meetings()[k]);
                }
            }
        }
        r
    }

    /// Remove the first meeting with `id` and renumber the remaining
    /// positions densely. Returns the removed meeting and its former
    /// 1-based position; an unknown id changes nothing.
    pub fn remove_meeting(&mut self, id: u128) -> (r: Option<(Meeting, usize)>)
        requires
            old(self).wf(),
        ensures
            final(self).wf(),
            ({
                let idx = meeting_index(old(self).meetings(), id);
                match r {
                    Some((m, pos)) => {
                        &&& idx >= 0
                        &&& m == old(self).meetings()[idx]
                        &&& pos == idx + 1
                        &&& final(self).meetings().len() == old(self).meetings().len() - 1
                        &&& forall|k: int|
                            0 <= k < idx ==> (#[trigger] final(self).meetings()[k]).id == old(self).meetings()[k].id && final(self).meetings()[k].user_id == old(self).meetings()[k].user_id && final(self).meetings()[k].topic == old(self).meetings()[k].topic
                        &&& forall|k: int|
                            idx <= k < final(self).meetings().len() ==> (#[trigger] final(self).meetings()[k]).id == old(self).meetings()[k + 1].id && final(self).meetings()[k].user_id == old(self).meetings()[k + 1].user_id && final(self).meetings()[k].topic == old(self).meetings()[k + 1].topic
                    },
                    None => idx == -1 && final(self).meetings() == old(self).meetings(),
                }
            }),
    {
        let n = self.items.len();
        let mut j: usize = 0;
        while j < n
            invariant
                0 <= j <= n,
                n == self.items@.len(),
                old(self).wf(),
                *self == *old(self),
                meeting_index_from(self.items@, id, 0) == meeting_index_from(
                    self.items@,
                    id,
                    j as int,
                ),
            decreases n - j,
        {
            if self.items[j].id == id {
                let removed = self.items.remove(j);
                let ghost mid = self.items@;
                let m = self.items.len();
                let mut k: usize = 0;
                while k < m
                    invariant
                        0 <= k <= m,
                        m == self.items@.len(),
                        m == mid.len(),
                        forall|l: int|
                            0 <= l < m ==> (#[trigger] self.items@[l]).id == mid[l].id
                                && self.items@[l].user_id == mid[l].user_id && self.items@[l].topic
                                == mid[l].topic,
                        forall|l: int| 0 <= l < k ==> (#[trigger] self.items@[l]).position == l + 1,
                    decreases m - k,
                {
                    let next = k + 1;
                    let entry = &mut self.items[k];
                    entry.position = next;
                    k = k + 1;
                }
                return Some((removed, j + 1));
            }
            j = j + 1;
        }
        None
    }
}

} // verus!
