//! The authoritative record of per-user instances: a map from user id to
//! instance, stored as a vector with distinct user ids. `lookup` is the
//! mathematical reading of that map, and every operation's contract is
//! stated against it.

use vstd::prelude::*;
use crate::instance::InstanceStatus;
use crate::instance::PocketBaseInstance;

verus! {

/// The first entry of `s` at or after `i` whose user id is `uid`.
pub open spec fn lookup_from(s: Seq<PocketBaseInstance>, uid: Seq<char>, i: int) -> Option<
    PocketBaseInstance,
>
    decreases s.len() - i,
{
    if i < 0 || i >= s.len() {
        None
    } else if s[i].user_id@ == uid {
        Some(s[i])
    } else {
        lookup_from(s, uid, i + 1)
    }
}

/// The instance registered for `uid`, if any.
pub open spec fn lookup(s: Seq<PocketBaseInstance>, uid: Seq<char>) -> Option<
    PocketBaseInstance,
> {
    lookup_from(s, uid, 0)
}

/// User ids are pairwise distinct.
pub open spec fn distinct_user_ids(s: Seq<PocketBaseInstance>) -> bool {
    forall|k: int, l: int| 0 <= k < l < s.len() ==> s[k].user_id@ != s[l].user_id@
}

pub proof fn lemma_lookup_none(s: Seq<PocketBaseInstance>, uid: Seq<char>, i: int)
    requires
        0 <= i <= s.len(),
        lookup_from(s, uid, i) is None,
    ensures
        forall|k: int| i <= k < s.len() ==> s[k].user_id@ != uid,
    decreases s.len() - i,
{
    if i < s.len() {
        lemma_lookup_none(s, uid, i + 1);
    }
}

proof fn lemma_lookup_update_same(
    s: Seq<PocketBaseInstance>,
    idx: int,
    v: PocketBaseInstance,
    i: int,
)
    requires
        0 <= i <= idx < s.len(),
        v.user_id@ == s[idx].user_id@,
        distinct_user_ids(s),
    ensures
        lookup_from(s.update(idx, v), s[idx].user_id@, i) == Some(v),
    decreases idx - i,
{
    if i < idx {
        lemma_lookup_update_same(s, idx, v, i + 1);
    }
}

proof fn lemma_lookup_update_other(
    s: Seq<PocketBaseInstance>,
    idx: int,
    v: PocketBaseInstance,
    uid2: Seq<char>,
    i: int,
)
    requires
        0 <= idx < s.len(),
        0 <= i <= s.len(),
        v.user_id@ == s[idx].user_id@,
        uid2 != v.user_id@,
    ensures
        lookup_from(s.update(idx, v), uid2, i) == lookup_from(s, uid2, i),
    decreases s.len() - i,
{
    if i < s.len() {
        lemma_lookup_update_other(s, idx, v, uid2, i + 1);
    }
}

proof fn lemma_lookup_push(s: Seq<PocketBaseInstance>, v: PocketBaseInstance, uid2: Seq<char>, i: int)
    requires
        0 <= i <= s.len(),
    ensures
        lookup_from(s.push(v), uid2, i) == if lookup_from(s, uid2, i) is Some {
            lookup_from(s, uid2, i)
        } else if uid2 == v.user_id@ {
            Some(v)
        } else {
            None
        },
    decreases s.len() - i,
{
    if i < s.len() {
        lemma_lookup_push(s, v, uid2, i + 1);
    } else {
        assert(s.push(v)[s.len() as int] == v);
        assert(lookup_from(s.push(v), uid2, s.len() as int + 1) is None);
    }
}

/// The authoritative map from user identity to instance state.
pub struct InstanceRegistry {
    entries: Vec<PocketBaseInstance>,
}

impl InstanceRegistry {
    /// The registered instances, in insertion order.
    pub closed spec fn instances(&self) -> Seq<PocketBaseInstance> {
        self.entries@
    }

    pub open spec fn wf(&self) -> bool {
        distinct_user_ids(self.instances())
    }

    pub fn new() -> (r: Self)
        ensures
            r.wf(),
            r.instances() =~= Seq::<PocketBaseInstance>::empty(),
    {
        InstanceRegistry { entries: Vec::new() }
    }

    /// Index of the entry for `user_id`, with the lookup it witnesses.
    fn find_index(&self, user_id: &str) -> (r: Option<usize>)
        ensures
            match r {
                Some(i) => i < self.instances().len() && self.instances()[i as int].user_id@
                    == user_id@ && lookup(self.instances(), user_id@) == Some(
                    self.instances()[i as int],
                ),
                None => lookup(self.instances(), user_id@) is None,
            },
    {
        let n = self.entries.len();
        let mut j: usize = 0;
        while j < n
            invariant
                0 <= j <= n,
                n == self.entries@.len(),
                lookup_from(self.entries@, user_id@, 0) == lookup_from(
                    self.entries@,
                    user_id@,
                    j as int,
                ),
            decreases n - j,
        {
            if crate::strutil::str_eq(self.entries[j].user_id.as_str(), user_id) {
                return Some(j);
            }
            j = j + 1;
        }
        None
    }

    /// The registered instance for `user_id`, copied out.
    pub fn get(&self, user_id: &str) -> (r: Option<PocketBaseInstance>)
        ensures
            r == lookup(self.instances(), user_id@),
    {
        match self.find_index(user_id) {
            Some(i) => Some(self.entries[i].duplicate()),
            None => None,
        }
    }

    /// Replace the entry at `i` with `v`, which carries the same user id.
    fn replace_at(&mut self, i: usize, v: PocketBaseInstance)
        requires
            old(self).wf(),
            i < old(self).instances().len(),
            v.user_id@ == old(self).instances()[i as int].user_id@,
        ensures
            final(self).wf(),
            final(self).instances() == old(self).instances().update(i as int, v),
            lookup(final(self).instances(), v.user_id@) == Some(v),
            forall|uid2: Seq<char>|
                uid2 != v.user_id@ ==> lookup(final(self).instances(), uid2) == lookup(
                    old(self).instances(),
                    uid2,
                ),
    {
        let ghost before = self.entries@;
        self.entries.remove(i);
        self.entries.insert(i, v);
        proof {
            assert(self.entries@ =~= before.update(i as int, v));
            lemma_lookup_update_same(before, i as int, v, 0);
            assert forall|uid2: Seq<char>| uid2 != v.user_id@ implies lookup(
                self.entries@,
                uid2,
            ) == lookup(before, uid2) by {
                lemma_lookup_update_other(before, i as int, v, uid2, 0);
            }
        }
    }

    /// Register `v`, replacing any previous entry for its user id.
    pub fn upsert(&mut self, v: PocketBaseInstance)
        requires
            old(self).wf(),
        ensures
            final(self).wf(),
            lookup(final(self).instances(), v.user_id@) == Some(v),
            forall|uid2: Seq<char>|
                uid2 != v.user_id@ ==> lookup(final(self).instances(), uid2) == lookup(
                    old(self).instances(),
                    uid2,
                ),
            if lookup(old(self).instances(), v.user_id@) is Some {
                final(self).instances() == old(self).instances().update(
                    lookup_index(old(self).instances(), v.user_id@),
                    v,
                )
            } else {
                final(self).instances() == old(self).instances().push(v)
            },
    {
        let ghost before = self.entries@;
        match self.find_index(v.user_id.as_str()) {
            Some(i) => {
                proof {
                    lemma_lookup_index_agrees(before, v.user_id@, 0);
                }
                self.replace_at(i, v);
            },
            None => {
                self.entries.push(v);
                proof {
                    lemma_lookup_none(before, v.user_id@, 0);
                    lemma_lookup_push(before, v, v.user_id@, 0);
                    assert forall|uid2: Seq<char>| uid2 != v.user_id@ implies lookup(
                        self.entries@,
                        uid2,
                    ) == lookup(before, uid2) by {
                        lemma_lookup_push(before, v, uid2, 0);
                    }
                    assert(self.entries@[before.len() as int] == v);
                    assert forall|k: int, l: int|
                        0 <= k < l < self.entries@.len() implies self.entries@[k].user_id@
                        != self.entries@[l].user_id@ by {
                        if l == before.len() {
                            assert(before[k].user_id@ != v.user_id@);
                        }
                    }
                    assert forall|k: int|
                        0 <= k < self.entries@.len() implies (self.entries@[k] == v
                        || before.contains(self.entries@[k])) by {
                        if k < before.len() {
                            assert(before[k] == self.entries@[k]);
                        }
                    }
                }
            },
        }
    }

    /// Set the entry for `user_id` to `Stopped`, returning its port. The
    /// other fields and all other entries are unchanged; an unknown user
    /// changes nothing.
    pub fn mark_stopped(&mut self, user_id: &str) -> (r: Option<u16>)
        requires
            old(self).wf(),
        ensures
            final(self).wf(),
            match lookup(old(self).instances(), user_id@) {
                Some(i) => r == Some(i.port) && lookup(final(self).instances(), user_id@)
                    == Some(
                    PocketBaseInstance { status: InstanceStatus::Stopped, ..i },
                ) && final(self).instances() == old(self).instances().update(
                    lookup_index(old(self).instances(), user_id@),
                    PocketBaseInstance { status: InstanceStatus::Stopped, ..i },
                ),
                None => r is None && final(self).instances() == old(self).instances(),
            },
            forall|uid2: Seq<char>|
                uid2 != user_id@ ==> lookup(final(self).instances(), uid2) == lookup(
                    old(self).instances(),
                    uid2,
                ),
    {
        match self.find_index(user_id) {
            Some(i) => {
                let e = self.entries[i].duplicate();
                let port = e.port;
                proof {
                    lemma_lookup_index_agrees(self.entries@, user_id@, 0);
                }
                self.replace_at(
                    i,
                    PocketBaseInstance { status: InstanceStatus::Stopped, ..e },
                );
                Some(port)
            },
            None => None,
        }
    }

    /// Set the entry for `user_id` to `Failed` if it is `Running`; any
    /// other state, and an unknown user, are left unchanged.
    pub fn mark_failed_if_running(&mut self, user_id: &str)
        requires
            old(self).wf(),
        ensures
            final(self).wf(),
            match lookup(old(self).instances(), user_id@) {
                Some(i) => if i.status == InstanceStatus::Running {
                    lookup(final(self).instances(), user_id@) == Some(
                        PocketBaseInstance { status: InstanceStatus::Failed, ..i },
                    ) && final(self).instances() == old(self).instances().update(
                        lookup_index(old(self).instances(), user_id@),
                        PocketBaseInstance { status: InstanceStatus::Failed, ..i },
                    )
                } else {
                    final(self).instances() == old(self).instances()
                },
                None => final(self).instances() == old(self).instances(),
            },
            forall|uid2: Seq<char>|
                uid2 != user_id@ ==> lookup(final(self).instances(), uid2) == lookup(
                    old(self).instances(),
                    uid2,
                ),
    {
        match self.find_index(user_id) {
            Some(i) => {
                if matches!(self.entries[i].status, InstanceStatus::Running) {
                    let e = self.entries[i].duplicate();
                    proof {
                        lemma_lookup_index_agrees(self.entries@, user_id@, 0);
                    }
                    self.replace_at(
                        i,
                        PocketBaseInstance { status: InstanceStatus::Failed, ..e },
                    );
                }
            },
            None => {},
        }
    }

    /// Record a successful health probe at `now` for `user_id`: the probe
    /// timestamp is set and the instance is promoted to `Running`. An
    /// unknown user changes nothing.
    pub fn record_health(&mut self, user_id: &str, now: u64)
        requires
            old(self).wf(),
        ensures
            final(self).wf(),
            match lookup(old(self).instances(), user_id@) {
                Some(i) => lookup(final(self).instances(), user_id@) == Some(
                    PocketBaseInstance {
                        status: InstanceStatus::Running,
                        last_health_check: Some(now),
                        ..i
                    },
                ) && final(self).instances() == old(self).instances().update(
                    lookup_index(old(self).instances(), user_id@),
                    PocketBaseInstance {
                        status: InstanceStatus::Running,
                        last_health_check: Some(now),
                        ..i
                    },
                ),
                None => final(self).instances() == old(self).instances(),
            },
            forall|uid2: Seq<char>|
                uid2 != user_id@ ==> lookup(final(self).instances(), uid2) == lookup(
                    old(self).instances(),
                    uid2,
                ),
    {
        match self.find_index(user_id) {
            Some(i) => {
                let e = self.entries[i].duplicate();
                proof {
                    lemma_lookup_index_agrees(self.entries@, user_id@, 0);
                }
                self.replace_at(
                    i,
                    PocketBaseInstance {
                        status: InstanceStatus::Running,
                        last_health_check: Some(now),
                        ..e
                    },
                );
            },
            None => {},
        }
    }

    /// All registered instances, copied out in insertion order.
    pub fn all(&self) -> (r: Vec<PocketBaseInstance>)
        ensures
            r@ == self.instances(),
    {
        let n = self.entries.len();
        let mut r: Vec<PocketBaseInstance> = Vec::new();
        let mut j: usize = 0;
        while j < n
            invariant
                0 <= j <= n,
                n == self.entries@.len(),
                r@ == self.entries@.subrange(0, j as int),
            decreases n - j,
        {
            r.push(self.entries[j].duplicate());
            proof {
                assert(r@ =~= self.entries@.subrange(0, j + 1));
            }
            j = j + 1;
        }
        proof {
            assert(r@ =~= self.entries@);
        }
        r
    }

    /// The user ids currently registered, in insertion order.
    pub fn user_ids(&self) -> (r: Vec<String>)
        ensures
            r@.len() == self.instances().len(),
            forall|k: int|
                0 <= k < r@.len() ==> #[trigger] r@[k]@ == self.instances()[k].user_id@,
    {
        let n = self.entries.len();
        let mut r: Vec<String> = Vec::new();
        let mut j: usize = 0;
        while j < n
            invariant
                0 <= j <= n,
                n == self.entries@.len(),
                r@.len() == j,
                forall|k: int|
                    0 <= k < j ==> #[trigger] r@[k]@ == self.entries@[k].user_id@,
            decreases n - j,
        {
            r.push(self.entries[j].user_id.clone());
            j = j + 1;
        }
        r
    }

    /// How many registered instances are `Running`.
    pub fn count_running(&self) -> (r: usize)
        ensures
            r == count_running_spec(self.instances()),
    {
        let n = self.entries.len();
        let mut c: usize = 0;
        let mut j: usize = 0;
        while j < n
            invariant
                0 <= j <= n,
                n == self.entries@.len(),
                c == count_running_spec(self.entries@.subrange(0, j as int)),
                c <= j,
            decreases n - j,
        {
            proof {
                assert(self.entries@.subrange(0, j + 1).drop_last() =~= self.entries@.subrange(
                    0,
                    j as int,
                ));
            }
            if matches!(self.entries[j].status, InstanceStatus::Running) {
                c = c + 1;
            }
            j = j + 1;
        }
        proof {
            assert(self.entries@.subrange(0, n as int) =~= self.entries@);
        }
        c
    }
}

/// How many of `s` are `Running`.
pub open spec fn count_running_spec(s: Seq<PocketBaseInstance>) -> int
    decreases s.len(),
{
    if s.len() == 0 {
        0
    } else {
        count_running_spec(s.drop_last()) + if s.last().status == InstanceStatus::Running {
            1int
        } else {
            0int
        }
    }
}

/// Index of the entry `lookup` returns.
pub open spec fn lookup_index(s: Seq<PocketBaseInstance>, uid: Seq<char>) -> int {
    lookup_index_from(s, uid, 0)
}

pub open spec fn lookup_index_from(s: Seq<PocketBaseInstance>, uid: Seq<char>, i: int) -> int
    decreases s.len() - i,
{
    if i < 0 || i >= s.len() {
        -1
    } else if s[i].user_id@ == uid {
        i
    } else {
        lookup_index_from(s, uid, i + 1)
    }
}

pub proof fn lemma_lookup_index_agrees(s: Seq<PocketBaseInstance>, uid: Seq<char>, i: int)
    requires
        0 <= i <= s.len(),
    ensures
        lookup_from(s, uid, i) is Some ==> {
            &&& i <= lookup_index_from(s, uid, i) < s.len()
            &&& s[lookup_index_from(s, uid, i)].user_id@ == uid
            &&& lookup_from(s, uid, i) == Some(s[lookup_index_from(s, uid, i)])
        },
        lookup_from(s, uid, i) is None ==> lookup_index_from(s, uid, i) == -1,
    decreases s.len() - i,
{
    if 0 <= i < s.len() && s[i].user_id@ != uid {
        lemma_lookup_index_agrees(s, uid, i + 1);
    }
}

} // verus!
