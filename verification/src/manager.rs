//! Lifecycle management of per-user backing-service instances. The manager
//! owns the instance registry, the port allocator and the set of users with
//! a tracked process handle, and maintains the resource invariants: every
//! instance that is not `Stopped` holds its port exclusively, and every
//! tracked process belongs to a live instance.
//!
//! Spawning, killing and probing processes is outside work; the runtime
//! performs it and reports the outcome into `complete_init`,
//! `stop_user_instance` and `health_tick` as plain values, so every state
//! transition here is verified for every possible outcome of that work.

use vstd::prelude::*;
use vstd::utf8::encode_utf8;
use crate::instance::InstanceStatus;
use crate::instance::PocketBaseError;
use crate::instance::PocketBaseInstance;
use crate::instance::db_path_spec;
use crate::instance::url_spec;
use crate::ports::PORT_RANGE;
use crate::ports::PortAllocator;
use crate::ports::spec_allocate;
use crate::ports::stable_hash;
use crate::registry::InstanceRegistry;
use crate::registry::lookup;
use crate::registry::lookup_index;
use crate::registry::count_running_spec;

verus! {

/// The registered instance for `uid` when it is `Running`, the idempotent
/// case of initialization.
pub open spec fn running_instance(s: Seq<PocketBaseInstance>, uid: Seq<char>) -> Option<
    PocketBaseInstance,
> {
    match lookup(s, uid) {
        Some(i) => if i.status == InstanceStatus::Running {
            Some(i)
        } else {
            None
        },
        None => None,
    }
}

/// Every instance that is not `Stopped` holds a claimed port.
pub open spec fn live_ports_claimed(s: Seq<PocketBaseInstance>, claimed: Seq<u16>) -> bool {
    forall|k: int|
        0 <= k < s.len() && (#[trigger] s[k]).status != InstanceStatus::Stopped ==> claimed.contains(
            s[k].port,
        )
}

/// Instances that are not `Stopped` hold pairwise distinct ports.
pub open spec fn live_ports_distinct(s: Seq<PocketBaseInstance>) -> bool {
    forall|k: int, l: int|
        0 <= k < l < s.len() && (#[trigger] s[k]).status != InstanceStatus::Stopped && (
        #[trigger] s[l]).status != InstanceStatus::Stopped ==> s[k].port != s[l].port
}

/// Every tracked process handle belongs to a registered instance that is
/// not `Stopped`.
pub open spec fn marks_live(s: Seq<PocketBaseInstance>, marks: Seq<String>) -> bool {
    forall|k: int|
        0 <= k < marks.len() ==> match lookup(s, (#[trigger] marks[k])@) {
            Some(i) => i.status != InstanceStatus::Stopped,
            None => false,
        }
}

/// Whether `marks` holds `uid`.
pub open spec fn has_mark(marks: Seq<String>, uid: Seq<char>) -> bool {
    exists|k: int| 0 <= k < marks.len() && (#[trigger] marks[k])@ == uid
}

/// Manages the lifecycle of per-user backing-service instances.
pub struct PocketBaseManager {
    user_dbs_path: String,
    binary_path: String,
    registry: InstanceRegistry,
    ports: PortAllocator,
    processes: Vec<String>,
}

impl PocketBaseManager {
    /// The registered instances, in registration order.
    pub closed spec fn instances(&self) -> Seq<PocketBaseInstance> {
        self.registry.instances()
    }

    /// The ports currently claimed.
    pub closed spec fn claimed_ports(&self) -> Seq<u16> {
        self.ports.claimed_ports()
    }

    /// The users with a tracked process handle.
    pub closed spec fn process_marks(&self) -> Seq<String> {
        self.processes@
    }

    pub closed spec fn base(&self) -> u16 {
        self.ports.base()
    }

    pub closed spec fn dbs_path(&self) -> Seq<char> {
        self.user_dbs_path@
    }

    pub closed spec fn binary(&self) -> Seq<char> {
        self.binary_path@
    }

    pub closed spec fn wf(&self) -> bool {
        &&& self.registry.wf()
        &&& self.ports.wf()
        &&& live_ports_claimed(self.instances(), self.claimed_ports())
        &&& live_ports_distinct(self.instances())
        &&& marks_live(self.instances(), self.process_marks())
        &&& forall|k: int, l: int|
            0 <= k < l < self.process_marks().len() ==> (#[trigger] self.process_marks()[k])@ != (
            #[trigger] self.process_marks()[l])@
    }

    pub fn new(user_dbs_path: String, base_port: u16, binary_path: String) -> (r: Self)
        requires
            base_port + PORT_RANGE <= u16::MAX,
        ensures
            r.wf(),
            r.instances() =~= Seq::<PocketBaseInstance>::empty(),
            r.claimed_ports() =~= Seq::<u16>::empty(),
            r.process_marks() =~= Seq::<String>::empty(),
            r.base() == base_port,
            r.dbs_path() == user_dbs_path@,
            r.binary() == binary_path@,
    {
        PocketBaseManager {
            user_dbs_path,
            binary_path,
            registry: InstanceRegistry::new(),
            ports: PortAllocator::new(base_port),
            processes: Vec::new(),
        }
    }

    /// Whether a process handle is tracked for `user_id`.
    pub fn has_process_mark(&self, user_id: &str) -> (r: bool)
        ensures
            r == has_mark(self.process_marks(), user_id@),
    {
        let n = self.processes.len();
        let mut j: usize = 0;
        while j < n
            invariant
                0 <= j <= n,
                n == self.processes@.len(),
                forall|k: int| 0 <= k < j ==> (#[trigger] self.processes@[k])@ != user_id@,
            decreases n - j,
        {
            if crate::strutil::str_eq(self.processes[j].as_str(), user_id) {
                return true;
            }
            j = j + 1;
        }
        false
    }

    /// Track a process handle for `user_id`, which must belong to a live
    /// registered instance.
    fn add_process_mark(&mut self, user_id: &String)
        requires
            old(self).wf(),
            match lookup(old(self).instances(), user_id@) {
                Some(i) => i.status != InstanceStatus::Stopped,
                None => false,
            },
        ensures
            final(self).wf(),
            has_mark(final(self).process_marks(), user_id@),
            forall|uid2: Seq<char>|
                uid2 != user_id@ ==> has_mark(final(self).process_marks(), uid2) == has_mark(
                    old(self).process_marks(),
                    uid2,
                ),
            final(self).instances() == old(self).instances(),
            final(self).claimed_ports() == old(self).claimed_ports(),
            final(self).base() == old(self).base(),
            final(self).dbs_path() == old(self).dbs_path(),
            final(self).binary() == old(self).binary(),
    {
        if !self.has_process_mark(user_id.as_str()) {
            let ghost before = self.processes@;
            self.processes.push(user_id.clone());
            proof {
                assert(self.processes@[before.len() as int]@ == user_id@);
                assert forall|uid2: Seq<char>|
                    uid2 != user_id@ implies has_mark(self.processes@, uid2) == has_mark(
                    before,
                    uid2,
                ) by {
                    if has_mark(before, uid2) {
                        let k = choose|k: int|
                            0 <= k < before.len() && (#[trigger] before[k])@ == uid2;
                        assert(self.processes@[k]@ == uid2);
                    }
                    if has_mark(self.processes@, uid2) {
                        let k = choose|k: int|
                            0 <= k < self.processes@.len() && (#[trigger] self.processes@[k])@
                                == uid2;
                        assert(k < before.len());
                        assert(before[k]@ == uid2);
                    }
                }
            }
        }
    }

    /// Forget the process handle for `user_id`, if any.
    fn remove_process_mark(&mut self, user_id: &str)
        requires
            old(self).wf(),
        ensures
            final(self).wf(),
            !has_mark(final(self).process_marks(), user_id@),
            forall|uid2: Seq<char>|
                uid2 != user_id@ ==> has_mark(final(self).process_marks(), uid2) == has_mark(
                    old(self).process_marks(),
                    uid2,
                ),
            final(self).instances() == old(self).instances(),
            final(self).claimed_ports() == old(self).claimed_ports(),
            final(self).base() == old(self).base(),
            final(self).dbs_path() == old(self).dbs_path(),
            final(self).binary() == old(self).binary(),
    {
        let n = self.processes.len();
        let mut j: usize = 0;
        while j < n
            invariant
                0 <= j <= n,
                n == self.processes@.len(),
                old(self).wf(),
                *self == *old(self),
                forall|k: int| 0 <= k < j ==> (#[trigger] self.processes@[k])@ != user_id@,
            decreases n - j,
        {
            if crate::strutil::str_eq(self.processes[j].as_str(), user_id) {
                let ghost before = self.processes@;
                self.processes.remove(j);
                proof {
                    assert forall|uid2: Seq<char>|
                        uid2 != user_id@ implies has_mark(self.processes@, uid2) == has_mark(
                        before,
                        uid2,
                    ) by {
                        if has_mark(before, uid2) {
                            let k = choose|k: int|
                                0 <= k < before.len() && (#[trigger] before[k])@ == uid2;
                            if k < j {
                                assert(self.processes@[k]@ == uid2);
                            } else {
                                assert(k != j);
                                assert(self.processes@[k - 1]@ == uid2);
                            }
                        }
                        if has_mark(self.processes@, uid2) {
                            let k = choose|k: int|
                                0 <= k < self.processes@.len() && (#[trigger] self.processes@[k])@
                                    == uid2;
                            if k < j {
                                assert(before[k]@ == uid2);
                            } else {
                                assert(before[k + 1]@ == uid2);
                            }
                        }
                    }
                    assert forall|k: int|
                        0 <= k < self.processes@.len() implies (#[trigger] self.processes@[k])@
                        != user_id@ by {
                        if k < j {
                            assert(self.processes@[k] == before[k]);
                        } else {
                            assert(self.processes@[k] == before[k + 1]);
                        }
                    }
                    assert forall|k: int|
                        0 <= k < self.processes@.len() implies match lookup(
                        self.registry.instances(),
                        (#[trigger] self.processes@[k])@,
                    ) {
                        Some(i) => i.status != InstanceStatus::Stopped,
                        None => false,
                    } by {
                        if k < j {
                            assert(self.processes@[k] == before[k]);
                        } else {
                            assert(self.processes@[k] == before[k + 1]);
                        }
                    }
                    assert forall|k: int, l: int|
                        0 <= k < l < self.processes@.len() implies (
                        #[trigger] self.processes@[k])@ != (#[trigger] self.processes@[l])@ by {
                        let k0 = if k < j {
                            k
                        } else {
                            k + 1
                        };
                        let l0 = if l < j {
                            l
                        } else {
                            l + 1
                        };
                        assert(self.processes@[k] == before[k0]);
                        assert(self.processes@[l] == before[l0]);
                    }
                }
                return ;
            }
            j = j + 1;
        }
    }

    /// First step of initialization: the idempotent reuse check and the
    /// port claim. If `user_id` already has a `Running` instance it is
    /// returned unchanged and nothing else happens — so a second call
    /// returns the same port again and adds no process mark (idempotent
    /// init). Otherwise a port is claimed and the instance record is built
    /// in `Starting` state; it is not registered until `complete_init`
    /// reports that the spawn succeeded. `external_bound` lists ports the
    /// runtime observed to be bound by other processes.
    pub fn begin_init(
        &mut self,
        user_id: &String,
        external_bound: &Vec<u16>,
        now: u64,
    ) -> (r: Result<PocketBaseInstance, PocketBaseError>)
        requires
            old(self).wf(),
        ensures
            final(self).wf(),
            final(self).instances() == old(self).instances(),
            final(self).process_marks() == old(self).process_marks(),
            final(self).base() == old(self).base(),
            final(self).dbs_path() == old(self).dbs_path(),
            final(self).binary() == old(self).binary(),
            match running_instance(old(self).instances(), user_id@) {
                Some(i) => r == Ok::<PocketBaseInstance, PocketBaseError>(i) && final(self).claimed_ports() == old(self).claimed_ports(),
                None => match spec_allocate(
                    old(self).claimed_ports(),
                    external_bound@,
                    old(self).base(),
                    stable_hash(encode_utf8(user_id@)),
                ) {
                    Some(p) => {
                        &&& match r {
                            Ok(inst) => {
                                &&& inst.user_id@ == user_id@
                                &&& inst.port == p
                                &&& inst.db_path@ == db_path_spec(old(self).dbs_path(), user_id@)
                                &&& inst.url@ == url_spec(p)
                                &&& inst.status == InstanceStatus::Starting
                                &&& inst.created_at == now
                                &&& inst.last_health_check is None
                            },
                            Err(_) => false,
                        }
                        &&& !old(self).claimed_ports().contains(p)
                        &&& final(self).claimed_ports() == old(self).claimed_ports().push(p)
                        &&& final(self).claimed_ports().contains(p)
                        &&& forall|k: int|
                            0 <= k < old(self).instances().len() && (#[trigger] old(
                                self,
                            ).instances()[k]).status != InstanceStatus::Stopped ==> old(
                                self,
                            ).instances()[k].port != p
                    },
                    None => {
                        &&& r matches Err(e) && e is NoPortsAvailable
                        &&& final(self).claimed_ports() == old(self).claimed_ports()
                    },
                },
            },
    {
        match self.registry.get(user_id.as_str()) {
            Some(existing) => {
                if matches!(existing.status, InstanceStatus::Running) {
                    return Ok(existing);
                }
            },
            None => {},
        }
        let ghost claimed0 = self.ports.claimed_ports();
        match self.ports.allocate(user_id.as_str(), external_bound) {
            Ok(port) => {
                proof {
                    assert(self.ports.claimed_ports()[claimed0.len() as int] == port);
                    assert(self.ports.claimed_ports().contains(port));
                    assert forall|k: int|
                        0 <= k < self.registry.instances().len() && (
                        #[trigger] self.registry.instances()[k]).status
                            != InstanceStatus::Stopped implies self.ports.claimed_ports().contains(
                        self.registry.instances()[k].port,
                    ) by {
                        let s = self.registry.instances();
                        assert(claimed0.contains(s[k].port));
                        let idx = choose|idx: int|
                            0 <= idx < claimed0.len() && claimed0[idx] == s[k].port;
                        assert(self.ports.claimed_ports()[idx] == s[k].port);
                    }
                    assert forall|k: int|
                        0 <= k < self.registry.instances().len() && (
                        #[trigger] self.registry.instances()[k]).status
                            != InstanceStatus::Stopped implies self.registry.instances()[k].port
                        != port by {
                        assert(claimed0.contains(self.registry.instances()[k].port));
                    }
                }
                let inst = PocketBaseInstance::starting(user_id, port, &self.user_dbs_path, now);
                Ok(inst)
            },
            Err(e) => Err(e),
        }
    }

    /// Second step of initialization: the runtime reports whether the
    /// process spawn (and storage setup) succeeded. On success the instance
    /// is promoted to `Running`, registered, and its process handle
    /// tracked. On failure the claimed port is released before the error is
    /// returned and the instance is never registered — the failure path
    /// leaks nothing.
    pub fn complete_init(
        &mut self,
        instance: PocketBaseInstance,
        spawn_result: Result<(), PocketBaseError>,
    ) -> (r: Result<PocketBaseInstance, PocketBaseError>)
        requires
            old(self).wf(),
            instance.status == InstanceStatus::Starting,
            old(self).claimed_ports().contains(instance.port),
            forall|k: int|
                0 <= k < old(self).instances().len() && (#[trigger] old(self).instances()[k]).status
                    != InstanceStatus::Stopped ==> old(self).instances()[k].port != instance.port,
        ensures
            final(self).wf(),
            final(self).base() == old(self).base(),
            final(self).dbs_path() == old(self).dbs_path(),
            final(self).binary() == old(self).binary(),
            match spawn_result {
                Ok(_) => {
                    &&& r == Ok::<PocketBaseInstance, PocketBaseError>(
                        (PocketBaseInstance { status: InstanceStatus::Running, ..instance }),
                    )
                    &&& lookup(final(self).instances(), instance.user_id@) == Some(
                        (PocketBaseInstance { status: InstanceStatus::Running, ..instance }),
                    )
                    &&& forall|uid2: Seq<char>|
                        uid2 != instance.user_id@ ==> lookup(final(self).instances(), uid2)
                            == lookup(old(self).instances(), uid2)
                    &&& final(self).claimed_ports() == old(self).claimed_ports()
                    &&& has_mark(final(self).process_marks(), instance.user_id@)
                    &&& forall|uid2: Seq<char>|
                        uid2 != instance.user_id@ ==> has_mark(final(self).process_marks(), uid2)
                            == has_mark(old(self).process_marks(), uid2)
                },
                Err(e) => {
                    &&& r == Err::<PocketBaseInstance, PocketBaseError>(e)
                    &&& final(self).instances() == old(self).instances()
                    &&& final(self).process_marks() == old(self).process_marks()
                    &&& !final(self).claimed_ports().contains(instance.port)
                    &&& forall|q: u16|
                        q != instance.port ==> final(self).claimed_ports().contains(q) == old(self).claimed_ports().contains(q)
                },
            },
    {
        match spawn_result {
            Ok(_) => {
                let user_id = instance.user_id.clone();
                let running = PocketBaseInstance { status: InstanceStatus::Running, ..instance };
                let result = running.duplicate();
                let ghost before = self.registry.instances();
                self.registry.upsert(running);
                proof {
                    let s = self.registry.instances();
                    let v = (PocketBaseInstance { status: InstanceStatus::Running, ..instance });
                    let claimed = self.ports.claimed_ports();
                    crate::registry::lemma_lookup_index_agrees(before, v.user_id@, 0);
                    if lookup(before, v.user_id@) is None {
                        crate::registry::lemma_lookup_none(before, v.user_id@, 0);
                    }
                    let idx = if lookup(before, v.user_id@) is Some {
                        lookup_index(before, v.user_id@)
                    } else {
                        before.len() as int
                    };
                    assert(s.len() == if idx < before.len() {
                        before.len() as int
                    } else {
                        before.len() as int + 1
                    });
                    assert(forall|k: int| 0 <= k < s.len() && k != idx ==> s[k] == before[k]);
                    assert(s[idx] == v);
                    assert forall|k: int|
                        0 <= k < s.len() && (#[trigger] s[k]).status
                            != InstanceStatus::Stopped implies claimed.contains(s[k].port) by {
                        if k == idx {
                            assert(claimed.contains(instance.port));
                        } else {
                            assert(s[k] == before[k]);
                        }
                    }
                    assert forall|k: int, l: int|
                        0 <= k < l < s.len() && (#[trigger] s[k]).status != InstanceStatus::Stopped
                            && (#[trigger] s[l]).status
                            != InstanceStatus::Stopped implies s[k].port != s[l].port by {
                        if k == idx {
                            assert(s[l] == before[l]);
                        } else if l == idx {
                            assert(s[k] == before[k]);
                        } else {
                            assert(s[k] == before[k] && s[l] == before[l]);
                        }
                    }
                    assert forall|k: int|
                        0 <= k < self.processes@.len() implies match lookup(
                        s,
                        (#[trigger] self.processes@[k])@,
                    ) {
                        Some(i) => i.status != InstanceStatus::Stopped,
                        None => false,
                    } by {
                        if self.processes@[k]@ != v.user_id@ {
                            assert(lookup(s, self.processes@[k]@) == lookup(
                                before,
                                self.processes@[k]@,
                            ));
                        }
                    }
                }
                self.add_process_mark(&user_id);
                Ok(result)
            },
            Err(e) => {
                self.ports.release(instance.port);
                proof {
                    let s = self.registry.instances();
                    assert forall|k: int|
                        0 <= k < s.len() && (#[trigger] s[k]).status
                            != InstanceStatus::Stopped implies self.ports.claimed_ports().contains(
                        s[k].port,
                    ) by {
                        assert(s[k].port != instance.port);
                    }
                }
                Err(e)
            },
        }
    }

    /// The registered instance for `user_id`, copied out.
    pub fn get_user_instance(&self, user_id: &str) -> (r: Option<PocketBaseInstance>)
        ensures
            r == lookup(self.instances(), user_id@),
    {
        self.registry.get(user_id)
    }

    /// All registered instances, copied out in registration order.
    pub fn get_all_instances(&self) -> (r: Vec<PocketBaseInstance>)
        ensures
            r@ == self.instances(),
    {
        self.registry.all()
    }

    /// The user ids with a registered instance, in registration order.
    pub fn user_ids(&self) -> (r: Vec<String>)
        ensures
            r@.len() == self.instances().len(),
            forall|k: int| 0 <= k < r@.len() ==> #[trigger] r@[k]@ == self.instances()[k].user_id@,
    {
        self.registry.user_ids()
    }

    /// How many registered instances are `Running`.
    pub fn count_running(&self) -> (r: usize)
        ensures
            r == count_running_spec(self.instances()),
    {
        self.registry.count_running()
    }

    /// Stop `user_id`'s instance: forget its process handle, set the record
    /// to `Stopped`, and release its port. `kill_ok` reports whether the
    /// kill succeeded; the transition, the release and the `Ok` result are
    /// the same either way — a failed kill never leaks the port
    /// (release-on-stop). A port is only released when the instance was not
    /// already `Stopped`, so a port reallocated since an earlier stop is
    /// never taken from its new holder. An unknown user changes nothing and
    /// still returns `Ok`.
    #[allow(unused_variables)]
    pub fn stop_user_instance(&mut self, user_id: &str, kill_ok: bool) -> (r: Result<
        (),
        PocketBaseError,
    >)
        requires
            old(self).wf(),
        ensures
            final(self).wf(),
            r is Ok,
            final(self).base() == old(self).base(),
            final(self).dbs_path() == old(self).dbs_path(),
            final(self).binary() == old(self).binary(),
            !has_mark(final(self).process_marks(), user_id@),
            forall|uid2: Seq<char>|
                uid2 != user_id@ ==> has_mark(final(self).process_marks(), uid2) == has_mark(
                    old(self).process_marks(),
                    uid2,
                ),
            forall|uid2: Seq<char>|
                uid2 != user_id@ ==> lookup(final(self).instances(), uid2) == lookup(
                    old(self).instances(),
                    uid2,
                ),
            match lookup(old(self).instances(), user_id@) {
                Some(i) => {
                    &&& lookup(final(self).instances(), user_id@) == Some(
                        (PocketBaseInstance { status: InstanceStatus::Stopped, ..i }),
                    )
                    &&& if i.status != InstanceStatus::Stopped {
                        &&& !final(self).claimed_ports().contains(i.port)
                        &&& forall|q: u16|
                            q != i.port ==> final(self).claimed_ports().contains(q) == old(self).claimed_ports().contains(q)
                    } else {
                        final(self).claimed_ports() == old(self).claimed_ports()
                    }
                },
                None => final(self).instances() == old(self).instances() && final(self).claimed_ports() == old(self).claimed_ports(),
            },
    {
        self.remove_process_mark(user_id);
        let previous = self.registry.get(user_id);
        match previous {
            Some(prev) => {
                let ghost before = self.registry.instances();
                let port = match self.registry.mark_stopped(user_id) {
                    Some(p) => p,
                    None => 0,
                };
                proof {
                    crate::registry::lemma_lookup_index_agrees(before, user_id@, 0);
                    let idx = lookup_index(before, user_id@);
                    assert(before[idx] == prev);
                    assert(self.registry.instances() == before.update(
                        idx,
                        (PocketBaseInstance { status: InstanceStatus::Stopped, ..prev }),
                    ));
                }
                if !matches!(prev.status, InstanceStatus::Stopped) {
                    self.ports.release(port);
                    proof {
                        let s = self.registry.instances();
                        assert forall|k: int|
                            0 <= k < s.len() && (#[trigger] s[k]).status
                                != InstanceStatus::Stopped implies self.ports.claimed_ports().contains(
                            s[k].port,
                        ) by {
                            crate::registry::lemma_lookup_index_agrees(before, user_id@, 0);
                            let idx = lookup_index(before, user_id@);
                            assert(s[idx].status == InstanceStatus::Stopped);
                            assert(k != idx);
                            assert(s[k] == before[k]);
                            assert(before[idx] == prev);
                            assert(s[k].port != prev.port);
                        }
                    }
                }
                proof {
                    let s = self.registry.instances();
                    assert forall|k: int|
                        0 <= k < self.processes@.len() implies match lookup(
                        s,
                        (#[trigger] self.processes@[k])@,
                    ) {
                        Some(i) => i.status != InstanceStatus::Stopped,
                        None => false,
                    } by {
                        assert(self.processes@[k]@ != user_id@);
                        assert(lookup(s, self.processes@[k]@) == lookup(
                            before,
                            self.processes@[k]@,
                        ));
                    }
                }
                Ok(())
            },
            None => Ok(()),
        }
    }

    /// One health-monitor step for `user_id`. `process_alive` reports the
    /// non-blocking liveness check of the tracked handle (ignored when no
    /// handle is tracked), `probe_ok` the bounded-timeout network probe.
    /// A `Running` instance whose process has exited becomes `Failed` and
    /// is not restarted — no process mark is added or removed. A live,
    /// probe-healthy instance records the probe time and is promoted back
    /// to `Running`. A failed probe changes nothing.
    pub fn health_tick(&mut self, user_id: &str, process_alive: bool, probe_ok: bool, now: u64)
        requires
            old(self).wf(),
        ensures
            final(self).wf(),
            final(self).claimed_ports() == old(self).claimed_ports(),
            final(self).process_marks() == old(self).process_marks(),
            final(self).base() == old(self).base(),
            final(self).dbs_path() == old(self).dbs_path(),
            final(self).binary() == old(self).binary(),
            forall|uid2: Seq<char>|
                uid2 != user_id@ ==> lookup(final(self).instances(), uid2) == lookup(
                    old(self).instances(),
                    uid2,
                ),
            ({
                let alive = process_alive && has_mark(old(self).process_marks(), user_id@);
                match lookup(old(self).instances(), user_id@) {
                    Some(i) => {
                        if !alive && i.status == InstanceStatus::Running {
                            lookup(final(self).instances(), user_id@) == Some(
                                (PocketBaseInstance { status: InstanceStatus::Failed, ..i }),
                            )
                        } else if alive && probe_ok {
                            lookup(final(self).instances(), user_id@) == Some(
                                (PocketBaseInstance {
                                    status: InstanceStatus::Running,
                                    last_health_check: Some(now),
                                    ..i
                                }),
                            )
                        } else {
                            final(self).instances() == old(self).instances()
                        }
                    },
                    None => final(self).instances() == old(self).instances(),
                }
            }),
    {
        let alive = process_alive && self.has_process_mark(user_id);
        let ghost before = self.registry.instances();
        if !alive {
            self.registry.mark_failed_if_running(user_id);
            proof {
                crate::registry::lemma_lookup_index_agrees(before, user_id@, 0);
                self.health_wf_restore(before);
            }
        } else if probe_ok {
            proof {
                assert(has_mark(self.processes@, user_id@));
                let k = choose|k: int|
                    0 <= k < self.processes@.len() && (#[trigger] self.processes@[k])@ == user_id@;
                assert(match lookup(before, user_id@) {
                    Some(i) => i.status != InstanceStatus::Stopped,
                    None => false,
                });
            }
            self.registry.record_health(user_id, now);
            proof {
                crate::registry::lemma_lookup_index_agrees(before, user_id@, 0);
                self.health_wf_restore(before);
            }
        }
    }

    /// The manager's invariants follow a registry change that kept every
    /// entry's user id and port, and moved statuses only between live
    /// states; shared by the health transitions.
    proof fn health_wf_restore(&self, before: Seq<PocketBaseInstance>)
        requires
            self.registry.wf(),
            self.ports.wf(),
            live_ports_claimed(before, self.ports.claimed_ports()),
            live_ports_distinct(before),
            marks_live(before, self.processes@),
            self.registry.instances().len() == before.len(),
            forall|k: int|
                0 <= k < before.len() ==> (#[trigger] self.registry.instances()[k]).user_id@
                    == before[k].user_id@ && self.registry.instances()[k].port == before[k].port && (
                self.registry.instances()[k].status == before[k].status || (before[k].status
                    != InstanceStatus::Stopped && self.registry.instances()[k].status
                    != InstanceStatus::Stopped)),
        ensures
            live_ports_claimed(self.registry.instances(), self.ports.claimed_ports()),
            live_ports_distinct(self.registry.instances()),
            marks_live(self.registry.instances(), self.processes@),
    {
        let s = self.registry.instances();
        assert forall|k: int|
            0 <= k < s.len() && (#[trigger] s[k]).status
                != InstanceStatus::Stopped implies self.ports.claimed_ports().contains(
            s[k].port,
        ) by {
            assert(before[k].status != InstanceStatus::Stopped);
        }
        assert forall|k: int, l: int|
            0 <= k < l < s.len() && (#[trigger] s[k]).status != InstanceStatus::Stopped && (
            #[trigger] s[l]).status != InstanceStatus::Stopped implies s[k].port != s[l].port by {
            assert(before[k].status != InstanceStatus::Stopped);
            assert(before[l].status != InstanceStatus::Stopped);
        }
        assert forall|k: int|
            0 <= k < self.processes@.len() implies match lookup(
            s,
            (#[trigger] self.processes@[k])@,
        ) {
            Some(i) => i.status != InstanceStatus::Stopped,
            None => false,
        } by {
            lemma_lookup_same_shape(before, s, self.processes@[k]@, 0);
        }
    }
}

/// When two registries agree on every entry's user id and statuses move
/// only between live states, a user with a live instance in the first
/// still has a live instance in the second.
proof fn lemma_lookup_same_shape(
    s1: Seq<PocketBaseInstance>,
    s2: Seq<PocketBaseInstance>,
    uid: Seq<char>,
    i: int,
)
    requires
        s1.len() == s2.len(),
        0 <= i <= s1.len(),
        forall|k: int|
            0 <= k < s1.len() ==> (#[trigger] s2[k]).user_id@ == s1[k].user_id@ && (s2[k].status
                == s1[k].status || (s1[k].status != InstanceStatus::Stopped && s2[k].status
                != InstanceStatus::Stopped)),
    ensures
        match crate::registry::lookup_from(s1, uid, i) {
            Some(x) => match crate::registry::lookup_from(s2, uid, i) {
                Some(y) => x.status != InstanceStatus::Stopped ==> y.status
                    != InstanceStatus::Stopped,
                None => false,
            },
            None => crate::registry::lookup_from(s2, uid, i) is None,
        },
    decreases s1.len() - i,
{
    if 0 <= i < s1.len() {
        if s1[i].user_id@ != uid {
            lemma_lookup_same_shape(s1, s2, uid, i + 1);
        }
    }
}

} // verus!
