//! Port allocation for per-user instances. Ports are handed out from the
//! bounded range `base_port .. base_port + PORT_RANGE`: a deterministic
//! preferred offset is derived from the user id's hash, and when it is taken
//! the remaining offsets are scanned in order. The claim set is owned by the
//! allocator, so a check-then-claim is atomic with respect to the borrow
//! discipline: no two claims can interleave.

use vstd::prelude::*;
use vstd::std_specs::hash::DefaultHasherAdditionalSpecFns;
use vstd::string::StringSliceAdditionalSpecFns;
use std::collections::hash_map::DefaultHasher;
use std::hash::Hasher;
use crate::instance::PocketBaseError;

verus! {

/// Number of ports the allocator may hand out.
pub const PORT_RANGE: u16 = 1000;

/// The process-stable hash of a user id's bytes.
pub open spec fn stable_hash(bytes: Seq<u8>) -> u64 {
    DefaultHasher::spec_finish(Seq::<Seq<u8>>::empty().push(bytes))
}

/// The deterministic port first tried for a user with hash `h`.
pub open spec fn preferred_port(base: u16, h: u64) -> u16 {
    (base + ((h as u32) % (PORT_RANGE as u32))) as u16
}

/// A port is free when it is neither claimed nor externally bound.
pub open spec fn port_free(claimed: Seq<u16>, external: Seq<u16>, p: u16) -> bool {
    !claimed.contains(p) && !external.contains(p)
}

/// The first offset in `off .. PORT_RANGE` whose port is free, or -1.
pub open spec fn first_free_offset(claimed: Seq<u16>, external: Seq<u16>, base: u16, off: int) -> int
    decreases PORT_RANGE - off,
{
    if off < 1 || off >= PORT_RANGE {
        -1
    } else if port_free(claimed, external, (base + off) as u16) {
        off
    } else {
        first_free_offset(claimed, external, base, off + 1)
    }
}

/// The port an allocation returns, given the claim set, the externally
/// bound ports and the user's hash; `None` when the range is exhausted.
pub open spec fn spec_allocate(claimed: Seq<u16>, external: Seq<u16>, base: u16, h: u64) -> Option<
    u16,
> {
    let pref = preferred_port(base, h);
    if port_free(claimed, external, pref) {
        Some(pref)
    } else if first_free_offset(claimed, external, base, 1) >= 0 {
        Some((base + first_free_offset(claimed, external, base, 1)) as u16)
    } else {
        None
    }
}

/// Hands out unique ports from a bounded range.
pub struct PortAllocator {
    base_port: u16,
    claimed: Vec<u16>,
}

impl PortAllocator {
    /// The range base and the distinctness of the claims are maintained by
    /// every operation.
    pub closed spec fn wf(&self) -> bool {
        &&& self.base_port + PORT_RANGE <= u16::MAX
        &&& forall|i: int, j: int|
            0 <= i < j < self.claimed@.len() ==> self.claimed@[i] != self.claimed@[j]
    }

    pub closed spec fn base(&self) -> u16 {
        self.base_port
    }

    /// The ports currently held.
    pub closed spec fn claimed_ports(&self) -> Seq<u16> {
        self.claimed@
    }

    pub fn new(base_port: u16) -> (r: Self)
        requires
            base_port + PORT_RANGE <= u16::MAX,
        ensures
            r.wf(),
            r.base() == base_port,
            r.claimed_ports() =~= Seq::<u16>::empty(),
    {
        PortAllocator { base_port, claimed: Vec::new() }
    }

    /// The process-stable hash of a user id, as the standard hasher
    /// computes it over the id's bytes.
    pub fn hash_user_id(user_id: &str) -> (h: u64)
        ensures
            h == stable_hash(user_id.spec_bytes()),
    {
        let mut hasher = DefaultHasher::new();
        hasher.write(user_id.as_bytes());
        hasher.finish()
    }

    /// Claim a port for `user_id`. `external_bound` lists the ports the
    /// caller observed to be bound by other processes; they are skipped like
    /// claimed ones. On success the returned port was free and is now
    /// claimed; on failure every port in range was taken and nothing
    /// changed. The result is exactly `spec_allocate`.
    #[verifier::loop_isolation(false)]
    pub fn allocate(&mut self, user_id: &str, external_bound: &Vec<u16>) -> (r: Result<
        u16,
        PocketBaseError,
    >)
        requires
            old(self).wf(),
        ensures
            final(self).wf(),
            final(self).base() == old(self).base(),
            match r {
                Ok(p) => {
                    &&& spec_allocate(
                        old(self).claimed_ports(),
                        external_bound@,
                        old(self).base(),
                        stable_hash(user_id.spec_bytes()),
                    ) == Some(p)
                    &&& port_free(old(self).claimed_ports(), external_bound@, p)
                    &&& final(self).claimed_ports() == old(self).claimed_ports().push(p)
                },
                Err(e) => {
                    &&& e is NoPortsAvailable
                    &&& spec_allocate(
                        old(self).claimed_ports(),
                        external_bound@,
                        old(self).base(),
                        stable_hash(user_id.spec_bytes()),
                    ) is None
                    &&& final(self).claimed_ports() == old(self).claimed_ports()
                },
            },
    {
        let h = Self::hash_user_id(user_id);
        let pref = self.base_port + ((h as u32) % (PORT_RANGE as u32)) as u16;
        if !contains_port(&self.claimed, pref) && !contains_port(external_bound, pref) {
            self.claimed.push(pref);
            return Ok(pref);
        }
        let ghost claimed0 = self.claimed@;
        let mut off: u16 = 1;
        while off < PORT_RANGE
            invariant
                1 <= off <= PORT_RANGE,
                self.claimed@ == claimed0,
                self.base_port == old(self).base_port,
                self.base_port + PORT_RANGE <= u16::MAX,
                first_free_offset(claimed0, external_bound@, self.base_port, 1)
                    == first_free_offset(claimed0, external_bound@, self.base_port, off as int),
            decreases PORT_RANGE - off,
        {
            let p = self.base_port + off;
            if !contains_port(&self.claimed, p) && !contains_port(external_bound, p) {
                self.claimed.push(p);
                return Ok(p);
            }
            off = off + 1;
        }
        Err(PocketBaseError::NoPortsAvailable)
    }

    /// Release `port`. Releasing a port that is not held is a no-op. In
    /// either case the port is no longer held and every other port's claim
    /// is unchanged.
    #[verifier::loop_isolation(false)]
    pub fn release(&mut self, port: u16)
        requires
            old(self).wf(),
        ensures
            final(self).wf(),
            final(self).base() == old(self).base(),
            !final(self).claimed_ports().contains(port),
            forall|q: u16|
                q != port ==> final(self).claimed_ports().contains(q) == old(
                    self,
                ).claimed_ports().contains(q),
    {
        let n = self.claimed.len();
        let mut i: usize = 0;
        while i < n
            invariant
                0 <= i <= n,
                n == self.claimed@.len(),
                old(self).wf(),
                self.claimed@ == old(self).claimed@,
                self.base_port == old(self).base_port,
                forall|k: int| 0 <= k < i ==> self.claimed@[k] != port,
            decreases n - i,
        {
            if self.claimed[i] == port {
                let ghost before = self.claimed@;
                self.claimed.remove(i);
                proof {
                    assert forall|q: u16| q != port implies self.claimed@.contains(q) == before.contains(
                        q,
                    ) by {
                        if before.contains(q) {
                            let k = choose|k: int| 0 <= k < before.len() && before[k] == q;
                            if k < i {
                                assert(self.claimed@[k] == q);
                            } else {
                                assert(k > i);
                                assert(self.claimed@[k - 1] == q);
                            }
                        }
                        if self.claimed@.contains(q) {
                            let k = choose|k: int|
                                0 <= k < self.claimed@.len() && self.claimed@[k] == q;
                            if k < i {
                                assert(before[k] == q);
                            } else {
                                assert(before[k + 1] == q);
                            }
                        }
                    }
                    assert forall|k: int|
                        0 <= k < self.claimed@.len() implies self.claimed@[k]
                        != port by {
                        if k < i {
                            assert(self.claimed@[k] == before[k]);
                        } else {
                            assert(self.claimed@[k] == before[k + 1]);
                        }
                    }
                    assert(!self.claimed@.contains(port));
                }
                return ;
            }
            i = i + 1;
        }
        assert(!self.claimed@.contains(port));
    }
}

/// Whether `ports` holds `p`.
fn contains_port(ports: &Vec<u16>, p: u16) -> (r: bool)
    ensures
        r == ports@.contains(p),
{
    let n = ports.len();
    let mut i: usize = 0;
    while i < n
        invariant
            0 <= i <= n,
            n == ports@.len(),
            forall|k: int| 0 <= k < i ==> ports@[k] != p,
        decreases n - i,
    {
        if ports[i] == p {
            return true;
        }
        i = i + 1;
    }
    false
}

/// LAW (no double allocation): two claims that both succeed while neither
/// has been released never return the same port. The first claim's port is
/// in the claim set the second claim starts from, and a claim only returns
/// a port outside its starting claim set.
pub proof fn lemma_no_double_allocation(
    s0: Seq<u16>,
    s1: Seq<u16>,
    external1: Seq<u16>,
    external2: Seq<u16>,
    p1: u16,
    p2: u16,
)
    requires
        port_free(s0, external1, p1),
        s1 == s0.push(p1),
        port_free(s1, external2, p2),
    ensures
        p1 != p2,
{
    assert(s1[s0.len() as int] == p1);
    assert(s1.contains(p1));
}

/// LAW (release enables reuse): after a port is released, an allocation for
/// a user whose preferred port it is, made while the port is externally
/// unbound, returns exactly that port, whatever else is claimed.
pub proof fn lemma_release_enables_reuse(claimed: Seq<u16>, external: Seq<u16>, base: u16, h: u64)
    requires
        !claimed.contains(preferred_port(base, h)),
        !external.contains(preferred_port(base, h)),
    ensures
        spec_allocate(claimed, external, base, h) == Some(preferred_port(base, h)),
{
}

} // verus!
