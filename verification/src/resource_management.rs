//! Resource reservation and overcommit management for cluster nodes.
//!
//! Overcommit ratios and the system reserve are held in thousandths
//! (1000 = a ratio of 1.0, 150 = a reserve of 15%).
use vstd::prelude::*;

use crate::error::BlixardError;
use crate::text::text_eq;

verus! {

/// Overcommit policy of a node; ratios and reserve in thousandths.
#[derive(Debug, Clone, Copy, PartialEq, Eq, Structural)]
pub struct OvercommitPolicy {
    /// CPU overcommit ratio (2000 = allow twice the physical cores).
    pub cpu_overcommit_permille: u32,
    /// Memory overcommit ratio.
    pub memory_overcommit_permille: u32,
    /// Disk overcommit ratio.
    pub disk_overcommit_permille: u32,
    /// Whether hard limits are enforced when physical resources run out.
    pub enforce_hard_limits: bool,
    /// Share of the node kept for the system (100 = 10%).
    pub system_reserve_permille: u32,
}

impl OvercommitPolicy {
    /// No overcommit and a 10% system reserve.
    pub fn conservative() -> (p: Self)
        ensures
            p == (OvercommitPolicy {
                cpu_overcommit_permille: 1000,
                memory_overcommit_permille: 1000,
                disk_overcommit_permille: 1000,
                enforce_hard_limits: true,
                system_reserve_permille: 100,
            }),
    {
        OvercommitPolicy {
            cpu_overcommit_permille: 1000,
            memory_overcommit_permille: 1000,
            disk_overcommit_permille: 1000,
            enforce_hard_limits: true,
            system_reserve_permille: 100,
        }
    }

    /// Twice the CPU, 1.2x memory, 1.1x disk and a 15% reserve.
    pub fn moderate() -> (p: Self)
        ensures
            p == (OvercommitPolicy {
                cpu_overcommit_permille: 2000,
                memory_overcommit_permille: 1200,
                disk_overcommit_permille: 1100,
                enforce_hard_limits: true,
                system_reserve_permille: 150,
            }),
    {
        OvercommitPolicy {
            cpu_overcommit_permille: 2000,
            memory_overcommit_permille: 1200,
            disk_overcommit_permille: 1100,
            enforce_hard_limits: true,
            system_reserve_permille: 150,
        }
    }

    /// Four times the CPU, 1.5x memory, 1.3x disk, soft limits and a 5% reserve.
    pub fn aggressive() -> (p: Self)
        ensures
            p == (OvercommitPolicy {
                cpu_overcommit_permille: 4000,
                memory_overcommit_permille: 1500,
                disk_overcommit_permille: 1300,
                enforce_hard_limits: false,
                system_reserve_permille: 50,
            }),
    {
        OvercommitPolicy {
            cpu_overcommit_permille: 4000,
            memory_overcommit_permille: 1500,
            disk_overcommit_permille: 1300,
            enforce_hard_limits: false,
            system_reserve_permille: 50,
        }
    }
}

impl Default for OvercommitPolicy {
    fn default() -> (p: Self)
        ensures
            p == (OvercommitPolicy {
                cpu_overcommit_permille: 1000,
                memory_overcommit_permille: 1000,
                disk_overcommit_permille: 1000,
                enforce_hard_limits: true,
                system_reserve_permille: 100,
            }),
    {
        OvercommitPolicy::conservative()
    }
}

/// A reservation of resources for a VM or system component.
#[derive(Debug, Clone)]
pub struct ResourceReservation {
    pub id: String,
    pub owner: String,
    pub cpu_cores: u32,
    pub memory_mb: u64,
    pub disk_gb: u64,
    pub priority: u32,
    pub is_hard: bool,
    /// Expiry as milliseconds since the Unix epoch; `None` = permanent.
    pub expires_at_ms: Option<i64>,
}

/// Physical resources of a node.
#[derive(Debug, Clone, Copy, PartialEq, Eq, Structural)]
pub struct PhysicalResources {
    pub cpu_cores: u32,
    pub memory_mb: u64,
    pub disk_gb: u64,
}

/// Resources allocated on a node (may exceed the physical ones under overcommit).
#[derive(Debug, Clone, Copy, PartialEq, Eq, Structural)]
pub struct AllocatedResources {
    pub cpu_cores: u32,
    pub memory_mb: u64,
    pub disk_gb: u64,
}

impl Default for AllocatedResources {
    fn default() -> (a: Self)
        ensures
            a == (AllocatedResources { cpu_cores: 0, memory_mb: 0, disk_gb: 0 }),
    {
        AllocatedResources { cpu_cores: 0, memory_mb: 0, disk_gb: 0 }
    }
}

/// Allocation and reservation state of one node.
pub struct NodeResourceState {
    pub physical_resources: PhysicalResources,
    pub allocated_resources: AllocatedResources,
    /// Active reservations; no two share an id.
    pub reservations: Vec<ResourceReservation>,
    pub overcommit_policy: OvercommitPolicy,
}

/// `amount * ratio * (1 - reserve)` in thousandths, rounded down and capped at `max`;
/// zero when the reserve is the whole node or more.
pub open spec fn scaled_capacity(amount: nat, ratio_pm: nat, reserve_pm: nat, max: nat) -> nat {
    if reserve_pm >= 1000 {
        0
    } else {
        let v = amount * ratio_pm * (1000 - reserve_pm) as nat / 1_000_000;
        if v > max {
            max
        } else {
            v
        }
    }
}

/// `a - b`, or zero when `b` exceeds `a`.
pub open spec fn sat_sub(a: nat, b: nat) -> nat {
    if a >= b {
        (a - b) as nat
    } else {
        0
    }
}

/// Whether two reservations in the list share an id.
pub open spec fn reservation_ids_unique(s: Seq<ResourceReservation>) -> bool {
    forall|i: int, j: int| 0 <= i < j < s.len() ==> s[i].id@ != s[j].id@
}

/// Whether a reservation has expired at time `now_ms`.
pub open spec fn reservation_expired(r: ResourceReservation, now_ms: i64) -> bool {
    match r.expires_at_ms {
        Some(t) => t < now_ms,
        None => false,
    }
}

/// The predicate that keeps the reservations still valid at `now_ms`.
pub open spec fn not_expired_at(now_ms: i64) -> spec_fn(ResourceReservation) -> bool {
    |r: ResourceReservation| !reservation_expired(r, now_ms)
}

/// Total CPU of the reservations that expired at `now_ms`.
pub open spec fn expired_cpu(s: Seq<ResourceReservation>, now_ms: i64) -> nat
    decreases s.len(),
{
    if s.len() == 0 {
        0
    } else {
        expired_cpu(s.drop_last(), now_ms) + if reservation_expired(s.last(), now_ms) {
            s.last().cpu_cores as nat
        } else {
            0
        }
    }
}

/// Total memory of the reservations that expired at `now_ms`.
pub open spec fn expired_memory(s: Seq<ResourceReservation>, now_ms: i64) -> nat
    decreases s.len(),
{
    if s.len() == 0 {
        0
    } else {
        expired_memory(s.drop_last(), now_ms) + if reservation_expired(s.last(), now_ms) {
            s.last().memory_mb as nat
        } else {
            0
        }
    }
}

/// Total disk of the reservations that expired at `now_ms`.
pub open spec fn expired_disk(s: Seq<ResourceReservation>, now_ms: i64) -> nat
    decreases s.len(),
{
    if s.len() == 0 {
        0
    } else {
        expired_disk(s.drop_last(), now_ms) + if reservation_expired(s.last(), now_ms) {
            s.last().disk_gb as nat
        } else {
            0
        }
    }
}

proof fn lemma_scaled_bound(amount: nat, ratio_pm: nat, keep: nat)
    requires
        amount <= u64::MAX,
        ratio_pm <= u32::MAX,
        keep <= 1000,
    ensures
        amount * ratio_pm <= u64::MAX * u32::MAX,
        amount * ratio_pm * keep <= u64::MAX * u32::MAX * 1000,
{
    assert(amount * ratio_pm <= u64::MAX * u32::MAX) by (nonlinear_arith)
        requires
            amount <= u64::MAX,
            ratio_pm <= u32::MAX,
    ;
    assert(amount * ratio_pm * keep <= u64::MAX * u32::MAX * 1000) by (nonlinear_arith)
        requires
            amount * ratio_pm <= u64::MAX * u32::MAX,
            keep <= 1000,
    ;
}

proof fn lemma_mul_bound(a: nat, b: nat)
    requires
        a <= u32::MAX,
        b <= u64::MAX,
    ensures
        a * b <= u32::MAX * u64::MAX,
{
    assert(a * b <= u32::MAX * u64::MAX) by (nonlinear_arith)
        requires
            a <= u32::MAX,
            b <= u64::MAX,
    ;
}

fn scale(amount: u64, ratio_pm: u32, reserve_pm: u32, max: u64) -> (r: u64)
    ensures
        r == scaled_capacity(amount as nat, ratio_pm as nat, reserve_pm as nat, max as nat),
{
    if reserve_pm >= 1000 {
        return 0;
    }
    let keep: u32 = 1000 - reserve_pm;
    proof {
        lemma_scaled_bound(amount as nat, ratio_pm as nat, keep as nat);
    }
    let p: u128 = (amount as u128) * (ratio_pm as u128);
    let q: u128 = p * (keep as u128);
    let v: u128 = q / 1_000_000;
    if v > max as u128 {
        max
    } else {
        v as u64
    }
}

impl NodeResourceState {
    /// Effective CPU capacity under the node's policy.
    pub open spec fn spec_effective_cpu(&self) -> nat {
        scaled_capacity(
            self.physical_resources.cpu_cores as nat,
            self.overcommit_policy.cpu_overcommit_permille as nat,
            self.overcommit_policy.system_reserve_permille as nat,
            u32::MAX as nat,
        )
    }

    /// Effective memory capacity under the node's policy.
    pub open spec fn spec_effective_memory(&self) -> nat {
        scaled_capacity(
            self.physical_resources.memory_mb as nat,
            self.overcommit_policy.memory_overcommit_permille as nat,
            self.overcommit_policy.system_reserve_permille as nat,
            u64::MAX as nat,
        )
    }

    /// Effective disk capacity under the node's policy.
    pub open spec fn spec_effective_disk(&self) -> nat {
        scaled_capacity(
            self.physical_resources.disk_gb as nat,
            self.overcommit_policy.disk_overcommit_permille as nat,
            self.overcommit_policy.system_reserve_permille as nat,
            u64::MAX as nat,
        )
    }

    pub open spec fn spec_available_cpu(&self) -> nat {
        sat_sub(self.spec_effective_cpu(), self.allocated_resources.cpu_cores as nat)
    }

    pub open spec fn spec_available_memory(&self) -> nat {
        sat_sub(self.spec_effective_memory(), self.allocated_resources.memory_mb as nat)
    }

    pub open spec fn spec_available_disk(&self) -> nat {
        sat_sub(self.spec_effective_disk(), self.allocated_resources.disk_gb as nat)
    }

    /// Whether the given amounts fit in what is available.
    pub open spec fn spec_can_allocate(&self, cpu: nat, memory: nat, disk: nat) -> bool {
        &&& cpu <= self.spec_available_cpu()
        &&& memory <= self.spec_available_memory()
        &&& disk <= self.spec_available_disk()
    }

    /// Well-formedness: reservation ids are unique.
    pub open spec fn wf(&self) -> bool {
        reservation_ids_unique(self.reservations@)
    }

    /// A node with nothing allocated and no reservations.
    pub fn new(cpu_cores: u32, memory_mb: u64, disk_gb: u64, overcommit_policy: OvercommitPolicy) -> (s: Self)
        ensures
            s.physical_resources == (PhysicalResources { cpu_cores, memory_mb, disk_gb }),
            s.allocated_resources == (AllocatedResources { cpu_cores: 0, memory_mb: 0, disk_gb: 0 }),
            s.reservations@.len() == 0,
            s.overcommit_policy == overcommit_policy,
            s.wf(),
    {
        NodeResourceState {
            physical_resources: PhysicalResources { cpu_cores, memory_mb, disk_gb },
            allocated_resources: AllocatedResources::default(),
            reservations: Vec::new(),
            overcommit_policy,
        }
    }

    /// Capacity after overcommit and system reserve: `(cpu, memory_mb, disk_gb)`.
    pub fn effective_capacity(&self) -> (r: (u32, u64, u64))
        ensures
            r.0 == self.spec_effective_cpu(),
            r.1 == self.spec_effective_memory(),
            r.2 == self.spec_effective_disk(),
    {
        let policy = &self.overcommit_policy;
        let physical = &self.physical_resources;
        let cpu = scale(
            physical.cpu_cores as u64,
            policy.cpu_overcommit_permille,
            policy.system_reserve_permille,
            u32::MAX as u64,
        );
        let memory = scale(
            physical.memory_mb,
            policy.memory_overcommit_permille,
            policy.system_reserve_permille,
            u64::MAX,
        );
        let disk = scale(
            physical.disk_gb,
            policy.disk_overcommit_permille,
            policy.system_reserve_permille,
            u64::MAX,
        );
        (cpu as u32, memory, disk)
    }

    /// What is still available: effective capacity minus allocations, never below zero.
    pub fn available_resources(&self) -> (r: (u32, u64, u64))
        ensures
            r.0 == self.spec_available_cpu(),
            r.1 == self.spec_available_memory(),
            r.2 == self.spec_available_disk(),
    {
        let (cpu, memory, disk) = self.effective_capacity();
        let allocated = &self.allocated_resources;
        (
            cpu.saturating_sub(allocated.cpu_cores),
            memory.saturating_sub(allocated.memory_mb),
            disk.saturating_sub(allocated.disk_gb),
        )
    }

    /// Whether the amounts can be allocated.
    pub fn can_allocate(&self, cpu: u32, memory: u64, disk: u64) -> (r: bool)
        ensures
            r == self.spec_can_allocate(cpu as nat, memory as nat, disk as nat),
    {
        let (a_cpu, a_mem, a_disk) = self.available_resources();
        a_cpu >= cpu && a_mem >= memory && a_disk >= disk
    }

    /// Allocates the amounts, or reports what was asked and what is available.
    pub fn allocate(&mut self, cpu: u32, memory: u64, disk: u64) -> (r: Result<(), BlixardError>)
        ensures
            final(self).physical_resources == old(self).physical_resources,
            final(self).overcommit_policy == old(self).overcommit_policy,
            final(self).reservations@ == old(self).reservations@,
            old(self).spec_can_allocate(cpu as nat, memory as nat, disk as nat) ==> {
                &&& r is Ok
                &&& final(self).allocated_resources.cpu_cores == old(self).allocated_resources.cpu_cores + cpu
                &&& final(self).allocated_resources.memory_mb == old(self).allocated_resources.memory_mb + memory
                &&& final(self).allocated_resources.disk_gb == old(self).allocated_resources.disk_gb + disk
            },
            !old(self).spec_can_allocate(cpu as nat, memory as nat, disk as nat) ==> {
                &&& r == Err::<(), BlixardError>(
                    BlixardError::InsufficientResources {
                        requested_cpu: cpu as u64,
                        requested_memory_mb: memory,
                        requested_disk_gb: disk,
                        available_cpu: old(self).spec_available_cpu() as u64,
                        available_memory_mb: old(self).spec_available_memory() as u64,
                        available_disk_gb: old(self).spec_available_disk() as u64,
                    },
                )
                &&& final(self).allocated_resources == old(self).allocated_resources
            },
    {
        if !self.can_allocate(cpu, memory, disk) {
            let (a_cpu, a_mem, a_disk) = self.available_resources();
            return Err(
                BlixardError::InsufficientResources {
                    requested_cpu: cpu as u64,
                    requested_memory_mb: memory,
                    requested_disk_gb: disk,
                    available_cpu: a_cpu as u64,
                    available_memory_mb: a_mem,
                    available_disk_gb: a_disk,
                },
            );
        }
        self.allocated_resources.cpu_cores = self.allocated_resources.cpu_cores + cpu;
        self.allocated_resources.memory_mb = self.allocated_resources.memory_mb + memory;
        self.allocated_resources.disk_gb = self.allocated_resources.disk_gb + disk;
        Ok(())
    }

    /// Releases the amounts; allocations never drop below zero.
    pub fn release(&mut self, cpu: u32, memory: u64, disk: u64)
        ensures
            final(self).physical_resources == old(self).physical_resources,
            final(self).overcommit_policy == old(self).overcommit_policy,
            final(self).reservations@ == old(self).reservations@,
            final(self).allocated_resources.cpu_cores == sat_sub(
                old(self).allocated_resources.cpu_cores as nat,
                cpu as nat,
            ),
            final(self).allocated_resources.memory_mb == sat_sub(
                old(self).allocated_resources.memory_mb as nat,
                memory as nat,
            ),
            final(self).allocated_resources.disk_gb == sat_sub(
                old(self).allocated_resources.disk_gb as nat,
                disk as nat,
            ),
    {
        self.allocated_resources.cpu_cores = self.allocated_resources.cpu_cores.saturating_sub(cpu);
        self.allocated_resources.memory_mb = self.allocated_resources.memory_mb.saturating_sub(
            memory,
        );
        self.allocated_resources.disk_gb = self.allocated_resources.disk_gb.saturating_sub(disk);
    }

    fn find_reservation(&self, id: &str) -> (r: Option<usize>)
        requires
            self.wf(),
        ensures
            match r {
                Some(i) => i < self.reservations@.len() && self.reservations@[i as int].id@ == id@,
                None => forall|j: int|
                    0 <= j < self.reservations@.len() ==> self.reservations@[j].id@ != id@,
            },
    {
        let mut i: usize = 0;
        while i < self.reservations.len()
            invariant
                i <= self.reservations@.len(),
                forall|j: int| 0 <= j < i ==> self.reservations@[j].id@ != id@,
            decreases self.reservations@.len() - i,
        {
            if text_eq(self.reservations[i].id.as_str(), id) {
                return Some(i);
            }
            i = i + 1;
        }
        None
    }

    /// Adds a reservation and allocates its resources. A reservation with the same id
    /// is replaced; the resources of the replaced one stay allocated.
    pub fn add_reservation(&mut self, reservation: ResourceReservation) -> (r: Result<(), BlixardError>)
        requires
            old(self).wf(),
        ensures
            final(self).wf(),
            final(self).physical_resources == old(self).physical_resources,
            final(self).overcommit_policy == old(self).overcommit_policy,
            r is Ok <==> old(self).spec_can_allocate(
                reservation.cpu_cores as nat,
                reservation.memory_mb as nat,
                reservation.disk_gb as nat,
            ),
            r is Err ==> r->Err_0 is InsufficientResources && final(self).allocated_resources
                == old(self).allocated_resources && final(self).reservations@ == old(self).reservations@,
            r is Ok ==> {
                &&& final(self).allocated_resources.cpu_cores == old(self).allocated_resources.cpu_cores
                    + reservation.cpu_cores
                &&& final(self).allocated_resources.memory_mb == old(self).allocated_resources.memory_mb
                    + reservation.memory_mb
                &&& final(self).allocated_resources.disk_gb == old(self).allocated_resources.disk_gb
                    + reservation.disk_gb
                &&& (exists|i: int|
                    0 <= i < old(self).reservations@.len() && old(self).reservations@[i].id@
                        == reservation.id@) ==> (exists|i: int|
                    0 <= i < old(self).reservations@.len() && old(self).reservations@[i].id@
                        == reservation.id@ && final(self).reservations@ == old(self).reservations@.update(i, reservation))
                &&& (forall|i: int|
                    0 <= i < old(self).reservations@.len() ==> old(self).reservations@[i].id@
                        != reservation.id@) ==> final(self).reservations@ == old(self).reservations@.push(reservation)
            },
    {
        // A hard reservation is refused when it does not fit; so is a soft one,
        // whose allocation below fails in the same case.
        if reservation.is_hard && !self.can_allocate(
            reservation.cpu_cores,
            reservation.memory_mb,
            reservation.disk_gb,
        ) {
            let (a_cpu, a_mem, a_disk) = self.available_resources();
            return Err(
                BlixardError::InsufficientResources {
                    requested_cpu: reservation.cpu_cores as u64,
                    requested_memory_mb: reservation.memory_mb,
                    requested_disk_gb: reservation.disk_gb,
                    available_cpu: a_cpu as u64,
                    available_memory_mb: a_mem,
                    available_disk_gb: a_disk,
                },
            );
        }
        let res = self.allocate(reservation.cpu_cores, reservation.memory_mb, reservation.disk_gb);
        if res.is_err() {
            return res;
        }
        match self.find_reservation(reservation.id.as_str()) {
            Some(i) => {
                let ghost before = self.reservations@;
                let ghost new_id = reservation.id@;
                self.reservations.set(i, reservation);
                proof {
                    assert forall|a: int, b: int|
                        0 <= a < b < self.reservations@.len() implies self.reservations@[a].id@
                        != self.reservations@[b].id@ by {
                        if a != i && b != i {
                            assert(before[a].id@ != before[b].id@);
                        } else if a == i {
                            assert(before[b].id@ != before[a].id@);
                        } else {
                            assert(before[a].id@ != before[b].id@);
                        }
                    }
                }
            },
            None => {
                self.reservations.push(reservation);
            },
        }
        Ok(())
    }

    /// Removes the reservation with this id and releases its resources.
    pub fn remove_reservation(&mut self, reservation_id: &str) -> (r: Option<ResourceReservation>)
        requires
            old(self).wf(),
        ensures
            final(self).wf(),
            final(self).physical_resources == old(self).physical_resources,
            final(self).overcommit_policy == old(self).overcommit_policy,
            match r {
                Some(res) => exists|i: int|
                    0 <= i < old(self).reservations@.len() && old(self).reservations@[i]
                        == res && res.id@ == reservation_id@ && final(self).reservations@ == old(self).reservations@.remove(i) && final(self).allocated_resources.cpu_cores
                        == sat_sub(
                        old(self).allocated_resources.cpu_cores as nat,
                        res.cpu_cores as nat,
                    ) && final(self).allocated_resources.memory_mb == sat_sub(
                        old(self).allocated_resources.memory_mb as nat,
                        res.memory_mb as nat,
                    ) && final(self).allocated_resources.disk_gb == sat_sub(
                        old(self).allocated_resources.disk_gb as nat,
                        res.disk_gb as nat,
                    ),
                None => (forall|i: int|
                    0 <= i < old(self).reservations@.len() ==> old(self).reservations@[i].id@
                        != reservation_id@) && final(self).reservations@ == old(self).reservations@
                    && final(self).allocated_resources == old(self).allocated_resources,
            },
    {
        match self.find_reservation(reservation_id) {
            Some(i) => {
                let ghost before = self.reservations@;
                let reservation = self.reservations.remove(i);
                proof {
                    assert forall|a: int, b: int|
                        0 <= a < b < self.reservations@.len() implies self.reservations@[a].id@
                        != self.reservations@[b].id@ by {
                        if a < i && b < i {
                            assert(before[a].id@ != before[b].id@);
                        } else if a < i {
                            assert(before[a].id@ != before[b + 1].id@);
                        } else {
                            assert(before[a + 1].id@ != before[b + 1].id@);
                        }
                    }
                }
                self.release(reservation.cpu_cores, reservation.memory_mb, reservation.disk_gb);
                Some(reservation)
            },
            None => None,
        }
    }

    /// Drops the reservations that expired before now and releases their resources.
    pub fn cleanup_expired_reservations(&mut self)
        requires
            old(self).wf(),
        ensures
            final(self).wf(),
            final(self).physical_resources == old(self).physical_resources,
            final(self).overcommit_policy == old(self).overcommit_policy,
            exists|now_ms: i64|
                {
                    &&& final(self).reservations@ == old(self).reservations@.filter(not_expired_at(now_ms))
                    &&& final(self).allocated_resources.cpu_cores == sat_sub(
                        old(self).allocated_resources.cpu_cores as nat,
                        expired_cpu(old(self).reservations@, now_ms),
                    )
                    &&& final(self).allocated_resources.memory_mb == sat_sub(
                        old(self).allocated_resources.memory_mb as nat,
                        expired_memory(old(self).reservations@, now_ms),
                    )
                    &&& final(self).allocated_resources.disk_gb == sat_sub(
                        old(self).allocated_resources.disk_gb as nat,
                        expired_disk(old(self).reservations@, now_ms),
                    )
                },
    {
        let now_ms = crate::clock::now_millis();
        self.cleanup_expired_reservations_at(now_ms);
    }

    /// Drops the reservations that expired before `now_ms` and releases their resources.
    pub fn cleanup_expired_reservations_at(&mut self, now_ms: i64)
        requires
            old(self).wf(),
        ensures
            final(self).wf(),
            final(self).physical_resources == old(self).physical_resources,
            final(self).overcommit_policy == old(self).overcommit_policy,
            final(self).reservations@ == old(self).reservations@.filter(not_expired_at(now_ms)),
            final(self).allocated_resources.cpu_cores == sat_sub(
                old(self).allocated_resources.cpu_cores as nat,
                expired_cpu(old(self).reservations@, now_ms),
            ),
            final(self).allocated_resources.memory_mb == sat_sub(
                old(self).allocated_resources.memory_mb as nat,
                expired_memory(old(self).reservations@, now_ms),
            ),
            final(self).allocated_resources.disk_gb == sat_sub(
                old(self).allocated_resources.disk_gb as nat,
                expired_disk(old(self).reservations@, now_ms),
            ),
    {
        let ghost orig = self.reservations@;
        let ghost a0 = self.allocated_resources;
        let mut old_list: Vec<ResourceReservation> = Vec::new();
        std::mem::swap(&mut old_list, &mut self.reservations);
        let mut kept: Vec<ResourceReservation> = Vec::new();
        let mut i: usize = 0;
        let ghost keep = not_expired_at(now_ms);
        while i < old_list.len()
            invariant
                old_list@ == orig,
                i <= orig.len(),
                reservation_ids_unique(orig),
                kept@ == orig.take(i as int).filter(keep),
                keep == not_expired_at(now_ms),
                self.allocated_resources.cpu_cores == sat_sub(
                    a0.cpu_cores as nat,
                    expired_cpu(orig.take(i as int), now_ms),
                ),
                self.allocated_resources.memory_mb == sat_sub(
                    a0.memory_mb as nat,
                    expired_memory(orig.take(i as int), now_ms),
                ),
                self.allocated_resources.disk_gb == sat_sub(
                    a0.disk_gb as nat,
                    expired_disk(orig.take(i as int), now_ms),
                ),
                self.physical_resources == old(self).physical_resources,
                self.overcommit_policy == old(self).overcommit_policy,
            decreases orig.len() - i,
        {
            let r = &old_list[i];
            let expired = match r.expires_at_ms {
                Some(t) => t < now_ms,
                None => false,
            };
            proof {
                let t = orig.take(i as int + 1);
                assert(t.drop_last() =~= orig.take(i as int));
                assert(t.last() == orig[i as int]);
                assert(orig.take(i as int).push(orig[i as int]) =~= orig.take(i as int + 1));
                orig.take(i as int).lemma_filter_push(orig[i as int], keep);
            }
            if expired {
                self.release(r.cpu_cores, r.memory_mb, r.disk_gb);
            } else {
                kept.push(r.clone_reservation());
            }
            proof {
                assert(kept@ =~= orig.take(i as int + 1).filter(keep));
            }
            i = i + 1;
        }
        proof {
            assert(orig.take(orig.len() as int) =~= orig);
            lemma_filter_keeps_unique(orig, keep);
        }
        self.reservations = kept;
    }

    /// Whether some allocation exceeds the physical resources times its overcommit ratio.
    pub fn is_overcommitted(&self) -> (r: bool)
        ensures
            r == ((self.physical_resources.cpu_cores > 0
                && self.allocated_resources.cpu_cores as int * 1000
                > self.overcommit_policy.cpu_overcommit_permille as int
                * self.physical_resources.cpu_cores as int) || (self.physical_resources.memory_mb
                > 0 && self.allocated_resources.memory_mb as int * 1000
                > self.overcommit_policy.memory_overcommit_permille as int
                * self.physical_resources.memory_mb as int) || (self.physical_resources.disk_gb > 0
                && self.allocated_resources.disk_gb as int * 1000
                > self.overcommit_policy.disk_overcommit_permille as int
                * self.physical_resources.disk_gb as int)),
    {
        let p = &self.physical_resources;
        let a = &self.allocated_resources;
        let pol = &self.overcommit_policy;
        proof {
            lemma_mul_bound(pol.cpu_overcommit_permille as nat, p.cpu_cores as nat);
            lemma_mul_bound(pol.memory_overcommit_permille as nat, p.memory_mb as nat);
            lemma_mul_bound(pol.disk_overcommit_permille as nat, p.disk_gb as nat);
        }
        let cpu = p.cpu_cores > 0 && (a.cpu_cores as u128) * 1000 > (pol.cpu_overcommit_permille as u128)
            * (p.cpu_cores as u128);
        let mem = p.memory_mb > 0 && (a.memory_mb as u128) * 1000 > (
        pol.memory_overcommit_permille as u128) * (p.memory_mb as u128);
        let disk = p.disk_gb > 0 && (a.disk_gb as u128) * 1000 > (pol.disk_overcommit_permille as u128)
            * (p.disk_gb as u128);
        cpu || mem || disk
    }
}

impl ResourceReservation {
    /// A copy of the reservation with equal fields.
    pub fn clone_reservation(&self) -> (r: ResourceReservation)
        ensures
            r == *self,
    {
        ResourceReservation {
            id: self.id.clone(),
            owner: self.owner.clone(),
            cpu_cores: self.cpu_cores,
            memory_mb: self.memory_mb,
            disk_gb: self.disk_gb,
            priority: self.priority,
            is_hard: self.is_hard,
            expires_at_ms: self.expires_at_ms,
        }
    }
}

proof fn lemma_filter_keeps_unique(s: Seq<ResourceReservation>, keep: spec_fn(ResourceReservation) -> bool)
    requires
        reservation_ids_unique(s),
    ensures
        reservation_ids_unique(s.filter(keep)),
    decreases s.len(),
{
    if s.len() > 0 {
        let w = s.drop_last();
        lemma_filter_keeps_unique(w, keep);
        assert(s =~= w.push(s.last()));
        w.lemma_filter_push(s.last(), keep);
        let f = s.filter(keep);
        let fw = w.filter(keep);
        if keep(s.last()) {
            assert forall|a: int, b: int| 0 <= a < b < f.len() implies f[a].id@ != f[b].id@ by {
                if b < fw.len() {
                    assert(fw[a].id@ != fw[b].id@);
                } else {
                    assert(w.filter(keep).contains(fw[a]));
                    w.lemma_filter_contains_rev(keep, fw[a]);
                    let k = choose|k: int| 0 <= k < w.len() && w[k] == fw[a];
                    assert(s[k].id@ != s[s.len() - 1].id@);
                }
            }
        }
    }
}

} // verus!

verus! {

/// Totals over the nodes of a cluster.
#[derive(Debug, Clone, Copy, PartialEq, Eq, Structural)]
pub struct ClusterResourceSummary {
    pub total_physical: PhysicalResources,
    pub total_allocated: AllocatedResources,
    pub total_reserved: AllocatedResources,
    pub node_count: usize,
}

/// Resource state of every node in the cluster.
pub struct ClusterResourceManager {
    /// One entry per registered node, keyed by node id; no id occurs twice.
    pub node_states: Vec<(u64, NodeResourceState)>,
    /// Policy given to newly registered nodes.
    pub default_policy: OvercommitPolicy,
}

/// Sum of `f` over the node states.
pub open spec fn sum_over_nodes(s: Seq<(u64, NodeResourceState)>, f: spec_fn(NodeResourceState) -> nat) -> nat
    decreases s.len(),
{
    if s.len() == 0 {
        0
    } else {
        sum_over_nodes(s.drop_last(), f) + f(s.last().1)
    }
}

proof fn lemma_sum_over_nodes_prefix(s: Seq<(u64, NodeResourceState)>, f: spec_fn(NodeResourceState) -> nat, k: int)
    requires
        0 <= k <= s.len(),
    ensures
        sum_over_nodes(s.take(k), f) <= sum_over_nodes(s, f),
        k > 0 ==> sum_over_nodes(s.take(k), f) == sum_over_nodes(s.take(k - 1), f) + f(s[k - 1].1),
    decreases s.len() - k,
{
    if k > 0 {
        assert(s.take(k).drop_last() =~= s.take(k - 1));
    }
    if k < s.len() {
        lemma_sum_over_nodes_prefix(s, f, k + 1);
        assert(s.take(k + 1).drop_last() =~= s.take(k));
    } else {
        assert(s.take(k) =~= s);
    }
}

proof fn lemma_sum_over_reservations_prefix(s: Seq<ResourceReservation>, f: spec_fn(ResourceReservation) -> nat, k: int)
    requires
        0 <= k <= s.len(),
    ensures
        sum_over_reservations(s.take(k), f) <= sum_over_reservations(s, f),
        k > 0 ==> sum_over_reservations(s.take(k), f) == sum_over_reservations(s.take(k - 1), f)
            + f(s[k - 1]),
    decreases s.len() - k,
{
    if k > 0 {
        assert(s.take(k).drop_last() =~= s.take(k - 1));
    }
    if k < s.len() {
        lemma_sum_over_reservations_prefix(s, f, k + 1);
        assert(s.take(k + 1).drop_last() =~= s.take(k));
    } else {
        assert(s.take(k) =~= s);
    }
}

/// Sum of `f` over reservations.
pub open spec fn sum_over_reservations(s: Seq<ResourceReservation>, f: spec_fn(ResourceReservation) -> nat) -> nat
    decreases s.len(),
{
    if s.len() == 0 {
        0
    } else {
        sum_over_reservations(s.drop_last(), f) + f(s.last())
    }
}

pub open spec fn phys_cpu() -> spec_fn(NodeResourceState) -> nat {
    |n: NodeResourceState| n.physical_resources.cpu_cores as nat
}

pub open spec fn phys_memory() -> spec_fn(NodeResourceState) -> nat {
    |n: NodeResourceState| n.physical_resources.memory_mb as nat
}

pub open spec fn phys_disk() -> spec_fn(NodeResourceState) -> nat {
    |n: NodeResourceState| n.physical_resources.disk_gb as nat
}

pub open spec fn alloc_cpu() -> spec_fn(NodeResourceState) -> nat {
    |n: NodeResourceState| n.allocated_resources.cpu_cores as nat
}

pub open spec fn alloc_memory() -> spec_fn(NodeResourceState) -> nat {
    |n: NodeResourceState| n.allocated_resources.memory_mb as nat
}

pub open spec fn alloc_disk() -> spec_fn(NodeResourceState) -> nat {
    |n: NodeResourceState| n.allocated_resources.disk_gb as nat
}

pub open spec fn reserved_cpu() -> spec_fn(NodeResourceState) -> nat {
    |n: NodeResourceState|
        sum_over_reservations(n.reservations@, |r: ResourceReservation| r.cpu_cores as nat)
}

pub open spec fn reserved_memory() -> spec_fn(NodeResourceState) -> nat {
    |n: NodeResourceState|
        sum_over_reservations(n.reservations@, |r: ResourceReservation| r.memory_mb as nat)
}

pub open spec fn reserved_disk() -> spec_fn(NodeResourceState) -> nat {
    |n: NodeResourceState|
        sum_over_reservations(n.reservations@, |r: ResourceReservation| r.disk_gb as nat)
}

/// Whether no node id occurs twice and every node state is well formed.
pub open spec fn nodes_wf(s: Seq<(u64, NodeResourceState)>) -> bool {
    &&& forall|i: int, j: int| 0 <= i < j < s.len() ==> s[i].0 != s[j].0
    &&& forall|i: int| 0 <= i < s.len() ==> (#[trigger] s[i]).1.wf()
}

/// The ids of the nodes, in order.
pub open spec fn node_ids(s: Seq<(u64, NodeResourceState)>) -> Seq<u64> {
    s.map_values(|p: (u64, NodeResourceState)| p.0)
}

impl ClusterResourceManager {
    pub open spec fn wf(&self) -> bool {
        nodes_wf(self.node_states@)
    }

    pub open spec fn spec_default_policy(&self) -> OvercommitPolicy {
        self.default_policy
    }

    /// An empty cluster whose new nodes get `default_policy`.
    pub fn new(default_policy: OvercommitPolicy) -> (m: Self)
        ensures
            m.wf(),
            m.node_states@.len() == 0,
            m.spec_default_policy() == default_policy,
    {
        ClusterResourceManager { node_states: Vec::new(), default_policy }
    }

    fn find_node(&self, node_id: u64) -> (r: Option<usize>)
        ensures
            match r {
                Some(i) => i < self.node_states@.len() && self.node_states@[i as int].0 == node_id,
                None => forall|j: int|
                    0 <= j < self.node_states@.len() ==> self.node_states@[j].0 != node_id,
            },
    {
        let mut i: usize = 0;
        while i < self.node_states.len()
            invariant
                i <= self.node_states@.len(),
                forall|j: int| 0 <= j < i ==> self.node_states@[j].0 != node_id,
            decreases self.node_states@.len() - i,
        {
            if self.node_states[i].0 == node_id {
                return Some(i);
            }
            i = i + 1;
        }
        None
    }

    /// Registers a node, or resets a known one, with nothing allocated and the default policy.
    pub fn register_node(&mut self, node_id: u64, cpu_cores: u32, memory_mb: u64, disk_gb: u64)
        requires
            old(self).wf(),
        ensures
            final(self).wf(),
            final(self).spec_default_policy() == old(self).spec_default_policy(),
            exists|i: int|
                0 <= i < final(self).node_states@.len() && final(self).node_states@[i].0 == node_id
                    && final(self).node_states@[i].1.physical_resources == (PhysicalResources {
                    cpu_cores,
                    memory_mb,
                    disk_gb,
                }) && final(self).node_states@[i].1.allocated_resources == (AllocatedResources {
                    cpu_cores: 0,
                    memory_mb: 0,
                    disk_gb: 0,
                }) && final(self).node_states@[i].1.reservations@.len() == 0 && final(self).node_states@[i].1.overcommit_policy == old(self).spec_default_policy()
                    && final(self).node_states@ == (if i < old(self).node_states@.len() {
                    old(self).node_states@.update(i, final(self).node_states@[i])
                } else {
                    old(self).node_states@.push(final(self).node_states@[i])
                }),
            forall|j: int|
                0 <= j < old(self).node_states@.len() && old(self).node_states@[j].0 != node_id
                    ==> final(self).node_states@[j] == old(self).node_states@[j],
    {
        let state = NodeResourceState::new(cpu_cores, memory_mb, disk_gb, self.default_policy);
        let ghost before = self.node_states@;
        match self.find_node(node_id) {
            Some(i) => {
                self.node_states.set(i, (node_id, state));
                proof {
                    assert forall|a: int, b: int|
                        0 <= a < b < self.node_states@.len() implies self.node_states@[a].0
                        != self.node_states@[b].0 by {
                        assert(before[a].0 != before[b].0);
                    }
                    assert(self.node_states@ == before.update(i as int, self.node_states@[i as int]));
                }
            },
            None => {
                self.node_states.push((node_id, state));
                proof {
                    let k = before.len() as int;
                    assert(self.node_states@ == before.push(self.node_states@[k]));
                }
            },
        }
    }

    /// Replaces the overcommit policy of a node.
    pub fn update_node_policy(&mut self, node_id: u64, policy: OvercommitPolicy) -> (r: Result<(), BlixardError>)
        requires
            old(self).wf(),
        ensures
            final(self).wf(),
            final(self).spec_default_policy() == old(self).spec_default_policy(),
            final(self).node_states@.len() == old(self).node_states@.len(),
            (exists|i: int| 0 <= i < old(self).node_states@.len() && old(self).node_states@[i].0 == node_id)
                <==> r is Ok,
            r is Err ==> r == Err::<(), BlixardError>(BlixardError::NodeNotFound { node_id })
                && final(self).node_states@ == old(self).node_states@,
            forall|j: int|
                #![trigger final(self).node_states@[j]]
                0 <= j < old(self).node_states@.len() ==> {
                    let o = old(self).node_states@[j];
                    let n = final(self).node_states@[j];
                    &&& n.0 == o.0
                    &&& n.1.physical_resources == o.1.physical_resources
                    &&& n.1.allocated_resources == o.1.allocated_resources
                    &&& n.1.reservations@ == o.1.reservations@
                    &&& n.1.overcommit_policy == (if o.0 == node_id {
                        policy
                    } else {
                        o.1.overcommit_policy
                    })
                },
    {
        match self.find_node(node_id) {
            Some(i) => {
                let ghost before = self.node_states@;
                let (id, mut state) = self.node_states.remove(i);
                state.overcommit_policy = policy;
                self.node_states.insert(i, (id, state));
                proof {
                    assert forall|a: int, b: int|
                        0 <= a < b < self.node_states@.len() implies self.node_states@[a].0
                        != self.node_states@[b].0 by {
                        assert(before[a].0 != before[b].0);
                    }
                    assert forall|a: int| 0 <= a < self.node_states@.len() implies (
                    #[trigger] self.node_states@[a]).1.wf() by {
                        assert(before[a].1.wf());
                    }
                }
                Ok(())
            },
            None => Err(BlixardError::NodeNotFound { node_id }),
        }
    }

    /// The state of a node, if it is registered.
    pub fn get_node_state(&self, node_id: u64) -> (r: Option<&NodeResourceState>)
        ensures
            match r {
                Some(s) => exists|i: int|
                    0 <= i < self.node_states@.len() && self.node_states@[i].0 == node_id
                        && self.node_states@[i].1 == *s,
                None => forall|j: int|
                    0 <= j < self.node_states@.len() ==> self.node_states@[j].0 != node_id,
            },
    {
        match self.find_node(node_id) {
            Some(i) => Some(&self.node_states[i].1),
            None => None,
        }
    }

    /// Mutable access to the state of a node, if it is registered.
    pub fn get_node_state_mut(&mut self, node_id: u64) -> (r: Option<&mut NodeResourceState>)
        ensures
            match r {
                Some(s) => exists|i: int|
                    0 <= i < old(self).node_states@.len() && old(self).node_states@[i].0 == node_id
                        && old(self).node_states@[i].1 == *s && final(self).node_states@ == old(
                        self).node_states@.update(i, (node_id, *final(s))),
                None => (forall|j: int|
                    0 <= j < old(self).node_states@.len() ==> old(self).node_states@[j].0 != node_id)
                    && final(self).node_states@ == old(self).node_states@,
            },
            final(self).default_policy == old(self).default_policy,
    {
        match self.find_node(node_id) {
            Some(i) => {
                let entry = vstd::std_specs::vec::vec_index_mut(&mut self.node_states, i);
                Some(&mut entry.1)
            },
            None => None,
        }
    }

    /// Cluster-wide totals of physical, allocated and reserved resources.
    pub fn cluster_summary(&self) -> (r: ClusterResourceSummary)
        requires
            sum_over_nodes(self.node_states@, phys_cpu()) <= u32::MAX,
            sum_over_nodes(self.node_states@, phys_memory()) <= u64::MAX,
            sum_over_nodes(self.node_states@, phys_disk()) <= u64::MAX,
            sum_over_nodes(self.node_states@, alloc_cpu()) <= u32::MAX,
            sum_over_nodes(self.node_states@, alloc_memory()) <= u64::MAX,
            sum_over_nodes(self.node_states@, alloc_disk()) <= u64::MAX,
            sum_over_nodes(self.node_states@, reserved_cpu()) <= u32::MAX,
            sum_over_nodes(self.node_states@, reserved_memory()) <= u64::MAX,
            sum_over_nodes(self.node_states@, reserved_disk()) <= u64::MAX,
        ensures
            r.total_physical.cpu_cores == sum_over_nodes(self.node_states@, phys_cpu()),
            r.total_physical.memory_mb == sum_over_nodes(self.node_states@, phys_memory()),
            r.total_physical.disk_gb == sum_over_nodes(self.node_states@, phys_disk()),
            r.total_allocated.cpu_cores == sum_over_nodes(self.node_states@, alloc_cpu()),
            r.total_allocated.memory_mb == sum_over_nodes(self.node_states@, alloc_memory()),
            r.total_allocated.disk_gb == sum_over_nodes(self.node_states@, alloc_disk()),
            r.total_reserved.cpu_cores == sum_over_nodes(self.node_states@, reserved_cpu()),
            r.total_reserved.memory_mb == sum_over_nodes(self.node_states@, reserved_memory()),
            r.total_reserved.disk_gb == sum_over_nodes(self.node_states@, reserved_disk()),
            r.node_count == self.node_states@.len(),
    {
        let ns = &self.node_states;
        let mut phys = PhysicalResources { cpu_cores: 0, memory_mb: 0, disk_gb: 0 };
        let mut alloc = AllocatedResources { cpu_cores: 0, memory_mb: 0, disk_gb: 0 };
        let mut reserved = AllocatedResources { cpu_cores: 0, memory_mb: 0, disk_gb: 0 };
        let mut i: usize = 0;
        while i < ns.len()
            invariant
                i <= ns@.len(),
                ns@ == self.node_states@,
                sum_over_nodes(ns@, phys_cpu()) <= u32::MAX,
                sum_over_nodes(ns@, phys_memory()) <= u64::MAX,
                sum_over_nodes(ns@, phys_disk()) <= u64::MAX,
                sum_over_nodes(ns@, alloc_cpu()) <= u32::MAX,
                sum_over_nodes(ns@, alloc_memory()) <= u64::MAX,
                sum_over_nodes(ns@, alloc_disk()) <= u64::MAX,
                sum_over_nodes(ns@, reserved_cpu()) <= u32::MAX,
                sum_over_nodes(ns@, reserved_memory()) <= u64::MAX,
                sum_over_nodes(ns@, reserved_disk()) <= u64::MAX,
                phys.cpu_cores == sum_over_nodes(ns@.take(i as int), phys_cpu()),
                phys.memory_mb == sum_over_nodes(ns@.take(i as int), phys_memory()),
                phys.disk_gb == sum_over_nodes(ns@.take(i as int), phys_disk()),
                alloc.cpu_cores == sum_over_nodes(ns@.take(i as int), alloc_cpu()),
                alloc.memory_mb == sum_over_nodes(ns@.take(i as int), alloc_memory()),
                alloc.disk_gb == sum_over_nodes(ns@.take(i as int), alloc_disk()),
                reserved.cpu_cores == sum_over_nodes(ns@.take(i as int), reserved_cpu()),
                reserved.memory_mb == sum_over_nodes(ns@.take(i as int), reserved_memory()),
                reserved.disk_gb == sum_over_nodes(ns@.take(i as int), reserved_disk()),
            decreases ns@.len() - i,
        {
            let state = &ns[i].1;
            proof {
                let t = ns@.take(i as int + 1);
                assert(t.drop_last() =~= ns@.take(i as int));
                lemma_sum_over_nodes_prefix(ns@, phys_cpu(), i as int + 1);
                lemma_sum_over_nodes_prefix(ns@, phys_memory(), i as int + 1);
                lemma_sum_over_nodes_prefix(ns@, phys_disk(), i as int + 1);
                lemma_sum_over_nodes_prefix(ns@, alloc_cpu(), i as int + 1);
                lemma_sum_over_nodes_prefix(ns@, alloc_memory(), i as int + 1);
                lemma_sum_over_nodes_prefix(ns@, alloc_disk(), i as int + 1);
                lemma_sum_over_nodes_prefix(ns@, reserved_cpu(), i as int + 1);
                lemma_sum_over_nodes_prefix(ns@, reserved_memory(), i as int + 1);
                lemma_sum_over_nodes_prefix(ns@, reserved_disk(), i as int + 1);
            }
            phys.cpu_cores = phys.cpu_cores + state.physical_resources.cpu_cores;
            phys.memory_mb = phys.memory_mb + state.physical_resources.memory_mb;
            phys.disk_gb = phys.disk_gb + state.physical_resources.disk_gb;
            alloc.cpu_cores = alloc.cpu_cores + state.allocated_resources.cpu_cores;
            alloc.memory_mb = alloc.memory_mb + state.allocated_resources.memory_mb;
            alloc.disk_gb = alloc.disk_gb + state.allocated_resources.disk_gb;
            let rs = &state.reservations;
            let ghost base_cpu = reserved.cpu_cores as nat;
            let ghost base_mem = reserved.memory_mb as nat;
            let ghost base_disk = reserved.disk_gb as nat;
            let mut j: usize = 0;
            while j < rs.len()
                invariant
                    j <= rs@.len(),
                    base_cpu + reserved_cpu()(ns@[i as int].1) <= u32::MAX,
                    base_mem + reserved_memory()(ns@[i as int].1) <= u64::MAX,
                    base_disk + reserved_disk()(ns@[i as int].1) <= u64::MAX,
                    rs@ == ns@[i as int].1.reservations@,
                    reserved.cpu_cores == base_cpu + sum_over_reservations(
                        rs@.take(j as int),
                        |r: ResourceReservation| r.cpu_cores as nat,
                    ),
                    reserved.memory_mb == base_mem + sum_over_reservations(
                        rs@.take(j as int),
                        |r: ResourceReservation| r.memory_mb as nat,
                    ),
                    reserved.disk_gb == base_disk + sum_over_reservations(
                        rs@.take(j as int),
                        |r: ResourceReservation| r.disk_gb as nat,
                    ),
                decreases rs@.len() - j,
            {
                proof {
                    assert(rs@.take(j as int + 1).drop_last() =~= rs@.take(j as int));
                    lemma_sum_over_reservations_prefix(rs@, |r: ResourceReservation| r.cpu_cores as nat, j as int + 1);
                    lemma_sum_over_reservations_prefix(rs@, |r: ResourceReservation| r.memory_mb as nat, j as int + 1);
                    lemma_sum_over_reservations_prefix(rs@, |r: ResourceReservation| r.disk_gb as nat, j as int + 1);
                }
                reserved.cpu_cores = reserved.cpu_cores + rs[j].cpu_cores;
                reserved.memory_mb = reserved.memory_mb + rs[j].memory_mb;
                reserved.disk_gb = reserved.disk_gb + rs[j].disk_gb;
                j = j + 1;
            }
            proof {
                assert(rs@.take(rs@.len() as int) =~= rs@);
            }
            i = i + 1;
        }
        proof {
            assert(ns@.take(ns@.len() as int) =~= ns@);
        }
        ClusterResourceSummary {
            total_physical: phys,
            total_allocated: alloc,
            total_reserved: reserved,
            node_count: ns.len(),
        }
    }

    /// The ids of the nodes where the amounts can be allocated, in registration order.
    pub fn find_nodes_with_capacity(&self, cpu: u32, memory: u64, disk: u64) -> (r: Vec<u64>)
        ensures
            r@ == node_ids(
                self.node_states@.filter(
                    |p: (u64, NodeResourceState)|
                        p.1.spec_can_allocate(cpu as nat, memory as nat, disk as nat),
                ),
            ),
    {
        let ghost pred = |p: (u64, NodeResourceState)|
            p.1.spec_can_allocate(cpu as nat, memory as nat, disk as nat);
        let mut out: Vec<u64> = Vec::new();
        let mut i: usize = 0;
        while i < self.node_states.len()
            invariant
                i <= self.node_states@.len(),
                pred == (|p: (u64, NodeResourceState)|
                    p.1.spec_can_allocate(cpu as nat, memory as nat, disk as nat)),
                out@ == node_ids(self.node_states@.take(i as int).filter(pred)),
            decreases self.node_states@.len() - i,
        {
            let ok = self.node_states[i].1.can_allocate(cpu, memory, disk);
            proof {
                assert(self.node_states@.take(i as int).push(self.node_states@[i as int])
                    =~= self.node_states@.take(i as int + 1));
                self.node_states@.take(i as int).lemma_filter_push(self.node_states@[i as int], pred);
            }
            if ok {
                out.push(self.node_states[i].0);
            }
            proof {
                assert(out@ =~= node_ids(self.node_states@.take(i as int + 1).filter(pred)));
            }
            i = i + 1;
        }
        proof {
            assert(self.node_states@.take(self.node_states@.len() as int) =~= self.node_states@);
        }
        out
    }
}


/// Releasing what was just allocated gives the node back the allocation it had,
/// and an allocation that succeeds never takes a node that was within its effective
/// capacity past it.
pub proof fn lemma_release_undoes_allocate(s: NodeResourceState, cpu: u32, memory: u64, disk: u64)
    requires
        s.spec_can_allocate(cpu as nat, memory as nat, disk as nat),
    ensures
        s.allocated_resources.cpu_cores <= s.spec_effective_cpu() ==> s.allocated_resources.cpu_cores
            + cpu <= s.spec_effective_cpu(),
        s.allocated_resources.memory_mb <= s.spec_effective_memory() ==> s.allocated_resources.memory_mb
            + memory <= s.spec_effective_memory(),
        s.allocated_resources.disk_gb <= s.spec_effective_disk() ==> s.allocated_resources.disk_gb
            + disk <= s.spec_effective_disk(),
        sat_sub((s.allocated_resources.cpu_cores + cpu) as nat, cpu as nat)
            == s.allocated_resources.cpu_cores,
        sat_sub((s.allocated_resources.memory_mb + memory) as nat, memory as nat)
            == s.allocated_resources.memory_mb,
        sat_sub((s.allocated_resources.disk_gb + disk) as nat, disk as nat)
            == s.allocated_resources.disk_gb,
{
}

/// Whether `after` is `before` with the reservation `r` added under a fresh id.
pub open spec fn reservation_added(before: Seq<ResourceReservation>, after: Seq<ResourceReservation>, r: ResourceReservation) -> bool {
    &&& forall|i: int| 0 <= i < before.len() ==> before[i].id@ != r.id@
    &&& after == before.push(r)
}

/// Adding a reservation under a fresh id keeps the ids unique, and removing that id
/// afterwards finds exactly the added reservation and restores the list.
pub proof fn lemma_reservation_round_trip(before: Seq<ResourceReservation>, r: ResourceReservation, i: int)
    requires
        reservation_ids_unique(before),
        forall|j: int| 0 <= j < before.len() ==> before[j].id@ != r.id@,
        0 <= i < before.len() + 1,
        before.push(r)[i].id@ == r.id@,
    ensures
        reservation_ids_unique(before.push(r)),
        reservation_added(before, before.push(r), r),
        i == before.len(),
        before.push(r)[i] == r,
        before.push(r).remove(i) == before,
{
    if i < before.len() {
        assert(before.push(r)[i] == before[i]);
    }
    assert(before.push(r).remove(before.len() as int) =~= before);
}

/// Cleaning up at a time when no reservation has expired changes nothing.
pub proof fn lemma_cleanup_without_expiry(s: Seq<ResourceReservation>, now_ms: i64)
    requires
        forall|i: int| 0 <= i < s.len() ==> !reservation_expired(#[trigger] s[i], now_ms),
    ensures
        s.filter(not_expired_at(now_ms)) == s,
        expired_cpu(s, now_ms) == 0,
        expired_memory(s, now_ms) == 0,
        expired_disk(s, now_ms) == 0,
    decreases s.len(),
{
    if s.len() > 0 {
        let t = s.drop_last();
        assert forall|i: int| 0 <= i < t.len() implies !reservation_expired(#[trigger] t[i], now_ms) by {
            assert(t[i] == s[i]);
        }
        lemma_cleanup_without_expiry(t, now_ms);
        assert(!reservation_expired(s[s.len() - 1], now_ms));
        assert(s =~= t.push(s.last()));
        t.lemma_filter_push(s.last(), not_expired_at(now_ms));
    } else {
        assert(s.filter(not_expired_at(now_ms)) =~= s);
    }
}

} // verus!
