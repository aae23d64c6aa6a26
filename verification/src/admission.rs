//! Admission control for VM placement under the nodes' overcommit policies.
//!
//! The preemptible discount is held in thousandths (750 = a preemptible VM counts
//! for 75% of what it asks).
use vstd::prelude::*;

use crate::error::BlixardError;
use crate::proposals::WorkerCapabilities;
use crate::resource_management::{
    sat_sub, ClusterResourceManager, NodeResourceState, OvercommitPolicy,
};
use crate::text::text_eq;
use crate::types::{VmConfig, VmState, VmStatus};

verus! {

/// Settings of admission control.
#[derive(Debug, Clone, Copy)]
pub struct AdmissionControlConfig {
    /// No overcommit at all: allocations stay within the physical resources.
    pub strict_mode: bool,
    /// Policy for nodes without one of their own.
    pub default_overcommit_policy: OvercommitPolicy,
    /// Share of its request a preemptible VM counts for, in thousandths.
    pub preemptible_discount_permille: u32,
    /// Whether resources are kept back for the system.
    pub enable_system_reserve: bool,
}

impl Default for AdmissionControlConfig {
    fn default() -> (c: Self)
        ensures
            !c.strict_mode,
            c.default_overcommit_policy == (OvercommitPolicy {
                cpu_overcommit_permille: 2000,
                memory_overcommit_permille: 1200,
                disk_overcommit_permille: 1100,
                enforce_hard_limits: true,
                system_reserve_permille: 150,
            }),
            c.preemptible_discount_permille == 750,
            c.enable_system_reserve,
    {
        AdmissionControlConfig {
            strict_mode: false,
            default_overcommit_policy: OvercommitPolicy::moderate(),
            preemptible_discount_permille: 750,
            enable_system_reserve: true,
        }
    }
}

/// Disk every VM is taken to need, in GB.
pub const VM_DISK_GB: u64 = 5;

/// `amount` scaled by `pm` thousandths, rounded down and capped at `max`.
pub open spec fn discounted(amount: nat, pm: nat, max: nat) -> nat {
    let v = amount * pm / 1000;
    if v > max {
        max
    } else {
        v
    }
}

/// What a VM counts for on a node: `(cpu, memory_mb, disk_gb)`; a preemptible VM
/// counts for its discounted CPU and memory.
pub open spec fn vm_demand(c: AdmissionControlConfig, vm: VmConfig) -> (nat, nat, nat) {
    if vm.preemptible {
        (
            discounted(vm.vcpus as nat, c.preemptible_discount_permille as nat, u32::MAX as nat),
            discounted(vm.memory as nat, c.preemptible_discount_permille as nat, u64::MAX as nat),
            VM_DISK_GB as nat,
        )
    } else {
        (vm.vcpus as nat, vm.memory as nat, VM_DISK_GB as nat)
    }
}

/// What a VM counts for: a VM that is not preemptible counts for its full CPU and
/// memory; a preemptible one for its CPU and its memory each scaled by the same
/// discount (in thousandths, rounded down, capped at the type's largest value),
/// so with a discount below 1000 its memory of at least 1000 MB counts for less
/// than it asks. Every VM counts for `VM_DISK_GB` of disk.
pub proof fn lemma_vm_demand_discounts_preemptible(c: AdmissionControlConfig, vm: VmConfig)
    ensures
        !vm.preemptible ==> vm_demand(c, vm) == (vm.vcpus as nat, vm.memory as nat, 5nat),
        vm.preemptible ==> {
            let pm = c.preemptible_discount_permille as int;
            &&& vm.vcpus * pm / 1000 <= u32::MAX ==> vm_demand(c, vm).0 == vm.vcpus * pm / 1000
            &&& vm.memory * pm / 1000 <= u64::MAX ==> vm_demand(c, vm).1 == vm.memory * pm / 1000
            &&& vm_demand(c, vm).0 <= vm.vcpus * pm / 1000
            &&& vm_demand(c, vm).1 <= vm.memory * pm / 1000
            &&& vm_demand(c, vm).2 == 5
        },
        vm.preemptible && c.preemptible_discount_permille < 1000 && vm.memory >= 1000 ==> vm_demand(c, vm).1
            < vm.memory,
        vm.preemptible && c.preemptible_discount_permille < 1000 && vm.vcpus >= 1000 ==> vm_demand(c, vm).0
            < vm.vcpus,
{
    if vm.preemptible && c.preemptible_discount_permille < 1000 {
        let pm = c.preemptible_discount_permille as int;
        assert(vm.memory * pm / 1000 < vm.memory || vm.memory < 1000) by (nonlinear_arith)
            requires
                0 <= pm < 1000,
                vm.memory >= 0,
        ;
        assert(vm.vcpus * pm / 1000 < vm.vcpus || vm.vcpus < 1000) by (nonlinear_arith)
            requires
                0 <= pm < 1000,
                vm.vcpus >= 0,
        ;
    }
}

/// The features a node must offer to host VMs.
pub open spec fn has_feature(features: Seq<String>, f: Seq<char>) -> bool {
    exists|i: int| 0 <= i < features.len() && (#[trigger] features[i])@ == f
}

/// The capabilities last recorded for a worker.
pub open spec fn last_worker(ws: Seq<(u64, WorkerCapabilities)>, id: u64) -> Option<WorkerCapabilities>
    decreases ws.len(),
{
    if ws.len() == 0 {
        None
    } else if ws.last().0 == id {
        Some(ws.last().1)
    } else {
        last_worker(ws.drop_last(), id)
    }
}

/// Whether a VM holds resources: everything but stopped and failed VMs.
pub open spec fn vm_is_active(vm: VmState) -> bool {
    vm.status != VmStatus::Stopped && vm.status != VmStatus::Failed
}

/// Whether a node is registered.
pub open spec fn has_node(nodes: Seq<(u64, NodeResourceState)>, node_id: u64) -> bool {
    exists|i: int| 0 <= i < nodes.len() && (#[trigger] nodes[i]).0 == node_id
}

fn scale_down(amount: u64, pm: u32, max: u64) -> (r: u64)
    ensures
        r == discounted(amount as nat, pm as nat, max as nat),
{
    proof {
        assert(amount * pm <= u64::MAX * u32::MAX) by (nonlinear_arith)
            requires
                amount <= u64::MAX,
                pm <= u32::MAX,
        ;
    }
    let v: u128 = (amount as u128) * (pm as u128) / 1000;
    if v > max as u128 {
        max
    } else {
        v as u64
    }
}

fn has_microvm(features: &Vec<String>) -> (r: bool)
    ensures
        r == has_feature(features@, "microvm"@),
{
    let mut i: usize = 0;
    while i < features.len()
        invariant
            i <= features@.len(),
            forall|k: int| 0 <= k < i ==> features@[k]@ != "microvm"@,
        decreases features@.len() - i,
    {
        if text_eq(features[i].as_str(), "microvm") {
            return true;
        }
        i = i + 1;
    }
    false
}

/// The refusal for a request that does not fit, with what the node has left.
pub open spec fn shortage(d: (nat, nat, nat), avail: (nat, nat, nat)) -> BlixardError {
    BlixardError::InsufficientResources {
        requested_cpu: d.0 as u64,
        requested_memory_mb: d.1 as u64,
        requested_disk_gb: d.2 as u64,
        available_cpu: avail.0 as u64,
        available_memory_mb: avail.1 as u64,
        available_disk_gb: avail.2 as u64,
    }
}

/// What admission decides for a VM on a node with state `s` and the given capabilities.
pub open spec fn admission_outcome(
    c: AdmissionControlConfig,
    s: NodeResourceState,
    vm: VmConfig,
    node_id: u64,
    caps: Option<WorkerCapabilities>,
) -> Result<(), BlixardError> {
    let d = vm_demand(c, vm);
    let phys = s.physical_resources;
    let alloc = s.allocated_resources;
    let physical_left = (
        sat_sub(phys.cpu_cores as nat, alloc.cpu_cores as nat),
        sat_sub(phys.memory_mb as nat, alloc.memory_mb as nat),
        sat_sub(phys.disk_gb as nat, alloc.disk_gb as nat),
    );
    let available = (s.spec_available_cpu(), s.spec_available_memory(), s.spec_available_disk());
    if c.strict_mode && (alloc.cpu_cores + d.0 > phys.cpu_cores || alloc.memory_mb + d.1
        > phys.memory_mb) {
        Err(shortage(d, physical_left))
    } else if !c.strict_mode && !s.spec_can_allocate(d.0, d.1, d.2) {
        Err(shortage(d, available))
    } else {
        match caps {
            None => Err(BlixardError::NodeNotFound { node_id }),
            Some(w) => if has_feature(w.features@, "microvm"@) {
                Ok(())
            } else {
                Err(
                    BlixardError::SchedulingError {
                        node_id,
                        message: "node does not support required feature: microvm",
                    },
                )
            },
        }
    }
}

impl AdmissionControlConfig {
    /// What the VM counts for: `(cpu, memory_mb, disk_gb)`.
    pub fn requirements(&self, vm: &VmConfig) -> (r: (u32, u64, u64))
        ensures
            (r.0 as nat, r.1 as nat, r.2 as nat) == vm_demand(*self, *vm),
            !vm.preemptible ==> r.0 == vm.vcpus && r.1 == vm.memory && r.2 == VM_DISK_GB,
            vm.preemptible && vm.memory * self.preemptible_discount_permille / 1000 <= u64::MAX ==> r.1
                == vm.memory * self.preemptible_discount_permille / 1000,
            vm.preemptible && vm.vcpus * self.preemptible_discount_permille / 1000 <= u32::MAX ==> r.0
                == vm.vcpus * self.preemptible_discount_permille / 1000,
            vm.preemptible ==> r.2 == VM_DISK_GB,
    {
        proof {
            lemma_vm_demand_discounts_preemptible(*self, *vm);
        }
        if vm.preemptible {
            let cpu = scale_down(vm.vcpus as u64, self.preemptible_discount_permille, u32::MAX as u64);
            let memory = scale_down(vm.memory as u64, self.preemptible_discount_permille, u64::MAX);
            (cpu as u32, memory, VM_DISK_GB)
        } else {
            (vm.vcpus, vm.memory as u64, VM_DISK_GB)
        }
    }

    /// Decides whether a VM may be placed on the node with state `state`: in strict
    /// mode it must fit in the physical CPU and memory left, otherwise in what the
    /// overcommit policy leaves; and the node (with capabilities `caps`, `None` when
    /// it is not a known worker) must offer the `microvm` feature.
    pub fn check_admission(
        &self,
        state: &NodeResourceState,
        vm: &VmConfig,
        node_id: u64,
        caps: Option<&WorkerCapabilities>,
    ) -> (r: Result<(), BlixardError>)
        ensures
            r == admission_outcome(*self, *state, *vm, node_id, match caps {
                Some(w) => Some(*w),
                None => None,
            }),
    {
        let (cpu, memory, disk) = self.requirements(vm);
        let phys = &state.physical_resources;
        let alloc = &state.allocated_resources;
        if self.strict_mode {
            if (alloc.cpu_cores as u64) + (cpu as u64) > phys.cpu_cores as u64 || (alloc.memory_mb
                as u128) + (memory as u128) > phys.memory_mb as u128 {
                return Err(
                    BlixardError::InsufficientResources {
                        requested_cpu: cpu as u64,
                        requested_memory_mb: memory,
                        requested_disk_gb: disk,
                        available_cpu: phys.cpu_cores.saturating_sub(alloc.cpu_cores) as u64,
                        available_memory_mb: phys.memory_mb.saturating_sub(alloc.memory_mb),
                        available_disk_gb: phys.disk_gb.saturating_sub(alloc.disk_gb),
                    },
                );
            }
        } else {
            if !state.can_allocate(cpu, memory, disk) {
                let (a_cpu, a_mem, a_disk) = state.available_resources();
                return Err(
                    BlixardError::InsufficientResources {
                        requested_cpu: cpu as u64,
                        requested_memory_mb: memory,
                        requested_disk_gb: disk,
                        available_cpu: a_cpu as u64,
                        available_memory_mb: a_mem,
                        available_disk_gb: a_disk,
                    },
                );
            }
        }
        match caps {
            None => Err(BlixardError::NodeNotFound { node_id }),
            Some(w) => {
                if has_microvm(&w.features) {
                    Ok(())
                } else {
                    Err(
                        BlixardError::SchedulingError {
                            node_id,
                            message: "node does not support required feature: microvm",
                        },
                    )
                }
            },
        }
    }
}


/// Allocation of a node as a triple.
pub open spec fn alloc_of(s: NodeResourceState) -> (nat, nat, nat) {
    (
        s.allocated_resources.cpu_cores as nat,
        s.allocated_resources.memory_mb as nat,
        s.allocated_resources.disk_gb as nat,
    )
}

/// The demands, in order, of the active VMs recorded on `node_id`.
pub open spec fn node_demands(c: AdmissionControlConfig, vms: Seq<VmState>, node_id: u64) -> Seq<(nat, nat, nat)>
    decreases vms.len(),
{
    if vms.len() == 0 {
        Seq::empty()
    } else {
        let rest = node_demands(c, vms.drop_last(), node_id);
        if vm_is_active(vms.last()) && vms.last().node_id == node_id {
            rest.push(vm_demand(c, vms.last().config))
        } else {
            rest
        }
    }
}

/// The allocation of a node after placing demands one after another, each only
/// where it fits in what the node has left.
pub open spec fn placed(s: NodeResourceState, ds: Seq<(nat, nat, nat)>, start: (nat, nat, nat)) -> (nat, nat, nat)
    decreases ds.len(),
{
    if ds.len() == 0 {
        start
    } else {
        let a = placed(s, ds.drop_last(), start);
        let d = ds.last();
        if d.0 <= sat_sub(s.spec_effective_cpu(), a.0) && d.1 <= sat_sub(s.spec_effective_memory(), a.1)
            && d.2 <= sat_sub(s.spec_effective_disk(), a.2) {
            (a.0 + d.0, a.1 + d.1, a.2 + d.2)
        } else {
            a
        }
    }
}

/// Whether node states agree in everything but their allocations.
pub open spec fn same_but_allocation(a: NodeResourceState, b: NodeResourceState) -> bool {
    &&& a.physical_resources == b.physical_resources
    &&& a.overcommit_policy == b.overcommit_policy
    &&& a.reservations@ == b.reservations@
}

/// Registers every worker with its capabilities (a later entry for the same node wins).
pub fn register_workers(manager: &mut ClusterResourceManager, workers: &Vec<(u64, WorkerCapabilities)>)
    requires
        old(manager).wf(),
    ensures
        final(manager).wf(),
        final(manager).default_policy == old(manager).default_policy,
        forall|id: u64|
            has_node(final(manager).node_states@, id) <==> (has_node(old(manager).node_states@, id)
                || last_worker(workers@, id) is Some),
        forall|i: int|
            0 <= i < final(manager).node_states@.len() ==> {
                let e = #[trigger] final(manager).node_states@[i];
                match last_worker(workers@, e.0) {
                    Some(w) => {
                        &&& e.1.physical_resources.cpu_cores == w.cpu_cores
                        &&& e.1.physical_resources.memory_mb == w.memory_mb
                        &&& e.1.physical_resources.disk_gb == w.disk_gb
                        &&& e.1.overcommit_policy == old(manager).default_policy
                        &&& e.1.reservations@.len() == 0
                    },
                    None => exists|j: int|
                        0 <= j < old(manager).node_states@.len() && old(manager).node_states@[j]
                            == e,
                }
            },
{
    let ghost start = manager.node_states@;
    let mut k: usize = 0;
    while k < workers.len()
        invariant
            k <= workers@.len(),
            manager.wf(),
            manager.default_policy == old(manager).default_policy,
            start == old(manager).node_states@,
            forall|id: u64|
                has_node(manager.node_states@, id) <==> (has_node(start, id) || last_worker(
                    workers@.take(k as int),
                    id,
                ) is Some),
            forall|i: int|
                0 <= i < manager.node_states@.len() ==> {
                    let e = #[trigger] manager.node_states@[i];
                    match last_worker(workers@.take(k as int), e.0) {
                        Some(w) => {
                            &&& e.1.physical_resources.cpu_cores == w.cpu_cores
                            &&& e.1.physical_resources.memory_mb == w.memory_mb
                            &&& e.1.physical_resources.disk_gb == w.disk_gb
                            &&& e.1.overcommit_policy == old(manager).default_policy
                            &&& e.1.reservations@.len() == 0
                        },
                        None => exists|j: int| 0 <= j < start.len() && start[j] == e,
                    }
                },
        decreases workers@.len() - k,
    {
        let ghost before = manager.node_states@;
        let id = workers[k].0;
        let caps = &workers[k].1;
        manager.register_node(id, caps.cpu_cores, caps.memory_mb, caps.disk_gb);
        proof {
            let t = workers@.take(k as int + 1);
            assert(t.drop_last() =~= workers@.take(k as int));
            assert(t.last() == workers@[k as int]);
            let after = manager.node_states@;
            let ni = choose|i: int|
                0 <= i < after.len() && after[i].0 == id && after[i].1.physical_resources == (
                crate::resource_management::PhysicalResources {
                    cpu_cores: caps.cpu_cores,
                    memory_mb: caps.memory_mb,
                    disk_gb: caps.disk_gb,
                }) && after[i].1.allocated_resources == (
                crate::resource_management::AllocatedResources {
                    cpu_cores: 0,
                    memory_mb: 0,
                    disk_gb: 0,
                }) && after[i].1.reservations@.len() == 0 && after[i].1.overcommit_policy
                    == old(manager).default_policy && after == (if i < before.len() {
                    before.update(i, after[i])
                } else {
                    before.push(after[i])
                });
            assert forall|x: u64| has_node(after, x) <==> (has_node(start, x) || last_worker(
                t,
                x,
            ) is Some) by {
                if x == id {
                    assert(after[ni].0 == x);
                } else {
                    if has_node(after, x) {
                        let q = choose|q: int| 0 <= q < after.len() && (#[trigger] after[q]).0 == x;
                        if q < before.len() {
                            assert(before[q] == after[q]);
                        }
                    }
                    if has_node(before, x) {
                        let q = choose|q: int| 0 <= q < before.len() && (#[trigger] before[q]).0 == x;
                        assert(after[q] == before[q]);
                    }
                }
            }
            assert forall|i: int| 0 <= i < after.len() implies {
                let e = #[trigger] after[i];
                match last_worker(t, e.0) {
                    Some(w) => {
                        &&& e.1.physical_resources.cpu_cores == w.cpu_cores
                        &&& e.1.physical_resources.memory_mb == w.memory_mb
                        &&& e.1.physical_resources.disk_gb == w.disk_gb
                        &&& e.1.overcommit_policy == old(manager).default_policy
                        &&& e.1.reservations@.len() == 0
                    },
                    None => exists|j: int| 0 <= j < start.len() && start[j] == e,
                }
            } by {
                if after[i].0 == id {
                    assert(i == ni) by {
                        if i != ni {
                            let (a, b) = if i < ni { (i, ni) } else { (ni, i) };
                            assert(after[a].0 != after[b].0);
                        }
                    }
                } else {
                    assert(i < before.len());
                    assert(after[i] == before[i]);
                }
            }
        }
        k = k + 1;
    }
    proof {
        assert(workers@.take(workers@.len() as int) =~= workers@);
    }
}


/// Drops every allocation and reservation, keeping nodes, resources and policies.
pub fn clear_allocations(manager: &mut ClusterResourceManager)
    requires
        old(manager).wf(),
    ensures
        final(manager).wf(),
        final(manager).default_policy == old(manager).default_policy,
        final(manager).node_states@.len() == old(manager).node_states@.len(),
        forall|i: int|
            0 <= i < final(manager).node_states@.len() ==> {
                let e = #[trigger] final(manager).node_states@[i];
                let o = old(manager).node_states@[i];
                &&& e.0 == o.0
                &&& e.1.physical_resources == o.1.physical_resources
                &&& e.1.overcommit_policy == o.1.overcommit_policy
                &&& e.1.reservations@.len() == 0
                &&& alloc_of(e.1) == (0nat, 0nat, 0nat)
            },
{
    let mut i: usize = 0;
    let n = manager.node_states.len();
    while i < n
        invariant
            n == manager.node_states@.len(),
            n == old(manager).node_states@.len(),
            i <= n,
            manager.default_policy == old(manager).default_policy,
            forall|k: int|
                0 <= k < n ==> (#[trigger] manager.node_states@[k]).0 == old(manager).node_states@[k].0,
            forall|k: int|
                0 <= k < n ==> (#[trigger] manager.node_states@[k]).1.physical_resources == old(
                    manager,
                ).node_states@[k].1.physical_resources
                    && manager.node_states@[k].1.overcommit_policy == old(manager).node_states@[k].1.overcommit_policy,
            forall|k: int|
                0 <= k < i ==> (#[trigger] manager.node_states@[k]).1.reservations@.len() == 0
                    && alloc_of(manager.node_states@[k].1) == (0nat, 0nat, 0nat),
            forall|k: int| i <= k < n ==> (#[trigger] manager.node_states@[k]) == old(manager).node_states@[k],
            forall|a: int, b: int|
                0 <= a < b < n ==> manager.node_states@[a].0 != manager.node_states@[b].0,
        decreases n - i,
    {
        let ghost before = manager.node_states@;
        let entry = vstd::std_specs::vec::vec_index_mut(&mut manager.node_states, i);
        entry.1.allocated_resources = crate::resource_management::AllocatedResources {
            cpu_cores: 0,
            memory_mb: 0,
            disk_gb: 0,
        };
        entry.1.reservations.clear();
        proof {
            assert forall|k: int| 0 <= k < n && k != i implies manager.node_states@[k] == before[k] by {}
        }
        i = i + 1;
    }
    proof {
        assert forall|k: int| 0 <= k < n implies (#[trigger] manager.node_states@[k]).1.wf() by {
            assert(manager.node_states@[k].1.reservations@.len() == 0);
        }
    }
}

/// Places the active VMs on their nodes one after another; a VM that does not fit,
/// or whose node is unknown, is left out.
pub fn place_vms(manager: &mut ClusterResourceManager, config: &AdmissionControlConfig, vms: &Vec<VmState>)
    requires
        old(manager).wf(),
    ensures
        final(manager).wf(),
        final(manager).default_policy == old(manager).default_policy,
        final(manager).node_states@.len() == old(manager).node_states@.len(),
        forall|i: int|
            0 <= i < final(manager).node_states@.len() ==> {
                let e = #[trigger] final(manager).node_states@[i];
                let o = old(manager).node_states@[i];
                &&& e.0 == o.0
                &&& same_but_allocation(e.1, o.1)
                &&& alloc_of(e.1) == placed(o.1, node_demands(*config, vms@, o.0), alloc_of(o.1))
            },
{
    let ghost start = manager.node_states@;
    let n = manager.node_states.len();
    let mut k: usize = 0;
    while k < vms.len()
        invariant
            k <= vms@.len(),
            manager.wf(),
            start == old(manager).node_states@,
            n == start.len(),
            manager.node_states@.len() == n,
            manager.default_policy == old(manager).default_policy,
            forall|i: int|
                0 <= i < n ==> {
                    let e = #[trigger] manager.node_states@[i];
                    &&& e.0 == start[i].0
                    &&& same_but_allocation(e.1, start[i].1)
                    &&& alloc_of(e.1) == placed(
                        start[i].1,
                        node_demands(*config, vms@.take(k as int), start[i].0),
                        alloc_of(start[i].1),
                    )
                },
        decreases vms@.len() - k,
    {
        let ghost before = manager.node_states@;
        let vm = &vms[k];
        proof {
            assert(vms@.take(k as int + 1).drop_last() =~= vms@.take(k as int));
            assert(vms@.take(k as int + 1).last() == vms@[k as int]);
        }
        if vm.status != VmStatus::Stopped && vm.status != VmStatus::Failed {
            let (cpu, memory, disk) = config.requirements(&vm.config);
            match manager.get_node_state_mut(vm.node_id) {
                Some(state) => {
                    let ghost s0 = *state;
                    let _ = state.allocate(cpu, memory, disk);
                    proof {
                        let after = manager.node_states@;
                        let j = choose|j: int|
                            0 <= j < before.len() && before[j].0 == vm.node_id && before[j].1 == s0
                                && after == before.update(j, (vm.node_id, after[j].1));
                        assert forall|i: int| 0 <= i < n implies {
                            let e = #[trigger] after[i];
                            &&& e.0 == start[i].0
                            &&& same_but_allocation(e.1, start[i].1)
                            &&& alloc_of(e.1) == placed(
                                start[i].1,
                                node_demands(*config, vms@.take(k as int + 1), start[i].0),
                                alloc_of(start[i].1),
                            )
                        } by {
                            assert(before[i] == before[i]);
                            if i == j {
                                let ds = node_demands(*config, vms@.take(k as int), start[i].0);
                                let ds1 = node_demands(*config, vms@.take(k as int + 1), start[i].0);
                                assert(ds1 == ds.push(vm_demand(*config, vm.config)));
                                assert(ds1.drop_last() =~= ds);
                                assert(s0.spec_effective_cpu() == start[i].1.spec_effective_cpu());
                                assert(s0.spec_effective_memory() == start[i].1.spec_effective_memory());
                                assert(s0.spec_effective_disk() == start[i].1.spec_effective_disk());
                            }
                            if i != j {
                                assert(after[i] == before[i]);
                                assert(before[i].0 != before[j].0) by {
                                    if i < j {
                                        assert(before[i].0 != before[j].0);
                                    } else {
                                        assert(before[j].0 != before[i].0);
                                    }
                                }
                            }
                        }
                        assert forall|i: int| 0 <= i < after.len() implies (#[trigger] after[i]).1.wf() by {
                            if i != j {
                                assert(after[i] == before[i]);
                            }
                        }
                    }
                },
                None => {
                    proof {
                        assert forall|i: int| 0 <= i < n implies {
                            let e = #[trigger] manager.node_states@[i];
                            alloc_of(e.1) == placed(
                                start[i].1,
                                node_demands(*config, vms@.take(k as int + 1), start[i].0),
                                alloc_of(start[i].1),
                            )
                        } by {
                            assert(before[i].0 != vm.node_id);
                        }
                    }
                },
            }
        }
        k = k + 1;
    }
    proof {
        assert(vms@.take(vms@.len() as int) =~= vms@);
    }
}


/// The capabilities recorded last for a worker, if any.
pub fn find_worker(workers: &Vec<(u64, WorkerCapabilities)>, node_id: u64) -> (r: Option<&WorkerCapabilities>)
    ensures
        match r {
            Some(w) => last_worker(workers@, node_id) == Some(*w),
            None => last_worker(workers@, node_id) is None,
        },
{
    let mut i: usize = workers.len();
    proof {
        assert(workers@.take(i as int) =~= workers@);
    }
    while i > 0
        invariant
            i <= workers@.len(),
            last_worker(workers@, node_id) == last_worker(workers@.take(i as int), node_id),
        decreases i,
    {
        proof {
            assert(workers@.take(i as int).drop_last() =~= workers@.take(i as int - 1));
        }
        if workers[i - 1].0 == node_id {
            return Some(&workers[i - 1].1);
        }
        i = i - 1;
    }
    None
}

/// Whether a cluster state is the one rebuilt from recorded workers and VMs on top
/// of `before`: every worker registered with its capabilities, every node emptied,
/// then the active VMs placed where they fit.
pub open spec fn rebuilt(
    c: AdmissionControlConfig,
    before: ClusterResourceManager,
    after: ClusterResourceManager,
    workers: Seq<(u64, WorkerCapabilities)>,
    vms: Seq<VmState>,
) -> bool {
    &&& after.wf()
    &&& after.default_policy == before.default_policy
    &&& forall|id: u64|
        has_node(after.node_states@, id) <==> (has_node(before.node_states@, id) || last_worker(
            workers,
            id,
        ) is Some)
    &&& forall|i: int|
        0 <= i < after.node_states@.len() ==> {
            let e = #[trigger] after.node_states@[i];
            &&& e.1.reservations@.len() == 0
            &&& alloc_of(e.1) == placed(e.1, node_demands(c, vms, e.0), (0nat, 0nat, 0nat))
            &&& match last_worker(workers, e.0) {
                Some(w) => {
                    &&& e.1.physical_resources.cpu_cores == w.cpu_cores
                    &&& e.1.physical_resources.memory_mb == w.memory_mb
                    &&& e.1.physical_resources.disk_gb == w.disk_gb
                    &&& e.1.overcommit_policy == before.default_policy
                },
                None => exists|j: int|
                    0 <= j < before.node_states@.len() && before.node_states@[j].0 == e.0
                        && before.node_states@[j].1.physical_resources == e.1.physical_resources
                        && before.node_states@[j].1.overcommit_policy == e.1.overcommit_policy,
            }
        }
}

proof fn lemma_placed_same_capacity(s: NodeResourceState, t: NodeResourceState, ds: Seq<(nat, nat, nat)>, a: (nat, nat, nat))
    requires
        s.physical_resources == t.physical_resources,
        s.overcommit_policy == t.overcommit_policy,
    ensures
        placed(s, ds, a) == placed(t, ds, a),
    decreases ds.len(),
{
    if ds.len() > 0 {
        lemma_placed_same_capacity(s, t, ds.drop_last(), a);
    }
}

impl AdmissionControlConfig {
    /// Rebuilds the cluster's resource state from the recorded workers and VMs.
    pub fn sync_resource_state(
        &self,
        manager: &mut ClusterResourceManager,
        workers: &Vec<(u64, WorkerCapabilities)>,
        vms: &Vec<VmState>,
    )
        requires
            old(manager).wf(),
        ensures
            rebuilt(*self, *old(manager), *final(manager), workers@, vms@),
    {
        let ghost m0 = *manager;
        register_workers(manager, workers);
        let ghost m1 = manager.node_states@;
        clear_allocations(manager);
        let ghost m2 = manager.node_states@;
        place_vms(manager, self, vms);
        proof {
            let m3 = manager.node_states@;
            assert forall|id: u64| has_node(m3, id) <==> has_node(m1, id) by {
                if has_node(m3, id) {
                    let q = choose|q: int| 0 <= q < m3.len() && (#[trigger] m3[q]).0 == id;
                    assert(m1[q].0 == id);
                }
                if has_node(m1, id) {
                    let q = choose|q: int| 0 <= q < m1.len() && (#[trigger] m1[q]).0 == id;
                    assert(m3[q].0 == id);
                }
            }
            assert forall|i: int| 0 <= i < m3.len() implies {
                let e = #[trigger] m3[i];
                &&& e.1.reservations@.len() == 0
                &&& alloc_of(e.1) == placed(e.1, node_demands(*self, vms@, e.0), (0nat, 0nat, 0nat))
                &&& match last_worker(workers@, e.0) {
                    Some(w) => {
                        &&& e.1.physical_resources.cpu_cores == w.cpu_cores
                        &&& e.1.physical_resources.memory_mb == w.memory_mb
                        &&& e.1.physical_resources.disk_gb == w.disk_gb
                        &&& e.1.overcommit_policy == m0.default_policy
                    },
                    None => exists|j: int|
                        0 <= j < m0.node_states@.len() && m0.node_states@[j].0 == e.0
                            && m0.node_states@[j].1.physical_resources == e.1.physical_resources
                            && m0.node_states@[j].1.overcommit_policy == e.1.overcommit_policy,
                }
            } by {
                assert(m2[i] == m2[i]);
                assert(m1[i] == m1[i]);
                lemma_placed_same_capacity(m3[i].1, m2[i].1, node_demands(*self, vms@, m3[i].0), (0nat, 0nat, 0nat));
                match last_worker(workers@, m1[i].0) {
                    Some(w) => {},
                    None => {
                        let j = choose|j: int| 0 <= j < m0.node_states@.len() && m0.node_states@[j] == m1[i];
                        assert(m0.node_states@[j].0 == m3[i].0);
                    },
                }
            }
        }
    }

    /// Admission of a VM onto `target_node_id`: the cluster state is first rebuilt
    /// from the recorded workers and VMs, then the node must be known and the VM
    /// admitted on it (see [`AdmissionControlConfig::check_admission`]).
    pub fn validate_vm_admission(
        &self,
        manager: &mut ClusterResourceManager,
        workers: &Vec<(u64, WorkerCapabilities)>,
        vms: &Vec<VmState>,
        vm: &VmConfig,
        target_node_id: u64,
    ) -> (r: Result<(), BlixardError>)
        requires
            old(manager).wf(),
        ensures
            rebuilt(*self, *old(manager), *final(manager), workers@, vms@),
            !has_node(final(manager).node_states@, target_node_id) ==> r == Err::<(), BlixardError>(
                BlixardError::NodeNotFound { node_id: target_node_id },
            ),
            forall|i: int|
                0 <= i < final(manager).node_states@.len() && final(manager).node_states@[i].0
                    == target_node_id ==> r == admission_outcome(
                    *self,
                    #[trigger] final(manager).node_states@[i].1,
                    *vm,
                    target_node_id,
                    last_worker(workers@, target_node_id),
                ),
    {
        self.sync_resource_state(manager, workers, vms);
        let state = match manager.get_node_state(target_node_id) {
            Some(s) => s,
            None => {
                return Err(BlixardError::NodeNotFound { node_id: target_node_id });
            },
        };
        let caps = find_worker(workers, target_node_id);
        let r = self.check_admission(state, vm, target_node_id, caps);
        proof {
            let ns = manager.node_states@;
            let w = choose|w: int| 0 <= w < ns.len() && ns[w].0 == target_node_id && ns[w].1 == *state;
            assert forall|i: int| 0 <= i < ns.len() && ns[i].0 == target_node_id implies ns[i].1 == *state by {
                if i != w {
                    let (a, b) = if i < w { (i, w) } else { (w, i) };
                    assert(ns[a].0 != ns[b].0);
                }
            }
        }
        r
    }

    /// Allocates what a VM counts for on its node after admission.
    pub fn allocate_vm_resources(&self, manager: &mut ClusterResourceManager, vm: &VmConfig, node_id: u64) -> (r: Result<(), BlixardError>)
        requires
            old(manager).wf(),
        ensures
            final(manager).wf(),
            !has_node(old(manager).node_states@, node_id) ==> r == Err::<(), BlixardError>(
                BlixardError::NodeNotFound { node_id },
            ) && final(manager).node_states@ == old(manager).node_states@,
            forall|i: int|
                0 <= i < old(manager).node_states@.len() && old(manager).node_states@[i].0 == node_id
                    ==> {
                    let s = #[trigger] old(manager).node_states@[i].1;
                    let d = vm_demand(*self, *vm);
                    let t = final(manager).node_states@[i].1;
                    &&& final(manager).node_states@.len() == old(manager).node_states@.len()
                    &&& same_but_allocation(t, s)
                    &&& (r is Ok <==> s.spec_can_allocate(d.0, d.1, d.2))
                    &&& r is Ok ==> alloc_of(t) == (alloc_of(s).0 + d.0, alloc_of(s).1 + d.1, alloc_of(s).2 + d.2)
                    &&& r is Err ==> alloc_of(t) == alloc_of(s) && r->Err_0 is InsufficientResources
                },
    {
        let (cpu, memory, disk) = self.requirements(vm);
        let ghost before = manager.node_states@;
        match manager.get_node_state_mut(node_id) {
            Some(state) => {
                let r = state.allocate(cpu, memory, disk);
                proof {
                    let after = manager.node_states@;
                    let j = choose|j: int|
                        0 <= j < before.len() && before[j].0 == node_id
                            && after == before.update(j, (node_id, after[j].1));
                    assert forall|i: int| 0 <= i < before.len() && before[i].0 == node_id implies i == j by {
                        if i != j {
                            let (a, b) = if i < j { (i, j) } else { (j, i) };
                            assert(before[a].0 != before[b].0);
                        }
                    }
                    assert forall|i: int| 0 <= i < after.len() implies (#[trigger] after[i]).1.wf() by {
                        if i != j {
                            assert(after[i] == before[i]);
                        }
                    }
                    assert forall|a: int, b: int| 0 <= a < b < after.len() implies after[a].0 != after[b].0 by {
                        assert(before[a].0 != before[b].0);
                    }
                }
                r
            },
            None => Err(BlixardError::NodeNotFound { node_id }),
        }
    }

    /// Releases what a VM counts for on its node; nothing happens for an unknown node.
    pub fn release_vm_resources(&self, manager: &mut ClusterResourceManager, vm: &VmConfig, node_id: u64)
        requires
            old(manager).wf(),
        ensures
            final(manager).wf(),
            final(manager).node_states@.len() == old(manager).node_states@.len(),
            !has_node(old(manager).node_states@, node_id) ==> final(manager).node_states@ == old(
                manager,
            ).node_states@,
            forall|i: int|
                0 <= i < old(manager).node_states@.len() ==> {
                    let s = #[trigger] old(manager).node_states@[i];
                    let t = final(manager).node_states@[i];
                    let d = vm_demand(*self, *vm);
                    &&& t.0 == s.0
                    &&& same_but_allocation(t.1, s.1)
                    &&& s.0 == node_id ==> alloc_of(t.1) == (
                        sat_sub(alloc_of(s.1).0, d.0),
                        sat_sub(alloc_of(s.1).1, d.1),
                        sat_sub(alloc_of(s.1).2, d.2),
                    )
                    &&& s.0 != node_id ==> t == s
                },
    {
        let (cpu, memory, disk) = self.requirements(vm);
        let ghost before = manager.node_states@;
        match manager.get_node_state_mut(node_id) {
            Some(state) => {
                state.release(cpu, memory, disk);
                proof {
                    let after = manager.node_states@;
                    let j = choose|j: int|
                        0 <= j < before.len() && before[j].0 == node_id
                            && after == before.update(j, (node_id, after[j].1));
                    assert forall|i: int| 0 <= i < after.len() implies (#[trigger] after[i]).1.wf() by {
                        if i != j {
                            assert(after[i] == before[i]);
                        }
                    }
                    assert forall|a: int, b: int| 0 <= a < b < after.len() implies after[a].0 != after[b].0 by {
                        assert(before[a].0 != before[b].0);
                    }
                    assert forall|i: int| 0 <= i < before.len() && before[i].0 == node_id implies i == j by {
                        if i != j {
                            let (a, b) = if i < j { (i, j) } else { (j, i) };
                            assert(before[a].0 != before[b].0);
                        }
                    }
                }
            },
            None => {},
        }
    }
}


/// A VM admitted onto a node fits there: under the overcommit policy its allocation
/// succeeds, and in strict mode its CPU and memory stay within the physical ones.
pub proof fn lemma_admitted_fits(
    c: AdmissionControlConfig,
    s: NodeResourceState,
    vm: VmConfig,
    node_id: u64,
    caps: Option<WorkerCapabilities>,
)
    requires
        admission_outcome(c, s, vm, node_id, caps) is Ok,
    ensures
        ({
            let d = vm_demand(c, vm);
            &&& !c.strict_mode ==> s.spec_can_allocate(d.0, d.1, d.2)
            &&& c.strict_mode ==> s.allocated_resources.cpu_cores + d.0 <= s.physical_resources.cpu_cores
                && s.allocated_resources.memory_mb + d.1 <= s.physical_resources.memory_mb
        }),
        caps matches Some(w) && has_feature(w.features@, "microvm"@),
{
}

/// A preemptible VM never counts for more than it asks when the discount is at most
/// one, and a VM that is not preemptible counts for exactly what it asks.
pub proof fn lemma_demand_bounded(c: AdmissionControlConfig, vm: VmConfig)
    requires
        c.preemptible_discount_permille <= 1000,
    ensures
        vm_demand(c, vm).0 <= vm.vcpus,
        vm_demand(c, vm).1 <= vm.memory,
        vm_demand(c, vm).2 == VM_DISK_GB,
        !vm.preemptible ==> vm_demand(c, vm) == (vm.vcpus as nat, vm.memory as nat, VM_DISK_GB as nat),
{
    let pm = c.preemptible_discount_permille as nat;
    assert(vm.vcpus as nat * pm <= vm.vcpus as nat * 1000) by (nonlinear_arith)
        requires
            pm <= 1000,
    ;
    assert(vm.memory as nat * pm <= vm.memory as nat * 1000) by (nonlinear_arith)
        requires
            pm <= 1000,
    ;
}

} // verus!
