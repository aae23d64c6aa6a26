//! CPU resource manager: vCPU allocation onto physical cores, exclusive pinning
//! and usage tracking.
use vstd::prelude::*;
use vstd::string::*;

use crate::cpu_cores::{
    find_available_cores, load_orders, select_cores, table_wf,
    valid_core_ids, CoreUsage, CpuSchedulingPolicy,
};
use crate::decimal::{decimal, signed_decimal, to_decimal, to_signed_decimal};
use crate::error::BlixardError;
use crate::resource_manager::{
    lookup, metadata_get, AllocationStatus, HealthView, ResourceAllocation,
    ResourceAllocationRequest, ResourceLimits, ResourceManagerConfig, ResourceManagerConfigBuilder,
    ResourceManagerHealth, ResourceType, ResourceTypeView, ResourceUsage,
};
use crate::text::text_eq;

verus! {

/// A CPU allocation with the cores assigned to it.
#[derive(Debug, Clone)]
pub struct CpuAllocation {
    pub base: ResourceAllocation,
    pub assigned_cores: Vec<u32>,
    pub affinity_mask: Option<u64>,
    pub scheduling_policy: CpuSchedulingPolicy,
    pub exclusive: bool,
}

/// Runtime state and counters of a manager.
#[derive(Debug, Clone)]
pub struct ManagerState {
    pub is_running: bool,
    pub health: ResourceManagerHealth,
    pub last_health_check_ms: i64,
    pub total_allocations: u64,
    pub total_deallocations: u64,
    pub failed_allocations: u64,
}

impl ManagerState {
    /// Not running, stopped, no counts.
    pub fn initial(now_ms: i64) -> (s: ManagerState)
        ensures
            !s.is_running,
            s.health@ == HealthView::Stopped,
            s.last_health_check_ms == now_ms,
            s.total_allocations == 0,
            s.total_deallocations == 0,
            s.failed_allocations == 0,
    {
        ManagerState {
            is_running: false,
            health: ResourceManagerHealth::Stopped,
            last_health_check_ms: now_ms,
            total_allocations: 0,
            total_deallocations: 0,
            failed_allocations: 0,
        }
    }
}

/// CPU resource manager.
pub struct CpuResourceManager {
    pub config: ResourceManagerConfig,
    /// Allocations; no two share an allocation id.
    pub allocations: Vec<CpuAllocation>,
    /// One entry per physical core, indexed by core id.
    pub core_usage: Vec<CoreUsage>,
    pub usage: ResourceUsage,
    pub state: ManagerState,
    pub scheduling_policy: CpuSchedulingPolicy,
    pub total_cores: u32,
}

/// Whether the core table after assigning `ids` follows from the table before.
pub open spec fn cores_assigned(before: Seq<CoreUsage>, after: Seq<CoreUsage>, ids: Seq<u32>, exclusive: bool, tenant: String) -> bool {
    &&& after.len() == before.len()
    &&& forall|c: int|
        #![trigger after[c]]
        0 <= c < before.len() ==> if ids.contains(c as u32) {
            &&& after[c].core_id == before[c].core_id
            &&& after[c].utilization_permille == before[c].utilization_permille
            &&& if exclusive {
                &&& after[c].exclusive
                &&& after[c].exclusive_tenant == Some(tenant)
                &&& after[c].allocated_vcpus == 1
            } else {
                &&& after[c].exclusive == before[c].exclusive
                &&& after[c].exclusive_tenant == before[c].exclusive_tenant
                &&& after[c].allocated_vcpus == before[c].allocated_vcpus + 1
            }
        } else {
            after[c] == before[c]
        }
}

/// Whether the core table after releasing `ids` follows from the table before.
pub open spec fn cores_released(before: Seq<CoreUsage>, after: Seq<CoreUsage>, ids: Seq<u32>, exclusive: bool) -> bool {
    &&& after.len() == before.len()
    &&& forall|c: int|
        #![trigger after[c]]
        0 <= c < before.len() ==> if ids.contains(c as u32) {
            &&& after[c].core_id == before[c].core_id
            &&& after[c].utilization_permille == before[c].utilization_permille
            &&& if exclusive {
                &&& !after[c].exclusive
                &&& after[c].exclusive_tenant is None
                &&& after[c].allocated_vcpus == 0
            } else {
                &&& after[c].exclusive == before[c].exclusive
                &&& after[c].exclusive_tenant == before[c].exclusive_tenant
                &&& after[c].allocated_vcpus == (if before[c].allocated_vcpus > 0 {
                    before[c].allocated_vcpus - 1
                } else {
                    0
                })
            }
        } else {
            after[c] == before[c]
        }
}

/// Marks cores as holding one more vCPU, or as held exclusively by `tenant`.
pub fn allocate_cores(core_usage: &mut Vec<CoreUsage>, cores: &Vec<u32>, exclusive: bool, tenant_id: &String)
    requires
        old(core_usage)@.len() <= u32::MAX,
        valid_core_ids(old(core_usage)@, cores@),
        !exclusive ==> forall|k: int|
            0 <= k < cores@.len() ==> old(core_usage)@[#[trigger] cores@[k] as int].allocated_vcpus
                < u32::MAX,
    ensures
        cores_assigned(old(core_usage)@, final(core_usage)@, cores@, exclusive, *tenant_id),
{
    let ghost before = core_usage@;
    let mut k: usize = 0;
    while k < cores.len()
        invariant
            k <= cores@.len(),
            valid_core_ids(before, cores@),
            before.len() <= u32::MAX,
            !exclusive ==> forall|q: int|
                0 <= q < cores@.len() ==> before[#[trigger] cores@[q] as int].allocated_vcpus
                    < u32::MAX,
            cores_assigned(before, core_usage@, cores@.take(k as int), exclusive, *tenant_id),
        decreases cores@.len() - k,
    {
        let id = cores[k] as usize;
        proof {
            assert(cores@.take(k as int).contains(id as u32) == false) by {
                if cores@.take(k as int).contains(id as u32) {
                    let w = choose|w: int| 0 <= w < k && cores@.take(k as int)[w] == id as u32;
                    assert(cores@[w] == cores@[k as int]);
                }
            }
            assert(core_usage@[id as int] == before[id as int]);
        }
        let mut entry = core_usage[id].clone_core();
        if exclusive {
            entry.exclusive = true;
            entry.exclusive_tenant = Some(tenant_id.clone());
            entry.allocated_vcpus = 1;
        } else {
            entry.allocated_vcpus = entry.allocated_vcpus + 1;
        }
        core_usage.set(id, entry);
        proof {
            let t = cores@.take(k as int + 1);
            assert(t =~= cores@.take(k as int).push(id as u32));
            assert forall|c: int| 0 <= c < before.len() implies (#[trigger] t.contains(c as u32))
                == (cores@.take(k as int).contains(c as u32) || c == id) by {
                if c == id {
                    assert(t[k as int] == c as u32);
                }
                if t.contains(c as u32) {
                    let w = choose|w: int| 0 <= w < t.len() && t[w] == c as u32;
                    if w < k {
                        assert(cores@.take(k as int)[w] == c as u32);
                    }
                }
                if cores@.take(k as int).contains(c as u32) {
                    let w = choose|w: int| 0 <= w < k && cores@.take(k as int)[w] == c as u32;
                    assert(t[w] == c as u32);
                }
            }
        }
        k = k + 1;
    }
    proof {
        assert(cores@.take(cores@.len() as int) =~= cores@);
    }
}

/// Releases cores: exclusive cores become free, shared ones hold one vCPU less.
pub fn deallocate_cores(core_usage: &mut Vec<CoreUsage>, cores: &Vec<u32>, exclusive: bool)
    requires
        old(core_usage)@.len() <= u32::MAX,
        valid_core_ids(old(core_usage)@, cores@),
    ensures
        cores_released(old(core_usage)@, final(core_usage)@, cores@, exclusive),
{
    let ghost before = core_usage@;
    let mut k: usize = 0;
    while k < cores.len()
        invariant
            k <= cores@.len(),
            valid_core_ids(before, cores@),
            before.len() <= u32::MAX,
            cores_released(before, core_usage@, cores@.take(k as int), exclusive),
        decreases cores@.len() - k,
    {
        let id = cores[k] as usize;
        proof {
            assert(cores@.take(k as int).contains(id as u32) == false) by {
                if cores@.take(k as int).contains(id as u32) {
                    let w = choose|w: int| 0 <= w < k && cores@.take(k as int)[w] == id as u32;
                    assert(cores@[w] == cores@[k as int]);
                }
            }
            assert(core_usage@[id as int] == before[id as int]);
        }
        let mut entry = core_usage[id].clone_core();
        if exclusive {
            entry.exclusive = false;
            entry.exclusive_tenant = None;
            entry.allocated_vcpus = 0;
        } else {
            entry.allocated_vcpus = entry.allocated_vcpus.saturating_sub(1);
        }
        core_usage.set(id, entry);
        proof {
            let t = cores@.take(k as int + 1);
            assert(t =~= cores@.take(k as int).push(id as u32));
            assert forall|c: int| 0 <= c < before.len() implies (#[trigger] t.contains(c as u32))
                == (cores@.take(k as int).contains(c as u32) || c == id) by {
                if c == id {
                    assert(t[k as int] == c as u32);
                }
                if t.contains(c as u32) {
                    let w = choose|w: int| 0 <= w < t.len() && t[w] == c as u32;
                    if w < k {
                        assert(cores@.take(k as int)[w] == c as u32);
                    }
                }
                if cores@.take(k as int).contains(c as u32) {
                    let w = choose|w: int| 0 <= w < k && cores@.take(k as int)[w] == c as u32;
                    assert(t[w] == c as u32);
                }
            }
        }
        k = k + 1;
    }
    proof {
        assert(cores@.take(cores@.len() as int) =~= cores@);
    }
}

impl CoreUsage {
    /// A copy with equal fields.
    pub fn clone_core(&self) -> (c: CoreUsage)
        ensures
            c == *self,
    {
        CoreUsage {
            core_id: self.core_id,
            allocated_vcpus: self.allocated_vcpus,
            utilization_permille: self.utilization_permille,
            exclusive: self.exclusive,
            exclusive_tenant: match &self.exclusive_tenant {
                Some(t) => Some(t.clone()),
                None => None,
            },
        }
    }
}

/// vCPUs held by the live (active or reserved) allocations.
pub open spec fn live_cores(allocs: Seq<CpuAllocation>) -> nat
    decreases allocs.len(),
{
    if allocs.len() == 0 {
        0
    } else {
        live_cores(allocs.drop_last()) + if allocs.last().base.status@ is Active
            || allocs.last().base.status@ is Reserved {
            allocs.last().assigned_cores@.len()
        } else {
            0
        }
    }
}

/// Number of live (active or reserved) allocations.
pub open spec fn live_allocations(allocs: Seq<CpuAllocation>) -> nat
    decreases allocs.len(),
{
    if allocs.len() == 0 {
        0
    } else {
        live_allocations(allocs.drop_last()) + if allocs.last().base.status@ is Active
            || allocs.last().base.status@ is Reserved {
            1nat
        } else {
            0
        }
    }
}

/// Sum of the measured utilization of the cores that hold vCPUs, in thousandths of a core.
pub open spec fn busy_utilization(cores: Seq<CoreUsage>) -> nat
    decreases cores.len(),
{
    if cores.len() == 0 {
        0
    } else {
        busy_utilization(cores.drop_last()) + if cores.last().allocated_vcpus > 0 {
            cores.last().utilization_permille as nat
        } else {
            0
        }
    }
}

/// Whether allocation ids are unique.
pub open spec fn allocation_ids_unique(allocs: Seq<CpuAllocation>) -> bool {
    forall|i: int, j: int|
        0 <= i < j < allocs.len() ==> allocs[i].base.allocation_id@ != allocs[j].base.allocation_id@
}

/// The allocation id `"<prefix>-<tenant>-<nanos>"`.
pub open spec fn allocation_id_text(prefix: Seq<char>, tenant: Seq<char>, nanos: int) -> Seq<char> {
    prefix + "-"@ + tenant + "-"@ + signed_decimal(nanos)
}

/// Builds an allocation id from a prefix, a tenant and a timestamp.
pub fn make_allocation_id(prefix: &str, tenant: &str, nanos: i64) -> (s: String)
    ensures
        s@ == allocation_id_text(prefix@, tenant@, nanos as int),
{
    let mut s = String::from_str(prefix);
    s.append("-");
    s.append(tenant);
    s.append("-");
    let n = to_signed_decimal(nanos);
    s.append(n.as_str());
    s
}

/// The predicate keeping allocations whose id differs from `id`.
pub open spec fn other_ids(id: Seq<char>) -> spec_fn(CpuAllocation) -> bool {
    |x: CpuAllocation| x.base.allocation_id@ != id
}

/// Whether request metadata asks for exclusive cores (`exclusive` = `true`).
pub open spec fn exclusive_requested(metadata: Seq<(String, String)>) -> bool {
    lookup(metadata, "exclusive"@) == Some("true"@)
}

/// Health derived from the average utilization of the busy cores (tenths of a percent):
/// unhealthy above 95%, degraded above 85%.
pub open spec fn cpu_health(avg_permille: nat) -> HealthView {
    if avg_permille > 950 {
        HealthView::Unhealthy("CPU utilization critically high"@)
    } else if avg_permille > 850 {
        HealthView::Degraded(
            "CPU utilization at "@ + decimal(avg_permille / 10) + "."@ + decimal(avg_permille % 10)
                + "%"@,
        )
    } else {
        HealthView::Healthy
    }
}

/// Health from the average utilization of the busy cores (tenths of a percent).
pub fn cpu_health_from_utilization(avg_permille: u64) -> (h: ResourceManagerHealth)
    ensures
        h@ == cpu_health(avg_permille as nat),
{
    if avg_permille > 950 {
        ResourceManagerHealth::Unhealthy(String::from_str("CPU utilization critically high"))
    } else if avg_permille > 850 {
        let mut s = String::from_str("CPU utilization at ");
        let whole = to_decimal(avg_permille / 10);
        s.append(whole.as_str());
        s.append(".");
        let frac = to_decimal(avg_permille % 10);
        s.append(frac.as_str());
        s.append("%");
        ResourceManagerHealth::Degraded(s)
    } else {
        ResourceManagerHealth::Healthy
    }
}

/// What granting `request` at `now_nanos` and `now_ms` does, from manager
/// `before` to manager `after` with answer `r`: a request for another resource is
/// refused with nothing changed; a CPU request gets the cores the selection
/// policy picks, or the selection's error with nothing changed.
pub open spec fn allocation_result(
    before: CpuResourceManager,
    after: CpuResourceManager,
    request: ResourceAllocationRequest,
    now_nanos: i64,
    now_ms: i64,
    r: Result<ResourceAllocation, BlixardError>,
) -> bool {
    &&& !(request.resource_type@ is Cpu) ==> {
        &&& r == Err::<ResourceAllocation, BlixardError>(
            BlixardError::ConfigurationError {
                component: "cpu_manager.allocation.resource_type",
                message: "CPU manager can only handle CPU resources",
            },
        )
        &&& after == before
    }
    &&& request.resource_type@ is Cpu ==> exists|lowest: Seq<u32>, lowest_all: Seq<u32>|
        {
            let exclusive = exclusive_requested(request.metadata@);
            let needed = request.amount as u32 as nat;
            let sel = select_cores(before.core_usage@, before.scheduling_policy, needed, exclusive, lowest, lowest_all);
            &&& #[trigger] load_orders(before.core_usage@, exclusive_requested(request.metadata@), request.amount as u32 as nat, lowest, lowest_all)
            &&& match sel {
                Err(e) => r == Err::<ResourceAllocation, BlixardError>(e) && after == before,
                Ok(cores) => r is Ok && {
                    let a = r->Ok_0;
                    let id = allocation_id_text("cpu"@, request.tenant_id@, now_nanos as int);
                    &&& a.allocation_id@ == id
                    &&& a.request == request
                    &&& a.allocated_amount == cores.len()
                    &&& a.allocated_on matches Some(on) && on@ == "cpu"@
                    &&& a.allocated_at_ms == now_ms
                    &&& a.status@ is Active
                    &&& cores_assigned(before.core_usage@, after.core_usage@, cores, exclusive, request.tenant_id)
                    &&& after.allocations@.len() >= 1
                    &&& after.allocations@.last().base@ == a@
                    &&& after.allocations@.last().assigned_cores@ == cores
                    &&& after.allocations@.last().exclusive == exclusive
                    &&& after.allocations@.drop_last() == before.allocations@.filter(other_ids(id))
                    &&& after.usage.allocated_amount == live_cores(after.allocations@)
                    &&& after.usage.used_amount == busy_utilization(after.core_usage@) / 1000
                    &&& after.usage.allocation_count == live_allocations(after.allocations@)
                    &&& after.usage.updated_at_ms == now_ms
                    &&& after.state.total_allocations == (if before.state.total_allocations == u64::MAX {
                        0
                    } else {
                        before.state.total_allocations + 1
                    })
                },
            }
        }
}

impl CpuResourceManager {
    /// Well-formedness: one table entry per core, unique allocation ids, and every
    /// allocation names distinct valid cores.
    pub open spec fn wf(&self) -> bool {
        &&& table_wf(self.core_usage@)
        &&& self.core_usage@.len() == self.total_cores
        &&& allocation_ids_unique(self.allocations@)
        &&& forall|i: int|
            0 <= i < self.allocations@.len() ==> valid_core_ids(
                self.core_usage@,
                (#[trigger] self.allocations@[i]).assigned_cores@,
            )
    }

    /// A manager for `total_cores` idle cores using first-fit selection.
    pub fn new(config: ResourceManagerConfig, total_cores: u32) -> (m: Self)
        ensures
            m.wf(),
            m.config == (ResourceManagerConfig { resource_type: m.config.resource_type, ..config }),
            m.config.resource_type@ == ResourceTypeView::Cpu,
            m.total_cores == total_cores,
            m.scheduling_policy == CpuSchedulingPolicy::FirstFit,
            m.allocations@.len() == 0,
            forall|c: int|
                0 <= c < total_cores ==> #[trigger] m.core_usage@[c] == (CoreUsage {
                    core_id: c as u32,
                    allocated_vcpus: 0,
                    utilization_permille: 0,
                    exclusive: false,
                    exclusive_tenant: None,
                }),
            m.usage.resource_type@ == ResourceTypeView::Cpu,
            m.usage.total_capacity == total_cores,
            m.usage.allocated_amount == 0,
            m.usage.used_amount == 0,
            m.usage.allocation_count == 0,
            !m.state.is_running,
            m.state.health@ == HealthView::Stopped,
            m.state.total_allocations == 0,
            m.state.total_deallocations == 0,
            m.state.failed_allocations == 0,
    {
        let now_ms = crate::clock::now_millis();
        let mut config = config;
        config.resource_type = ResourceType::Cpu;
        let mut core_usage: Vec<CoreUsage> = Vec::new();
        let mut c: u32 = 0;
        while c < total_cores
            invariant
                c <= total_cores,
                core_usage@.len() == c,
                forall|q: int|
                    0 <= q < c ==> #[trigger] core_usage@[q] == (CoreUsage {
                        core_id: q as u32,
                        allocated_vcpus: 0,
                        utilization_permille: 0,
                        exclusive: false,
                        exclusive_tenant: None,
                    }),
            decreases total_cores - c,
        {
            core_usage.push(
                CoreUsage {
                    core_id: c,
                    allocated_vcpus: 0,
                    utilization_permille: 0,
                    exclusive: false,
                    exclusive_tenant: None,
                },
            );
            c = c + 1;
        }
        CpuResourceManager {
            config,
            allocations: Vec::new(),
            core_usage,
            usage: ResourceUsage {
                resource_type: ResourceType::Cpu,
                total_capacity: total_cores as u64,
                allocated_amount: 0,
                used_amount: 0,
                allocation_count: 0,
                updated_at_ms: now_ms,
            },
            state: ManagerState::initial(now_ms),
            scheduling_policy: CpuSchedulingPolicy::FirstFit,
            total_cores,
        }
    }

    /// A builder for `total_cores` cores.
    pub fn builder(total_cores: u32) -> (b: CpuResourceManagerBuilder)
        ensures
            b.total_cores == total_cores,
            b.scheduling_policy == CpuSchedulingPolicy::FirstFit,
            b.config.resource_type@ == ResourceTypeView::Cpu,
    {
        CpuResourceManagerBuilder::new(total_cores)
    }

    /// The resource type handled: CPU.
    pub fn resource_type(&self) -> (t: ResourceType)
        ensures
            t@ == ResourceTypeView::Cpu,
    {
        ResourceType::Cpu
    }

    /// Recomputes allocated cores, busy utilization and live allocation count.
    fn update_usage_stats(&mut self, now_ms: i64)
        requires
            live_cores(old(self).allocations@) <= u64::MAX,
            old(self).core_usage@.len() <= u32::MAX,
        ensures
            final(self).usage.allocated_amount == live_cores(old(self).allocations@),
            final(self).usage.used_amount == busy_utilization(old(self).core_usage@) / 1000,
            final(self).usage.allocation_count == live_allocations(old(self).allocations@),
            final(self).usage.updated_at_ms == now_ms,
            final(self).usage.total_capacity == old(self).usage.total_capacity,
            final(self).usage.resource_type == old(self).usage.resource_type,
            final(self).allocations == old(self).allocations,
            final(self).core_usage == old(self).core_usage,
            final(self).state == old(self).state,
            final(self).config == old(self).config,
            final(self).scheduling_policy == old(self).scheduling_policy,
            final(self).total_cores == old(self).total_cores,
    {
        let mut total: u64 = 0;
        let mut count: usize = 0;
        let mut i: usize = 0;
        proof {
            lemma_live_prefix(self.allocations@, 0);
        }
        while i < self.allocations.len()
            invariant
                i <= self.allocations@.len(),
                live_cores(self.allocations@) <= u64::MAX,
                total == live_cores(self.allocations@.take(i as int)),
                count == live_allocations(self.allocations@.take(i as int)),
                count <= i,
            decreases self.allocations@.len() - i,
        {
            proof {
                lemma_live_prefix(self.allocations@, i as int + 1);
                assert(self.allocations@.take(i as int + 1).drop_last() =~= self.allocations@.take(i as int));
            }
            let a = &self.allocations[i];
            if a.base.status.is_live() {
                total = total + a.assigned_cores.len() as u64;
                count = count + 1;
            }
            i = i + 1;
        }
        let mut busy: u64 = 0;
        let mut j: usize = 0;
        proof {
            lemma_busy_prefix(self.core_usage@, 0);
            lemma_busy_bound(self.core_usage@);
            assert(self.core_usage@.len() * (u32::MAX as int) <= u32::MAX * u32::MAX) by (nonlinear_arith)
                requires
                    self.core_usage@.len() <= u32::MAX,
            ;
        }
        while j < self.core_usage.len()
            invariant
                j <= self.core_usage@.len(),
                busy_utilization(self.core_usage@) <= u64::MAX,
                busy == busy_utilization(self.core_usage@.take(j as int)),
            decreases self.core_usage@.len() - j,
        {
            proof {
                lemma_busy_prefix(self.core_usage@, j as int + 1);
                assert(self.core_usage@.take(j as int + 1).drop_last() =~= self.core_usage@.take(j as int));
            }
            if self.core_usage[j].allocated_vcpus > 0 {
                busy = busy + self.core_usage[j].utilization_permille as u64;
            }
            j = j + 1;
        }
        proof {
            assert(self.allocations@.take(self.allocations@.len() as int) =~= self.allocations@);
            assert(self.core_usage@.take(self.core_usage@.len() as int) =~= self.core_usage@);
        }
        self.usage.allocated_amount = total;
        self.usage.used_amount = busy / 1000;
        self.usage.allocation_count = count;
        self.usage.updated_at_ms = now_ms;
    }

    fn find_allocation(&self, allocation_id: &str) -> (r: Option<usize>)
        ensures
            match r {
                Some(i) => i < self.allocations@.len() && self.allocations@[i as int].base.allocation_id@
                    == allocation_id@,
                None => forall|j: int|
                    0 <= j < self.allocations@.len() ==> self.allocations@[j].base.allocation_id@
                        != allocation_id@,
            },
    {
        let mut i: usize = 0;
        while i < self.allocations.len()
            invariant
                i <= self.allocations@.len(),
                forall|j: int| 0 <= j < i ==> self.allocations@[j].base.allocation_id@ != allocation_id@,
            decreases self.allocations@.len() - i,
        {
            if text_eq(self.allocations[i].base.allocation_id.as_str(), allocation_id) {
                return Some(i);
            }
            i = i + 1;
        }
        None
    }

    /// Whether the request asks for exclusive cores (`exclusive` = `true` in its metadata).
    pub fn wants_exclusive(request: &ResourceAllocationRequest) -> (r: bool)
        ensures
            r == (exclusive_requested(request.metadata@)),
    {
        proof {
            reveal_strlit("exclusive");
            reveal_strlit("true");
        }
        match metadata_get(&request.metadata, "exclusive") {
            Some(v) => text_eq(v.as_str(), "true"),
            None => false,
        }
    }

    /// Whether cores for the request are available now. Requests for another
    /// resource type are never available.
    pub fn check_availability(&self, request: &ResourceAllocationRequest) -> (r: Result<bool, BlixardError>)
        requires
            self.wf(),
        ensures
            !(request.resource_type@ is Cpu) ==> r == Ok::<bool, BlixardError>(false),
            request.resource_type@ is Cpu ==> exists|lowest: Seq<u32>, lowest_all: Seq<u32>|
                {
                    &&& #[trigger] load_orders(self.core_usage@, exclusive_requested(request.metadata@), request.amount as u32 as nat, lowest, lowest_all)
                    &&& r == Ok::<bool, BlixardError>(
                        select_cores(
                            self.core_usage@,
                            self.scheduling_policy,
                            request.amount as u32 as nat,
                            exclusive_requested(request.metadata@),
                            lowest,
                            lowest_all,
                        ) is Ok,
                    )
                },
    {
        match request.resource_type {
            ResourceType::Cpu => {},
            _ => {
                return Ok(false);
            },
        }
        let exclusive = Self::wants_exclusive(request);
        let found = find_available_cores(
            &self.core_usage,
            self.scheduling_policy,
            request.amount as u32,
            exclusive,
        );
        match found {
            Ok(_) => Ok(true),
            Err(_) => Ok(false),
        }
    }

    /// Allocates cores for a request, stamping it with the current time.
    pub fn allocate(&mut self, request: ResourceAllocationRequest) -> (r: Result<ResourceAllocation, BlixardError>)
        requires
            old(self).wf(),
            forall|c: int| 0 <= c < old(self).core_usage@.len() ==> (#[trigger] old(self).core_usage@[c]).allocated_vcpus < u32::MAX,
            live_cores(old(self).allocations@) + u32::MAX <= u64::MAX,
        ensures
            final(self).wf(),
            final(self).config == old(self).config,
            final(self).scheduling_policy == old(self).scheduling_policy,
            final(self).total_cores == old(self).total_cores,
            r is Ok ==> r->Ok_0.status@ is Active && r->Ok_0.request == request,
            !(request.resource_type@ is Cpu) ==> r is Err && r->Err_0 is ConfigurationError,
            exists|now_nanos: i64, now_ms: i64|
                #[trigger] allocation_result(*old(self), *final(self), request, now_nanos, now_ms, r),
    {
        let now_nanos = crate::clock::now_nanos();
        let now_ms = crate::clock::now_millis();
        let ghost req = request;
        let r = self.allocate_at(request, now_nanos, now_ms);
        assert(allocation_result(*old(self), *self, req, now_nanos, now_ms, r));
        r
    }

    /// Allocates cores for a request at the given time: picks cores by the policy,
    /// assigns them, records the allocation under `cpu-<tenant>-<nanos>` and updates usage.
    pub fn allocate_at(&mut self, request: ResourceAllocationRequest, now_nanos: i64, now_ms: i64) -> (r: Result<ResourceAllocation, BlixardError>)
        requires
            old(self).wf(),
            forall|c: int| 0 <= c < old(self).core_usage@.len() ==> (#[trigger] old(self).core_usage@[c]).allocated_vcpus < u32::MAX,
            live_cores(old(self).allocations@) + u32::MAX <= u64::MAX,
        ensures
            final(self).wf(),
            final(self).config == old(self).config,
            final(self).scheduling_policy == old(self).scheduling_policy,
            final(self).total_cores == old(self).total_cores,
            allocation_result(*old(self), *final(self), request, now_nanos, now_ms, r),
    {
        proof {
            reveal_strlit("cpu");
            reveal_strlit("-");
        }
        match request.resource_type {
            ResourceType::Cpu => {},
            _ => {
                return Err(
                    BlixardError::ConfigurationError {
                        component: "cpu_manager.allocation.resource_type",
                        message: "CPU manager can only handle CPU resources",
                    },
                );
            },
        }
        let exclusive = Self::wants_exclusive(&request);
        let cores = match find_available_cores(
            &self.core_usage,
            self.scheduling_policy,
            request.amount as u32,
            exclusive,
        ) {
            Ok(c) => c,
            Err(e) => {
                return Err(e);
            },
        };
        let ghost (lw, la) = choose|lowest: Seq<u32>, lowest_all: Seq<u32>|
            {
                &&& #[trigger] load_orders(self.core_usage@, exclusive, request.amount as u32 as nat, lowest, lowest_all)
                &&& select_cores(self.core_usage@, self.scheduling_policy, request.amount as u32 as nat, exclusive, lowest, lowest_all)
                    == Ok::<Seq<u32>, BlixardError>(cores@)
            };
        let allocation_id = make_allocation_id("cpu", request.tenant_id.as_str(), now_nanos);
        let ghost id = allocation_id@;
        let ghost old_allocs = self.allocations@;
        let ghost old_cores = self.core_usage@;
        allocate_cores(&mut self.core_usage, &cores, exclusive, &request.tenant_id);
        let base = ResourceAllocation {
            allocation_id,
            request,
            allocated_amount: cores.len() as u64,
            allocated_on: Some(String::from_str("cpu")),
            allocated_at_ms: now_ms,
            status: AllocationStatus::Active,
        };
        let ghost cores_seq = cores@;
        let stored = CpuAllocation {
            base: base.clone_allocation(),
            assigned_cores: cores,
            affinity_mask: None,
            scheduling_policy: self.scheduling_policy,
            exclusive,
        };
        self.drop_allocation_id(base.allocation_id.as_str());
        proof {
            lemma_live_filter(old_allocs, other_ids(id));
            assert forall|i: int| 0 <= i < self.allocations@.len() implies valid_core_ids(
                self.core_usage@,
                (#[trigger] self.allocations@[i]).assigned_cores@,
            ) by {
                let a = self.allocations@[i];
                assert(old_allocs.filter(other_ids(id)).contains(a));
                old_allocs.lemma_filter_contains_rev(other_ids(id), a);
                let w = choose|w: int| 0 <= w < old_allocs.len() && old_allocs[w] == a;
                assert(valid_core_ids(old_cores, old_allocs[w].assigned_cores@));
            }
        }
        let ghost kept = self.allocations@;
        self.allocations.push(stored);
        proof {
            assert(self.allocations@.drop_last() =~= kept);
            assert forall|a: int, b: int| 0 <= a < b < self.allocations@.len() implies self.allocations@[a].base.allocation_id@ != self.allocations@[b].base.allocation_id@ by {
                if b == self.allocations@.len() - 1 {
                    let x = kept[a];
                    assert(old_allocs.filter(other_ids(id)).contains(x));
                    reveal_filter_pred(old_allocs, other_ids(id), a);
                } else {
                    assert(kept[a].base.allocation_id@ != kept[b].base.allocation_id@);
                }
            }
            assert(live_cores(self.allocations@) <= live_cores(old_allocs) + u32::MAX) by {
                assert(self.allocations@.drop_last() == kept);
                assert(self.allocations@.last() == stored);
                assert(live_cores(self.allocations@) == live_cores(kept) + cores_seq.len());
            }
            assert(load_orders(old_cores, exclusive, request.amount as u32 as nat, lw, la));
        }
        self.update_usage_stats(now_ms);
        self.state.total_allocations = self.state.total_allocations.wrapping_add(1);
        Ok(base)
    }

    /// Releases an allocation and its cores.
    pub fn deallocate(&mut self, allocation_id: &str) -> (r: Result<(), BlixardError>)
        requires
            old(self).wf(),
            live_cores(old(self).allocations@) <= u64::MAX,
        ensures
            final(self).wf(),
            final(self).config == old(self).config,
            final(self).total_cores == old(self).total_cores,
            final(self).scheduling_policy == old(self).scheduling_policy,
            (forall|j: int| 0 <= j < old(self).allocations@.len() ==> old(self).allocations@[j].base.allocation_id@ != allocation_id@)
                ==> r == Err::<(), BlixardError>(BlixardError::ResourceUnavailable {
                    resource_type: "cpu",
                    message: "Allocation not found",
                }) && final(self).allocations@ == old(self).allocations@
                && final(self).core_usage@ == old(self).core_usage@,
            (exists|j: int| 0 <= j < old(self).allocations@.len() && old(self).allocations@[j].base.allocation_id@ == allocation_id@)
                ==> r is Ok && exists|j: int| {
                    &&& 0 <= j < old(self).allocations@.len()
                    &&& old(self).allocations@[j].base.allocation_id@ == allocation_id@
                    &&& final(self).allocations@ == old(self).allocations@.remove(j)
                    &&& cores_released(old(self).core_usage@, final(self).core_usage@, old(self).allocations@[j].assigned_cores@, old(self).allocations@[j].exclusive)
                    &&& final(self).usage.allocated_amount == live_cores(final(self).allocations@)
                    &&& final(self).usage.used_amount == busy_utilization(final(self).core_usage@) / 1000
                    &&& final(self).usage.allocation_count == live_allocations(final(self).allocations@)
                    &&& final(self).state.total_deallocations == (if old(self).state.total_deallocations == u64::MAX {
                        0
                    } else {
                        old(self).state.total_deallocations + 1
                    })
                },
    {
        let now_ms = crate::clock::now_millis();
        match self.find_allocation(allocation_id) {
            None => Err(
                BlixardError::ResourceUnavailable {
                    resource_type: "cpu",
                    message: "Allocation not found",
                },
            ),
            Some(i) => {
                let ghost before = self.allocations@;
                let ghost old_cores = self.core_usage@;
                let removed = self.allocations.remove(i);
                proof {
                    assert(valid_core_ids(old_cores, before[i as int].assigned_cores@));
                }
                deallocate_cores(&mut self.core_usage, &removed.assigned_cores, removed.exclusive);
                proof {
                    assert forall|a: int, b: int| 0 <= a < b < self.allocations@.len() implies self.allocations@[a].base.allocation_id@ != self.allocations@[b].base.allocation_id@ by {
                        if b < i {
                            assert(before[a].base.allocation_id@ != before[b].base.allocation_id@);
                        } else if a < i {
                            assert(before[a].base.allocation_id@ != before[b + 1].base.allocation_id@);
                        } else {
                            assert(before[a + 1].base.allocation_id@ != before[b + 1].base.allocation_id@);
                        }
                    }
                    assert forall|q: int| 0 <= q < self.allocations@.len() implies valid_core_ids(
                        self.core_usage@,
                        (#[trigger] self.allocations@[q]).assigned_cores@,
                    ) by {
                        if q < i {
                            assert(valid_core_ids(old_cores, before[q].assigned_cores@));
                        } else {
                            assert(valid_core_ids(old_cores, before[q + 1].assigned_cores@));
                        }
                    }
                    lemma_live_remove(before, i as int);
                }
                self.update_usage_stats(now_ms);
                self.state.total_deallocations = self.state.total_deallocations.wrapping_add(1);
                Ok(())
            },
        }
    }

    /// A copy of the current usage.
    pub fn get_usage(&self) -> (u: ResourceUsage)
        ensures
            u.resource_type@ == self.usage.resource_type@,
            u.total_capacity == self.usage.total_capacity,
            u.allocated_amount == self.usage.allocated_amount,
            u.used_amount == self.usage.used_amount,
            u.allocation_count == self.usage.allocation_count,
            u.updated_at_ms == self.usage.updated_at_ms,
    {
        ResourceUsage {
            resource_type: self.usage.resource_type.copy_type(),
            total_capacity: self.usage.total_capacity,
            allocated_amount: self.usage.allocated_amount,
            used_amount: self.usage.used_amount,
            allocation_count: self.usage.allocation_count,
            updated_at_ms: self.usage.updated_at_ms,
        }
    }

    /// The cores held by the live allocations, summed in a wider type.
    pub fn live_core_total(&self) -> (t: u128)
        ensures
            t == live_cores(self.allocations@),
    {
        let mut t: u128 = 0;
        let mut i: usize = 0;
        while i < self.allocations.len()
            invariant
                i <= self.allocations@.len(),
                t == live_cores(self.allocations@.take(i as int)),
                t <= i * usize::MAX,
            decreases self.allocations@.len() - i,
        {
            proof {
                assert(self.allocations@.take(i as int + 1).drop_last() =~= self.allocations@.take(i as int));
                assert((i + 1) * usize::MAX <= 0x1_0000_0000_0000_0000 * 0x1_0000_0000_0000_0000) by (nonlinear_arith)
                    requires
                        i < 0x1_0000_0000_0000_0000,
                        usize::MAX < 0x1_0000_0000_0000_0000,
                ;
            }
            let a = &self.allocations[i];
            if a.base.status.is_live() {
                t = t + a.assigned_cores.len() as u128;
            }
            i = i + 1;
        }
        proof {
            assert(self.allocations@.take(self.allocations@.len() as int) =~= self.allocations@);
        }
        t
    }

    /// Whether every core can take one more vCPU.
    pub fn cores_have_room(&self) -> (b: bool)
        ensures
            b == forall|c: int| 0 <= c < self.core_usage@.len() ==> (#[trigger] self.core_usage@[c]).allocated_vcpus < u32::MAX,
    {
        let mut i: usize = 0;
        while i < self.core_usage.len()
            invariant
                i <= self.core_usage@.len(),
                forall|c: int| 0 <= c < i ==> (#[trigger] self.core_usage@[c]).allocated_vcpus < u32::MAX,
            decreases self.core_usage@.len() - i,
        {
            if self.core_usage[i].allocated_vcpus == u32::MAX {
                return false;
            }
            i = i + 1;
        }
        true
    }

    /// Copies of all allocations, in order.
    pub fn get_allocations(&self) -> (r: Vec<ResourceAllocation>)
        ensures
            r@.len() == self.allocations@.len(),
            forall|i: int| 0 <= i < r@.len() ==> (#[trigger] r@[i])@ == self.allocations@[i].base@,
    {
        let mut out: Vec<ResourceAllocation> = Vec::new();
        let mut i: usize = 0;
        while i < self.allocations.len()
            invariant
                i <= self.allocations@.len(),
                out@.len() == i,
                forall|q: int| 0 <= q < i ==> (#[trigger] out@[q])@ == self.allocations@[q].base@,
            decreases self.allocations@.len() - i,
        {
            out.push(self.allocations[i].base.clone_allocation());
            i = i + 1;
        }
        out
    }

    /// A copy of the allocation with this id, if any.
    pub fn get_allocation(&self, allocation_id: &str) -> (r: Option<ResourceAllocation>)
        ensures
            match r {
                Some(a) => exists|j: int|
                    0 <= j < self.allocations@.len() && self.allocations@[j].base.allocation_id@ == allocation_id@
                        && a@ == self.allocations@[j].base@,
                None => forall|j: int|
                    0 <= j < self.allocations@.len() ==> self.allocations@[j].base.allocation_id@ != allocation_id@,
            },
    {
        match self.find_allocation(allocation_id) {
            Some(i) => Some(self.allocations[i].base.clone_allocation()),
            None => None,
        }
    }

    /// Sets the capacity to the core count and marks the manager healthy.
    pub fn initialize(&mut self)
        ensures
            final(self).usage.total_capacity == old(self).total_cores,
            final(self).state.health@ == HealthView::Healthy,
            final(self).state.is_running == old(self).state.is_running,
            final(self).allocations == old(self).allocations,
            final(self).core_usage == old(self).core_usage,
            final(self).config == old(self).config,
            final(self).total_cores == old(self).total_cores,
            final(self).scheduling_policy == old(self).scheduling_policy,
            final(self).usage.allocated_amount == old(self).usage.allocated_amount,
            final(self).usage.allocation_count == old(self).usage.allocation_count,
    {
        let now_ms = crate::clock::now_millis();
        self.usage.total_capacity = self.total_cores as u64;
        self.usage.updated_at_ms = now_ms;
        self.state.health = ResourceManagerHealth::Healthy;
        self.state.last_health_check_ms = now_ms;
    }

    /// Marks the manager running and healthy (background monitoring is started by the caller).
    pub fn start(&mut self)
        ensures
            final(self).state.is_running,
            final(self).state.health@ == HealthView::Healthy,
            final(self).allocations == old(self).allocations,
            final(self).core_usage == old(self).core_usage,
            final(self).usage == old(self).usage,
            final(self).config == old(self).config,
            final(self).total_cores == old(self).total_cores,
            final(self).scheduling_policy == old(self).scheduling_policy,
    {
        self.state.is_running = true;
        self.state.health = ResourceManagerHealth::Healthy;
    }

    /// Marks the manager stopped.
    pub fn stop(&mut self)
        ensures
            !final(self).state.is_running,
            final(self).state.health@ == HealthView::Stopped,
            final(self).allocations == old(self).allocations,
            final(self).core_usage == old(self).core_usage,
            final(self).usage == old(self).usage,
            final(self).config == old(self).config,
            final(self).total_cores == old(self).total_cores,
            final(self).scheduling_policy == old(self).scheduling_policy,
    {
        self.state.is_running = false;
        self.state.health = ResourceManagerHealth::Stopped;
    }

    /// The last recorded health.
    pub fn health_check(&self) -> (h: ResourceManagerHealth)
        ensures
            h@ == self.state.health@,
    {
        match &self.state.health {
            ResourceManagerHealth::Healthy => ResourceManagerHealth::Healthy,
            ResourceManagerHealth::Degraded(m) => ResourceManagerHealth::Degraded(m.clone()),
            ResourceManagerHealth::Unhealthy(m) => ResourceManagerHealth::Unhealthy(m.clone()),
            ResourceManagerHealth::Stopped => ResourceManagerHealth::Stopped,
        }
    }

    /// Whether the manager is running.
    pub fn is_running(&self) -> (b: bool)
        ensures
            b == self.state.is_running,
    {
        self.state.is_running
    }

    /// Records utilization samples (thousandths of a core, one per core) for the cores
    /// that hold vCPUs and returns their average (0 when no core is busy).
    pub fn record_utilization(&mut self, samples: &Vec<u32>) -> (avg: u64)
        requires
            old(self).wf(),
            samples@.len() == old(self).core_usage@.len(),
        ensures
            final(self).wf(),
            final(self).allocations == old(self).allocations,
            final(self).usage == old(self).usage,
            final(self).state == old(self).state,
            final(self).config == old(self).config,
            final(self).total_cores == old(self).total_cores,
            final(self).scheduling_policy == old(self).scheduling_policy,
            final(self).core_usage@.len() == old(self).core_usage@.len(),
            forall|c: int|
                #![trigger final(self).core_usage@[c]]
                0 <= c < old(self).core_usage@.len() ==> final(self).core_usage@[c] == (if old(self).core_usage@[c].allocated_vcpus > 0 {
                    CoreUsage { utilization_permille: samples@[c], ..old(self).core_usage@[c] }
                } else {
                    old(self).core_usage@[c]
                }),
            avg == (if busy_count(old(self).core_usage@) == 0 {
                0
            } else {
                busy_utilization(final(self).core_usage@) / busy_count(old(self).core_usage@)
            }),
    {
        let ghost before = self.core_usage@;
        let mut total: u64 = 0;
        let mut busy: u64 = 0;
        let mut c: usize = 0;
        while c < self.core_usage.len()
            invariant
                c <= self.core_usage@.len(),
                self.core_usage@.len() == before.len(),
                samples@.len() == before.len(),
                before.len() <= u32::MAX,
                table_wf(before),
                forall|q: int|
                    #![trigger self.core_usage@[q]]
                    0 <= q < before.len() ==> self.core_usage@[q] == (if q < c && before[q].allocated_vcpus > 0 {
                        CoreUsage { utilization_permille: samples@[q], ..before[q] }
                    } else {
                        before[q]
                    }),
                total == busy_utilization(self.core_usage@.take(c as int)),
                busy == busy_count(before.take(c as int)),
                total <= c * (u32::MAX as int),
                busy <= c,
                self.allocations == old(self).allocations,
                self.usage == old(self).usage,
                self.state == old(self).state,
                self.config == old(self).config,
                self.total_cores == old(self).total_cores,
                self.scheduling_policy == old(self).scheduling_policy,
            decreases before.len() - c,
        {
            let ghost prev = self.core_usage@;
            if self.core_usage[c].allocated_vcpus > 0 {
                let mut entry = self.core_usage[c].clone_core();
                entry.utilization_permille = samples[c];
                self.core_usage.set(c, entry);
                total = total + samples[c] as u64;
                busy = busy + 1;
            }
            proof {
                assert(self.core_usage@.take(c as int + 1).drop_last() =~= prev.take(c as int));
                assert(self.core_usage@.take(c as int) =~= prev.take(c as int));
                assert(before.take(c as int + 1).drop_last() =~= before.take(c as int));
                assert(total <= (c + 1) * (u32::MAX as int)) by (nonlinear_arith)
                    requires
                        total <= busy_utilization(self.core_usage@.take(c as int)) + u32::MAX,
                        busy_utilization(self.core_usage@.take(c as int)) <= c * (u32::MAX as int) || true,
                        total <= c * (u32::MAX as int) + u32::MAX,
                ;
            }
            c = c + 1;
        }
        proof {
            assert(self.core_usage@.take(before.len() as int) =~= self.core_usage@);
            assert(before.take(before.len() as int) =~= before);
            assert forall|q: int| 0 <= q < before.len() implies valid_core_ids(self.core_usage@, #[trigger] self.allocations@[q].assigned_cores@) || q >= self.allocations@.len() by {
            }
            assert forall|q: int| 0 <= q < self.allocations@.len() implies valid_core_ids(
                self.core_usage@,
                (#[trigger] self.allocations@[q]).assigned_cores@,
            ) by {
                assert(valid_core_ids(before, self.allocations@[q].assigned_cores@));
            }
        }
        if busy == 0 {
            0
        } else {
            total / busy
        }
    }

    /// Records a health check from the average busy-core utilization (tenths of a percent).
    pub fn record_health(&mut self, avg_permille: u64, now_ms: i64)
        ensures
            final(self).state.health@ == cpu_health(avg_permille as nat),
            final(self).state.last_health_check_ms == now_ms,
            final(self).state.is_running == old(self).state.is_running,
            final(self).state.total_allocations == old(self).state.total_allocations,
            final(self).state.total_deallocations == old(self).state.total_deallocations,
            final(self).allocations == old(self).allocations,
            final(self).core_usage == old(self).core_usage,
            final(self).usage == old(self).usage,
            final(self).config == old(self).config,
    {
        self.state.health = cpu_health_from_utilization(avg_permille);
        self.state.last_health_check_ms = now_ms;
    }

    /// Takes new limits: the capacity becomes the hard limit. Limits for another
    /// resource type are refused.
    pub fn update_limits(&mut self, limits: &ResourceLimits) -> (r: Result<(), BlixardError>)
        ensures
            !(limits.resource_type@ is Cpu) ==> r == Err::<(), BlixardError>(BlixardError::ConfigurationError {
                component: "cpu_manager.limits.resource_type",
                message: "Limits must be for CPU resource type",
            }) && final(self).usage == old(self).usage,
            limits.resource_type@ is Cpu ==> r is Ok && final(self).usage.total_capacity == limits.hard_limit
                && final(self).usage.allocated_amount == old(self).usage.allocated_amount
                && final(self).usage.allocation_count == old(self).usage.allocation_count,
            final(self).allocations == old(self).allocations,
            final(self).core_usage == old(self).core_usage,
            final(self).state == old(self).state,
            final(self).config == old(self).config,
            final(self).total_cores == old(self).total_cores,
            final(self).scheduling_policy == old(self).scheduling_policy,
    {
        match limits.resource_type {
            ResourceType::Cpu => {},
            _ => {
                return Err(
                    BlixardError::ConfigurationError {
                        component: "cpu_manager.limits.resource_type",
                        message: "Limits must be for CPU resource type",
                    },
                );
            },
        }
        let now_ms = crate::clock::now_millis();
        self.usage.total_capacity = limits.hard_limit;
        self.usage.updated_at_ms = now_ms;
        Ok(())
    }

    /// Checks a configuration: it must be for CPU with a non-zero hard limit.
    pub fn validate_config(&self, config: &ResourceManagerConfig) -> (r: Result<(), BlixardError>)
        ensures
            !(config.resource_type@ is Cpu) ==> r == Err::<(), BlixardError>(BlixardError::ConfigurationError {
                component: "cpu_manager.config.resource_type",
                message: "Configuration must be for CPU resource type",
            }),
            config.resource_type@ is Cpu && config.limits.hard_limit == 0 ==> r == Err::<(), BlixardError>(BlixardError::ConfigurationError {
                component: "cpu_manager.config.hard_limit",
                message: "Hard limit must be greater than 0",
            }),
            config.resource_type@ is Cpu && config.limits.hard_limit != 0 ==> r is Ok,
    {
        match config.resource_type {
            ResourceType::Cpu => {},
            _ => {
                return Err(
                    BlixardError::ConfigurationError {
                        component: "cpu_manager.config.resource_type",
                        message: "Configuration must be for CPU resource type",
                    },
                );
            },
        }
        if config.limits.hard_limit == 0 {
            return Err(
                BlixardError::ConfigurationError {
                    component: "cpu_manager.config.hard_limit",
                    message: "Hard limit must be greater than 0",
                },
            );
        }
        Ok(())
    }

    /// Removes the allocation with this id, if any, keeping the others in order.
    fn drop_allocation_id(&mut self, allocation_id: &str)
        requires
            allocation_ids_unique(old(self).allocations@),
        ensures
            final(self).allocations@ == old(self).allocations@.filter(other_ids(allocation_id@)),
            allocation_ids_unique(final(self).allocations@),
            final(self).core_usage == old(self).core_usage,
            final(self).usage == old(self).usage,
            final(self).state == old(self).state,
            final(self).config == old(self).config,
            final(self).scheduling_policy == old(self).scheduling_policy,
            final(self).total_cores == old(self).total_cores,
    {
        let ghost pred = other_ids(allocation_id@);
        match self.find_allocation(allocation_id) {
            Some(i) => {
                let ghost before = self.allocations@;
                proof {
                    assert forall|j: int| 0 <= j < before.len() && j != i implies pred(before[j]) by {
                        if j < i {
                            assert(before[j].base.allocation_id@ != before[i as int].base.allocation_id@);
                        } else {
                            assert(before[i as int].base.allocation_id@ != before[j].base.allocation_id@);
                        }
                    }
                    lemma_remove_is_filter(before, i as int, pred);
                }
                self.allocations.remove(i);
                proof {
                    assert forall|a: int, b: int| 0 <= a < b < self.allocations@.len() implies self.allocations@[a].base.allocation_id@ != self.allocations@[b].base.allocation_id@ by {
                        if b < i {
                            assert(before[a].base.allocation_id@ != before[b].base.allocation_id@);
                        } else if a < i {
                            assert(before[a].base.allocation_id@ != before[b + 1].base.allocation_id@);
                        } else {
                            assert(before[a + 1].base.allocation_id@ != before[b + 1].base.allocation_id@);
                        }
                    }
                }
            },
            None => {
                proof {
                    lemma_filter_all(self.allocations@, pred);
                }
            },
        }
    }
}

proof fn reveal_filter_pred(s: Seq<CpuAllocation>, pred: spec_fn(CpuAllocation) -> bool, k: int)
    requires
        0 <= k < s.filter(pred).len(),
    ensures
        pred(s.filter(pred)[k]),
{
    s.lemma_filter_pred(pred, k);
}

pub(crate) proof fn lemma_remove_is_filter<A>(s: Seq<A>, i: int, pred: spec_fn(A) -> bool)
    requires
        0 <= i < s.len(),
        !pred(s[i]),
        forall|j: int| 0 <= j < s.len() && j != i ==> pred(s[j]),
    ensures
        s.remove(i) == s.filter(pred),
    decreases s.len(),
{
    reveal(Seq::filter);
    if i == s.len() - 1 {
        lemma_filter_all(s.drop_last(), pred);
        assert(s.remove(i) =~= s.drop_last());
    } else {
        lemma_remove_is_filter(s.drop_last(), i, pred);
        assert(s.remove(i) =~= s.drop_last().remove(i).push(s.last()));
    }
}

pub(crate) proof fn lemma_filter_all<A>(s: Seq<A>, pred: spec_fn(A) -> bool)
    requires
        forall|j: int| 0 <= j < s.len() ==> pred(s[j]),
    ensures
        s.filter(pred) == s,
    decreases s.len(),
{
    reveal(Seq::filter);
    if s.len() > 0 {
        lemma_filter_all(s.drop_last(), pred);
        assert(s.drop_last().push(s.last()) =~= s);
    }
}

proof fn lemma_live_filter(s: Seq<CpuAllocation>, pred: spec_fn(CpuAllocation) -> bool)
    ensures
        live_cores(s.filter(pred)) <= live_cores(s),
    decreases s.len(),
{
    reveal(Seq::filter);
    if s.len() > 0 {
        lemma_live_filter(s.drop_last(), pred);
        if pred(s.last()) {
            assert(s.filter(pred).drop_last() =~= s.drop_last().filter(pred));
        }
    }
}

proof fn lemma_busy_bound(s: Seq<CoreUsage>)
    ensures
        busy_utilization(s) <= s.len() * (u32::MAX as int),
    decreases s.len(),
{
    if s.len() > 0 {
        lemma_busy_bound(s.drop_last());
    }
}

pub(crate) proof fn lemma_live_remove(s: Seq<CpuAllocation>, i: int)
    requires
        0 <= i < s.len(),
    ensures
        live_cores(s.remove(i)) <= live_cores(s),
    decreases s.len(),
{
    if i == s.len() - 1 {
        assert(s.remove(i) =~= s.drop_last());
    } else {
        lemma_live_remove(s.drop_last(), i);
        assert(s.remove(i).drop_last() =~= s.drop_last().remove(i));
        assert(s.remove(i).last() == s.last());
    }
}

/// Number of cores that hold vCPUs.
pub open spec fn busy_count(cores: Seq<CoreUsage>) -> nat
    decreases cores.len(),
{
    if cores.len() == 0 {
        0
    } else {
        busy_count(cores.drop_last()) + if cores.last().allocated_vcpus > 0 {
            1nat
        } else {
            0
        }
    }
}

proof fn lemma_live_prefix(s: Seq<CpuAllocation>, k: int)
    requires
        0 <= k <= s.len(),
    ensures
        live_cores(s.take(k)) <= live_cores(s),
        live_allocations(s.take(k)) <= k,
    decreases s.len() - k,
{
    if k < s.len() {
        lemma_live_prefix(s, k + 1);
        assert(s.take(k + 1).drop_last() =~= s.take(k));
    } else {
        assert(s.take(k) =~= s);
    }
    lemma_live_count_bound(s.take(k));
}

proof fn lemma_live_count_bound(s: Seq<CpuAllocation>)
    ensures
        live_allocations(s) <= s.len(),
    decreases s.len(),
{
    if s.len() > 0 {
        lemma_live_count_bound(s.drop_last());
    }
}

proof fn lemma_busy_prefix(s: Seq<CoreUsage>, k: int)
    requires
        0 <= k <= s.len(),
    ensures
        busy_utilization(s.take(k)) <= busy_utilization(s),
    decreases s.len() - k,
{
    if k < s.len() {
        lemma_busy_prefix(s, k + 1);
        assert(s.take(k + 1).drop_last() =~= s.take(k));
    } else {
        assert(s.take(k) =~= s);
    }
}

/// Builder of [`CpuResourceManager`].
pub struct CpuResourceManagerBuilder {
    pub config: ResourceManagerConfig,
    pub total_cores: u32,
    pub scheduling_policy: CpuSchedulingPolicy,
}

impl CpuResourceManagerBuilder {
    /// CPU configuration, first-fit selection.
    pub fn new(total_cores: u32) -> (b: Self)
        ensures
            b.total_cores == total_cores,
            b.scheduling_policy == CpuSchedulingPolicy::FirstFit,
            b.config.resource_type@ == ResourceTypeView::Cpu,
            !b.config.limits.allow_overcommit,
            b.config.limits.overcommit_permille == 1000,
    {
        CpuResourceManagerBuilder {
            config: ResourceManagerConfigBuilder::new(ResourceType::Cpu).build(),
            total_cores,
            scheduling_policy: CpuSchedulingPolicy::FirstFit,
        }
    }

    /// Allows overcommit with the ratio in thousandths.
    pub fn with_overcommit(self, ratio_permille: u32) -> (b: Self)
        ensures
            b.total_cores == self.total_cores,
            b.scheduling_policy == self.scheduling_policy,
            b.config == (ResourceManagerConfig {
                limits: ResourceLimits {
                    allow_overcommit: true,
                    overcommit_permille: ratio_permille,
                    ..self.config.limits
                },
                ..self.config
            }),
    {
        let mut s = self;
        s.config.limits.allow_overcommit = true;
        s.config.limits.overcommit_permille = ratio_permille;
        s
    }

    /// Sets the core selection policy.
    pub fn with_scheduling_policy(self, policy: CpuSchedulingPolicy) -> (b: Self)
        ensures
            b.total_cores == self.total_cores,
            b.scheduling_policy == policy,
            b.config == self.config,
    {
        let mut s = self;
        s.scheduling_policy = policy;
        s
    }

    /// Enables or disables monitoring and sets its interval.
    pub fn with_monitoring(self, enabled: bool, interval_ms: u64) -> (b: Self)
        ensures
            b.total_cores == self.total_cores,
            b.scheduling_policy == self.scheduling_policy,
            b.config == (ResourceManagerConfig {
                enable_monitoring: enabled,
                monitoring_interval_ms: interval_ms,
                ..self.config
            }),
    {
        let mut s = self;
        s.config.enable_monitoring = enabled;
        s.config.monitoring_interval_ms = interval_ms;
        s
    }

    /// The manager.
    pub fn build(self) -> (m: CpuResourceManager)
        ensures
            m.wf(),
            m.total_cores == self.total_cores,
            m.scheduling_policy == self.scheduling_policy,
            m.config == (ResourceManagerConfig { resource_type: m.config.resource_type, ..self.config }),
            m.config.resource_type@ == ResourceTypeView::Cpu,
            m.allocations@.len() == 0,
            forall|c: int|
                0 <= c < self.total_cores ==> #[trigger] m.core_usage@[c] == (CoreUsage {
                    core_id: c as u32,
                    allocated_vcpus: 0,
                    utilization_permille: 0,
                    exclusive: false,
                    exclusive_tenant: None,
                }),
            m.usage.resource_type@ == ResourceTypeView::Cpu,
            m.usage.total_capacity == self.total_cores,
            m.usage.allocated_amount == 0,
            m.usage.used_amount == 0,
            m.usage.allocation_count == 0,
            !m.state.is_running,
            m.state.health@ == HealthView::Stopped,
            m.state.total_allocations == 0,
            m.state.total_deallocations == 0,
            m.state.failed_allocations == 0,
    {
        let mut m = CpuResourceManager::new(self.config, self.total_cores);
        m.scheduling_policy = self.scheduling_policy;
        m
    }
}


/// Releasing the cores that were just assigned restores the core table: always for a
/// shared assignment, and for an exclusive one when the cores were free before.
pub proof fn lemma_release_undoes_assign(
    before: Seq<CoreUsage>,
    mid: Seq<CoreUsage>,
    after: Seq<CoreUsage>,
    ids: Seq<u32>,
    exclusive: bool,
    tenant: String,
)
    requires
        before.len() <= u32::MAX,
        cores_assigned(before, mid, ids, exclusive, tenant),
        cores_released(mid, after, ids, exclusive),
        exclusive ==> forall|k: int|
            0 <= k < ids.len() ==> {
                let c = before[#[trigger] ids[k] as int];
                &&& c.allocated_vcpus == 0
                &&& !c.exclusive
                &&& c.exclusive_tenant is None
            },
    ensures
        after == before,
{
    assert forall|c: int| 0 <= c < before.len() implies after[c] == before[c] by {
        assert(mid[c] == mid[c]);
        if ids.contains(c as u32) {
            if exclusive {
                let k = choose|k: int| 0 <= k < ids.len() && ids[k] == c as u32;
                assert(before[ids[k] as int] == before[c]);
            }
            assert(after[c].core_id == before[c].core_id);
            assert(after[c].allocated_vcpus == before[c].allocated_vcpus);
            assert(after[c].exclusive == before[c].exclusive);
            assert(after[c].exclusive_tenant == before[c].exclusive_tenant);
            assert(after[c].utilization_permille == before[c].utilization_permille);
        }
    }
    assert(after =~= before);
}

} // verus!
