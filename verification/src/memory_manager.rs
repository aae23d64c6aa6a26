//! Memory resource manager: allocations of memory against a hard limit, an overcommit
//! ratio and a system reserve.
use rand::Rng;
use vstd::prelude::*;
use vstd::string::*;

use crate::cpu_manager::{
    allocation_id_text, lemma_filter_all, lemma_remove_is_filter, make_allocation_id, ManagerState,
};
use crate::decimal::{decimal, to_decimal, to_decimal_wide};
use crate::error::BlixardError;
use crate::resource_manager::{
    AllocationStatus, HealthView, ResourceAllocation, ResourceAllocationRequest, ResourceLimits,
    ResourceManagerConfig, ResourceManagerConfigBuilder, ResourceManagerHealth, ResourceType,
    ResourceTypeView, ResourceUsage,
};
use crate::text::text_eq;

verus! {

/// Memory resource manager.
pub struct MemoryResourceManager {
    pub config: ResourceManagerConfig,
    /// Allocations; no two share an id.
    pub allocations: Vec<ResourceAllocation>,
    pub usage: ResourceUsage,
    pub state: ManagerState,
}

/// Memory held by the active and reserved allocations.
pub open spec fn live_amount(s: Seq<ResourceAllocation>) -> nat
    decreases s.len(),
{
    if s.len() == 0 {
        0
    } else {
        live_amount(s.drop_last()) + if s.last().status@ is Active || s.last().status@ is Reserved {
            s.last().allocated_amount as nat
        } else {
            0
        }
    }
}

/// Number of active and reserved allocations.
pub open spec fn live_count(s: Seq<ResourceAllocation>) -> nat
    decreases s.len(),
{
    if s.len() == 0 {
        0
    } else {
        live_count(s.drop_last()) + if s.last().status@ is Active || s.last().status@ is Reserved {
            1nat
        } else {
            0
        }
    }
}

/// Memory the limits allow in all: the hard limit, scaled by the overcommit ratio when
/// overcommit is allowed (capped at the largest amount).
pub open spec fn effective_memory(l: ResourceLimits) -> nat {
    if l.allow_overcommit {
        let v = l.hard_limit * l.overcommit_permille / 1000;
        if v > u64::MAX {
            u64::MAX as nat
        } else {
            v as nat
        }
    } else {
        l.hard_limit as nat
    }
}

/// Memory still available with `allocated` taken: the effective capacity less the
/// allocations and the system reserve, never below zero.
pub open spec fn available_memory(l: ResourceLimits, allocated: nat) -> nat {
    let after_alloc = if effective_memory(l) >= allocated {
        (effective_memory(l) - allocated) as nat
    } else {
        0nat
    };
    if after_alloc >= l.system_reserve {
        (after_alloc - l.system_reserve) as nat
    } else {
        0
    }
}

/// What validation says of a request against the limits with `allocated` taken.
pub open spec fn memory_request_check(l: ResourceLimits, allocated: nat, request: ResourceAllocationRequest) -> Result<(), BlixardError> {
    if !(request.resource_type@ is Memory) {
        Err(
            BlixardError::InvalidInput {
                field: "resource_type",
                message: "Memory manager can only handle memory resources",
            },
        )
    } else if request.amount > available_memory(l, allocated) {
        Err(
            BlixardError::InsufficientResources {
                requested_cpu: 0,
                requested_memory_mb: request.amount,
                requested_disk_gb: 0,
                available_cpu: 0,
                available_memory_mb: available_memory(l, allocated) as u64,
                available_disk_gb: 0,
            },
        )
    } else {
        Ok(())
    }
}

/// Health from the used and total memory: unhealthy above 95% use, degraded above 85%
/// or when more is allocated than the capacity (with the use to a tenth of a percent,
/// rounded half up), healthy otherwise.
pub open spec fn memory_health(used: nat, total: nat, allocated: nat) -> HealthView {
    let high = total > 0 && 20 * used > 19 * total;
    let warm = total > 0 && 20 * used > 17 * total;
    let tenths = if total > 0 {
        (2000 * used + total) / (2 * total)
    } else {
        0
    };
    if high {
        HealthView::Unhealthy("Memory utilization critically high"@)
    } else if warm || allocated > total {
        HealthView::Degraded(
            "Memory utilization at "@ + decimal(tenths / 10) + "."@ + decimal(tenths % 10) + "%"@,
        )
    } else {
        HealthView::Healthy
    }
}

/// The share of allocated memory that is in use, in thousandths, drawn uniformly
/// from 750 up to but not including 900 with `rand::thread_rng().gen_range`.
/// Only the range is promised.
#[verifier::external_body]
pub(crate) fn sample_usage_ratio() -> (pm: u64)
    ensures
        750 <= pm < 900,
{
    rand::thread_rng().gen_range(750u64..900u64)
}

proof fn lemma_live_prefix(s: Seq<ResourceAllocation>, k: int)
    requires
        0 <= k <= s.len(),
    ensures
        live_amount(s.take(k)) <= live_amount(s),
        live_count(s.take(k)) <= live_count(s),
    decreases s.len() - k,
{
    if k < s.len() {
        lemma_live_prefix(s, k + 1);
        assert(s.take(k + 1).drop_last() =~= s.take(k));
    } else {
        assert(s.take(k) =~= s);
    }
}

proof fn lemma_live_count_bound(s: Seq<ResourceAllocation>)
    ensures
        live_count(s) <= s.len(),
    decreases s.len(),
{
    if s.len() > 0 {
        lemma_live_count_bound(s.drop_last());
    }
}

impl MemoryResourceManager {
    /// Well-formedness: allocation ids are unique.
    pub open spec fn wf(&self) -> bool {
        forall|i: int, j: int|
            0 <= i < j < self.allocations@.len() ==> self.allocations@[i].allocation_id@
                != self.allocations@[j].allocation_id@
    }

    /// A stopped manager without allocations; its capacity is the hard limit.
    pub fn new(config: ResourceManagerConfig) -> (m: Self)
        ensures
            m.wf(),
            m.config == (ResourceManagerConfig { resource_type: m.config.resource_type, ..config }),
            m.config.resource_type@ == ResourceTypeView::Memory,
            m.allocations@.len() == 0,
            m.usage.resource_type@ == ResourceTypeView::Memory,
            m.usage.total_capacity == config.limits.hard_limit,
            m.usage.allocated_amount == 0,
            m.usage.used_amount == 0,
            m.usage.allocation_count == 0,
            !m.state.is_running,
            m.state.health@ == HealthView::Stopped,
            m.state.total_allocations == 0,
            m.state.total_deallocations == 0,
            m.state.failed_allocations == 0,
    {
        let now_ms = crate::clock::now_millis();
        let mut config = config;
        config.resource_type = ResourceType::Memory;
        let capacity = config.limits.hard_limit;
        MemoryResourceManager {
            config,
            allocations: Vec::new(),
            usage: ResourceUsage {
                resource_type: ResourceType::Memory,
                total_capacity: capacity,
                allocated_amount: 0,
                used_amount: 0,
                allocation_count: 0,
                updated_at_ms: now_ms,
            },
            state: ManagerState::initial(now_ms),
        }
    }

    /// A builder with the default memory configuration.
    pub fn builder() -> (b: MemoryResourceManagerBuilder)
        ensures
            b.config.resource_type@ == ResourceTypeView::Memory,
    {
        MemoryResourceManagerBuilder::new()
    }

    /// The resource type handled: memory.
    pub fn resource_type(&self) -> (t: ResourceType)
        ensures
            t@ == ResourceTypeView::Memory,
    {
        ResourceType::Memory
    }

    /// Effective capacity under the overcommit setting.
    pub fn effective_capacity(&self) -> (c: u64)
        ensures
            c == effective_memory(self.config.limits),
    {
        let l = &self.config.limits;
        if l.allow_overcommit {
            proof {
                assert(l.hard_limit * l.overcommit_permille <= u64::MAX * u32::MAX) by (nonlinear_arith)
                    requires
                        l.hard_limit <= u64::MAX,
                        l.overcommit_permille <= u32::MAX,
                ;
            }
            let v: u128 = (l.hard_limit as u128) * (l.overcommit_permille as u128) / 1000;
            if v > u64::MAX as u128 {
                u64::MAX
            } else {
                v as u64
            }
        } else {
            l.hard_limit
        }
    }

    /// Memory available with `current_allocated` taken.
    pub fn available_capacity(&self, current_allocated: u64) -> (a: u64)
        ensures
            a == available_memory(self.config.limits, current_allocated as nat),
    {
        let effective = self.effective_capacity();
        effective.saturating_sub(current_allocated).saturating_sub(self.config.limits.system_reserve)
    }

    /// Checks a request: it must be for memory and fit in what is available.
    pub fn validate_allocation_request(&self, request: &ResourceAllocationRequest) -> (r: Result<(), BlixardError>)
        ensures
            r == memory_request_check(self.config.limits, self.usage.allocated_amount as nat, *request),
    {
        match request.resource_type {
            ResourceType::Memory => {},
            _ => {
                return Err(
                    BlixardError::InvalidInput {
                        field: "resource_type",
                        message: "Memory manager can only handle memory resources",
                    },
                );
            },
        }
        let available = self.available_capacity(self.usage.allocated_amount);
        if request.amount > available {
            return Err(
                BlixardError::InsufficientResources {
                    requested_cpu: 0,
                    requested_memory_mb: request.amount,
                    requested_disk_gb: 0,
                    available_cpu: 0,
                    available_memory_mb: available,
                    available_disk_gb: 0,
                },
            );
        }
        Ok(())
    }

    /// Whether the request can be granted now; requests for another resource type
    /// are an error.
    pub fn check_availability(&self, request: &ResourceAllocationRequest) -> (r: Result<bool, BlixardError>)
        ensures
            match memory_request_check(self.config.limits, self.usage.allocated_amount as nat, *request) {
                Ok(()) => r == Ok::<bool, BlixardError>(true),
                Err(e) => if e is InsufficientResources {
                    r == Ok::<bool, BlixardError>(false)
                } else {
                    r == Err::<bool, BlixardError>(e)
                },
            },
    {
        match self.validate_allocation_request(request) {
            Ok(()) => Ok(true),
            Err(e) => {
                if let BlixardError::InsufficientResources { .. } = e {
                    Ok(false)
                } else {
                    Err(e)
                }
            },
        }
    }

    /// Recomputes the allocated amount and allocation count from the allocations, and
    /// the used amount as `ratio_permille` thousandths of the allocated amount.
    fn update_usage_stats(&mut self, now_ms: i64, ratio_permille: u64)
        requires
            live_amount(old(self).allocations@) <= u64::MAX,
            ratio_permille <= 1000,
        ensures
            final(self).usage.allocated_amount == live_amount(old(self).allocations@),
            final(self).usage.allocation_count == live_count(old(self).allocations@),
            final(self).usage.used_amount == live_amount(old(self).allocations@) * ratio_permille / 1000,
            final(self).usage.updated_at_ms == now_ms,
            final(self).usage.total_capacity == old(self).usage.total_capacity,
            final(self).usage.resource_type == old(self).usage.resource_type,
            final(self).allocations == old(self).allocations,
            final(self).state == old(self).state,
            final(self).config == old(self).config,
    {
        let mut total: u64 = 0;
        let mut count: usize = 0;
        let mut i: usize = 0;
        proof {
            lemma_live_prefix(self.allocations@, 0);
        }
        while i < self.allocations.len()
            invariant
                i <= self.allocations@.len(),
                live_amount(self.allocations@) <= u64::MAX,
                total == live_amount(self.allocations@.take(i as int)),
                count == live_count(self.allocations@.take(i as int)),
                count <= i,
            decreases self.allocations@.len() - i,
        {
            proof {
                lemma_live_prefix(self.allocations@, i as int + 1);
                assert(self.allocations@.take(i as int + 1).drop_last() =~= self.allocations@.take(i as int));
            }
            let a = &self.allocations[i];
            if a.status.is_live() {
                total = total + a.allocated_amount;
                count = count + 1;
            }
            i = i + 1;
        }
        proof {
            assert(self.allocations@.take(self.allocations@.len() as int) =~= self.allocations@);
            assert(total * ratio_permille <= u64::MAX * 1000) by (nonlinear_arith)
                requires
                    total <= u64::MAX,
                    ratio_permille <= 1000,
            ;
            assert(total * ratio_permille / 1000 <= total) by (nonlinear_arith)
                requires
                    ratio_permille <= 1000,
            ;
        }
        self.usage.allocated_amount = total;
        self.usage.allocation_count = count;
        self.usage.used_amount = ((total as u128) * (ratio_permille as u128) / 1000) as u64;
        self.usage.updated_at_ms = now_ms;
    }

    fn find_allocation(&self, allocation_id: &str) -> (r: Option<usize>)
        ensures
            match r {
                Some(i) => i < self.allocations@.len() && self.allocations@[i as int].allocation_id@
                    == allocation_id@,
                None => forall|j: int|
                    0 <= j < self.allocations@.len() ==> self.allocations@[j].allocation_id@
                        != allocation_id@,
            },
    {
        let mut i: usize = 0;
        while i < self.allocations.len()
            invariant
                i <= self.allocations@.len(),
                forall|j: int| 0 <= j < i ==> self.allocations@[j].allocation_id@ != allocation_id@,
            decreases self.allocations@.len() - i,
        {
            if text_eq(self.allocations[i].allocation_id.as_str(), allocation_id) {
                return Some(i);
            }
            i = i + 1;
        }
        None
    }
}

/// The predicate keeping allocations whose id differs from `id`.
pub open spec fn other_allocation_ids(id: Seq<char>) -> spec_fn(ResourceAllocation) -> bool {
    |x: ResourceAllocation| x.allocation_id@ != id
}

proof fn lemma_live_amount_filter(s: Seq<ResourceAllocation>, pred: spec_fn(ResourceAllocation) -> bool)
    ensures
        live_amount(s.filter(pred)) <= live_amount(s),
    decreases s.len(),
{
    reveal(Seq::filter);
    if s.len() > 0 {
        lemma_live_amount_filter(s.drop_last(), pred);
        if pred(s.last()) {
            assert(s.filter(pred).drop_last() =~= s.drop_last().filter(pred));
        }
    }
}

pub(crate) proof fn lemma_live_remove(s: Seq<ResourceAllocation>, i: int)
    requires
        0 <= i < s.len(),
    ensures
        live_amount(s.remove(i)) <= live_amount(s),
    decreases s.len(),
{
    if i < s.len() - 1 {
        assert(s.remove(i).drop_last() =~= s.drop_last().remove(i));
        assert(s.remove(i).last() == s.last());
        lemma_live_remove(s.drop_last(), i);
    } else {
        assert(s.remove(i) =~= s.drop_last());
    }
}

impl MemoryResourceManager {
    fn drop_allocation_id(&mut self, allocation_id: &str)
        requires
            old(self).wf(),
        ensures
            final(self).wf(),
            final(self).allocations@ == old(self).allocations@.filter(other_allocation_ids(allocation_id@)),
            final(self).usage == old(self).usage,
            final(self).state == old(self).state,
            final(self).config == old(self).config,
    {
        let ghost pred = other_allocation_ids(allocation_id@);
        match self.find_allocation(allocation_id) {
            Some(i) => {
                let ghost before = self.allocations@;
                proof {
                    assert forall|j: int| 0 <= j < before.len() && j != i implies pred(before[j]) by {
                        if j < i {
                            assert(before[j].allocation_id@ != before[i as int].allocation_id@);
                        } else {
                            assert(before[i as int].allocation_id@ != before[j].allocation_id@);
                        }
                    }
                    lemma_remove_is_filter(before, i as int, pred);
                }
                self.allocations.remove(i);
                proof {
                    assert forall|a: int, b: int| 0 <= a < b < self.allocations@.len() implies self.allocations@[a].allocation_id@ != self.allocations@[b].allocation_id@ by {
                        if b < i {
                            assert(before[a].allocation_id@ != before[b].allocation_id@);
                        } else if a < i {
                            assert(before[a].allocation_id@ != before[b + 1].allocation_id@);
                        } else {
                            assert(before[a + 1].allocation_id@ != before[b + 1].allocation_id@);
                        }
                    }
                }
            },
            None => {
                proof {
                    lemma_filter_all(self.allocations@, pred);
                }
            },
        }
    }

    /// Allocates memory for a request, stamped with the current time; the used
    /// amount is estimated from a random share of the allocated one.
    pub fn allocate(&mut self, request: ResourceAllocationRequest) -> (r: Result<ResourceAllocation, BlixardError>)
        requires
            old(self).wf(),
            live_amount(old(self).allocations@) + request.amount <= u64::MAX,
        ensures
            final(self).wf(),
            r is Err <==> memory_request_check(old(self).config.limits, old(self).usage.allocated_amount as nat, request) is Err,
            r is Err ==> r == Err::<ResourceAllocation, BlixardError>(
                memory_request_check(old(self).config.limits, old(self).usage.allocated_amount as nat, request)->Err_0,
            ),
            r is Ok ==> r->Ok_0.status@ is Active && r->Ok_0.request == request
                && r->Ok_0.allocated_amount == request.amount,
    {
        let now_nanos = crate::clock::now_nanos();
        let now_ms = crate::clock::now_millis();
        let ratio = sample_usage_ratio();
        self.allocate_at(request, now_nanos, now_ms, ratio)
    }

    /// Allocates memory for a request at the given time: the request is checked,
    /// recorded under `mem-<tenant>-<nanos>` (replacing an allocation with that id),
    /// and usage is recomputed with `ratio_permille` thousandths of the allocated
    /// amount taken as used.
    pub fn allocate_at(&mut self, request: ResourceAllocationRequest, now_nanos: i64, now_ms: i64, ratio_permille: u64) -> (r: Result<ResourceAllocation, BlixardError>)
        requires
            old(self).wf(),
            live_amount(old(self).allocations@) + request.amount <= u64::MAX,
            ratio_permille <= 1000,
        ensures
            final(self).wf(),
            final(self).config == old(self).config,
            ({
                let check = memory_request_check(old(self).config.limits, old(self).usage.allocated_amount as nat, request);
                match check {
                    Err(e) => r == Err::<ResourceAllocation, BlixardError>(e)
                        && final(self).allocations@ == old(self).allocations@
                        && final(self).usage == old(self).usage
                        && final(self).state == old(self).state,
                    Ok(()) => r is Ok && {
                        let a = r->Ok_0;
                        let id = allocation_id_text("mem"@, request.tenant_id@, now_nanos as int);
                        &&& a.allocation_id@ == id
                        &&& a.request == request
                        &&& a.allocated_amount == request.amount
                        &&& (a.allocated_on matches Some(on) && on@ == "memory"@)
                        &&& a.allocated_at_ms == now_ms
                        &&& a.status@ is Active
                        &&& final(self).allocations@.len() >= 1
                        &&& final(self).allocations@.last()@ == a@
                        &&& final(self).allocations@.drop_last() == old(self).allocations@.filter(other_allocation_ids(id))
                        &&& final(self).usage.allocated_amount == live_amount(final(self).allocations@)
                        &&& final(self).usage.allocation_count == live_count(final(self).allocations@)
                        &&& final(self).usage.used_amount == live_amount(final(self).allocations@) * ratio_permille / 1000
                        &&& final(self).usage.updated_at_ms == now_ms
                        &&& final(self).usage.total_capacity == old(self).usage.total_capacity
                        &&& final(self).state.total_allocations == (if old(self).state.total_allocations == u64::MAX {
                            0
                        } else {
                            old(self).state.total_allocations + 1
                        })
                    },
                }
            }),
    {
        match self.validate_allocation_request(&request) {
            Ok(()) => {},
            Err(e) => {
                return Err(e);
            },
        }
        let allocation_id = make_allocation_id("mem", request.tenant_id.as_str(), now_nanos);
        let ghost id = allocation_id@;
        let ghost old_allocs = self.allocations@;
        let base = ResourceAllocation {
            allocation_id,
            allocated_amount: request.amount,
            request,
            allocated_on: Some(String::from_str("memory")),
            allocated_at_ms: now_ms,
            status: AllocationStatus::Active,
        };
        let stored = base.clone_allocation();
        self.drop_allocation_id(base.allocation_id.as_str());
        let ghost kept = self.allocations@;
        proof {
            lemma_live_amount_filter(old_allocs, other_allocation_ids(id));
        }
        self.allocations.push(stored);
        proof {
            assert(self.allocations@.drop_last() =~= kept);
            assert forall|a: int, b: int| 0 <= a < b < self.allocations@.len() implies self.allocations@[a].allocation_id@ != self.allocations@[b].allocation_id@ by {
                if b == self.allocations@.len() - 1 {
                    old_allocs.lemma_filter_pred(other_allocation_ids(id), a);
                } else {
                    assert(kept[a].allocation_id@ != kept[b].allocation_id@);
                }
            }
        }
        self.update_usage_stats(now_ms, ratio_permille);
        self.state.total_allocations = self.state.total_allocations.wrapping_add(1);
        Ok(base)
    }

    /// Releases an allocation; an unknown id is refused.
    pub fn deallocate(&mut self, allocation_id: &str, ratio_permille: u64) -> (r: Result<(), BlixardError>)
        requires
            old(self).wf(),
            live_amount(old(self).allocations@) <= u64::MAX,
            ratio_permille <= 1000,
        ensures
            final(self).wf(),
            final(self).config == old(self).config,
            (forall|j: int| 0 <= j < old(self).allocations@.len() ==> old(self).allocations@[j].allocation_id@ != allocation_id@)
                ==> r == Err::<(), BlixardError>(BlixardError::ResourceUnavailable {
                    resource_type: "memory",
                    message: "Allocation not found",
                }) && final(self).allocations@ == old(self).allocations@ && final(self).usage == old(self).usage,
            (exists|j: int| 0 <= j < old(self).allocations@.len() && old(self).allocations@[j].allocation_id@ == allocation_id@)
                ==> r is Ok && exists|j: int| {
                    &&& 0 <= j < old(self).allocations@.len()
                    &&& old(self).allocations@[j].allocation_id@ == allocation_id@
                    &&& final(self).allocations@ == old(self).allocations@.remove(j)
                    &&& final(self).usage.allocated_amount == live_amount(final(self).allocations@)
                    &&& final(self).usage.allocation_count == live_count(final(self).allocations@)
                    &&& final(self).usage.used_amount == live_amount(final(self).allocations@) * ratio_permille / 1000
                    &&& final(self).state.total_deallocations == (if old(self).state.total_deallocations == u64::MAX {
                        0
                    } else {
                        old(self).state.total_deallocations + 1
                    })
                },
    {
        let now_ms = crate::clock::now_millis();
        match self.find_allocation(allocation_id) {
            None => Err(
                BlixardError::ResourceUnavailable { resource_type: "memory", message: "Allocation not found" },
            ),
            Some(i) => {
                let ghost before = self.allocations@;
                self.allocations.remove(i);
                proof {
                    assert forall|a: int, b: int| 0 <= a < b < self.allocations@.len() implies self.allocations@[a].allocation_id@ != self.allocations@[b].allocation_id@ by {
                        if b < i {
                            assert(before[a].allocation_id@ != before[b].allocation_id@);
                        } else if a < i {
                            assert(before[a].allocation_id@ != before[b + 1].allocation_id@);
                        } else {
                            assert(before[a + 1].allocation_id@ != before[b + 1].allocation_id@);
                        }
                    }
                    lemma_live_remove(before, i as int);
                }
                self.update_usage_stats(now_ms, ratio_permille);
                self.state.total_deallocations = self.state.total_deallocations.wrapping_add(1);
                Ok(())
            },
        }
    }

    /// A copy of the current usage.
    pub fn get_usage(&self) -> (u: ResourceUsage)
        ensures
            u.resource_type@ == self.usage.resource_type@,
            u.total_capacity == self.usage.total_capacity,
            u.allocated_amount == self.usage.allocated_amount,
            u.used_amount == self.usage.used_amount,
            u.allocation_count == self.usage.allocation_count,
            u.updated_at_ms == self.usage.updated_at_ms,
    {
        ResourceUsage {
            resource_type: self.usage.resource_type.copy_type(),
            total_capacity: self.usage.total_capacity,
            allocated_amount: self.usage.allocated_amount,
            used_amount: self.usage.used_amount,
            allocation_count: self.usage.allocation_count,
            updated_at_ms: self.usage.updated_at_ms,
        }
    }

    /// The memory held by the live allocations, summed in a wider type.
    pub fn live_total(&self) -> (t: u128)
        ensures
            t == live_amount(self.allocations@),
    {
        let mut t: u128 = 0;
        let mut i: usize = 0;
        while i < self.allocations.len()
            invariant
                i <= self.allocations@.len(),
                t == live_amount(self.allocations@.take(i as int)),
                t <= i * u64::MAX,
            decreases self.allocations@.len() - i,
        {
            proof {
                assert(self.allocations@.take(i as int + 1).drop_last() =~= self.allocations@.take(i as int));
                assert((i + 1) * u64::MAX <= 0x1_0000_0000_0000_0000 * u64::MAX) by (nonlinear_arith)
                    requires
                        i < 0x1_0000_0000_0000_0000,
                ;
            }
            let a = &self.allocations[i];
            if a.status.is_live() {
                t = t + a.allocated_amount as u128;
            }
            i = i + 1;
        }
        proof {
            assert(self.allocations@.take(self.allocations@.len() as int) =~= self.allocations@);
        }
        t
    }

    /// Copies of all allocations, in order.
    pub fn get_allocations(&self) -> (r: Vec<ResourceAllocation>)
        ensures
            r@.len() == self.allocations@.len(),
            forall|i: int| 0 <= i < r@.len() ==> (#[trigger] r@[i])@ == self.allocations@[i]@,
    {
        let mut out: Vec<ResourceAllocation> = Vec::new();
        let mut i: usize = 0;
        while i < self.allocations.len()
            invariant
                i <= self.allocations@.len(),
                out@.len() == i,
                forall|q: int| 0 <= q < i ==> (#[trigger] out@[q])@ == self.allocations@[q]@,
            decreases self.allocations@.len() - i,
        {
            out.push(self.allocations[i].clone_allocation());
            i = i + 1;
        }
        out
    }

    /// A copy of the allocation with this id, if any.
    pub fn get_allocation(&self, allocation_id: &str) -> (r: Option<ResourceAllocation>)
        ensures
            match r {
                Some(a) => exists|j: int|
                    0 <= j < self.allocations@.len() && self.allocations@[j].allocation_id@ == allocation_id@
                        && a@ == self.allocations@[j]@,
                None => forall|j: int|
                    0 <= j < self.allocations@.len() ==> self.allocations@[j].allocation_id@ != allocation_id@,
            },
    {
        match self.find_allocation(allocation_id) {
            Some(i) => Some(self.allocations[i].clone_allocation()),
            None => None,
        }
    }

    /// Sets the capacity to the hard limit and marks the manager healthy.
    pub fn initialize(&mut self)
        ensures
            final(self).usage.total_capacity == old(self).config.limits.hard_limit,
            final(self).usage.allocated_amount == old(self).usage.allocated_amount,
            final(self).usage.allocation_count == old(self).usage.allocation_count,
            final(self).usage.used_amount == old(self).usage.used_amount,
            final(self).state.health@ == HealthView::Healthy,
            final(self).state.is_running == old(self).state.is_running,
            final(self).allocations == old(self).allocations,
            final(self).config == old(self).config,
    {
        let now_ms = crate::clock::now_millis();
        self.usage.total_capacity = self.config.limits.hard_limit;
        self.usage.updated_at_ms = now_ms;
        self.state.health = ResourceManagerHealth::Healthy;
        self.state.last_health_check_ms = now_ms;
    }

    /// Marks the manager running and healthy (background tasks are started by the caller).
    pub fn start(&mut self)
        ensures
            final(self).state.is_running,
            final(self).state.health@ == HealthView::Healthy,
            final(self).allocations == old(self).allocations,
            final(self).usage == old(self).usage,
            final(self).config == old(self).config,
    {
        self.state.is_running = true;
        self.state.health = ResourceManagerHealth::Healthy;
    }

    /// Marks the manager stopped.
    pub fn stop(&mut self)
        ensures
            !final(self).state.is_running,
            final(self).state.health@ == HealthView::Stopped,
            final(self).allocations == old(self).allocations,
            final(self).usage == old(self).usage,
            final(self).config == old(self).config,
    {
        self.state.is_running = false;
        self.state.health = ResourceManagerHealth::Stopped;
    }

    /// The last recorded health.
    pub fn health_check(&self) -> (h: ResourceManagerHealth)
        ensures
            h@ == self.state.health@,
    {
        match &self.state.health {
            ResourceManagerHealth::Healthy => ResourceManagerHealth::Healthy,
            ResourceManagerHealth::Degraded(m) => ResourceManagerHealth::Degraded(m.clone()),
            ResourceManagerHealth::Unhealthy(m) => ResourceManagerHealth::Unhealthy(m.clone()),
            ResourceManagerHealth::Stopped => ResourceManagerHealth::Stopped,
        }
    }

    /// Whether the manager is running.
    pub fn is_running(&self) -> (b: bool)
        ensures
            b == self.state.is_running,
    {
        self.state.is_running
    }

    /// Records a health check at `now_ms` from the current usage.
    pub fn record_health(&mut self, now_ms: i64)
        ensures
            final(self).state.health@ == memory_health(
                old(self).usage.used_amount as nat,
                old(self).usage.total_capacity as nat,
                old(self).usage.allocated_amount as nat,
            ),
            final(self).state.last_health_check_ms == now_ms,
            final(self).state.is_running == old(self).state.is_running,
            final(self).allocations == old(self).allocations,
            final(self).usage == old(self).usage,
            final(self).config == old(self).config,
    {
        let used = self.usage.used_amount as u128;
        let total = self.usage.total_capacity as u128;
        let allocated = self.usage.allocated_amount;
        let high = total > 0 && 20 * used > 19 * total;
        let warm = total > 0 && 20 * used > 17 * total;
        self.state.health = if high {
            ResourceManagerHealth::Unhealthy(String::from_str("Memory utilization critically high"))
        } else if warm || allocated > self.usage.total_capacity {
            let tenths: u128 = if total > 0 {
                (2000 * used + total) / (2 * total)
            } else {
                0
            };
            let mut s = String::from_str("Memory utilization at ");
            let whole = to_decimal_wide(tenths / 10);
            s.append(whole.as_str());
            s.append(".");
            let frac = to_decimal((tenths % 10) as u64);
            s.append(frac.as_str());
            s.append("%");
            ResourceManagerHealth::Degraded(s)
        } else {
            ResourceManagerHealth::Healthy
        };
        self.state.last_health_check_ms = now_ms;
    }

    /// Takes new limits: the capacity becomes the hard limit. Limits for another
    /// resource type are refused.
    pub fn update_limits(&mut self, limits: &ResourceLimits) -> (r: Result<(), BlixardError>)
        ensures
            !(limits.resource_type@ is Memory) ==> r == Err::<(), BlixardError>(BlixardError::InvalidInput {
                field: "resource_type",
                message: "Limits must be for memory resource type",
            }) && final(self).usage == old(self).usage,
            limits.resource_type@ is Memory ==> r is Ok && final(self).usage.total_capacity == limits.hard_limit
                && final(self).usage.allocated_amount == old(self).usage.allocated_amount
                && final(self).usage.allocation_count == old(self).usage.allocation_count,
            final(self).allocations == old(self).allocations,
            final(self).state == old(self).state,
            final(self).config == old(self).config,
    {
        match limits.resource_type {
            ResourceType::Memory => {},
            _ => {
                return Err(
                    BlixardError::InvalidInput {
                        field: "resource_type",
                        message: "Limits must be for memory resource type",
                    },
                );
            },
        }
        let now_ms = crate::clock::now_millis();
        self.usage.total_capacity = limits.hard_limit;
        self.usage.updated_at_ms = now_ms;
        Ok(())
    }

    /// Checks a configuration: for memory, a non-zero hard limit, a soft limit not
    /// above it, and an overcommit ratio of at least one; checked in that order.
    pub fn validate_config(&self, config: &ResourceManagerConfig) -> (r: Result<(), BlixardError>)
        ensures
            !(config.resource_type@ is Memory) ==> r == Err::<(), BlixardError>(BlixardError::InvalidInput {
                field: "resource_type",
                message: "Configuration must be for memory resource type",
            }),
            config.resource_type@ is Memory && config.limits.hard_limit == 0 ==> r == Err::<(), BlixardError>(BlixardError::InvalidInput {
                field: "hard_limit",
                message: "Hard limit must be greater than 0",
            }),
            config.resource_type@ is Memory && config.limits.hard_limit != 0
                && config.limits.soft_limit > config.limits.hard_limit ==> r == Err::<(), BlixardError>(BlixardError::InvalidInput {
                field: "soft_limit",
                message: "Soft limit cannot exceed hard limit",
            }),
            config.resource_type@ is Memory && config.limits.hard_limit != 0
                && config.limits.soft_limit <= config.limits.hard_limit
                && config.limits.overcommit_permille < 1000 ==> r == Err::<(), BlixardError>(BlixardError::InvalidInput {
                field: "overcommit_ratio",
                message: "Overcommit ratio must be at least 1.0",
            }),
            r is Ok <==> (config.resource_type@ is Memory && config.limits.hard_limit != 0
                && config.limits.soft_limit <= config.limits.hard_limit
                && config.limits.overcommit_permille >= 1000),
    {
        match config.resource_type {
            ResourceType::Memory => {},
            _ => {
                return Err(
                    BlixardError::InvalidInput {
                        field: "resource_type",
                        message: "Configuration must be for memory resource type",
                    },
                );
            },
        }
        if config.limits.hard_limit == 0 {
            return Err(
                BlixardError::InvalidInput {
                    field: "hard_limit",
                    message: "Hard limit must be greater than 0",
                },
            );
        }
        if config.limits.soft_limit > config.limits.hard_limit {
            return Err(
                BlixardError::InvalidInput {
                    field: "soft_limit",
                    message: "Soft limit cannot exceed hard limit",
                },
            );
        }
        if config.limits.overcommit_permille < 1000 {
            return Err(
                BlixardError::InvalidInput {
                    field: "overcommit_ratio",
                    message: "Overcommit ratio must be at least 1.0",
                },
            );
        }
        Ok(())
    }

    /// Validates a new configuration; the current one stays in force.
    pub fn update_config(&self, config: &ResourceManagerConfig) -> (r: Result<(), BlixardError>)
        ensures
            r is Ok <==> (config.resource_type@ is Memory && config.limits.hard_limit != 0
                && config.limits.soft_limit <= config.limits.hard_limit
                && config.limits.overcommit_permille >= 1000),
            r is Err ==> r->Err_0 is InvalidInput,
    {
        self.validate_config(config)
    }
}

/// Releasing an allocation just made under a fresh id gives back the allocations
/// there were before it, with the same amount in use.
pub proof fn lemma_deallocate_undoes_allocate(before: Seq<ResourceAllocation>, a: ResourceAllocation, j: int)
    requires
        forall|k: int| 0 <= k < before.len() ==> before[k].allocation_id@ != a.allocation_id@,
        0 <= j < before.len() + 1,
        before.filter(other_allocation_ids(a.allocation_id@)).push(a)[j].allocation_id@ == a.allocation_id@,
    ensures
        before.filter(other_allocation_ids(a.allocation_id@)) == before,
        j == before.len(),
        before.filter(other_allocation_ids(a.allocation_id@)).push(a).remove(j) == before,
        live_amount(before.filter(other_allocation_ids(a.allocation_id@)).push(a).remove(j)) == live_amount(before),
{
    let pred = other_allocation_ids(a.allocation_id@);
    lemma_filter_all(before, pred);
    if j < before.len() {
        assert(before.push(a)[j] == before[j]);
    }
    assert(before.push(a).remove(before.len() as int) =~= before);
}

/// Builder of a [`MemoryResourceManager`].
pub struct MemoryResourceManagerBuilder {
    pub config: ResourceManagerConfig,
}

impl MemoryResourceManagerBuilder {
    /// Starts from the default memory configuration.
    pub fn new() -> (b: Self)
        ensures
            b.config.resource_type@ == ResourceTypeView::Memory,
    {
        MemoryResourceManagerBuilder {
            config: ResourceManagerConfigBuilder::new(ResourceType::Memory).build(),
        }
    }

    /// Sets the capacity as hard limit, with a soft limit of 80% of it.
    pub fn with_capacity(self, capacity_mb: u64) -> (b: Self)
        ensures
            b.config == (ResourceManagerConfig {
                limits: ResourceLimits {
                    hard_limit: capacity_mb,
                    soft_limit: (capacity_mb * 8 / 10) as u64,
                    ..self.config.limits
                },
                ..self.config
            }),
    {
        let mut config = self.config;
        config.limits.hard_limit = capacity_mb;
        config.limits.soft_limit = ((capacity_mb as u128) * 8 / 10) as u64;
        MemoryResourceManagerBuilder { config }
    }

    /// Allows overcommit with the given ratio (thousandths).
    pub fn with_overcommit(self, ratio_permille: u32) -> (b: Self)
        ensures
            b.config == (ResourceManagerConfig {
                limits: ResourceLimits {
                    allow_overcommit: true,
                    overcommit_permille: ratio_permille,
                    ..self.config.limits
                },
                ..self.config
            }),
    {
        let mut config = self.config;
        config.limits.allow_overcommit = true;
        config.limits.overcommit_permille = ratio_permille;
        MemoryResourceManagerBuilder { config }
    }

    /// Turns monitoring on or off and sets its interval.
    pub fn with_monitoring(self, enabled: bool, interval_ms: u64) -> (b: Self)
        ensures
            b.config == (ResourceManagerConfig {
                enable_monitoring: enabled,
                monitoring_interval_ms: interval_ms,
                ..self.config
            }),
    {
        let mut config = self.config;
        config.enable_monitoring = enabled;
        config.monitoring_interval_ms = interval_ms;
        MemoryResourceManagerBuilder { config }
    }

    /// Turns health checks on or off and sets their interval.
    pub fn with_health_checks(self, enabled: bool, interval_ms: u64) -> (b: Self)
        ensures
            b.config == (ResourceManagerConfig {
                enable_health_checks: enabled,
                health_check_interval_ms: interval_ms,
                ..self.config
            }),
    {
        let mut config = self.config;
        config.enable_health_checks = enabled;
        config.health_check_interval_ms = interval_ms;
        MemoryResourceManagerBuilder { config }
    }

    /// The manager.
    pub fn build(self) -> (m: MemoryResourceManager)
        ensures
            m.wf(),
            m.config == (ResourceManagerConfig { resource_type: m.config.resource_type, ..self.config }),
            m.config.resource_type@ == ResourceTypeView::Memory,
            m.allocations@.len() == 0,
            m.usage.total_capacity == self.config.limits.hard_limit,
            m.usage.allocated_amount == 0,
            m.usage.allocation_count == 0,
            !m.state.is_running,
    {
        MemoryResourceManager::new(self.config)
    }
}

} // verus!
