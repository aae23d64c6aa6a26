//! A resource manager made of one manager per resource type.
use vstd::prelude::*;
use vstd::string::*;

use crate::cpu_cores::{load_orders, select_cores};
use crate::cpu_manager::{allocation_result, exclusive_requested, live_cores, CpuResourceManager};
use crate::error::BlixardError;
use crate::factory::{DefaultResourceManagerFactory, ManagedResource};
use crate::memory_manager::{live_amount, memory_request_check, MemoryResourceManager};
use crate::resource_manager::{
    aggregate_health, combined_health, AllocationStatusView, HealthView, ResourceAllocation,
    ResourceAllocationRequest, ResourceManagerConfig, ResourceManagerConfigBuilder, ResourceManagerHealth,
    ResourceType, ResourceTypeView, ResourceUsage,
};
use crate::tables::{Keyed, Table};

verus! {

impl<T> Keyed for (ResourceType, T) {
    type Key = ResourceType;

    open spec fn key_of(&self) -> ResourceTypeView {
        self.0@
    }

    fn has_key(&self, k: &ResourceType) -> (r: bool) {
        self.0.same_as(k)
    }

    fn key(&self) -> (k: ResourceType) {
        self.0.copy_type()
    }
}

/// The usage figures a manager keeps.
pub open spec fn managed_usage(m: ManagedResource) -> ResourceUsage {
    match m {
        ManagedResource::Memory(mm) => mm.usage,
        ManagedResource::Cpu(cm) => cm.usage,
    }
}

/// Whether a manager is running.
pub open spec fn managed_running(m: ManagedResource) -> bool {
    match m {
        ManagedResource::Memory(mm) => mm.state.is_running,
        ManagedResource::Cpu(cm) => cm.state.is_running,
    }
}

/// The health a manager last recorded.
pub open spec fn managed_health(m: ManagedResource) -> HealthView {
    match m {
        ManagedResource::Memory(mm) => mm.state.health@,
        ManagedResource::Cpu(cm) => cm.state.health@,
    }
}

/// Well-formed manager.
pub open spec fn managed_wf(m: ManagedResource) -> bool {
    match m {
        ManagedResource::Memory(mm) => mm.wf(),
        ManagedResource::Cpu(cm) => cm.wf(),
    }
}

/// Whether a manager can take an allocation request without overflowing its
/// counters.
pub open spec fn managed_can_allocate(m: ManagedResource, request: ResourceAllocationRequest) -> bool {
    match m {
        ManagedResource::Memory(mm) => live_amount(mm.allocations@) + request.amount <= u64::MAX,
        ManagedResource::Cpu(cm) => {
            &&& forall|c: int| 0 <= c < cm.core_usage@.len() ==> (#[trigger] cm.core_usage@[c]).allocated_vcpus < u32::MAX
            &&& live_cores(cm.allocations@) + u32::MAX <= u64::MAX
        },
    }
}

/// What a manager's answer `r` to an allocation request says, from manager
/// `before` to manager `after`, as each kind of manager states it: a memory
/// manager refuses exactly what its checks refuse and grants the amount asked; a
/// CPU manager does what [`allocation_result`] says at some moment of the call.
pub open spec fn allocate_answer(
    before: ManagedResource,
    after: ManagedResource,
    request: ResourceAllocationRequest,
    r: Result<ResourceAllocation, BlixardError>,
) -> bool {
    match before {
        ManagedResource::Memory(mm) => {
            &&& after is Memory
            &&& (r is Err <==> memory_request_check(mm.config.limits, mm.usage.allocated_amount as nat, request) is Err)
            &&& r is Err ==> r == Err::<ResourceAllocation, BlixardError>(
                memory_request_check(mm.config.limits, mm.usage.allocated_amount as nat, request)->Err_0,
            )
            &&& r is Ok ==> r->Ok_0.status@ is Active && r->Ok_0.request == request && r->Ok_0.allocated_amount
                == request.amount
        },
        ManagedResource::Cpu(cm) => {
            &&& after is Cpu
            &&& exists|now_nanos: i64, now_ms: i64|
                #[trigger] allocation_result(cm, after->Cpu_0, request, now_nanos, now_ms, r)
        },
    }
}

/// What a manager answers on whether a request can be granted now.
pub open spec fn availability_answer(m: ManagedResource, request: ResourceAllocationRequest, r: Result<bool, BlixardError>) -> bool {
    match m {
        ManagedResource::Memory(mm) => match memory_request_check(mm.config.limits, mm.usage.allocated_amount as nat, request) {
            Ok(()) => r == Ok::<bool, BlixardError>(true),
            Err(e) => if e is InsufficientResources {
                r == Ok::<bool, BlixardError>(false)
            } else {
                r == Err::<bool, BlixardError>(e)
            },
        },
        ManagedResource::Cpu(cm) => {
            &&& !(request.resource_type@ is Cpu) ==> r == Ok::<bool, BlixardError>(false)
            &&& request.resource_type@ is Cpu ==> exists|lowest: Seq<u32>, lowest_all: Seq<u32>|
                {
                    &&& #[trigger] load_orders(cm.core_usage@, exclusive_requested(request.metadata@), request.amount as u32 as nat, lowest, lowest_all)
                    &&& r == Ok::<bool, BlixardError>(
                        select_cores(
                            cm.core_usage@,
                            cm.scheduling_policy,
                            request.amount as u32 as nat,
                            exclusive_requested(request.metadata@),
                            lowest,
                            lowest_all,
                        ) is Ok,
                    )
                }
        },
    }
}

impl ManagedResource {
    /// The manager's usage figures.
    pub fn get_usage(&self) -> (u: ResourceUsage)
        ensures
            u.resource_type@ == managed_usage(*self).resource_type@,
            u.total_capacity == managed_usage(*self).total_capacity,
            u.allocated_amount == managed_usage(*self).allocated_amount,
            u.used_amount == managed_usage(*self).used_amount,
            u.allocation_count == managed_usage(*self).allocation_count,
    {
        match self {
            ManagedResource::Memory(m) => m.get_usage(),
            ManagedResource::Cpu(m) => m.get_usage(),
        }
    }

    /// The manager's last recorded health.
    pub fn health_check(&self) -> (h: ResourceManagerHealth)
        ensures
            h@ == managed_health(*self),
    {
        match self {
            ManagedResource::Memory(m) => m.health_check(),
            ManagedResource::Cpu(m) => m.health_check(),
        }
    }

    /// Whether the manager is running.
    pub fn is_running(&self) -> (b: bool)
        ensures
            b == managed_running(*self),
    {
        match self {
            ManagedResource::Memory(m) => m.is_running(),
            ManagedResource::Cpu(m) => m.is_running(),
        }
    }

    /// Initializes the manager: it takes its configured capacity and is marked
    /// healthy.
    pub fn initialize(&mut self)
        requires
            managed_wf(*old(self)),
        ensures
            managed_wf(*final(self)),
            managed_health(*final(self)) == HealthView::Healthy,
            managed_running(*final(self)) == managed_running(*old(self)),
            managed_usage(*final(self)).allocated_amount == managed_usage(*old(self)).allocated_amount,
            managed_usage(*final(self)).allocation_count == managed_usage(*old(self)).allocation_count,
            managed_usage(*final(self)).total_capacity == match *old(self) {
                ManagedResource::Memory(mm) => mm.config.limits.hard_limit,
                ManagedResource::Cpu(cm) => cm.total_cores as u64,
            },
    {
        match self {
            ManagedResource::Memory(m) => m.initialize(),
            ManagedResource::Cpu(m) => m.initialize(),
        }
    }

    /// Starts the manager.
    pub fn start(&mut self)
        requires
            managed_wf(*old(self)),
        ensures
            managed_wf(*final(self)),
            managed_running(*final(self)),
            managed_health(*final(self)) == HealthView::Healthy,
            managed_usage(*final(self)) == managed_usage(*old(self)),
    {
        match self {
            ManagedResource::Memory(m) => m.start(),
            ManagedResource::Cpu(m) => m.start(),
        }
    }

    /// Stops the manager.
    pub fn stop(&mut self)
        requires
            managed_wf(*old(self)),
        ensures
            managed_wf(*final(self)),
            !managed_running(*final(self)),
            managed_health(*final(self)) == HealthView::Stopped,
            managed_usage(*final(self)) == managed_usage(*old(self)),
    {
        match self {
            ManagedResource::Memory(m) => m.stop(),
            ManagedResource::Cpu(m) => m.stop(),
        }
    }
}

/// Capacity, allocated amount, used amount and allocation count summed over the
/// managers of `s`.
pub open spec fn usage_sums(s: Seq<(ResourceType, ManagedResource)>) -> (nat, nat, nat, nat)
    decreases s.len(),
{
    if s.len() == 0 {
        (0, 0, 0, 0)
    } else {
        let p = usage_sums(s.drop_last());
        let u = managed_usage(s.last().1);
        (
            p.0 + u.total_capacity as nat,
            p.1 + u.allocated_amount as nat,
            p.2 + u.used_amount as nat,
            p.3 + u.allocation_count as nat,
        )
    }
}

/// The health checks of the managers of `s`, in order.
pub open spec fn health_of_all(s: Seq<(ResourceType, ManagedResource)>) -> Seq<Option<HealthView>> {
    s.map_values(|e: (ResourceType, ManagedResource)| Some(managed_health(e.1)))
}

/// Managers of several resource types behind one interface.
pub struct CompositeResourceManager {
    /// One manager per resource type.
    pub managers: Table<(ResourceType, ManagedResource)>,
    pub config: ResourceManagerConfig,
}

impl CompositeResourceManager {
    /// Well-formed: one manager per type, each well-formed.
    pub open spec fn wf(&self) -> bool {
        &&& self.managers.wf()
        &&& forall|i: int| 0 <= i < self.managers.entries@.len() ==> managed_wf(#[trigger] self.managers.entries@[i].1)
    }

    /// No managers yet; the configuration is the default one for the custom type
    /// `composite`.
    pub fn new() -> (c: Self)
        ensures
            c.wf(),
            c.managers.entries@.len() == 0,
            c.config.resource_type@ == ResourceTypeView::Custom("composite"@),
    {
        proof {
            reveal_strlit("composite");
        }
        let config = ResourceManagerConfigBuilder::new(ResourceType::Custom(String::from_str("composite"))).build();
        CompositeResourceManager { managers: Table::new(), config }
    }

    /// The custom type `composite`.
    pub fn resource_type(&self) -> (t: ResourceType)
        ensures
            t@ == ResourceTypeView::Custom("composite"@),
    {
        proof {
            reveal_strlit("composite");
        }
        ResourceType::Custom(String::from_str("composite"))
    }

    /// The configuration.
    pub fn config(&self) -> (c: &ResourceManagerConfig)
        ensures
            *c == self.config,
    {
        &self.config
    }

    /// Puts `manager` in charge of `resource_type`, in place of any manager it had.
    pub fn add_manager(&mut self, resource_type: ResourceType, manager: ManagedResource)
        requires
            old(self).wf(),
            managed_wf(manager),
        ensures
            final(self).wf(),
            final(self).managers.map() == old(self).managers.map().insert(resource_type@, (resource_type, manager)),
            final(self).config == old(self).config,
    {
        let key = resource_type.copy_type();
        self.managers.insert((resource_type, manager), &key);
    }

    /// Takes away the manager of `resource_type`, stopping it, if there is one.
    pub fn remove_manager(&mut self, resource_type: &ResourceType) -> (r: Result<(), BlixardError>)
        requires
            old(self).wf(),
        ensures
            final(self).wf(),
            r is Ok,
            final(self).managers.map() == old(self).managers.map().remove(resource_type@),
            final(self).config == old(self).config,
    {
        let taken = self.managers.take(resource_type);
        match taken {
            Some((_, mut manager)) => {
                manager.stop();
            },
            None => {},
        }
        Ok(())
    }

    /// The resource types that have a manager, in table order.
    pub fn get_resource_types(&self) -> (r: Vec<ResourceType>)
        ensures
            r@.len() == self.managers.entries@.len(),
            forall|i: int| 0 <= i < r@.len() ==> (#[trigger] r@[i])@ == self.managers.entries@[i].0@,
    {
        let mut r: Vec<ResourceType> = Vec::new();
        let mut i: usize = 0;
        while i < self.managers.entries.len()
            invariant
                i <= self.managers.entries@.len(),
                r@.len() == i,
                forall|j: int| 0 <= j < i ==> (#[trigger] r@[j])@ == self.managers.entries@[j].0@,
            decreases self.managers.entries@.len() - i,
        {
            r.push(self.managers.entries[i].0.copy_type());
            i = i + 1;
        }
        r
    }

    /// Usage summed over all managers, stamped `now_ms`.
    pub fn get_usage_at(&self, now_ms: i64) -> (u: ResourceUsage)
        requires
            usage_sums(self.managers.entries@).0 <= u64::MAX,
            usage_sums(self.managers.entries@).1 <= u64::MAX,
            usage_sums(self.managers.entries@).2 <= u64::MAX,
            usage_sums(self.managers.entries@).3 <= usize::MAX,
        ensures
            u.resource_type@ == ResourceTypeView::Custom("composite"@),
            (u.total_capacity as nat, u.allocated_amount as nat, u.used_amount as nat, u.allocation_count as nat)
                == usage_sums(self.managers.entries@),
            u.updated_at_ms == now_ms,
    {
        let ghost s = self.managers.entries@;
        let mut capacity: u64 = 0;
        let mut allocated: u64 = 0;
        let mut used: u64 = 0;
        let mut count: usize = 0;
        let mut i: usize = 0;
        while i < self.managers.entries.len()
            invariant
                s == self.managers.entries@,
                i <= s.len(),
                (capacity as nat, allocated as nat, used as nat, count as nat) == usage_sums(s.take(i as int)),
                usage_sums(s).0 <= u64::MAX,
                usage_sums(s).1 <= u64::MAX,
                usage_sums(s).2 <= u64::MAX,
                usage_sums(s).3 <= usize::MAX,
            decreases s.len() - i,
        {
            assert(s.take(i + 1).drop_last() =~= s.take(i as int));
            assert(s.take(i + 1).last() == s[i as int]);
            proof {
                lemma_usage_sums_prefix(s, i + 1);
            }
            let u = self.managers.entries[i].1.get_usage();
            capacity = capacity + u.total_capacity;
            allocated = allocated + u.allocated_amount;
            used = used + u.used_amount;
            count = count + u.allocation_count;
            i = i + 1;
        }
        assert(s.take(s.len() as int) =~= s);
        proof {
            reveal_strlit("composite");
        }
        ResourceUsage {
            resource_type: ResourceType::Custom(String::from_str("composite")),
            total_capacity: capacity,
            allocated_amount: allocated,
            used_amount: used,
            allocation_count: count,
            updated_at_ms: now_ms,
        }
    }

    /// Usage summed over all managers, stamped with the current time.
    pub fn get_usage(&self) -> (u: ResourceUsage)
        requires
            usage_sums(self.managers.entries@).0 <= u64::MAX,
            usage_sums(self.managers.entries@).1 <= u64::MAX,
            usage_sums(self.managers.entries@).2 <= u64::MAX,
            usage_sums(self.managers.entries@).3 <= usize::MAX,
        ensures
            u.resource_type@ == ResourceTypeView::Custom("composite"@),
            (u.total_capacity as nat, u.allocated_amount as nat, u.used_amount as nat, u.allocation_count as nat)
                == usage_sums(self.managers.entries@),
    {
        self.get_usage_at(crate::clock::now_millis())
    }

    /// Starts (when `run` holds) or stops every manager.
    fn set_all_running(&mut self, run: bool)
        requires
            old(self).wf(),
        ensures
            final(self).wf(),
            final(self).config == old(self).config,
            final(self).managers.entries@.len() == old(self).managers.entries@.len(),
            forall|i: int|
                0 <= i < final(self).managers.entries@.len() ==> {
                    let e = #[trigger] final(self).managers.entries@[i];
                    &&& e.0 == old(self).managers.entries@[i].0
                    &&& managed_running(e.1) == run
                    &&& managed_health(e.1) == (if run {
                        HealthView::Healthy
                    } else {
                        HealthView::Stopped
                    })
                    &&& managed_usage(e.1) == managed_usage(old(self).managers.entries@[i].1)
                },
    {
        let ghost s0 = self.managers.entries@;
        let mut pending: Vec<(ResourceType, ManagedResource)> = Vec::new();
        std::mem::swap(&mut pending, &mut self.managers.entries);
        let mut done: Vec<(ResourceType, ManagedResource)> = Vec::new();
        let n = pending.len();
        let mut k: usize = 0;
        while k < n
            invariant
                n == s0.len(),
                k <= n,
                pending@ == s0.skip(k as int),
                done@.len() == k,
                forall|i: int|
                    0 <= i < k ==> {
                        let e = #[trigger] done@[i];
                        &&& e.0 == s0[i].0
                        &&& managed_wf(e.1)
                        &&& managed_running(e.1) == run
                        &&& managed_health(e.1) == (if run {
                            HealthView::Healthy
                        } else {
                            HealthView::Stopped
                        })
                        &&& managed_usage(e.1) == managed_usage(s0[i].1)
                    },
                forall|i: int| 0 <= i < s0.len() ==> managed_wf(#[trigger] s0[i].1),
            decreases n - k,
        {
            let ghost before = pending@;
            let mut e = pending.remove(0);
            assert(pending@ =~= s0.skip(k + 1));
            assert(e == s0[k as int]);
            if run {
                e.1.start();
            } else {
                e.1.stop();
            }
            done.push(e);
            k = k + 1;
        }
        self.managers.entries = done;
        proof {
            let s1 = self.managers.entries@;
            assert forall|a: int, b: int| 0 <= a < b < s1.len() implies (#[trigger] s1[a]).key_of() != (#[trigger] s1[b]).key_of() by {
                assert(s0[a].key_of() != s0[b].key_of());
            }
        }
    }

    /// Initializes every manager: each takes its configured capacity and is
    /// marked healthy.
    pub fn initialize(&mut self)
        requires
            old(self).wf(),
        ensures
            final(self).wf(),
            final(self).config == old(self).config,
            final(self).managers.entries@.len() == old(self).managers.entries@.len(),
            forall|i: int|
                0 <= i < final(self).managers.entries@.len() ==> {
                    let e = #[trigger] final(self).managers.entries@[i];
                    &&& e.0 == old(self).managers.entries@[i].0
                    &&& managed_health(e.1) == HealthView::Healthy
                    &&& managed_running(e.1) == managed_running(old(self).managers.entries@[i].1)
                },
    {
        let mut i: usize = 0;
        while i < self.managers.entries.len()
            invariant
                i <= self.managers.entries@.len(),
                self.wf(),
                self.config == old(self).config,
                self.managers.entries@.len() == old(self).managers.entries@.len(),
                forall|q: int|
                    0 <= q < self.managers.entries@.len() ==> (#[trigger] self.managers.entries@[q]).0
                        == old(self).managers.entries@[q].0,
                forall|q: int|
                    0 <= q < i ==> {
                        let e = #[trigger] self.managers.entries@[q];
                        &&& managed_health(e.1) == HealthView::Healthy
                        &&& managed_running(e.1) == managed_running(old(self).managers.entries@[q].1)
                    },
                forall|q: int| i <= q < self.managers.entries@.len() ==> #[trigger] self.managers.entries@[q] == old(self).managers.entries@[q],
            decreases self.managers.entries@.len() - i,
        {
            let ghost before = self.managers.entries@;
            let mut e = self.managers.entries.remove(i);
            e.1.initialize();
            self.managers.entries.insert(i, e);
            proof {
                let after = self.managers.entries@;
                assert(after =~= before.update(i as int, after[i as int]));
                assert forall|a: int, b: int| 0 <= a < b < after.len() implies (#[trigger] after[a]).key_of()
                    != (#[trigger] after[b]).key_of() by {
                    assert(before[a].key_of() != before[b].key_of());
                }
                assert forall|q: int| 0 <= q < after.len() implies managed_wf(#[trigger] after[q].1) by {
                    if q != i {
                        assert(managed_wf(before[q].1));
                    }
                }
            }
            i = i + 1;
        }
    }

    /// Starts every manager.
    pub fn start(&mut self)
        requires
            old(self).wf(),
        ensures
            final(self).wf(),
            final(self).managers.entries@.len() == old(self).managers.entries@.len(),
            forall|i: int|
                0 <= i < final(self).managers.entries@.len() ==> {
                    let e = #[trigger] final(self).managers.entries@[i];
                    &&& e.0 == old(self).managers.entries@[i].0
                    &&& managed_running(e.1)
                    &&& managed_health(e.1) == HealthView::Healthy
                    &&& managed_usage(e.1) == managed_usage(old(self).managers.entries@[i].1)
                },
    {
        self.set_all_running(true);
    }

    /// Stops every manager.
    pub fn stop(&mut self)
        requires
            old(self).wf(),
        ensures
            final(self).wf(),
            final(self).managers.entries@.len() == old(self).managers.entries@.len(),
            forall|i: int|
                0 <= i < final(self).managers.entries@.len() ==> {
                    let e = #[trigger] final(self).managers.entries@[i];
                    &&& e.0 == old(self).managers.entries@[i].0
                    &&& !managed_running(e.1)
                    &&& managed_health(e.1) == HealthView::Stopped
                    &&& managed_usage(e.1) == managed_usage(old(self).managers.entries@[i].1)
                },
    {
        self.set_all_running(false);
    }

    /// Overall health of the managers: unhealthy if any is unhealthy or stopped,
    /// else degraded if any is degraded, else healthy.
    pub fn health_check(&self) -> (h: ResourceManagerHealth)
        ensures
            h@ == combined_health(health_of_all(self.managers.entries@)),
    {
        let mut results: Vec<Option<ResourceManagerHealth>> = Vec::new();
        let mut i: usize = 0;
        while i < self.managers.entries.len()
            invariant
                i <= self.managers.entries@.len(),
                results@.len() == i,
                forall|j: int| 0 <= j < i ==> ((#[trigger] results@[j]) matches Some(hh) && hh@ == managed_health(
                    self.managers.entries@[j].1,
                )),
            decreases self.managers.entries@.len() - i,
        {
            let h = self.managers.entries[i].1.health_check();
            results.push(Some(h));
            i = i + 1;
        }
        let h = aggregate_health(&results);
        assert(crate::resource_manager::health_results_view(results@) =~= health_of_all(self.managers.entries@));
        h
    }

    /// Whether there is a manager and every one is running.
    pub fn is_running(&self) -> (b: bool)
        ensures
            b == (self.managers.entries@.len() > 0 && forall|i: int|
                0 <= i < self.managers.entries@.len() ==> managed_running(#[trigger] self.managers.entries@[i].1)),
    {
        if self.managers.entries.len() == 0 {
            return false;
        }
        let mut i: usize = 0;
        while i < self.managers.entries.len()
            invariant
                i <= self.managers.entries@.len(),
                forall|j: int| 0 <= j < i ==> managed_running(#[trigger] self.managers.entries@[j].1),
            decreases self.managers.entries@.len() - i,
        {
            if !self.managers.entries[i].1.is_running() {
                return false;
            }
            i = i + 1;
        }
        true
    }

    /// Sends an allocation request to the manager of its resource type; without
    /// one the request is refused as unavailable.
    pub fn allocate(&mut self, request: ResourceAllocationRequest) -> (r: Result<ResourceAllocation, BlixardError>)
        requires
            old(self).wf(),
            old(self).managers.map().contains_key(request.resource_type@) ==> managed_can_allocate(
                old(self).managers.map()[request.resource_type@].1,
                request,
            ),
        ensures
            final(self).wf(),
            final(self).config == old(self).config,
            !old(self).managers.map().contains_key(request.resource_type@) ==> r == Err::<ResourceAllocation, BlixardError>(
                BlixardError::ResourceUnavailable {
                    resource_type: resource_type_label(request.resource_type@),
                    message: "No manager available for resource type",
                },
            ) && final(self).managers.map() == old(self).managers.map(),
            old(self).managers.map().contains_key(request.resource_type@) ==> allocate_answer(
                old(self).managers.map()[request.resource_type@].1,
                final(self).managers.map()[request.resource_type@].1,
                request,
                r,
            ) && final(self).managers.map().dom() == old(self).managers.map().dom(),
            final(self).managers.map().remove(request.resource_type@) == old(self).managers.map().remove(
                request.resource_type@,
            ),
    {
        let ghost before = self.managers.entries@;
        let key = request.resource_type.copy_type();
        match self.managers.take(&key) {
            None => {
                proof {
                    assert(self.managers.map() =~= old(self).managers.map());
                }
                let label = type_label(&key);
                Err(BlixardError::ResourceUnavailable { resource_type: label, message: "No manager available for resource type" })
            },
            Some((t, manager)) => {
                let mut manager = manager;
                let r = match &mut manager {
                    ManagedResource::Memory(m) => m.allocate(request),
                    ManagedResource::Cpu(m) => m.allocate(request),
                };
                self.managers.insert((t, manager), &key);
                assert(self.managers.map().dom() =~= old(self).managers.map().dom());
                assert(self.managers.map().remove(request.resource_type@) =~= old(self).managers.map().remove(
                    request.resource_type@,
                ));
                r
            },
        }
    }

    /// Asks the manager of the request's resource type whether it can be granted
    /// now; without one the answer is no.
    pub fn check_availability(&self, request: &ResourceAllocationRequest) -> (r: Result<bool, BlixardError>)
        requires
            self.wf(),
        ensures
            !self.managers.map().contains_key(request.resource_type@) ==> r == Ok::<bool, BlixardError>(false),
            self.managers.map().contains_key(request.resource_type@) ==> availability_answer(
                self.managers.map()[request.resource_type@].1,
                *request,
                r,
            ),
    {
        match self.managers.get(&request.resource_type) {
            None => Ok(false),
            Some(entry) => {
                proof {
                    crate::tables::lemma_lookup_index(self.managers.entries@, request.resource_type@);
                }
                match &entry.1 {
                    ManagedResource::Memory(m) => m.check_availability(request),
                    ManagedResource::Cpu(m) => m.check_availability(request),
                }
            },
        }
    }
}

/// A composite with a memory manager of `memory_capacity` MB (20% overcommit) and
/// a CPU manager of `cpu_cores` cores (2x overcommit), both monitored every 30 s.
pub fn create_standard_composite_manager(memory_capacity: u64, cpu_cores: u32) -> (r: Result<CompositeResourceManager, BlixardError>)
    ensures
        r matches Ok(c) && c.wf() && c.managers.map().dom() =~= set![ResourceTypeView::Memory, ResourceTypeView::Cpu]
            && c.managers.map()[ResourceTypeView::Memory].1 is Memory && c.managers.map()[ResourceTypeView::Cpu].1 is Cpu,
{
    let mut composite = CompositeResourceManager::new();
    let factory = DefaultResourceManagerFactory::new(memory_capacity, cpu_cores);
    let memory_config = ResourceManagerConfigBuilder::new(ResourceType::Memory).with_hard_limit(memory_capacity).with_overcommit(
        1200,
    ).with_monitoring_interval(30000).build();
    let memory_manager = factory.create(memory_config)?;
    composite.add_manager(ResourceType::Memory, memory_manager);
    let cpu_config = ResourceManagerConfigBuilder::new(ResourceType::Cpu).with_hard_limit(cpu_cores as u64).with_overcommit(
        2000,
    ).with_monitoring_interval(30000).build();
    let cpu_manager = factory.create(cpu_config)?;
    composite.add_manager(ResourceType::Cpu, cpu_manager);
    assert(composite.managers.map().dom() =~= set![ResourceTypeView::Memory, ResourceTypeView::Cpu]);
    Ok(composite)
}

/// The name used for a resource type in errors: its own name, or `custom` for a
/// custom type.
pub open spec fn resource_type_label(t: ResourceTypeView) -> &'static str {
    match t {
        ResourceTypeView::Memory => "memory",
        ResourceTypeView::Cpu => "cpu",
        ResourceTypeView::Disk => "disk",
        ResourceTypeView::Network => "network",
        ResourceTypeView::Gpu => "gpu",
        ResourceTypeView::Custom(_) => "custom",
    }
}

pub(crate) fn type_label(t: &ResourceType) -> (s: &'static str)
    ensures
        s == resource_type_label(t@),
{
    match t {
        ResourceType::Memory => "memory",
        ResourceType::Cpu => "cpu",
        ResourceType::Disk => "disk",
        ResourceType::Network => "network",
        ResourceType::Gpu => "gpu",
        ResourceType::Custom(_) => "custom",
    }
}

proof fn lemma_usage_sums_prefix(s: Seq<(ResourceType, ManagedResource)>, k: int)
    requires
        0 <= k <= s.len(),
    ensures
        usage_sums(s.take(k)).0 <= usage_sums(s).0,
        usage_sums(s.take(k)).1 <= usage_sums(s).1,
        usage_sums(s.take(k)).2 <= usage_sums(s).2,
        usage_sums(s.take(k)).3 <= usage_sums(s).3,
    decreases s.len(),
{
    if k < s.len() {
        assert(s.drop_last().take(k) =~= s.take(k));
        lemma_usage_sums_prefix(s.drop_last(), k);
    } else {
        assert(s.take(k) =~= s);
    }
}

} // verus!
