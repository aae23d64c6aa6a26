//! A bridge from per-tenant quotas to the resource managers: it owns a
//! standard composite, moves quotas over and keeps track of what has moved.
use vstd::prelude::*;
use vstd::string::*;

use crate::composite::{create_standard_composite_manager, CompositeResourceManager};
use crate::composite_allocations::{all_allocations, all_fit, composite_allocation, composite_availability};
use crate::cpu_manager::live_cores;
use crate::decimal::{ratio_decimal, to_ratio_decimal};
use crate::error::BlixardError;
use crate::factory::{DefaultResourceManagerFactory, ManagedResource};
use crate::memory_manager::live_amount;
use crate::migration::{convert_resource_request_at, converts, MigrationStatus};
use crate::quotas::{QuotaViolation, ResourceRequest, TenantQuota};
use crate::resource_manager::{
    lookup, metadata_get, AllocationView, ResourceAllocation, ResourceAllocationRequest, ResourceType,
    ResourceTypeView,
};
use crate::text::{concat, text_eq};

verus! {

/// What has been moved over so far.
pub struct MigrationState {
    pub memory_migrated: bool,
    pub cpu_migrated: bool,
    pub disk_migrated: bool,
    pub warnings_issued: Vec<String>,
}

/// A standard composite together with the progress of the move from quotas.
pub struct ResourceManagerMigrationWrapper {
    pub composite_manager: CompositeResourceManager,
    pub factory: DefaultResourceManagerFactory,
    pub migration_state: MigrationState,
}

/// Whether `m` holds exactly the given key and value texts, in order.
pub open spec fn metadata_is(m: Seq<(String, String)>, pairs: Seq<(Seq<char>, Seq<char>)>) -> bool {
    &&& m.len() == pairs.len()
    &&& forall|i: int| 0 <= i < m.len() ==> (#[trigger] m[i]).0@ == pairs[i].0 && m[i].1@ == pairs[i].1
}

/// Whether a request has the given id, tenant, type, amount, priority and lifetime.
pub open spec fn shaped(
    r: ResourceAllocationRequest,
    id: Seq<char>,
    tenant: Seq<char>,
    t: ResourceTypeView,
    amount: u64,
    priority: u32,
    temporary: bool,
    expires_at_ms: Option<i64>,
) -> bool {
    &&& r.request_id@ == id
    &&& r.tenant_id@ == tenant
    &&& r.resource_type@ == t
    &&& r.amount == amount
    &&& r.priority == priority
    &&& r.is_temporary == temporary
    &&& r.expires_at_ms == expires_at_ms
}

/// Whether `r` are the requests that move a tenant's quota over: memory, then CPU,
/// each only when its limit is non-zero, tagged with where they came from.
pub open spec fn quota_requests(tenant: Seq<char>, q: TenantQuota, r: Seq<ResourceAllocationRequest>) -> bool {
    let v = q.vm_limits;
    let origin = seq![("migrated_from"@, "quota_manager"@), ("original_tenant"@, tenant)];
    &&& r.len() == (if v.max_memory_mb > 0 { 1int } else { 0int }) + (if v.max_vcpus > 0 { 1int } else { 0int })
    &&& v.max_memory_mb > 0 ==> shaped(
        r[0],
        "migrated-memory-"@ + tenant,
        tenant,
        ResourceTypeView::Memory,
        v.max_memory_mb,
        v.priority as u32,
        false,
        None,
    ) && metadata_is(r[0].metadata@, origin)
    &&& v.max_vcpus > 0 ==> shaped(
        r[r.len() - 1],
        "migrated-cpu-"@ + tenant,
        tenant,
        ResourceTypeView::Cpu,
        v.max_vcpus as u64,
        v.priority as u32,
        false,
        None,
    ) && metadata_is(
        r[r.len() - 1].metadata@,
        origin.push(("overcommit_ratio"@, ratio_decimal(v.overcommit_permille as nat))),
    )
}

/// Whether `r` is the request that asks, at `now_ms`, for `amount` of type `t` on
/// behalf of a legacy quota check.
pub open spec fn check_request(r: ResourceAllocationRequest, tenant: Seq<char>, t: ResourceTypeView, amount: u64, now_ms: i64) -> bool {
    let id = if t is Memory {
        "check-memory-"@ + tenant
    } else {
        "check-cpu-"@ + tenant
    };
    let expires = if now_ms <= i64::MAX - 1000 { now_ms + 1000 } else { i64::MAX as int };
    &&& shaped(r, id, tenant, t, amount, 100, true, Some(expires as i64))
    &&& metadata_is(r.metadata@, seq![("operation"@, "availability_check"@)])
}

/// Whether `r` is the request for `amount` of type `t` made for the VM `vm`.
pub open spec fn vm_request(r: ResourceAllocationRequest, vm: Seq<char>, tenant: Seq<char>, t: ResourceTypeView, amount: u64) -> bool {
    let id = if t is Memory {
        "vm-memory-"@ + vm
    } else {
        "vm-cpu-"@ + vm
    };
    &&& shaped(r, id, tenant, t, amount, 100, false, None)
    &&& metadata_is(r.metadata@, seq![("vm_name"@, vm), ("resource_class"@, "vm_allocation"@)])
}

/// Whether a manager can take `amount` more without overflowing its counters.
pub open spec fn takes_amount(m: ManagedResource, amount: u64) -> bool {
    match m {
        ManagedResource::Memory(mm) => live_amount(mm.allocations@) + amount <= u64::MAX,
        ManagedResource::Cpu(cm) => {
            &&& forall|c: int| 0 <= c < cm.core_usage@.len() ==> (#[trigger] cm.core_usage@[c]).allocated_vcpus < u32::MAX
            &&& live_cores(cm.allocations@) + u32::MAX <= u64::MAX
        },
    }
}

/// Whether an allocation was made for the VM `vm`.
pub open spec fn made_for_vm(a: AllocationView, vm: Seq<char>) -> bool {
    lookup(a.request.metadata, "vm_name"@) == Some(vm)
}

/// How many allocations of `s` were made for the VM `vm`.
pub open spec fn count_for_vm(s: Seq<AllocationView>, vm: Seq<char>) -> nat
    decreases s.len(),
{
    if s.len() == 0 {
        0
    } else {
        count_for_vm(s.drop_last(), vm) + if made_for_vm(s.last(), vm) {
            1nat
        } else {
            0
        }
    }
}

fn text_pair(k: &str, v: &str) -> (p: (String, String))
    ensures
        p.0@ == k@,
        p.1@ == v@,
{
    (String::from_str(k), String::from_str(v))
}

fn request_for(
    request_id: String,
    tenant_id: &str,
    resource_type: ResourceType,
    amount: u64,
    priority: u32,
    is_temporary: bool,
    expires_at_ms: Option<i64>,
    metadata: Vec<(String, String)>,
) -> (r: ResourceAllocationRequest)
    ensures
        shaped(r, request_id@, tenant_id@, resource_type@, amount, priority, is_temporary, expires_at_ms),
        r.metadata == metadata,
{
    ResourceAllocationRequest {
        request_id,
        tenant_id: String::from_str(tenant_id),
        resource_type,
        amount,
        priority,
        is_temporary,
        expires_at_ms,
        metadata,
    }
}

fn migration_requests(tenant: &String, quota: &TenantQuota) -> (r: Vec<ResourceAllocationRequest>)
    ensures
        quota_requests(tenant@, *quota, r@),
{
    let v = &quota.vm_limits;
    let mut r: Vec<ResourceAllocationRequest> = Vec::new();
    if v.max_memory_mb > 0 {
        let mut metadata: Vec<(String, String)> = Vec::new();
        metadata.push(text_pair("migrated_from", "quota_manager"));
        metadata.push(text_pair("original_tenant", tenant.as_str()));
        let id = concat("migrated-memory-", tenant.as_str());
        r.push(request_for(id, tenant.as_str(), ResourceType::Memory, v.max_memory_mb, v.priority as u32, false, None, metadata));
    }
    if v.max_vcpus > 0 {
        let mut metadata: Vec<(String, String)> = Vec::new();
        metadata.push(text_pair("migrated_from", "quota_manager"));
        metadata.push(text_pair("original_tenant", tenant.as_str()));
        let ratio = to_ratio_decimal(v.overcommit_permille as u64);
        metadata.push((String::from_str("overcommit_ratio"), ratio));
        let id = concat("migrated-cpu-", tenant.as_str());
        r.push(request_for(id, tenant.as_str(), ResourceType::Cpu, v.max_vcpus as u64, v.priority as u32, false, None, metadata));
    }
    r
}

fn availability_request(tenant_id: &str, memory: bool, amount: u64, now_ms: i64) -> (r: ResourceAllocationRequest)
    ensures
        check_request(
            r,
            tenant_id@,
            if memory {
                ResourceTypeView::Memory
            } else {
                ResourceTypeView::Cpu
            },
            amount,
            now_ms,
        ),
{
    let mut metadata: Vec<(String, String)> = Vec::new();
    metadata.push(text_pair("operation", "availability_check"));
    let expires: i64 = if now_ms <= i64::MAX - 1000 {
        now_ms + 1000
    } else {
        i64::MAX
    };
    if memory {
        request_for(concat("check-memory-", tenant_id), tenant_id, ResourceType::Memory, amount, 100, true, Some(expires), metadata)
    } else {
        request_for(concat("check-cpu-", tenant_id), tenant_id, ResourceType::Cpu, amount, 100, true, Some(expires), metadata)
    }
}

fn allocation_request(vm_name: &str, tenant_id: &str, memory: bool, amount: u64) -> (r: ResourceAllocationRequest)
    ensures
        vm_request(
            r,
            vm_name@,
            tenant_id@,
            if memory {
                ResourceTypeView::Memory
            } else {
                ResourceTypeView::Cpu
            },
            amount,
        ),
{
    let mut metadata: Vec<(String, String)> = Vec::new();
    metadata.push(text_pair("vm_name", vm_name));
    metadata.push(text_pair("resource_class", "vm_allocation"));
    if memory {
        request_for(concat("vm-memory-", vm_name), tenant_id, ResourceType::Memory, amount, 100, false, None, metadata)
    } else {
        request_for(concat("vm-cpu-", vm_name), tenant_id, ResourceType::Cpu, amount, 100, false, None, metadata)
    }
}

impl ResourceManagerMigrationWrapper {
    /// Well-formed: the composite is.
    pub open spec fn wf(&self) -> bool {
        self.composite_manager.wf()
    }

    /// A standard composite of `memory_capacity` MB and `cpu_cores` cores, with
    /// nothing migrated yet.
    pub fn new(memory_capacity: u64, cpu_cores: u32) -> (r: Result<Self, BlixardError>)
        ensures
            r matches Ok(w) && {
                &&& w.wf()
                &&& w.composite_manager.managers.map().dom() =~= set![ResourceTypeView::Memory, ResourceTypeView::Cpu]
                &&& w.composite_manager.managers.map()[ResourceTypeView::Memory].1 is Memory
                &&& w.composite_manager.managers.map()[ResourceTypeView::Cpu].1 is Cpu
                &&& w.factory.default_memory_capacity == memory_capacity
                &&& w.factory.default_cpu_cores == cpu_cores
                &&& !w.migration_state.memory_migrated
                &&& !w.migration_state.cpu_migrated
                &&& !w.migration_state.disk_migrated
                &&& w.migration_state.warnings_issued@.len() == 0
            },
    {
        let composite_manager = create_standard_composite_manager(memory_capacity, cpu_cores)?;
        let factory = DefaultResourceManagerFactory::new(memory_capacity, cpu_cores);
        Ok(
            ResourceManagerMigrationWrapper {
                composite_manager,
                factory,
                migration_state: MigrationState {
                    memory_migrated: false,
                    cpu_migrated: false,
                    disk_migrated: false,
                    warnings_issued: Vec::new(),
                },
            },
        )
    }

    /// Offers each tenant's memory and CPU limits to the managers as standing
    /// allocations (see [`quota_requests`]); an allocation that is refused, or
    /// that would overflow a manager's counters, is left out. Memory and CPU
    /// then count as migrated.
    pub fn migrate_from_quota_manager(&mut self, legacy_quotas: &Vec<(String, TenantQuota)>) -> (r: Result<(), BlixardError>)
        requires
            old(self).wf(),
        ensures
            r is Ok,
            final(self).wf(),
            final(self).composite_manager.managers.map().dom() == old(self).composite_manager.managers.map().dom(),
            final(self).composite_manager.config == old(self).composite_manager.config,
            final(self).factory == old(self).factory,
            final(self).migration_state.memory_migrated,
            final(self).migration_state.cpu_migrated,
            final(self).migration_state.disk_migrated == old(self).migration_state.disk_migrated,
            final(self).migration_state.warnings_issued == old(self).migration_state.warnings_issued,
    {
        let mut i: usize = 0;
        while i < legacy_quotas.len()
            invariant
                i <= legacy_quotas@.len(),
                self.wf(),
                self.composite_manager.managers.map().dom() == old(self).composite_manager.managers.map().dom(),
                self.composite_manager.config == old(self).composite_manager.config,
                self.factory == old(self).factory,
                self.migration_state == old(self).migration_state,
            decreases legacy_quotas@.len() - i,
        {
            let (tenant, quota) = &legacy_quotas[i];
            let mut requests = migration_requests(tenant, quota);
            while requests.len() > 0
                invariant
                    self.wf(),
                    self.composite_manager.managers.map().dom() == old(self).composite_manager.managers.map().dom(),
                    self.composite_manager.config == old(self).composite_manager.config,
                    self.factory == old(self).factory,
                    self.migration_state == old(self).migration_state,
                decreases requests@.len(),
            {
                let request = requests.remove(0);
                if self.composite_manager.can_take(&request) {
                    let _outcome = self.composite_manager.allocate(request);
                }
            }
            i = i + 1;
        }
        self.migration_state.memory_migrated = true;
        self.migration_state.cpu_migrated = true;
        Ok(())
    }

    /// The requests a legacy resource request becomes now (see [`converts`]).
    pub fn convert_resource_request(&self, legacy_request: &ResourceRequest) -> (r: Vec<ResourceAllocationRequest>)
        ensures
            exists|now_nanos: i64| converts(*legacy_request, now_nanos, r@),
    {
        let now_nanos = crate::clock::now_nanos();
        convert_resource_request_at(legacy_request, now_nanos)
    }

    /// The error a quota violation becomes under the resource managers.
    pub fn convert_quota_violation(&self, violation: &QuotaViolation) -> (e: BlixardError)
        requires
            *violation matches QuotaViolation::VmLimitExceeded { current, requested, .. } ==> current
                + requested <= u32::MAX,
        ensures
            match *violation {
                QuotaViolation::VmLimitExceeded { limit, current, requested } => e == (
                BlixardError::QuotaExceeded {
                    resource: "VMs",
                    limit: limit as u64,
                    requested: (current + requested) as u64,
                }),
                QuotaViolation::CpuLimitExceeded { limit, current, requested } => e == (
                BlixardError::InsufficientResources {
                    requested_cpu: requested as u64,
                    requested_memory_mb: 0,
                    requested_disk_gb: 0,
                    available_cpu: (if limit >= current { limit - current } else { 0 }) as u64,
                    available_memory_mb: 0,
                    available_disk_gb: 0,
                }),
                QuotaViolation::MemoryLimitExceeded { limit, current, requested } => e == (
                BlixardError::InsufficientResources {
                    requested_cpu: 0,
                    requested_memory_mb: requested,
                    requested_disk_gb: 0,
                    available_cpu: 0,
                    available_memory_mb: (if limit >= current { limit - current } else { 0 }) as u64,
                    available_disk_gb: 0,
                }),
                QuotaViolation::DiskLimitExceeded { limit, current, requested } => e == (
                BlixardError::InsufficientResources {
                    requested_cpu: 0,
                    requested_memory_mb: 0,
                    requested_disk_gb: requested,
                    available_cpu: 0,
                    available_memory_mb: 0,
                    available_disk_gb: (if limit >= current { limit - current } else { 0 }) as u64,
                }),
                QuotaViolation::PerNodeVmLimitExceeded { node_id, .. } => e == (
                BlixardError::SchedulingError { node_id, message: "node VM limit exceeded" }),
                QuotaViolation::RateLimitExceeded { .. } => e == (BlixardError::ResourceExhausted {
                    resource: "rate limit",
                }),
                QuotaViolation::StorageLimitExceeded { limit, current, requested } => e == (
                BlixardError::InsufficientResources {
                    requested_cpu: 0,
                    requested_memory_mb: 0,
                    requested_disk_gb: requested,
                    available_cpu: 0,
                    available_memory_mb: 0,
                    available_disk_gb: (if limit >= current { limit - current } else { 0 }) as u64,
                }),
            },
    {
        match violation {
            QuotaViolation::VmLimitExceeded { limit, current, requested } => BlixardError::QuotaExceeded {
                resource: "VMs",
                limit: *limit as u64,
                requested: (*current + *requested) as u64,
            },
            QuotaViolation::CpuLimitExceeded { limit, current, requested } => BlixardError::InsufficientResources {
                requested_cpu: *requested as u64,
                requested_memory_mb: 0,
                requested_disk_gb: 0,
                available_cpu: limit.saturating_sub(*current) as u64,
                available_memory_mb: 0,
                available_disk_gb: 0,
            },
            QuotaViolation::MemoryLimitExceeded { limit, current, requested } => BlixardError::InsufficientResources {
                requested_cpu: 0,
                requested_memory_mb: *requested,
                requested_disk_gb: 0,
                available_cpu: 0,
                available_memory_mb: limit.saturating_sub(*current),
                available_disk_gb: 0,
            },
            QuotaViolation::DiskLimitExceeded { limit, current, requested } => BlixardError::InsufficientResources {
                requested_cpu: 0,
                requested_memory_mb: 0,
                requested_disk_gb: *requested,
                available_cpu: 0,
                available_memory_mb: 0,
                available_disk_gb: limit.saturating_sub(*current),
            },
            QuotaViolation::PerNodeVmLimitExceeded { node_id, .. } => BlixardError::SchedulingError {
                node_id: *node_id,
                message: "node VM limit exceeded",
            },
            QuotaViolation::RateLimitExceeded { .. } => BlixardError::ResourceExhausted { resource: "rate limit" },
            QuotaViolation::StorageLimitExceeded { limit, current, requested } => BlixardError::InsufficientResources {
                requested_cpu: 0,
                requested_memory_mb: 0,
                requested_disk_gb: *requested,
                available_cpu: 0,
                available_memory_mb: 0,
                available_disk_gb: limit.saturating_sub(*current),
            },
        }
    }

    /// Whether the composite could grant `memory_mb` of memory and `vcpus` cores
    /// to a tenant at `now_ms`: the memory question is asked first and its error
    /// ends the check; the answer is yes only when both are.
    pub fn legacy_quota_check_at(&self, tenant_id: &str, memory_mb: u64, vcpus: u32, now_ms: i64) -> (r: Result<bool, BlixardError>)
        requires
            self.wf(),
        ensures
            exists|mr: ResourceAllocationRequest, am: Result<bool, BlixardError>|
                {
                    &&& check_request(mr, tenant_id@, ResourceTypeView::Memory, memory_mb, now_ms)
                    &&& #[trigger] composite_availability(self.composite_manager, mr, am)
                    &&& am is Err ==> r == am
                    &&& am is Ok ==> exists|cr: ResourceAllocationRequest, ac: Result<bool, BlixardError>|
                        {
                            &&& check_request(cr, tenant_id@, ResourceTypeView::Cpu, vcpus as u64, now_ms)
                            &&& #[trigger] composite_availability(self.composite_manager, cr, ac)
                            &&& ac is Err ==> r == ac
                            &&& ac is Ok ==> r == Ok::<bool, BlixardError>(am->Ok_0 && ac->Ok_0)
                        }
                },
    {
        let memory_request = availability_request(tenant_id, true, memory_mb, now_ms);
        let am = self.composite_manager.check_availability(&memory_request);
        assert(composite_availability(self.composite_manager, memory_request, am));
        let memory_available = match am {
            Ok(b) => b,
            Err(e) => {
                return Err(e);
            },
        };
        let cpu_request = availability_request(tenant_id, false, vcpus as u64, now_ms);
        let ac = self.composite_manager.check_availability(&cpu_request);
        assert(composite_availability(self.composite_manager, cpu_request, ac));
        match ac {
            Ok(cpu_available) => Ok(memory_available && cpu_available),
            Err(e) => Err(e),
        }
    }

    /// Whether the composite could grant `memory_mb` of memory and `vcpus` cores
    /// to a tenant now (see [`Self::legacy_quota_check_at`]).
    pub fn legacy_quota_check(&self, tenant_id: &str, memory_mb: u64, vcpus: u32) -> (r: Result<bool, BlixardError>)
        requires
            self.wf(),
        ensures
            exists|now_ms: i64, mr: ResourceAllocationRequest, am: Result<bool, BlixardError>|
                {
                    &&& #[trigger] check_request(mr, tenant_id@, ResourceTypeView::Memory, memory_mb, now_ms)
                    &&& #[trigger] composite_availability(self.composite_manager, mr, am)
                    &&& am is Err ==> r == am
                    &&& am is Ok ==> exists|cr: ResourceAllocationRequest, ac: Result<bool, BlixardError>|
                        {
                            &&& check_request(cr, tenant_id@, ResourceTypeView::Cpu, vcpus as u64, now_ms)
                            &&& #[trigger] composite_availability(self.composite_manager, cr, ac)
                            &&& ac is Err ==> r == ac
                            &&& ac is Ok ==> r == Ok::<bool, BlixardError>(am->Ok_0 && ac->Ok_0)
                        }
                },
    {
        let now_ms = crate::clock::now_millis();
        self.legacy_quota_check_at(tenant_id, memory_mb, vcpus, now_ms)
    }

    /// Allocates `memory_mb` of memory and then `vcpus` cores for a VM, each
    /// tagged with the VM's name; the first refusal is the answer, and on success
    /// the two allocations come back in that order.
    pub fn allocate_for_vm(&mut self, vm_name: &str, tenant_id: &str, memory_mb: u64, vcpus: u32) -> (r: Result<Vec<ResourceAllocation>, BlixardError>)
        requires
            old(self).wf(),
            old(self).composite_manager.managers.map().contains_key(ResourceTypeView::Memory) ==> takes_amount(
                old(self).composite_manager.managers.map()[ResourceTypeView::Memory].1,
                memory_mb,
            ),
            old(self).composite_manager.managers.map().contains_key(ResourceTypeView::Cpu) ==> takes_amount(
                old(self).composite_manager.managers.map()[ResourceTypeView::Cpu].1,
                vcpus as u64,
            ),
        ensures
            final(self).wf(),
            final(self).composite_manager.managers.map().dom() == old(self).composite_manager.managers.map().dom(),
            final(self).migration_state == old(self).migration_state,
            exists|mr: ResourceAllocationRequest, am: Result<ResourceAllocation, BlixardError>|
                {
                    &&& vm_request(mr, vm_name@, tenant_id@, ResourceTypeView::Memory, memory_mb)
                    &&& #[trigger] composite_allocation(old(self).composite_manager, final(self).composite_manager, mr, am)
                    &&& am is Err ==> r == Err::<Vec<ResourceAllocation>, BlixardError>(am->Err_0)
                    &&& am is Ok ==> exists|cr: ResourceAllocationRequest, ac: Result<ResourceAllocation, BlixardError>|
                        {
                            &&& vm_request(cr, vm_name@, tenant_id@, ResourceTypeView::Cpu, vcpus as u64)
                            &&& #[trigger] composite_allocation(old(self).composite_manager, final(self).composite_manager, cr, ac)
                            &&& ac is Err ==> r == Err::<Vec<ResourceAllocation>, BlixardError>(ac->Err_0)
                            &&& ac is Ok ==> (r matches Ok(v) && v@ == seq![am->Ok_0, ac->Ok_0])
                        }
                },
    {
        let ghost c0 = self.composite_manager;
        let memory_request = allocation_request(vm_name, tenant_id, true, memory_mb);
        let ghost mr = memory_request;
        let am = self.composite_manager.allocate(memory_request);
        assert(composite_allocation(c0, self.composite_manager, mr, am));
        let memory_allocation = match am {
            Ok(a) => a,
            Err(e) => {
                return Err(e);
            },
        };
        let cpu_request = allocation_request(vm_name, tenant_id, false, vcpus as u64);
        let ghost cr = cpu_request;
        let ghost c1 = self.composite_manager;
        proof {
            assert(c1.managers.map().remove(ResourceTypeView::Memory).contains_key(ResourceTypeView::Cpu)
                == c0.managers.map().remove(ResourceTypeView::Memory).contains_key(ResourceTypeView::Cpu));
            assert(c1.managers.map().contains_key(ResourceTypeView::Cpu) == c0.managers.map().contains_key(ResourceTypeView::Cpu));
            if c0.managers.map().contains_key(ResourceTypeView::Cpu) {
                assert(c1.managers.map().remove(ResourceTypeView::Memory)[ResourceTypeView::Cpu]
                    == c0.managers.map().remove(ResourceTypeView::Memory)[ResourceTypeView::Cpu]);
                assert(c1.managers.map()[ResourceTypeView::Cpu] == c0.managers.map()[ResourceTypeView::Cpu]);
            }
        }
        let ac = self.composite_manager.allocate(cpu_request);
        proof {
            let c2 = self.composite_manager;
            if c0.managers.map().contains_key(ResourceTypeView::Memory) {
                assert(c2.managers.map().remove(ResourceTypeView::Cpu)[ResourceTypeView::Memory]
                    == c1.managers.map().remove(ResourceTypeView::Cpu)[ResourceTypeView::Memory]);
                assert(c2.managers.map()[ResourceTypeView::Memory] == c1.managers.map()[ResourceTypeView::Memory]);
            }
            assert(composite_allocation(c0, c2, mr, am));
        }
        assert(composite_allocation(c0, self.composite_manager, cr, ac));
        match ac {
            Ok(cpu_allocation) => {
                let mut v: Vec<ResourceAllocation> = Vec::new();
                v.push(memory_allocation);
                v.push(cpu_allocation);
                assert(v@ =~= seq![am->Ok_0, ac->Ok_0]);
                Ok(v)
            },
            Err(e) => Err(e),
        }
    }

    /// Releases every allocation tagged with the VM's name, one by one; the
    /// first release that fails ends the work with its error.
    pub fn deallocate_for_vm(&mut self, vm_name: &str) -> (r: Result<(), BlixardError>)
        requires
            old(self).wf(),
            all_fit(old(self).composite_manager.managers.entries@),
        ensures
            final(self).wf(),
            all_fit(final(self).composite_manager.managers.entries@),
            final(self).composite_manager.managers.entries@.len() == old(self).composite_manager.managers.entries@.len(),
            forall|i: int|
                0 <= i < old(self).composite_manager.managers.entries@.len()
                    ==> (#[trigger] final(self).composite_manager.managers.entries@[i]).0
                    == old(self).composite_manager.managers.entries@[i].0,
            final(self).migration_state == old(self).migration_state,
            r is Err ==> r == Err::<(), BlixardError>(
                BlixardError::ResourceUnavailable {
                    resource_type: "unknown",
                    message: "Allocation not found in any manager",
                },
            ),
            r is Ok ==> all_allocations(final(self).composite_manager.managers.entries@).len() + count_for_vm(
                all_allocations(old(self).composite_manager.managers.entries@),
                vm_name@,
            ) == all_allocations(old(self).composite_manager.managers.entries@).len(),
    {
        let allocations = self.composite_manager.get_allocations();
        let ghost listed = allocations@.map_values(|a: ResourceAllocation| a@);
        let ghost n0 = all_allocations(self.composite_manager.managers.entries@).len();
        let mut i: usize = 0;
        while i < allocations.len()
            invariant
                i <= allocations@.len(),
                listed == allocations@.map_values(|a: ResourceAllocation| a@),
                listed == all_allocations(old(self).composite_manager.managers.entries@),
                n0 == listed.len(),
                self.wf(),
                all_fit(self.composite_manager.managers.entries@),
                self.composite_manager.managers.entries@.len() == old(self).composite_manager.managers.entries@.len(),
                forall|q: int|
                    0 <= q < old(self).composite_manager.managers.entries@.len() ==> (#[trigger] self.composite_manager.managers.entries@[q]).0
                        == old(self).composite_manager.managers.entries@[q].0,
                self.migration_state == old(self).migration_state,
                all_allocations(self.composite_manager.managers.entries@).len() + count_for_vm(listed.take(i as int), vm_name@)
                    == n0,
            decreases allocations@.len() - i,
        {
            proof {
                assert(listed.take(i as int + 1).drop_last() =~= listed.take(i as int));
                assert(listed[i as int] == allocations@[i as int]@);
            }
            let a = &allocations[i];
            let tagged = match metadata_get(&a.request.metadata, "vm_name") {
                Some(v) => text_eq(v.as_str(), vm_name),
                None => false,
            };
            if tagged {
                let res = self.composite_manager.deallocate(a.allocation_id.as_str());
                match res {
                    Ok(()) => {},
                    Err(e) => {
                        return Err(e);
                    },
                }
            }
            i = i + 1;
        }
        proof {
            assert(listed.take(allocations@.len() as int) =~= listed);
        }
        Ok(())
    }

    /// The composite the wrapper drives.
    pub fn composite_manager(&self) -> (c: &CompositeResourceManager)
        ensures
            *c == self.composite_manager,
    {
        &self.composite_manager
    }

    /// The progress of the migration.
    pub fn migration_status(&self) -> (s: MigrationStatus)
        ensures
            s.memory_migrated == self.migration_state.memory_migrated,
            s.cpu_migrated == self.migration_state.cpu_migrated,
            s.disk_migrated == self.migration_state.disk_migrated,
            s.warnings_count == self.migration_state.warnings_issued@.len(),
            s.warnings@ == self.migration_state.warnings_issued@,
    {
        let warnings = self.migration_state.warnings_issued.clone();
        assert(warnings@ =~= self.migration_state.warnings_issued@);
        MigrationStatus {
            memory_migrated: self.migration_state.memory_migrated,
            cpu_migrated: self.migration_state.cpu_migrated,
            disk_migrated: self.migration_state.disk_migrated,
            warnings_count: self.migration_state.warnings_issued.len(),
            warnings,
        }
    }
}

} // verus!
