//! The allocations held by the managers of a composite: listing them, finding
//! one by id and releasing it.
use vstd::prelude::*;

use crate::composite::{
    allocate_answer, availability_answer, managed_can_allocate, managed_usage, managed_wf, resource_type_label,
    CompositeResourceManager,
};
use crate::cpu_manager::{live_cores, CpuAllocation};
use crate::error::BlixardError;
use crate::factory::ManagedResource;
use crate::memory_manager::live_amount;
use crate::tables::Keyed;
use crate::resource_manager::{
    AllocationStatus, AllocationView, ResourceAllocation, ResourceAllocationRequest, ResourceLimits, ResourceType,
};

verus! {

/// The allocations a manager holds, as values, in order.
pub open spec fn managed_allocations(m: ManagedResource) -> Seq<AllocationView> {
    match m {
        ManagedResource::Memory(mm) => mm.allocations@.map_values(|a: ResourceAllocation| a@),
        ManagedResource::Cpu(cm) => cm.allocations@.map_values(|a: CpuAllocation| a.base@),
    }
}

/// Whether the amounts held by a manager's live allocations fit its counters.
pub open spec fn managed_fits(m: ManagedResource) -> bool {
    match m {
        ManagedResource::Memory(mm) => live_amount(mm.allocations@) <= u64::MAX,
        ManagedResource::Cpu(cm) => live_cores(cm.allocations@) <= u64::MAX,
    }
}

/// Whether some allocation of `allocs` has the id `id`.
pub open spec fn holds_id(allocs: Seq<AllocationView>, id: Seq<char>) -> bool {
    exists|j: int| 0 <= j < allocs.len() && (#[trigger] allocs[j]).allocation_id == id
}

/// Whether `after` is `before` less one allocation with the id `id`.
pub open spec fn released_one(before: Seq<AllocationView>, after: Seq<AllocationView>, id: Seq<char>) -> bool {
    exists|j: int| 0 <= j < before.len() && (#[trigger] before[j]).allocation_id == id && after == before.remove(j)
}

/// The allocations of the managers of `s`, manager after manager.
pub open spec fn all_allocations(s: Seq<(ResourceType, ManagedResource)>) -> Seq<AllocationView>
    decreases s.len(),
{
    if s.len() == 0 {
        Seq::empty()
    } else {
        all_allocations(s.drop_last()) + managed_allocations(s.last().1)
    }
}

/// Every manager of `s` has live amounts that fit its counters.
pub open spec fn all_fit(s: Seq<(ResourceType, ManagedResource)>) -> bool {
    forall|i: int| 0 <= i < s.len() ==> managed_fits(#[trigger] s[i].1)
}

/// Whether no manager of `s` holds an allocation with the id `id`.
pub open spec fn none_holds(s: Seq<(ResourceType, ManagedResource)>, id: Seq<char>) -> bool {
    forall|i: int| 0 <= i < s.len() ==> !holds_id(managed_allocations(#[trigger] s[i].1), id)
}

/// What a composite answers on whether a request can be granted now.
pub open spec fn composite_availability(c: CompositeResourceManager, req: ResourceAllocationRequest, r: Result<bool, BlixardError>) -> bool {
    &&& !c.managers.map().contains_key(req.resource_type@) ==> r == Ok::<bool, BlixardError>(false)
    &&& c.managers.map().contains_key(req.resource_type@) ==> availability_answer(
        c.managers.map()[req.resource_type@].1,
        req,
        r,
    )
}

/// What a composite answers to an allocation request, from composite `c` to
/// composite `after`, as far as the manager of the request's type goes.
pub open spec fn composite_allocation(
    c: CompositeResourceManager,
    after: CompositeResourceManager,
    req: ResourceAllocationRequest,
    r: Result<ResourceAllocation, BlixardError>,
) -> bool {
    &&& !c.managers.map().contains_key(req.resource_type@) ==> r == Err::<ResourceAllocation, BlixardError>(
        BlixardError::ResourceUnavailable {
            resource_type: resource_type_label(req.resource_type@),
            message: "No manager available for resource type",
        },
    )
    &&& c.managers.map().contains_key(req.resource_type@) ==> allocate_answer(
        c.managers.map()[req.resource_type@].1,
        after.managers.map()[req.resource_type@].1,
        req,
        r,
    )
}

/// Whether `r` is what a manager answers to new limits: accepted, with the hard
/// limit as its capacity, when they are for the manager's own resource type.
pub open spec fn limits_answer(before: ManagedResource, after: ManagedResource, limits: ResourceLimits, r: Result<(), BlixardError>) -> bool {
    let own = match before {
        ManagedResource::Memory(_) => limits.resource_type@ is Memory,
        ManagedResource::Cpu(_) => limits.resource_type@ is Cpu,
    };
    &&& r is Ok <==> own
    &&& own ==> managed_usage(after).total_capacity == limits.hard_limit
    &&& !own ==> managed_usage(after) == managed_usage(before)
    &&& managed_allocations(after) == managed_allocations(before)
}

proof fn lemma_all_allocations_update(s: Seq<(ResourceType, ManagedResource)>, k: int, e: (ResourceType, ManagedResource))
    requires
        0 <= k < s.len(),
    ensures
        all_allocations(s.update(k, e)).len() + managed_allocations(s[k].1).len() == all_allocations(s).len()
            + managed_allocations(e.1).len(),
    decreases s.len(),
{
    if k == s.len() - 1 {
        assert(s.update(k, e).drop_last() =~= s.drop_last());
    } else {
        assert(s.update(k, e).drop_last() =~= s.drop_last().update(k, e));
        lemma_all_allocations_update(s.drop_last(), k, e);
    }
}

impl ManagedResource {
    /// Whether a request can go to this manager without overflowing its counters.
    pub fn can_take(&self, request: &ResourceAllocationRequest) -> (b: bool)
        ensures
            b == managed_can_allocate(*self, *request),
    {
        match self {
            ManagedResource::Memory(m) => match m.live_total().checked_add(request.amount as u128) {
                Some(t) => t <= u64::MAX as u128,
                None => false,
            },
            ManagedResource::Cpu(m) => {
                let room = m.cores_have_room();
                match m.live_core_total().checked_add(u32::MAX as u128) {
                    Some(t) => room && t <= u64::MAX as u128,
                    None => false,
                }
            },
        }
    }

    /// Whether the amounts held by the live allocations fit the counters.
    pub fn fits(&self) -> (b: bool)
        ensures
            b == managed_fits(*self),
    {
        match self {
            ManagedResource::Memory(m) => m.live_total() <= u64::MAX as u128,
            ManagedResource::Cpu(m) => m.live_core_total() <= u64::MAX as u128,
        }
    }

    /// Copies of the manager's allocations, in order.
    pub fn get_allocations(&self) -> (r: Vec<ResourceAllocation>)
        ensures
            r@.map_values(|a: ResourceAllocation| a@) == managed_allocations(*self),
    {
        match self {
            ManagedResource::Memory(m) => {
                let r = m.get_allocations();
                assert(r@.map_values(|a: ResourceAllocation| a@) =~= managed_allocations(*self));
                r
            },
            ManagedResource::Cpu(m) => {
                let r = m.get_allocations();
                assert(r@.map_values(|a: ResourceAllocation| a@) =~= managed_allocations(*self));
                r
            },
        }
    }

    /// Whether the manager holds an allocation with this id.
    pub fn holds(&self, allocation_id: &str) -> (b: bool)
        ensures
            b == holds_id(managed_allocations(*self), allocation_id@),
    {
        let ghost all = managed_allocations(*self);
        match self {
            ManagedResource::Memory(m) => {
                let found = m.get_allocation(allocation_id);
                proof {
                    if holds_id(all, allocation_id@) {
                        let j = choose|j: int| 0 <= j < all.len() && (#[trigger] all[j]).allocation_id == allocation_id@;
                        assert(m.allocations@[j].allocation_id@ == allocation_id@);
                    }
                    if found is Some {
                        let j = choose|j: int|
                            0 <= j < m.allocations@.len() && m.allocations@[j].allocation_id@ == allocation_id@
                                && found->0@ == m.allocations@[j]@;
                        assert(all[j].allocation_id == allocation_id@);
                    }
                }
                found.is_some()
            },
            ManagedResource::Cpu(m) => {
                let found = m.get_allocation(allocation_id);
                proof {
                    if holds_id(all, allocation_id@) {
                        let j = choose|j: int| 0 <= j < all.len() && (#[trigger] all[j]).allocation_id == allocation_id@;
                        assert(m.allocations@[j].base.allocation_id@ == allocation_id@);
                    }
                    if found is Some {
                        let j = choose|j: int|
                            0 <= j < m.allocations@.len() && m.allocations@[j].base.allocation_id@ == allocation_id@
                                && found->0@ == m.allocations@[j].base@;
                        assert(all[j].allocation_id == allocation_id@);
                    }
                }
                found.is_some()
            },
        }
    }

    /// A copy of the allocation with this id, if the manager holds one.
    pub fn get_allocation(&self, allocation_id: &str) -> (r: Option<ResourceAllocation>)
        ensures
            r is Some <==> holds_id(managed_allocations(*self), allocation_id@),
            r matches Some(a) ==> exists|j: int|
                0 <= j < managed_allocations(*self).len() && #[trigger] managed_allocations(*self)[j] == a@
                    && a@.allocation_id == allocation_id@,
    {
        let ghost all = managed_allocations(*self);
        match self {
            ManagedResource::Memory(m) => {
                let found = m.get_allocation(allocation_id);
                proof {
                    if holds_id(all, allocation_id@) {
                        let j = choose|j: int| 0 <= j < all.len() && (#[trigger] all[j]).allocation_id == allocation_id@;
                        assert(m.allocations@[j].allocation_id@ == allocation_id@);
                    }
                    if found is Some {
                        let j = choose|j: int|
                            0 <= j < m.allocations@.len() && m.allocations@[j].allocation_id@ == allocation_id@
                                && found->0@ == m.allocations@[j]@;
                        assert(all[j] == found->0@);
                    }
                }
                found
            },
            ManagedResource::Cpu(m) => {
                let found = m.get_allocation(allocation_id);
                proof {
                    if holds_id(all, allocation_id@) {
                        let j = choose|j: int| 0 <= j < all.len() && (#[trigger] all[j]).allocation_id == allocation_id@;
                        assert(m.allocations@[j].base.allocation_id@ == allocation_id@);
                    }
                    if found is Some {
                        let j = choose|j: int|
                            0 <= j < m.allocations@.len() && m.allocations@[j].base.allocation_id@ == allocation_id@
                                && found->0@ == m.allocations@[j].base@;
                        assert(all[j] == found->0@);
                    }
                }
                found
            },
        }
    }

    /// Hands new limits to the manager.
    pub fn update_limits(&mut self, limits: &ResourceLimits) -> (r: Result<(), BlixardError>)
        requires
            managed_wf(*old(self)),
        ensures
            managed_wf(*final(self)),
            managed_fits(*final(self)) == managed_fits(*old(self)),
            (*final(self) is Memory) == (*old(self) is Memory),
            limits_answer(*old(self), *final(self), *limits, r),
    {
        match self {
            ManagedResource::Memory(m) => m.update_limits(limits),
            ManagedResource::Cpu(m) => m.update_limits(limits),
        }
    }

    /// Releases the allocation with this id; an id the manager does not hold is
    /// refused and nothing changes.
    pub fn deallocate(&mut self, allocation_id: &str) -> (r: Result<(), BlixardError>)
        requires
            managed_wf(*old(self)),
            managed_fits(*old(self)),
        ensures
            managed_wf(*final(self)),
            managed_fits(*final(self)),
            (*final(self) is Memory) == (*old(self) is Memory),
            !holds_id(managed_allocations(*old(self)), allocation_id@) ==> r is Err && r->Err_0 is ResourceUnavailable
                && managed_allocations(*final(self)) == managed_allocations(*old(self)),
            holds_id(managed_allocations(*old(self)), allocation_id@) ==> r is Ok && released_one(
                managed_allocations(*old(self)),
                managed_allocations(*final(self)),
                allocation_id@,
            ),
    {
        let ghost all = managed_allocations(*self);
        match self {
            ManagedResource::Memory(m) => {
                let ghost before = m.allocations@;
                let ratio = crate::memory_manager::sample_usage_ratio();
                proof {
                    if !holds_id(all, allocation_id@) {
                        assert forall|j: int| 0 <= j < before.len() implies before[j].allocation_id@ != allocation_id@ by {
                            assert(all[j].allocation_id == before[j].allocation_id@);
                        }
                    }
                }
                let r = m.deallocate(allocation_id, ratio);
                proof {
                    if holds_id(all, allocation_id@) {
                        let j = choose|j: int| 0 <= j < all.len() && (#[trigger] all[j]).allocation_id == allocation_id@;
                        assert(before[j].allocation_id@ == allocation_id@);
                        let k = choose|k: int|
                            0 <= k < before.len() && before[k].allocation_id@ == allocation_id@
                                && m.allocations@ == before.remove(k);
                        crate::memory_manager::lemma_live_remove(before, k);
                        assert(m.allocations@.map_values(|a: ResourceAllocation| a@) =~= all.remove(k));
                        assert(all[k].allocation_id == allocation_id@);
                    }
                }
                r
            },
            ManagedResource::Cpu(m) => {
                let ghost before = m.allocations@;
                proof {
                    if !holds_id(all, allocation_id@) {
                        assert forall|j: int| 0 <= j < before.len() implies before[j].base.allocation_id@ != allocation_id@ by {
                            assert(all[j].allocation_id == before[j].base.allocation_id@);
                        }
                    }
                }
                let r = m.deallocate(allocation_id);
                proof {
                    if holds_id(all, allocation_id@) {
                        let j = choose|j: int| 0 <= j < all.len() && (#[trigger] all[j]).allocation_id == allocation_id@;
                        assert(before[j].base.allocation_id@ == allocation_id@);
                        let k = choose|k: int|
                            0 <= k < before.len() && before[k].base.allocation_id@ == allocation_id@
                                && m.allocations@ == before.remove(k);
                        crate::cpu_manager::lemma_live_remove(before, k);
                        assert(m.allocations@.map_values(|a: CpuAllocation| a.base@) =~= all.remove(k));
                        assert(all[k].allocation_id == allocation_id@);
                    }
                }
                r
            },
        }
    }
}

impl CompositeResourceManager {
    /// Whether a request can go to the manager of its type without overflowing
    /// that manager's counters; true when no manager has its type.
    pub fn can_take(&self, request: &ResourceAllocationRequest) -> (b: bool)
        requires
            self.wf(),
        ensures
            b == (self.managers.map().contains_key(request.resource_type@) ==> managed_can_allocate(
                self.managers.map()[request.resource_type@].1,
                *request,
            )),
    {
        match self.managers.get(&request.resource_type) {
            None => true,
            Some(entry) => entry.1.can_take(request),
        }
    }

    /// A copy of the allocation with this id from the first manager that holds
    /// one, if any does.
    pub fn get_allocation(&self, allocation_id: &str) -> (r: Option<ResourceAllocation>)
        ensures
            r is None <==> none_holds(self.managers.entries@, allocation_id@),
            r matches Some(a) ==> exists|k: int|
                {
                    &&& 0 <= k < self.managers.entries@.len()
                    &&& none_holds(self.managers.entries@.take(k), allocation_id@)
                    &&& #[trigger] managed_allocations(self.managers.entries@[k].1).contains(a@)
                    &&& a@.allocation_id == allocation_id@
                },
    {
        let mut i: usize = 0;
        while i < self.managers.entries.len()
            invariant
                i <= self.managers.entries@.len(),
                none_holds(self.managers.entries@.take(i as int), allocation_id@),
            decreases self.managers.entries@.len() - i,
        {
            let found = self.managers.entries[i].1.get_allocation(allocation_id);
            match found {
                Some(a) => {
                    proof {
                        let j = choose|j: int|
                            0 <= j < managed_allocations(self.managers.entries@[i as int].1).len()
                                && #[trigger] managed_allocations(self.managers.entries@[i as int].1)[j] == a@
                                && a@.allocation_id == allocation_id@;
                        assert(managed_allocations(self.managers.entries@[i as int].1).contains(a@));
                        assert(!none_holds(self.managers.entries@, allocation_id@));
                    }
                    return Some(a);
                },
                None => {},
            }
            proof {
                assert forall|q: int| 0 <= q < i + 1 implies !holds_id(
                    managed_allocations(#[trigger] self.managers.entries@.take(i as int + 1)[q].1),
                    allocation_id@,
                ) by {
                    if q < i {
                        assert(self.managers.entries@.take(i as int + 1)[q] == self.managers.entries@.take(i as int)[q]);
                    }
                }
            }
            i = i + 1;
        }
        proof {
            assert(self.managers.entries@.take(self.managers.entries@.len() as int) =~= self.managers.entries@);
        }
        None
    }

    /// Allocates as [`Self::allocate`] does and hands the allocation back marked
    /// reserved; the manager keeps it as it was granted.
    pub fn reserve(&mut self, request: ResourceAllocationRequest) -> (r: Result<ResourceAllocation, BlixardError>)
        requires
            old(self).wf(),
            old(self).managers.map().contains_key(request.resource_type@) ==> managed_can_allocate(
                old(self).managers.map()[request.resource_type@].1,
                request,
            ),
        ensures
            final(self).wf(),
            final(self).config == old(self).config,
            final(self).managers.map().dom() == old(self).managers.map().dom(),
            exists|granted: Result<ResourceAllocation, BlixardError>|
                {
                    &&& #[trigger] composite_allocation(*old(self), *final(self), request, granted)
                    &&& granted is Err ==> r == granted
                    &&& granted is Ok ==> r == Ok::<ResourceAllocation, BlixardError>(
                        ResourceAllocation { status: AllocationStatus::Reserved, ..granted->Ok_0 },
                    )
                },
    {
        let ghost c0 = *self;
        let ghost req = request;
        let granted = self.allocate(request);
        assert(composite_allocation(c0, *self, req, granted));
        match granted {
            Ok(a) => {
                let mut a = a;
                a.status = AllocationStatus::Reserved;
                Ok(a)
            },
            Err(e) => Err(e),
        }
    }

    /// Hands new limits to the manager of their resource type; without one they
    /// are refused as unavailable.
    pub fn update_limits(&mut self, limits: &ResourceLimits) -> (r: Result<(), BlixardError>)
        requires
            old(self).wf(),
        ensures
            final(self).wf(),
            final(self).config == old(self).config,
            final(self).managers.map().dom() == old(self).managers.map().dom(),
            final(self).managers.map().remove(limits.resource_type@) == old(self).managers.map().remove(limits.resource_type@),
            !old(self).managers.map().contains_key(limits.resource_type@) ==> r == Err::<(), BlixardError>(
                BlixardError::ResourceUnavailable {
                    resource_type: resource_type_label(limits.resource_type@),
                    message: "No manager available for resource type",
                },
            ),
            old(self).managers.map().contains_key(limits.resource_type@) ==> limits_answer(
                old(self).managers.map()[limits.resource_type@].1,
                final(self).managers.map()[limits.resource_type@].1,
                *limits,
                r,
            ),
    {
        let key = limits.resource_type.copy_type();
        match self.managers.take(&key) {
            None => {
                proof {
                    assert(self.managers.map() =~= old(self).managers.map());
                }
                let label = crate::composite::type_label(&key);
                Err(BlixardError::ResourceUnavailable { resource_type: label, message: "No manager available for resource type" })
            },
            Some((t, manager)) => {
                let mut manager = manager;
                let r = manager.update_limits(limits);
                self.managers.insert((t, manager), &key);
                assert(self.managers.map().dom() =~= old(self).managers.map().dom());
                assert(self.managers.map().remove(limits.resource_type@) =~= old(self).managers.map().remove(
                    limits.resource_type@,
                ));
                r
            },
        }
    }

    /// The composite's own limits.
    pub fn get_limits(&self) -> (l: ResourceLimits)
        ensures
            l.resource_type@ == self.config.limits.resource_type@,
            l.hard_limit == self.config.limits.hard_limit,
            l.soft_limit == self.config.limits.soft_limit,
            l.allow_overcommit == self.config.limits.allow_overcommit,
            l.overcommit_permille == self.config.limits.overcommit_permille,
            l.system_reserve == self.config.limits.system_reserve,
    {
        let c = &self.config.limits;
        ResourceLimits {
            resource_type: c.resource_type.copy_type(),
            hard_limit: c.hard_limit,
            soft_limit: c.soft_limit,
            allow_overcommit: c.allow_overcommit,
            overcommit_permille: c.overcommit_permille,
            system_reserve: c.system_reserve,
        }
    }

    /// Copies of the allocations of all managers, manager after manager.
    pub fn get_allocations(&self) -> (r: Vec<ResourceAllocation>)
        ensures
            r@.map_values(|a: ResourceAllocation| a@) == all_allocations(self.managers.entries@),
    {
        let mut r: Vec<ResourceAllocation> = Vec::new();
        let mut i: usize = 0;
        while i < self.managers.entries.len()
            invariant
                i <= self.managers.entries@.len(),
                r@.map_values(|a: ResourceAllocation| a@) == all_allocations(self.managers.entries@.take(i as int)),
            decreases self.managers.entries@.len() - i,
        {
            proof {
                assert(self.managers.entries@.take(i as int + 1).drop_last() =~= self.managers.entries@.take(i as int));
            }
            let mut part = self.managers.entries[i].1.get_allocations();
            let ghost r0 = r@;
            let ghost p0 = part@;
            r.append(&mut part);
            proof {
                assert(r@.map_values(|a: ResourceAllocation| a@) =~= r0.map_values(|a: ResourceAllocation| a@)
                    + p0.map_values(|a: ResourceAllocation| a@));
            }
            i = i + 1;
        }
        proof {
            assert(self.managers.entries@.take(self.managers.entries@.len() as int) =~= self.managers.entries@);
        }
        r
    }

    /// Releases the allocation with this id from the first manager that holds
    /// it; when none does, the request is refused and nothing changes.
    pub fn deallocate(&mut self, allocation_id: &str) -> (r: Result<(), BlixardError>)
        requires
            old(self).wf(),
            all_fit(old(self).managers.entries@),
        ensures
            final(self).wf(),
            all_fit(final(self).managers.entries@),
            final(self).config == old(self).config,
            final(self).managers.entries@.len() == old(self).managers.entries@.len(),
            forall|i: int|
                0 <= i < old(self).managers.entries@.len() ==> (#[trigger] final(self).managers.entries@[i]).0
                    == old(self).managers.entries@[i].0,
            none_holds(old(self).managers.entries@, allocation_id@) ==> r == Err::<(), BlixardError>(
                BlixardError::ResourceUnavailable {
                    resource_type: "unknown",
                    message: "Allocation not found in any manager",
                },
            ) && final(self).managers.entries@ == old(self).managers.entries@,
            !none_holds(old(self).managers.entries@, allocation_id@) ==> r is Ok && exists|k: int|
                {
                    &&& 0 <= k < old(self).managers.entries@.len()
                    &&& none_holds(old(self).managers.entries@.take(k), allocation_id@)
                    &&& holds_id(managed_allocations(old(self).managers.entries@[k].1), allocation_id@)
                    &&& final(self).managers.entries@ == old(self).managers.entries@.update(k, final(self).managers.entries@[k])
                    &&& released_one(
                        managed_allocations(old(self).managers.entries@[k].1),
                        managed_allocations(final(self).managers.entries@[k].1),
                        allocation_id@,
                    )
                },
            r is Ok ==> all_allocations(final(self).managers.entries@).len() + 1 == all_allocations(
                old(self).managers.entries@,
            ).len(),
    {
        let mut i: usize = 0;
        while i < self.managers.entries.len()
            invariant
                i <= self.managers.entries@.len(),
                *self == *old(self),
                self.wf(),
                all_fit(self.managers.entries@),
                none_holds(self.managers.entries@.take(i as int), allocation_id@),
            decreases self.managers.entries@.len() - i,
        {
            if self.managers.entries[i].1.holds(allocation_id) {
                let ghost before = self.managers.entries@;
                let mut entry = self.managers.entries.remove(i);
                let ghost old_entry = entry;
                let r = entry.1.deallocate(allocation_id);
                self.managers.entries.insert(i, entry);
                proof {
                    let after = self.managers.entries@;
                    assert(after =~= before.update(i as int, after[i as int]));
                    assert(after[i as int].0 == before[i as int].0);
                    assert forall|a: int, b: int| 0 <= a < b < after.len() implies (#[trigger] after[a]).key_of()
                        != (#[trigger] after[b]).key_of() by {
                        assert(before[a].key_of() != before[b].key_of());
                    }
                    assert forall|q: int| 0 <= q < after.len() implies managed_wf(#[trigger] after[q].1) by {
                        if q != i {
                            assert(managed_wf(before[q].1));
                        }
                    }
                    assert forall|q: int| 0 <= q < after.len() implies managed_fits(#[trigger] after[q].1) by {
                        if q != i {
                            assert(managed_fits(before[q].1));
                        }
                    }
                    lemma_all_allocations_update(before, i as int, after[i as int]);
                    let j = choose|j: int|
                        0 <= j < managed_allocations(old_entry.1).len() && (#[trigger] managed_allocations(
                            old_entry.1,
                        )[j]).allocation_id == allocation_id@ && managed_allocations(after[i as int].1)
                            == managed_allocations(old_entry.1).remove(j);
                    assert(managed_allocations(after[i as int].1).len() + 1 == managed_allocations(old_entry.1).len());
                }
                return r;
            }
            proof {
                assert forall|q: int| 0 <= q < i + 1 implies !holds_id(
                    managed_allocations(#[trigger] self.managers.entries@.take(i as int + 1)[q].1),
                    allocation_id@,
                ) by {
                    if q < i {
                        assert(self.managers.entries@.take(i as int + 1)[q] == self.managers.entries@.take(i as int)[q]);
                    }
                }
            }
            i = i + 1;
        }
        proof {
            assert(self.managers.entries@.take(self.managers.entries@.len() as int) =~= self.managers.entries@);
        }
        Err(BlixardError::ResourceUnavailable { resource_type: "unknown", message: "Allocation not found in any manager" })
    }
}

} // verus!
