//! Per-tenant resource quotas and usage tracking.
//!
//! Times are milliseconds since the Unix epoch; the overcommit ratio is held in
//! thousandths (1200 = 1.2).
use vstd::prelude::*;
use vstd::string::*;

use crate::decimal::{decimal, to_decimal};
use crate::text::concat;

verus! {

/// Limits on a tenant's VMs.
#[derive(Debug, Clone, Copy, PartialEq, Eq, Structural)]
pub struct VmResourceLimits {
    pub max_vms: u32,
    pub max_vcpus: u32,
    pub max_memory_mb: u64,
    pub max_disk_gb: u64,
    pub max_vms_per_node: u32,
    /// Overcommit ratio in thousandths (1000 = no overcommit).
    pub overcommit_permille: u32,
    /// Allocation priority; higher wins.
    pub priority: u8,
}

/// Limits on particular API operations.
#[derive(Debug, Clone, Copy, PartialEq, Eq, Structural)]
pub struct OperationLimits {
    pub vm_create_per_minute: u32,
    pub vm_delete_per_minute: u32,
    pub cluster_join_per_hour: u32,
    pub status_query_per_second: u32,
    pub config_change_per_hour: u32,
}

/// Limits on a tenant's API use.
#[derive(Debug, Clone, Copy, PartialEq, Eq, Structural)]
pub struct ApiRateLimits {
    pub requests_per_second: u32,
    pub burst_capacity: u32,
    pub max_concurrent_requests: u32,
    pub operation_limits: OperationLimits,
}

/// Limits on a tenant's storage.
#[derive(Debug, Clone, Copy, PartialEq, Eq, Structural)]
pub struct StorageLimits {
    pub max_storage_gb: u64,
    pub max_disk_images: u32,
    pub max_image_size_gb: u64,
    pub max_backup_storage_gb: u64,
    pub max_iops: u32,
}

impl Default for VmResourceLimits {
    fn default() -> (l: Self)
        ensures
            l == (VmResourceLimits {
                max_vms: 50,
                max_vcpus: 200,
                max_memory_mb: 204800,
                max_disk_gb: 2048,
                max_vms_per_node: 25,
                overcommit_permille: 1200,
                priority: 100,
            }),
    {
        VmResourceLimits {
            max_vms: 50,
            max_vcpus: 200,
            max_memory_mb: 204800,
            max_disk_gb: 2048,
            max_vms_per_node: 25,
            overcommit_permille: 1200,
            priority: 100,
        }
    }
}

impl Default for OperationLimits {
    fn default() -> (l: Self)
        ensures
            l == (OperationLimits {
                vm_create_per_minute: 10,
                vm_delete_per_minute: 20,
                cluster_join_per_hour: 5,
                status_query_per_second: 50,
                config_change_per_hour: 10,
            }),
    {
        OperationLimits {
            vm_create_per_minute: 10,
            vm_delete_per_minute: 20,
            cluster_join_per_hour: 5,
            status_query_per_second: 50,
            config_change_per_hour: 10,
        }
    }
}

impl Default for ApiRateLimits {
    fn default() -> (l: Self)
        ensures
            l.requests_per_second == 100,
            l.burst_capacity == 200,
            l.max_concurrent_requests == 50,
            l.operation_limits == (OperationLimits {
                vm_create_per_minute: 10,
                vm_delete_per_minute: 20,
                cluster_join_per_hour: 5,
                status_query_per_second: 50,
                config_change_per_hour: 10,
            }),
    {
        ApiRateLimits {
            requests_per_second: 100,
            burst_capacity: 200,
            max_concurrent_requests: 50,
            operation_limits: OperationLimits::default(),
        }
    }
}

impl Default for StorageLimits {
    fn default() -> (l: Self)
        ensures
            l == (StorageLimits {
                max_storage_gb: 1024,
                max_disk_images: 100,
                max_image_size_gb: 100,
                max_backup_storage_gb: 512,
                max_iops: 10000,
            }),
    {
        StorageLimits {
            max_storage_gb: 1024,
            max_disk_images: 100,
            max_image_size_gb: 100,
            max_backup_storage_gb: 512,
            max_iops: 10000,
        }
    }
}

/// The quota of a tenant.
#[derive(Debug, Clone)]
pub struct TenantQuota {
    pub tenant_id: String,
    pub vm_limits: VmResourceLimits,
    pub api_limits: ApiRateLimits,
    pub storage_limits: StorageLimits,
    /// Whether the quota is enforced.
    pub enabled: bool,
    pub created_at_ms: i64,
    pub updated_at_ms: i64,
}

impl TenantQuota {
    /// An enforced quota with default limits, created at `now_ms`.
    pub fn new(tenant_id: String, now_ms: i64) -> (q: Self)
        ensures
            q.tenant_id == tenant_id,
            q.vm_limits.max_vms == 50 && q.vm_limits.max_vcpus == 200,
            q.vm_limits.max_memory_mb == 204800 && q.vm_limits.max_disk_gb == 2048,
            q.vm_limits.max_vms_per_node == 25 && q.vm_limits.overcommit_permille == 1200,
            q.vm_limits.priority == 100,
            q.api_limits.requests_per_second == 100 && q.api_limits.burst_capacity == 200,
            q.api_limits.max_concurrent_requests == 50,
            q.api_limits.operation_limits == (OperationLimits {
                vm_create_per_minute: 10,
                vm_delete_per_minute: 20,
                cluster_join_per_hour: 5,
                status_query_per_second: 50,
                config_change_per_hour: 10,
            }),
            q.storage_limits == (StorageLimits {
                max_storage_gb: 1024,
                max_disk_images: 100,
                max_image_size_gb: 100,
                max_backup_storage_gb: 512,
                max_iops: 10000,
            }),
            q.enabled,
            q.created_at_ms == now_ms,
            q.updated_at_ms == now_ms,
    {
        TenantQuota {
            tenant_id,
            vm_limits: VmResourceLimits::default(),
            api_limits: ApiRateLimits::default(),
            storage_limits: StorageLimits::default(),
            enabled: true,
            created_at_ms: now_ms,
            updated_at_ms: now_ms,
        }
    }

    /// Replaces the limits that are given and stamps the update.
    pub fn update_limits(
        &mut self,
        vm_limits: Option<VmResourceLimits>,
        api_limits: Option<ApiRateLimits>,
        storage_limits: Option<StorageLimits>,
        now_ms: i64,
    )
        ensures
            final(self).tenant_id == old(self).tenant_id,
            final(self).enabled == old(self).enabled,
            final(self).created_at_ms == old(self).created_at_ms,
            final(self).updated_at_ms == now_ms,
            final(self).vm_limits == match vm_limits {
                Some(v) => v,
                None => old(self).vm_limits,
            },
            final(self).api_limits == match api_limits {
                Some(a) => a,
                None => old(self).api_limits,
            },
            final(self).storage_limits == match storage_limits {
                Some(s) => s,
                None => old(self).storage_limits,
            },
    {
        if let Some(v) = vm_limits {
            self.vm_limits = v;
        }
        if let Some(a) = api_limits {
            self.api_limits = a;
        }
        if let Some(s) = storage_limits {
            self.storage_limits = s;
        }
        self.updated_at_ms = now_ms;
    }
}


/// A tenant's VM usage.
#[derive(Debug, Clone)]
pub struct VmResourceUsage {
    pub active_vms: u32,
    pub used_vcpus: u32,
    pub used_memory_mb: u64,
    pub used_disk_gb: u64,
    /// VM count per node; no node occurs twice and no count is zero.
    pub vms_per_node: Vec<(u64, u32)>,
}

/// Usage of particular API operations in their current windows.
#[derive(Debug, Clone, Copy, PartialEq, Eq, Structural, Default)]
pub struct OperationUsage {
    pub vm_create_current_minute: u32,
    pub vm_delete_current_minute: u32,
    pub cluster_join_current_hour: u32,
    pub status_query_current_second: u32,
    pub config_change_current_hour: u32,
}

/// A tenant's API usage.
#[derive(Debug, Clone)]
pub struct ApiUsage {
    pub requests_current_second: u32,
    pub requests_current_minute: u32,
    pub requests_current_hour: u32,
    pub concurrent_requests: u32,
    pub operation_usage: OperationUsage,
    /// Times of recent requests.
    pub request_timestamps_ms: Vec<i64>,
}

/// A tenant's storage usage.
#[derive(Debug, Clone, Copy, PartialEq, Eq, Structural, Default)]
pub struct StorageUsage {
    pub used_storage_gb: u64,
    pub disk_image_count: u32,
    pub backup_storage_gb: u64,
    pub current_iops: u32,
}

/// Everything a tenant uses.
#[derive(Debug, Clone)]
pub struct TenantUsage {
    pub tenant_id: String,
    pub vm_usage: VmResourceUsage,
    pub api_usage: ApiUsage,
    pub storage_usage: StorageUsage,
    pub updated_at_ms: i64,
}

/// The per-node VM counts as a map.
pub open spec fn counts_map(s: Seq<(u64, u32)>) -> Map<u64, u32>
    decreases s.len(),
{
    if s.len() == 0 {
        Map::empty()
    } else {
        counts_map(s.drop_last()).insert(s.last().0, s.last().1)
    }
}

/// Whether no node occurs twice and no count is zero.
pub open spec fn counts_wf(s: Seq<(u64, u32)>) -> bool {
    &&& forall|i: int, j: int| 0 <= i < j < s.len() ==> s[i].0 != s[j].0
    &&& forall|i: int| 0 <= i < s.len() ==> (#[trigger] s[i]).1 > 0
}

/// A usage total after adding a signed change, floored at zero (32-bit).
pub open spec fn adjusted_u32(used: u32, delta: i32) -> u32 {
    let v = (used as i32) as int + delta as int;
    if v < 0 {
        0
    } else {
        v as u32
    }
}

/// A usage total after adding a signed change, floored at zero (64-bit).
pub open spec fn adjusted_u64(used: u64, delta: i64) -> u64 {
    let v = (used as i64) as int + delta as int;
    if v < 0 {
        0
    } else {
        v as u64
    }
}

/// The VM count of a node, 0 when it has none.
pub open spec fn count_of(m: Map<u64, u32>, node: u64) -> u32 {
    if m.contains_key(node) {
        m[node]
    } else {
        0
    }
}

/// The per-node counts after a VM is created on `node`.
pub open spec fn counts_after_create(m: Map<u64, u32>, node: u64) -> Map<u64, u32> {
    m.insert(node, (count_of(m, node) + 1) as u32)
}

/// The per-node counts after a VM is deleted from `node`.
pub open spec fn counts_after_delete(m: Map<u64, u32>, node: u64) -> Map<u64, u32> {
    if !m.contains_key(node) {
        m
    } else if m[node] <= 1 {
        m.remove(node)
    } else {
        m.insert(node, (m[node] - 1) as u32)
    }
}

proof fn lemma_counts_contains(s: Seq<(u64, u32)>, k: u64)
    requires
        counts_wf(s),
    ensures
        counts_map(s).contains_key(k) <==> exists|i: int| 0 <= i < s.len() && s[i].0 == k,
        forall|i: int| 0 <= i < s.len() && s[i].0 == k ==> counts_map(s)[k] == s[i].1,
    decreases s.len(),
{
    if s.len() > 0 {
        let t = s.drop_last();
        assert forall|a: int, b: int| 0 <= a < b < t.len() implies t[a].0 != t[b].0 by {
            assert(s[a].0 != s[b].0);
        }
        assert forall|i: int| 0 <= i < t.len() implies (#[trigger] t[i]).1 > 0 by {
            assert(s[i].1 > 0);
        }
        lemma_counts_contains(t, k);
        if counts_map(s).contains_key(k) && s.last().0 != k {
            let w = choose|w: int| 0 <= w < t.len() && t[w].0 == k;
            assert(s[w].0 == k);
        }
        if exists|i: int| 0 <= i < s.len() && s[i].0 == k {
            let w = choose|w: int| 0 <= w < s.len() && s[w].0 == k;
            if w < s.len() - 1 {
                assert(t[w].0 == k);
            }
        }
        assert forall|i: int| 0 <= i < s.len() && s[i].0 == k implies counts_map(s)[k] == s[i].1 by {
            if i < s.len() - 1 {
                assert(t[i] == s[i]);
                assert(s[i].0 != s[s.len() - 1].0);
            }
        }
    }
}

proof fn lemma_counts_update(s: Seq<(u64, u32)>, i: int, v: u32)
    requires
        counts_wf(s),
        0 <= i < s.len(),
        v > 0,
    ensures
        counts_wf(s.update(i, (s[i].0, v))),
        counts_map(s.update(i, (s[i].0, v))) == counts_map(s).insert(s[i].0, v),
    decreases s.len(),
{
    let u = s.update(i, (s[i].0, v));
    assert forall|a: int, b: int| 0 <= a < b < u.len() implies u[a].0 != u[b].0 by {
        assert(s[a].0 != s[b].0);
    }
    let t = s.drop_last();
    assert forall|a: int, b: int| 0 <= a < b < t.len() implies t[a].0 != t[b].0 by {
        assert(s[a].0 != s[b].0);
    }
    assert forall|q: int| 0 <= q < t.len() implies (#[trigger] t[q]).1 > 0 by {
        assert(s[q].1 > 0);
    }
    if i == s.len() - 1 {
        assert(u.drop_last() =~= t);
        assert(counts_map(u) =~= counts_map(s).insert(s[i].0, v));
    } else {
        lemma_counts_update(t, i, v);
        assert(u.drop_last() =~= t.update(i, (s[i].0, v)));
        assert(s.last().0 != s[i].0);
        assert(counts_map(u) =~= counts_map(s).insert(s[i].0, v));
    }
}

proof fn lemma_counts_remove(s: Seq<(u64, u32)>, i: int)
    requires
        counts_wf(s),
        0 <= i < s.len(),
    ensures
        counts_wf(s.remove(i)),
        counts_map(s.remove(i)) == counts_map(s).remove(s[i].0),
    decreases s.len(),
{
    let r = s.remove(i);
    assert forall|a: int, b: int| 0 <= a < b < r.len() implies r[a].0 != r[b].0 by {
        if b < i {
            assert(s[a].0 != s[b].0);
        } else if a < i {
            assert(s[a].0 != s[b + 1].0);
        } else {
            assert(s[a + 1].0 != s[b + 1].0);
        }
    }
    assert forall|q: int| 0 <= q < r.len() implies (#[trigger] r[q]).1 > 0 by {
        if q < i {
            assert(s[q].1 > 0);
        } else {
            assert(s[q + 1].1 > 0);
        }
    }
    let t = s.drop_last();
    assert forall|a: int, b: int| 0 <= a < b < t.len() implies t[a].0 != t[b].0 by {
        assert(s[a].0 != s[b].0);
    }
    assert forall|q: int| 0 <= q < t.len() implies (#[trigger] t[q]).1 > 0 by {
        assert(s[q].1 > 0);
    }
    if i == s.len() - 1 {
        assert(r =~= t);
        lemma_counts_contains(t, s[i].0);
        assert forall|j: int| 0 <= j < t.len() implies t[j].0 != s[i].0 by {
            assert(s[j].0 != s[i].0);
        }
        assert(counts_map(r) =~= counts_map(s).remove(s[i].0));
    } else {
        lemma_counts_remove(t, i);
        assert(r.drop_last() =~= t.remove(i));
        assert(r.last() == s.last());
        assert(s.last().0 != s[i].0);
        assert(counts_map(r) =~= counts_map(s).remove(s[i].0));
    }
}

fn find_node_count(v: &Vec<(u64, u32)>, node: u64) -> (r: Option<usize>)
    ensures
        match r {
            Some(i) => i < v@.len() && v@[i as int].0 == node,
            None => forall|j: int| 0 <= j < v@.len() ==> v@[j].0 != node,
        },
{
    let mut i: usize = 0;
    while i < v.len()
        invariant
            i <= v@.len(),
            forall|j: int| 0 <= j < i ==> v@[j].0 != node,
        decreases v@.len() - i,
    {
        if v[i].0 == node {
            return Some(i);
        }
        i = i + 1;
    }
    None
}

impl TenantUsage {
    /// Nothing used, as of `now_ms`.
    pub fn new(tenant_id: String, now_ms: i64) -> (u: Self)
        ensures
            u.tenant_id == tenant_id,
            u.vm_usage.active_vms == 0,
            u.vm_usage.used_vcpus == 0,
            u.vm_usage.used_memory_mb == 0,
            u.vm_usage.used_disk_gb == 0,
            u.vm_usage.vms_per_node@.len() == 0,
            u.api_usage.requests_current_second == 0,
            u.api_usage.requests_current_minute == 0,
            u.api_usage.requests_current_hour == 0,
            u.api_usage.concurrent_requests == 0,
            u.api_usage.operation_usage == (OperationUsage {
                vm_create_current_minute: 0,
                vm_delete_current_minute: 0,
                cluster_join_current_hour: 0,
                status_query_current_second: 0,
                config_change_current_hour: 0,
            }),
            u.api_usage.request_timestamps_ms@.len() == 0,
            u.storage_usage == (StorageUsage {
                used_storage_gb: 0,
                disk_image_count: 0,
                backup_storage_gb: 0,
                current_iops: 0,
            }),
            u.updated_at_ms == now_ms,
    {
        TenantUsage {
            tenant_id,
            vm_usage: VmResourceUsage {
                active_vms: 0,
                used_vcpus: 0,
                used_memory_mb: 0,
                used_disk_gb: 0,
                vms_per_node: Vec::new(),
            },
            api_usage: ApiUsage {
                requests_current_second: 0,
                requests_current_minute: 0,
                requests_current_hour: 0,
                concurrent_requests: 0,
                operation_usage: OperationUsage {
                    vm_create_current_minute: 0,
                    vm_delete_current_minute: 0,
                    cluster_join_current_hour: 0,
                    status_query_current_second: 0,
                    config_change_current_hour: 0,
                },
                request_timestamps_ms: Vec::new(),
            },
            storage_usage: StorageUsage {
                used_storage_gb: 0,
                disk_image_count: 0,
                backup_storage_gb: 0,
                current_iops: 0,
            },
            updated_at_ms: now_ms,
        }
    }

    /// Records a VM created (positive `vcpus`) or deleted (negative `vcpus`) on
    /// `node_id`: totals move by the signed amounts and never drop below zero; the
    /// VM counts follow the sign of `vcpus`, and a node whose count reaches zero is
    /// dropped.
    pub fn update_vm_usage(&mut self, vcpus: i32, memory_mb: i64, disk_gb: i64, node_id: u64, now_ms: i64)
        requires
            counts_wf(old(self).vm_usage.vms_per_node@),
            i32::MIN <= (old(self).vm_usage.used_vcpus as i32) as int + vcpus <= i32::MAX,
            i64::MIN <= (old(self).vm_usage.used_memory_mb as i64) as int + memory_mb <= i64::MAX,
            i64::MIN <= (old(self).vm_usage.used_disk_gb as i64) as int + disk_gb <= i64::MAX,
            vcpus > 0 ==> old(self).vm_usage.active_vms < u32::MAX,
            vcpus > 0 ==> count_of(counts_map(old(self).vm_usage.vms_per_node@), node_id) < u32::MAX,
        ensures
            counts_wf(final(self).vm_usage.vms_per_node@),
            final(self).tenant_id == old(self).tenant_id,
            final(self).updated_at_ms == now_ms,
            final(self).vm_usage.used_vcpus == adjusted_u32(old(self).vm_usage.used_vcpus, vcpus),
            final(self).vm_usage.used_memory_mb == adjusted_u64(old(self).vm_usage.used_memory_mb, memory_mb),
            final(self).vm_usage.used_disk_gb == adjusted_u64(old(self).vm_usage.used_disk_gb, disk_gb),
            final(self).vm_usage.active_vms == if vcpus > 0 {
                (old(self).vm_usage.active_vms + 1) as u32
            } else if vcpus < 0 {
                (if old(self).vm_usage.active_vms > 0 { old(self).vm_usage.active_vms - 1 } else { 0 }) as u32
            } else {
                old(self).vm_usage.active_vms
            },
            counts_map(final(self).vm_usage.vms_per_node@) == if vcpus > 0 {
                counts_after_create(counts_map(old(self).vm_usage.vms_per_node@), node_id)
            } else if vcpus < 0 {
                counts_after_delete(counts_map(old(self).vm_usage.vms_per_node@), node_id)
            } else {
                counts_map(old(self).vm_usage.vms_per_node@)
            },
    {
        let c = (self.vm_usage.used_vcpus as i32) + vcpus;
        self.vm_usage.used_vcpus = if c < 0 { 0 } else { c as u32 };
        let m = (self.vm_usage.used_memory_mb as i64) + memory_mb;
        self.vm_usage.used_memory_mb = if m < 0 { 0 } else { m as u64 };
        let d = (self.vm_usage.used_disk_gb as i64) + disk_gb;
        self.vm_usage.used_disk_gb = if d < 0 { 0 } else { d as u64 };
        let ghost before = self.vm_usage.vms_per_node@;
        proof {
            lemma_counts_contains(before, node_id);
        }
        if vcpus > 0 {
            self.vm_usage.active_vms = self.vm_usage.active_vms + 1;
            match find_node_count(&self.vm_usage.vms_per_node, node_id) {
                Some(i) => {
                    let n = self.vm_usage.vms_per_node[i].1;
                    self.vm_usage.vms_per_node.set(i, (node_id, n + 1));
                    proof {
                        lemma_counts_update(before, i as int, (n + 1) as u32);
                    }
                },
                None => {
                    self.vm_usage.vms_per_node.push((node_id, 1));
                    proof {
                        assert(self.vm_usage.vms_per_node@.drop_last() =~= before);
                    }
                },
            }
        } else if vcpus < 0 {
            self.vm_usage.active_vms = self.vm_usage.active_vms.saturating_sub(1);
            match find_node_count(&self.vm_usage.vms_per_node, node_id) {
                Some(i) => {
                    let n = self.vm_usage.vms_per_node[i].1;
                    let left = n.saturating_sub(1);
                    if left == 0 {
                        self.vm_usage.vms_per_node.remove(i);
                        proof {
                            lemma_counts_remove(before, i as int);
                        }
                    } else {
                        self.vm_usage.vms_per_node.set(i, (node_id, left));
                        proof {
                            lemma_counts_update(before, i as int, left);
                        }
                    }
                },
                None => {},
            }
        }
        self.updated_at_ms = now_ms;
    }
}


/// A quota that a request would break.
#[derive(Debug, Clone, PartialEq, Eq)]
pub enum QuotaViolation {
    VmLimitExceeded { limit: u32, current: u32, requested: u32 },
    CpuLimitExceeded { limit: u32, current: u32, requested: u32 },
    MemoryLimitExceeded { limit: u64, current: u64, requested: u64 },
    DiskLimitExceeded { limit: u64, current: u64, requested: u64 },
    PerNodeVmLimitExceeded { node_id: u64, limit: u32, current: u32 },
    RateLimitExceeded { operation: String, limit: u32, current: u32 },
    StorageLimitExceeded { limit: u64, current: u64, requested: u64 },
}

/// `<head>limit=<l><unit>, current=<c><unit>, requested=<r><unit>`.
pub open spec fn three_figures(head: Seq<char>, l: nat, c: nat, r: nat, unit: Seq<char>) -> Seq<char> {
    head + "limit="@ + decimal(l) + unit + ", current="@ + decimal(c) + unit + ", requested="@
        + decimal(r) + unit
}

/// The message of a violation.
pub open spec fn violation_text(v: QuotaViolation) -> Seq<char> {
    match v {
        QuotaViolation::VmLimitExceeded { limit, current, requested } => three_figures(
            "VM limit exceeded: "@,
            limit as nat,
            current as nat,
            requested as nat,
            ""@,
        ),
        QuotaViolation::CpuLimitExceeded { limit, current, requested } => three_figures(
            "CPU limit exceeded: "@,
            limit as nat,
            current as nat,
            requested as nat,
            ""@,
        ),
        QuotaViolation::MemoryLimitExceeded { limit, current, requested } => three_figures(
            "Memory limit exceeded: "@,
            limit as nat,
            current as nat,
            requested as nat,
            "MB"@,
        ),
        QuotaViolation::DiskLimitExceeded { limit, current, requested } => three_figures(
            "Disk limit exceeded: "@,
            limit as nat,
            current as nat,
            requested as nat,
            "GB"@,
        ),
        QuotaViolation::PerNodeVmLimitExceeded { node_id, limit, current } =>
            "Per-node VM limit exceeded on node "@ + decimal(node_id as nat) + ": limit="@
            + decimal(limit as nat) + ", current="@ + decimal(current as nat),
        QuotaViolation::RateLimitExceeded { operation, limit, current } =>
            "Rate limit exceeded for "@ + operation@ + ": limit="@ + decimal(limit as nat)
            + ", current="@ + decimal(current as nat),
        QuotaViolation::StorageLimitExceeded { limit, current, requested } => three_figures(
            "Storage limit exceeded: "@,
            limit as nat,
            current as nat,
            requested as nat,
            "GB"@,
        ),
    }
}

fn render_three(head: &str, l: u64, c: u64, r: u64, unit: &str) -> (s: String)
    ensures
        s@ == three_figures(head@, l as nat, c as nat, r as nat, unit@),
{
    let mut s = concat(head, "limit=");
    let t = to_decimal(l);
    s.append(t.as_str());
    s.append(unit);
    s.append(", current=");
    let t = to_decimal(c);
    s.append(t.as_str());
    s.append(unit);
    s.append(", requested=");
    let t = to_decimal(r);
    s.append(t.as_str());
    s.append(unit);
    s
}

impl QuotaViolation {
    /// The human-readable message of the violation.
    pub fn to_string(&self) -> (s: String)
        ensures
            s@ == violation_text(*self),
    {
        match self {
            QuotaViolation::VmLimitExceeded { limit, current, requested } => render_three(
                "VM limit exceeded: ",
                *limit as u64,
                *current as u64,
                *requested as u64,
                "",
            ),
            QuotaViolation::CpuLimitExceeded { limit, current, requested } => render_three(
                "CPU limit exceeded: ",
                *limit as u64,
                *current as u64,
                *requested as u64,
                "",
            ),
            QuotaViolation::MemoryLimitExceeded { limit, current, requested } => render_three(
                "Memory limit exceeded: ",
                *limit,
                *current,
                *requested,
                "MB",
            ),
            QuotaViolation::DiskLimitExceeded { limit, current, requested } => render_three(
                "Disk limit exceeded: ",
                *limit,
                *current,
                *requested,
                "GB",
            ),
            QuotaViolation::PerNodeVmLimitExceeded { node_id, limit, current } => {
                let mut s = String::from_str("Per-node VM limit exceeded on node ");
                let t = to_decimal(*node_id);
                s.append(t.as_str());
                s.append(": limit=");
                let t = to_decimal(*limit as u64);
                s.append(t.as_str());
                s.append(", current=");
                let t = to_decimal(*current as u64);
                s.append(t.as_str());
                s
            },
            QuotaViolation::RateLimitExceeded { operation, limit, current } => {
                let mut s = String::from_str("Rate limit exceeded for ");
                s.append(operation.as_str());
                s.append(": limit=");
                let t = to_decimal(*limit as u64);
                s.append(t.as_str());
                s.append(", current=");
                let t = to_decimal(*current as u64);
                s.append(t.as_str());
                s
            },
            QuotaViolation::StorageLimitExceeded { limit, current, requested } => render_three(
                "Storage limit exceeded: ",
                *limit,
                *current,
                *requested,
                "GB",
            ),
        }
    }
}

/// A request for resources by a tenant.
#[derive(Debug, Clone)]
pub struct ResourceRequest {
    pub tenant_id: String,
    /// Target node, if one is named.
    pub node_id: Option<u64>,
    pub vcpus: u32,
    pub memory_mb: u64,
    pub disk_gb: u64,
    pub timestamp_ms: i64,
}

/// API operations subject to rate limits.
#[derive(Debug, Clone, Copy, PartialEq, Eq, Hash, Structural)]
pub enum ApiOperation {
    VmCreate,
    VmDelete,
    VmStart,
    VmStop,
    ClusterJoin,
    ClusterLeave,
    StatusQuery,
    ConfigChange,
    MetricsQuery,
}

/// The name of an operation.
pub open spec fn operation_name(op: ApiOperation) -> Seq<char> {
    match op {
        ApiOperation::VmCreate => "vm_create"@,
        ApiOperation::VmDelete => "vm_delete"@,
        ApiOperation::VmStart => "vm_start"@,
        ApiOperation::VmStop => "vm_stop"@,
        ApiOperation::ClusterJoin => "cluster_join"@,
        ApiOperation::ClusterLeave => "cluster_leave"@,
        ApiOperation::StatusQuery => "status_query"@,
        ApiOperation::ConfigChange => "config_change"@,
        ApiOperation::MetricsQuery => "metrics_query"@,
    }
}

impl ApiOperation {
    /// The name of the operation, such as `vm_create`.
    pub fn to_string(&self) -> (s: String)
        ensures
            s@ == operation_name(*self),
    {
        let n = match self {
            ApiOperation::VmCreate => "vm_create",
            ApiOperation::VmDelete => "vm_delete",
            ApiOperation::VmStart => "vm_start",
            ApiOperation::VmStop => "vm_stop",
            ApiOperation::ClusterJoin => "cluster_join",
            ApiOperation::ClusterLeave => "cluster_leave",
            ApiOperation::StatusQuery => "status_query",
            ApiOperation::ConfigChange => "config_change",
            ApiOperation::MetricsQuery => "metrics_query",
        };
        String::from_str(n)
    }
}

/// Deleting a VM undoes creating it on the same node: the per-node counts come back,
/// and so do the totals when they were small enough not to be floored.
pub proof fn lemma_delete_undoes_create(m: Map<u64, u32>, node: u64, used: u32, vcpus: i32)
    requires
        count_of(m, node) < u32::MAX,
        forall|k: u64| m.contains_key(k) ==> m[k] > 0,
        vcpus > 0,
        used <= i32::MAX,
        used + vcpus <= i32::MAX,
    ensures
        counts_after_delete(counts_after_create(m, node), node) == m,
        adjusted_u32(adjusted_u32(used, vcpus), -vcpus as i32) == used,
{
    let c = counts_after_create(m, node);
    assert(c.contains_key(node));
    if m.contains_key(node) {
        assert(counts_after_delete(c, node) =~= m);
    } else {
        assert(counts_after_delete(c, node) =~= m);
    }
    assert((used as i32) as int == used as int) by (bit_vector)
        requires
            used <= 0x7fff_ffff,
    ;
    let a = adjusted_u32(used, vcpus);
    assert(a == used + vcpus);
    assert((a as i32) as int == a as int) by (bit_vector)
        requires
            a <= 0x7fff_ffff,
    ;
}

} // verus!
