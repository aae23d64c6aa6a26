//! Moving from per-tenant quotas to the resource managers: conversions and the
//! migration report.
use vstd::prelude::*;
use vstd::string::*;

use crate::decimal::{decimal, to_decimal};
use crate::error::BlixardError;
use crate::quotas::{QuotaViolation, ResourceRequest, TenantQuota};
use crate::resource_manager::{
    ResourceAllocationRequest, ResourceLimits, ResourceType, ResourceTypeView,
};
use crate::text::concat;

verus! {

/// Progress of the migration.
#[derive(Debug, Clone)]
pub struct MigrationStatus {
    pub memory_migrated: bool,
    pub cpu_migrated: bool,
    pub disk_migrated: bool,
    pub warnings_count: usize,
    pub warnings: Vec<String>,
}

/// How many of the three parts are migrated.
pub open spec fn parts_done(s: MigrationStatus) -> nat {
    (if s.memory_migrated { 1nat } else { 0nat }) + (if s.cpu_migrated { 1nat } else { 0nat }) + (
    if s.disk_migrated {
        1nat
    } else {
        0nat
    })
}

/// The completion percentage to one decimal: `0.0`, `33.3`, `66.7` or `100.0`.
pub open spec fn completion_text(done: nat) -> Seq<char> {
    if done == 0 {
        "0.0"@
    } else if done == 1 {
        "33.3"@
    } else if done == 2 {
        "66.7"@
    } else {
        "100.0"@
    }
}

/// The state of one part in the report.
pub open spec fn part_text(done: bool) -> Seq<char> {
    if done {
        "✓ Complete"@
    } else {
        "✗ Pending"@
    }
}

/// The numbered warning lines, from number `first` on.
pub open spec fn warning_lines(ws: Seq<String>) -> Seq<char>
    decreases ws.len(),
{
    if ws.len() == 0 {
        Seq::empty()
    } else {
        warning_lines(ws.drop_last()) + "  "@ + decimal(ws.len()) + ". "@ + ws.last()@ + "\n"@
    }
}

/// The migration report.
pub open spec fn report_text(s: MigrationStatus) -> Seq<char> {
    let head = "Resource Manager Migration Report\n"@ + "=====================================\n\n"@
        + "Migration Status: "@ + completion_text(parts_done(s)) + "% complete\n"@
        + "Memory Migration: "@ + part_text(s.memory_migrated) + "\n"@ + "CPU Migration: "@
        + part_text(s.cpu_migrated) + "\n"@ + "Disk Migration: "@ + part_text(s.disk_migrated) + "\n"@;
    let warnings = if s.warnings@.len() > 0 {
        "\nWarnings ("@ + decimal(s.warnings_count as nat) + "):\n"@ + warning_lines(s.warnings@)
    } else {
        Seq::empty()
    };
    let tail = if parts_done(s) == 3 {
        "\n✓ Migration completed successfully!\n"@
            + "You can now use the unified ResourceManager interface.\n"@
    } else {
        "\n⚠ Migration is incomplete. Continue with remaining steps.\n"@
    };
    head + warnings + tail
}

impl MigrationStatus {
    /// Whether memory, CPU and disk are all migrated.
    pub fn is_complete(&self) -> (r: bool)
        ensures
            r == (self.memory_migrated && self.cpu_migrated && self.disk_migrated),
    {
        self.memory_migrated && self.cpu_migrated && self.disk_migrated
    }

    /// How many of the three parts are migrated.
    pub fn parts_completed(&self) -> (n: u32)
        ensures
            n == parts_done(*self),
    {
        let mut n: u32 = 0;
        if self.memory_migrated {
            n = n + 1;
        }
        if self.cpu_migrated {
            n = n + 1;
        }
        if self.disk_migrated {
            n = n + 1;
        }
        n
    }
}

fn part_label(done: bool) -> (s: &'static str)
    ensures
        s@ == part_text(done),
{
    if done {
        "✓ Complete"
    } else {
        "✗ Pending"
    }
}

/// The migration report: a heading, the completion percentage, the state of each
/// part, the numbered warnings if there are any, and a closing line.
pub fn generate_migration_report(status: &MigrationStatus) -> (r: String)
    ensures
        r@ == report_text(*status),
{
    let done = status.parts_completed();
    let pct = if done == 0 {
        "0.0"
    } else if done == 1 {
        "33.3"
    } else if done == 2 {
        "66.7"
    } else {
        "100.0"
    };
    let mut r = String::from_str("Resource Manager Migration Report\n");
    r.append("=====================================\n\n");
    r.append("Migration Status: ");
    r.append(pct);
    r.append("% complete\n");
    r.append("Memory Migration: ");
    r.append(part_label(status.memory_migrated));
    r.append("\n");
    r.append("CPU Migration: ");
    r.append(part_label(status.cpu_migrated));
    r.append("\n");
    r.append("Disk Migration: ");
    r.append(part_label(status.disk_migrated));
    r.append("\n");
    let ghost head = r@;
    if status.warnings.len() > 0 {
        r.append("\nWarnings (");
        let c = to_decimal(status.warnings_count as u64);
        r.append(c.as_str());
        r.append("):\n");
        let ghost before_lines = r@;
        let mut i: usize = 0;
        while i < status.warnings.len()
            invariant
                i <= status.warnings@.len(),
                r@ == before_lines + warning_lines(status.warnings@.take(i as int)),
            decreases status.warnings@.len() - i,
        {
            proof {
                assert(status.warnings@.take(i as int + 1).drop_last() =~= status.warnings@.take(i as int));
            }
            r.append("  ");
            let n = to_decimal(i as u64 + 1);
            r.append(n.as_str());
            r.append(". ");
            r.append(status.warnings[i].as_str());
            r.append("\n");
            i = i + 1;
        }
        proof {
            assert(status.warnings@.take(status.warnings@.len() as int) =~= status.warnings@);
        }
    }
    if status.is_complete() {
        r.append("\n✓ Migration completed successfully!\n");
        r.append("You can now use the unified ResourceManager interface.\n");
    } else {
        r.append("\n⚠ Migration is incomplete. Continue with remaining steps.\n");
    }
    r
}

/// The resource-manager limits equivalent to a tenant quota: memory (soft limit 80%,
/// 10% reserve), CPU (soft limit 80%, one core reserved) and disk (soft limit 90%, 5%
/// reserve, no overcommit); memory and CPU are overcommitted when the quota's ratio
/// is above one.
pub fn convert_tenant_quota_to_limits(quota: &TenantQuota) -> (r: Vec<ResourceLimits>)
    ensures
        ({
            let v = quota.vm_limits;
            let over = v.overcommit_permille > 1000;
            &&& r@.len() == 3
            &&& r@[0].resource_type@ == ResourceTypeView::Memory
            &&& r@[0].hard_limit == v.max_memory_mb
            &&& r@[0].soft_limit == v.max_memory_mb * 8 / 10
            &&& r@[0].allow_overcommit == over
            &&& r@[0].overcommit_permille == v.overcommit_permille
            &&& r@[0].system_reserve == v.max_memory_mb / 10
            &&& r@[1].resource_type@ == ResourceTypeView::Cpu
            &&& r@[1].hard_limit == v.max_vcpus
            &&& r@[1].soft_limit == v.max_vcpus * 8 / 10
            &&& r@[1].allow_overcommit == over
            &&& r@[1].overcommit_permille == v.overcommit_permille
            &&& r@[1].system_reserve == 1
            &&& r@[2].resource_type@ == ResourceTypeView::Disk
            &&& r@[2].hard_limit == v.max_disk_gb
            &&& r@[2].soft_limit == v.max_disk_gb * 9 / 10
            &&& !r@[2].allow_overcommit
            &&& r@[2].overcommit_permille == 1000
            &&& r@[2].system_reserve == v.max_disk_gb * 5 / 100
        }),
{
    let v = &quota.vm_limits;
    let over = v.overcommit_permille > 1000;
    let mut r: Vec<ResourceLimits> = Vec::new();
    r.push(
        ResourceLimits {
            resource_type: ResourceType::Memory,
            hard_limit: v.max_memory_mb,
            soft_limit: ((v.max_memory_mb as u128) * 8 / 10) as u64,
            allow_overcommit: over,
            overcommit_permille: v.overcommit_permille,
            system_reserve: v.max_memory_mb / 10,
        },
    );
    r.push(
        ResourceLimits {
            resource_type: ResourceType::Cpu,
            hard_limit: v.max_vcpus as u64,
            soft_limit: (v.max_vcpus as u64) * 8 / 10,
            allow_overcommit: over,
            overcommit_permille: v.overcommit_permille,
            system_reserve: 1,
        },
    );
    r.push(
        ResourceLimits {
            resource_type: ResourceType::Disk,
            hard_limit: v.max_disk_gb,
            soft_limit: ((v.max_disk_gb as u128) * 9 / 10) as u64,
            allow_overcommit: false,
            overcommit_permille: 1000,
            system_reserve: ((v.max_disk_gb as u128) * 5 / 100) as u64,
        },
    );
    r
}

/// Whether a converted request carries the given metadata.
pub open spec fn is_converted(r: ResourceAllocationRequest, legacy: ResourceRequest, prefix: Seq<char>, nanos: i64) -> bool {
    &&& r.request_id@ == prefix + "-"@ + legacy.tenant_id@ + "-"@ + crate::decimal::signed_decimal(nanos as int)
    &&& r.tenant_id@ == legacy.tenant_id@
    &&& r.priority == 100
    &&& !r.is_temporary
    &&& r.expires_at_ms is None
    &&& r.metadata@.len() == 3
    &&& r.metadata@[0].0@ == "converted_from"@
    &&& r.metadata@[0].1@ == "legacy_resource_request"@
}

/// Whether `r` is what a legacy request becomes at `now_nanos`: one request for its
/// memory and one for its vCPUs, each only when non-zero, with the other figures
/// recorded in the metadata.
pub open spec fn converts(legacy: ResourceRequest, now_nanos: i64, r: Seq<ResourceAllocationRequest>) -> bool {
    &&& r.len() == (if legacy.memory_mb > 0 { 1int } else { 0int }) + (if legacy.vcpus > 0 {
        1int
    } else {
        0int
    })
    &&& legacy.memory_mb > 0 ==> {
        let m = r[0];
        &&& is_converted(m, legacy, "mem"@, now_nanos)
        &&& m.resource_type@ == ResourceTypeView::Memory
        &&& m.amount == legacy.memory_mb
        &&& m.metadata@[1].0@ == "original_vcpus"@
        &&& m.metadata@[1].1@ == decimal(legacy.vcpus as nat)
        &&& m.metadata@[2].0@ == "original_disk_gb"@
        &&& m.metadata@[2].1@ == decimal(legacy.disk_gb as nat)
    }
    &&& legacy.vcpus > 0 ==> {
        let c = r[r.len() - 1];
        &&& is_converted(c, legacy, "cpu"@, now_nanos)
        &&& c.resource_type@ == ResourceTypeView::Cpu
        &&& c.amount == legacy.vcpus
        &&& c.metadata@[1].0@ == "original_memory_mb"@
        &&& c.metadata@[1].1@ == decimal(legacy.memory_mb as nat)
        &&& c.metadata@[2].0@ == "original_disk_gb"@
        &&& c.metadata@[2].1@ == decimal(legacy.disk_gb as nat)
    }
}

/// The allocation requests a legacy request becomes at `now_nanos`.
pub fn convert_resource_request_at(legacy: &ResourceRequest, now_nanos: i64) -> (r: Vec<ResourceAllocationRequest>)
    ensures
        converts(*legacy, now_nanos, r@),
{
    let mut r: Vec<ResourceAllocationRequest> = Vec::new();
    if legacy.memory_mb > 0 {
        let mut metadata: Vec<(String, String)> = Vec::new();
        metadata.push((String::from_str("converted_from"), String::from_str("legacy_resource_request")));
        metadata.push((String::from_str("original_vcpus"), to_decimal(legacy.vcpus as u64)));
        metadata.push((String::from_str("original_disk_gb"), to_decimal(legacy.disk_gb)));
        r.push(
            ResourceAllocationRequest {
                request_id: crate::cpu_manager::make_allocation_id("mem", legacy.tenant_id.as_str(), now_nanos),
                tenant_id: legacy.tenant_id.clone(),
                resource_type: ResourceType::Memory,
                amount: legacy.memory_mb,
                priority: 100,
                is_temporary: false,
                expires_at_ms: None,
                metadata,
            },
        );
    }
    if legacy.vcpus > 0 {
        let mut metadata: Vec<(String, String)> = Vec::new();
        metadata.push((String::from_str("converted_from"), String::from_str("legacy_resource_request")));
        metadata.push((String::from_str("original_memory_mb"), to_decimal(legacy.memory_mb)));
        metadata.push((String::from_str("original_disk_gb"), to_decimal(legacy.disk_gb)));
        r.push(
            ResourceAllocationRequest {
                request_id: crate::cpu_manager::make_allocation_id("cpu", legacy.tenant_id.as_str(), now_nanos),
                tenant_id: legacy.tenant_id.clone(),
                resource_type: ResourceType::Cpu,
                amount: legacy.vcpus as u64,
                priority: 100,
                is_temporary: false,
                expires_at_ms: None,
                metadata,
            },
        );
    }
    r
}

} // verus!
