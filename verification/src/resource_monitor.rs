//! What the running VMs of a node were given, summed for the resource monitor.
use vstd::prelude::*;

use crate::types::{VmConfig, VmStatus};

verus! {

/// Disk assumed for each running VM, in GB.
pub const DEFAULT_VM_DISK_GB: u64 = 5;

/// vCPUs, memory and disk given to the running VMs of a node, and how many run.
#[derive(Debug, Clone, Copy)]
pub struct AllocatedTotals {
    pub vcpus: u32,
    pub memory_mb: u64,
    pub disk_gb: u64,
    pub vm_count: usize,
}

/// vCPUs, memory, disk and count of the running VMs of `vms`.
pub open spec fn running_totals(vms: Seq<(VmConfig, VmStatus)>) -> (nat, nat, nat, nat)
    decreases vms.len(),
{
    if vms.len() == 0 {
        (0, 0, 0, 0)
    } else {
        let p = running_totals(vms.drop_last());
        let (config, status) = vms.last();
        if status is Running {
            (p.0 + config.vcpus as nat, p.1 + config.memory as nat, p.2 + DEFAULT_VM_DISK_GB as nat, p.3 + 1)
        } else {
            p
        }
    }
}

proof fn lemma_running_totals_prefix(vms: Seq<(VmConfig, VmStatus)>, k: int)
    requires
        0 <= k <= vms.len(),
    ensures
        running_totals(vms.take(k)).0 <= running_totals(vms).0,
        running_totals(vms.take(k)).1 <= running_totals(vms).1,
        running_totals(vms.take(k)).2 <= running_totals(vms).2,
        running_totals(vms.take(k)).3 <= k,
    decreases vms.len() - k,
{
    if k < vms.len() {
        lemma_running_totals_prefix(vms, k + 1);
        assert(vms.take(k + 1).drop_last() =~= vms.take(k));
    } else {
        assert(vms.take(k) =~= vms);
    }
    lemma_running_count_bound(vms.take(k));
}

proof fn lemma_running_count_bound(vms: Seq<(VmConfig, VmStatus)>)
    ensures
        running_totals(vms).3 <= vms.len(),
    decreases vms.len(),
{
    if vms.len() > 0 {
        lemma_running_count_bound(vms.drop_last());
    }
}

/// Sums what the running VMs were given: their vCPUs, their memory and the
/// default disk each; the others are left out.
pub fn running_vm_totals(vms: &Vec<(VmConfig, VmStatus)>) -> (t: AllocatedTotals)
    requires
        running_totals(vms@).0 <= u32::MAX,
        running_totals(vms@).1 <= u64::MAX,
        running_totals(vms@).2 <= u64::MAX,
    ensures
        t.vcpus == running_totals(vms@).0,
        t.memory_mb == running_totals(vms@).1,
        t.disk_gb == running_totals(vms@).2,
        t.vm_count == running_totals(vms@).3,
{
    let mut t = AllocatedTotals { vcpus: 0, memory_mb: 0, disk_gb: 0, vm_count: 0 };
    let mut i: usize = 0;
    while i < vms.len()
        invariant
            i <= vms@.len(),
            running_totals(vms@).0 <= u32::MAX,
            running_totals(vms@).1 <= u64::MAX,
            running_totals(vms@).2 <= u64::MAX,
            t.vcpus == running_totals(vms@.take(i as int)).0,
            t.memory_mb == running_totals(vms@.take(i as int)).1,
            t.disk_gb == running_totals(vms@.take(i as int)).2,
            t.vm_count == running_totals(vms@.take(i as int)).3,
            t.vm_count <= i,
        decreases vms@.len() - i,
    {
        proof {
            lemma_running_totals_prefix(vms@, i as int + 1);
            assert(vms@.take(i as int + 1).drop_last() =~= vms@.take(i as int));
        }
        let (config, status) = &vms[i];
        if matches!(status, VmStatus::Running) {
            t.vcpus = t.vcpus + config.vcpus;
            t.memory_mb = t.memory_mb + config.memory as u64;
            t.disk_gb = t.disk_gb + DEFAULT_VM_DISK_GB;
            t.vm_count = t.vm_count + 1;
        }
        i = i + 1;
    }
    proof {
        assert(vms@.take(vms@.len() as int) =~= vms@);
    }
    t
}

} // verus!
