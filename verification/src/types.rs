//! VM and cluster types shared by the scheduling, admission and remediation logic.
use vstd::prelude::*;

verus! {

/// Lifecycle state of a VM.
#[derive(Debug, Clone, Copy, PartialEq, Eq, Structural)]
pub enum VmStatus {
    Created,
    Starting,
    Running,
    Stopping,
    Stopped,
    Failed,
    Migrating,
}

/// Configuration of a VM: what it asks of a node.
#[derive(Debug, Clone)]
pub struct VmConfig {
    pub name: String,
    pub vcpus: u32,
    /// Memory in MB.
    pub memory: u32,
    /// Whether the VM may be stopped to free resources.
    pub preemptible: bool,
    /// Scheduling priority; lower values are preempted first.
    pub priority: u32,
    pub tenant_id: Option<String>,
}

/// A VM as recorded by the cluster.
#[derive(Debug, Clone)]
pub struct VmState {
    pub name: String,
    pub config: VmConfig,
    pub status: VmStatus,
    pub node_id: u64,
}

/// Identifier of a VM.
#[derive(Debug, Clone, PartialEq, Eq)]
pub struct VmId(pub String);

/// A planned move of a VM between nodes.
#[derive(Debug, Clone)]
pub struct VmMigrationTask {
    pub vm_name: String,
    pub source_node_id: u64,
    pub target_node_id: u64,
}

/// Operations on VMs that go through consensus.
#[derive(Debug, Clone)]
pub enum VmCommand {
    Create { config: VmConfig, node_id: u64 },
    Start { name: String },
    Stop { name: String },
    Delete { name: String },
    UpdateStatus { name: String, status: VmStatus },
    Migrate { task: VmMigrationTask },
}

/// Placement of a node in the failure-domain hierarchy.
#[derive(Debug, Clone)]
pub struct NodeTopology {
    pub datacenter: String,
    pub zone: String,
    pub rack: String,
}

/// A change to an IP pool.
#[derive(Debug, Clone)]
pub struct IpPoolCommand {
    pub pool_id: u64,
}

/// A request for an address for a VM.
#[derive(Debug, Clone)]
pub struct IpAllocationRequest {
    pub vm_id: VmId,
    pub pool_id: Option<u64>,
}

} // verus!
