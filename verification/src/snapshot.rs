//! Snapshots of the replicated tables: taking one copies every table, each in
//! ascending key order, and applying one replaces every table with what the
//! snapshot holds.
use vstd::prelude::*;

use crate::proposals::{ResourceRequirements, TaskResult, TaskSpec, WorkerCapabilities, WorkerStatus};
use crate::state_machine::StateMachine;
use crate::tables::{
    inserted, lemma_inserted_distinct, lemma_sorted_distinct, lemma_sorted_same_tables, same_tables, sorted_keys,
    table_map, EntryCopy, OrderedKey, Table,
};
use crate::types::{NodeTopology, VmConfig, VmState};

verus! {

/// The entries of every replicated table.
pub struct SnapshotData {
    pub vm_states: Vec<VmState>,
    pub cluster_state: Vec<(String, Vec<u8>)>,
    pub tasks: Vec<(String, TaskSpec)>,
    pub task_assignments: Vec<(String, u64)>,
    pub task_results: Vec<(String, TaskResult)>,
    pub workers: Vec<(u64, WorkerCapabilities)>,
    pub worker_addresses: Vec<(u64, String)>,
    pub worker_status: Vec<(u64, WorkerStatus)>,
    pub node_topology: Vec<(u64, NodeTopology)>,
    pub ip_pools: Vec<(u64, Vec<u8>)>,
    pub ip_allocations: Vec<(String, String)>,
    pub vm_ip_mappings: Vec<(String, Vec<String>)>,
}

fn copy_text(s: &String) -> (r: String)
    ensures
        r == *s,
{
    s.clone()
}

fn copy_text_list(v: &Vec<String>) -> (r: Vec<String>)
    ensures
        r@ == v@,
{
    let r = v.clone();
    assert(r@ =~= v@);
    r
}

fn copy_optional_text(o: &Option<String>) -> (r: Option<String>)
    ensures
        r == *o,
{
    match o {
        Some(s) => Some(s.clone()),
        None => None,
    }
}

/// Whether two task specifications say the same.
pub open spec fn same_task(a: TaskSpec, b: TaskSpec) -> bool {
    &&& a.command == b.command
    &&& a.args@ == b.args@
    &&& a.resources.cpu_cores == b.resources.cpu_cores
    &&& a.resources.memory_mb == b.resources.memory_mb
    &&& a.resources.disk_gb == b.resources.disk_gb
    &&& a.resources.required_features@ == b.resources.required_features@
    &&& a.timeout_secs == b.timeout_secs
}

/// Whether two sets of worker capabilities say the same.
pub open spec fn same_capabilities(a: WorkerCapabilities, b: WorkerCapabilities) -> bool {
    &&& a.cpu_cores == b.cpu_cores
    &&& a.memory_mb == b.memory_mb
    &&& a.disk_gb == b.disk_gb
    &&& a.features@ == b.features@
}

impl EntryCopy for (String, TaskSpec) {
    open spec fn same_content(&self, other: &Self) -> bool {
        self.0 == other.0 && same_task(self.1, other.1)
    }

    fn copy_entry(&self) -> (r: Self) {
        let t = &self.1;
        let resources = ResourceRequirements {
            cpu_cores: t.resources.cpu_cores,
            memory_mb: t.resources.memory_mb,
            disk_gb: t.resources.disk_gb,
            required_features: copy_text_list(&t.resources.required_features),
        };
        (
            copy_text(&self.0),
            TaskSpec {
                command: copy_text(&t.command),
                args: copy_text_list(&t.args),
                resources,
                timeout_secs: t.timeout_secs,
            },
        )
    }
}

impl EntryCopy for (String, u64) {
    open spec fn same_content(&self, other: &Self) -> bool {
        *self == *other
    }

    fn copy_entry(&self) -> (r: Self) {
        (copy_text(&self.0), self.1)
    }
}

impl EntryCopy for (String, TaskResult) {
    open spec fn same_content(&self, other: &Self) -> bool {
        *self == *other
    }

    fn copy_entry(&self) -> (r: Self) {
        let t = &self.1;
        (
            copy_text(&self.0),
            TaskResult {
                success: t.success,
                output: copy_text(&t.output),
                error: copy_optional_text(&t.error),
                execution_time_ms: t.execution_time_ms,
            },
        )
    }
}

impl EntryCopy for (u64, WorkerCapabilities) {
    open spec fn same_content(&self, other: &Self) -> bool {
        self.0 == other.0 && same_capabilities(self.1, other.1)
    }

    fn copy_entry(&self) -> (r: Self) {
        let c = &self.1;
        (
            self.0,
            WorkerCapabilities {
                cpu_cores: c.cpu_cores,
                memory_mb: c.memory_mb,
                disk_gb: c.disk_gb,
                features: copy_text_list(&c.features),
            },
        )
    }
}

impl EntryCopy for (u64, String) {
    open spec fn same_content(&self, other: &Self) -> bool {
        *self == *other
    }

    fn copy_entry(&self) -> (r: Self) {
        (self.0, copy_text(&self.1))
    }
}

impl EntryCopy for (u64, WorkerStatus) {
    open spec fn same_content(&self, other: &Self) -> bool {
        *self == *other
    }

    fn copy_entry(&self) -> (r: Self) {
        (self.0, self.1)
    }
}

impl EntryCopy for (u64, NodeTopology) {
    open spec fn same_content(&self, other: &Self) -> bool {
        *self == *other
    }

    fn copy_entry(&self) -> (r: Self) {
        (
            self.0,
            NodeTopology {
                datacenter: copy_text(&self.1.datacenter),
                zone: copy_text(&self.1.zone),
                rack: copy_text(&self.1.rack),
            },
        )
    }
}

impl EntryCopy for VmState {
    open spec fn same_content(&self, other: &Self) -> bool {
        *self == *other
    }

    fn copy_entry(&self) -> (r: Self) {
        let c = &self.config;
        VmState {
            name: copy_text(&self.name),
            config: VmConfig {
                name: copy_text(&c.name),
                vcpus: c.vcpus,
                memory: c.memory,
                preemptible: c.preemptible,
                priority: c.priority,
                tenant_id: copy_optional_text(&c.tenant_id),
            },
            status: self.status,
            node_id: self.node_id,
        }
    }
}

impl EntryCopy for (String, String) {
    open spec fn same_content(&self, other: &Self) -> bool {
        *self == *other
    }

    fn copy_entry(&self) -> (r: Self) {
        (copy_text(&self.0), copy_text(&self.1))
    }
}

impl EntryCopy for (String, Vec<String>) {
    open spec fn same_content(&self, other: &Self) -> bool {
        self.0 == other.0 && self.1@ == other.1@
    }

    fn copy_entry(&self) -> (r: Self) {
        (copy_text(&self.0), copy_text_list(&self.1))
    }
}

impl EntryCopy for (String, Vec<u8>) {
    open spec fn same_content(&self, other: &Self) -> bool {
        self.0 == other.0 && self.1@ == other.1@
    }

    fn copy_entry(&self) -> (r: Self) {
        let bytes = self.1.clone();
        assert(bytes@ =~= self.1@);
        (copy_text(&self.0), bytes)
    }
}

impl EntryCopy for (u64, Vec<u8>) {
    open spec fn same_content(&self, other: &Self) -> bool {
        self.0 == other.0 && self.1@ == other.1@
    }

    fn copy_entry(&self) -> (r: Self) {
        let bytes = self.1.clone();
        assert(bytes@ =~= self.1@);
        (self.0, bytes)
    }
}

/// Whether `s` lists, in ascending key order, entries of the same content as
/// the table `t`, one for each of its keys.
pub open spec fn lists_table<E: EntryCopy + OrderedKey>(s: Seq<E>, t: Table<E>) -> bool {
    sorted_keys(s) && same_tables(t.map(), table_map(s))
}

/// Whether `snap` lists every table of `m`, each in ascending key order.
pub open spec fn is_snapshot_of(snap: SnapshotData, m: StateMachine) -> bool {
    &&& lists_table(snap.vm_states@, m.vms)
    &&& lists_table(snap.cluster_state@, m.cluster_state)
    &&& lists_table(snap.tasks@, m.tasks)
    &&& lists_table(snap.task_assignments@, m.task_assignments)
    &&& lists_table(snap.task_results@, m.task_results)
    &&& lists_table(snap.workers@, m.workers)
    &&& lists_table(snap.worker_addresses@, m.worker_addresses)
    &&& lists_table(snap.worker_status@, m.worker_status)
    &&& lists_table(snap.node_topology@, m.topology)
    &&& lists_table(snap.ip_pools@, m.ip_pools)
    &&& lists_table(snap.ip_allocations@, m.ip_allocations)
    &&& lists_table(snap.vm_ip_mappings@, m.vm_ips)
}

/// Whether every table of `m` is what inserting the entries `snap` holds for it,
/// one after another, into an empty table gives.
pub open spec fn restored_from(m: StateMachine, snap: SnapshotData) -> bool {
    &&& m.vms.map() == inserted(Map::empty(), snap.vm_states@)
    &&& m.cluster_state.map() == inserted(Map::empty(), snap.cluster_state@)
    &&& m.tasks.map() == inserted(Map::empty(), snap.tasks@)
    &&& m.task_assignments.map() == inserted(Map::empty(), snap.task_assignments@)
    &&& m.task_results.map() == inserted(Map::empty(), snap.task_results@)
    &&& m.workers.map() == inserted(Map::empty(), snap.workers@)
    &&& m.worker_addresses.map() == inserted(Map::empty(), snap.worker_addresses@)
    &&& m.worker_status.map() == inserted(Map::empty(), snap.worker_status@)
    &&& m.topology.map() == inserted(Map::empty(), snap.node_topology@)
    &&& m.ip_pools.map() == inserted(Map::empty(), snap.ip_pools@)
    &&& m.ip_allocations.map() == inserted(Map::empty(), snap.ip_allocations@)
    &&& m.vm_ips.map() == inserted(Map::empty(), snap.vm_ip_mappings@)
}

/// Whether two state machines hold the same tables: the same keys, with entries
/// of the same content.
pub open spec fn same_state(a: StateMachine, b: StateMachine) -> bool {
    &&& same_tables(a.vms.map(), b.vms.map())
    &&& same_tables(a.cluster_state.map(), b.cluster_state.map())
    &&& same_tables(a.tasks.map(), b.tasks.map())
    &&& same_tables(a.task_assignments.map(), b.task_assignments.map())
    &&& same_tables(a.task_results.map(), b.task_results.map())
    &&& same_tables(a.workers.map(), b.workers.map())
    &&& same_tables(a.worker_addresses.map(), b.worker_addresses.map())
    &&& same_tables(a.worker_status.map(), b.worker_status.map())
    &&& same_tables(a.topology.map(), b.topology.map())
    &&& same_tables(a.ip_pools.map(), b.ip_pools.map())
    &&& same_tables(a.ip_allocations.map(), b.ip_allocations.map())
    &&& same_tables(a.vm_ips.map(), b.vm_ips.map())
}

impl StateMachine {
    /// A snapshot of every replicated table, each listed in ascending key order.
    pub fn create_snapshot_data(&self) -> (snap: SnapshotData)
        requires
            self.wf(),
        ensures
            is_snapshot_of(snap, *self),
    {
        SnapshotData {
            vm_states: self.vms.sorted_copies(),
            cluster_state: self.cluster_state.sorted_copies(),
            tasks: self.tasks.sorted_copies(),
            task_assignments: self.task_assignments.sorted_copies(),
            task_results: self.task_results.sorted_copies(),
            workers: self.workers.sorted_copies(),
            worker_addresses: self.worker_addresses.sorted_copies(),
            worker_status: self.worker_status.sorted_copies(),
            node_topology: self.topology.sorted_copies(),
            ip_pools: self.ip_pools.sorted_copies(),
            ip_allocations: self.ip_allocations.sorted_copies(),
            vm_ip_mappings: self.vm_ips.sorted_copies(),
        }
    }

    /// Replaces every replicated table with the entries of `snapshot`; a later
    /// entry replaces an earlier one with the same key. Admission control and the
    /// resource state are left as they are.
    pub fn apply_snapshot(&mut self, snapshot: SnapshotData)
        requires
            old(self).wf(),
        ensures
            final(self).wf(),
            restored_from(*final(self), snapshot),
            final(self).admission == old(self).admission,
            final(self).resources == old(self).resources,
    {
        let SnapshotData {
            vm_states,
            cluster_state,
            tasks,
            task_assignments,
            task_results,
            workers,
            worker_addresses,
            worker_status,
            node_topology,
            ip_pools,
            ip_allocations,
            vm_ip_mappings,
        } = snapshot;
        self.vms = Table::from_entries(vm_states);
        self.cluster_state = Table::from_entries(cluster_state);
        self.tasks = Table::from_entries(tasks);
        self.task_assignments = Table::from_entries(task_assignments);
        self.task_results = Table::from_entries(task_results);
        self.workers = Table::from_entries(workers);
        self.worker_addresses = Table::from_entries(worker_addresses);
        self.worker_status = Table::from_entries(worker_status);
        self.topology = Table::from_entries(node_topology);
        self.ip_pools = Table::from_entries(ip_pools);
        self.ip_allocations = Table::from_entries(ip_allocations);
        self.vm_ips = Table::from_entries(vm_ip_mappings);
    }
}

/// A table listed in ascending key order and inserted back entry by entry gives a
/// table of the same keys and contents.
proof fn lemma_listed_restores<E: EntryCopy + OrderedKey>(t: Table<E>, s: Seq<E>, restored: Map<<E::Key as View>::V, E>)
    requires
        lists_table(s, t),
        restored == inserted(Map::<<E::Key as View>::V, E>::empty(), s),
    ensures
        same_tables(t.map(), restored),
{
    lemma_sorted_distinct(s);
    lemma_inserted_distinct(s);
}

/// Applying a snapshot of a state machine gives back its tables: the same keys,
/// with entries of the same content.
pub proof fn lemma_snapshot_round_trip(m: StateMachine, snap: SnapshotData, restored: StateMachine)
    requires
        m.wf(),
        is_snapshot_of(snap, m),
        restored_from(restored, snap),
    ensures
        same_state(m, restored),
{
    lemma_listed_restores(m.vms, snap.vm_states@, restored.vms.map());
    lemma_listed_restores(m.cluster_state, snap.cluster_state@, restored.cluster_state.map());
    lemma_listed_restores(m.tasks, snap.tasks@, restored.tasks.map());
    lemma_listed_restores(m.task_assignments, snap.task_assignments@, restored.task_assignments.map());
    lemma_listed_restores(m.task_results, snap.task_results@, restored.task_results.map());
    lemma_listed_restores(m.workers, snap.workers@, restored.workers.map());
    lemma_listed_restores(m.worker_addresses, snap.worker_addresses@, restored.worker_addresses.map());
    lemma_listed_restores(m.worker_status, snap.worker_status@, restored.worker_status.map());
    lemma_listed_restores(m.topology, snap.node_topology@, restored.topology.map());
    lemma_listed_restores(m.ip_pools, snap.ip_pools@, restored.ip_pools.map());
    lemma_listed_restores(m.ip_allocations, snap.ip_allocations@, restored.ip_allocations.map());
    lemma_listed_restores(m.vm_ips, snap.vm_ip_mappings@, restored.vm_ips.map());
}

/// Whether every field of a snapshot lists its entries in ascending key order.
pub open spec fn in_key_order(snap: SnapshotData) -> bool {
    &&& sorted_keys(snap.vm_states@)
    &&& sorted_keys(snap.cluster_state@)
    &&& sorted_keys(snap.tasks@)
    &&& sorted_keys(snap.task_assignments@)
    &&& sorted_keys(snap.task_results@)
    &&& sorted_keys(snap.workers@)
    &&& sorted_keys(snap.worker_addresses@)
    &&& sorted_keys(snap.worker_status@)
    &&& sorted_keys(snap.node_topology@)
    &&& sorted_keys(snap.ip_pools@)
    &&& sorted_keys(snap.ip_allocations@)
    &&& sorted_keys(snap.vm_ip_mappings@)
}

/// Whether two listings hold, position by position, entries of the same key and
/// content.
pub open spec fn same_listing<E: EntryCopy>(a: Seq<E>, b: Seq<E>) -> bool {
    &&& a.len() == b.len()
    &&& forall|i: int| 0 <= i < a.len() ==> (#[trigger] a[i]).key_of() == b[i].key_of() && a[i].same_content(&b[i])
}

/// Whether two snapshots hold the same listings, field by field.
pub open spec fn same_snapshot(a: SnapshotData, b: SnapshotData) -> bool {
    &&& same_listing(a.vm_states@, b.vm_states@)
    &&& same_listing(a.cluster_state@, b.cluster_state@)
    &&& same_listing(a.tasks@, b.tasks@)
    &&& same_listing(a.task_assignments@, b.task_assignments@)
    &&& same_listing(a.task_results@, b.task_results@)
    &&& same_listing(a.workers@, b.workers@)
    &&& same_listing(a.worker_addresses@, b.worker_addresses@)
    &&& same_listing(a.worker_status@, b.worker_status@)
    &&& same_listing(a.node_topology@, b.node_topology@)
    &&& same_listing(a.ip_pools@, b.ip_pools@)
    &&& same_listing(a.ip_allocations@, b.ip_allocations@)
    &&& same_listing(a.vm_ip_mappings@, b.vm_ip_mappings@)
}

proof fn lemma_listing_comes_back<E: EntryCopy + OrderedKey>(s: Seq<E>, t: Table<E>, again: Seq<E>)
    requires
        sorted_keys(s),
        t.map() == inserted(Map::<<E::Key as View>::V, E>::empty(), s),
        lists_table(again, t),
    ensures
        same_listing(s, again),
{
    lemma_sorted_distinct(s);
    lemma_inserted_distinct(s);
    lemma_sorted_same_tables(s, again);
}

/// Taking a snapshot of the tables that a snapshot in ascending key order was
/// applied to gives that snapshot back: the same entries, in the same order.
pub proof fn lemma_restore_then_snapshot(snap: SnapshotData, restored: StateMachine, again: SnapshotData)
    requires
        in_key_order(snap),
        restored_from(restored, snap),
        is_snapshot_of(again, restored),
    ensures
        same_snapshot(snap, again),
{
    lemma_listing_comes_back(snap.vm_states@, restored.vms, again.vm_states@);
    lemma_listing_comes_back(snap.cluster_state@, restored.cluster_state, again.cluster_state@);
    lemma_listing_comes_back(snap.tasks@, restored.tasks, again.tasks@);
    lemma_listing_comes_back(snap.task_assignments@, restored.task_assignments, again.task_assignments@);
    lemma_listing_comes_back(snap.task_results@, restored.task_results, again.task_results@);
    lemma_listing_comes_back(snap.workers@, restored.workers, again.workers@);
    lemma_listing_comes_back(snap.worker_addresses@, restored.worker_addresses, again.worker_addresses@);
    lemma_listing_comes_back(snap.worker_status@, restored.worker_status, again.worker_status@);
    lemma_listing_comes_back(snap.node_topology@, restored.topology, again.node_topology@);
    lemma_listing_comes_back(snap.ip_pools@, restored.ip_pools, again.ip_pools@);
    lemma_listing_comes_back(snap.ip_allocations@, restored.ip_allocations, again.ip_allocations@);
    lemma_listing_comes_back(snap.vm_ip_mappings@, restored.vm_ips, again.vm_ip_mappings@);
}

} // verus!
