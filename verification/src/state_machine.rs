//! The replicated state machine: the cluster's tables and what each committed
//! proposal does to them.
//!
//! Every table is keyed (see [`crate::tables`]); the contracts speak of the tables
//! as maps from key to entry, so the order in which entries are kept is not part of
//! the behaviour.
use vstd::prelude::*;

use crate::admission::{admission_outcome, has_node, last_worker, rebuilt, AdmissionControlConfig};
use crate::error::BlixardError;
use crate::proposals::{ProposalData, TaskResult, TaskSpec, WorkerCapabilities, WorkerStatus};
use crate::resource_management::{ClusterResourceManager, OvercommitPolicy};
use crate::decimal::{decimal, to_decimal};
use crate::tables::{Keyed, Table};
use crate::text::{concat, list_contains};
use crate::types::{NodeTopology, VmCommand, VmConfig, VmState, VmStatus};

verus! {

/// The cluster's replicated tables.
pub struct StateMachine {
    /// Task specifications by task id.
    pub tasks: Table<(String, TaskSpec)>,
    /// The node each running task is assigned to, by task id.
    pub task_assignments: Table<(String, u64)>,
    /// Results of finished tasks, by task id.
    pub task_results: Table<(String, TaskResult)>,
    /// Capabilities of each registered worker, by node id.
    pub workers: Table<(u64, WorkerCapabilities)>,
    /// Address of each registered worker, by node id.
    pub worker_addresses: Table<(u64, String)>,
    /// Status of each worker, by node id.
    pub worker_status: Table<(u64, WorkerStatus)>,
    /// Placement of each worker, by node id.
    pub topology: Table<(u64, NodeTopology)>,
    /// VMs, by name.
    pub vms: Table<VmState>,
    /// Addresses held by each VM, by VM id.
    pub vm_ips: Table<(String, Vec<String>)>,
    /// Address allocations, keyed `<pool id>:<address>`, with the VM holding each.
    pub ip_allocations: Table<(String, String)>,
    /// Saved cluster configuration, such as the encoded voter set under
    /// `conf_state`.
    pub cluster_state: Table<(String, Vec<u8>)>,
    /// Encoded address pools, by pool id.
    pub ip_pools: Table<(u64, Vec<u8>)>,
    /// Admission control for new VMs, when configured.
    pub admission: Option<AdmissionControlConfig>,
    /// The cluster's resource state as admission control last rebuilt it.
    pub resources: ClusterResourceManager,
}

/// The tables of a state machine as maps from key to entry.
#[verifier::ext_equal]
pub struct MachineView {
    pub tasks: Map<Seq<char>, (String, TaskSpec)>,
    pub task_assignments: Map<Seq<char>, (String, u64)>,
    pub task_results: Map<Seq<char>, (String, TaskResult)>,
    pub workers: Map<u64, (u64, WorkerCapabilities)>,
    pub worker_addresses: Map<u64, (u64, String)>,
    pub worker_status: Map<u64, (u64, WorkerStatus)>,
    pub topology: Map<u64, (u64, NodeTopology)>,
    pub vms: Map<Seq<char>, VmState>,
    pub vm_ips: Map<Seq<char>, (String, Vec<String>)>,
    pub ip_allocations: Map<Seq<char>, (String, String)>,
    pub cluster_state: Map<Seq<char>, (String, Vec<u8>)>,
    pub ip_pools: Map<u64, (u64, Vec<u8>)>,
}

impl View for StateMachine {
    type V = MachineView;

    open spec fn view(&self) -> MachineView {
        MachineView {
            tasks: self.tasks.map(),
            task_assignments: self.task_assignments.map(),
            task_results: self.task_results.map(),
            workers: self.workers.map(),
            worker_addresses: self.worker_addresses.map(),
            worker_status: self.worker_status.map(),
            topology: self.topology.map(),
            vms: self.vms.map(),
            vm_ips: self.vm_ips.map(),
            ip_allocations: self.ip_allocations.map(),
            cluster_state: self.cluster_state.map(),
            ip_pools: self.ip_pools.map(),
        }
    }
}

/// The VM `name` with a new status (and, where given, a new node), if it exists.
pub open spec fn vm_updated(vms: Map<Seq<char>, VmState>, name: Seq<char>, status: VmStatus, node: Option<u64>) -> Map<Seq<char>, VmState> {
    if vms.contains_key(name) {
        let old = vms[name];
        vms.insert(
            name,
            VmState {
                status,
                node_id: match node {
                    Some(n) => n,
                    None => old.node_id,
                },
                ..old
            },
        )
    } else {
        vms
    }
}

/// The VM table after a VM command that needs no admission decision.
pub open spec fn vms_after_command(vms: Map<Seq<char>, VmState>, c: VmCommand) -> Map<Seq<char>, VmState> {
    match c {
        VmCommand::Create { config, node_id } => vms.insert(
            config.name@,
            VmState { name: config.name, config, status: VmStatus::Created, node_id },
        ),
        VmCommand::Start { name } => vm_updated(vms, name@, VmStatus::Starting, None),
        VmCommand::Stop { name } => vm_updated(vms, name@, VmStatus::Stopping, None),
        VmCommand::Delete { name } => vms.remove(name@),
        VmCommand::UpdateStatus { .. } => vms,
        VmCommand::Migrate { task } => vm_updated(vms, task.vm_name@, VmStatus::Migrating, Some(task.target_node_id)),
    }
}

/// What a proposal other than a batch does to the tables, admission aside.
pub open spec fn applied(v: MachineView, p: ProposalData) -> MachineView {
    match p {
        ProposalData::AssignTask { task_id, node_id, task } => MachineView {
            tasks: v.tasks.insert(task_id@, (task_id, task)),
            task_assignments: v.task_assignments.insert(task_id@, (task_id, node_id)),
            ..v
        },
        ProposalData::CompleteTask { task_id, result } => MachineView {
            task_results: v.task_results.insert(task_id@, (task_id, result)),
            task_assignments: v.task_assignments.remove(task_id@),
            ..v
        },
        ProposalData::RegisterWorker { node_id, address, capabilities, topology } => MachineView {
            workers: v.workers.insert(node_id, (node_id, capabilities)),
            worker_addresses: v.worker_addresses.insert(node_id, (node_id, address)),
            worker_status: v.worker_status.insert(node_id, (node_id, WorkerStatus::Online)),
            topology: v.topology.insert(node_id, (node_id, topology)),
            ..v
        },
        ProposalData::UpdateWorkerStatus { node_id, status } => MachineView {
            worker_status: v.worker_status.insert(node_id, (node_id, status)),
            ..v
        },
        ProposalData::RemoveWorker { node_id } => MachineView {
            workers: v.workers.remove(node_id),
            worker_addresses: v.worker_addresses.remove(node_id),
            worker_status: v.worker_status.remove(node_id),
            topology: v.topology.remove(node_id),
            ..v
        },
        ProposalData::CreateVm(c) => MachineView { vms: vms_after_command(v.vms, c), ..v },
        ProposalData::UpdateVmStatus { vm_name, status, node_id } => MachineView {
            vms: vm_updated(v.vms, vm_name@, status, Some(node_id)),
            ..v
        },
        ProposalData::MigrateVm { vm_name, from_node, to_node } => MachineView {
            vms: vm_updated(v.vms, vm_name@, VmStatus::Migrating, Some(to_node)),
            ..v
        },
        ProposalData::ReleaseVmIps { vm_id } => MachineView { vm_ips: v.vm_ips.remove(vm_id.0@), ..v },
        _ => v,
    }
}

/// Whether `r` is admission control's verdict on placing `vm` on `node_id`, with
/// the cluster state rebuilt into `after` from `workers`.
pub open spec fn admission_verdict(
    c: AdmissionControlConfig,
    after: ClusterResourceManager,
    workers: Seq<(u64, WorkerCapabilities)>,
    vm: VmConfig,
    node_id: u64,
    r: Result<(), BlixardError>,
) -> bool {
    &&& !has_node(after.node_states@, node_id) ==> r == Err::<(), BlixardError>(BlixardError::NodeNotFound { node_id })
    &&& forall|i: int|
        0 <= i < after.node_states@.len() && after.node_states@[i].0 == node_id ==> r == admission_outcome(
            c,
            #[trigger] after.node_states@[i].1,
            vm,
            node_id,
            last_worker(workers, node_id),
        )
}

/// One step of the state machine on a proposal that is not a batch: `s1` and `r`
/// are a state and result that applying `p` to `s0` can give. Only VM creation under
/// admission control can fail; it rebuilds the resource state and leaves the tables
/// unchanged when the VM is refused.
pub open spec fn simple_step(s0: StateMachine, p: ProposalData, s1: StateMachine, r: Result<(), BlixardError>) -> bool {
    &&& s1.wf()
    &&& s1.admission == s0.admission
    &&& match (p, s0.admission) {
        (ProposalData::CreateVm(VmCommand::Create { config, node_id }), Some(c)) => {
            &&& rebuilt(c, s0.resources, s1.resources, s0.workers.entries@, s0.vms.entries@)
            &&& admission_verdict(c, s1.resources, s0.workers.entries@, config, node_id, r)
            &&& r is Ok ==> s1@ == applied(s0@, p)
            &&& r is Err ==> s1@ == s0@
        },
        _ => {
            &&& r is Ok
            &&& s1@ == applied(s0@, p)
            &&& s1.resources == s0.resources
        },
    }
}

/// The error for a batch inside a batch.
pub open spec fn nested_batch_error() -> BlixardError {
    BlixardError::Internal { message: "Nested batch proposals are not supported" }
}

/// Applying the proposals `ps` in order to `s0` can give `sn` and `r`: each step as
/// [`simple_step`] says, stopping at the first error or at a nested batch.
pub open spec fn batch_steps(s0: StateMachine, ps: Seq<ProposalData>, sn: StateMachine, r: Result<(), BlixardError>) -> bool
    decreases ps.len(),
{
    if ps.len() == 0 {
        sn == s0 && r is Ok
    } else if ps[0] is Batch {
        sn == s0 && r == Err::<(), BlixardError>(nested_batch_error())
    } else {
        exists|s1: StateMachine, r1: Result<(), BlixardError>|
            #[trigger] simple_step(s0, ps[0], s1, r1) && if r1 is Err {
                sn == s1 && r == r1
            } else {
                batch_steps(s1, ps.drop_first(), sn, r)
            }
    }
}

/// What applying one committed proposal to `s0` can give.
pub open spec fn step(s0: StateMachine, p: ProposalData, s1: StateMachine, r: Result<(), BlixardError>) -> bool {
    match p {
        ProposalData::Batch(ps) => batch_steps(s0, ps@, s1, r),
        _ => simple_step(s0, p, s1, r),
    }
}

impl StateMachine {
    /// Well-formed: no table holds a key twice, and the resource state is sound.
    pub open spec fn wf(&self) -> bool {
        &&& self.tasks.wf()
        &&& self.task_assignments.wf()
        &&& self.task_results.wf()
        &&& self.workers.wf()
        &&& self.worker_addresses.wf()
        &&& self.worker_status.wf()
        &&& self.topology.wf()
        &&& self.vms.wf()
        &&& self.vm_ips.wf()
        &&& self.ip_allocations.wf()
        &&& self.cluster_state.wf()
        &&& self.ip_pools.wf()
        &&& self.resources.wf()
    }

    /// An empty state machine without admission control; its resource state has no
    /// nodes and the moderate overcommit policy.
    pub fn new() -> (m: Self)
        ensures
            m.wf(),
            m.admission is None,
            m.tasks.map().is_empty(),
            m.task_assignments.map().is_empty(),
            m.task_results.map().is_empty(),
            m.workers.map().is_empty(),
            m.worker_addresses.map().is_empty(),
            m.worker_status.map().is_empty(),
            m.topology.map().is_empty(),
            m.vms.map().is_empty(),
            m.vm_ips.map().is_empty(),
            m.ip_allocations.map().is_empty(),
            m.cluster_state.map().is_empty(),
            m.ip_pools.map().is_empty(),
            m.resources.node_states@.len() == 0,
            m.resources.spec_default_policy() == (OvercommitPolicy {
                cpu_overcommit_permille: 2000,
                memory_overcommit_permille: 1200,
                disk_overcommit_permille: 1100,
                enforce_hard_limits: true,
                system_reserve_permille: 150,
            }),
    {
        StateMachine {
            tasks: Table::new(),
            task_assignments: Table::new(),
            task_results: Table::new(),
            workers: Table::new(),
            worker_addresses: Table::new(),
            worker_status: Table::new(),
            topology: Table::new(),
            vms: Table::new(),
            vm_ips: Table::new(),
            ip_allocations: Table::new(),
            cluster_state: Table::new(),
            ip_pools: Table::new(),
            admission: None,
            resources: ClusterResourceManager::new(OvercommitPolicy::moderate()),
        }
    }

    /// Saves the encoded cluster configuration under `conf_state`, in place of
    /// what was saved before; the other tables are untouched.
    pub fn save_conf_state(&mut self, conf_data: Vec<u8>)
        requires
            old(self).wf(),
        ensures
            final(self).wf(),
            final(self)@ == (MachineView { cluster_state: final(self).cluster_state.map(), ..old(self)@ }),
            final(self).cluster_state.map().dom() == old(self).cluster_state.map().dom().insert("conf_state"@),
            final(self).cluster_state.map().remove("conf_state"@) == old(self).cluster_state.map().remove("conf_state"@),
            final(self).cluster_state.map()["conf_state"@].0@ == "conf_state"@,
            final(self).cluster_state.map()["conf_state"@].1@ == conf_data@,
            final(self).admission == old(self).admission,
            final(self).resources == old(self).resources,
    {
        let key = String::from_str("conf_state");
        let k2 = String::from_str("conf_state");
        self.cluster_state.insert((key, conf_data), &k2);
        assert(self.cluster_state.map().dom() =~= old(self).cluster_state.map().dom().insert("conf_state"@));
        assert(self.cluster_state.map().remove("conf_state"@) =~= old(self).cluster_state.map().remove("conf_state"@));
    }

    /// Turns on admission control with `config`, starting from an empty resource
    /// state under the configured default policy.
    pub fn configure_admission_controller(&mut self, config: AdmissionControlConfig)
        requires
            old(self).wf(),
        ensures
            final(self).wf(),
            final(self)@ == old(self)@,
            final(self).admission == Some(config),
            final(self).resources.default_policy == config.default_overcommit_policy,
            final(self).resources.node_states@.len() == 0,
    {
        self.resources = ClusterResourceManager::new(config.default_overcommit_policy);
        self.admission = Some(config);
    }
}

/// Sets the status (and, where given, the node) of the VM `name`, if it exists.
fn update_vm(vms: &mut Table<VmState>, name: &String, status: VmStatus, node: Option<u64>)
    requires
        old(vms).wf(),
    ensures
        final(vms).wf(),
        final(vms).map() == vm_updated(old(vms).map(), name@, status, node),
{
    let ghost m0 = vms.map();
    match vms.take(name) {
        Some(mut vm) => {
            let ghost before = vm;
            vm.status = status;
            match node {
                Some(n) => {
                    vm.node_id = n;
                },
                None => {},
            }
            vms.insert(vm, name);
            assert(vms.map() =~= vm_updated(m0, name@, status, node));
        },
        None => {},
    }
}

impl StateMachine {
    /// Applies a proposal that is not a batch.
    fn apply_simple(&mut self, p: ProposalData) -> (r: Result<(), BlixardError>)
        requires
            old(self).wf(),
            !(p is Batch),
        ensures
            simple_step(*old(self), p, *final(self), r),
    {
        let ghost s0 = *self;
        let ghost p0 = p;
        match p {
            ProposalData::AssignTask { task_id, node_id, task } => {
                let k1 = task_id.clone();
                let k2 = task_id.clone();
                self.tasks.insert((k1, task), &task_id);
                self.task_assignments.insert((k2, node_id), &task_id);
                assert(self@ =~= applied(s0@, p0));
                Ok(())
            },
            ProposalData::CompleteTask { task_id, result } => {
                let k1 = task_id.clone();
                self.task_results.insert((k1, result), &task_id);
                self.task_assignments.remove(&task_id);
                assert(self@ =~= applied(s0@, p0));
                Ok(())
            },
            ProposalData::RegisterWorker { node_id, address, capabilities, topology } => {
                self.workers.insert((node_id, capabilities), &node_id);
                self.worker_addresses.insert((node_id, address), &node_id);
                self.worker_status.insert((node_id, WorkerStatus::Online), &node_id);
                self.topology.insert((node_id, topology), &node_id);
                assert(self@ =~= applied(s0@, p0));
                Ok(())
            },
            ProposalData::UpdateWorkerStatus { node_id, status } => {
                self.worker_status.insert((node_id, status), &node_id);
                assert(self@ =~= applied(s0@, p0));
                Ok(())
            },
            ProposalData::RemoveWorker { node_id } => {
                self.workers.remove(&node_id);
                self.worker_addresses.remove(&node_id);
                self.worker_status.remove(&node_id);
                self.topology.remove(&node_id);
                assert(self@ =~= applied(s0@, p0));
                Ok(())
            },
            ProposalData::CreateVm(command) => self.apply_vm_command(command),
            ProposalData::UpdateVmStatus { vm_name, status, node_id } => {
                update_vm(&mut self.vms, &vm_name, status, Some(node_id));
                assert(self@ =~= applied(s0@, p0));
                Ok(())
            },
            ProposalData::MigrateVm { vm_name, from_node, to_node } => {
                update_vm(&mut self.vms, &vm_name, VmStatus::Migrating, Some(to_node));
                assert(self@ =~= applied(s0@, p0));
                Ok(())
            },
            ProposalData::ReleaseVmIps { vm_id } => {
                self.vm_ips.remove(&vm_id.0);
                assert(self@ =~= applied(s0@, p0));
                Ok(())
            },
            _ => {
                assert(self@ =~= applied(s0@, p0));
                Ok(())
            },
        }
    }

    /// Applies a VM command; creation is checked by admission control when it is
    /// configured.
    fn apply_vm_command(&mut self, command: VmCommand) -> (r: Result<(), BlixardError>)
        requires
            old(self).wf(),
        ensures
            simple_step(*old(self), ProposalData::CreateVm(command), *final(self), r),
    {
        let ghost s0 = *self;
        let ghost p0 = ProposalData::CreateVm(command);
        match command {
            VmCommand::Create { config, node_id } => {
                match self.admission {
                    Some(c) => {
                        let verdict = c.validate_vm_admission(
                            &mut self.resources,
                            &self.workers.entries,
                            &self.vms.entries,
                            &config,
                            node_id,
                        );
                        if verdict.is_err() {
                            assert(self@ =~= s0@);
                            return verdict;
                        }
                    },
                    None => {},
                }
                let key = config.name.clone();
                let name = config.name.clone();
                let vm = VmState { name, config, status: VmStatus::Created, node_id };
                self.vms.insert(vm, &key);
                assert(self@ =~= applied(s0@, p0));
                Ok(())
            },
            VmCommand::Start { name } => {
                update_vm(&mut self.vms, &name, VmStatus::Starting, None);
                assert(self@ =~= applied(s0@, p0));
                Ok(())
            },
            VmCommand::Stop { name } => {
                update_vm(&mut self.vms, &name, VmStatus::Stopping, None);
                assert(self@ =~= applied(s0@, p0));
                Ok(())
            },
            VmCommand::Delete { name } => {
                self.vms.remove(&name);
                assert(self@ =~= applied(s0@, p0));
                Ok(())
            },
            VmCommand::UpdateStatus { .. } => {
                assert(self@ =~= applied(s0@, p0));
                Ok(())
            },
            VmCommand::Migrate { task } => {
                update_vm(&mut self.vms, &task.vm_name, VmStatus::Migrating, Some(task.target_node_id));
                assert(self@ =~= applied(s0@, p0));
                Ok(())
            },
        }
    }

    /// Applies the proposals of a batch in order, stopping at the first error; a
    /// batch inside the batch is refused.
    fn apply_batch(&mut self, ps: Vec<ProposalData>) -> (r: Result<(), BlixardError>)
        requires
            old(self).wf(),
        ensures
            batch_steps(*old(self), ps@, *final(self), r),
            final(self).wf(),
    {
        let ghost start = *self;
        let ghost all = ps@;
        let mut rest = ps;
        let mut result: Result<(), BlixardError> = Ok(());
        loop
            invariant_except_break
                self.wf(),
                forall|sn: StateMachine, rn: Result<(), BlixardError>|
                    batch_steps(*self, rest@, sn, rn) ==> #[trigger] batch_steps(start, all, sn, rn),
            ensures
                self.wf(),
                batch_steps(start, all, *self, result),
            decreases rest@.len(),
        {
            if rest.len() == 0 {
                assert(batch_steps(*self, rest@, *self, Ok(())));
                result = Ok(());
                break;
            }
            let ghost before = *self;
            let ghost rest0 = rest@;
            let p = rest.remove(0);
            assert(rest@ =~= rest0.drop_first());
            match p {
                ProposalData::Batch(_) => {
                    assert(batch_steps(before, rest0, *self, Err(nested_batch_error())));
                    result = Err(BlixardError::Internal { message: "Nested batch proposals are not supported" });
                    break;
                },
                _ => {},
            }
            let r1 = self.apply_simple(p);
            assert(simple_step(before, rest0[0], *self, r1));
            if r1.is_err() {
                assert(batch_steps(before, rest0, *self, r1));
                result = r1;
                break;
            }
            assert forall|sn: StateMachine, rn: Result<(), BlixardError>|
                batch_steps(*self, rest@, sn, rn) implies #[trigger] batch_steps(start, all, sn, rn) by {
                assert(batch_steps(before, rest0, sn, rn));
            }
        }
        result
    }

    /// Applies a committed proposal to the tables. A batch applies its proposals in
    /// order and stops at the first that fails; the ones before it stay applied.
    pub fn apply_proposal(&mut self, p: ProposalData) -> (r: Result<(), BlixardError>)
        requires
            old(self).wf(),
        ensures
            step(*old(self), p, *final(self), r),
            final(self).wf(),
    {
        match p {
            ProposalData::Batch(ps) => self.apply_batch(ps),
            other => self.apply_simple(other),
        }
    }
}

/// Whether worker `id` can take the task: it is registered and online, with at
/// least the CPU cores and memory the task asks for.
pub open spec fn eligible(m: MachineView, id: u64, spec: TaskSpec) -> bool {
    &&& m.workers.contains_key(id)
    &&& m.worker_status.contains_key(id)
    &&& m.worker_status[id].1 == WorkerStatus::Online
    &&& m.workers[id].1.cpu_cores >= spec.resources.cpu_cores
    &&& m.workers[id].1.memory_mb >= spec.resources.memory_mb
}

/// The ids of the eligible workers among `ws`, in order.
pub open spec fn eligible_ids(m: MachineView, ws: Seq<(u64, WorkerCapabilities)>, spec: TaskSpec) -> Seq<u64>
    decreases ws.len(),
{
    if ws.len() == 0 {
        Seq::empty()
    } else if eligible(m, ws.last().0, spec) {
        eligible_ids(m, ws.drop_last(), spec).push(ws.last().0)
    } else {
        eligible_ids(m, ws.drop_last(), spec)
    }
}

/// Every worker the eligible list names is registered and online, with at least
/// the CPU cores and the memory the task asks for; and every such worker listed in
/// `ws` is named.
pub proof fn lemma_eligible_workers_can_take_task(m: MachineView, ws: Seq<(u64, WorkerCapabilities)>, spec: TaskSpec)
    ensures
        forall|k: int|
            0 <= k < eligible_ids(m, ws, spec).len() ==> {
                let id = #[trigger] eligible_ids(m, ws, spec)[k];
                &&& m.workers.contains_key(id)
                &&& m.worker_status.contains_key(id)
                &&& m.worker_status[id].1 == WorkerStatus::Online
                &&& m.workers[id].1.cpu_cores >= spec.resources.cpu_cores
                &&& m.workers[id].1.memory_mb >= spec.resources.memory_mb
            },
        forall|j: int|
            0 <= j < ws.len() && m.workers.contains_key(#[trigger] ws[j].0) && m.worker_status.contains_key(ws[j].0)
                && m.worker_status[ws[j].0].1 == WorkerStatus::Online && m.workers[ws[j].0].1.cpu_cores
                >= spec.resources.cpu_cores && m.workers[ws[j].0].1.memory_mb >= spec.resources.memory_mb
                ==> eligible_ids(m, ws, spec).contains(ws[j].0),
    decreases ws.len(),
{
    if ws.len() > 0 {
        lemma_eligible_workers_can_take_task(m, ws.drop_last(), spec);
        let prev = eligible_ids(m, ws.drop_last(), spec);
        let cur = eligible_ids(m, ws, spec);
        assert forall|j: int|
            0 <= j < ws.len() && m.workers.contains_key(#[trigger] ws[j].0) && m.worker_status.contains_key(ws[j].0)
                && m.worker_status[ws[j].0].1 == WorkerStatus::Online && m.workers[ws[j].0].1.cpu_cores
                >= spec.resources.cpu_cores && m.workers[ws[j].0].1.memory_mb >= spec.resources.memory_mb
                implies cur.contains(ws[j].0) by {
            if j == ws.len() - 1 {
                assert(cur.last() == ws[j].0);
                assert(cur[cur.len() - 1] == ws[j].0);
            } else {
                assert(ws.drop_last()[j] == ws[j]);
                assert(prev.contains(ws[j].0));
                let w = choose|w: int| 0 <= w < prev.len() && prev[w] == ws[j].0;
                if eligible(m, ws.last().0, spec) {
                    assert(cur[w] == prev[w]);
                }
            }
        }
        assert forall|k: int| 0 <= k < cur.len() implies {
            let id = #[trigger] cur[k];
            &&& m.workers.contains_key(id)
            &&& m.worker_status.contains_key(id)
            &&& m.worker_status[id].1 == WorkerStatus::Online
            &&& m.workers[id].1.cpu_cores >= spec.resources.cpu_cores
            &&& m.workers[id].1.memory_mb >= spec.resources.memory_mb
        } by {
            if eligible(m, ws.last().0, spec) && k == cur.len() - 1 {
            } else {
                assert(cur[k] == prev[k]);
            }
        }
    }
}

/// The worker that a hash picks from the eligible ones: the one at the hash's
/// remainder by their number.
pub open spec fn picked(eligible: Seq<u64>, hash: u64) -> Option<u64> {
    if eligible.len() == 0 {
        None
    } else {
        Some(eligible[((hash as usize) as int) % (eligible.len() as int)])
    }
}

/// What `BuildHasher::hash_one` of std gives for a task id under
/// `BuildHasherDefault::<DefaultHasher>`, a hasher built the same way every time.
pub uninterp spec fn task_hash(task_id: Seq<char>) -> u64;

/// The hash of a task id: `BuildHasher::hash_one` on
/// `BuildHasherDefault::<DefaultHasher>`, whose keys are fixed, so the same id
/// always gives the same hash. What the hash is, is not stated.
#[verifier::external_body]
fn task_id_hash(task_id: &str) -> (h: u64)
    ensures
        h == task_hash(task_id@),
{
    std::hash::BuildHasher::hash_one(
        &std::hash::BuildHasherDefault::<std::collections::hash_map::DefaultHasher>::default(),
        task_id,
    )
}

/// The worker a hash picks from `eligible`: the one at the hash's remainder by
/// their number; `None` when there is none.
pub fn pick_worker(eligible: &Vec<u64>, hash: u64) -> (r: Option<u64>)
    ensures
        r == picked(eligible@, hash),
{
    if eligible.len() == 0 {
        None
    } else {
        let i = (hash as usize) % eligible.len();
        Some(eligible[i])
    }
}

/// The address key `<pool id>:<address>`.
pub open spec fn allocation_key(pool_id: u64, ip: Seq<char>) -> Seq<char> {
    decimal(pool_id as nat) + ":"@ + ip
}

/// The addresses a VM holds after `ip` is given to it: `ip` is added unless it is
/// already there.
pub open spec fn ips_after(held: Option<(String, Vec<String>)>, ip: Seq<char>) -> Seq<Seq<char>> {
    match held {
        Some(e) => if exists|i: int| 0 <= i < e.1@.len() && (#[trigger] e.1@[i])@ == ip {
            e.1@.map_values(|s: String| s@)
        } else {
            e.1@.map_values(|s: String| s@).push(ip)
        },
        None => seq![ip],
    }
}

impl StateMachine {
    /// The workers that can take the task, in table order.
    pub fn eligible_workers(&self, spec: &TaskSpec) -> (r: Vec<u64>)
        requires
            self.wf(),
        ensures
            r@ == eligible_ids(self@, self.workers.entries@, *spec),
            forall|k: int|
                0 <= k < r@.len() ==> {
                    let id = #[trigger] r@[k];
                    &&& self.workers.map().contains_key(id)
                    &&& self.worker_status.map().contains_key(id)
                    &&& self.worker_status.map()[id].1 == WorkerStatus::Online
                    &&& self.workers.map()[id].1.cpu_cores >= spec.resources.cpu_cores
                    &&& self.workers.map()[id].1.memory_mb >= spec.resources.memory_mb
                },
    {
        let mut r: Vec<u64> = Vec::new();
        let mut i: usize = 0;
        while i < self.workers.entries.len()
            invariant
                self.wf(),
                i <= self.workers.entries@.len(),
                r@ == eligible_ids(self@, self.workers.entries@.take(i as int), *spec),
            decreases self.workers.entries@.len() - i,
        {
            let ghost ws = self.workers.entries@;
            assert(ws.take(i + 1).drop_last() =~= ws.take(i as int));
            let id = self.workers.entries[i].0;
            proof {
                crate::tables::lemma_lookup_index(ws, id);
            }
            assert(self.workers.map().contains_key(id) && self.workers.map()[id] == ws[i as int]);
            let ok = match self.worker_status.get(&id) {
                Some(st) => st.1 == WorkerStatus::Online && self.workers.entries[i].1.cpu_cores
                    >= spec.resources.cpu_cores && self.workers.entries[i].1.memory_mb >= spec.resources.memory_mb,
                None => false,
            };
            if ok {
                r.push(id);
            }
            i = i + 1;
        }
        assert(self.workers.entries@.take(i as int) =~= self.workers.entries@);
        proof {
            lemma_eligible_workers_can_take_task(self@, self.workers.entries@, *spec);
        }
        r
    }

    /// Picks a worker for a task among those that can take it, by a hash of the
    /// task id, so the same task goes to the same worker while the tables stay
    /// the same. Fails exactly when no worker can take it.
    pub fn schedule_task(&self, task_id: &str, spec: &TaskSpec) -> (r: Result<u64, BlixardError>)
        requires
            self.wf(),
        ensures
            eligible_ids(self@, self.workers.entries@, *spec).len() == 0 <==> r == Err::<u64, BlixardError>(
                BlixardError::Internal { message: "No available workers found for task" },
            ),
            r matches Ok(w) ==> eligible_ids(self@, self.workers.entries@, *spec).contains(w),
            eligible_ids(self@, self.workers.entries@, *spec).len() > 0 ==> r == Ok::<u64, BlixardError>(
                picked(eligible_ids(self@, self.workers.entries@, *spec), task_hash(task_id@))->0,
            ),
            r matches Ok(w) ==> {
                &&& self.workers.map().contains_key(w)
                &&& self.worker_status.map().contains_key(w)
                &&& self.worker_status.map()[w].1 == WorkerStatus::Online
                &&& self.workers.map()[w].1.cpu_cores >= spec.resources.cpu_cores
                &&& self.workers.map()[w].1.memory_mb >= spec.resources.memory_mb
            },
            r is Err ==> forall|id: u64|
                #![trigger self.workers.map().contains_key(id)]
                self.workers.map().contains_key(id) && self.worker_status.map().contains_key(id)
                    ==> !(self.worker_status.map()[id].1 == WorkerStatus::Online && self.workers.map()[id].1.cpu_cores
                    >= spec.resources.cpu_cores && self.workers.map()[id].1.memory_mb >= spec.resources.memory_mb),
    {
        proof {
            lemma_eligible_workers_can_take_task(self@, self.workers.entries@, *spec);
        }
        let candidates = self.eligible_workers(spec);
        let hash = task_id_hash(task_id);
        match pick_worker(&candidates, hash) {
            Some(w) => Ok(w),
            None => {
                proof {
                    let ws = self.workers.entries@;
                    assert forall|id: u64|
                        #![trigger self.workers.map().contains_key(id)]
                        self.workers.map().contains_key(id) && self.worker_status.map().contains_key(id)
                            implies !(self.worker_status.map()[id].1 == WorkerStatus::Online
                            && self.workers.map()[id].1.cpu_cores >= spec.resources.cpu_cores
                            && self.workers.map()[id].1.memory_mb >= spec.resources.memory_mb) by {
                        crate::tables::lemma_lookup_index(ws, id);
                        let j = choose|j: int| 0 <= j < ws.len() && ws[j] == crate::tables::lookup(ws, id)->0 && ws[j].key_of() == id;
                        assert(ws[j].0 == id);
                        if self.worker_status.map()[id].1 == WorkerStatus::Online
                            && self.workers.map()[id].1.cpu_cores >= spec.resources.cpu_cores
                            && self.workers.map()[id].1.memory_mb >= spec.resources.memory_mb {
                            assert(eligible_ids(self@, ws, *spec).contains(ws[j].0));
                        }
                    }
                }
                Err(BlixardError::Internal { message: "No available workers found for task" })
            },
        }
    }

    /// Records what the IP pool answered to an allocation request: an address
    /// `ip` from pool `pool_id` given to `vm_id` is recorded as
    /// [`StateMachine::record_ip_allocation`] does; a refusal changes nothing and,
    /// as the refusal does not fail the proposal, the answer is `Ok` either way.
    pub fn apply_ip_allocation_outcome(&mut self, outcome: Option<(u64, String, String)>) -> (r: Result<(), BlixardError>)
        requires
            old(self).wf(),
        ensures
            r is Ok,
            final(self).wf(),
            outcome is None ==> final(self)@ == old(self)@,
            outcome matches Some((pool_id, ip, vm_id)) ==> {
                &&& final(self).ip_allocations.map() == old(self).ip_allocations.map().insert(
                    allocation_key(pool_id, ip@),
                    (final(self).ip_allocations.map()[allocation_key(pool_id, ip@)].0, vm_id),
                )
                &&& final(self).ip_allocations.map()[allocation_key(pool_id, ip@)].0@ == allocation_key(pool_id, ip@)
                &&& final(self).vm_ips.map().dom() == old(self).vm_ips.map().dom().insert(vm_id@)
                &&& final(self).vm_ips.map().remove(vm_id@) == old(self).vm_ips.map().remove(vm_id@)
                &&& final(self).vm_ips.map()[vm_id@].1@.map_values(|s: String| s@) == ips_after(
                    if old(self).vm_ips.map().contains_key(vm_id@) {
                        Some(old(self).vm_ips.map()[vm_id@])
                    } else {
                        None
                    },
                    ip@,
                )
                &&& final(self)@.vms == old(self)@.vms
                &&& final(self)@.workers == old(self)@.workers
                &&& final(self)@.tasks == old(self)@.tasks
            },
    {
        match outcome {
            Some((pool_id, ip, vm_id)) => self.record_ip_allocation(pool_id, ip, vm_id),
            None => {},
        }
        Ok(())
    }

    /// Records that the IP pool gave `ip` from pool `pool_id` to the VM `vm_id`:
    /// the allocation is stored under `<pool id>:<ip>`, and `ip` joins the VM's
    /// addresses unless it is already one of them.
    pub fn record_ip_allocation(&mut self, pool_id: u64, ip: String, vm_id: String)
        requires
            old(self).wf(),
        ensures
            final(self).wf(),
            final(self).ip_allocations.map() == old(self).ip_allocations.map().insert(
                allocation_key(pool_id, ip@),
                (final(self).ip_allocations.map()[allocation_key(pool_id, ip@)].0, vm_id),
            ),
            final(self).ip_allocations.map()[allocation_key(pool_id, ip@)].0@ == allocation_key(pool_id, ip@),
            final(self).vm_ips.map().dom() == old(self).vm_ips.map().dom().insert(vm_id@),
            final(self).vm_ips.map().remove(vm_id@) == old(self).vm_ips.map().remove(vm_id@),
            final(self).vm_ips.map()[vm_id@].0@ == vm_id@,
            final(self).vm_ips.map()[vm_id@].1@.map_values(|s: String| s@) == ips_after(
                if old(self).vm_ips.map().contains_key(vm_id@) {
                    Some(old(self).vm_ips.map()[vm_id@])
                } else {
                    None
                },
                ip@,
            ),
            final(self)@.vms == old(self)@.vms,
            final(self)@.workers == old(self)@.workers,
            final(self)@.tasks == old(self)@.tasks,
    {
        let prefix = to_decimal(pool_id);
        let with_colon = concat(prefix.as_str(), ":");
        let key = concat(with_colon.as_str(), ip.as_str());
        let key2 = key.clone();
        let vm_key = vm_id.clone();
        let ghost held = if self.vm_ips.map().contains_key(vm_id@) {
            Some(self.vm_ips.map()[vm_id@])
        } else {
            None
        };
        let ghost m0 = self.vm_ips.map();
        let mut ips: Vec<String> = match self.vm_ips.take(&vm_id) {
            Some(e) => e.1,
            None => Vec::new(),
        };
        let ghost before = ips@;
        if !list_contains(&ips, ip.as_str()) {
            ips.push(ip);
            assert(ips@.map_values(|s: String| s@) =~= before.map_values(|s: String| s@).push(ip@));
        }
        assert(ips@.map_values(|s: String| s@) == ips_after(held, ip@));
        self.vm_ips.insert((vm_key, ips), &vm_id);
        assert(self.vm_ips.map().dom() =~= m0.dom().insert(vm_id@));
        assert(self.vm_ips.map().remove(vm_id@) =~= m0.remove(vm_id@));
        self.ip_allocations.insert((key2, vm_id), &key);
    }
}

/// The tables after applying each of `ps` in order, admission aside.
pub open spec fn applied_all(v: MachineView, ps: Seq<ProposalData>) -> MachineView
    decreases ps.len(),
{
    if ps.len() == 0 {
        v
    } else {
        applied_all(applied(v, ps[0]), ps.drop_first())
    }
}

/// Without admission control, a batch of proposals that holds no batch succeeds
/// and leaves the tables as the proposals applied one after another would.
pub proof fn lemma_batch_applies_in_order(s0: StateMachine, ps: Seq<ProposalData>, sn: StateMachine, r: Result<(), BlixardError>)
    requires
        s0.admission is None,
        forall|i: int| 0 <= i < ps.len() ==> !(#[trigger] ps[i] is Batch),
        batch_steps(s0, ps, sn, r),
    ensures
        r is Ok,
        sn@ == applied_all(s0@, ps),
    decreases ps.len(),
{
    if ps.len() > 0 {
        assert(!(ps[0] is Batch));
        let (s1, r1) = choose|s1: StateMachine, r1: Result<(), BlixardError>|
            #[trigger] simple_step(s0, ps[0], s1, r1) && if r1 is Err {
                sn == s1 && r == r1
            } else {
                batch_steps(s1, ps.drop_first(), sn, r)
            };
        assert(r1 is Ok);
        let rest = ps.drop_first();
        assert forall|i: int| 0 <= i < rest.len() implies !(#[trigger] rest[i] is Batch) by {
            assert(rest[i] == ps[i + 1]);
        }
        lemma_batch_applies_in_order(s1, rest, sn, r);
    }
}

/// Applying the proposals `ps` one after another, each as a proposal of its own
/// (see [`step`]), to `s0` can give `sn` and `r`: stopping at the first error.
pub open spec fn one_by_one(s0: StateMachine, ps: Seq<ProposalData>, sn: StateMachine, r: Result<(), BlixardError>) -> bool
    decreases ps.len(),
{
    if ps.len() == 0 {
        sn == s0 && r is Ok
    } else {
        exists|s1: StateMachine, r1: Result<(), BlixardError>|
            #[trigger] step(s0, ps[0], s1, r1) && if r1 is Err {
                sn == s1 && r == r1
            } else {
                one_by_one(s1, ps.drop_first(), sn, r)
            }
    }
}

/// A batch without nested batches does what applying its proposals one after
/// another as separate proposals does, stopping at the first error, whether
/// admission control is on or off.
pub proof fn lemma_batch_is_one_by_one(s0: StateMachine, ps: Seq<ProposalData>, sn: StateMachine, r: Result<(), BlixardError>)
    requires
        forall|i: int| 0 <= i < ps.len() ==> !(#[trigger] ps[i] is Batch),
    ensures
        batch_steps(s0, ps, sn, r) == one_by_one(s0, ps, sn, r),
    decreases ps.len(),
{
    if ps.len() > 0 {
        assert(!(ps[0] is Batch));
        let rest = ps.drop_first();
        assert forall|i: int| 0 <= i < rest.len() implies !(#[trigger] rest[i] is Batch) by {
            assert(rest[i] == ps[i + 1]);
        }
        assert forall|s1: StateMachine, r1: Result<(), BlixardError>| #[trigger] step(s0, ps[0], s1, r1) == simple_step(s0, ps[0], s1, r1) by {
        }
        assert forall|s1: StateMachine| #![auto] batch_steps(s1, rest, sn, r) == one_by_one(s1, rest, sn, r) by {
            lemma_batch_is_one_by_one(s1, rest, sn, r);
        }
        if batch_steps(s0, ps, sn, r) {
            let (s1, r1) = choose|s1: StateMachine, r1: Result<(), BlixardError>|
                #[trigger] simple_step(s0, ps[0], s1, r1) && if r1 is Err {
                    sn == s1 && r == r1
                } else {
                    batch_steps(s1, rest, sn, r)
                };
            assert(step(s0, ps[0], s1, r1));
        }
        if one_by_one(s0, ps, sn, r) {
            let (s1, r1) = choose|s1: StateMachine, r1: Result<(), BlixardError>|
                #[trigger] step(s0, ps[0], s1, r1) && if r1 is Err {
                    sn == s1 && r == r1
                } else {
                    one_by_one(s1, rest, sn, r)
                };
            assert(simple_step(s0, ps[0], s1, r1));
        }
    }
}

/// Deleting a VM right after creating it leaves the tables as deleting it alone
/// would.
pub proof fn lemma_delete_undoes_create(v: MachineView, config: VmConfig, node_id: u64)
    ensures
        applied(
            applied(v, ProposalData::CreateVm(VmCommand::Create { config, node_id })),
            ProposalData::CreateVm(VmCommand::Delete { name: config.name }),
        ) == applied(v, ProposalData::CreateVm(VmCommand::Delete { name: config.name })),
{
    assert(v.vms.insert(config.name@, VmState { name: config.name, config, status: VmStatus::Created, node_id }).remove(
        config.name@,
    ) =~= v.vms.remove(config.name@));
}

/// Removing a worker right after registering it leaves the tables as removing it
/// alone would.
pub proof fn lemma_remove_undoes_register(
    v: MachineView,
    node_id: u64,
    address: String,
    capabilities: WorkerCapabilities,
    topology: NodeTopology,
)
    ensures
        applied(
            applied(v, ProposalData::RegisterWorker { node_id, address, capabilities, topology }),
            ProposalData::RemoveWorker { node_id },
        ) == applied(v, ProposalData::RemoveWorker { node_id }),
{
    let a = applied(v, ProposalData::RegisterWorker { node_id, address, capabilities, topology });
    assert(a.workers.remove(node_id) =~= v.workers.remove(node_id));
    assert(a.worker_addresses.remove(node_id) =~= v.worker_addresses.remove(node_id));
    assert(a.worker_status.remove(node_id) =~= v.worker_status.remove(node_id));
    assert(a.topology.remove(node_id) =~= v.topology.remove(node_id));
}

/// A task that is assigned and then completed keeps its specification, is no
/// longer assigned, and has its result recorded; the other tables are unchanged.
pub proof fn lemma_complete_after_assign(v: MachineView, task_id: String, node_id: u64, task: TaskSpec, result: TaskResult)
    ensures
        ({
            let after = applied(
                applied(v, ProposalData::AssignTask { task_id, node_id, task }),
                ProposalData::CompleteTask { task_id, result },
            );
            &&& after.tasks == v.tasks.insert(task_id@, (task_id, task))
            &&& after.task_assignments == v.task_assignments.remove(task_id@)
            &&& after.task_results == v.task_results.insert(task_id@, (task_id, result))
            &&& after.vms == v.vms
            &&& after.workers == v.workers
        }),
{
    assert(v.task_assignments.insert(task_id@, (task_id, node_id)).remove(task_id@) =~= v.task_assignments.remove(
        task_id@,
    ));
}

} // verus!
