//! Proposals submitted to consensus, and their validation.
use vstd::prelude::*;

use crate::error::BlixardError;
use crate::types::{
    IpAllocationRequest, IpPoolCommand, NodeTopology, VmCommand, VmId, VmStatus,
};

verus! {

/// Specification of a distributed task.
#[derive(Debug, Clone)]
pub struct TaskSpec {
    pub command: String,
    pub args: Vec<String>,
    pub resources: ResourceRequirements,
    pub timeout_secs: u64,
}

/// Result of running a task.
#[derive(Debug, Clone)]
pub struct TaskResult {
    pub success: bool,
    pub output: String,
    pub error: Option<String>,
    pub execution_time_ms: u64,
}

/// What a worker node offers.
#[derive(Debug, Clone)]
pub struct WorkerCapabilities {
    pub cpu_cores: u32,
    pub memory_mb: u64,
    pub disk_gb: u64,
    /// Such as `gpu`, `high-memory`, `ssd`.
    pub features: Vec<String>,
}

/// What a task or VM needs.
#[derive(Debug, Clone)]
pub struct ResourceRequirements {
    pub cpu_cores: u32,
    pub memory_mb: u64,
    pub disk_gb: u64,
    pub required_features: Vec<String>,
}

/// Status of a worker node.
#[derive(Debug, Clone, Copy, PartialEq, Eq, Structural)]
pub enum WorkerStatus {
    Online,
    Busy,
    Offline,
    Failed,
}

/// The status a byte stands for: 0 online, 1 busy, 2 offline, 3 failed.
pub open spec fn worker_status_of(value: u8) -> Option<WorkerStatus> {
    if value == 0 {
        Some(WorkerStatus::Online)
    } else if value == 1 {
        Some(WorkerStatus::Busy)
    } else if value == 2 {
        Some(WorkerStatus::Offline)
    } else if value == 3 {
        Some(WorkerStatus::Failed)
    } else {
        None
    }
}

impl WorkerStatus {
    /// The byte that stands for the status.
    pub fn as_u8(&self) -> (b: u8)
        ensures
            worker_status_of(b) == Some(*self),
    {
        match self {
            WorkerStatus::Online => 0,
            WorkerStatus::Busy => 1,
            WorkerStatus::Offline => 2,
            WorkerStatus::Failed => 3,
        }
    }

    /// The status a byte stands for; bytes above 3 are refused.
    pub fn try_from_u8(value: u8) -> (r: Result<WorkerStatus, BlixardError>)
        ensures
            match worker_status_of(value) {
                Some(s) => r == Ok::<WorkerStatus, BlixardError>(s),
                None => r == Err::<WorkerStatus, BlixardError>(
                    BlixardError::Internal { message: "Invalid WorkerStatus value" },
                ),
            },
    {
        match value {
            0 => Ok(WorkerStatus::Online),
            1 => Ok(WorkerStatus::Busy),
            2 => Ok(WorkerStatus::Offline),
            3 => Ok(WorkerStatus::Failed),
            _ => Err(BlixardError::Internal { message: "Invalid WorkerStatus value" }),
        }
    }
}

/// A proposal to the replicated state machine.
#[derive(Debug)]
pub enum ProposalData {
    AssignTask { task_id: String, node_id: u64, task: TaskSpec },
    CompleteTask { task_id: String, result: TaskResult },
    ReassignTask { task_id: String, from_node: u64, to_node: u64 },
    RegisterWorker {
        node_id: u64,
        address: String,
        capabilities: WorkerCapabilities,
        topology: NodeTopology,
    },
    UpdateWorkerStatus { node_id: u64, status: WorkerStatus },
    RemoveWorker { node_id: u64 },
    /// Any VM operation (create, start, stop, delete, ...).
    CreateVm(VmCommand),
    UpdateVmStatus { vm_name: String, status: VmStatus, node_id: u64 },
    MigrateVm { vm_name: String, from_node: u64, to_node: u64 },
    IpPoolCommand(IpPoolCommand),
    AllocateIp { request: IpAllocationRequest },
    ReleaseVmIps { vm_id: VmId },
    Batch(Vec<ProposalData>),
}

/// The name of a proposal's kind.
pub open spec fn proposal_type_name(p: ProposalData) -> &'static str {
    match p {
        ProposalData::AssignTask { .. } => "assign_task",
        ProposalData::CompleteTask { .. } => "complete_task",
        ProposalData::ReassignTask { .. } => "reassign_task",
        ProposalData::RegisterWorker { .. } => "register_worker",
        ProposalData::UpdateWorkerStatus { .. } => "update_worker_status",
        ProposalData::RemoveWorker { .. } => "remove_worker",
        ProposalData::CreateVm(_) => "vm_operation",
        ProposalData::UpdateVmStatus { .. } => "update_vm_status",
        ProposalData::MigrateVm { .. } => "migrate_vm",
        ProposalData::IpPoolCommand(_) => "ip_pool_command",
        ProposalData::AllocateIp { .. } => "allocate_ip",
        ProposalData::ReleaseVmIps { .. } => "release_vm_ips",
        ProposalData::Batch(_) => "batch",
    }
}

/// Whether a proposal changes cluster resources; a batch does when one of its
/// proposals does.
pub open spec fn modifies(p: ProposalData) -> bool
    decreases p, 0int,
{
    match p {
        ProposalData::AssignTask { .. } | ProposalData::RegisterWorker { .. }
        | ProposalData::RemoveWorker { .. } | ProposalData::CreateVm(_)
        | ProposalData::MigrateVm { .. } | ProposalData::AllocateIp { .. }
        | ProposalData::ReleaseVmIps { .. } => true,
        ProposalData::Batch(v) => any_modifies(v@),
        _ => false,
    }
}

/// Whether one of the proposals changes cluster resources.
pub open spec fn any_modifies(s: Seq<ProposalData>) -> bool
    decreases s, 1int,
{
    if s.len() == 0 {
        false
    } else {
        any_modifies(s.subrange(0, s.len() - 1)) || modifies(s[s.len() - 1])
    }
}

impl Clone for ProposalData {
    fn clone(&self) -> (r: Self)
        decreases self,
    {
        match self {
            ProposalData::AssignTask { task_id, node_id, task } => ProposalData::AssignTask {
                task_id: task_id.clone(),
                node_id: *node_id,
                task: task.clone(),
            },
            ProposalData::CompleteTask { task_id, result } => ProposalData::CompleteTask {
                task_id: task_id.clone(),
                result: result.clone(),
            },
            ProposalData::ReassignTask { task_id, from_node, to_node } => ProposalData::ReassignTask {
                task_id: task_id.clone(),
                from_node: *from_node,
                to_node: *to_node,
            },
            ProposalData::RegisterWorker { node_id, address, capabilities, topology } =>
                ProposalData::RegisterWorker {
                node_id: *node_id,
                address: address.clone(),
                capabilities: capabilities.clone(),
                topology: topology.clone(),
            },
            ProposalData::UpdateWorkerStatus { node_id, status } => ProposalData::UpdateWorkerStatus {
                node_id: *node_id,
                status: *status,
            },
            ProposalData::RemoveWorker { node_id } => ProposalData::RemoveWorker { node_id: *node_id },
            ProposalData::CreateVm(c) => ProposalData::CreateVm(c.clone()),
            ProposalData::UpdateVmStatus { vm_name, status, node_id } => ProposalData::UpdateVmStatus {
                vm_name: vm_name.clone(),
                status: *status,
                node_id: *node_id,
            },
            ProposalData::MigrateVm { vm_name, from_node, to_node } => ProposalData::MigrateVm {
                vm_name: vm_name.clone(),
                from_node: *from_node,
                to_node: *to_node,
            },
            ProposalData::IpPoolCommand(c) => ProposalData::IpPoolCommand(c.clone()),
            ProposalData::AllocateIp { request } => ProposalData::AllocateIp {
                request: request.clone(),
            },
            ProposalData::ReleaseVmIps { vm_id } => ProposalData::ReleaseVmIps { vm_id: vm_id.clone() },
            ProposalData::Batch(v) => {
                let mut out: Vec<ProposalData> = Vec::new();
                let mut i: usize = 0;
                while i < v.len()
                    invariant
                        i <= v@.len(),
                        *self == ProposalData::Batch(*v),
                    decreases v@.len() - i,
                {
                    proof {
                        assert(decreases_to!(*self => self->Batch_0));
                        assert(decreases_to!(*v => v@));
                        assert(decreases_to!(v@ => v@[i as int]));
                        assert(decreases_to!(*self => v@[i as int]));
                    }
                    out.push(v[i].clone());
                    i = i + 1;
                }
                ProposalData::Batch(out)
            },
        }
    }
}

impl ProposalData {
    /// A readable name of the proposal's kind.
    pub fn proposal_type(&self) -> (r: &'static str)
        ensures
            r == proposal_type_name(*self),
    {
        match self {
            ProposalData::AssignTask { .. } => "assign_task",
            ProposalData::CompleteTask { .. } => "complete_task",
            ProposalData::ReassignTask { .. } => "reassign_task",
            ProposalData::RegisterWorker { .. } => "register_worker",
            ProposalData::UpdateWorkerStatus { .. } => "update_worker_status",
            ProposalData::RemoveWorker { .. } => "remove_worker",
            ProposalData::CreateVm(_) => "vm_operation",
            ProposalData::UpdateVmStatus { .. } => "update_vm_status",
            ProposalData::MigrateVm { .. } => "migrate_vm",
            ProposalData::IpPoolCommand(_) => "ip_pool_command",
            ProposalData::AllocateIp { .. } => "allocate_ip",
            ProposalData::ReleaseVmIps { .. } => "release_vm_ips",
            ProposalData::Batch(_) => "batch",
        }
    }

    /// Whether the proposal changes cluster resources.
    pub fn modifies_resources(&self) -> (r: bool)
        ensures
            r == modifies(*self),
        decreases self,
    {
        match self {
            ProposalData::AssignTask { .. } | ProposalData::RegisterWorker { .. }
            | ProposalData::RemoveWorker { .. } | ProposalData::CreateVm(_)
            | ProposalData::MigrateVm { .. } | ProposalData::AllocateIp { .. }
            | ProposalData::ReleaseVmIps { .. } => true,
            ProposalData::CompleteTask { .. } | ProposalData::ReassignTask { .. }
            | ProposalData::UpdateWorkerStatus { .. } | ProposalData::UpdateVmStatus { .. }
            | ProposalData::IpPoolCommand(_) => false,
            ProposalData::Batch(proposals) => {
                let mut i: usize = 0;
                let mut found = false;
                while i < proposals.len()
                    invariant
                        i <= proposals@.len(),
                        *self == ProposalData::Batch(*proposals),
                        found == any_modifies(proposals@.subrange(0, i as int)),
                    decreases proposals@.len() - i,
                {
                    proof {
                        assert(decreases_to!(*self => self->Batch_0));
                        assert(decreases_to!(*proposals => proposals@));
                        assert(decreases_to!(proposals@ => proposals@[i as int]));
                        assert(decreases_to!(*self => proposals@[i as int]));
                    }
                    proof {
                        assert(proposals@.subrange(0, i as int + 1).subrange(0, i as int)
                            =~= proposals@.subrange(0, i as int));
                        assert(proposals@.subrange(0, i as int + 1)[i as int] == proposals@[i as int]);
                    }
                    let m = proposals[i].modifies_resources();
                    found = found || m;
                    i = i + 1;
                }
                proof {
                    assert(proposals@.subrange(0, proposals@.len() as int) =~= proposals@);
                }
                found
            },
        }
    }

    /// Whether the proposal needs admission control: task assignments, VM creation
    /// and VM migration.
    pub fn requires_admission_control(&self) -> (r: bool)
        ensures
            r == (*self is AssignTask || (*self matches ProposalData::CreateVm(c) && c is Create)
                || *self is MigrateVm),
    {
        match self {
            ProposalData::AssignTask { .. } | ProposalData::MigrateVm { .. } => true,
            ProposalData::CreateVm(VmCommand::Create { .. }) => true,
            _ => false,
        }
    }
}

/// The contents of a builder holding `start` after `ps` are added one by one.
pub open spec fn after_adds(start: Seq<ProposalData>, ps: Seq<ProposalData>) -> Seq<ProposalData>
    decreases ps.len(),
{
    if ps.len() == 0 {
        start
    } else {
        after_adds(start, ps.drop_last()).push(ps.last())
    }
}

/// Adding any number of proposals to a new builder collects them in the order
/// they were added, so the batch it builds holds exactly them, in that order.
pub proof fn lemma_builder_collects(ps: Seq<ProposalData>)
    ensures
        after_adds(Seq::empty(), ps) == ps,
    decreases ps.len(),
{
    if ps.len() > 0 {
        lemma_builder_collects(ps.drop_last());
        assert(ps.drop_last().push(ps.last()) =~= ps);
    }
}

/// Collects proposals into a batch.
pub struct BatchProposalBuilder {
    proposals: Vec<ProposalData>,
}

impl BatchProposalBuilder {
    /// The proposals collected so far, in order.
    pub closed spec fn contents(&self) -> Seq<ProposalData> {
        self.proposals@
    }

    pub fn new() -> (b: Self)
        ensures
            b.contents().len() == 0,
    {
        BatchProposalBuilder { proposals: Vec::new() }
    }

    /// Adds a proposal at the end.
    pub fn add(self, proposal: ProposalData) -> (b: Self)
        ensures
            b.contents() == self.contents().push(proposal),
    {
        let mut proposals = self.proposals;
        proposals.push(proposal);
        BatchProposalBuilder { proposals }
    }

    /// The batch of the collected proposals.
    pub fn build(self) -> (p: ProposalData)
        ensures
            p matches ProposalData::Batch(v) && v@ == self.contents(),
    {
        ProposalData::Batch(self.proposals)
    }
}

/// Checks that a task can run: a command, at least one core, some memory and a
/// positive timeout, checked in that order.
pub fn validate_task_spec(spec: &TaskSpec) -> (r: Result<(), BlixardError>)
    ensures
        spec.command@.len() == 0 ==> r == Err::<(), BlixardError>(
            BlixardError::Validation { field: "command", message: "Task command cannot be empty" },
        ),
        spec.command@.len() > 0 && spec.resources.cpu_cores == 0 ==> r == Err::<(), BlixardError>(
            BlixardError::Validation {
                field: "cpu_cores",
                message: "Task must require at least 1 CPU core",
            },
        ),
        spec.command@.len() > 0 && spec.resources.cpu_cores > 0 && spec.resources.memory_mb == 0
            ==> r == Err::<(), BlixardError>(
            BlixardError::Validation {
                field: "memory_mb",
                message: "Task must require at least 1 MB of memory",
            },
        ),
        spec.command@.len() > 0 && spec.resources.cpu_cores > 0 && spec.resources.memory_mb > 0
            && spec.timeout_secs == 0 ==> r == Err::<(), BlixardError>(
            BlixardError::Validation {
                field: "timeout_secs",
                message: "Task timeout must be greater than 0",
            },
        ),
        r is Ok <==> (spec.command@.len() > 0 && spec.resources.cpu_cores > 0
            && spec.resources.memory_mb > 0 && spec.timeout_secs > 0),
{
    if spec.command.unicode_len() == 0 {
        return Err(
            BlixardError::Validation { field: "command", message: "Task command cannot be empty" },
        );
    }
    if spec.resources.cpu_cores == 0 {
        return Err(
            BlixardError::Validation {
                field: "cpu_cores",
                message: "Task must require at least 1 CPU core",
            },
        );
    }
    if spec.resources.memory_mb == 0 {
        return Err(
            BlixardError::Validation {
                field: "memory_mb",
                message: "Task must require at least 1 MB of memory",
            },
        );
    }
    if spec.timeout_secs == 0 {
        return Err(
            BlixardError::Validation {
                field: "timeout_secs",
                message: "Task timeout must be greater than 0",
            },
        );
    }
    Ok(())
}

/// A batch of the proposals; refused when there are none or when one is itself a batch.
pub fn create_batch_proposal(proposals: Vec<ProposalData>) -> (r: Result<ProposalData, BlixardError>)
    ensures
        proposals@.len() == 0 ==> r == Err::<ProposalData, BlixardError>(
            BlixardError::Validation { field: "proposals", message: "Batch cannot be empty" },
        ),
        proposals@.len() > 0 && (exists|i: int|
            0 <= i < proposals@.len() && #[trigger] proposals@[i] is Batch) ==> r == Err::<
            ProposalData,
            BlixardError,
        >(
            BlixardError::Validation {
                field: "proposals",
                message: "Nested batch proposals are not allowed",
            },
        ),
        proposals@.len() > 0 && (forall|i: int|
            0 <= i < proposals@.len() ==> !(#[trigger] proposals@[i] is Batch)) ==> (r matches Ok(
            ProposalData::Batch(v),
        ) && v@ == proposals@),
{
    if proposals.len() == 0 {
        return Err(BlixardError::Validation { field: "proposals", message: "Batch cannot be empty" });
    }
    let mut i: usize = 0;
    while i < proposals.len()
        invariant
            i <= proposals@.len(),
            forall|k: int| 0 <= k < i ==> !(#[trigger] proposals@[k] is Batch),
        decreases proposals@.len() - i,
    {
        if let ProposalData::Batch(_) = &proposals[i] {
            return Err(
                BlixardError::Validation {
                    field: "proposals",
                    message: "Nested batch proposals are not allowed",
                },
            );
        }
        i = i + 1;
    }
    Ok(ProposalData::Batch(proposals))
}


/// A proposal with its id.
#[derive(Debug)]
pub struct ProposalEnvelope {
    pub id: Vec<u8>,
    pub data: ProposalData,
}

/// Builds proposals for a node.
pub struct OptimizedProposalBuilder {
    /// `node-<id>`.
    pub node_prefix: String,
}

impl OptimizedProposalBuilder {
    pub fn new(node_id: u64) -> (b: Self)
        ensures
            b.node_prefix@ == "node-"@ + crate::decimal::decimal(node_id as nat),
    {
        OptimizedProposalBuilder { node_prefix: crate::remediation::with_number("node-", node_id) }
    }

    /// A status update of a VM under a fresh 16-byte id.
    pub fn create_vm_status_update(&mut self, vm_name: &str, status: VmStatus, node_id: u64) -> (p: ProposalEnvelope)
        ensures
            p.id@.len() == 16,
            p.data matches ProposalData::UpdateVmStatus { vm_name: n, status: s, node_id: id } && n@
                == vm_name@ && s == status && id == node_id,
    {
        let id = crate::ids::new_uuid_bytes();
        ProposalEnvelope {
            id,
            data: ProposalData::UpdateVmStatus { vm_name: String::from_str(vm_name), status, node_id },
        }
    }

    /// A batch of the proposals under a fresh 16-byte id.
    pub fn create_batch_proposal(&mut self, proposals: Vec<ProposalData>) -> (p: ProposalEnvelope)
        ensures
            p.id@.len() == 16,
            p.data matches ProposalData::Batch(v) && v@ == proposals@,
    {
        let id = crate::ids::new_uuid_bytes();
        ProposalEnvelope { id, data: ProposalData::Batch(proposals) }
    }
}

/// What identifies a start or stop command for deduplication: its kind and VM name.
pub open spec fn dedup_key(c: VmCommand) -> Option<(bool, Seq<char>)> {
    match c {
        VmCommand::Start { name } => Some((true, name@)),
        VmCommand::Stop { name } => Some((false, name@)),
        _ => None,
    }
}

/// Whether a command is dropped as a repeat: a start or stop of a VM that an earlier
/// command of the same kind already names.
pub open spec fn repeats_earlier(cs: Seq<VmCommand>, i: int) -> bool {
    dedup_key(cs[i]) is Some && exists|j: int| 0 <= j < i && dedup_key(#[trigger] cs[j]) == dedup_key(cs[i])
}

/// The commands kept, in order.
pub open spec fn kept_commands(cs: Seq<VmCommand>) -> Seq<VmCommand>
    decreases cs.len(),
{
    if cs.len() == 0 {
        Seq::empty()
    } else if repeats_earlier(cs, cs.len() - 1) {
        kept_commands(cs.drop_last())
    } else {
        kept_commands(cs.drop_last()).push(cs.last())
    }
}

proof fn lemma_repeats_prefix(cs: Seq<VmCommand>, k: int, i: int)
    requires
        0 <= i < k <= cs.len(),
    ensures
        repeats_earlier(cs.take(k), i) == repeats_earlier(cs, i),
{
    if repeats_earlier(cs, i) {
        let j = choose|j: int| 0 <= j < i && dedup_key(#[trigger] cs[j]) == dedup_key(cs[i]);
        assert(cs.take(k)[j] == cs[j]);
    }
    if repeats_earlier(cs.take(k), i) {
        let j = choose|j: int| 0 <= j < i && dedup_key(#[trigger] cs.take(k)[j]) == dedup_key(cs.take(k)[i]);
        assert(cs.take(k)[j] == cs[j]);
    }
}

/// Whether a key was recorded as seen.
pub open spec fn seen_has(seen: Seq<(bool, String)>, b: bool, n: Seq<char>) -> bool {
    exists|j: int| 0 <= j < seen.len() && seen[j].0 == b && seen[j].1@ == n
}

/// Whether one of the first `k` commands has the key.
pub open spec fn earlier_has(cs: Seq<VmCommand>, k: int, b: bool, n: Seq<char>) -> bool {
    exists|j: int| 0 <= j < k && dedup_key(#[trigger] cs[j]) == Some((b, n))
}

proof fn lemma_seen_push(seen: Seq<(bool, String)>, e: (bool, String), b: bool, n: Seq<char>)
    ensures
        seen_has(seen.push(e), b, n) == (seen_has(seen, b, n) || (e.0 == b && e.1@ == n)),
{
    let s2 = seen.push(e);
    if seen_has(s2, b, n) {
        let j = choose|j: int| 0 <= j < s2.len() && s2[j].0 == b && s2[j].1@ == n;
        if j < seen.len() {
            assert(seen[j] == s2[j]);
        }
    }
    if seen_has(seen, b, n) {
        let j = choose|j: int| 0 <= j < seen.len() && seen[j].0 == b && seen[j].1@ == n;
        assert(s2[j] == seen[j]);
    }
    if e.0 == b && e.1@ == n {
        assert(s2[seen.len() as int] == e);
    }
}

proof fn lemma_earlier_step(cs: Seq<VmCommand>, k: int, b: bool, n: Seq<char>)
    requires
        0 <= k < cs.len(),
    ensures
        earlier_has(cs, k + 1, b, n) == (earlier_has(cs, k, b, n) || dedup_key(cs[k]) == Some((b, n))),
{
    if earlier_has(cs, k + 1, b, n) {
        let j = choose|j: int| 0 <= j < k + 1 && dedup_key(#[trigger] cs[j]) == Some((b, n));
        if j < k {
            assert(earlier_has(cs, k, b, n));
        }
    }
}

/// Processes VM commands into proposals.
pub struct OptimizedProposalProcessor {
    /// Proposals of the last batch.
    pub temp_proposals: Vec<ProposalData>,
}

impl OptimizedProposalProcessor {
    pub fn new() -> (p: Self)
        ensures
            p.temp_proposals@.len() == 0,
    {
        OptimizedProposalProcessor { temp_proposals: Vec::new() }
    }

    fn seen_key(seen: &Vec<(bool, String)>, start: bool, name: &String) -> (r: bool)
        ensures
            r == exists|j: int| 0 <= j < seen@.len() && seen@[j].0 == start && seen@[j].1@ == name@,
    {
        let mut i: usize = 0;
        while i < seen.len()
            invariant
                i <= seen@.len(),
                forall|j: int| 0 <= j < i ==> !(seen@[j].0 == start && seen@[j].1@ == name@),
            decreases seen@.len() - i,
        {
            if seen[i].0 == start && crate::text::text_eq(seen[i].1.as_str(), name.as_str()) {
                return true;
            }
            i = i + 1;
        }
        false
    }

    /// One VM-operation proposal per command, in order, leaving out a start or stop
    /// of a VM that an earlier command of the same kind already names.
    pub fn batch_vm_commands(&mut self, commands: Vec<VmCommand>) -> (r: Vec<ProposalData>)
        ensures
            r@.len() == kept_commands(commands@).len(),
            forall|k: int|
                0 <= k < r@.len() ==> #[trigger] r@[k] == ProposalData::CreateVm(kept_commands(commands@)[k]),
    {
        let ghost orig = commands@;
        let n = commands.len();
        let mut rest = commands;
        let mut out: Vec<ProposalData> = Vec::new();
        let mut seen: Vec<(bool, String)> = Vec::new();
        let mut k: usize = 0;
        proof {
            assert(rest@ =~= orig.skip(0));
        }
        while rest.len() > 0
            invariant
                k <= orig.len(),
                orig.len() == n,
                rest@ == orig.skip(k as int),
                out@.len() == kept_commands(orig.take(k as int)).len(),
                forall|q: int|
                    0 <= q < out@.len() ==> #[trigger] out@[q] == ProposalData::CreateVm(
                        kept_commands(orig.take(k as int))[q],
                    ),
                forall|b: bool, n: Seq<char>|
                    #![trigger seen_has(seen@, b, n)]
                    #![trigger earlier_has(orig, k as int, b, n)]
                    seen_has(seen@, b, n) == earlier_has(orig, k as int, b, n),
            decreases rest@.len(),
        {
            let cmd = rest.remove(0);
            let ghost before_seen = seen@;
            proof {
                assert(orig.skip(k as int)[0] == orig[k as int]);
                assert(rest@ =~= orig.skip(k as int + 1));
                let t = orig.take(k as int + 1);
                assert(t.drop_last() =~= orig.take(k as int));
                assert(t.last() == orig[k as int]);
                lemma_repeats_prefix(orig, k as int + 1, k as int);
            }
            let key: Option<(bool, String)> = match &cmd {
                VmCommand::Start { name } => Some((true, name.clone())),
                VmCommand::Stop { name } => Some((false, name.clone())),
                _ => None,
            };
            match key {
                Some((b, name)) => {
                    if !Self::seen_key(&seen, b, &name) {
                        proof {
                            assert(!earlier_has(orig, k as int, b, name@));
                            assert(!repeats_earlier(orig, k as int));
                        }
                        out.push(ProposalData::CreateVm(cmd));
                        seen.push((b, name));
                        proof {
                            assert forall|bb: bool, nn: Seq<char>|
                                #![trigger seen_has(seen@, bb, nn)]
                                #![trigger earlier_has(orig, k as int + 1, bb, nn)]
                                seen_has(seen@, bb, nn) == earlier_has(orig, k as int + 1, bb, nn) by {
                                lemma_seen_push(before_seen, (b, name), bb, nn);
                                lemma_earlier_step(orig, k as int, bb, nn);
                            }
                        }
                    } else {
                        proof {
                            assert(earlier_has(orig, k as int, b, name@));
                            let j = choose|j: int| 0 <= j < k && dedup_key(#[trigger] orig[j]) == Some((b, name@));
                            assert(repeats_earlier(orig, k as int));
                            assert forall|bb: bool, nn: Seq<char>|
                                #![trigger seen_has(seen@, bb, nn)]
                                #![trigger earlier_has(orig, k as int + 1, bb, nn)]
                                seen_has(seen@, bb, nn) == earlier_has(orig, k as int + 1, bb, nn) by {
                                lemma_earlier_step(orig, k as int, bb, nn);
                                assert(seen_has(seen@, bb, nn) == earlier_has(orig, k as int, bb, nn));
                            }
                        }
                    }
                },
                None => {
                    proof {
                        assert(!repeats_earlier(orig, k as int));
                    }
                    out.push(ProposalData::CreateVm(cmd));
                    proof {
                        assert forall|bb: bool, nn: Seq<char>|
                            #![trigger seen_has(seen@, bb, nn)]
                            #![trigger earlier_has(orig, k as int + 1, bb, nn)]
                            seen_has(seen@, bb, nn) == earlier_has(orig, k as int + 1, bb, nn) by {
                            lemma_earlier_step(orig, k as int, bb, nn);
                            assert(seen_has(seen@, bb, nn) == earlier_has(orig, k as int, bb, nn));
                        }
                    }
                },
            }
            k = k + 1;
        }
        proof {
            assert(orig.take(k as int) =~= orig);
        }
        out
    }
}

} // verus!
