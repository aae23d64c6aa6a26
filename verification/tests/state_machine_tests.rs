use blixard_core::admission::AdmissionControlConfig;
use blixard_core::error::BlixardError;
use blixard_core::ids::{new_uuid_text, uuid_to_text};
use blixard_core::proposals::{
    ProposalData, ResourceRequirements, TaskResult, TaskSpec, WorkerCapabilities, WorkerStatus,
};
use blixard_core::resource_management::OvercommitPolicy;
use blixard_core::state_machine::{pick_worker, StateMachine};
use blixard_core::storage::{keys_to_compact, should_compact};
use blixard_core::types::{NodeTopology, VmCommand, VmConfig, VmId, VmMigrationTask, VmStatus};

fn caps(cpu_cores: u32, memory_mb: u64) -> WorkerCapabilities {
    WorkerCapabilities { cpu_cores, memory_mb, disk_gb: 100, features: vec!["microvm".to_string()] }
}

fn topology() -> NodeTopology {
    NodeTopology { datacenter: "dc1".to_string(), zone: "z1".to_string(), rack: "r1".to_string() }
}

fn register(node_id: u64, cpu: u32, mem: u64) -> ProposalData {
    ProposalData::RegisterWorker {
        node_id,
        address: format!("127.0.0.1:{}", 7000 + node_id),
        capabilities: caps(cpu, mem),
        topology: topology(),
    }
}

fn vm_config(name: &str, vcpus: u32, memory: u32) -> VmConfig {
    VmConfig { name: name.to_string(), vcpus, memory, preemptible: false, priority: 100, tenant_id: None }
}

fn task(cpu: u32, mem: u64) -> TaskSpec {
    TaskSpec {
        command: "echo".to_string(),
        args: vec!["hi".to_string()],
        resources: ResourceRequirements { cpu_cores: cpu, memory_mb: mem, disk_gb: 0, required_features: vec![] },
        timeout_secs: 10,
    }
}

fn vm_status(sm: &StateMachine, name: &str) -> Option<(VmStatus, u64)> {
    sm.vms.get(&name.to_string()).map(|v| (v.status, v.node_id))
}

#[test]
fn register_and_remove_worker() {
    let mut sm = StateMachine::new();
    sm.apply_proposal(register(1, 4, 8192)).unwrap();
    assert!(sm.workers.contains(&1));
    assert_eq!(sm.worker_status.get(&1).unwrap().1, WorkerStatus::Online);
    assert_eq!(sm.worker_addresses.get(&1).unwrap().1, "127.0.0.1:7001");
    sm.apply_proposal(ProposalData::UpdateWorkerStatus { node_id: 1, status: WorkerStatus::Busy }).unwrap();
    assert_eq!(sm.worker_status.get(&1).unwrap().1, WorkerStatus::Busy);
    sm.apply_proposal(ProposalData::RemoveWorker { node_id: 1 }).unwrap();
    assert!(!sm.workers.contains(&1));
    assert!(sm.worker_status.get(&1).is_none());
    assert!(sm.topology.get(&1).is_none());
}

#[test]
fn vm_lifecycle_through_proposals() {
    let mut sm = StateMachine::new();
    sm.apply_proposal(ProposalData::CreateVm(VmCommand::Create { config: vm_config("web", 2, 1024), node_id: 1 }))
        .unwrap();
    assert_eq!(vm_status(&sm, "web"), Some((VmStatus::Created, 1)));
    sm.apply_proposal(ProposalData::CreateVm(VmCommand::Start { name: "web".to_string() })).unwrap();
    assert_eq!(vm_status(&sm, "web"), Some((VmStatus::Starting, 1)));
    sm.apply_proposal(ProposalData::UpdateVmStatus { vm_name: "web".to_string(), status: VmStatus::Running, node_id: 2 })
        .unwrap();
    assert_eq!(vm_status(&sm, "web"), Some((VmStatus::Running, 2)));
    sm.apply_proposal(ProposalData::MigrateVm { vm_name: "web".to_string(), from_node: 2, to_node: 3 }).unwrap();
    assert_eq!(vm_status(&sm, "web"), Some((VmStatus::Migrating, 3)));
    sm.apply_proposal(ProposalData::CreateVm(VmCommand::Migrate {
        task: VmMigrationTask { vm_name: "web".to_string(), source_node_id: 3, target_node_id: 4 },
    }))
    .unwrap();
    assert_eq!(vm_status(&sm, "web"), Some((VmStatus::Migrating, 4)));
    sm.apply_proposal(ProposalData::CreateVm(VmCommand::Stop { name: "web".to_string() })).unwrap();
    assert_eq!(vm_status(&sm, "web"), Some((VmStatus::Stopping, 4)));
    sm.apply_proposal(ProposalData::CreateVm(VmCommand::Delete { name: "web".to_string() })).unwrap();
    assert_eq!(vm_status(&sm, "web"), None);
}

#[test]
fn status_update_of_unknown_vm_changes_nothing() {
    let mut sm = StateMachine::new();
    sm.apply_proposal(ProposalData::CreateVm(VmCommand::Start { name: "ghost".to_string() })).unwrap();
    assert!(sm.vms.entries.is_empty());
}

#[test]
fn task_assignment_and_completion() {
    let mut sm = StateMachine::new();
    sm.apply_proposal(ProposalData::AssignTask { task_id: "t1".to_string(), node_id: 2, task: task(1, 128) })
        .unwrap();
    assert_eq!(sm.task_assignments.get(&"t1".to_string()).unwrap().1, 2);
    let result = TaskResult { success: true, output: "hi".to_string(), error: None, execution_time_ms: 5 };
    sm.apply_proposal(ProposalData::CompleteTask { task_id: "t1".to_string(), result }).unwrap();
    assert!(sm.task_assignments.get(&"t1".to_string()).is_none());
    assert!(sm.task_results.get(&"t1".to_string()).unwrap().1.success);
    assert!(sm.tasks.contains(&"t1".to_string()));
}

#[test]
fn batch_applies_in_order() {
    let mut sm = StateMachine::new();
    let batch = ProposalData::Batch(vec![
        register(1, 4, 8192),
        ProposalData::CreateVm(VmCommand::Create { config: vm_config("a", 1, 256), node_id: 1 }),
        ProposalData::CreateVm(VmCommand::Start { name: "a".to_string() }),
    ]);
    sm.apply_proposal(batch).unwrap();
    assert!(sm.workers.contains(&1));
    assert_eq!(vm_status(&sm, "a"), Some((VmStatus::Starting, 1)));
}

#[test]
fn nested_batch_is_refused_after_earlier_steps() {
    let mut sm = StateMachine::new();
    let batch = ProposalData::Batch(vec![register(1, 4, 8192), ProposalData::Batch(vec![]), register(2, 4, 8192)]);
    let r = sm.apply_proposal(batch);
    assert_eq!(
        r,
        Err(BlixardError::Internal { message: "Nested batch proposals are not supported" })
    );
    assert!(sm.workers.contains(&1));
    assert!(!sm.workers.contains(&2));
}

#[test]
fn admission_refuses_vm_that_does_not_fit() {
    let mut sm = StateMachine::new();
    sm.configure_admission_controller(AdmissionControlConfig {
        strict_mode: true,
        default_overcommit_policy: OvercommitPolicy::conservative(),
        preemptible_discount_permille: 1000,
        enable_system_reserve: false,
    });
    sm.apply_proposal(register(1, 4, 8192)).unwrap();
    let too_big = ProposalData::CreateVm(VmCommand::Create { config: vm_config("big", 5, 1024), node_id: 1 });
    assert!(matches!(sm.apply_proposal(too_big), Err(BlixardError::InsufficientResources { .. })));
    assert!(sm.vms.entries.is_empty());
    let fits = ProposalData::CreateVm(VmCommand::Create { config: vm_config("small", 2, 1024), node_id: 1 });
    sm.apply_proposal(fits).unwrap();
    assert_eq!(vm_status(&sm, "small"), Some((VmStatus::Created, 1)));
    let unknown = ProposalData::CreateVm(VmCommand::Create { config: vm_config("x", 1, 128), node_id: 9 });
    assert_eq!(sm.apply_proposal(unknown), Err(BlixardError::NodeNotFound { node_id: 9 }));
}

#[test]
fn scheduling_picks_an_eligible_worker() {
    let mut sm = StateMachine::new();
    assert_eq!(
        sm.schedule_task("t", &task(1, 128)),
        Err(BlixardError::Internal { message: "No available workers found for task" })
    );
    sm.apply_proposal(register(1, 2, 1024)).unwrap();
    sm.apply_proposal(register(2, 8, 16384)).unwrap();
    sm.apply_proposal(register(3, 8, 16384)).unwrap();
    sm.apply_proposal(ProposalData::UpdateWorkerStatus { node_id: 3, status: WorkerStatus::Offline }).unwrap();
    assert_eq!(sm.eligible_workers(&task(4, 4096)), vec![2]);
    assert_eq!(sm.schedule_task("t", &task(4, 4096)), Ok(2));
    let w = sm.schedule_task("other", &task(1, 128)).unwrap();
    assert!(w == 1 || w == 2);
}

#[test]
fn worker_pick_uses_hash_remainder() {
    assert_eq!(pick_worker(&vec![], 7), None);
    assert_eq!(pick_worker(&vec![10, 20, 30], 7), Some(20));
    assert_eq!(pick_worker(&vec![10, 20, 30], 9), Some(10));
}

#[test]
fn ip_allocation_is_recorded_once() {
    let mut sm = StateMachine::new();
    sm.record_ip_allocation(3, "10.0.0.5".to_string(), "vm-1".to_string());
    sm.record_ip_allocation(3, "10.0.0.5".to_string(), "vm-1".to_string());
    sm.record_ip_allocation(3, "10.0.0.6".to_string(), "vm-1".to_string());
    assert_eq!(sm.vm_ips.get(&"vm-1".to_string()).unwrap().1, vec!["10.0.0.5".to_string(), "10.0.0.6".to_string()]);
    assert_eq!(sm.ip_allocations.get(&"3:10.0.0.5".to_string()).unwrap().1, "vm-1");
    sm.apply_proposal(ProposalData::ReleaseVmIps { vm_id: VmId("vm-1".to_string()) }).unwrap();
    assert!(sm.vm_ips.get(&"vm-1".to_string()).is_none());
}

#[test]
fn uuid_text_form() {
    let bytes: Vec<u8> = vec![
        0x67, 0xe5, 0x50, 0x44, 0x10, 0xb1, 0x42, 0x6f, 0x92, 0x47, 0xbb, 0x68, 0x0e, 0x5f, 0xe0, 0xc8,
    ];
    assert_eq!(uuid_to_text(&bytes), "67e55044-10b1-426f-9247-bb680e5fe0c8");
    let a = new_uuid_text();
    let b = new_uuid_text();
    assert_eq!(a.len(), 36);
    assert_ne!(a, b);
}

#[test]
fn log_compaction_decisions() {
    assert!(!should_compact(1000, None));
    assert!(should_compact(1001, None));
    assert!(!should_compact(1400, Some(1000)));
    assert!(should_compact(1501, Some(1000)));
    assert_eq!(keys_to_compact(&vec![5, 1, 9, 3, 7], 6), vec![5, 1, 3]);
    assert!(keys_to_compact(&vec![1, 2], 0).is_empty());
}

#[test]
fn same_task_goes_to_same_worker() {
    let mut sm = StateMachine::new();
    for id in 1..=5 {
        sm.apply_proposal(register(id, 8, 16384)).unwrap();
    }
    let first = sm.schedule_task("task-42", &task(1, 128)).unwrap();
    for _ in 0..10 {
        assert_eq!(sm.schedule_task("task-42", &task(1, 128)).unwrap(), first);
    }
    let eligible = sm.eligible_workers(&task(1, 128));
    assert_eq!(eligible.len(), 5);
    assert!(eligible.contains(&first));
}

#[test]
fn ip_allocation_outcomes_are_recorded() {
    let mut sm = StateMachine::new();
    assert_eq!(sm.apply_ip_allocation_outcome(None), Ok(()));
    assert!(sm.ip_allocations.entries.is_empty());
    assert_eq!(sm.apply_ip_allocation_outcome(Some((7, "10.0.0.5".to_string(), "vm-1".to_string()))), Ok(()));
    assert_eq!(sm.ip_allocations.get(&"7:10.0.0.5".to_string()).unwrap().1, "vm-1");
    assert_eq!(sm.vm_ips.get(&"vm-1".to_string()).unwrap().1, vec!["10.0.0.5".to_string()]);
    // The same address again is not listed twice.
    sm.apply_ip_allocation_outcome(Some((7, "10.0.0.5".to_string(), "vm-1".to_string()))).unwrap();
    assert_eq!(sm.vm_ips.get(&"vm-1".to_string()).unwrap().1.len(), 1);
}
