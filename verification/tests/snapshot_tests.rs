use blixard_core::proposals::{ProposalData, ResourceRequirements, TaskSpec, WorkerCapabilities, WorkerStatus};
use blixard_core::snapshot::SnapshotData;
use blixard_core::state_machine::StateMachine;
use blixard_core::types::{NodeTopology, VmCommand, VmConfig, VmStatus};

fn populated() -> StateMachine {
    let mut sm = StateMachine::new();
    sm.apply_proposal(ProposalData::RegisterWorker {
        node_id: 1,
        address: "127.0.0.1:7001".to_string(),
        capabilities: WorkerCapabilities { cpu_cores: 8, memory_mb: 16384, disk_gb: 100, features: vec!["gpu".to_string()] },
        topology: NodeTopology { datacenter: "dc1".to_string(), zone: "z1".to_string(), rack: "r1".to_string() },
    })
    .unwrap();
    sm.apply_proposal(ProposalData::AssignTask {
        task_id: "t1".to_string(),
        node_id: 1,
        task: TaskSpec {
            command: "echo".to_string(),
            args: vec!["hi".to_string()],
            resources: ResourceRequirements { cpu_cores: 1, memory_mb: 64, disk_gb: 0, required_features: vec![] },
            timeout_secs: 5,
        },
    })
    .unwrap();
    sm.apply_proposal(ProposalData::CreateVm(VmCommand::Create {
        config: VmConfig { name: "vm1".to_string(), vcpus: 2, memory: 1024, preemptible: false, priority: 100, tenant_id: None },
        node_id: 1,
    }))
    .unwrap();
    sm
}

#[test]
fn applying_a_snapshot_gives_back_the_tables() {
    let source = populated();
    let snapshot = source.create_snapshot_data();
    assert_eq!(snapshot.vm_states.len(), 1);
    assert_eq!(snapshot.tasks.len(), 1);
    assert_eq!(snapshot.workers.len(), 1);

    let mut restored = StateMachine::new();
    restored.apply_snapshot(snapshot);
    let vm = restored.vms.get(&"vm1".to_string()).unwrap();
    assert_eq!(vm.status, VmStatus::Created);
    assert_eq!(vm.node_id, 1);
    assert_eq!(restored.tasks.get(&"t1".to_string()).unwrap().1.command, "echo");
    assert_eq!(restored.task_assignments.get(&"t1".to_string()).unwrap().1, 1);
    assert_eq!(restored.workers.get(&1).unwrap().1.features, vec!["gpu".to_string()]);
    assert_eq!(restored.worker_status.get(&1).unwrap().1, WorkerStatus::Online);
    assert_eq!(restored.worker_addresses.get(&1).unwrap().1, "127.0.0.1:7001");
}

#[test]
fn applying_a_snapshot_replaces_what_was_there() {
    let mut sm = populated();
    let empty = SnapshotData {
        vm_states: vec![],
        cluster_state: vec![],
        tasks: vec![],
        task_assignments: vec![("a".to_string(), 1), ("a".to_string(), 2)],
        task_results: vec![],
        workers: vec![],
        worker_addresses: vec![],
        worker_status: vec![],
        node_topology: vec![],
        ip_pools: vec![(7, vec![9, 9])],
        ip_allocations: vec![],
        vm_ip_mappings: vec![],
    };
    sm.apply_snapshot(empty);
    assert!(sm.vms.get(&"vm1".to_string()).is_none());
    assert!(sm.workers.get(&1).is_none());
    // A later entry with the same key wins.
    assert_eq!(sm.task_assignments.get(&"a".to_string()).unwrap().1, 2);
    assert_eq!(sm.task_assignments.entries.len(), 1);
    assert_eq!(sm.ip_pools.get(&7).unwrap().1, vec![9, 9]);
}

#[test]
fn snapshot_carries_address_pools() {
    let mut source = populated();
    source.apply_snapshot(SnapshotData {
        vm_states: vec![],
        cluster_state: vec![],
        tasks: vec![],
        task_assignments: vec![],
        task_results: vec![],
        workers: vec![],
        worker_addresses: vec![],
        worker_status: vec![],
        node_topology: vec![],
        ip_pools: vec![(3, vec![3]), (1, vec![1, 1])],
        ip_allocations: vec![],
        vm_ip_mappings: vec![],
    });
    let snapshot = source.create_snapshot_data();
    assert_eq!(snapshot.ip_pools, vec![(1, vec![1, 1]), (3, vec![3])]);

    let mut restored = StateMachine::new();
    restored.apply_snapshot(snapshot);
    assert_eq!(restored.ip_pools.get(&1).unwrap().1, vec![1, 1]);
    assert_eq!(restored.ip_pools.get(&3).unwrap().1, vec![3]);
    assert_eq!(restored.ip_pools.entries.len(), 2);
}

#[test]
fn applying_a_proposal_leaves_saved_configuration_alone() {
    let mut sm = populated();
    sm.save_conf_state(vec![4, 5]);
    sm.apply_proposal(ProposalData::AssignTask {
        task_id: "t2".to_string(),
        node_id: 1,
        task: TaskSpec {
            command: "ls".to_string(),
            args: vec![],
            resources: ResourceRequirements { cpu_cores: 1, memory_mb: 1, disk_gb: 0, required_features: vec![] },
            timeout_secs: 1,
        },
    })
    .unwrap();
    assert_eq!(sm.cluster_state.get(&"conf_state".to_string()).unwrap().1, vec![4, 5]);
    assert_eq!(sm.cluster_state.entries.len(), 1);
}

#[test]
fn snapshot_lists_keys_in_ascending_order() {
    let mut sm = populated();
    for (name, node) in [("vm-c", 1u64), ("vm-a", 1), ("vm-b", 1)] {
        sm.apply_proposal(ProposalData::CreateVm(VmCommand::Create {
            config: VmConfig { name: name.to_string(), vcpus: 1, memory: 128, preemptible: false, priority: 100, tenant_id: None },
            node_id: node,
        }))
        .unwrap();
    }
    sm.save_conf_state(vec![1, 2, 3]);
    let snapshot = sm.create_snapshot_data();
    let names: Vec<String> = snapshot.vm_states.iter().map(|v| v.name.clone()).collect();
    assert_eq!(names, vec!["vm-a", "vm-b", "vm-c", "vm1"]);
    assert_eq!(snapshot.cluster_state, vec![("conf_state".to_string(), vec![1, 2, 3])]);

    let mut restored = StateMachine::new();
    restored.apply_snapshot(snapshot);
    let again = restored.create_snapshot_data();
    let names_again: Vec<String> = again.vm_states.iter().map(|v| v.name.clone()).collect();
    assert_eq!(names_again, names);
    assert_eq!(again.cluster_state, vec![("conf_state".to_string(), vec![1, 2, 3])]);
}
