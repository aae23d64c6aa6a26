use blixard_core::batching::{estimate_proposal_size, BatchAccumulator, BatchConfig};
use blixard_core::error::BlixardError;
use blixard_core::proposals::{
    create_batch_proposal, validate_task_spec, BatchProposalBuilder, OptimizedProposalBuilder,
    OptimizedProposalProcessor, ProposalData, ResourceRequirements, TaskSpec, WorkerCapabilities,
    WorkerStatus,
};
use blixard_core::types::{NodeTopology, VmCommand, VmConfig, VmStatus};

fn topology() -> NodeTopology {
    NodeTopology { datacenter: String::new(), zone: String::new(), rack: String::new() }
}

#[test]
fn test_validate_task_spec() {
    let valid_spec = TaskSpec {
        command: "echo".to_string(),
        args: vec!["hello".to_string()],
        resources: ResourceRequirements { cpu_cores: 1, memory_mb: 100, disk_gb: 1, required_features: vec![] },
        timeout_secs: 30,
    };
    assert!(validate_task_spec(&valid_spec).is_ok());

    let mut invalid_spec = valid_spec.clone();
    invalid_spec.command = String::new();
    assert!(validate_task_spec(&invalid_spec).is_err());

    let mut invalid_spec = valid_spec.clone();
    invalid_spec.resources.cpu_cores = 0;
    assert!(validate_task_spec(&invalid_spec).is_err());

    let mut invalid_spec = valid_spec.clone();
    invalid_spec.resources.memory_mb = 0;
    assert!(validate_task_spec(&invalid_spec).is_err());

    let mut invalid_spec = valid_spec.clone();
    invalid_spec.timeout_secs = 0;
    assert!(validate_task_spec(&invalid_spec).is_err());
}

#[test]
fn task_spec_errors_name_the_field() {
    let mut spec = TaskSpec {
        command: String::new(),
        args: vec![],
        resources: ResourceRequirements { cpu_cores: 0, memory_mb: 0, disk_gb: 0, required_features: vec![] },
        timeout_secs: 0,
    };
    assert!(matches!(validate_task_spec(&spec), Err(BlixardError::Validation { field: "command", .. })));
    spec.command = "run".to_string();
    assert!(matches!(validate_task_spec(&spec), Err(BlixardError::Validation { field: "cpu_cores", .. })));
    spec.resources.cpu_cores = 1;
    assert!(matches!(validate_task_spec(&spec), Err(BlixardError::Validation { field: "memory_mb", .. })));
    spec.resources.memory_mb = 1;
    assert!(matches!(validate_task_spec(&spec), Err(BlixardError::Validation { field: "timeout_secs", .. })));
}

#[test]
fn test_create_batch_proposal() {
    let proposals = vec![
        ProposalData::RegisterWorker {
            node_id: 1,
            address: "localhost:8080".to_string(),
            capabilities: WorkerCapabilities { cpu_cores: 4, memory_mb: 8192, disk_gb: 0, features: vec![] },
            topology: topology(),
        },
        ProposalData::RegisterWorker {
            node_id: 2,
            address: "localhost:8081".to_string(),
            capabilities: WorkerCapabilities { cpu_cores: 2, memory_mb: 4096, disk_gb: 0, features: vec![] },
            topology: topology(),
        },
    ];

    let batch = create_batch_proposal(proposals.clone()).unwrap();
    match batch {
        ProposalData::Batch(batch_proposals) => {
            assert_eq!(batch_proposals.len(), 2);
        }
        _ => panic!("Expected batch proposal"),
    }

    assert!(create_batch_proposal(vec![]).is_err());

    let nested_batch = vec![ProposalData::Batch(proposals)];
    assert!(create_batch_proposal(nested_batch).is_err());
}

#[test]
fn test_proposal_processor_deduplication() {
    let mut processor = OptimizedProposalProcessor::new();
    let commands = vec![
        VmCommand::Start { name: "vm1".to_string() },
        VmCommand::Start { name: "vm1".to_string() },
        VmCommand::Start { name: "vm2".to_string() },
        VmCommand::Stop { name: "vm1".to_string() },
    ];
    let proposals = processor.batch_vm_commands(commands);
    assert_eq!(proposals.len(), 3);
}

#[test]
fn deduplication_keeps_other_commands() {
    let mut processor = OptimizedProposalProcessor::new();
    let commands = vec![
        VmCommand::Delete { name: "vm1".to_string() },
        VmCommand::Delete { name: "vm1".to_string() },
        VmCommand::Stop { name: "vm1".to_string() },
        VmCommand::Stop { name: "vm1".to_string() },
    ];
    let proposals = processor.batch_vm_commands(commands);
    assert_eq!(proposals.len(), 3);
    assert!(proposals.iter().all(|p| p.proposal_type() == "vm_operation"));
}

#[test]
fn test_optimized_proposal_builder() {
    let mut builder = OptimizedProposalBuilder::new(1);
    assert_eq!(builder.node_prefix, "node-1");
    let proposal = builder.create_vm_status_update("test-vm", VmStatus::Running, 1);
    assert_eq!(proposal.id.len(), 16);
    match proposal.data {
        ProposalData::UpdateVmStatus { vm_name, status, .. } => {
            assert_eq!(vm_name, "test-vm");
            assert_eq!(status, VmStatus::Running);
        }
        _ => panic!("Wrong proposal type"),
    }
}

#[test]
fn proposal_kinds() {
    let create = ProposalData::CreateVm(VmCommand::Create {
        config: VmConfig { name: "a".to_string(), vcpus: 1, memory: 512, preemptible: false, priority: 1, tenant_id: None },
        node_id: 1,
    });
    assert_eq!(create.proposal_type(), "vm_operation");
    assert!(create.requires_admission_control());
    assert!(create.modifies_resources());
    let start = ProposalData::CreateVm(VmCommand::Start { name: "a".to_string() });
    assert!(!start.requires_admission_control());
    let status = ProposalData::UpdateWorkerStatus { node_id: 1, status: WorkerStatus::Busy };
    assert!(!status.modifies_resources());
    assert_eq!(status.proposal_type(), "update_worker_status");
    let batch = BatchProposalBuilder::new().add(status.clone()).add(ProposalData::RemoveWorker { node_id: 3 }).build();
    assert!(batch.modifies_resources());
    assert_eq!(batch.proposal_type(), "batch");
    let quiet = BatchProposalBuilder::new().add(status).build();
    assert!(!quiet.modifies_resources());
}

#[test]
fn worker_status_bytes() {
    assert_eq!(WorkerStatus::try_from_u8(0).unwrap(), WorkerStatus::Online);
    assert_eq!(WorkerStatus::try_from_u8(3).unwrap(), WorkerStatus::Failed);
    assert!(matches!(WorkerStatus::try_from_u8(4), Err(BlixardError::Internal { .. })));
    assert_eq!(WorkerStatus::Offline.as_u8(), 2);
}

#[test]
fn batch_config_defaults() {
    let c = BatchConfig::default();
    assert_eq!(c.max_batch_size, 100);
    assert_eq!(c.batch_timeout_ms, 10);
    assert_eq!(c.max_batch_bytes, 1024 * 1024);
    assert!(c.enabled);
    assert_eq!(estimate_proposal_size(100, 16), 180);
}

#[test]
fn batches_cut_at_size_limit_in_order() {
    let config = BatchConfig { max_batch_size: 3, batch_timeout_ms: 10, max_batch_bytes: 1000, enabled: true };
    let mut acc: BatchAccumulator<u32> = BatchAccumulator::new(config, 0);
    assert!(acc.add(1, 10, 0).is_none());
    assert!(acc.add(2, 10, 1).is_none());
    assert_eq!(acc.add(3, 10, 2), Some(vec![1, 2, 3]));
    assert!(acc.add(4, 10, 3).is_none());
    // A proposal that would pass the byte limit starts a new batch.
    assert_eq!(acc.add(5, 995, 4), Some(vec![4]));
    assert_eq!(acc.batch.items, vec![5]);
    assert!(acc.tick(5).is_none());
    assert_eq!(acc.tick(14), Some(vec![5]));
    assert!(acc.drain(20).is_none());
}

#[test]
fn builder_keeps_every_addition_in_order() {
    let ps: Vec<ProposalData> = (0..7u64).map(|n| ProposalData::RemoveWorker { node_id: n }).collect();
    let mut b = BatchProposalBuilder::new();
    for p in ps.iter() {
        b = b.add(p.clone());
    }
    match b.build() {
        ProposalData::Batch(v) => {
            assert_eq!(v.len(), 7);
            for (i, p) in v.iter().enumerate() {
                assert!(matches!(p, ProposalData::RemoveWorker { node_id } if *node_id == i as u64));
            }
        }
        _ => panic!("not a batch"),
    }
}
