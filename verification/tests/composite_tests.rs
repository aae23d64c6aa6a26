use blixard_core::composite::{create_standard_composite_manager, CompositeResourceManager};
use blixard_core::error::BlixardError;
use blixard_core::factory::{create_cpu_manager, create_memory_manager, ManagedResource};
use blixard_core::membership::{check_can_propose, raft_change_code, Membership};
use blixard_core::messages::ConfChangeType;
use blixard_core::resource_manager::{ResourceAllocationRequest, ResourceManagerHealth, ResourceType};

fn request(resource_type: ResourceType, amount: u64) -> ResourceAllocationRequest {
    ResourceAllocationRequest {
        request_id: "req".to_string(),
        tenant_id: "tenant-1".to_string(),
        resource_type,
        amount,
        priority: 100,
        is_temporary: false,
        expires_at_ms: None,
        metadata: vec![],
    }
}

#[test]
fn test_composite_resource_manager_creation() {
    let composite = CompositeResourceManager::new();
    assert_eq!(composite.resource_type(), ResourceType::Custom("composite".to_string()));
    assert_eq!(composite.get_resource_types().len(), 0);
    assert!(!composite.is_running());
}

#[test]
fn test_standard_composite_manager_creation() {
    let composite = create_standard_composite_manager(8192, 4).unwrap();
    let resource_types = composite.get_resource_types();
    assert_eq!(resource_types.len(), 2);
    assert!(resource_types.contains(&ResourceType::Memory));
    assert!(resource_types.contains(&ResourceType::Cpu));
}

#[test]
fn composite_dispatches_by_type() {
    let mut composite = CompositeResourceManager::new();
    composite.add_manager(ResourceType::Memory, ManagedResource::Memory(create_memory_manager(4096)));
    composite.add_manager(ResourceType::Cpu, ManagedResource::Cpu(create_cpu_manager(4)));
    let a = composite.allocate(request(ResourceType::Memory, 1024)).unwrap();
    assert_eq!(a.allocated_amount, 1024);
    assert_eq!(composite.check_availability(&request(ResourceType::Cpu, 2)), Ok(true));
    assert_eq!(composite.check_availability(&request(ResourceType::Disk, 2)), Ok(false));
    match composite.allocate(request(ResourceType::Disk, 1)) {
        Err(BlixardError::ResourceUnavailable { resource_type, message }) => {
            assert_eq!(resource_type, "disk");
            assert_eq!(message, "No manager available for resource type");
        }
        other => panic!("unexpected {:?}", other.is_ok()),
    }
    let usage = composite.get_usage_at(5);
    assert_eq!(usage.total_capacity, 4096 + 4);
    assert_eq!(usage.allocated_amount, 1024);
    assert_eq!(usage.allocation_count, 1);
    assert_eq!(usage.updated_at_ms, 5);
}

#[test]
fn composite_passes_cpu_requests_to_the_cpu_manager() {
    let mut composite = CompositeResourceManager::new();
    composite.add_manager(ResourceType::Cpu, ManagedResource::Cpu(create_cpu_manager(4)));
    let a = composite.allocate(request(ResourceType::Cpu, 3)).unwrap();
    assert_eq!(a.allocated_amount, 3);
    assert_eq!(a.allocated_on, Some("cpu".to_string()));
    assert!(a.allocation_id.starts_with("cpu-tenant-1-"));
    match composite.allocate(request(ResourceType::Cpu, 5)) {
        Err(BlixardError::InsufficientResources { .. }) => {}
        other => panic!("unexpected {:?}", other.is_ok()),
    }
}

#[test]
fn composite_lifecycle_and_health() {
    let mut composite = create_standard_composite_manager(8192, 4).unwrap();
    assert!(!composite.is_running());
    assert!(matches!(composite.health_check(), ResourceManagerHealth::Unhealthy(ref m) if m == "2 of 2 managers unhealthy"));
    composite.start();
    assert!(composite.is_running());
    assert_eq!(composite.health_check(), ResourceManagerHealth::Healthy);
    composite.remove_manager(&ResourceType::Cpu).unwrap();
    assert_eq!(composite.get_resource_types(), vec![ResourceType::Memory]);
    composite.stop();
    assert!(!composite.is_running());
}

#[test]
fn only_leader_proposes_membership_changes() {
    assert_eq!(check_can_propose(true, 1), Ok(()));
    assert_eq!(
        check_can_propose(false, 3),
        Err(BlixardError::NotLeader { operation: "propose configuration change", leader_id: Some(3) })
    );
    assert_eq!(
        check_can_propose(false, 0),
        Err(BlixardError::NotLeader { operation: "propose configuration change", leader_id: None })
    );
    assert_eq!(raft_change_code(ConfChangeType::AddNode), 0);
    assert_eq!(raft_change_code(ConfChangeType::RemoveNode), 1);
}

#[test]
fn peers_follow_committed_changes() {
    let mut m = Membership::new(1);
    assert!(m.is_single_node_cluster(&vec![1]));
    assert!(!m.is_single_node_cluster(&vec![1, 2]));
    assert!(!m.apply_conf_change(0, 2, Some("10.0.0.2:7001".to_string())));
    assert_eq!(m.peers.get(&2).unwrap().1, "10.0.0.2:7001");
    assert!(m.needs_replication_trigger());
    assert!(!m.needs_replication_trigger());
    m.apply_conf_change(0, 3, None);
    assert!(!m.peers.contains(&3));
    assert!(!m.apply_conf_change(1, 2, None));
    assert!(!m.peers.contains(&2));
    assert!(m.apply_conf_change(1, 1, None));
    m.handle_successful_node_addition(4, "a".to_string());
    m.update_peer_address(4, "b".to_string());
    assert_eq!(m.peers.get(&4).unwrap().1, "b");
    m.remove_peer(4);
    assert!(m.peers.entries.is_empty());
}

#[test]
fn conf_change_answers_follow_the_proposal() {
    let mut m = Membership::new(1);
    assert_eq!(
        m.conf_change_outcome(false, 3, ConfChangeType::AddNode, 2, "a:1".to_string(), false, Ok(())),
        Err(BlixardError::NotLeader { operation: "propose configuration change", leader_id: Some(3) })
    );
    assert!(m.get_peers().is_empty());
    let failed = Err(BlixardError::Internal { message: "consensus operation failed" });
    assert_eq!(m.conf_change_outcome(true, 1, ConfChangeType::AddNode, 2, "a:1".to_string(), false, failed.clone()), failed);
    assert!(m.get_peers().is_empty());
    assert_eq!(m.conf_change_outcome(true, 1, ConfChangeType::AddNode, 2, "a:1".to_string(), false, Ok(())), Ok(()));
    assert_eq!(m.get_peers(), vec![(2, "a:1".to_string())]);
    // A removal is proposed and answered, but only applied at once in a single-node cluster.
    assert_eq!(m.conf_change_outcome(true, 1, ConfChangeType::RemoveNode, 2, String::new(), false, Ok(())), Ok(()));
    assert_eq!(m.get_peers().len(), 1);
    assert_eq!(m.conf_change_outcome(true, 1, ConfChangeType::RemoveNode, 2, String::new(), true, Ok(())), Ok(()));
    assert!(m.get_peers().is_empty());
}
