use blixard_core::admission::AdmissionControlConfig;
use blixard_core::consensus::{should_bootstrap, should_propose_empty_entry, EventLoopConfig};
use blixard_core::error::BlixardError;
use blixard_core::messages::{BatchPriority, MessageType};
use blixard_core::proposals::WorkerCapabilities;
use blixard_core::rbac::{Permission, RbacManager};
use blixard_core::remediation_raft::RaftRole;
use blixard_core::resource_management::{ClusterResourceManager, OvercommitPolicy};
use blixard_core::types::{VmConfig, VmState, VmStatus};

#[test]
fn test_event_loop_config_default() {
    let config = EventLoopConfig::default();
    assert_eq!(config.tick_interval_ms, 100);
    assert_eq!(config.tick_log_interval, 50);
}

#[test]
fn test_should_bootstrap_with_no_peers_no_join_addr() {
    assert!(should_bootstrap(0, false));
}

#[test]
fn test_should_not_bootstrap_with_peers() {
    assert!(!should_bootstrap(2, false));
}

#[test]
fn joining_node_does_not_bootstrap() {
    assert!(!should_bootstrap(0, true));
}

#[test]
fn tick_logging_interval() {
    let config = EventLoopConfig::default();
    assert!(config.should_log_tick(0));
    assert!(config.should_log_tick(100));
    assert!(!config.should_log_tick(51));
    let silent = EventLoopConfig { tick_interval_ms: 100, tick_log_interval: 0 };
    assert!(!silent.should_log_tick(0));
}

#[test]
fn only_leader_proposes_empty_entry() {
    assert!(should_propose_empty_entry(RaftRole::Leader));
    assert!(!should_propose_empty_entry(RaftRole::Follower));
    assert!(!should_propose_empty_entry(RaftRole::Candidate));
}

#[test]
fn test_batch_priority_ordering() {
    assert!(BatchPriority::Election < BatchPriority::Heartbeat);
    assert!(BatchPriority::Heartbeat < BatchPriority::Normal);
    assert!(BatchPriority::Normal < BatchPriority::Snapshot);
}

#[test]
fn batch_priority_of_message_codes() {
    assert_eq!(BatchPriority::from_message_code(5), BatchPriority::Election);
    assert_eq!(BatchPriority::from_message_code(6), BatchPriority::Election);
    assert_eq!(BatchPriority::from_message_code(8), BatchPriority::Heartbeat);
    assert_eq!(BatchPriority::from_message_code(9), BatchPriority::Heartbeat);
    assert_eq!(BatchPriority::from_message_code(7), BatchPriority::Snapshot);
    assert_eq!(BatchPriority::from_message_code(3), BatchPriority::Normal);
}

#[test]
fn message_type_codes() {
    assert_eq!(MessageType::from_code(3), MessageType::Append);
    assert_eq!(MessageType::from_code(5), MessageType::Vote);
    assert_eq!(MessageType::from_code(7), MessageType::Snapshot);
    assert_eq!(MessageType::from_code(8), MessageType::Heartbeat);
    assert_eq!(MessageType::from_code(999), MessageType::Heartbeat);
}

#[test]
fn test_default_roles() {
    let mut rbac = RbacManager::new();

    // Admin should have all permissions
    rbac.assign_role("admin_user", "admin").unwrap();
    assert!(rbac.has_permission("admin_user", Permission::AdminAll));
    assert!(rbac.has_permission("admin_user", Permission::VmWrite));

    // Viewer should only have read permissions
    rbac.assign_role("viewer_user", "viewer").unwrap();
    assert!(rbac.has_permission("viewer_user", Permission::VmRead));
    assert!(!rbac.has_permission("viewer_user", Permission::VmWrite));
}

#[test]
fn unknown_role_and_user() {
    let mut rbac = RbacManager::new();
    match rbac.assign_role("u", "nope") {
        Err(BlixardError::NotFound { item }) => assert_eq!(item, "Role: nope"),
        other => panic!("unexpected {:?}", other),
    }
    assert!(!rbac.has_permission("nobody", Permission::VmRead));
}

#[test]
fn removed_role_no_longer_grants() {
    let mut rbac = RbacManager::new();
    rbac.assign_role("op", "operator").unwrap();
    assert!(rbac.has_permission("op", Permission::VmWrite));
    rbac.remove_role("op", "operator").unwrap();
    assert!(!rbac.has_permission("op", Permission::VmWrite));
}

#[test]
fn user_context_lists_roles_and_permissions() {
    let mut rbac = RbacManager::new();
    assert!(rbac.get_user_context("alice", "t1").is_none());
    rbac.assign_role("alice", "viewer").unwrap();
    let ctx = rbac.get_user_context("alice", "t1").unwrap();
    assert_eq!(ctx.user_id, "alice");
    assert_eq!(ctx.tenant_id, "t1");
    assert_eq!(ctx.roles, vec!["viewer".to_string()]);
    assert!(ctx.permissions.contains(&Permission::VmRead));
    assert!(!ctx.permissions.contains(&Permission::VmWrite));
}

fn vm(name: &str, vcpus: u32, memory: u32, preemptible: bool) -> VmConfig {
    VmConfig {
        name: name.to_string(),
        vcpus,
        memory,
        preemptible,
        priority: 100,
        tenant_id: None,
    }
}

fn worker(cpu_cores: u32, memory_mb: u64) -> WorkerCapabilities {
    WorkerCapabilities {
        cpu_cores,
        memory_mb,
        disk_gb: 100,
        features: vec!["microvm".to_string()],
    }
}

#[test]
fn test_admission_control_with_overcommit() {
    let config = AdmissionControlConfig {
        strict_mode: false,
        default_overcommit_policy: OvercommitPolicy::moderate(),
        preemptible_discount_permille: 500,
        enable_system_reserve: true,
    };
    let mut manager = ClusterResourceManager::new(config.default_overcommit_policy);
    let workers = vec![(1u64, worker(10, 16384))];
    let vms: Vec<VmState> = vec![];

    // 10 cores * 2.0 * 0.85 = 17 vCPUs, 16384 MB * 1.2 * 0.85 = 16711 MB
    let vm_config = vm("test-vm", 15, 16000, false);
    config
        .validate_vm_admission(&mut manager, &workers, &vms, &vm_config, 1)
        .unwrap();

    let preemptible_vm = vm("preemptible-vm", 4, 4096, true);
    config
        .validate_vm_admission(&mut manager, &workers, &vms, &preemptible_vm, 1)
        .unwrap();
}

#[test]
fn test_strict_admission_control() {
    let config = AdmissionControlConfig {
        strict_mode: true,
        default_overcommit_policy: OvercommitPolicy::conservative(),
        preemptible_discount_permille: 1000,
        enable_system_reserve: false,
    };
    let mut manager = ClusterResourceManager::new(config.default_overcommit_policy);
    let workers = vec![(1u64, worker(4, 8192))];
    let vms: Vec<VmState> = vec![];

    let vm_config = vm("test-vm", 5, 4096, false);
    let result = config.validate_vm_admission(&mut manager, &workers, &vms, &vm_config, 1);
    assert!(result.is_err());
    assert!(matches!(result.unwrap_err(), BlixardError::InsufficientResources { .. }));
}

#[test]
fn admission_to_unknown_node() {
    let config = AdmissionControlConfig::default();
    let mut manager = ClusterResourceManager::new(config.default_overcommit_policy);
    let workers = vec![(1u64, worker(4, 8192))];
    let vms: Vec<VmState> = vec![];
    let result = config.validate_vm_admission(&mut manager, &workers, &vms, &vm("x", 1, 128, false), 7);
    assert!(matches!(result, Err(BlixardError::NodeNotFound { node_id: 7 })));
}

#[test]
fn running_vms_take_capacity_in_admission() {
    let config = AdmissionControlConfig {
        strict_mode: true,
        default_overcommit_policy: OvercommitPolicy::conservative(),
        preemptible_discount_permille: 1000,
        enable_system_reserve: false,
    };
    let mut manager = ClusterResourceManager::new(config.default_overcommit_policy);
    let workers = vec![(1u64, worker(4, 8192))];
    let running = VmState {
        name: "a".to_string(),
        config: vm("a", 3, 1024, false),
        status: VmStatus::Running,
        node_id: 1,
    };
    let vms = vec![running];
    assert!(config
        .validate_vm_admission(&mut manager, &workers, &vms, &vm("b", 1, 1024, false), 1)
        .is_ok());
    assert!(config
        .validate_vm_admission(&mut manager, &workers, &vms, &vm("c", 2, 1024, false), 1)
        .is_err());
}

#[test]
fn removing_a_role_right_after_assigning_it_restores_permissions() {
    let mut rbac = RbacManager::new();
    rbac.assign_role("bob", "viewer").unwrap();
    let before = rbac.get_user_context("bob", "t").unwrap().roles;
    let could_write = rbac.has_permission("bob", Permission::VmWrite);
    rbac.assign_role("bob", "operator").unwrap();
    assert!(rbac.has_permission("bob", Permission::VmWrite));
    rbac.remove_role("bob", "operator").unwrap();
    assert_eq!(rbac.get_user_context("bob", "t").unwrap().roles, before);
    assert_eq!(rbac.has_permission("bob", Permission::VmWrite), could_write);
}
