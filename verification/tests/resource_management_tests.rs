use blixard_core::error::BlixardError;
use blixard_core::resource_management::{
    ClusterResourceManager, NodeResourceState, OvercommitPolicy, ResourceReservation,
};

#[test]
fn test_overcommit_policy() {
    let conservative = OvercommitPolicy::conservative();
    assert_eq!(conservative.cpu_overcommit_permille, 1000);

    let moderate = OvercommitPolicy::moderate();
    assert_eq!(moderate.cpu_overcommit_permille, 2000);

    let aggressive = OvercommitPolicy::aggressive();
    assert_eq!(aggressive.cpu_overcommit_permille, 4000);
}

#[test]
fn test_effective_capacity() {
    let state = NodeResourceState::new(10, 16384, 100, OvercommitPolicy::moderate());
    let (cpu, memory, disk) = state.effective_capacity();
    assert_eq!(cpu, 17);
    assert_eq!(memory, 16711);
    assert_eq!(disk, 93);
}

#[test]
fn test_resource_allocation() {
    let mut state = NodeResourceState::new(10, 16384, 100, OvercommitPolicy::default());
    assert!(state.can_allocate(4, 8192, 50));
    state.allocate(4, 8192, 50).expect("allocation fits");
    let (cpu, memory, disk) = state.available_resources();
    assert_eq!(cpu, 5);
    assert_eq!(memory, 6553);
    assert_eq!(disk, 40);
    assert!(!state.can_allocate(10, 10000, 50));
}

fn reservation(id: &str, cpu: u32, memory: u64, disk: u64, hard: bool, expires: Option<i64>) -> ResourceReservation {
    ResourceReservation {
        id: id.to_string(),
        owner: "system".to_string(),
        cpu_cores: cpu,
        memory_mb: memory,
        disk_gb: disk,
        priority: 100,
        is_hard: hard,
        expires_at_ms: expires,
    }
}

#[test]
fn test_reservations() {
    let mut state = NodeResourceState::new(10, 16384, 100, OvercommitPolicy::default());
    let r = reservation("test-res", 2, 4096, 10, true, None);
    state.add_reservation(r.clone()).unwrap();
    assert_eq!(state.reservations.len(), 1);
    let (cpu, _memory, _disk) = state.available_resources();
    assert_eq!(cpu, 7);
    let removed = state.remove_reservation("test-res").unwrap();
    assert_eq!(removed.id, r.id);
    assert_eq!(state.reservations.len(), 0);
    let (cpu, _memory, _disk) = state.available_resources();
    assert_eq!(cpu, 9);
}

#[test]
fn allocation_refused_reports_request_and_availability() {
    let mut state = NodeResourceState::new(10, 16384, 100, OvercommitPolicy::default());
    match state.allocate(10, 100, 1) {
        Err(BlixardError::InsufficientResources {
            requested_cpu,
            available_cpu,
            available_memory_mb,
            available_disk_gb,
            ..
        }) => {
            assert_eq!(requested_cpu, 10);
            assert_eq!(available_cpu, 9);
            assert_eq!(available_memory_mb, 14745);
            assert_eq!(available_disk_gb, 90);
        }
        _ => panic!("expected a refusal"),
    }
    assert_eq!(state.allocated_resources.cpu_cores, 0);
}

#[test]
fn release_undoes_allocate() {
    let mut state = NodeResourceState::new(8, 8192, 100, OvercommitPolicy::conservative());
    let before = state.allocated_resources;
    state.allocate(3, 1024, 10).unwrap();
    state.release(3, 1024, 10);
    assert_eq!(state.allocated_resources, before);
    // Releasing more than is allocated floors at zero.
    state.release(100, 100, 100);
    assert_eq!(state.allocated_resources.cpu_cores, 0);
}

#[test]
fn reservation_round_trip_restores_state() {
    let mut state = NodeResourceState::new(16, 32768, 500, OvercommitPolicy::moderate());
    state.allocate(2, 2048, 20).unwrap();
    let before = state.allocated_resources;
    state.add_reservation(reservation("r1", 1, 512, 5, false, None)).unwrap();
    assert!(state.remove_reservation("r1").is_some());
    assert_eq!(state.allocated_resources, before);
    assert!(state.remove_reservation("r1").is_none());
}

#[test]
fn hard_reservation_that_does_not_fit_is_refused() {
    let mut state = NodeResourceState::new(2, 1024, 10, OvercommitPolicy::conservative());
    let r = state.add_reservation(reservation("big", 5, 10, 1, true, None));
    assert!(matches!(r, Err(BlixardError::InsufficientResources { .. })));
    assert_eq!(state.reservations.len(), 0);
}

#[test]
fn expired_reservations_are_cleaned_up() {
    let mut state = NodeResourceState::new(10, 16384, 100, OvercommitPolicy::default());
    state.add_reservation(reservation("old", 1, 100, 1, true, Some(1_000))).unwrap();
    state.add_reservation(reservation("new", 2, 200, 2, true, Some(5_000))).unwrap();
    state.add_reservation(reservation("forever", 3, 300, 3, true, None)).unwrap();
    state.cleanup_expired_reservations_at(2_000);
    assert_eq!(state.reservations.len(), 2);
    assert_eq!(state.allocated_resources.cpu_cores, 5);
    assert_eq!(state.allocated_resources.memory_mb, 500);
    assert_eq!(state.allocated_resources.disk_gb, 5);
}

#[test]
fn overcommit_detection_and_aggressive_reserve() {
    let state = NodeResourceState::new(10, 1000, 100, OvercommitPolicy::aggressive());
    let (cpu, memory, disk) = state.effective_capacity();
    assert_eq!(cpu, 38);
    assert_eq!(memory, 1425);
    assert_eq!(disk, 123);
    assert!(!state.is_overcommitted());
}

#[test]
fn cluster_manager_tracks_nodes() {
    let mut m = ClusterResourceManager::new(OvercommitPolicy::conservative());
    m.register_node(1, 8, 8192, 100);
    m.register_node(2, 2, 1024, 10);
    assert!(m.get_node_state(1).is_some());
    assert!(m.get_node_state(3).is_none());
    let fits = m.find_nodes_with_capacity(4, 1024, 10);
    assert_eq!(fits, vec![1]);
    let summary = m.cluster_summary();
    assert_eq!(summary.node_count, 2);
    assert_eq!(summary.total_physical.cpu_cores, 10);
    assert!(m.update_node_policy(3, OvercommitPolicy::moderate()).is_err());
    assert!(m.update_node_policy(2, OvercommitPolicy::moderate()).is_ok());
}
