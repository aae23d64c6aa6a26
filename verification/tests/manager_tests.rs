use blixard_core::cpu_cores::CpuSchedulingPolicy;
use blixard_core::cpu_manager::CpuResourceManager;
use blixard_core::error::BlixardError;
use blixard_core::memory_manager::MemoryResourceManager;
use blixard_core::resource_manager::{AllocationStatus, ResourceAllocationRequest, ResourceManagerHealth, ResourceType};

fn request(id: &str, resource_type: ResourceType, amount: u64, metadata: Vec<(String, String)>) -> ResourceAllocationRequest {
    ResourceAllocationRequest {
        request_id: id.to_string(),
        tenant_id: "tenant-1".to_string(),
        resource_type,
        amount,
        priority: 100,
        is_temporary: false,
        expires_at_ms: None,
        metadata,
    }
}

#[test]
fn test_cpu_manager_creation() {
    let manager = CpuResourceManager::builder(8).with_overcommit(2000).with_scheduling_policy(CpuSchedulingPolicy::BestFit).build();
    assert_eq!(manager.resource_type(), ResourceType::Cpu);
    assert_eq!(manager.total_cores, 8);
    assert_eq!(manager.scheduling_policy, CpuSchedulingPolicy::BestFit);
}

#[test]
fn test_cpu_allocation_and_deallocation() {
    let mut manager = CpuResourceManager::builder(4).build();
    manager.initialize();
    let allocation = manager.allocate(request("test-req-1", ResourceType::Cpu, 2, vec![])).unwrap();
    assert_eq!(allocation.allocated_amount, 2);
    assert_eq!(allocation.status, AllocationStatus::Active);
    let usage = manager.get_usage();
    assert_eq!(usage.allocated_amount, 2);
    assert_eq!(usage.allocation_count, 1);
    manager.deallocate(&allocation.allocation_id).unwrap();
    let usage_after = manager.get_usage();
    assert_eq!(usage_after.allocated_amount, 0);
    assert_eq!(usage_after.allocation_count, 0);
}

#[test]
fn test_exclusive_cpu_allocation() {
    let mut manager = CpuResourceManager::builder(4).build();
    manager.initialize();
    let metadata = vec![("exclusive".to_string(), "true".to_string())];
    let allocation = manager.allocate(request("test-req-exclusive", ResourceType::Cpu, 2, metadata)).unwrap();
    assert_eq!(allocation.allocated_amount, 2);
    let exclusive_count = manager.core_usage.iter().filter(|c| c.exclusive).count();
    assert_eq!(exclusive_count, 2);
}

#[test]
fn test_cpu_overallocation_rejection() {
    let mut manager = CpuResourceManager::builder(2).build();
    manager.initialize();
    let result = manager.allocate(request("test-req-large", ResourceType::Cpu, 5, vec![]));
    assert!(matches!(result, Err(BlixardError::InsufficientResources { .. })));
    assert_eq!(manager.allocations.len(), 0);
}

#[test]
fn cpu_refusal_leaves_usage_and_cores_alone() {
    let mut manager = CpuResourceManager::builder(2).build();
    manager.initialize();
    let before = manager.get_usage();
    let cores_before: Vec<(u32, bool)> = manager.core_usage.iter().map(|c| (c.allocated_vcpus, c.exclusive)).collect();
    assert!(manager.allocate(request("too-many", ResourceType::Cpu, 5, vec![])).is_err());
    let after = manager.get_usage();
    assert_eq!(after.allocated_amount, before.allocated_amount);
    assert_eq!(after.allocation_count, before.allocation_count);
    let cores_after: Vec<(u32, bool)> = manager.core_usage.iter().map(|c| (c.allocated_vcpus, c.exclusive)).collect();
    assert_eq!(cores_after, cores_before);
    assert_eq!(manager.state.total_allocations, 0);
}

#[test]
fn test_memory_manager_creation() {
    let manager = MemoryResourceManager::builder().with_capacity(8192).with_overcommit(1500).build();
    assert_eq!(manager.resource_type(), ResourceType::Memory);
    assert_eq!(manager.config.limits.hard_limit, 8192);
    assert_eq!(manager.config.limits.overcommit_permille, 1500);
}

#[test]
fn test_memory_allocation_and_deallocation() {
    let mut manager = MemoryResourceManager::builder().with_capacity(1024).build();
    manager.initialize();
    let allocation = manager.allocate(request("test-req-1", ResourceType::Memory, 512, vec![])).unwrap();
    assert_eq!(allocation.allocated_amount, 512);
    assert_eq!(allocation.status, AllocationStatus::Active);
    let usage = manager.get_usage();
    assert_eq!(usage.allocated_amount, 512);
    assert_eq!(usage.allocation_count, 1);
    manager.deallocate(&allocation.allocation_id, 800).unwrap();
    let usage_after = manager.get_usage();
    assert_eq!(usage_after.allocated_amount, 0);
    assert_eq!(usage_after.allocation_count, 0);
}

#[test]
fn test_memory_overallocation_rejection() {
    let mut manager = MemoryResourceManager::builder().with_capacity(1024).build();
    manager.initialize();
    let result = manager.allocate(request("test-req-large", ResourceType::Memory, 2048, vec![]));
    assert!(matches!(result, Err(BlixardError::InsufficientResources { .. })));
}

#[test]
fn test_memory_manager_lifecycle() {
    let mut manager = MemoryResourceManager::builder().with_capacity(1024).with_monitoring(true, 100).build();
    manager.initialize();
    manager.start();
    assert!(manager.is_running());
    assert_eq!(manager.health_check(), ResourceManagerHealth::Healthy);
    manager.stop();
    assert!(!manager.is_running());
}

#[test]
fn test_memory_usage_calculations() {
    let mut manager = MemoryResourceManager::builder().with_capacity(1000).build();
    manager.initialize();
    let usage = manager.get_usage();
    assert_eq!(usage.used_amount, 0);
    assert_eq!(usage.allocated_amount, 0);
    assert!(!usage.is_overallocated());
}

#[test]
fn test_memory_manager_metrics() {
    let mut manager = MemoryResourceManager::builder().with_capacity(1024).build();
    manager.initialize();
    assert_eq!(manager.resource_type(), ResourceType::Memory);
    assert_eq!(manager.state.total_allocations, 0);
    assert_eq!(manager.state.failed_allocations, 0);
}
