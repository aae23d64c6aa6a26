use blixard_core::cpu_cores::{find_available_cores, CoreUsage, CpuSchedulingPolicy};
use blixard_core::cpu_manager::CpuResourceManager;
use blixard_core::error::BlixardError;
use blixard_core::factory::{create_cpu_manager, create_memory_manager, DefaultResourceManagerFactory, ManagedResource};
use blixard_core::memory_manager::MemoryResourceManager;
use blixard_core::resource_manager::{
    aggregate_health, AllocationStatus, ResourceAllocationRequest, ResourceManagerConfigBuilder,
    ResourceManagerHealth, ResourceType, ResourceUsage,
};

#[test]
fn test_resource_type_display() {
    assert_eq!(ResourceType::Memory.to_string(), "memory");
    assert_eq!(ResourceType::Cpu.to_string(), "cpu");
    assert_eq!(ResourceType::Custom("test".to_string()).to_string(), "test");
}

#[test]
fn test_allocation_status() {
    assert!(AllocationStatus::Active == AllocationStatus::Active);
    assert!(AllocationStatus::Active != AllocationStatus::Reserved);
    match AllocationStatus::Failed("test error".to_string()) {
        AllocationStatus::Failed(msg) => assert_eq!(msg, "test error"),
        _ => panic!("Expected Failed status"),
    }
}

fn request(resource_type: ResourceType, amount: u64, tenant: &str) -> ResourceAllocationRequest {
    ResourceAllocationRequest {
        request_id: "req".to_string(),
        tenant_id: tenant.to_string(),
        resource_type,
        amount,
        priority: 100,
        is_temporary: false,
        expires_at_ms: None,
        metadata: vec![],
    }
}

#[test]
fn usage_overallocation() {
    let usage = ResourceUsage {
        resource_type: ResourceType::Memory,
        total_capacity: 1000,
        allocated_amount: 1001,
        used_amount: 0,
        allocation_count: 1,
        updated_at_ms: 0,
    };
    assert!(usage.is_overallocated());
}

#[test]
fn memory_manager_allocation_and_deallocation() {
    let mut manager = MemoryResourceManager::builder().with_capacity(1024).build();
    manager.initialize();
    let allocation = manager
        .allocate_at(request(ResourceType::Memory, 512, "tenant-1"), 42, 7, 800)
        .unwrap();
    assert_eq!(allocation.allocated_amount, 512);
    assert_eq!(allocation.allocation_id, "mem-tenant-1-42");
    assert!(allocation.status == AllocationStatus::Active);
    let usage = manager.get_usage();
    assert_eq!(usage.allocated_amount, 512);
    assert_eq!(usage.allocation_count, 1);
    assert_eq!(usage.used_amount, 409);
    manager.deallocate(&allocation.allocation_id, 800).unwrap();
    let usage = manager.get_usage();
    assert_eq!(usage.allocated_amount, 0);
    assert_eq!(usage.allocation_count, 0);
    assert!(matches!(
        manager.deallocate("missing", 800),
        Err(BlixardError::ResourceUnavailable { .. })
    ));
}

#[test]
fn memory_manager_overallocation_rejection() {
    let mut manager = MemoryResourceManager::builder().with_capacity(1024).build();
    manager.initialize();
    let r = manager.allocate(request(ResourceType::Memory, 2048, "tenant-1"));
    assert!(matches!(r, Err(BlixardError::InsufficientResources { .. })));
    let wrong = manager.allocate(request(ResourceType::Cpu, 1, "tenant-1"));
    assert!(matches!(wrong, Err(BlixardError::InvalidInput { .. })));
    assert_eq!(manager.check_availability(&request(ResourceType::Memory, 2048, "t")).unwrap(), false);
    assert_eq!(manager.check_availability(&request(ResourceType::Memory, 100, "t")).unwrap(), true);
}

#[test]
fn memory_manager_overcommit_and_lifecycle() {
    let mut manager = MemoryResourceManager::builder().with_capacity(1000).with_overcommit(1500).build();
    assert_eq!(manager.effective_capacity(), 1500);
    assert_eq!(manager.config.limits.soft_limit, 800);
    manager.initialize();
    manager.start();
    assert!(manager.is_running());
    assert!(manager.health_check() == ResourceManagerHealth::Healthy);
    manager.stop();
    assert!(!manager.is_running());
}

#[test]
fn memory_health_thresholds() {
    let mut manager = MemoryResourceManager::builder().with_capacity(1000).build();
    manager.usage.used_amount = 960;
    manager.record_health(0);
    assert!(manager.health_check() == ResourceManagerHealth::Unhealthy("Memory utilization critically high".to_string()));
    manager.usage.used_amount = 900;
    manager.record_health(0);
    assert!(manager.health_check() == ResourceManagerHealth::Degraded("Memory utilization at 90.0%".to_string()));
    manager.usage.used_amount = 100;
    manager.record_health(0);
    assert!(manager.health_check() == ResourceManagerHealth::Healthy);
}

#[test]
fn memory_config_validation() {
    let manager = MemoryResourceManager::builder().with_capacity(1000).build();
    let mut config = ResourceManagerConfigBuilder::new(ResourceType::Memory).with_hard_limit(100).build();
    config.limits.soft_limit = 50;
    assert!(manager.validate_config(&config).is_ok());
    config.limits.soft_limit = 200;
    assert!(matches!(manager.validate_config(&config), Err(BlixardError::InvalidInput { field: "soft_limit", .. })));
    config.limits.soft_limit = 50;
    config.limits.overcommit_permille = 900;
    assert!(matches!(manager.validate_config(&config), Err(BlixardError::InvalidInput { field: "overcommit_ratio", .. })));
}

#[test]
fn cpu_manager_allocation_and_deallocation() {
    let mut manager = CpuResourceManager::builder(4).build();
    manager.initialize();
    let allocation = manager.allocate_at(request(ResourceType::Cpu, 2, "tenant-1"), 9, 1).unwrap();
    assert_eq!(allocation.allocated_amount, 2);
    assert_eq!(allocation.allocation_id, "cpu-tenant-1-9");
    let usage = manager.get_usage();
    assert_eq!(usage.allocated_amount, 2);
    assert_eq!(usage.allocation_count, 1);
    manager.deallocate(&allocation.allocation_id).unwrap();
    assert_eq!(manager.get_usage().allocated_amount, 0);
}

#[test]
fn cpu_exclusive_allocation() {
    let mut manager = CpuResourceManager::builder(4).build();
    let mut req = request(ResourceType::Cpu, 2, "tenant-x");
    req.metadata.push(("exclusive".to_string(), "true".to_string()));
    let a = manager.allocate_at(req, 1, 1).unwrap();
    assert_eq!(a.allocated_amount, 2);
    let exclusive_cores = manager.core_usage.iter().filter(|c| c.exclusive).count();
    assert_eq!(exclusive_cores, 2);
}

#[test]
fn cpu_overallocation_rejection() {
    let mut manager = CpuResourceManager::builder(2).build();
    let mut req = request(ResourceType::Cpu, 4, "tenant-1");
    req.metadata.push(("exclusive".to_string(), "true".to_string()));
    assert!(manager.allocate_at(req, 1, 1).is_err());
}

fn core_usage(id: u32, vcpus: u32, exclusive: bool) -> CoreUsage {
    CoreUsage { core_id: id, allocated_vcpus: vcpus, utilization_permille: 0, exclusive, exclusive_tenant: None }
}

#[test]
fn core_selection_policies() {
    let cores = vec![core_usage(0, 3, false), core_usage(1, 0, false), core_usage(2, 1, false), core_usage(3, 0, true)];
    assert_eq!(find_available_cores(&cores, CpuSchedulingPolicy::FirstFit, 2, false).unwrap(), vec![0, 1]);
    assert_eq!(find_available_cores(&cores, CpuSchedulingPolicy::BestFit, 2, false).unwrap(), vec![1, 2]);
    assert_eq!(find_available_cores(&cores, CpuSchedulingPolicy::FirstFit, 1, true).unwrap(), vec![1]);
    assert!(find_available_cores(&cores, CpuSchedulingPolicy::FirstFit, 3, true).is_err());
}

#[test]
fn aggregate_health_of_managers() {
    let all_ok = vec![Some(ResourceManagerHealth::Healthy), Some(ResourceManagerHealth::Healthy)];
    assert!(aggregate_health(&all_ok) == ResourceManagerHealth::Healthy);
}

#[test]
fn factory_creates_managers() {
    let factory = DefaultResourceManagerFactory::new(8192, 4);
    let config = ResourceManagerConfigBuilder::new(ResourceType::Memory).with_hard_limit(4096).build();
    match factory.create(config).unwrap() {
        ManagedResource::Memory(m) => assert_eq!(m.config.limits.hard_limit, 4096),
        _ => panic!("expected a memory manager"),
    }
    let config = ResourceManagerConfigBuilder::new(ResourceType::Cpu).with_hard_limit(0).build();
    match factory.create(config).unwrap() {
        ManagedResource::Cpu(m) => assert_eq!(m.total_cores, 4),
        _ => panic!("expected a CPU manager"),
    }
    let config = ResourceManagerConfigBuilder::new(ResourceType::Gpu).build();
    assert!(matches!(factory.create(config), Err(BlixardError::NotImplemented { .. })));
    let config = ResourceManagerConfigBuilder::new(ResourceType::Custom("fpga".to_string())).build();
    match factory.create(config) {
        Err(BlixardError::NotImplemented { feature }) => assert_eq!(feature, "Custom resource manager: fpga"),
        _ => panic!("expected not implemented"),
    }
    let types = factory.supported_types();
    assert_eq!(types.len(), 2);
    let defaults = DefaultResourceManagerFactory::with_system_defaults();
    assert_eq!(defaults.default_memory_capacity, 16384);
    assert_eq!(defaults.default_cpu_cores, 8);
}

#[test]
fn factory_validates_configs() {
    let factory = DefaultResourceManagerFactory::new(8192, 4);
    let config = ResourceManagerConfigBuilder::new(ResourceType::Memory).with_hard_limit(4096).build();
    assert!(matches!(
        factory.validate_config(&ResourceType::Cpu, &config),
        Err(BlixardError::InvalidInput { field: "resource_type", .. })
    ));
    let mut config = ResourceManagerConfigBuilder::new(ResourceType::Cpu).with_hard_limit(4).build();
    config.limits.soft_limit = 2;
    assert!(factory.validate_config(&ResourceType::Cpu, &config).is_ok());
}

#[test]
fn helper_managers() {
    let m = create_memory_manager(2048);
    assert_eq!(m.usage.total_capacity, 2048);
    assert_eq!(m.config.limits.overcommit_permille, 1200);
    let c = create_cpu_manager(6);
    assert_eq!(c.total_cores, 6);
    assert_eq!(c.config.limits.overcommit_permille, 2000);
}
