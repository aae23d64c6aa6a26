use blixard_core::composite::{create_standard_composite_manager, CompositeResourceManager};
use blixard_core::factory::{create_cpu_manager, create_memory_manager, DefaultResourceManagerFactory, ManagedResource};
use blixard_core::resource_manager::{
    AllocationStatus, ResourceAllocationRequest, ResourceLimits, ResourceManagerConfigBuilder, ResourceManagerHealth,
    ResourceType,
};

fn request(id: &str, tenant: &str, resource_type: ResourceType, amount: u64, temporary: bool, metadata: Vec<(&str, &str)>) -> ResourceAllocationRequest {
    ResourceAllocationRequest {
        request_id: id.to_string(),
        tenant_id: tenant.to_string(),
        resource_type,
        amount,
        priority: 100,
        is_temporary: temporary,
        expires_at_ms: None,
        metadata: metadata.into_iter().map(|(k, v)| (k.to_string(), v.to_string())).collect(),
    }
}

#[test]
fn test_replace_legacy_quota_system() {
    let mut composite = CompositeResourceManager::new();
    composite.add_manager(ResourceType::Memory, ManagedResource::Memory(create_memory_manager(16384)));
    composite.add_manager(ResourceType::Cpu, ManagedResource::Cpu(create_cpu_manager(8)));
    composite.initialize();
    composite.start();
    assert!(composite.is_running());

    let tags = vec![("application", "web-server"), ("environment", "production")];
    let memory_allocation = composite
        .allocate(request("web-server-memory", "acme-corp", ResourceType::Memory, 4096, false, tags.clone()))
        .unwrap();
    let cpu_allocation = composite
        .allocate(request("web-server-cpu", "acme-corp", ResourceType::Cpu, 2, false, tags))
        .unwrap();

    let usage = composite.get_usage();
    assert_eq!(usage.allocated_amount, 4096 + 2);
    assert_eq!(usage.allocation_count, 2);
    assert_eq!(composite.health_check(), ResourceManagerHealth::Healthy);

    composite.deallocate(&memory_allocation.allocation_id).unwrap();
    composite.deallocate(&cpu_allocation.allocation_id).unwrap();
    composite.stop();
    assert!(!composite.is_running());
    assert_eq!(composite.get_allocations().len(), 0);
}

#[test]
fn test_advanced_resource_patterns() {
    let factory = DefaultResourceManagerFactory::with_system_defaults();
    let memory_config = ResourceManagerConfigBuilder::new(ResourceType::Memory)
        .with_hard_limit(8192)
        .with_overcommit(1500)
        .with_monitoring_interval(30_000)
        .with_telemetry(true)
        .build();
    let memory_manager = factory.create(memory_config).unwrap();

    let mut composite = CompositeResourceManager::new();
    composite.add_manager(ResourceType::Memory, memory_manager);
    composite.initialize();
    composite.start();

    let reservation = composite
        .reserve(request("temp-reservation", "batch-job", ResourceType::Memory, 1024, true, vec![("job_type", "batch_processing")]))
        .unwrap();
    assert_eq!(reservation.status, AllocationStatus::Reserved);
    assert_eq!(composite.health_check(), ResourceManagerHealth::Healthy);

    let new_limits = ResourceLimits {
        resource_type: ResourceType::Memory,
        hard_limit: 12288,
        soft_limit: 9830,
        allow_overcommit: true,
        overcommit_permille: 1300,
        system_reserve: 1024,
    };
    composite.update_limits(&new_limits).unwrap();
    assert_eq!(composite.get_usage().total_capacity, 12288);

    composite.deallocate(&reservation.allocation_id).unwrap();
    composite.stop();
}

#[test]
fn test_vm_scheduling_integration() {
    let mut composite = create_standard_composite_manager(16384, 8).unwrap();
    composite.initialize();
    composite.start();

    let vm_requirements: [(&str, u64, u64); 4] = [("web-server", 2048, 2), ("database", 4096, 4), ("cache", 1024, 1), ("worker", 512, 1)];
    let mut vm_allocations = Vec::new();
    for (vm_name, memory_mb, vcpus) in vm_requirements.iter() {
        let memory_check = request(&format!("{}-memory-check", vm_name), "production", ResourceType::Memory, *memory_mb, true, vec![]);
        let cpu_check = request(&format!("{}-cpu-check", vm_name), "production", ResourceType::Cpu, *vcpus, true, vec![]);
        let memory_available = composite.check_availability(&memory_check).unwrap();
        let cpu_available = composite.check_availability(&cpu_check).unwrap();
        if memory_available && cpu_available {
            let memory = composite
                .allocate(request(&format!("{}-memory", vm_name), "production", ResourceType::Memory, *memory_mb, false, vec![("vm_name", vm_name)]))
                .unwrap();
            let cpu = composite
                .allocate(request(&format!("{}-cpu", vm_name), "production", ResourceType::Cpu, *vcpus, false, vec![("vm_name", vm_name)]))
                .unwrap();
            vm_allocations.push((vm_name.to_string(), memory.allocation_id, cpu.allocation_id));
        }
    }
    assert_eq!(vm_allocations.len(), 4);
    let usage = composite.get_usage();
    assert_eq!(usage.allocation_count, 8);

    for (_, memory_id, cpu_id) in vm_allocations {
        composite.deallocate(&memory_id).unwrap();
        composite.deallocate(&cpu_id).unwrap();
    }
    assert_eq!(composite.get_allocations().len(), 0);
    composite.stop();
}
