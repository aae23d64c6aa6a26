use blixard_core::decimal::to_ratio_decimal;
use blixard_core::error::BlixardError;
use blixard_core::migration::{convert_tenant_quota_to_limits, generate_migration_report, MigrationStatus};
use blixard_core::migration_wrapper::ResourceManagerMigrationWrapper;
use blixard_core::quotas::{QuotaViolation, ResourceRequest, TenantQuota};
use blixard_core::resource_manager::{AllocationStatus, ResourceAllocationRequest, ResourceLimits, ResourceType};

fn quota(tenant: &str, memory_mb: u64, vcpus: u32) -> TenantQuota {
    let mut q = TenantQuota::new(tenant.to_string(), 0);
    q.vm_limits.max_memory_mb = memory_mb;
    q.vm_limits.max_vcpus = vcpus;
    q
}

#[test]
fn test_migration_wrapper_creation() {
    let wrapper = ResourceManagerMigrationWrapper::new(8192, 4).unwrap();

    let status = wrapper.migration_status();
    assert!(!status.is_complete());
    assert_eq!(status.parts_completed(), 0);
}

#[test]
fn test_legacy_quota_conversion() {
    let mut quota = TenantQuota::new("test-tenant".to_string(), 0);
    quota.vm_limits.max_memory_mb = 8192;
    quota.vm_limits.max_vcpus = 4;
    quota.vm_limits.max_disk_gb = 100;
    quota.vm_limits.overcommit_permille = 1500;

    let limits = convert_tenant_quota_to_limits(&quota);
    assert_eq!(limits.len(), 3);

    let memory_limits = limits.iter().find(|l| l.resource_type == ResourceType::Memory).unwrap();
    assert_eq!(memory_limits.hard_limit, 8192);
    assert_eq!(memory_limits.overcommit_permille, 1500);
}

#[test]
fn test_resource_request_conversion() {
    let wrapper = ResourceManagerMigrationWrapper::new(8192, 4).unwrap();

    let legacy_request = ResourceRequest {
        tenant_id: "test-tenant".to_string(),
        node_id: Some(1),
        vcpus: 2,
        memory_mb: 4096,
        disk_gb: 50,
        timestamp_ms: 0,
    };

    let new_requests = wrapper.convert_resource_request(&legacy_request);
    assert_eq!(new_requests.len(), 2);

    let memory_request = new_requests.iter().find(|r| r.resource_type == ResourceType::Memory).unwrap();
    assert_eq!(memory_request.amount, 4096);

    let cpu_request = new_requests.iter().find(|r| r.resource_type == ResourceType::Cpu).unwrap();
    assert_eq!(cpu_request.amount, 2);
}

#[test]
fn test_vm_resource_allocation() {
    let mut wrapper = ResourceManagerMigrationWrapper::new(8192, 8).unwrap();

    wrapper.composite_manager.initialize();
    wrapper.composite_manager.start();

    let allocations = wrapper.allocate_for_vm("test-vm", "test-tenant", 2048, 2).unwrap();
    assert_eq!(allocations.len(), 2);

    wrapper.deallocate_for_vm("test-vm").unwrap();
}

#[test]
fn test_migration_status() {
    let status = MigrationStatus {
        memory_migrated: true,
        cpu_migrated: true,
        disk_migrated: false,
        warnings_count: 1,
        warnings: vec!["Test warning".to_string()],
    };

    assert!(!status.is_complete());
    assert_eq!(status.parts_completed(), 2);

    let report = generate_migration_report(&status);
    assert!(report.contains("66.7% complete"));
    assert!(report.contains("✓ Complete"));
    assert!(report.contains("✗ Pending"));
}

#[test]
fn test_migrate_from_legacy_system() {
    let legacy_quotas = vec![
        ("tenant-1".to_string(), TenantQuota::new("tenant-1".to_string(), 0)),
        ("tenant-2".to_string(), TenantQuota::new("tenant-2".to_string(), 0)),
    ];
    let mut wrapper = ResourceManagerMigrationWrapper::new(32768, 16).unwrap();
    wrapper.migrate_from_quota_manager(&legacy_quotas).unwrap();

    let status = wrapper.migration_status();
    let report = generate_migration_report(&status);
    assert!(report.contains("Migration Status: 66.7% complete"));

    let can_allocate = wrapper.legacy_quota_check("tenant-1", 2048, 4).unwrap();
    if can_allocate {
        let allocations = wrapper.allocate_for_vm("legacy-vm-1", "tenant-1", 2048, 4).unwrap();
        assert_eq!(allocations.len(), 2);
        wrapper.deallocate_for_vm("legacy-vm-1").unwrap();
    }
}

#[test]
fn migration_offers_each_quota_and_marks_progress() {
    // 8 GB and 4 cores fit; the default quota of 200 GB and 200 vCPUs does not.
    let quotas = vec![
        ("small".to_string(), quota("small", 2048, 2)),
        ("huge".to_string(), TenantQuota::new("huge".to_string(), 0)),
    ];
    let mut wrapper = ResourceManagerMigrationWrapper::new(8192, 4).unwrap();
    wrapper.migrate_from_quota_manager(&quotas).unwrap();

    let status = wrapper.migration_status();
    assert!(status.memory_migrated);
    assert!(status.cpu_migrated);
    assert!(!status.disk_migrated);
    assert_eq!(status.warnings_count, 0);

    let allocations = wrapper.composite_manager.get_allocations();
    assert_eq!(allocations.len(), 2);
    let memory = allocations.iter().find(|a| a.request.resource_type == ResourceType::Memory).unwrap();
    assert_eq!(memory.request.request_id, "migrated-memory-small");
    assert_eq!(memory.allocated_amount, 2048);
    let cpu = allocations.iter().find(|a| a.request.resource_type == ResourceType::Cpu).unwrap();
    assert_eq!(cpu.request.request_id, "migrated-cpu-small");
    assert_eq!(
        cpu.request.metadata,
        vec![
            ("migrated_from".to_string(), "quota_manager".to_string()),
            ("original_tenant".to_string(), "small".to_string()),
            ("overcommit_ratio".to_string(), "1.2".to_string()),
        ]
    );
}

#[test]
fn legacy_quota_check_answers_both_questions() {
    let wrapper = ResourceManagerMigrationWrapper::new(8192, 4).unwrap();
    assert_eq!(wrapper.legacy_quota_check("t", 2048, 2), Ok(true));
    // Far more memory than 8 GB with 20% overcommit.
    assert_eq!(wrapper.legacy_quota_check("t", 100_000, 2), Ok(false));
}

#[test]
fn vm_allocations_are_tagged_and_released_by_name() {
    let mut wrapper = ResourceManagerMigrationWrapper::new(8192, 8).unwrap();
    let first = wrapper.allocate_for_vm("vm-a", "t", 1024, 1).unwrap();
    assert_eq!(first[0].request.request_id, "vm-memory-vm-a");
    assert_eq!(first[1].request.request_id, "vm-cpu-vm-a");
    assert_eq!(first[0].allocated_amount, 1024);
    assert_eq!(first[0].status, AllocationStatus::Active);
    wrapper.allocate_for_vm("vm-b", "t", 512, 1).unwrap();
    assert_eq!(wrapper.composite_manager.get_allocations().len(), 4);

    wrapper.deallocate_for_vm("vm-a").unwrap();
    let left = wrapper.composite_manager.get_allocations();
    assert_eq!(left.len(), 2);
    assert!(left.iter().all(|a| a.request.request_id.ends_with("vm-b")));

    // Nothing is tagged with an unknown name.
    wrapper.deallocate_for_vm("vm-z").unwrap();
    assert_eq!(wrapper.composite_manager.get_allocations().len(), 2);
}

#[test]
fn vm_allocation_refused_without_room() {
    let mut wrapper = ResourceManagerMigrationWrapper::new(1024, 2).unwrap();
    match wrapper.allocate_for_vm("big", "t", 1_000_000, 1) {
        Err(BlixardError::InsufficientResources { .. }) => {}
        other => panic!("unexpected {:?}", other.is_ok()),
    }
    assert_eq!(wrapper.composite_manager.get_allocations().len(), 0);
}

#[test]
fn quota_violation_conversion_through_wrapper() {
    let wrapper = ResourceManagerMigrationWrapper::new(1024, 2).unwrap();
    let e = wrapper.convert_quota_violation(&QuotaViolation::VmLimitExceeded { limit: 5, current: 4, requested: 2 });
    assert_eq!(e, BlixardError::QuotaExceeded { resource: "VMs", limit: 5, requested: 6 });
    let e = wrapper.convert_quota_violation(&QuotaViolation::MemoryLimitExceeded { limit: 100, current: 120, requested: 10 });
    assert_eq!(
        e,
        BlixardError::InsufficientResources {
            requested_cpu: 0,
            requested_memory_mb: 10,
            requested_disk_gb: 0,
            available_cpu: 0,
            available_memory_mb: 0,
            available_disk_gb: 0,
        }
    );
}

#[test]
fn ratio_text_is_shortest_decimal() {
    assert_eq!(to_ratio_decimal(1500), "1.5");
    assert_eq!(to_ratio_decimal(2000), "2");
    assert_eq!(to_ratio_decimal(125), "0.125");
    assert_eq!(to_ratio_decimal(1050), "1.05");
    assert_eq!(to_ratio_decimal(1200), "1.2");
}

#[test]
fn composite_reserve_lookup_and_release() {
    let mut wrapper = ResourceManagerMigrationWrapper::new(8192, 4).unwrap();
    let c = &mut wrapper.composite_manager;
    let request = ResourceAllocationRequest {
        request_id: "r".to_string(),
        tenant_id: "t".to_string(),
        resource_type: ResourceType::Memory,
        amount: 256,
        priority: 50,
        is_temporary: true,
        expires_at_ms: None,
        metadata: vec![],
    };
    let reserved = c.reserve(request).unwrap();
    assert_eq!(reserved.status, AllocationStatus::Reserved);
    let stored = c.get_allocation(&reserved.allocation_id).unwrap();
    assert_eq!(stored.status, AllocationStatus::Active);
    assert!(c.get_allocation("missing").is_none());
    assert_eq!(
        c.deallocate("missing"),
        Err(BlixardError::ResourceUnavailable {
            resource_type: "unknown",
            message: "Allocation not found in any manager"
        })
    );
    assert_eq!(c.deallocate(&reserved.allocation_id), Ok(()));
    assert!(c.get_allocation(&reserved.allocation_id).is_none());
}

#[test]
fn composite_limits_go_to_the_matching_manager() {
    let mut wrapper = ResourceManagerMigrationWrapper::new(8192, 4).unwrap();
    let c = &mut wrapper.composite_manager;
    let limits = |t: ResourceType, hard: u64| ResourceLimits {
        resource_type: t,
        hard_limit: hard,
        soft_limit: hard,
        allow_overcommit: false,
        overcommit_permille: 1000,
        system_reserve: 0,
    };
    assert_eq!(c.update_limits(&limits(ResourceType::Memory, 4096)), Ok(()));
    match c.update_limits(&limits(ResourceType::Disk, 10)) {
        Err(BlixardError::ResourceUnavailable { resource_type, .. }) => assert_eq!(resource_type, "disk"),
        other => panic!("unexpected {:?}", other.is_ok()),
    }
    // The composite keeps the default limits of its configuration.
    let own = c.get_limits();
    assert_eq!(own.resource_type, ResourceType::Memory);
    assert_eq!(own.hard_limit, c.config().limits.hard_limit);
}
