//! Construction of resource managers by resource type.
use vstd::prelude::*;
use vstd::string::*;

use crate::cpu_cores::CpuSchedulingPolicy;
use crate::cpu_manager::{CpuResourceManager, CpuResourceManagerBuilder};
use crate::error::BlixardError;
use crate::memory_manager::{MemoryResourceManager, MemoryResourceManagerBuilder};
use crate::resource_manager::{ResourceManagerConfig, ResourceType, ResourceTypeView};
use crate::text::concat;

verus! {

/// A resource manager of one of the kinds the factory makes.
pub enum ManagedResource {
    Memory(MemoryResourceManager),
    Cpu(CpuResourceManager),
}

/// Makes resource managers, with capacities to fall back on.
#[derive(Debug, Clone, Copy)]
pub struct DefaultResourceManagerFactory {
    /// Memory capacity in MB used when a configuration gives no hard limit.
    pub default_memory_capacity: u64,
    /// Core count used when a configuration gives no hard limit.
    pub default_cpu_cores: u32,
}

impl DefaultResourceManagerFactory {
    pub fn new(default_memory_capacity: u64, default_cpu_cores: u32) -> (f: Self)
        ensures
            f.default_memory_capacity == default_memory_capacity,
            f.default_cpu_cores == default_cpu_cores,
    {
        DefaultResourceManagerFactory { default_memory_capacity, default_cpu_cores }
    }

    /// 16 GB of memory and 8 cores.
    pub fn with_system_defaults() -> (f: Self)
        ensures
            f.default_memory_capacity == 16384,
            f.default_cpu_cores == 8,
    {
        DefaultResourceManagerFactory { default_memory_capacity: 16384, default_cpu_cores: 8 }
    }

    /// A manager for the configuration's resource type: memory with the configured
    /// hard limit (or the default capacity when it is 0), overcommit, monitoring and
    /// health checks; CPU with the hard limit as core count (or the default) and the
    /// configured overcommit and monitoring. Other types are not implemented.
    pub fn create(&self, config: ResourceManagerConfig) -> (r: Result<ManagedResource, BlixardError>)
        ensures
            config.resource_type@ is Memory ==> (r matches Ok(ManagedResource::Memory(m)) && {
                let capacity = if config.limits.hard_limit > 0 {
                    config.limits.hard_limit
                } else {
                    self.default_memory_capacity
                };
                &&& m.config.limits.hard_limit == capacity
                &&& m.config.limits.soft_limit == (capacity * 8 / 10) as u64
                &&& m.config.limits.allow_overcommit
                &&& m.config.limits.overcommit_permille == config.limits.overcommit_permille
                &&& m.config.enable_monitoring == config.enable_monitoring
                &&& m.config.monitoring_interval_ms == config.monitoring_interval_ms
                &&& m.config.enable_health_checks == config.enable_health_checks
                &&& m.config.health_check_interval_ms == config.health_check_interval_ms
                &&& m.config.resource_type@ == ResourceTypeView::Memory
                &&& m.usage.total_capacity == capacity
                &&& m.allocations@.len() == 0
            }),
            config.resource_type@ is Cpu ==> (r matches Ok(ManagedResource::Cpu(m)) && {
                let cores = if config.limits.hard_limit > 0 {
                    config.limits.hard_limit as u32
                } else {
                    self.default_cpu_cores
                };
                &&& m.total_cores == cores
                &&& m.config.limits.allow_overcommit
                &&& m.config.limits.overcommit_permille == config.limits.overcommit_permille
                &&& m.config.enable_monitoring == config.enable_monitoring
                &&& m.config.monitoring_interval_ms == config.monitoring_interval_ms
                &&& m.scheduling_policy == CpuSchedulingPolicy::FirstFit
                &&& m.allocations@.len() == 0
                &&& m.wf()
            }),
            !(config.resource_type@ is Memory) && !(config.resource_type@ is Cpu) ==> r is Err
                && r->Err_0 is NotImplemented,
            config.resource_type@ is Disk ==> (r->Err_0 matches BlixardError::NotImplemented { feature }
                && feature@ == "Disk resource manager"@),
            config.resource_type@ is Network ==> (r->Err_0 matches BlixardError::NotImplemented { feature }
                && feature@ == "Network resource manager"@),
            config.resource_type@ is Gpu ==> (r->Err_0 matches BlixardError::NotImplemented { feature }
                && feature@ == "GPU resource manager"@),
            config.resource_type@ matches ResourceTypeView::Custom(name) ==> (r->Err_0 matches BlixardError::NotImplemented { feature }
                && feature@ == "Custom resource manager: "@ + name),
    {
        match &config.resource_type {
            ResourceType::Memory => {
                let capacity = if config.limits.hard_limit > 0 {
                    config.limits.hard_limit
                } else {
                    self.default_memory_capacity
                };
                let manager = MemoryResourceManager::builder().with_capacity(capacity).with_overcommit(
                    config.limits.overcommit_permille,
                ).with_monitoring(config.enable_monitoring, config.monitoring_interval_ms).with_health_checks(
                    config.enable_health_checks,
                    config.health_check_interval_ms,
                ).build();
                Ok(ManagedResource::Memory(manager))
            },
            ResourceType::Cpu => {
                let cores = if config.limits.hard_limit > 0 {
                    config.limits.hard_limit as u32
                } else {
                    self.default_cpu_cores
                };
                let manager = CpuResourceManager::builder(cores).with_overcommit(
                    config.limits.overcommit_permille,
                ).with_monitoring(config.enable_monitoring, config.monitoring_interval_ms).build();
                Ok(ManagedResource::Cpu(manager))
            },
            ResourceType::Disk => Err(
                BlixardError::NotImplemented { feature: String::from_str("Disk resource manager") },
            ),
            ResourceType::Network => Err(
                BlixardError::NotImplemented { feature: String::from_str("Network resource manager") },
            ),
            ResourceType::Gpu => Err(
                BlixardError::NotImplemented { feature: String::from_str("GPU resource manager") },
            ),
            ResourceType::Custom(name) => Err(
                BlixardError::NotImplemented {
                    feature: concat("Custom resource manager: ", name.as_str()),
                },
            ),
        }
    }

    /// The resource types the factory makes managers for: memory and CPU.
    pub fn supported_types(&self) -> (r: Vec<ResourceType>)
        ensures
            r@.len() == 2,
            r@[0]@ == ResourceTypeView::Memory,
            r@[1]@ == ResourceTypeView::Cpu,
    {
        let mut r = Vec::new();
        r.push(ResourceType::Memory);
        r.push(ResourceType::Cpu);
        r
    }

    /// Checks a configuration for a resource type: the types must match; memory and
    /// CPU need a non-zero hard limit (other types are not implemented); then the
    /// soft limit may not exceed the hard limit and the overcommit ratio must be at
    /// least one.
    pub fn validate_config(&self, resource_type: &ResourceType, config: &ResourceManagerConfig) -> (r: Result<(), BlixardError>)
        ensures
            config.resource_type@ != resource_type@ ==> r == Err::<(), BlixardError>(
                BlixardError::InvalidInput {
                    field: "resource_type",
                    message: "Config resource type doesn't match requested type",
                },
            ),
            config.resource_type@ == resource_type@ ==> {
                if !(resource_type@ is Memory) && !(resource_type@ is Cpu) {
                    r is Err && r->Err_0 is NotImplemented
                } else if config.limits.hard_limit == 0 {
                    r == Err::<(), BlixardError>(
                        BlixardError::InvalidInput {
                            field: "hard_limit",
                            message: if resource_type@ is Memory {
                                "Memory hard limit must be greater than 0"
                            } else {
                                "CPU core count must be greater than 0"
                            },
                        },
                    )
                } else if config.limits.soft_limit > config.limits.hard_limit {
                    r == Err::<(), BlixardError>(
                        BlixardError::InvalidInput {
                            field: "soft_limit",
                            message: "Soft limit cannot exceed hard limit",
                        },
                    )
                } else if config.limits.overcommit_permille < 1000 {
                    r == Err::<(), BlixardError>(
                        BlixardError::InvalidInput {
                            field: "overcommit_ratio",
                            message: "Overcommit ratio must be at least 1.0",
                        },
                    )
                } else {
                    r is Ok
                }
            },
    {
        if !config.resource_type.same_as(resource_type) {
            return Err(
                BlixardError::InvalidInput {
                    field: "resource_type",
                    message: "Config resource type doesn't match requested type",
                },
            );
        }
        match resource_type {
            ResourceType::Memory => {
                if config.limits.hard_limit == 0 {
                    return Err(
                        BlixardError::InvalidInput {
                            field: "hard_limit",
                            message: "Memory hard limit must be greater than 0",
                        },
                    );
                }
            },
            ResourceType::Cpu => {
                if config.limits.hard_limit == 0 {
                    return Err(
                        BlixardError::InvalidInput {
                            field: "hard_limit",
                            message: "CPU core count must be greater than 0",
                        },
                    );
                }
            },
            _ => {
                return Err(
                    BlixardError::NotImplemented {
                        feature: String::from_str("Validation for this resource type"),
                    },
                );
            },
        }
        if config.limits.soft_limit > config.limits.hard_limit {
            return Err(
                BlixardError::InvalidInput {
                    field: "soft_limit",
                    message: "Soft limit cannot exceed hard limit",
                },
            );
        }
        if config.limits.overcommit_permille < 1000 {
            return Err(
                BlixardError::InvalidInput {
                    field: "overcommit_ratio",
                    message: "Overcommit ratio must be at least 1.0",
                },
            );
        }
        Ok(())
    }
}

/// A memory manager of the given capacity with 1.2x overcommit, monitoring every
/// 30 s and health checks every 60 s, initialized.
pub fn create_memory_manager(capacity_mb: u64) -> (m: MemoryResourceManager)
    ensures
        m.config.limits.hard_limit == capacity_mb,
        m.config.limits.allow_overcommit,
        m.config.limits.overcommit_permille == 1200,
        m.config.enable_monitoring && m.config.monitoring_interval_ms == 30_000,
        m.config.enable_health_checks && m.config.health_check_interval_ms == 60_000,
        m.usage.total_capacity == capacity_mb,
        m.allocations@.len() == 0,
{
    let mut m = MemoryResourceManager::builder().with_capacity(capacity_mb).with_overcommit(1200).with_monitoring(
        true,
        30_000,
    ).with_health_checks(true, 60_000).build();
    m.initialize();
    m
}

/// A first-fit CPU manager of the given core count with 2x overcommit and monitoring
/// every 30 s, initialized.
pub fn create_cpu_manager(cores: u32) -> (m: CpuResourceManager)
    ensures
        m.total_cores == cores,
        m.config.limits.allow_overcommit,
        m.config.limits.overcommit_permille == 2000,
        m.scheduling_policy == CpuSchedulingPolicy::FirstFit,
        m.config.enable_monitoring && m.config.monitoring_interval_ms == 30_000,
        m.allocations@.len() == 0,
{
    let mut m = CpuResourceManager::builder(cores).with_overcommit(2000).with_scheduling_policy(
        CpuSchedulingPolicy::FirstFit,
    ).with_monitoring(true, 30_000).build();
    m.initialize();
    m
}

} // verus!
