pub mod clock;
pub mod codec;
pub mod error;
pub mod resource_management;
pub mod text;
pub mod types;
pub mod decimal;
pub mod resource_manager;
pub mod cpu_cores;
pub mod cpu_manager;
pub mod memory_manager;
pub mod factory;
pub mod migration;
pub mod consensus;
pub mod remediation;
pub mod remediation_raft;
pub mod proposals;
pub mod batching;
pub mod messages;
pub mod storage;
pub mod admission;
pub mod rbac;
pub mod quotas;
pub mod tables;
pub mod state_machine;
pub mod ids;
pub mod priority_batching;
pub mod text_fields;
pub mod system_metrics;
pub mod message_processing;
pub mod membership;
pub mod composite;
pub mod composite_allocations;
pub mod migration_wrapper;
pub mod resource_monitor;
pub mod snapshot;
