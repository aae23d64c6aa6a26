use vstd::prelude::*;

verus! {

/// Errors reported by the library.
///
/// Payloads are kept structured (numbers and fixed descriptions) so that
/// contracts can say exactly which error a function returns.
#[derive(Debug, Clone, PartialEq, Eq)]
pub enum BlixardError {
    /// Bytes could not be encoded or decoded.
    Serialization { what: &'static str, reason: &'static str },
    /// A request failed validation.
    Validation { field: &'static str, message: &'static str },
    /// An input value is not acceptable for the operation.
    InvalidInput { field: &'static str, message: &'static str },
    /// A named item (such as a role) does not exist.
    NotFound { item: String },
    /// The request asks for more than is available.
    InsufficientResources {
        requested_cpu: u64,
        requested_memory_mb: u64,
        requested_disk_gb: u64,
        available_cpu: u64,
        available_memory_mb: u64,
        available_disk_gb: u64,
    },
    /// A node is not known to the resource manager.
    NodeNotFound { node_id: u64 },
    /// No manager or allocation is available for the request.
    ResourceUnavailable { resource_type: &'static str, message: &'static str },
    /// A configuration does not fit the component.
    ConfigurationError { component: &'static str, message: &'static str },
    /// The requested feature does not exist yet.
    NotImplemented { feature: String },
    /// A placement decision could not be made.
    SchedulingError { node_id: u64, message: &'static str },
    /// A rate or capacity limit was reached.
    ResourceExhausted { resource: &'static str },
    /// A quota would be exceeded.
    QuotaExceeded { resource: &'static str, limit: u64, requested: u64 },
    /// An internal invariant failed.
    Internal { message: &'static str },
    /// A VM operation failed.
    VmOperationFailed { operation: String, details: String },
    /// A failure that is expected to go away on retry.
    TemporaryFailure { details: String },
    /// A connection could not be established.
    ConnectionError { address: String, details: String },
    /// An operation timed out.
    Timeout { operation: String, duration_ms: u64 },
    /// A network failure.
    NetworkError(String),
    /// A peer-to-peer transport failure.
    P2PError(String),
    /// A service manager failure.
    ServiceManagementError(String),
    /// A storage failure.
    Storage { table: &'static str },
    /// The operation needs the consensus leader, and this node is not it; the
    /// leader it knows of, if any.
    NotLeader { operation: &'static str, leader_id: Option<u64> },
}

} // verus!
