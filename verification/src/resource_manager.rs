//! Common vocabulary of the resource managers: resource types, requests,
//! allocations, usage, limits, health and configuration.
//!
//! Times are milliseconds since the Unix epoch; overcommit ratios are in
//! thousandths (1500 = 1.5x).
use vstd::prelude::*;
use vstd::string::*;

use crate::decimal::{decimal, to_decimal};
use crate::text::text_eq;

verus! {

/// Kind of resource a manager handles.
#[derive(Debug, Clone, Hash)]
pub enum ResourceType {
    Memory,
    Cpu,
    Disk,
    Network,
    Gpu,
    Custom(String),
}

/// The mathematical value of a [`ResourceType`].
pub enum ResourceTypeView {
    Memory,
    Cpu,
    Disk,
    Network,
    Gpu,
    Custom(Seq<char>),
}

impl View for ResourceType {
    type V = ResourceTypeView;

    open spec fn view(&self) -> ResourceTypeView {
        match self {
            ResourceType::Memory => ResourceTypeView::Memory,
            ResourceType::Cpu => ResourceTypeView::Cpu,
            ResourceType::Disk => ResourceTypeView::Disk,
            ResourceType::Network => ResourceTypeView::Network,
            ResourceType::Gpu => ResourceTypeView::Gpu,
            ResourceType::Custom(name) => ResourceTypeView::Custom(name@),
        }
    }
}

/// The lowercase name of a resource type; a custom type is named by its own name.
pub open spec fn resource_type_name(t: ResourceTypeView) -> Seq<char> {
    match t {
        ResourceTypeView::Memory => "memory"@,
        ResourceTypeView::Cpu => "cpu"@,
        ResourceTypeView::Disk => "disk"@,
        ResourceTypeView::Network => "network"@,
        ResourceTypeView::Gpu => "gpu"@,
        ResourceTypeView::Custom(name) => name,
    }
}

impl ResourceType {
    /// Whether two resource types are the same.
    pub fn same_as(&self, other: &ResourceType) -> (r: bool)
        ensures
            r == (self@ == other@),
    {
        match (self, other) {
            (ResourceType::Memory, ResourceType::Memory) => true,
            (ResourceType::Cpu, ResourceType::Cpu) => true,
            (ResourceType::Disk, ResourceType::Disk) => true,
            (ResourceType::Network, ResourceType::Network) => true,
            (ResourceType::Gpu, ResourceType::Gpu) => true,
            (ResourceType::Custom(a), ResourceType::Custom(b)) => text_eq(a.as_str(), b.as_str()),
            _ => false,
        }
    }

    /// The name of the resource type (`memory`, `cpu`, ... or the custom name).
    pub fn to_string(&self) -> (s: String)
        ensures
            s@ == resource_type_name(self@),
    {
        match self {
            ResourceType::Memory => String::from_str("memory"),
            ResourceType::Cpu => String::from_str("cpu"),
            ResourceType::Disk => String::from_str("disk"),
            ResourceType::Network => String::from_str("network"),
            ResourceType::Gpu => String::from_str("gpu"),
            ResourceType::Custom(name) => name.clone(),
        }
    }

    /// A copy with the same value.
    pub fn copy_type(&self) -> (r: ResourceType)
        ensures
            r@ == self@,
    {
        match self {
            ResourceType::Memory => ResourceType::Memory,
            ResourceType::Cpu => ResourceType::Cpu,
            ResourceType::Disk => ResourceType::Disk,
            ResourceType::Network => ResourceType::Network,
            ResourceType::Gpu => ResourceType::Gpu,
            ResourceType::Custom(name) => ResourceType::Custom(name.clone()),
        }
    }
}

impl PartialEq for ResourceType {
    fn eq(&self, other: &Self) -> (r: bool) {
        self.same_as(other)
    }
}

impl Eq for ResourceType {
}

impl vstd::std_specs::cmp::PartialEqSpecImpl for ResourceType {
    open spec fn obeys_eq_spec() -> bool {
        true
    }

    open spec fn eq_spec(&self, other: &Self) -> bool {
        self@ == other@
    }
}

/// Looks up a key in a list of key/value pairs; the first matching pair wins.
pub open spec fn lookup(pairs: Seq<(String, String)>, key: Seq<char>) -> Option<Seq<char>>
    decreases pairs.len(),
{
    if pairs.len() == 0 {
        None
    } else if pairs[0].0@ == key {
        Some(pairs[0].1@)
    } else {
        lookup(pairs.drop_first(), key)
    }
}

/// The value stored under `key`, if any.
pub fn metadata_get<'a>(pairs: &'a Vec<(String, String)>, key: &str) -> (r: Option<&'a String>)
    ensures
        match r {
            Some(v) => lookup(pairs@, key@) == Some(v@),
            None => lookup(pairs@, key@) is None,
        },
{
    let mut i: usize = 0;
    assert(pairs@.skip(0) =~= pairs@);
    while i < pairs.len()
        invariant
            i <= pairs@.len(),
            lookup(pairs@, key@) == lookup(pairs@.skip(i as int), key@),
        decreases pairs@.len() - i,
    {
        proof {
            assert(pairs@.skip(i as int).drop_first() =~= pairs@.skip(i as int + 1));
        }
        if text_eq(pairs[i].0.as_str(), key) {
            return Some(&pairs[i].1);
        }
        i = i + 1;
    }
    None
}

/// A request for an amount of one resource.
#[derive(Debug, Clone)]
pub struct ResourceAllocationRequest {
    pub request_id: String,
    pub tenant_id: String,
    pub resource_type: ResourceType,
    /// Amount in resource-specific units (MB of memory, vCPUs, ...).
    pub amount: u64,
    pub priority: u32,
    pub is_temporary: bool,
    pub expires_at_ms: Option<i64>,
    /// Extra key/value settings (such as `exclusive` = `true`); first match wins.
    pub metadata: Vec<(String, String)>,
}

/// A copy of a list of key/value pairs.
pub fn clone_pairs(pairs: &Vec<(String, String)>) -> (r: Vec<(String, String)>)
    ensures
        r@ == pairs@,
{
    let mut out: Vec<(String, String)> = Vec::new();
    let mut i: usize = 0;
    while i < pairs.len()
        invariant
            i <= pairs@.len(),
            out@ == pairs@.take(i as int),
        decreases pairs@.len() - i,
    {
        let k = pairs[i].0.clone();
        let v = pairs[i].1.clone();
        out.push((k, v));
        proof {
            assert(out@ =~= pairs@.take(i as int + 1));
        }
        i = i + 1;
    }
    proof {
        assert(pairs@.take(pairs@.len() as int) =~= pairs@);
    }
    out
}

/// The mathematical value of a [`ResourceAllocationRequest`].
pub struct RequestView {
    pub request_id: Seq<char>,
    pub tenant_id: Seq<char>,
    pub resource_type: ResourceTypeView,
    pub amount: u64,
    pub priority: u32,
    pub is_temporary: bool,
    pub expires_at_ms: Option<i64>,
    pub metadata: Seq<(String, String)>,
}

impl View for ResourceAllocationRequest {
    type V = RequestView;

    open spec fn view(&self) -> RequestView {
        RequestView {
            request_id: self.request_id@,
            tenant_id: self.tenant_id@,
            resource_type: self.resource_type@,
            amount: self.amount,
            priority: self.priority,
            is_temporary: self.is_temporary,
            expires_at_ms: self.expires_at_ms,
            metadata: self.metadata@,
        }
    }
}

impl ResourceAllocationRequest {
    /// A copy with the same value.
    pub fn clone_request(&self) -> (r: ResourceAllocationRequest)
        ensures
            r@ == self@,
    {
        ResourceAllocationRequest {
            request_id: self.request_id.clone(),
            tenant_id: self.tenant_id.clone(),
            resource_type: self.resource_type.copy_type(),
            amount: self.amount,
            priority: self.priority,
            is_temporary: self.is_temporary,
            expires_at_ms: self.expires_at_ms,
            metadata: clone_pairs(&self.metadata),
        }
    }
}

/// Status of an allocation.
#[derive(Debug, Clone)]
pub enum AllocationStatus {
    Active,
    Reserved,
    Releasing,
    Released,
    Failed(String),
}

/// The mathematical value of an [`AllocationStatus`].
pub enum AllocationStatusView {
    Active,
    Reserved,
    Releasing,
    Released,
    Failed(Seq<char>),
}

impl View for AllocationStatus {
    type V = AllocationStatusView;

    open spec fn view(&self) -> AllocationStatusView {
        match self {
            AllocationStatus::Active => AllocationStatusView::Active,
            AllocationStatus::Reserved => AllocationStatusView::Reserved,
            AllocationStatus::Releasing => AllocationStatusView::Releasing,
            AllocationStatus::Released => AllocationStatusView::Released,
            AllocationStatus::Failed(m) => AllocationStatusView::Failed(m@),
        }
    }
}

impl AllocationStatus {
    /// Whether two statuses are equal.
    pub fn same_as(&self, other: &AllocationStatus) -> (r: bool)
        ensures
            r == (self@ == other@),
    {
        match (self, other) {
            (AllocationStatus::Active, AllocationStatus::Active) => true,
            (AllocationStatus::Reserved, AllocationStatus::Reserved) => true,
            (AllocationStatus::Releasing, AllocationStatus::Releasing) => true,
            (AllocationStatus::Released, AllocationStatus::Released) => true,
            (AllocationStatus::Failed(a), AllocationStatus::Failed(b)) => text_eq(
                a.as_str(),
                b.as_str(),
            ),
            _ => false,
        }
    }

    /// Whether the allocation counts toward usage (active or reserved).
    pub fn is_live(&self) -> (r: bool)
        ensures
            r == (self@ is Active || self@ is Reserved),
    {
        match self {
            AllocationStatus::Active | AllocationStatus::Reserved => true,
            _ => false,
        }
    }
}

impl PartialEq for AllocationStatus {
    fn eq(&self, other: &Self) -> (r: bool) {
        self.same_as(other)
    }
}

impl vstd::std_specs::cmp::PartialEqSpecImpl for AllocationStatus {
    open spec fn obeys_eq_spec() -> bool {
        true
    }

    open spec fn eq_spec(&self, other: &Self) -> bool {
        self@ == other@
    }
}

/// The result of an allocation.
#[derive(Debug, Clone)]
pub struct ResourceAllocation {
    pub allocation_id: String,
    pub request: ResourceAllocationRequest,
    pub allocated_amount: u64,
    pub allocated_on: Option<String>,
    pub allocated_at_ms: i64,
    pub status: AllocationStatus,
}

/// The mathematical value of a [`ResourceAllocation`].
pub struct AllocationView {
    pub allocation_id: Seq<char>,
    pub request: RequestView,
    pub allocated_amount: u64,
    pub allocated_on: Option<Seq<char>>,
    pub allocated_at_ms: i64,
    pub status: AllocationStatusView,
}

impl View for ResourceAllocation {
    type V = AllocationView;

    open spec fn view(&self) -> AllocationView {
        AllocationView {
            allocation_id: self.allocation_id@,
            request: self.request@,
            allocated_amount: self.allocated_amount,
            allocated_on: match self.allocated_on {
                Some(s) => Some(s@),
                None => None,
            },
            allocated_at_ms: self.allocated_at_ms,
            status: self.status@,
        }
    }
}

impl AllocationStatus {
    /// A copy with the same value.
    pub fn clone_status(&self) -> (r: AllocationStatus)
        ensures
            r@ == self@,
    {
        match self {
            AllocationStatus::Active => AllocationStatus::Active,
            AllocationStatus::Reserved => AllocationStatus::Reserved,
            AllocationStatus::Releasing => AllocationStatus::Releasing,
            AllocationStatus::Released => AllocationStatus::Released,
            AllocationStatus::Failed(m) => AllocationStatus::Failed(m.clone()),
        }
    }
}

impl ResourceAllocation {
    /// A copy with the same value.
    pub fn clone_allocation(&self) -> (r: ResourceAllocation)
        ensures
            r@ == self@,
    {
        ResourceAllocation {
            allocation_id: self.allocation_id.clone(),
            request: self.request.clone_request(),
            allocated_amount: self.allocated_amount,
            allocated_on: match &self.allocated_on {
                Some(s) => Some(s.clone()),
                None => None,
            },
            allocated_at_ms: self.allocated_at_ms,
            status: self.status.clone_status(),
        }
    }
}

/// Usage of one resource.
#[derive(Debug, Clone)]
pub struct ResourceUsage {
    pub resource_type: ResourceType,
    pub total_capacity: u64,
    pub allocated_amount: u64,
    pub used_amount: u64,
    pub allocation_count: usize,
    pub updated_at_ms: i64,
}

impl ResourceUsage {
    /// Whether more is allocated than the total capacity.
    pub fn is_overallocated(&self) -> (r: bool)
        ensures
            r == (self.allocated_amount > self.total_capacity),
    {
        self.allocated_amount > self.total_capacity
    }
}

/// Limits of one resource.
#[derive(Debug, Clone)]
pub struct ResourceLimits {
    pub resource_type: ResourceType,
    /// Hard limit (cannot be exceeded).
    pub hard_limit: u64,
    /// Soft limit (warning threshold).
    pub soft_limit: u64,
    pub allow_overcommit: bool,
    /// Overcommit ratio in thousandths (1500 = 150% of the hard limit).
    pub overcommit_permille: u32,
    /// Amount kept for the system.
    pub system_reserve: u64,
}

impl ResourceLimits {
    /// Memory limits: unlimited hard limit, half of that as soft limit, no overcommit.
    pub fn default_limits() -> (l: ResourceLimits)
        ensures
            l.resource_type@ == ResourceTypeView::Memory,
            l.hard_limit == u64::MAX,
            l.soft_limit == u64::MAX / 2,
            !l.allow_overcommit,
            l.overcommit_permille == 1000,
            l.system_reserve == 0,
    {
        ResourceLimits {
            resource_type: ResourceType::Memory,
            hard_limit: u64::MAX,
            soft_limit: u64::MAX / 2,
            allow_overcommit: false,
            overcommit_permille: 1000,
            system_reserve: 0,
        }
    }
}

impl Default for ResourceLimits {
    fn default() -> (l: Self)
        ensures
            l.resource_type@ == ResourceTypeView::Memory,
            l.hard_limit == u64::MAX,
            l.soft_limit == u64::MAX / 2,
            !l.allow_overcommit,
            l.overcommit_permille == 1000,
            l.system_reserve == 0,
    {
        ResourceLimits::default_limits()
    }
}

/// Health of a resource manager.
#[derive(Debug, Clone)]
pub enum ResourceManagerHealth {
    Healthy,
    Degraded(String),
    Unhealthy(String),
    Stopped,
}

/// The mathematical value of a [`ResourceManagerHealth`].
pub enum HealthView {
    Healthy,
    Degraded(Seq<char>),
    Unhealthy(Seq<char>),
    Stopped,
}

impl View for ResourceManagerHealth {
    type V = HealthView;

    open spec fn view(&self) -> HealthView {
        match self {
            ResourceManagerHealth::Healthy => HealthView::Healthy,
            ResourceManagerHealth::Degraded(m) => HealthView::Degraded(m@),
            ResourceManagerHealth::Unhealthy(m) => HealthView::Unhealthy(m@),
            ResourceManagerHealth::Stopped => HealthView::Stopped,
        }
    }
}

impl ResourceManagerHealth {
    /// Whether two health values are equal.
    pub fn same_as(&self, other: &ResourceManagerHealth) -> (r: bool)
        ensures
            r == (self@ == other@),
    {
        match (self, other) {
            (ResourceManagerHealth::Healthy, ResourceManagerHealth::Healthy) => true,
            (ResourceManagerHealth::Stopped, ResourceManagerHealth::Stopped) => true,
            (ResourceManagerHealth::Degraded(a), ResourceManagerHealth::Degraded(b)) => text_eq(
                a.as_str(),
                b.as_str(),
            ),
            (ResourceManagerHealth::Unhealthy(a), ResourceManagerHealth::Unhealthy(b)) => text_eq(
                a.as_str(),
                b.as_str(),
            ),
            _ => false,
        }
    }
}

impl PartialEq for ResourceManagerHealth {
    fn eq(&self, other: &Self) -> (r: bool) {
        self.same_as(other)
    }
}

impl vstd::std_specs::cmp::PartialEqSpecImpl for ResourceManagerHealth {
    open spec fn obeys_eq_spec() -> bool {
        true
    }

    open spec fn eq_spec(&self, other: &Self) -> bool {
        self@ == other@
    }
}

/// The message `"<count> of <total> managers <state>"`.
pub open spec fn managers_message(count: nat, total: nat, state: Seq<char>) -> Seq<char> {
    decimal(count) + " of "@ + decimal(total) + " managers "@ + state
}

fn managers_message_text(count: u64, total: u64, state: &str) -> (s: String)
    ensures
        s@ == managers_message(count as nat, total as nat, state@),
{
    let mut s = to_decimal(count);
    s.append(" of ");
    let t = to_decimal(total);
    s.append(t.as_str());
    s.append(" managers ");
    s.append(state);
    s
}

/// Number of results that count as unhealthy: failures, unhealthy or stopped managers.
pub open spec fn unhealthy_count(rs: Seq<Option<HealthView>>) -> nat
    decreases rs.len(),
{
    if rs.len() == 0 {
        0
    } else {
        unhealthy_count(rs.drop_last()) + match rs.last() {
            None => 1nat,
            Some(HealthView::Unhealthy(_)) => 1nat,
            Some(HealthView::Stopped) => 1nat,
            _ => 0nat,
        }
    }
}

/// Number of degraded managers.
pub open spec fn degraded_count(rs: Seq<Option<HealthView>>) -> nat
    decreases rs.len(),
{
    if rs.len() == 0 {
        0
    } else {
        degraded_count(rs.drop_last()) + match rs.last() {
            Some(HealthView::Degraded(_)) => 1nat,
            _ => 0nat,
        }
    }
}

/// Overall health of a set of managers, from each one's health check (`None` when it failed).
pub open spec fn combined_health(rs: Seq<Option<HealthView>>) -> HealthView {
    if unhealthy_count(rs) > 0 {
        HealthView::Unhealthy(managers_message(unhealthy_count(rs), rs.len(), "unhealthy"@))
    } else if degraded_count(rs) > 0 {
        HealthView::Degraded(managers_message(degraded_count(rs), rs.len(), "degraded"@))
    } else {
        HealthView::Healthy
    }
}

/// The views of a list of health check results.
pub open spec fn health_results_view(rs: Seq<Option<ResourceManagerHealth>>) -> Seq<Option<HealthView>> {
    rs.map_values(|r: Option<ResourceManagerHealth>|
        match r {
            Some(h) => Some(h@),
            None => None,
        })
}

/// Combines the health checks of several managers: unhealthy if any failed, was
/// unhealthy or stopped; else degraded if any was degraded; else healthy.
pub fn aggregate_health(results: &Vec<Option<ResourceManagerHealth>>) -> (h: ResourceManagerHealth)
    ensures
        h@ == combined_health(health_results_view(results@)),
{
    let ghost rv = health_results_view(results@);
    let mut unhealthy: u64 = 0;
    let mut degraded: u64 = 0;
    let mut i: usize = 0;
    while i < results.len()
        invariant
            i <= results@.len(),
            rv == health_results_view(results@),
            unhealthy == unhealthy_count(rv.take(i as int)),
            degraded == degraded_count(rv.take(i as int)),
            unhealthy <= i,
            degraded <= i,
        decreases results@.len() - i,
    {
        proof {
            assert(rv.take(i as int + 1).drop_last() =~= rv.take(i as int));
        }
        match &results[i] {
            None => {
                unhealthy = unhealthy + 1;
            },
            Some(ResourceManagerHealth::Unhealthy(_)) => {
                unhealthy = unhealthy + 1;
            },
            Some(ResourceManagerHealth::Stopped) => {
                unhealthy = unhealthy + 1;
            },
            Some(ResourceManagerHealth::Degraded(_)) => {
                degraded = degraded + 1;
            },
            Some(ResourceManagerHealth::Healthy) => {},
        }
        i = i + 1;
    }
    proof {
        assert(rv.take(rv.len() as int) =~= rv);
    }
    let total = results.len() as u64;
    if unhealthy > 0 {
        ResourceManagerHealth::Unhealthy(managers_message_text(unhealthy, total, "unhealthy"))
    } else if degraded > 0 {
        ResourceManagerHealth::Degraded(managers_message_text(degraded, total, "degraded"))
    } else {
        ResourceManagerHealth::Healthy
    }
}

/// Configuration of a resource manager.
#[derive(Debug, Clone)]
pub struct ResourceManagerConfig {
    pub resource_type: ResourceType,
    pub limits: ResourceLimits,
    pub enable_monitoring: bool,
    pub monitoring_interval_ms: u64,
    pub enable_health_checks: bool,
    pub health_check_interval_ms: u64,
    pub enable_telemetry: bool,
    /// Custom settings; a key occurs at most once.
    pub custom_config: Vec<(String, String)>,
}

/// Whether no key occurs twice.
pub open spec fn keys_unique(pairs: Seq<(String, String)>) -> bool {
    forall|i: int, j: int| 0 <= i < j < pairs.len() ==> pairs[i].0@ != pairs[j].0@
}

impl ResourceManagerConfig {
    /// Memory, default limits, monitoring every 30 s, health checks every 60 s, no telemetry.
    pub fn default_config() -> (c: ResourceManagerConfig)
        ensures
            c.resource_type@ == ResourceTypeView::Memory,
            c.limits.resource_type@ == ResourceTypeView::Memory,
            c.limits.hard_limit == u64::MAX,
            c.limits.soft_limit == u64::MAX / 2,
            !c.limits.allow_overcommit,
            c.limits.overcommit_permille == 1000,
            c.limits.system_reserve == 0,
            c.enable_monitoring,
            c.monitoring_interval_ms == 30_000,
            c.enable_health_checks,
            c.health_check_interval_ms == 60_000,
            !c.enable_telemetry,
            c.custom_config@.len() == 0,
    {
        ResourceManagerConfig {
            resource_type: ResourceType::Memory,
            limits: ResourceLimits::default_limits(),
            enable_monitoring: true,
            monitoring_interval_ms: 30_000,
            enable_health_checks: true,
            health_check_interval_ms: 60_000,
            enable_telemetry: false,
            custom_config: Vec::new(),
        }
    }
}

/// Builder of [`ResourceManagerConfig`].
pub struct ResourceManagerConfigBuilder {
    pub config: ResourceManagerConfig,
}

impl ResourceManagerConfigBuilder {
    /// Starts from the default configuration with the given resource type.
    pub fn new(resource_type: ResourceType) -> (b: Self)
        ensures
            b.config.resource_type == resource_type,
            b.config.limits.resource_type@ == ResourceTypeView::Memory,
            b.config.limits.hard_limit == u64::MAX,
            b.config.limits.soft_limit == u64::MAX / 2,
            !b.config.limits.allow_overcommit,
            b.config.limits.overcommit_permille == 1000,
            b.config.limits.system_reserve == 0,
            b.config.enable_monitoring,
            b.config.monitoring_interval_ms == 30_000,
            b.config.enable_health_checks,
            b.config.health_check_interval_ms == 60_000,
            !b.config.enable_telemetry,
            b.config.custom_config@.len() == 0,
    {
        let mut config = ResourceManagerConfig::default_config();
        config.resource_type = resource_type;
        ResourceManagerConfigBuilder { config }
    }

    /// Sets the limits.
    pub fn with_limits(self, limits: ResourceLimits) -> (b: Self)
        ensures
            b.config == (ResourceManagerConfig { limits, ..self.config }),
    {
        let mut s = self;
        s.config.limits = limits;
        s
    }

    /// Sets the hard limit.
    pub fn with_hard_limit(self, limit: u64) -> (b: Self)
        ensures
            b.config == (ResourceManagerConfig {
                limits: ResourceLimits { hard_limit: limit, ..self.config.limits },
                ..self.config
            }),
    {
        let mut s = self;
        s.config.limits.hard_limit = limit;
        s
    }

    /// Sets the soft limit.
    pub fn with_soft_limit(self, limit: u64) -> (b: Self)
        ensures
            b.config == (ResourceManagerConfig {
                limits: ResourceLimits { soft_limit: limit, ..self.config.limits },
                ..self.config
            }),
    {
        let mut s = self;
        s.config.limits.soft_limit = limit;
        s
    }

    /// Allows overcommit with the given ratio in thousandths.
    pub fn with_overcommit(self, ratio_permille: u32) -> (b: Self)
        ensures
            b.config == (ResourceManagerConfig {
                limits: ResourceLimits {
                    allow_overcommit: true,
                    overcommit_permille: ratio_permille,
                    ..self.config.limits
                },
                ..self.config
            }),
    {
        let mut s = self;
        s.config.limits.allow_overcommit = true;
        s.config.limits.overcommit_permille = ratio_permille;
        s
    }

    /// Sets the system reserve.
    pub fn with_system_reserve(self, reserve: u64) -> (b: Self)
        ensures
            b.config == (ResourceManagerConfig {
                limits: ResourceLimits { system_reserve: reserve, ..self.config.limits },
                ..self.config
            }),
    {
        let mut s = self;
        s.config.limits.system_reserve = reserve;
        s
    }

    /// Sets the monitoring interval.
    pub fn with_monitoring_interval(self, interval_ms: u64) -> (b: Self)
        ensures
            b.config == (ResourceManagerConfig { monitoring_interval_ms: interval_ms, ..self.config }),
    {
        let mut s = self;
        s.config.monitoring_interval_ms = interval_ms;
        s
    }

    /// Sets the health check interval.
    pub fn with_health_check_interval(self, interval_ms: u64) -> (b: Self)
        ensures
            b.config == (ResourceManagerConfig {
                health_check_interval_ms: interval_ms,
                ..self.config
            }),
    {
        let mut s = self;
        s.config.health_check_interval_ms = interval_ms;
        s
    }

    /// Enables or disables telemetry.
    pub fn with_telemetry(self, enabled: bool) -> (b: Self)
        ensures
            b.config == (ResourceManagerConfig { enable_telemetry: enabled, ..self.config }),
    {
        let mut s = self;
        s.config.enable_telemetry = enabled;
        s
    }

    /// Sets a custom setting; an existing value under the key is replaced.
    pub fn with_custom_config(self, key: String, value: String) -> (b: Self)
        requires
            keys_unique(self.config.custom_config@),
        ensures
            keys_unique(b.config.custom_config@),
            lookup(b.config.custom_config@, key@) == Some(value@),
            forall|k: Seq<char>|
                k != key@ ==> lookup(b.config.custom_config@, k) == lookup(
                    self.config.custom_config@,
                    k,
                ),
            b.config == (ResourceManagerConfig {
                custom_config: b.config.custom_config,
                ..self.config
            }),
    {
        let mut s = self;
        let ghost before = s.config.custom_config@;
        let mut i: usize = 0;
        while i < s.config.custom_config.len()
            invariant
                i <= s.config.custom_config@.len(),
                s == self,
                keys_unique(before),
                s.config.custom_config@ == before,
                forall|j: int| 0 <= j < i ==> before[j].0@ != key@,
            decreases s.config.custom_config@.len() - i,
        {
            if text_eq(s.config.custom_config[i].0.as_str(), key.as_str()) {
                s.config.custom_config.set(i, (key, value));
                proof {
                    let after = s.config.custom_config@;
                    lemma_lookup_update(before, i as int, after[i as int]);
                }
                return s;
            }
            i = i + 1;
        }
        s.config.custom_config.push((key, value));
        proof {
            lemma_lookup_push(before, s.config.custom_config@[before.len() as int]);
        }
        s
    }

    /// The configuration built so far.
    pub fn build(self) -> (c: ResourceManagerConfig)
        ensures
            c == self.config,
    {
        self.config
    }
}

proof fn lemma_lookup_absent(s: Seq<(String, String)>, k: Seq<char>)
    requires
        forall|j: int| 0 <= j < s.len() ==> s[j].0@ != k,
    ensures
        lookup(s, k) is None,
    decreases s.len(),
{
    if s.len() > 0 {
        lemma_lookup_absent(s.drop_first(), k);
    }
}

proof fn lemma_lookup_first(s: Seq<(String, String)>, i: int, k: Seq<char>)
    requires
        0 <= i < s.len(),
        s[i].0@ == k,
        forall|j: int| 0 <= j < i ==> s[j].0@ != k,
    ensures
        lookup(s, k) == Some(s[i].1@),
    decreases i,
{
    if i > 0 {
        lemma_lookup_first(s.drop_first(), i - 1, k);
    }
}

proof fn lemma_lookup_index(s: Seq<(String, String)>, k: Seq<char>)
    requires
        keys_unique(s),
    ensures
        lookup(s, k) is None <==> forall|j: int| 0 <= j < s.len() ==> s[j].0@ != k,
        forall|i: int| 0 <= i < s.len() && s[i].0@ == k ==> lookup(s, k) == Some(s[i].1@),
{
    if exists|j: int| 0 <= j < s.len() && s[j].0@ == k {
        let j = choose|j: int| 0 <= j < s.len() && s[j].0@ == k;
        lemma_lookup_first(s, j, k);
    } else {
        lemma_lookup_absent(s, k);
    }
}

proof fn lemma_lookup_update(s: Seq<(String, String)>, i: int, p: (String, String))
    requires
        keys_unique(s),
        0 <= i < s.len(),
        s[i].0@ == p.0@,
    ensures
        keys_unique(s.update(i, p)),
        lookup(s.update(i, p), p.0@) == Some(p.1@),
        forall|k: Seq<char>| k != p.0@ ==> lookup(s.update(i, p), k) == lookup(s, k),
{
    let t = s.update(i, p);
    assert(keys_unique(t)) by {
        assert forall|a: int, b: int| 0 <= a < b < t.len() implies t[a].0@ != t[b].0@ by {
            assert(s[a].0@ != s[b].0@);
        }
    }
    lemma_lookup_index(t, p.0@);
    assert(t[i] == p);
    assert forall|k: Seq<char>| k != p.0@ implies lookup(t, k) == lookup(s, k) by {
        lemma_lookup_index(t, k);
        lemma_lookup_index(s, k);
        if exists|j: int| 0 <= j < s.len() && s[j].0@ == k {
            let j = choose|j: int| 0 <= j < s.len() && s[j].0@ == k;
            assert(t[j].0@ == k);
        } else {
            assert forall|j: int| 0 <= j < t.len() implies t[j].0@ != k by {
                if j != i {
                    assert(s[j].0@ != k);
                }
            }
        }
    }
}

proof fn lemma_lookup_push(s: Seq<(String, String)>, p: (String, String))
    requires
        keys_unique(s),
        forall|j: int| 0 <= j < s.len() ==> s[j].0@ != p.0@,
    ensures
        keys_unique(s.push(p)),
        lookup(s.push(p), p.0@) == Some(p.1@),
        forall|k: Seq<char>| k != p.0@ ==> lookup(s.push(p), k) == lookup(s, k),
{
    let t = s.push(p);
    assert(keys_unique(t)) by {
        assert forall|a: int, b: int| 0 <= a < b < t.len() implies t[a].0@ != t[b].0@ by {
            if b < s.len() {
                assert(s[a].0@ != s[b].0@);
            }
        }
    }
    lemma_lookup_index(t, p.0@);
    assert(t[s.len() as int] == p);
    assert forall|k: Seq<char>| k != p.0@ implies lookup(t, k) == lookup(s, k) by {
        lemma_lookup_index(t, k);
        lemma_lookup_index(s, k);
        if exists|j: int| 0 <= j < s.len() && s[j].0@ == k {
            let j = choose|j: int| 0 <= j < s.len() && s[j].0@ == k;
            assert(t[j].0@ == k);
        } else {
            assert forall|j: int| 0 <= j < t.len() implies t[j].0@ != k by {
                if j < s.len() {
                    assert(s[j].0@ != k);
                }
            }
        }
    }
}

} // verus!
