//! Detection and automatic remediation of operational issues: the issue model,
//! retry policies, and the decisions of the remediation cycle.
use vstd::prelude::*;
use vstd::string::*;

use crate::decimal::{decimal, signed_decimal, to_decimal, to_signed_decimal};
use crate::error::BlixardError;
use crate::text::concat;
use crate::types::{VmState, VmStatus};

verus! {

/// Kinds of issue that can be detected and remediated.
#[derive(Debug, Clone, Copy, PartialEq, Eq, Hash, Structural)]
pub enum IssueType {
    /// A VM has crashed or failed.
    VmFailure,
    /// A node is unhealthy (high resource usage, unresponsive).
    NodeUnhealthy,
    /// Consensus trouble (leader election storms, stuck proposals).
    RaftConsensusIssue,
    /// A network partition.
    NetworkPartition,
    /// CPU, memory or disk exhaustion.
    ResourceExhaustion,
    /// Persistent storage trouble.
    StorageIssue,
    /// High latency or error rates.
    ServiceDegradation,
    /// Configuration drift.
    ConfigurationDrift,
}

/// Severity of an issue, from lowest to highest.
#[derive(Debug, Clone, Copy, PartialEq, Eq, PartialOrd, Ord, Structural)]
pub enum IssueSeverity {
    Low,
    Medium,
    High,
    Critical,
}

/// The resource an issue is about.
#[derive(Debug, Clone)]
pub enum IssueResource {
    Vm { name: String, node_id: u64 },
    Node { id: u64, address: String },
    Cluster,
    Service { name: String },
}

/// A value in the context of an issue.
#[derive(Debug, Clone)]
pub enum ContextValue {
    Text(String),
    Number(u64),
    Numbers(Vec<u64>),
}

/// A detected issue.
#[derive(Debug, Clone)]
pub struct Issue {
    pub id: String,
    pub issue_type: IssueType,
    pub severity: IssueSeverity,
    pub resource: IssueResource,
    /// Detection time, milliseconds since the Unix epoch.
    pub detected_at_ms: i64,
    pub description: String,
    /// Named values describing the issue, in insertion order.
    pub context: Vec<(String, ContextValue)>,
    pub correlation_id: Option<String>,
}

/// One step taken while remediating.
#[derive(Debug, Clone)]
pub struct RemediationAction {
    pub action: String,
    pub target: String,
    pub result: String,
    /// Milliseconds since the Unix epoch.
    pub timestamp_ms: i64,
}

/// Outcome of a remediation attempt.
#[derive(Debug, Clone)]
pub struct RemediationResult {
    pub success: bool,
    pub actions: Vec<RemediationAction>,
    pub error: Option<String>,
    pub duration_ms: u64,
    pub requires_manual_intervention: bool,
}

/// What remediation needs to know of the node it runs on.
#[derive(Debug, Clone, Copy)]
pub struct RemediationContext {
    pub node_id: u64,
}

/// Whether a failed VM operation may be retried.
pub fn vm_failure_is_retryable(error: &BlixardError) -> (r: bool)
    ensures
        r == (error is VmOperationFailed || error is TemporaryFailure || error is ConnectionError
            || error is Timeout),
{
    match error {
        BlixardError::VmOperationFailed { .. } | BlixardError::TemporaryFailure { .. }
        | BlixardError::ConnectionError { .. } | BlixardError::Timeout { .. } => true,
        _ => false,
    }
}

/// Whether a network failure may be retried.
pub fn network_is_retryable(error: &BlixardError) -> (r: bool)
    ensures
        r == (error is NetworkError || error is ConnectionError || error is P2PError
            || error is TemporaryFailure || error is Timeout),
{
    match error {
        BlixardError::NetworkError(_) | BlixardError::ConnectionError { .. }
        | BlixardError::P2PError(_) | BlixardError::TemporaryFailure { .. }
        | BlixardError::Timeout { .. } => true,
        _ => false,
    }
}

/// Whether a resource-exhaustion failure may be retried.
pub fn resource_exhaustion_is_retryable(error: &BlixardError) -> (r: bool)
    ensures
        r == (error is ResourceExhausted || error is InsufficientResources
            || error is TemporaryFailure),
{
    match error {
        BlixardError::ResourceExhausted { .. } | BlixardError::InsufficientResources { .. }
        | BlixardError::TemporaryFailure { .. } => true,
        _ => false,
    }
}

/// Whether a service-degradation failure may be retried.
pub fn service_degradation_is_retryable(error: &BlixardError) -> (r: bool)
    ensures
        r == (error is TemporaryFailure || error is Timeout || error is ServiceManagementError),
{
    match error {
        BlixardError::TemporaryFailure { .. } | BlixardError::Timeout { .. }
        | BlixardError::ServiceManagementError(_) => true,
        _ => false,
    }
}

/// Whether a failure of any other kind may be retried.
pub fn default_is_retryable(error: &BlixardError) -> (r: bool)
    ensures
        r == (error is TemporaryFailure || error is Timeout || error is ConnectionError),
{
    match error {
        BlixardError::TemporaryFailure { .. } | BlixardError::Timeout { .. }
        | BlixardError::ConnectionError { .. } => true,
        _ => false,
    }
}


/// Which failures a retry policy retries.
#[derive(Debug, Clone, Copy, PartialEq, Eq, Structural)]
pub enum RetryClass {
    VmFailure,
    Network,
    ResourceExhaustion,
    ServiceDegradation,
    General,
}

/// Whether a retry class accepts an error.
pub open spec fn retry_accepts(class: RetryClass, e: BlixardError) -> bool {
    match class {
        RetryClass::VmFailure => e is VmOperationFailed || e is TemporaryFailure
            || e is ConnectionError || e is Timeout,
        RetryClass::Network => e is NetworkError || e is ConnectionError || e is P2PError
            || e is TemporaryFailure || e is Timeout,
        RetryClass::ResourceExhaustion => e is ResourceExhausted || e is InsufficientResources
            || e is TemporaryFailure,
        RetryClass::ServiceDegradation => e is TemporaryFailure || e is Timeout
            || e is ServiceManagementError,
        RetryClass::General => e is TemporaryFailure || e is Timeout || e is ConnectionError,
    }
}

impl RetryClass {
    /// Whether the error may be retried under this class.
    pub fn is_retryable(&self, error: &BlixardError) -> (r: bool)
        ensures
            r == retry_accepts(*self, *error),
    {
        match self {
            RetryClass::VmFailure => vm_failure_is_retryable(error),
            RetryClass::Network => network_is_retryable(error),
            RetryClass::ResourceExhaustion => resource_exhaustion_is_retryable(error),
            RetryClass::ServiceDegradation => service_degradation_is_retryable(error),
            RetryClass::General => default_is_retryable(error),
        }
    }
}

/// How long to wait between attempts.
#[derive(Debug, Clone, Copy, PartialEq, Eq, Structural)]
pub enum BackoffStrategy {
    /// The same delay every time.
    Fixed { delay_ms: u64 },
    /// `base * n` before the next attempt after `n` failures, capped at `max`.
    Linear { base_ms: u64, max_ms: u64 },
    /// `base`, then each delay `multiplier` times the last (in thousandths), capped at `max`.
    Exponential { base_ms: u64, max_ms: u64, multiplier_permille: u32 },
}

/// Retry behaviour for one kind of issue.
#[derive(Debug, Clone, Copy, PartialEq, Eq, Structural)]
pub struct RetryConfig {
    pub max_attempts: u32,
    pub backoff: BackoffStrategy,
    pub jitter: bool,
    /// Upper bound on the sum of all delays, if any.
    pub max_total_delay_ms: Option<u64>,
    pub is_retryable: RetryClass,
}

pub open spec fn min_nat(a: nat, b: nat) -> nat {
    if a <= b {
        a
    } else {
        b
    }
}

/// Delay of the exponential strategy after `n >= 1` failures.
pub open spec fn exponential_delay(base: nat, max: nat, mult_pm: nat, n: nat) -> nat
    decreases n,
{
    if n <= 1 {
        min_nat(base, max)
    } else {
        min_nat(exponential_delay(base, max, mult_pm, (n - 1) as nat) * mult_pm / 1000, max)
    }
}

/// Delay before the next attempt after `n >= 1` failures.
pub open spec fn backoff_delay(b: BackoffStrategy, n: nat) -> nat {
    match b {
        BackoffStrategy::Fixed { delay_ms } => delay_ms as nat,
        BackoffStrategy::Linear { base_ms, max_ms } => min_nat((base_ms * n) as nat, max_ms as nat),
        BackoffStrategy::Exponential { base_ms, max_ms, multiplier_permille } => exponential_delay(
            base_ms as nat,
            max_ms as nat,
            multiplier_permille as nat,
            n,
        ),
    }
}

/// Whether another attempt follows the `attempt`-th failure with `error`, after delays
/// that sum to `total_ms`, and if so after how long.
pub open spec fn retry_step(c: RetryConfig, attempt: nat, total_ms: nat, error: BlixardError) -> Option<nat> {
    let delay = backoff_delay(c.backoff, attempt);
    if attempt < c.max_attempts && retry_accepts(c.is_retryable, error) && match c.max_total_delay_ms {
        Some(limit) => total_ms + delay <= limit,
        None => true,
    } {
        Some(delay)
    } else {
        None
    }
}

proof fn lemma_exponential_bound(base: nat, max: nat, mult_pm: nat, n: nat)
    ensures
        exponential_delay(base, max, mult_pm, n) <= max,
    decreases n,
{
    if n > 1 {
        lemma_exponential_bound(base, max, mult_pm, (n - 1) as nat);
    }
}

impl BackoffStrategy {
    /// Delay before the next attempt after `failures >= 1` failures.
    pub fn delay_ms(&self, failures: u32) -> (d: u64)
        requires
            failures >= 1,
        ensures
            d == backoff_delay(*self, failures as nat),
    {
        match *self {
            BackoffStrategy::Fixed { delay_ms } => delay_ms,
            BackoffStrategy::Linear { base_ms, max_ms } => {
                proof {
                    assert(base_ms * failures <= u64::MAX * u32::MAX) by (nonlinear_arith)
                        requires
                            base_ms <= u64::MAX,
                            failures <= u32::MAX,
                    ;
                }
                let p: u128 = (base_ms as u128) * (failures as u128);
                if p <= max_ms as u128 {
                    p as u64
                } else {
                    max_ms
                }
            },
            BackoffStrategy::Exponential { base_ms, max_ms, multiplier_permille } => {
                let mut d: u64 = if base_ms <= max_ms {
                    base_ms
                } else {
                    max_ms
                };
                let mut k: u32 = 1;
                while k < failures
                    invariant
                        1 <= k <= failures,
                        d == exponential_delay(
                            base_ms as nat,
                            max_ms as nat,
                            multiplier_permille as nat,
                            k as nat,
                        ),
                    decreases failures - k,
                {
                    proof {
                        lemma_exponential_bound(
                            base_ms as nat,
                            max_ms as nat,
                            multiplier_permille as nat,
                            k as nat,
                        );
                        assert(d * multiplier_permille <= u64::MAX * u32::MAX) by (nonlinear_arith)
                            requires
                                d <= u64::MAX,
                                multiplier_permille <= u32::MAX,
                        ;
                    }
                    let next: u128 = (d as u128) * (multiplier_permille as u128) / 1000;
                    d = if next <= max_ms as u128 {
                        next as u64
                    } else {
                        max_ms
                    };
                    k = k + 1;
                }
                d
            },
        }
    }
}

impl RetryConfig {
    /// After the `attempt`-th attempt failed with `error`, and delays summing to
    /// `total_delay_ms` were already spent: the delay before the next attempt, or
    /// `None` when the attempts, the error or the delay budget rule out another.
    pub fn next_retry(&self, attempt: u32, total_delay_ms: u64, error: &BlixardError) -> (r: Option<u64>)
        requires
            attempt >= 1,
        ensures
            match r {
                Some(d) => retry_step(*self, attempt as nat, total_delay_ms as nat, *error) == Some(d as nat),
                None => retry_step(*self, attempt as nat, total_delay_ms as nat, *error) is None,
            },
    {
        let delay = self.backoff.delay_ms(attempt);
        if attempt >= self.max_attempts || !self.is_retryable.is_retryable(error) {
            return None;
        }
        match self.max_total_delay_ms {
            Some(limit) => {
                if (total_delay_ms as u128) + (delay as u128) <= limit as u128 {
                    Some(delay)
                } else {
                    None
                }
            },
            None => Some(delay),
        }
    }
}


/// How the engine remediates.
#[derive(Debug, Clone)]
pub struct RemediationPolicy {
    /// Whether automatic remediation runs at all.
    pub enabled: bool,
    /// Retry configuration per issue type; the first entry for a type applies.
    pub retry_configs: Vec<(IssueType, RetryConfig)>,
    /// Whether destructive actions wait for human approval.
    pub require_approval_for_destructive: bool,
    /// Issue types remediated without a human.
    pub auto_remediate_types: Vec<IssueType>,
}

/// The retry configuration used for issue types without a dedicated one.
pub open spec fn general_retry() -> RetryConfig {
    RetryConfig {
        max_attempts: 3,
        backoff: BackoffStrategy::Linear { base_ms: 1000, max_ms: 30_000 },
        jitter: true,
        max_total_delay_ms: Some(300_000),
        is_retryable: RetryClass::General,
    }
}

/// The retry configuration of the default policy for each issue type.
pub open spec fn default_retry(t: IssueType) -> RetryConfig {
    match t {
        IssueType::VmFailure => RetryConfig {
            max_attempts: 5,
            backoff: BackoffStrategy::Exponential {
                base_ms: 500,
                max_ms: 30_000,
                multiplier_permille: 2000,
            },
            jitter: true,
            max_total_delay_ms: Some(300_000),
            is_retryable: RetryClass::VmFailure,
        },
        IssueType::NetworkPartition => RetryConfig {
            max_attempts: 10,
            backoff: BackoffStrategy::Linear { base_ms: 1000, max_ms: 60_000 },
            jitter: true,
            max_total_delay_ms: Some(600_000),
            is_retryable: RetryClass::Network,
        },
        IssueType::ResourceExhaustion => RetryConfig {
            max_attempts: 3,
            backoff: BackoffStrategy::Exponential {
                base_ms: 2000,
                max_ms: 120_000,
                multiplier_permille: 2000,
            },
            jitter: true,
            max_total_delay_ms: Some(600_000),
            is_retryable: RetryClass::ResourceExhaustion,
        },
        IssueType::ServiceDegradation => RetryConfig {
            max_attempts: 3,
            backoff: BackoffStrategy::Fixed { delay_ms: 5000 },
            jitter: false,
            max_total_delay_ms: Some(60_000),
            is_retryable: RetryClass::ServiceDegradation,
        },
        _ => general_retry(),
    }
}

/// The retry table of the default policy, in the order its entries are made.
pub open spec fn default_retry_table() -> Seq<(IssueType, RetryConfig)> {
    seq![
        (IssueType::VmFailure, default_retry(IssueType::VmFailure)),
        (IssueType::NetworkPartition, default_retry(IssueType::NetworkPartition)),
        (IssueType::ResourceExhaustion, default_retry(IssueType::ResourceExhaustion)),
        (IssueType::ServiceDegradation, default_retry(IssueType::ServiceDegradation)),
        (IssueType::NodeUnhealthy, default_retry(IssueType::NodeUnhealthy)),
        (IssueType::RaftConsensusIssue, default_retry(IssueType::RaftConsensusIssue)),
        (IssueType::StorageIssue, default_retry(IssueType::StorageIssue)),
        (IssueType::ConfigurationDrift, default_retry(IssueType::ConfigurationDrift)),
    ]
}

/// The retry configuration that applies to `t`: that of its first entry.
pub open spec fn lookup_retry(s: Seq<(IssueType, RetryConfig)>, t: IssueType) -> Option<RetryConfig>
    decreases s.len(),
{
    if s.len() == 0 {
        None
    } else if s[0].0 == t {
        Some(s[0].1)
    } else {
        lookup_retry(s.drop_first(), t)
    }
}

impl Default for RemediationPolicy {
    fn default() -> (p: Self)
        ensures
            p.enabled,
            p.retry_configs@ == default_retry_table(),
            p.require_approval_for_destructive,
            p.auto_remediate_types@ == seq![
                IssueType::VmFailure,
                IssueType::ServiceDegradation,
                IssueType::ResourceExhaustion,
            ],
    {
        let mut retry_configs: Vec<(IssueType, RetryConfig)> = Vec::new();
        retry_configs.push(
            (
                IssueType::VmFailure,
                RetryConfig {
                    max_attempts: 5,
                    backoff: BackoffStrategy::Exponential {
                        base_ms: 500,
                        max_ms: 30_000,
                        multiplier_permille: 2000,
                    },
                    jitter: true,
                    max_total_delay_ms: Some(300_000),
                    is_retryable: RetryClass::VmFailure,
                },
            ),
        );
        retry_configs.push(
            (
                IssueType::NetworkPartition,
                RetryConfig {
                    max_attempts: 10,
                    backoff: BackoffStrategy::Linear { base_ms: 1000, max_ms: 60_000 },
                    jitter: true,
                    max_total_delay_ms: Some(600_000),
                    is_retryable: RetryClass::Network,
                },
            ),
        );
        retry_configs.push(
            (
                IssueType::ResourceExhaustion,
                RetryConfig {
                    max_attempts: 3,
                    backoff: BackoffStrategy::Exponential {
                        base_ms: 2000,
                        max_ms: 120_000,
                        multiplier_permille: 2000,
                    },
                    jitter: true,
                    max_total_delay_ms: Some(600_000),
                    is_retryable: RetryClass::ResourceExhaustion,
                },
            ),
        );
        retry_configs.push(
            (
                IssueType::ServiceDegradation,
                RetryConfig {
                    max_attempts: 3,
                    backoff: BackoffStrategy::Fixed { delay_ms: 5000 },
                    jitter: false,
                    max_total_delay_ms: Some(60_000),
                    is_retryable: RetryClass::ServiceDegradation,
                },
            ),
        );
        let general = RetryConfig {
            max_attempts: 3,
            backoff: BackoffStrategy::Linear { base_ms: 1000, max_ms: 30_000 },
            jitter: true,
            max_total_delay_ms: Some(300_000),
            is_retryable: RetryClass::General,
        };
        retry_configs.push((IssueType::NodeUnhealthy, general));
        retry_configs.push((IssueType::RaftConsensusIssue, general));
        retry_configs.push((IssueType::StorageIssue, general));
        retry_configs.push((IssueType::ConfigurationDrift, general));
        let mut auto_remediate_types: Vec<IssueType> = Vec::new();
        auto_remediate_types.push(IssueType::VmFailure);
        auto_remediate_types.push(IssueType::ServiceDegradation);
        auto_remediate_types.push(IssueType::ResourceExhaustion);
        proof {
            assert(retry_configs@ =~= default_retry_table());
            assert(auto_remediate_types@ =~= seq![
                IssueType::VmFailure,
                IssueType::ServiceDegradation,
                IssueType::ResourceExhaustion,
            ]);
        }
        RemediationPolicy {
            enabled: true,
            retry_configs,
            require_approval_for_destructive: true,
            auto_remediate_types,
        }
    }
}

impl RemediationPolicy {
    /// The retry configuration for an issue type, if the policy has one.
    pub fn retry_config_for(&self, issue_type: IssueType) -> (r: Option<RetryConfig>)
        ensures
            r == lookup_retry(self.retry_configs@, issue_type),
    {
        let mut i: usize = 0;
        proof {
            assert(self.retry_configs@.skip(0) =~= self.retry_configs@);
        }
        while i < self.retry_configs.len()
            invariant
                i <= self.retry_configs@.len(),
                lookup_retry(self.retry_configs@, issue_type) == lookup_retry(
                    self.retry_configs@.skip(i as int),
                    issue_type,
                ),
            decreases self.retry_configs@.len() - i,
        {
            let entry = self.retry_configs[i];
            proof {
                assert(self.retry_configs@.skip(i as int)[0] == entry);
                assert(self.retry_configs@.skip(i as int).drop_first() =~= self.retry_configs@.skip(
                    i as int + 1,
                ));
            }
            if entry.0 == issue_type {
                return Some(entry.1);
            }
            i = i + 1;
        }
        None
    }

    /// Whether issues of this type are remediated automatically.
    pub fn auto_remediates(&self, issue_type: IssueType) -> (r: bool)
        ensures
            r == self.auto_remediate_types@.contains(issue_type),
    {
        let mut i: usize = 0;
        while i < self.auto_remediate_types.len()
            invariant
                i <= self.auto_remediate_types@.len(),
                forall|k: int| 0 <= k < i ==> self.auto_remediate_types@[k] != issue_type,
            decreases self.auto_remediate_types@.len() - i,
        {
            if self.auto_remediate_types[i] == issue_type {
                return true;
            }
            i = i + 1;
        }
        false
    }
}


/// How long a remediation counts as in progress, in milliseconds.
pub const REMEDIATION_TIMEOUT_MS: i64 = 600_000;

/// Start time of the remediation of `id`, if one was recorded.
pub open spec fn active_start(s: Seq<(String, i64)>, id: Seq<char>) -> Option<i64>
    decreases s.len(),
{
    if s.len() == 0 {
        None
    } else if s.last().0@ == id {
        Some(s.last().1)
    } else {
        active_start(s.drop_last(), id)
    }
}

/// Remediations in progress: issue id and start time (milliseconds since the epoch).
pub struct ActiveRemediations {
    /// No two entries share an issue id.
    pub entries: Vec<(String, i64)>,
}

impl ActiveRemediations {
    /// Whether no two entries share an id.
    pub open spec fn wf(&self) -> bool {
        forall|i: int, j: int|
            0 <= i < j < self.entries@.len() ==> self.entries@[i].0@ != self.entries@[j].0@
    }

    /// Whether the issue counts as being remediated at `now_ms`: it was started and
    /// not more than the timeout ago.
    pub open spec fn spec_is_active(&self, id: Seq<char>, now_ms: i64) -> bool {
        match active_start(self.entries@, id) {
            Some(start) => now_ms - start <= REMEDIATION_TIMEOUT_MS,
            None => false,
        }
    }

    /// Nothing in progress.
    pub fn new() -> (a: Self)
        ensures
            a.wf(),
            forall|id: Seq<char>| active_start(a.entries@, id) is None,
    {
        ActiveRemediations { entries: Vec::new() }
    }

    fn find(&self, id: &str) -> (r: Option<usize>)
        ensures
            match r {
                Some(i) => i < self.entries@.len() && self.entries@[i as int].0@ == id@,
                None => forall|j: int| 0 <= j < self.entries@.len() ==> self.entries@[j].0@ != id@,
            },
    {
        let mut i: usize = 0;
        while i < self.entries.len()
            invariant
                i <= self.entries@.len(),
                forall|j: int| 0 <= j < i ==> self.entries@[j].0@ != id@,
            decreases self.entries@.len() - i,
        {
            if crate::text::text_eq(self.entries[i].0.as_str(), id) {
                return Some(i);
            }
            i = i + 1;
        }
        None
    }

    /// Whether the issue is being remediated at `now_ms`.
    pub fn is_being_remediated(&self, issue_id: &str, now_ms: i64) -> (r: bool)
        requires
            self.wf(),
        ensures
            r == self.spec_is_active(issue_id@, now_ms),
    {
        match self.find(issue_id) {
            Some(i) => {
                proof {
                    lemma_active_start_at(self.entries@, i as int);
                }
                let start = self.entries[i].1;
                (now_ms as i128) - (start as i128) <= REMEDIATION_TIMEOUT_MS as i128
            },
            None => {
                proof {
                    lemma_active_start_absent(self.entries@, issue_id@);
                }
                false
            },
        }
    }

    /// Records that remediation of the issue started at `now_ms`.
    pub fn mark_active(&mut self, issue_id: &str, now_ms: i64)
        requires
            old(self).wf(),
        ensures
            final(self).wf(),
            active_start(final(self).entries@, issue_id@) == Some(now_ms),
            forall|id: Seq<char>|
                id != issue_id@ ==> active_start(final(self).entries@, id) == active_start(
                    old(self).entries@,
                    id,
                ),
    {
        let entry = (String::from_str(issue_id), now_ms);
        match self.find(issue_id) {
            Some(i) => {
                let ghost before = self.entries@;
                self.entries.set(i, entry);
                proof {
                    assert forall|a: int, b: int|
                        0 <= a < b < self.entries@.len() implies self.entries@[a].0@
                        != self.entries@[b].0@ by {
                        if a != i && b != i {
                            assert(before[a].0@ != before[b].0@);
                        } else if a == i {
                            assert(before[b].0@ != before[a].0@);
                        } else {
                            assert(before[a].0@ != before[b].0@);
                        }
                    }
                    lemma_active_start_at(self.entries@, i as int);
                    assert forall|id: Seq<char>| id != issue_id@ implies active_start(
                        self.entries@,
                        id,
                    ) == active_start(before, id) by {
                        lemma_active_start_update(before, i as int, entry, id);
                    }
                }
            },
            None => {
                let ghost before = self.entries@;
                self.entries.push(entry);
                proof {
                    assert(self.entries@.drop_last() =~= before);
                }
            },
        }
    }

    /// Forgets the remediation of the issue.
    pub fn clear(&mut self, issue_id: &str)
        requires
            old(self).wf(),
        ensures
            final(self).wf(),
            active_start(final(self).entries@, issue_id@) is None,
            forall|id: Seq<char>|
                id != issue_id@ ==> active_start(final(self).entries@, id) == active_start(
                    old(self).entries@,
                    id,
                ),
    {
        match self.find(issue_id) {
            Some(i) => {
                let ghost before = self.entries@;
                self.entries.remove(i);
                proof {
                    assert forall|a: int, b: int|
                        0 <= a < b < self.entries@.len() implies self.entries@[a].0@
                        != self.entries@[b].0@ by {
                        if a < i && b < i {
                            assert(before[a].0@ != before[b].0@);
                        } else if a < i {
                            assert(before[a].0@ != before[b + 1].0@);
                        } else {
                            assert(before[a + 1].0@ != before[b + 1].0@);
                        }
                    }
                    assert forall|id: Seq<char>|
                        (id != issue_id@ || id == issue_id@) implies active_start(self.entries@, id)
                        == (if id == issue_id@ {
                        None
                    } else {
                        active_start(before, id)
                    }) by {
                        lemma_active_start_remove(before, i as int, id);
                    }
                }
            },
            None => {
                proof {
                    lemma_active_start_absent(self.entries@, issue_id@);
                }
            },
        }
    }
}

proof fn lemma_active_start_absent(s: Seq<(String, i64)>, id: Seq<char>)
    requires
        forall|j: int| 0 <= j < s.len() ==> s[j].0@ != id,
    ensures
        active_start(s, id) is None,
    decreases s.len(),
{
    if s.len() > 0 {
        lemma_active_start_absent(s.drop_last(), id);
    }
}

proof fn lemma_active_start_at(s: Seq<(String, i64)>, i: int)
    requires
        0 <= i < s.len(),
        forall|a: int, b: int| 0 <= a < b < s.len() ==> s[a].0@ != s[b].0@,
    ensures
        active_start(s, s[i].0@) == Some(s[i].1),
    decreases s.len(),
{
    if i < s.len() - 1 {
        assert(s.last().0@ != s[i].0@);
        lemma_active_start_at(s.drop_last(), i);
    }
}

proof fn lemma_active_start_update(s: Seq<(String, i64)>, i: int, e: (String, i64), id: Seq<char>)
    requires
        0 <= i < s.len(),
        s[i].0@ == e.0@,
        id != e.0@,
    ensures
        active_start(s.update(i, e), id) == active_start(s, id),
    decreases s.len(),
{
    if i < s.len() - 1 {
        assert(s.update(i, e).drop_last() =~= s.drop_last().update(i, e));
        lemma_active_start_update(s.drop_last(), i, e, id);
    } else {
        assert(s.update(i, e).drop_last() =~= s.drop_last());
    }
}

proof fn lemma_active_start_remove(s: Seq<(String, i64)>, i: int, id: Seq<char>)
    requires
        0 <= i < s.len(),
        forall|a: int, b: int| 0 <= a < b < s.len() ==> s[a].0@ != s[b].0@,
    ensures
        active_start(s.remove(i), id) == (if id == s[i].0@ {
            None
        } else {
            active_start(s, id)
        }),
    decreases s.len(),
{
    if i < s.len() - 1 {
        assert(s.remove(i).drop_last() =~= s.drop_last().remove(i));
        assert(s.remove(i).last() == s.last());
        lemma_active_start_remove(s.drop_last(), i, id);
        if id == s[i].0@ {
            assert(s.last().0@ != s[i].0@);
        }
    } else {
        assert(s.remove(i) =~= s.drop_last());
        if id == s[i].0@ {
            assert forall|j: int| 0 <= j < s.drop_last().len() implies s.drop_last()[j].0@ != id by {
                assert(s[j].0@ != s[i].0@);
            }
            lemma_active_start_absent(s.drop_last(), id);
        }
    }
}


/// Indices, in increasing order, of the issues with severity `sev`.
pub open spec fn indices_with(s: Seq<Issue>, sev: IssueSeverity) -> Seq<usize>
    decreases s.len(),
{
    if s.len() == 0 {
        Seq::empty()
    } else if s.last().severity == sev {
        indices_with(s.drop_last(), sev).push((s.len() - 1) as usize)
    } else {
        indices_with(s.drop_last(), sev)
    }
}

/// The order in which issues are handled: most severe first, detection order within
/// a severity.
pub open spec fn severity_order(s: Seq<Issue>) -> Seq<usize> {
    indices_with(s, IssueSeverity::Critical) + indices_with(s, IssueSeverity::High) + indices_with(
        s,
        IssueSeverity::Medium,
    ) + indices_with(s, IssueSeverity::Low)
}

fn indices_of_severity(issues: &Vec<Issue>, sev: IssueSeverity) -> (r: Vec<usize>)
    ensures
        r@ == indices_with(issues@, sev),
{
    let mut out: Vec<usize> = Vec::new();
    let mut i: usize = 0;
    while i < issues.len()
        invariant
            i <= issues@.len(),
            out@ == indices_with(issues@.take(i as int), sev),
        decreases issues@.len() - i,
    {
        proof {
            assert(issues@.take(i as int + 1).drop_last() =~= issues@.take(i as int));
        }
        if issues[i].severity == sev {
            out.push(i);
        }
        i = i + 1;
    }
    proof {
        assert(issues@.take(issues@.len() as int) =~= issues@);
    }
    out
}

/// Indices of the issues in the order they are handled: by decreasing severity,
/// keeping detection order among issues of equal severity.
pub fn processing_order(issues: &Vec<Issue>) -> (r: Vec<usize>)
    ensures
        r@ == severity_order(issues@),
{
    let mut r = indices_of_severity(issues, IssueSeverity::Critical);
    let mut high = indices_of_severity(issues, IssueSeverity::High);
    let mut medium = indices_of_severity(issues, IssueSeverity::Medium);
    let mut low = indices_of_severity(issues, IssueSeverity::Low);
    r.append(&mut high);
    r.append(&mut medium);
    r.append(&mut low);
    r
}

/// Whether candidate `i` is the remediator tried for an issue, given each
/// candidate's priority and whether it can handle the issue: the highest priority
/// among those that can, the earliest registered among equals.
pub open spec fn preferred_remediator(c: Seq<(u32, bool)>, i: int) -> bool {
    &&& 0 <= i < c.len()
    &&& c[i].1
    &&& forall|j: int| 0 <= j < c.len() && #[trigger] c[j].1 ==> c[j].0 <= c[i].0
    &&& forall|j: int| 0 <= j < i && #[trigger] c[j].1 ==> c[j].0 < c[i].0
}

/// The remediator to use, from `(priority, can_handle)` of each registered one in
/// registration order; `None` when none can handle the issue.
pub fn choose_remediator(candidates: &Vec<(u32, bool)>) -> (r: Option<usize>)
    ensures
        match r {
            Some(i) => preferred_remediator(candidates@, i as int),
            None => forall|j: int| 0 <= j < candidates@.len() ==> !(#[trigger] candidates@[j]).1,
        },
{
    let mut best: Option<usize> = None;
    let mut i: usize = 0;
    while i < candidates.len()
        invariant
            i <= candidates@.len(),
            match best {
                Some(b) => {
                    &&& b < i
                    &&& candidates@[b as int].1
                    &&& forall|j: int|
                        0 <= j < i && #[trigger] candidates@[j].1 ==> candidates@[j].0
                            <= candidates@[b as int].0
                    &&& forall|j: int|
                        0 <= j < b && #[trigger] candidates@[j].1 ==> candidates@[j].0
                            < candidates@[b as int].0
                },
                None => forall|j: int| 0 <= j < i ==> !(#[trigger] candidates@[j]).1,
            },
        decreases candidates@.len() - i,
    {
        let (prio, can) = candidates[i];
        if can {
            match best {
                Some(b) => {
                    if prio > candidates[b].0 {
                        best = Some(i);
                    }
                },
                None => {
                    best = Some(i);
                },
            }
        }
        i = i + 1;
    }
    best
}

/// What the engine does with an issue.
#[derive(Debug, Clone, Copy)]
pub enum IssueDecision {
    /// Skip: a remediation of it is in progress.
    AlreadyBeingRemediated,
    /// Skip: the policy has no retry configuration for its type.
    NoRetryConfig,
    /// Skip: its type is not remediated automatically.
    AutoRemediationDisabled,
    /// Remediate it, retrying under this configuration.
    Remediate(RetryConfig),
}

impl RemediationPolicy {
    /// Decides what to do with an issue at `now_ms`.
    pub fn plan_issue(&self, active: &ActiveRemediations, issue: &Issue, now_ms: i64) -> (d: IssueDecision)
        requires
            active.wf(),
        ensures
            active.spec_is_active(issue.id@, now_ms) ==> d is AlreadyBeingRemediated,
            !active.spec_is_active(issue.id@, now_ms) ==> match lookup_retry(
                self.retry_configs@,
                issue.issue_type,
            ) {
                None => d is NoRetryConfig,
                Some(c) => if self.auto_remediate_types@.contains(issue.issue_type) {
                    d == IssueDecision::Remediate(c)
                } else {
                    d is AutoRemediationDisabled
                },
            },
    {
        if active.is_being_remediated(issue.id.as_str(), now_ms) {
            return IssueDecision::AlreadyBeingRemediated;
        }
        let config = match self.retry_config_for(issue.issue_type) {
            Some(c) => c,
            None => {
                return IssueDecision::NoRetryConfig;
            },
        };
        if !self.auto_remediates(issue.issue_type) {
            return IssueDecision::AutoRemediationDisabled;
        }
        IssueDecision::Remediate(config)
    }
}

/// The result recorded when every attempt of a remediation failed.
pub fn retry_exhausted_result(error_text: String) -> (r: RemediationResult)
    ensures
        !r.success,
        r.actions@.len() == 0,
        r.error == Some(error_text),
        r.duration_ms == 0,
        r.requires_manual_intervention,
{
    RemediationResult {
        success: false,
        actions: Vec::new(),
        error: Some(error_text),
        duration_ms: 0,
        requires_manual_intervention: true,
    }
}

/// A remediation that took place.
#[derive(Debug, Clone)]
pub struct RemediationEvent {
    pub id: String,
    pub issue: Issue,
    pub result: RemediationResult,
    /// Milliseconds since the Unix epoch.
    pub timestamp_ms: i64,
}

/// Past remediations, oldest first.
pub struct RemediationHistory {
    pub events: Vec<RemediationEvent>,
}

impl RemediationHistory {
    pub fn new() -> (h: Self)
        ensures
            h.events@.len() == 0,
    {
        RemediationHistory { events: Vec::new() }
    }

    /// Appends the result of remediating `issue`, stamped with `now_ms` and a fresh id.
    pub fn record(&mut self, issue: Issue, result: RemediationResult, now_ms: i64)
        ensures
            final(self).events@.len() == old(self).events@.len() + 1,
            final(self).events@.take(old(self).events@.len() as int) == old(self).events@,
            final(self).events@.last().issue == issue,
            final(self).events@.last().result == result,
            final(self).events@.last().timestamp_ms == now_ms,
            final(self).events@.last().id@.len() == 36,
    {
        let ghost before = self.events@;
        let id = crate::ids::new_uuid_text();
        self.events.push(RemediationEvent { id, issue, result, timestamp_ms: now_ms });
        proof {
            assert(self.events@.take(before.len() as int) =~= before);
        }
    }
}


/// Whether a context entry is the text `v` under the name `k`.
pub open spec fn ctx_text(e: (String, ContextValue), k: Seq<char>, v: Seq<char>) -> bool {
    e.0@ == k && (e.1 matches ContextValue::Text(t) && t@ == v)
}

/// Whether a context entry is the number `n` under the name `k`.
pub open spec fn ctx_number(e: (String, ContextValue), k: Seq<char>, n: u64) -> bool {
    e.0@ == k && e.1 == ContextValue::Number(n)
}

/// A context entry holding text.
pub fn text_entry(key: &str, value: &str) -> (e: (String, ContextValue))
    ensures
        ctx_text(e, key@, value@),
{
    (String::from_str(key), ContextValue::Text(String::from_str(value)))
}

/// A context entry holding a number.
pub fn number_entry(key: &str, n: u64) -> (e: (String, ContextValue))
    ensures
        ctx_number(e, key@, n),
{
    (String::from_str(key), ContextValue::Number(n))
}

/// Seconds since the epoch of a time in milliseconds, rounded down.
pub fn secs_of_millis(ms: i64) -> (s: i64)
    ensures
        s == ms / 1000,
{
    if ms >= 0 {
        ms / 1000
    } else {
        let p: i64 = -(ms + 1);
        let q: i64 = p / 1000;
        proof {
            assert(-(q + 1) == ms / 1000) by (nonlinear_arith)
                requires
                    p == -(ms + 1),
                    q == p / 1000,
                    ms < 0,
            ;
        }
        -q - 1
    }
}

/// `prefix` followed by the decimal notation of `n`.
pub fn with_number(prefix: &str, n: u64) -> (s: String)
    ensures
        s@ == prefix@ + decimal(n as nat),
{
    let d = to_decimal(n);
    concat(prefix, d.as_str())
}

/// `prefix` followed by the signed decimal notation of `n`.
pub fn with_signed_number(prefix: &str, n: i64) -> (s: String)
    ensures
        s@ == prefix@ + signed_decimal(n as int),
{
    let d = to_signed_decimal(n);
    concat(prefix, d.as_str())
}

/// Indices of the failed VMs, in order.
pub open spec fn failed_vm_indices(vms: Seq<VmState>) -> Seq<int>
    decreases vms.len(),
{
    if vms.len() == 0 {
        Seq::empty()
    } else if vms.last().status == VmStatus::Failed {
        failed_vm_indices(vms.drop_last()).push(vms.len() - 1)
    } else {
        failed_vm_indices(vms.drop_last())
    }
}

/// Whether `i` is the issue reported at `now_ms` for the failed VM `vm`.
pub open spec fn is_failed_vm_issue(i: Issue, vm: VmState, now_ms: i64) -> bool {
    &&& i.id@ == "vm-failure-"@ + vm.name@ + "-"@ + signed_decimal(now_ms / 1000)
    &&& i.issue_type == IssueType::VmFailure
    &&& i.severity == IssueSeverity::High
    &&& (i.resource matches IssueResource::Vm { name, node_id } && name@ == vm.name@ && node_id
        == vm.node_id)
    &&& i.detected_at_ms == now_ms
    &&& i.description@ == "VM "@ + vm.name@ + " has failed"@
    &&& i.context@.len() == 3
    &&& ctx_text(i.context@[0], "vm_name"@, vm.name@)
    &&& ctx_number(i.context@[1], "node_id"@, vm.node_id)
    &&& ctx_text(i.context@[2], "status"@, "Failed"@)
    &&& i.correlation_id is None
}

/// Detector of failed VMs.
pub struct VmFailureDetector;

impl VmFailureDetector {
    /// The issue types this detector reports.
    pub fn issue_types(&self) -> (r: Vec<IssueType>)
        ensures
            r@ == seq![IssueType::VmFailure],
    {
        let mut r = Vec::new();
        r.push(IssueType::VmFailure);
        proof {
            assert(r@ =~= seq![IssueType::VmFailure]);
        }
        r
    }

    /// One high-severity issue per failed VM, in the order of `vms`.
    pub fn detect(&self, vms: &Vec<VmState>, now_ms: i64) -> (r: Vec<Issue>)
        ensures
            r@.len() == failed_vm_indices(vms@).len(),
            forall|k: int|
                0 <= k < r@.len() ==> is_failed_vm_issue(
                    #[trigger] r@[k],
                    vms@[failed_vm_indices(vms@)[k]],
                    now_ms,
                ),
    {
        let secs = secs_of_millis(now_ms);
        let mut out: Vec<Issue> = Vec::new();
        let mut i: usize = 0;
        while i < vms.len()
            invariant
                i <= vms@.len(),
                secs == now_ms / 1000,
                out@.len() == failed_vm_indices(vms@.take(i as int)).len(),
                forall|k: int|
                    0 <= k < out@.len() ==> is_failed_vm_issue(
                        #[trigger] out@[k],
                        vms@.take(i as int)[failed_vm_indices(vms@.take(i as int))[k]],
                        now_ms,
                    ),
            decreases vms@.len() - i,
        {
            let ghost prev = vms@.take(i as int);
            let ghost next = vms@.take(i as int + 1);
            proof {
                assert(next.drop_last() =~= prev);
                lemma_failed_indices_bound(prev);
                assert forall|k: int| 0 <= k < failed_vm_indices(prev).len() implies next[failed_vm_indices(prev)[k]]
                    == prev[failed_vm_indices(prev)[k]] by {}
            }
            let vm = &vms[i];
            if vm.status == VmStatus::Failed {
                let id_head = concat("vm-failure-", vm.name.as_str());
                let id_mid = concat(id_head.as_str(), "-");
                let id = with_signed_number(id_mid.as_str(), secs);
                let desc_head = concat("VM ", vm.name.as_str());
                let description = concat(desc_head.as_str(), " has failed");
                let mut context: Vec<(String, ContextValue)> = Vec::new();
                context.push(text_entry("vm_name", vm.name.as_str()));
                context.push(number_entry("node_id", vm.node_id));
                context.push(text_entry("status", "Failed"));
                let issue = Issue {
                    id,
                    issue_type: IssueType::VmFailure,
                    severity: IssueSeverity::High,
                    resource: IssueResource::Vm { name: vm.name.clone(), node_id: vm.node_id },
                    detected_at_ms: now_ms,
                    description,
                    context,
                    correlation_id: None,
                };
                out.push(issue);
                proof {
                    assert(vms@[i as int] == next[i as int]);
                }
            }
            i = i + 1;
        }
        proof {
            assert(vms@.take(vms@.len() as int) =~= vms@);
        }
        out
    }
}

proof fn lemma_failed_indices_bound(vms: Seq<VmState>)
    ensures
        forall|k: int|
            0 <= k < failed_vm_indices(vms).len() ==> 0 <= #[trigger] failed_vm_indices(vms)[k]
                < vms.len(),
    decreases vms.len(),
{
    if vms.len() > 0 {
        let rest = failed_vm_indices(vms.drop_last());
        lemma_failed_indices_bound(vms.drop_last());
        assert forall|k: int| 0 <= k < failed_vm_indices(vms).len() implies 0
            <= #[trigger] failed_vm_indices(vms)[k] < vms.len() by {
            if k < rest.len() {
                assert(failed_vm_indices(vms)[k] == rest[k]);
            }
        }
    }
}


/// Whether `a` is the action `action` on `target` with outcome `result` at `ts`.
pub open spec fn is_action(a: RemediationAction, action: Seq<char>, target: Seq<char>, result: Seq<char>, ts: i64) -> bool {
    &&& a.action@ == action
    &&& a.target@ == target
    &&& a.result@ == result
    &&& a.timestamp_ms == ts
}

/// An action record.
pub fn make_action(action: &str, target: &str, result: &str, now_ms: i64) -> (a: RemediationAction)
    ensures
        is_action(a, action@, target@, result@, now_ms),
{
    RemediationAction {
        action: String::from_str(action),
        target: String::from_str(target),
        result: String::from_str(result),
        timestamp_ms: now_ms,
    }
}

/// The result of a remediation that could not start, with the reason.
pub fn failed_before_start(error: String, duration_ms: u64) -> (r: RemediationResult)
    ensures
        !r.success,
        r.actions@.len() == 0,
        r.error == Some(error),
        r.duration_ms == duration_ms,
        r.requires_manual_intervention,
{
    RemediationResult {
        success: false,
        actions: Vec::new(),
        error: Some(error),
        duration_ms,
        requires_manual_intervention: true,
    }
}

/// Restarts failed VMs.
pub struct VmFailureRemediator {
    pub max_restart_attempts: u32,
}

impl VmFailureRemediator {
    pub fn new(max_restart_attempts: u32) -> (r: Self)
        ensures
            r.max_restart_attempts == max_restart_attempts,
    {
        VmFailureRemediator { max_restart_attempts }
    }

    /// Handles VM failures.
    pub fn can_handle(&self, issue: &Issue) -> (r: bool)
        ensures
            r == (issue.issue_type == IssueType::VmFailure),
    {
        issue.issue_type == IssueType::VmFailure
    }

    pub fn priority(&self) -> (p: u32)
        ensures
            p == 10,
    {
        10
    }

    /// The VM an issue is about: its name and node, or the failed result when the
    /// issue names no VM.
    pub fn target_vm(&self, issue: &Issue, duration_ms: u64) -> (r: Result<(String, u64), RemediationResult>)
        ensures
            match issue.resource {
                IssueResource::Vm { name, node_id } => r is Ok && r->Ok_0.0@ == name@ && r->Ok_0.1
                    == node_id,
                _ => r is Err && !r->Err_0.success && r->Err_0.actions@.len() == 0
                    && (r->Err_0.error matches Some(e) && e@ == "Invalid resource type for VM failure"@)
                    && r->Err_0.duration_ms == duration_ms && r->Err_0.requires_manual_intervention,
            },
    {
        match &issue.resource {
            IssueResource::Vm { name, node_id } => Ok((name.clone(), *node_id)),
            _ => Err(
                failed_before_start(
                    String::from_str("Invalid resource type for VM failure"),
                    duration_ms,
                ),
            ),
        }
    }

    /// The outcome of restarting `vm_name`, from the restart's own outcome (`error_text`
    /// renders its error). A retryable failure is handed back as the error, for the
    /// engine to retry; other failures become a result that asks for a human.
    pub fn restart_outcome(
        &self,
        vm_name: &str,
        node_id: u64,
        context: &RemediationContext,
        restart: Result<(), BlixardError>,
        error_text: &str,
        now_ms: i64,
        duration_ms: u64,
    ) -> (r: Result<RemediationResult, BlixardError>)
        ensures
            restart is Ok ==> r is Ok && {
                let res = r->Ok_0;
                &&& res.success
                &&& res.actions@.len() == 1
                &&& is_action(res.actions@[0], "restart_vm"@, vm_name@, "VM restarted successfully"@, now_ms)
                &&& res.error is None
                &&& res.duration_ms == duration_ms
                &&& !res.requires_manual_intervention
            },
            restart is Err && vm_failure_is_retryable_spec(restart->Err_0) ==> r == Err::<
                RemediationResult,
                BlixardError,
            >(restart->Err_0),
            restart is Err && !vm_failure_is_retryable_spec(restart->Err_0) ==> r is Ok && {
                let res = r->Ok_0;
                &&& !res.success
                &&& res.actions@.len() == (if node_id == context.node_id {
                    2int
                } else {
                    1int
                })
                &&& is_action(res.actions@[0], "restart_vm"@, vm_name@, "Failed to restart: "@ + error_text@, now_ms)
                &&& node_id == context.node_id ==> is_action(
                    res.actions@[1],
                    "evaluate_migration"@,
                    vm_name@,
                    "Migration evaluation not implemented yet"@,
                    now_ms,
                )
                &&& (res.error matches Some(e) && e@ == "Non-retryable VM restart failure: "@ + error_text@)
                &&& res.duration_ms == duration_ms
                &&& res.requires_manual_intervention
            },
    {
        match restart {
            Ok(()) => {
                let mut actions: Vec<RemediationAction> = Vec::new();
                actions.push(make_action("restart_vm", vm_name, "VM restarted successfully", now_ms));
                Ok(
                    RemediationResult {
                        success: true,
                        actions,
                        error: None,
                        duration_ms,
                        requires_manual_intervention: false,
                    },
                )
            },
            Err(e) => {
                if vm_failure_is_retryable(&e) {
                    return Err(e);
                }
                let mut actions: Vec<RemediationAction> = Vec::new();
                let failed = concat("Failed to restart: ", error_text);
                actions.push(make_action("restart_vm", vm_name, failed.as_str(), now_ms));
                if node_id == context.node_id {
                    actions.push(
                        make_action(
                            "evaluate_migration",
                            vm_name,
                            "Migration evaluation not implemented yet",
                            now_ms,
                        ),
                    );
                }
                let error = concat("Non-retryable VM restart failure: ", error_text);
                Ok(
                    RemediationResult {
                        success: false,
                        actions,
                        error: Some(error),
                        duration_ms,
                        requires_manual_intervention: true,
                    },
                )
            },
        }
    }
}

/// Whether a failed VM operation may be retried.
pub open spec fn vm_failure_is_retryable_spec(e: BlixardError) -> bool {
    retry_accepts(RetryClass::VmFailure, e)
}


/// Whether a VM may be stopped to relieve resource exhaustion.
pub open spec fn is_preemption_candidate(v: VmState) -> bool {
    v.config.preemptible && v.config.priority < 500
}

/// Order of preemption: lower priority first, earlier listed first among equals.
pub open spec fn preempt_key(vms: Seq<VmState>, i: int) -> int {
    vms[i].config.priority as int * 0x1_0000_0000_0000_0000 + i
}

/// Whether `out` lists, in preemption order, the (at most two) candidates that come
/// first in preemption order.
pub open spec fn preemption_picks(vms: Seq<VmState>, out: Seq<int>) -> bool {
    &&& out.len() <= 2
    &&& forall|k: int|
        0 <= k < out.len() ==> 0 <= #[trigger] out[k] < vms.len() && is_preemption_candidate(
            vms[out[k]],
        )
    &&& forall|a: int, b: int|
        0 <= a < b < out.len() ==> preempt_key(vms, out[a]) < preempt_key(vms, out[b])
    &&& forall|c: int|
        #![trigger vms[c]]
        0 <= c < vms.len() && is_preemption_candidate(vms[c]) && !out.contains(c) ==> out.len() == 2
            && forall|k: int| 0 <= k < out.len() ==> preempt_key(vms, out[k]) < preempt_key(vms, c)
}

/// Only preemptible VMs of priority below 500 are picked for preemption: every
/// pick names such a VM, and a list of VMs with none of them gets no pick.
pub proof fn lemma_preemption_spares_protected_vms(vms: Seq<VmState>, picks: Seq<int>)
    requires
        preemption_picks(vms, picks),
    ensures
        forall|k: int|
            0 <= k < picks.len() ==> 0 <= #[trigger] picks[k] < vms.len() && vms[picks[k]].config.preemptible
                && vms[picks[k]].config.priority < 500,
        (forall|i: int| 0 <= i < vms.len() ==> !(#[trigger] vms[i]).config.preemptible || vms[i].config.priority
            >= 500) ==> picks.len() == 0,
{
    if picks.len() > 0 {
        assert(is_preemption_candidate(vms[picks[0]]));
    }
}

/// Preemption takes the lowest priorities first: the picks come in order of
/// priority (earlier listed first among equals), and a preemptible VM of
/// priority below 500 that is left out has a priority no lower than any pick's,
/// and is left out only when two VMs were picked.
pub proof fn lemma_preemption_takes_lowest_priority(vms: Seq<VmState>, picks: Seq<int>)
    requires
        vms.len() <= usize::MAX,
        preemption_picks(vms, picks),
    ensures
        forall|a: int, b: int|
            0 <= a < b < picks.len() ==> vms[#[trigger] picks[a]].config.priority < vms[#[trigger] picks[b]].config.priority
                || (vms[picks[a]].config.priority == vms[picks[b]].config.priority && picks[a] < picks[b]),
        forall|c: int, k: int|
            0 <= c < vms.len() && (#[trigger] vms[c]).config.preemptible && vms[c].config.priority < 500
                && !picks.contains(c) && 0 <= k < picks.len() ==> picks.len() == 2 && vms[#[trigger] picks[k]].config.priority
                <= vms[c].config.priority,
{
    assert forall|a: int, b: int|
        0 <= a < b < picks.len() implies vms[#[trigger] picks[a]].config.priority < vms[#[trigger] picks[b]].config.priority
            || (vms[picks[a]].config.priority == vms[picks[b]].config.priority && picks[a] < picks[b]) by {
        lemma_preempt_key_order(vms, picks[a], picks[b]);
    }
    assert forall|c: int, k: int|
        0 <= c < vms.len() && (#[trigger] vms[c]).config.preemptible && vms[c].config.priority < 500
            && !picks.contains(c) && 0 <= k < picks.len() implies picks.len() == 2 && vms[#[trigger] picks[k]].config.priority
            <= vms[c].config.priority by {
        assert(is_preemption_candidate(vms[c]));
        lemma_preempt_key_order(vms, picks[k], c);
    }
}

/// Comparing preemption keys compares priorities, then positions.
proof fn lemma_preempt_key_order(vms: Seq<VmState>, i: int, j: int)
    requires
        0 <= i < vms.len(),
        0 <= j < vms.len(),
        vms.len() <= usize::MAX,
        preempt_key(vms, i) < preempt_key(vms, j),
    ensures
        vms[i].config.priority < vms[j].config.priority || (vms[i].config.priority == vms[j].config.priority && i < j),
{
    let pi = vms[i].config.priority as int;
    let pj = vms[j].config.priority as int;
    let big = 0x1_0000_0000_0000_0000int;
    if pi > pj {
        assert(pi * big >= pj * big + big) by (nonlinear_arith)
            requires
                pi >= pj + 1,
                big > 0,
        ;
    } else if pi == pj {
    } else {
    }
}

/// The first candidate in preemption order, skipping `skip`.
fn first_candidate(vms: &Vec<VmState>, skip: Option<usize>) -> (r: Option<usize>)
    ensures
        match r {
            Some(i) => {
                &&& i < vms@.len()
                &&& Some(i) != skip
                &&& is_preemption_candidate(vms@[i as int])
                &&& forall|c: int|
                    0 <= c < vms@.len() && is_preemption_candidate(#[trigger] vms@[c]) && Some(c as usize)
                        != skip && c != i ==> preempt_key(vms@, i as int) < preempt_key(vms@, c)
            },
            None => forall|c: int|
                0 <= c < vms@.len() && is_preemption_candidate(#[trigger] vms@[c]) ==> Some(c as usize)
                    == skip,
        },
{
    let mut best: Option<usize> = None;
    let mut i: usize = 0;
    while i < vms.len()
        invariant
            i <= vms@.len(),
            match best {
                Some(b) => {
                    &&& b < i
                    &&& Some(b) != skip
                    &&& is_preemption_candidate(vms@[b as int])
                    &&& forall|c: int|
                        0 <= c < i && is_preemption_candidate(#[trigger] vms@[c]) && Some(c as usize)
                            != skip && c != b ==> preempt_key(vms@, b as int) < preempt_key(vms@, c)
                },
                None => forall|c: int|
                    0 <= c < i && is_preemption_candidate(#[trigger] vms@[c]) ==> Some(c as usize)
                        == skip,
            },
        decreases vms@.len() - i,
    {
        let vm = &vms[i];
        if vm.config.preemptible && vm.config.priority < 500 && skip != Some(i) {
            match best {
                Some(b) => {
                    if vm.config.priority < vms[b].config.priority {
                        best = Some(i);
                    }
                },
                None => {
                    best = Some(i);
                },
            }
        }
        i = i + 1;
    }
    best
}

/// Frees resources by stopping low-priority preemptible VMs.
pub struct ResourceExhaustionRemediator;

impl ResourceExhaustionRemediator {
    /// Handles resource exhaustion.
    pub fn can_handle(&self, issue: &Issue) -> (r: bool)
        ensures
            r == (issue.issue_type == IssueType::ResourceExhaustion),
    {
        issue.issue_type == IssueType::ResourceExhaustion
    }

    pub fn priority(&self) -> (p: u32)
        ensures
            p == 0,
    {
        0
    }

    /// Indices of the VMs to stop: the two preemptible VMs of priority below 500
    /// with the lowest priority, earlier listed first among equals.
    pub fn preemption_candidates(&self, vms: &Vec<VmState>) -> (r: Vec<usize>)
        ensures
            preemption_picks(vms@, r@.map_values(|i: usize| i as int)),
            forall|k: int|
                0 <= k < r@.len() ==> (#[trigger] r@[k]) < vms@.len() && vms@[r@[k] as int].config.preemptible
                    && vms@[r@[k] as int].config.priority < 500,
    {
        let mut out: Vec<usize> = Vec::new();
        let n = vms.len();
        match first_candidate(vms, None) {
            Some(a) => {
                out.push(a);
                match first_candidate(vms, Some(a)) {
                    Some(b) => {
                        out.push(b);
                        proof {
                            let m = out@.map_values(|i: usize| i as int);
                            assert(m[0] == a && m[1] == b);
                            assert forall|c: int|
                                #![trigger vms@[c]]
                                0 <= c < vms@.len() && is_preemption_candidate(vms@[c])
                                    && !m.contains(c) implies m.len() == 2 && forall|k: int|
                                0 <= k < m.len() ==> preempt_key(vms@, m[k]) < preempt_key(vms@, c) by {
                                if c == a {
                                    assert(m[0] == c);
                                    assert(m.contains(c));
                                } else if c == b {
                                    assert(m[1] == c);
                                    assert(m.contains(c));
                                } else {
                                    assert(Some(c as usize) != Some(a));
                                    assert(preempt_key(vms@, a as int) < preempt_key(vms@, c));
                                    assert(preempt_key(vms@, b as int) < preempt_key(vms@, c));
                                }
                            }
                            assert(preempt_key(vms@, a as int) < preempt_key(vms@, b as int));
                        }
                    },
                    None => {
                        proof {
                            let m = out@.map_values(|i: usize| i as int);
                            assert(m[0] == a);
                            assert forall|c: int|
                                #![trigger vms@[c]]
                                0 <= c < vms@.len() && is_preemption_candidate(vms@[c])
                                    && !m.contains(c) implies false by {
                                assert(Some(c as usize) == Some(a));
                                assert(m[0] == c);
                            }
                        }
                    },
                }
            },
            None => {
                proof {
                    let m = out@.map_values(|i: usize| i as int);
                    assert forall|c: int|
                        #![trigger vms@[c]]
                        0 <= c < vms@.len() && is_preemption_candidate(vms@[c]) implies false by {
                        assert(Some(c as usize) == None::<usize>);
                    }
                }
            },
        }
        out
    }

    /// The result of relieving exhaustion on a node with these VMs: one stop action
    /// per chosen VM; success when there was at least one.
    pub fn remediate(&self, vms: &Vec<VmState>, now_ms: i64, duration_ms: u64) -> (r: RemediationResult)
        ensures
            exists|picks: Seq<int>|
                {
                    &&& preemption_picks(vms@, picks)
                    &&& r.actions@.len() == picks.len()
                    &&& forall|k: int|
                        0 <= k < picks.len() ==> is_action(
                            #[trigger] r.actions@[k],
                            "stop_low_priority_vm"@,
                            vms@[picks[k]].name@,
                            "Stopped to free resources"@,
                            now_ms,
                        )
                },
            r.success == (r.actions@.len() > 0),
            r.error is None,
            r.duration_ms == duration_ms,
            r.requires_manual_intervention == (r.actions@.len() == 0),
            forall|k: int|
                0 <= k < r.actions@.len() ==> exists|i: int|
                    0 <= i < vms@.len() && vms@[i].config.preemptible && vms@[i].config.priority < 500 && is_action(
                        #[trigger] r.actions@[k],
                        "stop_low_priority_vm"@,
                        vms@[i].name@,
                        "Stopped to free resources"@,
                        now_ms,
                    ),
            (forall|i: int| 0 <= i < vms@.len() ==> !(#[trigger] vms@[i]).config.preemptible
                || vms@[i].config.priority >= 500) ==> r.actions@.len() == 0 && !r.success,
    {
        let picks = self.preemption_candidates(vms);
        let ghost p = picks@.map_values(|i: usize| i as int);
        let mut actions: Vec<RemediationAction> = Vec::new();
        let mut k: usize = 0;
        while k < picks.len()
            invariant
                k <= picks@.len(),
                p == picks@.map_values(|i: usize| i as int),
                preemption_picks(vms@, p),
                actions@.len() == k,
                forall|q: int|
                    0 <= q < k ==> is_action(
                        #[trigger] actions@[q],
                        "stop_low_priority_vm"@,
                        vms@[p[q]].name@,
                        "Stopped to free resources"@,
                        now_ms,
                    ),
            decreases picks@.len() - k,
        {
            let idx = picks[k];
            proof {
                assert(p[k as int] == idx as int);
            }
            actions.push(
                make_action(
                    "stop_low_priority_vm",
                    vms[idx].name.as_str(),
                    "Stopped to free resources",
                    now_ms,
                ),
            );
            k = k + 1;
        }
        proof {
            lemma_preemption_spares_protected_vms(vms@, p);
            assert forall|k: int| 0 <= k < actions@.len() implies exists|i: int|
                0 <= i < vms@.len() && vms@[i].config.preemptible && vms@[i].config.priority < 500 && is_action(
                    #[trigger] actions@[k],
                    "stop_low_priority_vm"@,
                    vms@[i].name@,
                    "Stopped to free resources"@,
                    now_ms,
                ) by {
                assert(0 <= p[k] < vms@.len());
            }
        }
        let none = actions.len() == 0;
        RemediationResult {
            success: !none,
            actions,
            error: None,
            duration_ms,
            requires_manual_intervention: none,
        }
    }
}


/// The first value named `k` in an issue context.
pub open spec fn context_lookup(s: Seq<(String, ContextValue)>, k: Seq<char>) -> Option<ContextValue>
    decreases s.len(),
{
    if s.len() == 0 {
        None
    } else if s[0].0@ == k {
        Some(s[0].1)
    } else {
        context_lookup(s.drop_first(), k)
    }
}

/// The first value named `key` in an issue context.
pub fn context_get<'a>(context: &'a Vec<(String, ContextValue)>, key: &str) -> (r: Option<&'a ContextValue>)
    ensures
        match r {
            Some(v) => context_lookup(context@, key@) == Some(*v),
            None => context_lookup(context@, key@) is None,
        },
{
    let mut i: usize = 0;
    proof {
        assert(context@.skip(0) =~= context@);
    }
    while i < context.len()
        invariant
            i <= context@.len(),
            context_lookup(context@, key@) == context_lookup(context@.skip(i as int), key@),
        decreases context@.len() - i,
    {
        proof {
            assert(context@.skip(i as int)[0] == context@[i as int]);
            assert(context@.skip(i as int).drop_first() =~= context@.skip(i as int + 1));
        }
        if crate::text::text_eq(context[i].0.as_str(), key) {
            return Some(&context[i].1);
        }
        i = i + 1;
    }
    None
}

/// The number named `k` in an issue context; `None` when the first value so named is
/// not a single number, or there is none.
pub open spec fn context_number(s: Seq<(String, ContextValue)>, k: Seq<char>) -> Option<u64> {
    match context_lookup(s, k) {
        Some(ContextValue::Number(n)) => Some(n),
        _ => None,
    }
}

/// The number named `key` in an issue context, if the first value so named is one.
pub fn context_u64(context: &Vec<(String, ContextValue)>, key: &str) -> (r: Option<u64>)
    ensures
        r == context_number(context@, key@),
{
    match context_get(context, key) {
        Some(ContextValue::Number(n)) => Some(*n),
        _ => None,
    }
}


/// An issue whose remediation was just marked active counts as being remediated, one
/// whose mark was cleared does not, and a mark older than the timeout no longer counts.
pub proof fn lemma_active_marks(a: ActiveRemediations, id: Seq<char>, start: i64, now_ms: i64)
    ensures
        active_start(a.entries@, id) == Some(now_ms) ==> a.spec_is_active(id, now_ms),
        active_start(a.entries@, id) is None ==> !a.spec_is_active(id, now_ms),
        active_start(a.entries@, id) == Some(start) && now_ms - start > REMEDIATION_TIMEOUT_MS
            ==> !a.spec_is_active(id, now_ms),
{
}

/// A retry is only granted while attempts remain, for an error its class accepts, and
/// within the delay budget; delays of the linear and exponential strategies never
/// exceed their cap.
pub proof fn lemma_retry_bounded(c: RetryConfig, attempt: nat, total_ms: nat, error: BlixardError)
    ensures
        retry_step(c, attempt, total_ms, error) matches Some(d) ==> {
            &&& attempt < c.max_attempts
            &&& retry_accepts(c.is_retryable, error)
            &&& (c.max_total_delay_ms matches Some(limit) ==> total_ms + d <= limit)
        },
        c.backoff matches BackoffStrategy::Linear { max_ms, .. } ==> backoff_delay(c.backoff, attempt)
            <= max_ms,
        c.backoff matches BackoffStrategy::Exponential { max_ms, .. } ==> backoff_delay(
            c.backoff,
            attempt,
        ) <= max_ms,
{
    match c.backoff {
        BackoffStrategy::Exponential { base_ms, max_ms, multiplier_permille } => {
            lemma_exponential_bound(base_ms as nat, max_ms as nat, multiplier_permille as nat, attempt);
        },
        _ => {},
    }
}

proof fn lemma_indices_with(s: Seq<Issue>, sev: IssueSeverity)
    requires
        s.len() <= usize::MAX,
    ensures
        forall|k: int|
            0 <= k < indices_with(s, sev).len() ==> {
                let i = #[trigger] indices_with(s, sev)[k];
                &&& 0 <= i < s.len()
                &&& s[i as int].severity == sev
            },
        forall|a: int, b: int|
            0 <= a < b < indices_with(s, sev).len() ==> indices_with(s, sev)[a] < indices_with(
                s,
                sev,
            )[b],
    decreases s.len(),
{
    if s.len() > 0 {
        let rest = indices_with(s.drop_last(), sev);
        lemma_indices_with(s.drop_last(), sev);
        if s.last().severity == sev {
            assert(indices_with(s, sev) == rest.push((s.len() - 1) as usize));
        } else {
            assert(indices_with(s, sev) == rest);
        }
        assert forall|k: int| 0 <= k < indices_with(s, sev).len() implies {
            let i = #[trigger] indices_with(s, sev)[k];
            &&& 0 <= i < s.len()
            &&& s[i as int].severity == sev
        } by {
            if k < rest.len() {
                assert(indices_with(s, sev)[k] == rest[k]);
                assert(s[rest[k] as int] == s.drop_last()[rest[k] as int]);
            }
        }
        assert forall|a: int, b: int| 0 <= a < b < indices_with(s, sev).len() implies indices_with(
            s,
            sev,
        )[a] < indices_with(s, sev)[b] by {
            assert(indices_with(s, sev)[a] == rest[a]);
            if b < rest.len() {
                assert(indices_with(s, sev)[b] == rest[b]);
            } else {
                assert(rest[a] < s.len() - 1);
            }
        }
    }
}

proof fn lemma_indices_count(s: Seq<Issue>)
    ensures
        indices_with(s, IssueSeverity::Critical).len() + indices_with(s, IssueSeverity::High).len()
            + indices_with(s, IssueSeverity::Medium).len() + indices_with(s, IssueSeverity::Low).len()
            == s.len(),
    decreases s.len(),
{
    if s.len() > 0 {
        lemma_indices_count(s.drop_last());
    }
}

/// The numeric rank of a severity, 0 for `Low` up to 3 for `Critical`.
pub open spec fn severity_rank(sev: IssueSeverity) -> int {
    match sev {
        IssueSeverity::Low => 0,
        IssueSeverity::Medium => 1,
        IssueSeverity::High => 2,
        IssueSeverity::Critical => 3,
    }
}

/// Every detected issue is handled exactly once, and never before a less severe one.
pub proof fn lemma_processing_order(s: Seq<Issue>)
    requires
        s.len() <= usize::MAX,
    ensures
        severity_order(s).len() == s.len(),
        severity_order(s).no_duplicates(),
        forall|k: int| 0 <= k < s.len() ==> 0 <= #[trigger] severity_order(s)[k] < s.len(),
        forall|a: int, b: int|
            0 <= a < b < s.len() ==> severity_rank(s[severity_order(s)[a] as int].severity)
                >= severity_rank(s[severity_order(s)[b] as int].severity),
{
    let c = indices_with(s, IssueSeverity::Critical);
    let h = indices_with(s, IssueSeverity::High);
    let m = indices_with(s, IssueSeverity::Medium);
    let l = indices_with(s, IssueSeverity::Low);
    lemma_indices_with(s, IssueSeverity::Critical);
    lemma_indices_with(s, IssueSeverity::High);
    lemma_indices_with(s, IssueSeverity::Medium);
    lemma_indices_with(s, IssueSeverity::Low);
    lemma_indices_count(s);
    let r = severity_order(s);
    assert(r =~= c + h + m + l);
    // Each position of the order falls in one block, whose severity it carries.
    assert forall|k: int| 0 <= k < r.len() implies {
        &&& 0 <= #[trigger] r[k] < s.len()
        &&& severity_rank(s[r[k] as int].severity) == if k < c.len() {
            3int
        } else if k < c.len() + h.len() {
            2int
        } else if k < c.len() + h.len() + m.len() {
            1int
        } else {
            0int
        }
    } by {
        if k < c.len() {
            assert(r[k] == c[k]);
        } else if k < c.len() + h.len() {
            assert(r[k] == h[k - c.len()]);
        } else if k < c.len() + h.len() + m.len() {
            assert(r[k] == m[k - c.len() - h.len()]);
        } else {
            assert(r[k] == l[k - c.len() - h.len() - m.len()]);
        }
    }
    assert forall|a: int, b: int| 0 <= a < b < r.len() implies severity_rank(
        s[r[a] as int].severity,
    ) >= severity_rank(s[r[b] as int].severity) by {
        assert(0 <= r[a] < s.len());
        assert(0 <= r[b] < s.len());
    }
    assert forall|a: int, b: int| 0 <= a < r.len() && 0 <= b < r.len() && a != b implies r[a]
        != r[b] by {
        assert(0 <= r[a] < s.len());
        assert(0 <= r[b] < s.len());
        let (x, y) = if a < b {
            (a, b)
        } else {
            (b, a)
        };
        if severity_rank(s[r[x] as int].severity) == severity_rank(s[r[y] as int].severity) {
            if y < c.len() {
                assert(r[x] == c[x] && r[y] == c[y]);
            } else if y < c.len() + h.len() {
                assert(r[x] == h[x - c.len()] && r[y] == h[y - c.len()]);
            } else if y < c.len() + h.len() + m.len() {
                assert(r[x] == m[x - c.len() - h.len()] && r[y] == m[y - c.len() - h.len()]);
            } else {
                assert(r[x] == l[x - c.len() - h.len() - m.len()] && r[y] == l[y - c.len()
                    - h.len() - m.len()]);
            }
        }
    }
}

} // verus!
