//! Batching of proposals by priority, with expiry and adaptive batch sizes.
//!
//! Times are milliseconds on a clock the caller reads; processing times are
//! nanoseconds.
use vstd::prelude::*;

verus! {

/// Settings of priority batching.
#[derive(Debug, Clone, Copy)]
pub struct OptimizedBatchConfig {
    pub max_batch_size: usize,
    pub batch_timeout_ms: u64,
    pub max_batch_bytes: usize,
    pub enabled: bool,
    pub enable_streaming: bool,
    pub stream_buffer_size: usize,
    pub max_concurrent_batches: usize,
    pub enable_adaptive_batching: bool,
    pub min_batch_size: usize,
    pub adaptive_window_size: usize,
    pub performance_threshold_ms: u64,
    pub enable_priority_batching: bool,
    /// How long a high-priority batch may wait, in milliseconds.
    pub high_priority_threshold_ms: u64,
    pub max_priority_batch_size: usize,
    pub enable_backpressure: bool,
    pub max_pending_proposals: usize,
    /// Memory use that counts as pressure, in thousandths.
    pub memory_pressure_threshold_permille: u32,
    pub enable_circuit_breaker: bool,
    pub circuit_breaker_failure_threshold: usize,
    pub circuit_breaker_timeout_ms: u64,
}

impl Default for OptimizedBatchConfig {
    /// Batches of at most 100 proposals or 1 MiB, flushed after 10 ms; adaptive
    /// sizes between 5 and 100; high priority waits at most 5 ms.
    fn default() -> (c: Self)
        ensures
            c.max_batch_size == 100,
            c.batch_timeout_ms == 10,
            c.max_batch_bytes == 1024 * 1024,
            c.enabled,
            c.enable_streaming,
            c.stream_buffer_size == 1000,
            c.max_concurrent_batches == 4,
            c.enable_adaptive_batching,
            c.min_batch_size == 5,
            c.adaptive_window_size == 20,
            c.performance_threshold_ms == 50,
            c.enable_priority_batching,
            c.high_priority_threshold_ms == 5,
            c.max_priority_batch_size == 20,
            c.enable_backpressure,
            c.max_pending_proposals == 10000,
            c.memory_pressure_threshold_permille == 800,
            c.enable_circuit_breaker,
            c.circuit_breaker_failure_threshold == 5,
            c.circuit_breaker_timeout_ms == 30000,
    {
        OptimizedBatchConfig {
            max_batch_size: 100,
            batch_timeout_ms: 10,
            max_batch_bytes: 1024 * 1024,
            enabled: true,
            enable_streaming: true,
            stream_buffer_size: 1000,
            max_concurrent_batches: 4,
            enable_adaptive_batching: true,
            min_batch_size: 5,
            adaptive_window_size: 20,
            performance_threshold_ms: 50,
            enable_priority_batching: true,
            high_priority_threshold_ms: 5,
            max_priority_batch_size: 20,
            enable_backpressure: true,
            max_pending_proposals: 10000,
            memory_pressure_threshold_permille: 800,
            enable_circuit_breaker: true,
            circuit_breaker_failure_threshold: 5,
            circuit_breaker_timeout_ms: 30000,
        }
    }
}

/// Priority of a proposal, from lowest to highest.
#[derive(Debug, Clone, Copy, PartialEq, Eq, PartialOrd, Ord, Hash, Structural)]
pub enum ProposalPriority {
    Low,
    Normal,
    High,
    Critical,
}

/// The rank of a priority: 0 for low up to 3 for critical.
pub open spec fn rank(p: ProposalPriority) -> nat {
    match p {
        ProposalPriority::Low => 0,
        ProposalPriority::Normal => 1,
        ProposalPriority::High => 2,
        ProposalPriority::Critical => 3,
    }
}

/// The higher of two priorities.
pub open spec fn higher(a: ProposalPriority, b: ProposalPriority) -> ProposalPriority {
    if rank(a) > rank(b) {
        a
    } else {
        b
    }
}

impl ProposalPriority {
    /// The rank of the priority: 0 for low up to 3 for critical.
    pub fn rank(&self) -> (r: u8)
        ensures
            r == rank(*self),
    {
        match self {
            ProposalPriority::Low => 0,
            ProposalPriority::Normal => 1,
            ProposalPriority::High => 2,
            ProposalPriority::Critical => 3,
        }
    }
}

/// A proposal waiting in a batch.
pub struct EnhancedRaftProposal<T> {
    pub inner: T,
    pub priority: ProposalPriority,
    /// When it was submitted, in milliseconds.
    pub submitted_at_ms: u64,
    /// Its size estimate in bytes: encoded size plus 64.
    pub estimated_size: usize,
    /// How long it may wait, in milliseconds; `None` for ever.
    pub timeout_ms: Option<u64>,
}

/// Milliseconds from `since` to `now`, 0 when `now` is earlier.
pub open spec fn elapsed(since: u64, now: u64) -> nat {
    if now >= since {
        (now - since) as nat
    } else {
        0
    }
}

/// Whether the proposal waited longer than its timeout by `now`.
pub open spec fn expired_at<T>(p: EnhancedRaftProposal<T>, now: u64) -> bool {
    match p.timeout_ms {
        Some(t) => elapsed(p.submitted_at_ms, now) > t,
        None => false,
    }
}

fn elapsed_ms(since: u64, now: u64) -> (d: u64)
    ensures
        d == elapsed(since, now),
{
    if now >= since {
        now - since
    } else {
        0
    }
}

impl<T> EnhancedRaftProposal<T> {
    /// A proposal submitted at `now_ms`, with no timeout; `encoded_size` is the size
    /// of its encoded data.
    pub fn new(inner: T, priority: ProposalPriority, encoded_size: usize, now_ms: u64) -> (p: Self)
        requires
            encoded_size + 64 <= usize::MAX,
        ensures
            p.inner == inner,
            p.priority == priority,
            p.submitted_at_ms == now_ms,
            p.estimated_size == encoded_size + 64,
            p.timeout_ms is None,
    {
        EnhancedRaftProposal { inner, priority, submitted_at_ms: now_ms, estimated_size: encoded_size + 64, timeout_ms: None }
    }

    /// The same proposal with a timeout.
    pub fn with_timeout(self, timeout_ms: u64) -> (p: Self)
        ensures
            p == (EnhancedRaftProposal { timeout_ms: Some(timeout_ms), ..self }),
    {
        EnhancedRaftProposal { timeout_ms: Some(timeout_ms), ..self }
    }

    /// Whether it waited longer than its timeout by `now_ms`.
    pub fn is_expired(&self, now_ms: u64) -> (r: bool)
        ensures
            r == expired_at(*self, now_ms),
    {
        match self.timeout_ms {
            Some(t) => elapsed_ms(self.submitted_at_ms, now_ms) > t,
            None => false,
        }
    }

    /// How long it has waited by `now_ms`.
    pub fn age(&self, now_ms: u64) -> (d: u64)
        ensures
            d == elapsed(self.submitted_at_ms, now_ms),
    {
        elapsed_ms(self.submitted_at_ms, now_ms)
    }
}

/// The total estimated size of `s`.
pub open spec fn size_sum<T>(s: Seq<EnhancedRaftProposal<T>>) -> nat
    decreases s.len(),
{
    if s.len() == 0 {
        0
    } else {
        size_sum(s.drop_last()) + s.last().estimated_size as nat
    }
}

/// The highest priority in `s`, if it is not empty.
pub open spec fn top_priority<T>(s: Seq<EnhancedRaftProposal<T>>) -> Option<ProposalPriority>
    decreases s.len(),
{
    if s.len() == 0 {
        None
    } else {
        match top_priority(s.drop_last()) {
            Some(q) => Some(higher(s.last().priority, q)),
            None => Some(s.last().priority),
        }
    }
}

/// The proposals of `s` that have not expired by `now`, in order.
pub open spec fn unexpired<T>(s: Seq<EnhancedRaftProposal<T>>, now: u64) -> Seq<EnhancedRaftProposal<T>>
    decreases s.len(),
{
    if s.len() == 0 {
        s
    } else if expired_at(s.last(), now) {
        unexpired(s.drop_last(), now)
    } else {
        unexpired(s.drop_last(), now).push(s.last())
    }
}

/// The proposals of `s` that have expired by `now`, in order.
pub open spec fn expired_ones<T>(s: Seq<EnhancedRaftProposal<T>>, now: u64) -> Seq<EnhancedRaftProposal<T>>
    decreases s.len(),
{
    if s.len() == 0 {
        s
    } else if expired_at(s.last(), now) {
        expired_ones(s.drop_last(), now).push(s.last())
    } else {
        expired_ones(s.drop_last(), now)
    }
}

proof fn lemma_size_sum_remove<T>(s: Seq<EnhancedRaftProposal<T>>, i: int)
    requires
        0 <= i < s.len(),
    ensures
        size_sum(s.remove(i)) + s[i].estimated_size == size_sum(s),
    decreases s.len(),
{
    if i == s.len() - 1 {
        assert(s.remove(i) =~= s.drop_last());
    } else {
        lemma_size_sum_remove(s.drop_last(), i);
        assert(s.remove(i).drop_last() =~= s.drop_last().remove(i));
        assert(s.remove(i).last() == s.last());
    }
}

/// A batch of proposals, with the highest priority among them.
pub struct OptimizedProposalBatch<T> {
    pub proposals: Vec<EnhancedRaftProposal<T>>,
    /// Sum of the proposals' size estimates.
    pub total_size: usize,
    /// When the batch was opened, in milliseconds.
    pub created_at_ms: u64,
    pub priority: ProposalPriority,
    /// Random identifier in hyphenated text form.
    pub batch_id: String,
}

/// How long a batch of this priority may wait: 1 ms when critical, the high-priority
/// threshold when high, the batch timeout when normal and twice that when low.
pub open spec fn flush_timeout(p: ProposalPriority, c: OptimizedBatchConfig) -> nat {
    match p {
        ProposalPriority::Critical => 1,
        ProposalPriority::High => c.high_priority_threshold_ms as nat,
        ProposalPriority::Normal => c.batch_timeout_ms as nat,
        ProposalPriority::Low => (2 * c.batch_timeout_ms) as nat,
    }
}

/// When a batch is due: a non-empty batch once it is full by count or bytes, or
/// by its priority: a critical batch once it has
/// waited 1 ms, a high-priority batch once it has waited the high-priority
/// threshold, a normal one once it has waited the batch timeout and a low one
/// twice that; and a batch that is neither full nor has waited that long is not
/// due. An empty batch is never due.
pub proof fn lemma_flush_deadline_by_priority<T>(b: OptimizedProposalBatch<T>, c: OptimizedBatchConfig, now: u64)
    ensures
        b.proposals@.len() == 0 ==> !b.due(c, now),
        b.proposals@.len() > 0 && b.proposals@.len() >= c.max_batch_size ==> b.due(c, now),
        b.proposals@.len() > 0 && b.total_size >= c.max_batch_bytes ==> b.due(c, now),
        b.proposals@.len() > 0 && b.priority == ProposalPriority::Critical && now >= b.created_at_ms + 1 ==> b.due(
            c,
            now,
        ),
        b.proposals@.len() > 0 && b.priority == ProposalPriority::High && now >= b.created_at_ms
            + c.high_priority_threshold_ms ==> b.due(c, now),
        b.proposals@.len() > 0 && b.priority == ProposalPriority::Normal && now >= b.created_at_ms
            + c.batch_timeout_ms ==> b.due(c, now),
        b.proposals@.len() > 0 && b.priority == ProposalPriority::Low && now >= b.created_at_ms + 2
            * c.batch_timeout_ms ==> b.due(c, now),
        b.proposals@.len() < c.max_batch_size && b.total_size < c.max_batch_bytes && now >= b.created_at_ms ==> {
            &&& b.priority == ProposalPriority::High && now < b.created_at_ms + c.high_priority_threshold_ms
                ==> !b.due(c, now)
            &&& b.priority == ProposalPriority::Normal && now < b.created_at_ms + c.batch_timeout_ms ==> !b.due(
                c,
                now,
            )
            &&& b.priority == ProposalPriority::Low && now < b.created_at_ms + 2 * c.batch_timeout_ms
                ==> !b.due(c, now)
            &&& b.priority == ProposalPriority::Critical && now < b.created_at_ms + 1 ==> !b.due(c, now)
        },
{
}

impl<T> OptimizedProposalBatch<T> {
    /// Well-formed: the total size is the sum of the proposals' estimates.
    pub open spec fn wf(&self) -> bool {
        self.total_size == size_sum(self.proposals@)
    }

    /// Whether the batch is due by `now`: it is not empty, and it is full (by
    /// count or bytes) or has waited as long as its priority allows.
    pub open spec fn due(&self, c: OptimizedBatchConfig, now: u64) -> bool {
        &&& self.proposals@.len() > 0
        &&& (self.proposals@.len() >= c.max_batch_size || self.total_size >= c.max_batch_bytes || elapsed(
            self.created_at_ms,
            now,
        ) >= flush_timeout(self.priority, c))
    }

    /// An empty batch of normal priority opened at `now_ms`, with a fresh id.
    pub fn new(now_ms: u64) -> (b: Self)
        ensures
            b.wf(),
            b.proposals@.len() == 0,
            b.total_size == 0,
            b.created_at_ms == now_ms,
            b.priority == ProposalPriority::Normal,
            b.batch_id@.len() == 36,
    {
        let b = OptimizedProposalBatch {
            proposals: Vec::new(),
            total_size: 0,
            created_at_ms: now_ms,
            priority: ProposalPriority::Normal,
            batch_id: crate::ids::new_uuid_text(),
        };
        assert(b.proposals@ =~= Seq::<EnhancedRaftProposal<T>>::empty());
        b
    }

    /// Adds a proposal; the batch takes its priority if that is higher.
    pub fn add(&mut self, proposal: EnhancedRaftProposal<T>)
        requires
            old(self).wf(),
            old(self).total_size + proposal.estimated_size <= usize::MAX,
        ensures
            final(self).wf(),
            final(self).proposals@ == old(self).proposals@.push(proposal),
            final(self).total_size == old(self).total_size + proposal.estimated_size,
            final(self).priority == higher(proposal.priority, old(self).priority),
            final(self).created_at_ms == old(self).created_at_ms,
            final(self).batch_id == old(self).batch_id,
    {
        let ghost s0 = self.proposals@;
        self.total_size = self.total_size + proposal.estimated_size;
        if proposal.priority.rank() > self.priority.rank() {
            self.priority = proposal.priority;
        }
        self.proposals.push(proposal);
        assert(self.proposals@.drop_last() =~= s0);
    }

    /// Whether the batch holds no proposal.
    pub fn is_empty(&self) -> (r: bool)
        ensures
            r == (self.proposals@.len() == 0),
    {
        self.proposals.len() == 0
    }

    /// The number of proposals.
    pub fn len(&self) -> (n: usize)
        ensures
            n == self.proposals@.len(),
    {
        self.proposals.len()
    }

    /// How long the batch has been open by `now_ms`.
    pub fn age(&self, now_ms: u64) -> (d: u64)
        ensures
            d == elapsed(self.created_at_ms, now_ms),
    {
        elapsed_ms(self.created_at_ms, now_ms)
    }

    /// Whether the batch should be sent by `now_ms` (see [`OptimizedProposalBatch::due`]).
    pub fn should_flush(&self, config: &OptimizedBatchConfig, now_ms: u64) -> (r: bool)
        requires
            self.priority == ProposalPriority::Low ==> 2 * config.batch_timeout_ms <= u64::MAX,
        ensures
            r == self.due(*config, now_ms),
            self.proposals@.len() > 0 && self.priority == ProposalPriority::High && now_ms >= self.created_at_ms
                + config.high_priority_threshold_ms ==> r,
            self.proposals@.len() > 0 && self.priority == ProposalPriority::Critical && now_ms >= self.created_at_ms
                + 1 ==> r,
            self.proposals@.len() > 0 && self.priority == ProposalPriority::Normal && now_ms >= self.created_at_ms
                + config.batch_timeout_ms ==> r,
            self.proposals@.len() > 0 && self.priority == ProposalPriority::Low && now_ms >= self.created_at_ms + 2
                * config.batch_timeout_ms ==> r,
    {
        proof {
            lemma_flush_deadline_by_priority(*self, *config, now_ms);
        }
        if self.is_empty() {
            return false;
        }
        if self.len() >= config.max_batch_size || self.total_size >= config.max_batch_bytes {
            return true;
        }
        let timeout = match self.priority {
            ProposalPriority::Critical => 1,
            ProposalPriority::High => config.high_priority_threshold_ms,
            ProposalPriority::Normal => config.batch_timeout_ms,
            ProposalPriority::Low => config.batch_timeout_ms * 2,
        };
        self.age(now_ms) >= timeout
    }

    /// Takes out the proposals that have expired by `now_ms` and hands them back in
    /// order; the batch's priority becomes the highest among those left, or normal
    /// when none is left.
    pub fn remove_expired(&mut self, now_ms: u64) -> (expired: Vec<EnhancedRaftProposal<T>>)
        requires
            old(self).wf(),
        ensures
            final(self).wf(),
            final(self).proposals@ == unexpired(old(self).proposals@, now_ms),
            expired@ == expired_ones(old(self).proposals@, now_ms),
            final(self).priority == match top_priority(final(self).proposals@) {
                Some(p) => p,
                None => ProposalPriority::Normal,
            },
            final(self).created_at_ms == old(self).created_at_ms,
            final(self).batch_id == old(self).batch_id,
    {
        let ghost orig = self.proposals@;
        let ghost mut j: int = 0;
        let mut expired: Vec<EnhancedRaftProposal<T>> = Vec::new();
        let mut i: usize = 0;
        while i < self.proposals.len()
            invariant
                0 <= j <= orig.len(),
                self.wf(),
                i == unexpired(orig.take(j), now_ms).len(),
                self.proposals@ == unexpired(orig.take(j), now_ms) + orig.skip(j),
                expired@ == expired_ones(orig.take(j), now_ms),
                self.created_at_ms == old(self).created_at_ms,
                self.batch_id == old(self).batch_id,
            decreases self.proposals@.len() - i,
        {
            let ghost cur = self.proposals@;
            assert(orig.take(j + 1).drop_last() =~= orig.take(j));
            assert(orig.take(j + 1).last() == orig[j]);
            assert(cur[i as int] == orig[j]);
            if self.proposals[i].is_expired(now_ms) {
                proof {
                    lemma_size_sum_remove(cur, i as int);
                }
                let p = self.proposals.remove(i);
                self.total_size = self.total_size - p.estimated_size;
                expired.push(p);
                assert(self.proposals@ =~= unexpired(orig.take(j + 1), now_ms) + orig.skip(j + 1));
            } else {
                i = i + 1;
                assert(self.proposals@ =~= unexpired(orig.take(j + 1), now_ms) + orig.skip(j + 1));
            }
            proof {
                j = j + 1;
            }
        }
        assert(orig.take(j) =~= orig);
        assert(self.proposals@ =~= unexpired(orig, now_ms));
        let mut top: Option<ProposalPriority> = None;
        let mut k: usize = 0;
        while k < self.proposals.len()
            invariant
                k <= self.proposals@.len(),
                top == top_priority(self.proposals@.take(k as int)),
            decreases self.proposals@.len() - k,
        {
            assert(self.proposals@.take(k + 1).drop_last() =~= self.proposals@.take(k as int));
            let p = self.proposals[k].priority;
            top = match top {
                Some(q) => if p.rank() > q.rank() {
                    Some(p)
                } else {
                    Some(q)
                },
                None => Some(p),
            };
            k = k + 1;
        }
        assert(self.proposals@.take(k as int) =~= self.proposals@);
        self.priority = match top {
            Some(p) => p,
            None => ProposalPriority::Normal,
        };
        expired
    }
}

/// Samples the adaptive batch size is chosen from.
pub struct BatchPerformanceMetrics {
    /// Sizes of recent batches, oldest first.
    pub batch_sizes: Vec<usize>,
    /// Processing times of the same batches, in nanoseconds.
    pub processing_times_ns: Vec<u64>,
    /// When the last sample was taken, in milliseconds.
    pub last_update_ms: u64,
}

/// At most this many recent samples are kept.
pub const MAX_SAMPLES: usize = 50;

/// The most recent `MAX_SAMPLES` entries of `s`.
pub open spec fn window<A>(s: Seq<A>) -> Seq<A> {
    if s.len() > MAX_SAMPLES {
        s.drop_first()
    } else {
        s
    }
}

/// The size of the sample with the highest throughput among the first `n`, and
/// that throughput as size over time: a sample replaces the best so far only when
/// its throughput is strictly higher (a sample of size 0 and time 0 never does; a
/// positive size in no time beats any finite throughput). Before any sample the
/// best is `min_size`, at throughput 0.
pub open spec fn best_sample(sizes: Seq<usize>, times: Seq<u64>, min_size: usize, n: nat) -> (usize, nat, nat)
    decreases n,
{
    if n == 0 {
        (min_size, 0, 1)
    } else {
        let prev = best_sample(sizes, times, min_size, (n - 1) as nat);
        let k = (n - 1) as int;
        if sizes[k] * prev.2 > prev.1 * times[k] {
            (sizes[k], sizes[k] as nat, times[k] as nat)
        } else {
            prev
        }
    }
}

/// `x` held between `lo` and `hi`.
pub open spec fn clamped(x: usize, lo: usize, hi: usize) -> usize {
    if x < lo {
        lo
    } else if x > hi {
        hi
    } else {
        x
    }
}

impl BatchPerformanceMetrics {
    /// Well-formed: one time per size, and at most `MAX_SAMPLES` of each.
    pub open spec fn wf(&self) -> bool {
        &&& self.batch_sizes@.len() == self.processing_times_ns@.len()
        &&& self.batch_sizes@.len() <= MAX_SAMPLES
    }

    /// No samples yet; `now_ms` is the time of creation.
    pub fn new(now_ms: u64) -> (m: Self)
        ensures
            m.wf(),
            m.batch_sizes@.len() == 0,
            m.last_update_ms == now_ms,
    {
        BatchPerformanceMetrics { batch_sizes: Vec::new(), processing_times_ns: Vec::new(), last_update_ms: now_ms }
    }

    /// Records a batch of `batch_size` proposals that took `processing_time_ns`,
    /// dropping the oldest sample beyond `MAX_SAMPLES`.
    pub fn record_batch(&mut self, batch_size: usize, processing_time_ns: u64, now_ms: u64)
        requires
            old(self).wf(),
        ensures
            final(self).wf(),
            final(self).batch_sizes@ == window(old(self).batch_sizes@.push(batch_size)),
            final(self).processing_times_ns@ == window(old(self).processing_times_ns@.push(processing_time_ns)),
            final(self).last_update_ms == now_ms,
    {
        self.batch_sizes.push(batch_size);
        self.processing_times_ns.push(processing_time_ns);
        if self.batch_sizes.len() > MAX_SAMPLES {
            let ghost s = self.batch_sizes@;
            let ghost t = self.processing_times_ns@;
            self.batch_sizes.remove(0);
            self.processing_times_ns.remove(0);
            assert(self.batch_sizes@ =~= s.drop_first());
            assert(self.processing_times_ns@ =~= t.drop_first());
        }
        self.last_update_ms = now_ms;
    }

    /// The batch size to aim for: half the maximum while fewer than 5 samples are
    /// known; otherwise the size of the sample with the best throughput, held
    /// within the configured bounds.
    pub fn get_optimal_batch_size(&self, config: &OptimizedBatchConfig) -> (n: usize)
        requires
            self.wf(),
            self.batch_sizes@.len() >= 5 ==> config.min_batch_size <= config.max_batch_size,
        ensures
            self.batch_sizes@.len() < 5 ==> n == config.max_batch_size / 2,
            self.batch_sizes@.len() >= 5 ==> n == clamped(
                best_sample(self.batch_sizes@, self.processing_times_ns@, config.min_batch_size, self.batch_sizes@.len()).0,
                config.min_batch_size,
                config.max_batch_size,
            ),
    {
        if self.batch_sizes.len() < 5 {
            return config.max_batch_size / 2;
        }
        let mut best_size = config.min_batch_size;
        let mut best_num: u128 = 0;
        let mut best_den: u128 = 1;
        let mut i: usize = 0;
        while i < self.batch_sizes.len()
            invariant
                self.wf(),
                i <= self.batch_sizes@.len(),
                (best_size, best_num as nat, best_den as nat) == best_sample(
                    self.batch_sizes@,
                    self.processing_times_ns@,
                    config.min_batch_size,
                    i as nat,
                ),
                best_num <= usize::MAX,
                best_den <= u64::MAX,
            decreases self.batch_sizes@.len() - i,
        {
            let size = self.batch_sizes[i] as u128;
            let time = self.processing_times_ns[i] as u128;
            assert(size * best_den <= u64::MAX * u64::MAX) by (nonlinear_arith)
                requires
                    size <= u64::MAX,
                    best_den <= u64::MAX,
            ;
            assert(best_num * time <= u64::MAX * u64::MAX) by (nonlinear_arith)
                requires
                    best_num <= u64::MAX,
                    time <= u64::MAX,
            ;
            if size * best_den > best_num * time {
                best_size = self.batch_sizes[i];
                best_num = size;
                best_den = time;
            }
            i = i + 1;
        }
        if best_size < config.min_batch_size {
            config.min_batch_size
        } else if best_size > config.max_batch_size {
            config.max_batch_size
        } else {
            best_size
        }
    }

    /// The mean processing time in nanoseconds (rounded down), or 10 ms when there
    /// are no samples.
    pub fn get_avg_processing_time_ns(&self) -> (t: u64)
        requires
            self.wf(),
        ensures
            self.processing_times_ns@.len() == 0 ==> t == 10_000_000,
            self.processing_times_ns@.len() > 0 ==> t == times_sum(self.processing_times_ns@) / (
            self.processing_times_ns@.len() as nat),
    {
        let n = self.processing_times_ns.len();
        if n == 0 {
            return 10_000_000;
        }
        let mut total: u128 = 0;
        let mut i: usize = 0;
        while i < n
            invariant
                n == self.processing_times_ns@.len(),
                n <= MAX_SAMPLES,
                i <= n,
                total == times_sum(self.processing_times_ns@.take(i as int)),
                total <= i * (u64::MAX as nat),
            decreases n - i,
        {
            assert(self.processing_times_ns@.take(i + 1).drop_last() =~= self.processing_times_ns@.take(i as int));
            total = total + self.processing_times_ns[i] as u128;
            i = i + 1;
        }
        assert(self.processing_times_ns@.take(n as int) =~= self.processing_times_ns@);
        let avg = total / (n as u128);
        assert(avg <= u64::MAX) by (nonlinear_arith)
            requires
                avg == total / (n as u128),
                total <= n * (u64::MAX as nat),
                n > 0,
        ;
        avg as u64
    }
}

/// The sum of a sequence of times.
pub open spec fn times_sum(s: Seq<u64>) -> nat
    decreases s.len(),
{
    if s.len() == 0 {
        0
    } else {
        times_sum(s.drop_last()) + s.last() as nat
    }
}

/// Expiry splits a batch in two: the proposals kept are exactly those not expired,
/// the ones handed back exactly those expired, and together they account for every
/// proposal and every byte of the estimate.
pub proof fn lemma_expiry_partitions<T>(s: Seq<EnhancedRaftProposal<T>>, now: u64)
    ensures
        unexpired(s, now).len() + expired_ones(s, now).len() == s.len(),
        size_sum(unexpired(s, now)) + size_sum(expired_ones(s, now)) == size_sum(s),
        forall|i: int| 0 <= i < unexpired(s, now).len() ==> !expired_at(#[trigger] unexpired(s, now)[i], now),
        forall|i: int| 0 <= i < expired_ones(s, now).len() ==> expired_at(#[trigger] expired_ones(s, now)[i], now),
    decreases s.len(),
{
    if s.len() > 0 {
        lemma_expiry_partitions(s.drop_last(), now);
        let u = unexpired(s.drop_last(), now);
        let e = expired_ones(s.drop_last(), now);
        if expired_at(s.last(), now) {
            assert(expired_ones(s, now).drop_last() =~= e);
            assert forall|i: int| 0 <= i < expired_ones(s, now).len() implies expired_at(#[trigger] expired_ones(s, now)[i], now) by {
                if i < e.len() {
                    assert(expired_ones(s, now)[i] == e[i]);
                }
            }
        } else {
            assert(unexpired(s, now).drop_last() =~= u);
            assert forall|i: int| 0 <= i < unexpired(s, now).len() implies !expired_at(#[trigger] unexpired(s, now)[i], now) by {
                if i < u.len() {
                    assert(unexpired(s, now)[i] == u[i]);
                }
            }
        }
    }
}

} // verus!
