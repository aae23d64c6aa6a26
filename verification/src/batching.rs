//! Accumulation of proposals into batches: when a batch is cut and handed on.
use vstd::prelude::*;

verus! {

/// Limits of batching.
#[derive(Debug, Clone, Copy)]
pub struct BatchConfig {
    /// Most proposals in one batch.
    pub max_batch_size: usize,
    /// Longest a batch waits before it is flushed, in milliseconds.
    pub batch_timeout_ms: u64,
    /// Most bytes in one batch.
    pub max_batch_bytes: usize,
    /// Whether proposals are batched at all.
    pub enabled: bool,
}

impl Default for BatchConfig {
    fn default() -> (c: Self)
        ensures
            c.max_batch_size == 100,
            c.batch_timeout_ms == 10,
            c.max_batch_bytes == 1024 * 1024,
            c.enabled,
    {
        BatchConfig {
            max_batch_size: 100,
            batch_timeout_ms: 10,
            max_batch_bytes: 1024 * 1024,
            enabled: true,
        }
    }
}

/// The estimated size of a proposal: its encoded data, its id and 64 bytes of overhead.
pub fn estimate_proposal_size(encoded_len: usize, id_len: usize) -> (s: usize)
    requires
        encoded_len + id_len + 64 <= usize::MAX,
    ensures
        s == encoded_len + id_len + 64,
{
    encoded_len + id_len + 64
}

/// The batch being accumulated.
pub struct ProposalBatch<T> {
    pub items: Vec<T>,
    /// Sum of the estimated sizes of the items.
    pub total_size: usize,
    /// When the first item arrived, in milliseconds.
    pub created_at_ms: i64,
}

/// Batching of proposals under a configuration.
pub struct BatchAccumulator<T> {
    pub config: BatchConfig,
    pub batch: ProposalBatch<T>,
}

impl<T> BatchAccumulator<T> {
    /// A pending batch is never full: it is empty or holds fewer proposals than the limit.
    pub open spec fn wf(&self) -> bool {
        self.batch.items@.len() == 0 || self.batch.items@.len() < self.config.max_batch_size
    }

    /// An empty batch started at `now_ms`.
    pub fn new(config: BatchConfig, now_ms: i64) -> (a: Self)
        ensures
            a.wf(),
            a.config == config,
            a.batch.items@.len() == 0,
            a.batch.total_size == 0,
            a.batch.created_at_ms == now_ms,
    {
        BatchAccumulator {
            config,
            batch: ProposalBatch { items: Vec::new(), total_size: 0, created_at_ms: now_ms },
        }
    }

    fn take_batch(&mut self, now_ms: i64) -> (out: Vec<T>)
        ensures
            out@ == old(self).batch.items@,
            final(self).batch.items@.len() == 0,
            final(self).batch.total_size == 0,
            final(self).batch.created_at_ms == now_ms,
            final(self).config == old(self).config,
    {
        let mut items: Vec<T> = Vec::new();
        std::mem::swap(&mut items, &mut self.batch.items);
        self.batch.total_size = 0;
        self.batch.created_at_ms = now_ms;
        items
    }

    /// Adds a proposal of estimated size `size` at `now_ms`. When the pending batch
    /// cannot take it (full, or over the byte limit with it), the pending batch is
    /// handed back and the proposal starts a new one; otherwise it joins the pending
    /// batch, which is handed back when that makes it full or reach the byte limit.
    /// Either way nothing is lost or reordered.
    pub fn add(&mut self, item: T, size: usize, now_ms: i64) -> (flushed: Option<Vec<T>>)
        requires
            old(self).wf(),
            old(self).batch.total_size + size <= usize::MAX,
        ensures
            final(self).wf(),
            final(self).config == old(self).config,
            match flushed {
                Some(out) => out@ + final(self).batch.items@ == old(self).batch.items@.push(item),
                None => final(self).batch.items@ == old(self).batch.items@.push(item),
            },
            ({
                let b = old(self).batch;
                let c = old(self).config;
                let cut_before = b.items@.len() > 0 && (b.items@.len() >= c.max_batch_size
                    || b.total_size + size > c.max_batch_bytes);
                let cut_after = !cut_before && (b.items@.len() + 1 >= c.max_batch_size
                    || b.total_size + size >= c.max_batch_bytes);
                &&& cut_before ==> (flushed matches Some(out) && out@ == b.items@) && final(self).batch.items@ == seq![item]
                    && final(self).batch.total_size == size && final(self).batch.created_at_ms
                    == now_ms
                &&& cut_after ==> flushed is Some && final(self).batch.items@.len() == 0
                    && final(self).batch.total_size == 0
                &&& !cut_before && !cut_after ==> flushed is None && final(self).batch.total_size
                    == b.total_size + size
            }),
    {
        let len = self.batch.items.len();
        if len > 0 && (len >= self.config.max_batch_size || self.batch.total_size + size
            > self.config.max_batch_bytes) {
            let out = self.take_batch(now_ms);
            self.batch.items.push(item);
            self.batch.total_size = size;
            proof {
                assert(self.batch.items@ =~= seq![item]);
            }
            return Some(out);
        }
        let ghost before = self.batch.items@;
        if len == 0 {
            self.batch.created_at_ms = now_ms;
        }
        self.batch.items.push(item);
        self.batch.total_size = self.batch.total_size + size;
        if self.batch.items.len() >= self.config.max_batch_size || self.batch.total_size
            >= self.config.max_batch_bytes {
            let out = self.take_batch(now_ms);
            proof {
                assert(out@ + self.batch.items@ =~= before.push(item));
            }
            return Some(out);
        }
        None
    }

    /// At `now_ms`: hands back the pending batch when it is not empty and has waited
    /// for the timeout or longer.
    pub fn tick(&mut self, now_ms: i64) -> (flushed: Option<Vec<T>>)
        requires
            old(self).wf(),
        ensures
            final(self).wf(),
            final(self).config == old(self).config,
            ({
                let b = old(self).batch;
                let due = b.items@.len() > 0 && now_ms - b.created_at_ms
                    >= old(self).config.batch_timeout_ms;
                &&& due ==> (flushed matches Some(out) && out@ == b.items@) && final(self).batch.items@.len() == 0
                &&& !due ==> flushed is None && final(self).batch.items@ == old(self).batch.items@
                    && final(self).batch.total_size == b.total_size
                    && final(self).batch.created_at_ms == b.created_at_ms
            }),
    {
        if self.batch.items.len() > 0 && (now_ms as i128) - (self.batch.created_at_ms as i128)
            >= self.config.batch_timeout_ms as i128 {
            let out = self.take_batch(now_ms);
            return Some(out);
        }
        None
    }

    /// Hands back whatever is pending.
    pub fn drain(&mut self, now_ms: i64) -> (flushed: Option<Vec<T>>)
        requires
            old(self).wf(),
        ensures
            final(self).wf(),
            final(self).config == old(self).config,
            final(self).batch.items@.len() == 0,
            old(self).batch.items@.len() > 0 ==> (flushed matches Some(out) && out@
                == old(self).batch.items@),
            old(self).batch.items@.len() == 0 ==> flushed is None,
    {
        if self.batch.items.len() > 0 {
            let out = self.take_batch(now_ms);
            return Some(out);
        }
        None
    }
}

} // verus!
