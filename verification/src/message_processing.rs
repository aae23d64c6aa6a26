//! Queueing of consensus messages by priority, buffer selection by size,
//! deduplication of recently seen messages, and processing statistics.
//!
//! Message types are given by their wire numbers (`MsgAppend` is 3,
//! `MsgRequestVote` 5 and its response 6, `MsgSnapshot` 7, `MsgHeartbeat` 8 and its
//! response 9).
use vstd::prelude::*;

use crate::messages::{batch_priority_of_code, BatchPriority};

verus! {

/// Counters of message processing.
#[derive(Debug, Clone, Copy, Default)]
pub struct ProcessingStats {
    pub messages_processed: u64,
    pub bytes_processed: u64,
    pub batches_processed: u64,
    pub zero_copy_forwards: u64,
    pub serialization_reuses: u64,
}

impl ProcessingStats {
    /// All counters at zero.
    pub fn new() -> (s: Self)
        ensures
            s == (ProcessingStats {
                messages_processed: 0,
                bytes_processed: 0,
                batches_processed: 0,
                zero_copy_forwards: 0,
                serialization_reuses: 0,
            }),
    {
        ProcessingStats {
            messages_processed: 0,
            bytes_processed: 0,
            batches_processed: 0,
            zero_copy_forwards: 0,
            serialization_reuses: 0,
        }
    }

    /// Counts a processed batch of `messages` messages and `bytes` estimated bytes;
    /// the reuse counter takes the buffer's current count.
    pub fn record_batch(&mut self, messages: u64, bytes: u64, reuses: u64)
        requires
            old(self).messages_processed + messages <= u64::MAX,
            old(self).bytes_processed + bytes <= u64::MAX,
            old(self).batches_processed < u64::MAX,
        ensures
            *final(self) == (ProcessingStats {
                messages_processed: (old(self).messages_processed + messages) as u64,
                bytes_processed: (old(self).bytes_processed + bytes) as u64,
                batches_processed: (old(self).batches_processed + 1) as u64,
                serialization_reuses: reuses,
                ..*old(self)
            }),
    {
        self.messages_processed = self.messages_processed + messages;
        self.bytes_processed = self.bytes_processed + bytes;
        self.batches_processed = self.batches_processed + 1;
        self.serialization_reuses = reuses;
    }

    /// Counts a message of `len` bytes forwarded as is to `targets` nodes.
    pub fn record_forward(&mut self, len: u64, targets: u64)
        requires
            old(self).zero_copy_forwards + targets <= u64::MAX,
            old(self).bytes_processed + len * targets <= u64::MAX,
        ensures
            *final(self) == (ProcessingStats {
                zero_copy_forwards: (old(self).zero_copy_forwards + targets) as u64,
                bytes_processed: (old(self).bytes_processed + len * targets) as u64,
                ..*old(self)
            }),
    {
        assert(len * targets <= u64::MAX) by (nonlinear_arith)
            requires
                self.bytes_processed + len * targets <= u64::MAX,
                self.bytes_processed >= 0,
        ;
        self.zero_copy_forwards = self.zero_copy_forwards + targets;
        self.bytes_processed = self.bytes_processed + len * targets;
    }
}

/// The estimated encoded size of a message: 64 bytes of header, plus 256 per log
/// entry for appends, 1 MiB for snapshots, 32 for votes and vote responses, 16 for
/// heartbeats and their responses, and 128 for anything else.
pub open spec fn message_size_estimate(code: i32, entries: nat) -> nat {
    64 + if code == 3 {
        entries * 256
    } else if code == 7 {
        1024 * 1024
    } else if code == 5 || code == 6 {
        32
    } else if code == 8 || code == 9 {
        16
    } else {
        128
    }
}

/// The estimated encoded size of a message of type `code` with `entry_count` log
/// entries (see [`message_size_estimate`]).
pub fn estimate_message_size(code: i32, entry_count: usize) -> (n: usize)
    requires
        code == 3 ==> 64 + entry_count * 256 <= usize::MAX,
    ensures
        n == message_size_estimate(code, entry_count as nat),
{
    if code == 3 {
        64 + entry_count * 256
    } else if code == 7 {
        64 + 1024 * 1024
    } else if code == 5 || code == 6 {
        64 + 32
    } else if code == 8 || code == 9 {
        64 + 16
    } else {
        64 + 128
    }
}

/// Whether a message of type `code` can be passed on without being decoded:
/// heartbeats, votes and their responses can.
pub fn can_forward_directly(code: i32) -> (r: bool)
    ensures
        r == (code == 8 || code == 9 || code == 5 || code == 6),
{
    code == 8 || code == 9 || code == 5 || code == 6
}

/// The most messages a batch of each priority holds: 32 for elections, 64 for
/// heartbeats, 16 for normal traffic and 4 for snapshots.
pub open spec fn batch_cap(p: BatchPriority) -> nat {
    match p {
        BatchPriority::Election => 32,
        BatchPriority::Heartbeat => 64,
        BatchPriority::Normal => 16,
        BatchPriority::Snapshot => 4,
    }
}

fn cap_of(p: BatchPriority) -> (n: usize)
    ensures
        n == batch_cap(p),
{
    match p {
        BatchPriority::Election => 32,
        BatchPriority::Heartbeat => 64,
        BatchPriority::Normal => 16,
        BatchPriority::Snapshot => 4,
    }
}

/// A queue of batches after `x` joins it: into the last batch while that has
/// room, else into a new batch.
pub open spec fn queued<T>(q: Seq<Seq<T>>, x: T, cap: nat) -> Seq<Seq<T>> {
    if q.len() == 0 || q.last().len() >= cap {
        q.push(seq![x])
    } else {
        q.update(q.len() - 1, q.last().push(x))
    }
}

/// The messages of a queue of batches, in order.
pub open spec fn flatten<T>(q: Seq<Seq<T>>) -> Seq<T>
    decreases q.len(),
{
    if q.len() == 0 {
        Seq::empty()
    } else {
        flatten(q.drop_last()) + q.last()
    }
}

/// The batches of a queue as sequences.
pub open spec fn batches<T>(q: Seq<Vec<T>>) -> Seq<Seq<T>> {
    q.map_values(|b: Vec<T>| b@)
}

/// Every batch of `q` holds between 1 and `cap` messages.
pub open spec fn well_sized<T>(q: Seq<Seq<T>>, cap: nat) -> bool {
    forall|i: int| 0 <= i < q.len() ==> 1 <= (#[trigger] q[i]).len() <= cap
}

/// Messages waiting to be processed, in batches, one queue per priority.
pub struct MessageQueues<T> {
    pub election: Vec<Vec<T>>,
    pub heartbeat: Vec<Vec<T>>,
    pub normal: Vec<Vec<T>>,
    pub snapshot: Vec<Vec<T>>,
}

/// Adds `x` to a queue of batches (see [`queued`]).
fn push_into<T>(q: &mut Vec<Vec<T>>, x: T, cap: usize)
    requires
        cap >= 1,
        well_sized(batches(old(q)@), cap as nat),
    ensures
        batches(final(q)@) == queued(batches(old(q)@), x, cap as nat),
        well_sized(batches(final(q)@), cap as nat),
{
    let ghost b0 = batches(q@);
    let n = q.len();
    if n == 0 || q[n - 1].len() >= cap {
        let mut b: Vec<T> = Vec::new();
        b.push(x);
        q.push(b);
        assert(batches(q@) =~= queued(b0, x, cap as nat));
    } else {
        let mut last = q.pop().unwrap();
        last.push(x);
        q.push(last);
        assert(batches(q@) =~= queued(b0, x, cap as nat));
    }
}

impl<T> MessageQueues<T> {
    /// Well-formed: every batch holds between 1 and its priority's cap.
    pub open spec fn wf(&self) -> bool {
        &&& well_sized(batches(self.election@), 32)
        &&& well_sized(batches(self.heartbeat@), 64)
        &&& well_sized(batches(self.normal@), 16)
        &&& well_sized(batches(self.snapshot@), 4)
    }

    /// The queue of batches of a priority.
    pub open spec fn queue(&self, p: BatchPriority) -> Seq<Seq<T>> {
        match p {
            BatchPriority::Election => batches(self.election@),
            BatchPriority::Heartbeat => batches(self.heartbeat@),
            BatchPriority::Normal => batches(self.normal@),
            BatchPriority::Snapshot => batches(self.snapshot@),
        }
    }

    /// Empty queues.
    pub fn new() -> (q: Self)
        ensures
            q.wf(),
            forall|p: BatchPriority| q.queue(p).len() == 0,
    {
        MessageQueues { election: Vec::new(), heartbeat: Vec::new(), normal: Vec::new(), snapshot: Vec::new() }
    }

    /// Queues a message of type `code` behind the others of its priority.
    pub fn queue_message(&mut self, message: T, code: i32)
        requires
            old(self).wf(),
        ensures
            final(self).wf(),
            forall|p: BatchPriority|
                #[trigger] final(self).queue(p) == if p == batch_priority_of_code(code) {
                    queued(old(self).queue(p), message, batch_cap(p))
                } else {
                    old(self).queue(p)
                },
    {
        let p = BatchPriority::from_message_code(code);
        match p {
            BatchPriority::Election => push_into(&mut self.election, message, cap_of(p)),
            BatchPriority::Heartbeat => push_into(&mut self.heartbeat, message, cap_of(p)),
            BatchPriority::Normal => push_into(&mut self.normal, message, cap_of(p)),
            BatchPriority::Snapshot => push_into(&mut self.snapshot, message, cap_of(p)),
        }
    }

    /// Takes the oldest batch of the most urgent priority that has one: elections
    /// first, then heartbeats, normal traffic and snapshots.
    pub fn next_batch(&mut self) -> (r: Option<(Vec<T>, BatchPriority)>)
        requires
            old(self).wf(),
        ensures
            final(self).wf(),
            match r {
                None => forall|p: BatchPriority| #[trigger] old(self).queue(p).len() == 0 && final(self).queue(p).len() == 0,
                Some((b, p)) => {
                    &&& old(self).queue(p).len() > 0
                    &&& b@ == old(self).queue(p)[0]
                    &&& final(self).queue(p) == old(self).queue(p).drop_first()
                    &&& forall|q: BatchPriority| q != p ==> #[trigger] final(self).queue(q) == old(self).queue(q)
                    &&& forall|q: BatchPriority| rank_of(q) < rank_of(p) ==> #[trigger] old(self).queue(q).len() == 0
                },
            },
    {
        let ghost s0 = *self;
        if self.election.len() > 0 {
            let b = self.election.remove(0);
            assert(batches(self.election@) =~= batches(s0.election@).drop_first());
            return Some((b, BatchPriority::Election));
        }
        if self.heartbeat.len() > 0 {
            let b = self.heartbeat.remove(0);
            assert(batches(self.heartbeat@) =~= batches(s0.heartbeat@).drop_first());
            return Some((b, BatchPriority::Heartbeat));
        }
        if self.normal.len() > 0 {
            let b = self.normal.remove(0);
            assert(batches(self.normal@) =~= batches(s0.normal@).drop_first());
            return Some((b, BatchPriority::Normal));
        }
        if self.snapshot.len() > 0 {
            let b = self.snapshot.remove(0);
            assert(batches(self.snapshot@) =~= batches(s0.snapshot@).drop_first());
            return Some((b, BatchPriority::Snapshot));
        }
        None
    }
}

/// The urgency rank of a batch priority: 0 for elections up to 3 for snapshots.
pub open spec fn rank_of(p: BatchPriority) -> nat {
    match p {
        BatchPriority::Election => 0,
        BatchPriority::Heartbeat => 1,
        BatchPriority::Normal => 2,
        BatchPriority::Snapshot => 3,
    }
}

/// Queueing a message keeps the messages of its queue in arrival order: the queue
/// reads as before with the message at the end.
pub proof fn lemma_queue_keeps_order<T>(q: Seq<Seq<T>>, x: T, cap: nat)
    ensures
        flatten(queued(q, x, cap)) == flatten(q).push(x),
{
    if q.len() == 0 || q.last().len() >= cap {
        assert(queued(q, x, cap).drop_last() =~= q);
        assert(flatten(q) + seq![x] =~= flatten(q).push(x));
    } else {
        let r = queued(q, x, cap);
        assert(r.drop_last() =~= q.drop_last());
        assert(flatten(q.drop_last()) + q.last().push(x) =~= (flatten(q.drop_last()) + q.last()).push(x));
    }
}

/// Size class of a serialization buffer.
#[derive(Debug, Clone, Copy, PartialEq, Eq, Structural)]
pub enum BufferClass {
    /// Up to 4 KiB.
    Small,
    /// Up to 64 KiB.
    Medium,
    /// Anything larger.
    Large,
}

/// The buffer class for a message of about `size` bytes.
pub open spec fn class_for(size: nat) -> BufferClass {
    if size <= 4096 {
        BufferClass::Small
    } else if size <= 65536 {
        BufferClass::Medium
    } else {
        BufferClass::Large
    }
}

/// Reusable buffers, one per size class, and how often they were handed out.
pub struct SerializationBuffer {
    pub small_buffer: Vec<u8>,
    pub medium_buffer: Vec<u8>,
    pub large_buffer: Vec<u8>,
    pub reuse_count: u64,
}

impl SerializationBuffer {
    /// Empty buffers, none handed out yet.
    pub fn new() -> (b: Self)
        ensures
            b.reuse_count == 0,
            b.small_buffer@.len() == 0,
            b.medium_buffer@.len() == 0,
            b.large_buffer@.len() == 0,
    {
        SerializationBuffer {
            small_buffer: Vec::new(),
            medium_buffer: Vec::new(),
            large_buffer: Vec::new(),
            reuse_count: 0,
        }
    }

    /// Hands out the buffer of the class for `size_hint` bytes, emptied, and counts
    /// the use; the other buffers are untouched.
    pub fn get_buffer(&mut self, size_hint: usize) -> (c: BufferClass)
        requires
            old(self).reuse_count < u64::MAX,
        ensures
            c == class_for(size_hint as nat),
            final(self).reuse_count == old(self).reuse_count + 1,
            c == BufferClass::Small ==> final(self).small_buffer@.len() == 0 && final(self).medium_buffer
                == old(self).medium_buffer && final(self).large_buffer == old(self).large_buffer,
            c == BufferClass::Medium ==> final(self).medium_buffer@.len() == 0 && final(self).small_buffer
                == old(self).small_buffer && final(self).large_buffer == old(self).large_buffer,
            c == BufferClass::Large ==> final(self).large_buffer@.len() == 0 && final(self).small_buffer
                == old(self).small_buffer && final(self).medium_buffer == old(self).medium_buffer,
    {
        self.reuse_count = self.reuse_count + 1;
        if size_hint <= 4096 {
            self.small_buffer.clear();
            BufferClass::Small
        } else if size_hint <= 65536 {
            self.medium_buffer.clear();
            BufferClass::Medium
        } else {
            self.large_buffer.clear();
            BufferClass::Large
        }
    }

    /// How many times a buffer was handed out.
    pub fn reuse_stats(&self) -> (n: u64)
        ensures
            n == self.reuse_count,
    {
        self.reuse_count
    }
}

fn same_hash(a: &[u8; 16], b: &[u8; 16]) -> (r: bool)
    ensures
        r == (a@ == b@),
{
    let mut i: usize = 0;
    while i < 16
        invariant
            i <= 16,
            a@.len() == 16,
            b@.len() == 16,
            forall|j: int| 0 <= j < i ==> a@[j] == b@[j],
        decreases 16 - i,
    {
        if a[i] != b[i] {
            return false;
        }
        i = i + 1;
    }
    assert(a@ =~= b@);
    true
}

/// Recently seen message hashes, with hit and miss counters.
pub struct MessageCache {
    /// Hashes seen since the cache was last emptied; none occurs twice.
    pub seen_messages: Vec<[u8; 16]>,
    pub cache_hits: u64,
    pub cache_misses: u64,
    pub max_capacity: usize,
}

/// The hashes of a cache as sequences of bytes.
pub open spec fn hashes(s: Seq<[u8; 16]>) -> Seq<Seq<u8>> {
    s.map_values(|h: [u8; 16]| h@)
}

/// A counter after one more, wrapping around at the top.
pub open spec fn bump(n: u64) -> u64 {
    if n == u64::MAX {
        0
    } else {
        (n + 1) as u64
    }
}

impl MessageCache {
    /// An empty cache that holds up to `capacity` hashes.
    pub fn new(capacity: usize) -> (c: Self)
        ensures
            c.seen_messages@.len() == 0,
            c.cache_hits == 0,
            c.cache_misses == 0,
            c.max_capacity == capacity,
    {
        MessageCache { seen_messages: Vec::new(), cache_hits: 0, cache_misses: 0, max_capacity: capacity }
    }

    /// Whether the hash was seen since the cache was last emptied. A hit is counted
    /// for a hash already there; otherwise a miss is counted and the hash recorded,
    /// after emptying the cache when it is full. The counters wrap around.
    pub fn is_duplicate(&mut self, message_hash: &[u8; 16]) -> (r: bool)
        ensures
            r == hashes(old(self).seen_messages@).contains(message_hash@),
            r ==> final(self).seen_messages@ == old(self).seen_messages@ && final(self).cache_hits == bump(old(self).cache_hits) && final(self).cache_misses == old(
                self,
            ).cache_misses,
            !r ==> final(self).cache_misses == bump(old(self).cache_misses)
                && final(self).cache_hits == old(self).cache_hits && final(self).seen_messages@ == if old(
                self,
            ).seen_messages@.len() >= old(self).max_capacity {
                seq![*message_hash]
            } else {
                old(self).seen_messages@.push(*message_hash)
            },
            final(self).max_capacity == old(self).max_capacity,
    {
        let mut i: usize = 0;
        while i < self.seen_messages.len()
            invariant
                *self == *old(self),
                i <= self.seen_messages@.len(),
                forall|j: int| 0 <= j < i ==> (#[trigger] self.seen_messages@[j])@ != message_hash@,
            decreases self.seen_messages@.len() - i,
        {
            if same_hash(&self.seen_messages[i], message_hash) {
                assert(hashes(self.seen_messages@)[i as int] == message_hash@);
                self.cache_hits = self.cache_hits.wrapping_add(1);
                return true;
            }
            i = i + 1;
        }
        assert(!hashes(self.seen_messages@).contains(message_hash@)) by {
            if hashes(self.seen_messages@).contains(message_hash@) {
                let j = choose|j: int| 0 <= j < hashes(self.seen_messages@).len() && hashes(self.seen_messages@)[j]
                    == message_hash@;
                assert(self.seen_messages@[j]@ == message_hash@);
            }
        }
        if self.seen_messages.len() >= self.max_capacity {
            self.seen_messages.clear();
        }
        self.seen_messages.push(*message_hash);
        self.cache_misses = self.cache_misses.wrapping_add(1);
        false
    }

    /// The hit and miss counters.
    pub fn get_cache_stats(&self) -> (r: (u64, u64))
        ensures
            r == (self.cache_hits, self.cache_misses),
    {
        (self.cache_hits, self.cache_misses)
    }
}

} // verus!
