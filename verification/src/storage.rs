//! The pure part of the Raft log store: what the stored bytes decode to, with the
//! defaults used where nothing (or nothing readable) is stored.
use vstd::prelude::*;

use crate::codec::{
    decode_conf_state, decode_entry, decode_hard_state, deserialize_conf_state,
    deserialize_entry, deserialize_hard_state, ConfState, ConfStateView, HardState, RaftEntry,
};
use crate::error::BlixardError;

verus! {

/// The hard state of a fresh node.
pub open spec fn zero_hard_state() -> HardState {
    HardState { term: 0, vote: 0, commit: 0 }
}

/// The configuration state of a fresh node.
pub open spec fn empty_conf_state() -> ConfStateView {
    ConfStateView {
        voters: Seq::empty(),
        learners: Seq::empty(),
        voters_outgoing: Seq::empty(),
        learners_next: Seq::empty(),
        auto_leave: false,
    }
}

/// The hard state to start from: the stored one when it decodes, zero otherwise.
pub fn initial_hard_state(stored: Option<&[u8]>) -> (hs: HardState)
    ensures
        hs == match stored {
            Some(d) => match decode_hard_state(d@) {
                Some(h) => h,
                None => zero_hard_state(),
            },
            None => zero_hard_state(),
        },
{
    match stored {
        Some(d) => match deserialize_hard_state(d) {
            Ok(h) => h,
            Err(_) => HardState { term: 0, vote: 0, commit: 0 },
        },
        None => HardState { term: 0, vote: 0, commit: 0 },
    }
}

/// The configuration state to start from: the stored one when it decodes, empty otherwise.
pub fn initial_conf_state(stored: Option<&[u8]>) -> (cs: ConfState)
    ensures
        cs@ == match stored {
            Some(d) => match decode_conf_state(d@) {
                Some(c) => c,
                None => empty_conf_state(),
            },
            None => empty_conf_state(),
        },
{
    let empty = ConfState {
        voters: Vec::new(),
        learners: Vec::new(),
        voters_outgoing: Vec::new(),
        learners_next: Vec::new(),
        auto_leave: false,
    };
    match stored {
        Some(d) => match deserialize_conf_state(d) {
            Ok(c) => c,
            Err(_) => {
                proof {
                    assert(empty@ == empty_conf_state());
                }
                empty
            },
        },
        None => {
            proof {
                assert(empty@ == empty_conf_state());
            }
            empty
        },
    }
}

/// The first log index: the smallest stored one, or 1 for an empty log.
pub fn first_index(smallest_stored: Option<u64>) -> (i: u64)
    ensures
        i == match smallest_stored {
            Some(k) => k,
            None => 1,
        },
{
    match smallest_stored {
        Some(k) => k,
        None => 1,
    }
}

/// The last log index: the largest stored one, or 0 for an empty log.
pub fn last_index(largest_stored: Option<u64>) -> (i: u64)
    ensures
        i == match largest_stored {
            Some(k) => k,
            None => 0,
        },
{
    match largest_stored {
        Some(k) => k,
        None => 0,
    }
}

/// The term of a log index from its stored bytes: 0 when nothing is stored there.
pub fn term_of(stored: Option<&[u8]>) -> (r: Result<u64, BlixardError>)
    ensures
        match stored {
            None => r == Ok::<u64, BlixardError>(0),
            Some(d) => match decode_entry(d@) {
                Some(e) => r == Ok::<u64, BlixardError>(e.term),
                None => r is Err && r->Err_0 is Serialization,
            },
        },
{
    match stored {
        None => Ok(0),
        Some(d) => match deserialize_entry(d) {
            Ok(e) => Ok(e.term),
            Err(err) => Err(err),
        },
    }
}

/// The stored entries that a read returns, in index order: missing indices are
/// skipped, and the read stops before the first entry that would take the total
/// size past `max_size`.
pub open spec fn entries_taken(blobs: Seq<Option<Vec<u8>>>, max_size: Option<u64>, size: int) -> Seq<Seq<u8>>
    decreases blobs.len(),
{
    if blobs.len() == 0 {
        Seq::empty()
    } else {
        match blobs[0] {
            None => entries_taken(blobs.drop_first(), max_size, size),
            Some(d) => if max_size matches Some(m) && size + d@.len() > m {
                Seq::empty()
            } else {
                seq![d@] + entries_taken(blobs.drop_first(), max_size, size + d@.len())
            },
        }
    }
}

/// Reads the entries of a run of indices from their stored bytes (`None` where an
/// index has nothing stored), within `max_size` bytes if given. Fails when one of the
/// entries read does not decode.
pub fn collect_entries(blobs: &Vec<Option<Vec<u8>>>, max_size: Option<u64>) -> (r: Result<Vec<RaftEntry>, BlixardError>)
    ensures
        ({
            let taken = entries_taken(blobs@, max_size, 0);
            &&& r is Ok <==> forall|k: int| 0 <= k < taken.len() ==> decode_entry(#[trigger] taken[k]) is Some
            &&& r matches Ok(v) ==> v@.len() == taken.len() && forall|k: int|
                0 <= k < taken.len() ==> decode_entry(#[trigger] taken[k]) == Some(v@[k]@)
            &&& r matches Err(e) ==> e is Serialization
        }),
{
    let mut out: Vec<RaftEntry> = Vec::new();
    let mut size: u128 = 0;
    let mut i: usize = 0;
    let ghost total = entries_taken(blobs@, max_size, 0);
    let ghost mut done: Seq<Seq<u8>> = Seq::empty();
    proof {
        assert(blobs@.skip(0) =~= blobs@);
        assert(done + entries_taken(blobs@.skip(0), max_size, 0) =~= total);
    }
    let n = blobs.len();
    while i < n
        invariant_except_break
            n == blobs@.len(),
            i <= n,
            size <= i * (usize::MAX as int),
            total == entries_taken(blobs@, max_size, 0),
            total == done + entries_taken(blobs@.skip(i as int), max_size, size as int),
            out@.len() == done.len(),
            forall|k: int| 0 <= k < done.len() ==> decode_entry(#[trigger] done[k]) == Some(out@[k]@),
        ensures
            total == entries_taken(blobs@, max_size, 0),
            total == done,
            out@.len() == done.len(),
            forall|k: int| 0 <= k < done.len() ==> decode_entry(#[trigger] done[k]) == Some(out@[k]@),
        decreases n - i,
    {
        let ghost rest = blobs@.skip(i as int);
        proof {
            assert(rest[0] == blobs@[i as int]);
            assert(rest.drop_first() =~= blobs@.skip(i as int + 1));
        }
        match &blobs[i] {
            None => {},
            Some(d) => {
                let len = d.len();
                proof {
                    assert(i * (usize::MAX as int) + len <= (i + 1) * (usize::MAX as int))
                        by (nonlinear_arith)
                        requires
                            len <= usize::MAX,
                    ;
                    assert((i + 1) * (usize::MAX as int) <= (usize::MAX as int) * (usize::MAX as int))
                        by (nonlinear_arith)
                        requires
                            i + 1 <= usize::MAX,
                    ;
                    assert((usize::MAX as int) * (usize::MAX as int) <= u128::MAX) by (nonlinear_arith)
                        requires
                            usize::MAX <= u64::MAX,
                    ;
                }
                let over = match max_size {
                    Some(m) => size + (len as u128) > m as u128,
                    None => false,
                };
                if over {
                    proof {
                        assert(entries_taken(rest, max_size, size as int) =~= Seq::<Seq<u8>>::empty());
                        assert(total =~= done);
                    }
                    break;
                }
                match deserialize_entry(d.as_slice()) {
                    Ok(e) => {
                        out.push(e);
                        proof {
                            let tail = entries_taken(rest.drop_first(), max_size, size + len);
                            assert(done + (seq![d@] + tail) =~= done.push(d@) + tail);
                            done = done.push(d@);
                        }
                        proof {
                            assert((i + 1) * (usize::MAX as int) == i * (usize::MAX as int) + usize::MAX)
                                by (nonlinear_arith);
                        }
                        size = size + len as u128;
                    },
                    Err(err) => {
                        proof {
                            let k = done.len() as int;
                            assert(total[k] == d@);
                        }
                        return Err(err);
                    },
                }
            },
        }
        proof {
            assert((i + 1) * (usize::MAX as int) >= i * (usize::MAX as int)) by (nonlinear_arith);
        }
        i = i + 1;
    }
    proof {
        if i == n {
            assert(blobs@.skip(n as int) =~= Seq::<Option<Vec<u8>>>::empty());
        }
    }
    Ok(out)
}

/// Applied entries beyond which the log is compacted.
pub const COMPACTION_THRESHOLD: u64 = 1000;

/// Whether to compact the log now: more than `COMPACTION_THRESHOLD` entries are
/// applied, and either the log was never compacted or more than half the threshold
/// was applied since the last compaction.
pub fn should_compact(applied_index: u64, last_compaction: Option<u64>) -> (r: bool)
    requires
        applied_index > COMPACTION_THRESHOLD ==> match last_compaction {
            Some(last) => last <= applied_index,
            None => true,
        },
    ensures
        r == (applied_index > COMPACTION_THRESHOLD && match last_compaction {
            Some(last) => applied_index - last > COMPACTION_THRESHOLD / 2,
            None => true,
        }),
{
    if applied_index > COMPACTION_THRESHOLD {
        match last_compaction {
            Some(last) => applied_index - last > COMPACTION_THRESHOLD / 2,
            None => true,
        }
    } else {
        false
    }
}

/// The stored log indices that a compaction before `index` removes: those below
/// it, in the order given; none when `index` is 0.
pub fn keys_to_compact(keys: &Vec<u64>, index: u64) -> (r: Vec<u64>)
    ensures
        r@ == keys@.filter(|k: u64| k < index),
{
    let mut r: Vec<u64> = Vec::new();
    if index == 0 {
        assert(keys@.filter(|k: u64| k < index) =~= Seq::<u64>::empty()) by {
            lemma_filter_none(keys@, index);
        }
        return r;
    }
    let mut i: usize = 0;
    while i < keys.len()
        invariant
            i <= keys@.len(),
            r@ == keys@.take(i as int).filter(|k: u64| k < index),
        decreases keys@.len() - i,
    {
        proof {
            reveal(Seq::filter);
            assert(keys@.take(i + 1).drop_last() =~= keys@.take(i as int));
        }
        if keys[i] < index {
            r.push(keys[i]);
        }
        i = i + 1;
    }
    assert(keys@.take(i as int) =~= keys@);
    r
}

proof fn lemma_filter_none(keys: Seq<u64>, index: u64)
    requires
        index == 0,
    ensures
        keys.filter(|k: u64| k < index) =~= Seq::<u64>::empty(),
    decreases keys.len(),
{
    reveal(Seq::filter);
    if keys.len() > 0 {
        lemma_filter_none(keys.drop_last(), index);
    }
}

} // verus!
