//! Byte encodings of the Raft log entry, hard state and configuration state.
//!
//! Entry layout: `[index:8][term:8][entry_type:1][data_len:4][data][context_len:4][context][sync_log:1]`.
//! Hard state layout: `[term:8][vote:8][commit:8]`.
//! Configuration state layout: four length-prefixed lists of little-endian `u64`
//! (voters, learners, outgoing voters, next learners) followed by an `auto_leave` byte.
use vstd::bytes::*;
use vstd::prelude::*;
use vstd::slice::*;

use crate::error::BlixardError;

verus! {

/// A Raft log entry as plain values.
pub struct RaftEntry {
    pub entry_type: i32,
    pub term: u64,
    pub index: u64,
    pub data: Vec<u8>,
    pub context: Vec<u8>,
    pub sync_log: bool,
}

/// The mathematical value of a [`RaftEntry`].
pub struct RaftEntryView {
    pub entry_type: i32,
    pub term: u64,
    pub index: u64,
    pub data: Seq<u8>,
    pub context: Seq<u8>,
    pub sync_log: bool,
}

impl View for RaftEntry {
    type V = RaftEntryView;

    open spec fn view(&self) -> RaftEntryView {
        RaftEntryView {
            entry_type: self.entry_type,
            term: self.term,
            index: self.index,
            data: self.data@,
            context: self.context@,
            sync_log: self.sync_log,
        }
    }
}

/// Raft hard state: current term, vote and commit index.
#[derive(PartialEq, Eq, Structural, Clone, Copy, Debug)]
pub struct HardState {
    pub term: u64,
    pub vote: u64,
    pub commit: u64,
}

/// Raft configuration state as plain values.
pub struct ConfState {
    pub voters: Vec<u64>,
    pub learners: Vec<u64>,
    pub voters_outgoing: Vec<u64>,
    pub learners_next: Vec<u64>,
    pub auto_leave: bool,
}

/// The mathematical value of a [`ConfState`].
pub struct ConfStateView {
    pub voters: Seq<u64>,
    pub learners: Seq<u64>,
    pub voters_outgoing: Seq<u64>,
    pub learners_next: Seq<u64>,
    pub auto_leave: bool,
}

impl View for ConfState {
    type V = ConfStateView;

    open spec fn view(&self) -> ConfStateView {
        ConfStateView {
            voters: self.voters@,
            learners: self.learners@,
            voters_outgoing: self.voters_outgoing@,
            learners_next: self.learners_next@,
            auto_leave: self.auto_leave,
        }
    }
}

// ---------------------------------------------------------------------------
// Specifications
// ---------------------------------------------------------------------------

/// One byte holding a boolean flag.
pub open spec fn flag_byte(b: bool) -> Seq<u8> {
    seq![if b { 1u8 } else { 0u8 }]
}

/// The encoding of an entry.
pub open spec fn entry_encoding(e: RaftEntryView) -> Seq<u8> {
    spec_u64_to_le_bytes(e.index) + spec_u64_to_le_bytes(e.term) + seq![e.entry_type as u8]
        + spec_u32_to_le_bytes(e.data.len() as u32) + e.data + spec_u32_to_le_bytes(
        e.context.len() as u32,
    ) + e.context + flag_byte(e.sync_log)
}

/// The little-endian `u32` stored at `start`.
pub open spec fn u32_at(s: Seq<u8>, start: int) -> u32 {
    spec_u32_from_le_bytes(s.subrange(start, start + 4))
}

/// The little-endian `u64` stored at `start`.
pub open spec fn u64_at(s: Seq<u8>, start: int) -> u64 {
    spec_u64_from_le_bytes(s.subrange(start, start + 8))
}

/// What decoding yields for a byte string: `None` where the bytes are too short.
pub open spec fn decode_entry(s: Seq<u8>) -> Option<RaftEntryView> {
    if s.len() < 26 {
        None
    } else {
        let data_len = u32_at(s, 17) as int;
        if 21 + data_len > s.len() {
            None
        } else if 21 + data_len + 4 > s.len() {
            None
        } else {
            let context_len = u32_at(s, 21 + data_len) as int;
            let context_end = 25 + data_len + context_len;
            if context_end > s.len() {
                None
            } else if context_end >= s.len() {
                None
            } else {
                Some(
                    RaftEntryView {
                        index: u64_at(s, 0),
                        term: u64_at(s, 8),
                        entry_type: s[16] as i32,
                        data: s.subrange(21, 21 + data_len),
                        context: s.subrange(25 + data_len, context_end),
                        sync_log: s[context_end] != 0,
                    },
                )
            }
        }
    }
}

/// The encoding of a hard state.
pub open spec fn hard_state_encoding(hs: HardState) -> Seq<u8> {
    spec_u64_to_le_bytes(hs.term) + spec_u64_to_le_bytes(hs.vote) + spec_u64_to_le_bytes(
        hs.commit,
    )
}

/// What decoding yields for a byte string: a hard state iff it has exactly 24 bytes.
pub open spec fn decode_hard_state(s: Seq<u8>) -> Option<HardState> {
    if s.len() != 24 {
        None
    } else {
        Some(HardState { term: u64_at(s, 0), vote: u64_at(s, 8), commit: u64_at(s, 16) })
    }
}

/// Concatenated little-endian encodings of a list of `u64`.
pub open spec fn u64s_encoding(v: Seq<u64>) -> Seq<u8>
    decreases v.len(),
{
    if v.len() == 0 {
        Seq::empty()
    } else {
        u64s_encoding(v.drop_last()) + spec_u64_to_le_bytes(v.last())
    }
}

/// A length-prefixed list of `u64`.
pub open spec fn u64_list_encoding(v: Seq<u64>) -> Seq<u8> {
    spec_u32_to_le_bytes(v.len() as u32) + u64s_encoding(v)
}

/// The `n` little-endian `u64` values stored from `start` on.
pub open spec fn u64s_at(s: Seq<u8>, start: int, n: nat) -> Seq<u64> {
    Seq::new(n, |i: int| u64_at(s, start + 8 * i))
}

/// Decoding a length-prefixed list at `start`: the list and the position after it.
pub open spec fn decode_u64_list(s: Seq<u8>, start: int) -> Option<(Seq<u64>, int)> {
    if start + 4 > s.len() {
        None
    } else {
        let n = u32_at(s, start) as int;
        if start + 4 + 8 * n > s.len() {
            None
        } else {
            Some((u64s_at(s, start + 4, n as nat), start + 4 + 8 * n))
        }
    }
}

/// The encoding of a configuration state.
pub open spec fn conf_state_encoding(cs: ConfStateView) -> Seq<u8> {
    u64_list_encoding(cs.voters) + u64_list_encoding(cs.learners) + u64_list_encoding(
        cs.voters_outgoing,
    ) + u64_list_encoding(cs.learners_next) + flag_byte(cs.auto_leave)
}

/// What decoding yields for a byte string. The flag byte is optional: when it is
/// missing the flag is false, and bytes after it are ignored.
pub open spec fn decode_conf_state(s: Seq<u8>) -> Option<ConfStateView> {
    if s.len() < 16 {
        None
    } else {
        match decode_u64_list(s, 0) {
            None => None,
            Some((voters, c1)) => match decode_u64_list(s, c1) {
                None => None,
                Some((learners, c2)) => match decode_u64_list(s, c2) {
                    None => None,
                    Some((voters_outgoing, c3)) => match decode_u64_list(s, c3) {
                        None => None,
                        Some((learners_next, c4)) => Some(
                            ConfStateView {
                                voters,
                                learners,
                                voters_outgoing,
                                learners_next,
                                auto_leave: c4 < s.len() && s[c4] != 0,
                            },
                        ),
                    },
                },
            },
        }
    }
}

// ---------------------------------------------------------------------------
// Lemmas
// ---------------------------------------------------------------------------

proof fn lemma_u64s_encoding(v: Seq<u64>)
    ensures
        u64s_encoding(v).len() == 8 * v.len(),
        forall|i: int|
            0 <= i < v.len() ==> #[trigger] u64s_encoding(v).subrange(8 * i, 8 * i + 8)
                == spec_u64_to_le_bytes(v[i]),
    decreases v.len(),
{
    lemma_auto_spec_u64_to_from_le_bytes();
    if v.len() > 0 {
        let w = v.drop_last();
        lemma_u64s_encoding(w);
        let enc = u64s_encoding(v);
        assert(enc == u64s_encoding(w) + spec_u64_to_le_bytes(v.last()));
        assert forall|i: int| 0 <= i < v.len() implies #[trigger] u64s_encoding(v).subrange(
            8 * i,
            8 * i + 8,
        ) == spec_u64_to_le_bytes(v[i]) by {
            if i < w.len() {
                assert(u64s_encoding(w).subrange(8 * i, 8 * i + 8) == spec_u64_to_le_bytes(w[i]));
                assert(enc.subrange(8 * i, 8 * i + 8) =~= u64s_encoding(w).subrange(
                    8 * i,
                    8 * i + 8,
                ));
            } else {
                assert(enc.subrange(8 * i, 8 * i + 8) =~= spec_u64_to_le_bytes(v.last()));
            }
        }
    }
}

proof fn lemma_decode_u64_list(s: Seq<u8>, start: int, v: Seq<u64>)
    requires
        0 <= start,
        v.len() <= u32::MAX,
        start + 4 + 8 * v.len() <= s.len(),
        s.subrange(start, start + 4 + 8 * v.len()) == u64_list_encoding(v),
    ensures
        decode_u64_list(s, start) == Some((v, start + 4 + 8 * v.len())),
{
    lemma_auto_spec_u32_to_from_le_bytes();
    lemma_auto_spec_u64_to_from_le_bytes();
    lemma_u64s_encoding(v);
    let enc = u64_list_encoding(v);
    assert(s.subrange(start, start + 4) =~= enc.subrange(0, 4));
    assert(enc.subrange(0, 4) =~= spec_u32_to_le_bytes(v.len() as u32));
    assert(u32_at(s, start) == v.len());
    let n = v.len();
    assert forall|i: int| 0 <= i < n implies #[trigger] u64s_at(s, start + 4, n)[i] == v[i] by {
        let whole = s.subrange(start, start + 4 + 8 * n);
        assert(s.subrange(start + 4 + 8 * i, start + 4 + 8 * i + 8) =~= whole.subrange(
            4 + 8 * i,
            12 + 8 * i,
        ));
        assert(enc.subrange(4 + 8 * i, 12 + 8 * i) =~= u64s_encoding(v).subrange(8 * i, 8 * i + 8));
        assert(u64s_encoding(v).subrange(8 * i, 8 * i + 8) == spec_u64_to_le_bytes(v[i]));
    }
    assert(u64s_at(s, start + 4, n) =~= v);
}

/// Decoding the encoding of an entry gives the entry back, for every entry whose
/// type fits in a byte and whose payloads fit a 32-bit length.
pub proof fn lemma_entry_round_trip(e: RaftEntryView)
    requires
        0 <= e.entry_type < 256,
        e.data.len() <= u32::MAX,
        e.context.len() <= u32::MAX,
    ensures
        decode_entry(entry_encoding(e)) == Some(e),
{
    lemma_auto_spec_u32_to_from_le_bytes();
    lemma_auto_spec_u64_to_from_le_bytes();
    let s = entry_encoding(e);
    let dl = e.data.len() as int;
    let cl = e.context.len() as int;
    assert(s.len() == 26 + dl + cl);
    assert(s.subrange(0, 8) =~= spec_u64_to_le_bytes(e.index));
    assert(s.subrange(8, 16) =~= spec_u64_to_le_bytes(e.term));
    assert(s[16] == e.entry_type as u8);
    assert(s.subrange(17, 21) =~= spec_u32_to_le_bytes(e.data.len() as u32));
    assert(u32_at(s, 17) == dl);
    assert(s.subrange(21, 21 + dl) =~= e.data);
    assert(s.subrange(21 + dl, 25 + dl) =~= spec_u32_to_le_bytes(e.context.len() as u32));
    assert(u32_at(s, 21 + dl) == cl);
    assert(s.subrange(25 + dl, 25 + dl + cl) =~= e.context);
    assert(s[25 + dl + cl] == (if e.sync_log { 1u8 } else { 0u8 }));
    let t = e.entry_type;
    assert((t as u8) as i32 == t) by (bit_vector)
        requires
            0 <= t < 256,
    ;
    assert(decode_entry(s) == Some(e));
}

/// Decoding the encoding of a hard state gives it back.
pub proof fn lemma_hard_state_round_trip(hs: HardState)
    ensures
        decode_hard_state(hard_state_encoding(hs)) == Some(hs),
{
    lemma_auto_spec_u64_to_from_le_bytes();
    let s = hard_state_encoding(hs);
    assert(s.subrange(0, 8) =~= spec_u64_to_le_bytes(hs.term));
    assert(s.subrange(8, 16) =~= spec_u64_to_le_bytes(hs.vote));
    assert(s.subrange(16, 24) =~= spec_u64_to_le_bytes(hs.commit));
}

/// Decoding the encoding of a configuration state gives it back, for lists whose
/// lengths fit a 32-bit prefix.
pub proof fn lemma_conf_state_round_trip(cs: ConfStateView)
    requires
        cs.voters.len() <= u32::MAX,
        cs.learners.len() <= u32::MAX,
        cs.voters_outgoing.len() <= u32::MAX,
        cs.learners_next.len() <= u32::MAX,
    ensures
        decode_conf_state(conf_state_encoding(cs)) == Some(cs),
{
    lemma_auto_spec_u32_to_from_le_bytes();
    lemma_u64s_encoding(cs.voters);
    lemma_u64s_encoding(cs.learners);
    lemma_u64s_encoding(cs.voters_outgoing);
    lemma_u64s_encoding(cs.learners_next);
    let e1 = u64_list_encoding(cs.voters);
    let e2 = u64_list_encoding(cs.learners);
    let e3 = u64_list_encoding(cs.voters_outgoing);
    let e4 = u64_list_encoding(cs.learners_next);
    let s = conf_state_encoding(cs);
    let c1 = e1.len() as int;
    let c2 = c1 + e2.len();
    let c3 = c2 + e3.len();
    let c4 = c3 + e4.len();
    assert(s.len() == c4 + 1);
    assert(s.len() >= 17);
    assert(s.subrange(0, c1) =~= e1);
    lemma_decode_u64_list(s, 0, cs.voters);
    assert(s.subrange(c1, c2) =~= e2);
    lemma_decode_u64_list(s, c1, cs.learners);
    assert(s.subrange(c2, c3) =~= e3);
    lemma_decode_u64_list(s, c2, cs.voters_outgoing);
    assert(s.subrange(c3, c4) =~= e4);
    lemma_decode_u64_list(s, c3, cs.learners_next);
    assert(s[c4] == (if cs.auto_leave { 1u8 } else { 0u8 }));
}

// ---------------------------------------------------------------------------
// Executable codec
// ---------------------------------------------------------------------------

fn push_bytes(buf: &mut Vec<u8>, bytes: Vec<u8>)
    ensures
        final(buf)@ == old(buf)@ + bytes@,
{
    let mut b = bytes;
    buf.append(&mut b);
}

/// Encodes a log entry. Payload lengths are written as 32-bit values and the
/// entry type as its low byte.
pub fn serialize_entry(entry: &RaftEntry) -> (r: Result<Vec<u8>, BlixardError>)
    ensures
        r matches Ok(bytes) && bytes@ == entry_encoding(entry@),
{
    let mut buf: Vec<u8> = Vec::new();
    push_bytes(&mut buf, u64_to_le_bytes(entry.index));
    push_bytes(&mut buf, u64_to_le_bytes(entry.term));
    buf.push(entry.entry_type as u8);
    push_bytes(&mut buf, u32_to_le_bytes(entry.data.len() as u32));
    push_bytes(&mut buf, slice_to_vec(entry.data.as_slice()));
    push_bytes(&mut buf, u32_to_le_bytes(entry.context.len() as u32));
    push_bytes(&mut buf, slice_to_vec(entry.context.as_slice()));
    buf.push(if entry.sync_log { 1u8 } else { 0u8 });
    assert(buf@ =~= entry_encoding(entry@));
    Ok(buf)
}

fn codec_error(what: &'static str, reason: &'static str) -> (e: BlixardError)
    ensures
        e == (BlixardError::Serialization { what, reason }),
{
    BlixardError::Serialization { what, reason }
}

/// Decodes a log entry. Fails with a serialization error exactly where
/// [`decode_entry`] has no value.
pub fn deserialize_entry(data: &[u8]) -> (r: Result<RaftEntry, BlixardError>)
    ensures
        match r {
            Ok(e) => decode_entry(data@) == Some(e@),
            Err(err) => decode_entry(data@) is None && err is Serialization,
        },
{
    let len = data.len();
    if len < 26 {
        return Err(codec_error("deserialize entry", "insufficient data"));
    }
    let index = u64_from_le_bytes(slice_subrange(data, 0, 8));
    let term = u64_from_le_bytes(slice_subrange(data, 8, 16));
    let entry_type = data[16] as i32;
    let mut cursor: usize = 17;
    if len - cursor < 4 {
        return Err(codec_error("deserialize entry", "insufficient data for data length"));
    }
    let data_len = u32_from_le_bytes(slice_subrange(data, cursor, cursor + 4)) as usize;
    cursor = cursor + 4;
    if data_len > len - cursor {
        return Err(codec_error("deserialize entry", "insufficient data for entry data"));
    }
    let entry_data = slice_to_vec(slice_subrange(data, cursor, cursor + data_len));
    cursor = cursor + data_len;
    if len - cursor < 4 {
        return Err(codec_error("deserialize entry", "insufficient data for context length"));
    }
    let context_len = u32_from_le_bytes(slice_subrange(data, cursor, cursor + 4)) as usize;
    cursor = cursor + 4;
    if context_len > len - cursor {
        return Err(codec_error("deserialize entry", "insufficient data for context"));
    }
    let context = slice_to_vec(slice_subrange(data, cursor, cursor + context_len));
    cursor = cursor + context_len;
    if cursor >= len {
        return Err(codec_error("deserialize entry", "insufficient data for sync_log"));
    }
    let sync_log = data[cursor] != 0;
    let entry = RaftEntry { entry_type, term, index, data: entry_data, context, sync_log };
    assert(entry@ == decode_entry(data@)->Some_0);
    Ok(entry)
}

/// Encodes a hard state as three little-endian `u64`.
pub fn serialize_hard_state(hs: &HardState) -> (r: Result<Vec<u8>, BlixardError>)
    ensures
        r matches Ok(bytes) && bytes@ == hard_state_encoding(*hs),
{
    let mut buf: Vec<u8> = Vec::with_capacity(24);
    push_bytes(&mut buf, u64_to_le_bytes(hs.term));
    push_bytes(&mut buf, u64_to_le_bytes(hs.vote));
    push_bytes(&mut buf, u64_to_le_bytes(hs.commit));
    Ok(buf)
}

/// Decodes a hard state; anything but exactly 24 bytes is a serialization error.
pub fn deserialize_hard_state(data: &[u8]) -> (r: Result<HardState, BlixardError>)
    ensures
        match r {
            Ok(hs) => decode_hard_state(data@) == Some(hs),
            Err(err) => decode_hard_state(data@) is None && err is Serialization,
        },
{
    if data.len() != 24 {
        return Err(codec_error("deserialize hard state", "invalid data length"));
    }
    let term = u64_from_le_bytes(slice_subrange(data, 0, 8));
    let vote = u64_from_le_bytes(slice_subrange(data, 8, 16));
    let commit = u64_from_le_bytes(slice_subrange(data, 16, 24));
    Ok(HardState { term, vote, commit })
}

fn push_u64_list(buf: &mut Vec<u8>, v: &Vec<u64>)
    ensures
        final(buf)@ == old(buf)@ + u64_list_encoding(v@),
{
    push_bytes(buf, u32_to_le_bytes(v.len() as u32));
    let ghost prefix = buf@;
    let mut i: usize = 0;
    while i < v.len()
        invariant
            i <= v.len(),
            buf@ == prefix + u64s_encoding(v@.take(i as int)),
        decreases v.len() - i,
    {
        push_bytes(buf, u64_to_le_bytes(v[i]));
        proof {
            assert(v@.take(i as int + 1).drop_last() =~= v@.take(i as int));
            assert(v@.take(i as int + 1).last() == v@[i as int]);
        }
        i = i + 1;
    }
    assert(v@.take(v.len() as int) =~= v@);
    assert(buf@ =~= old(buf)@ + u64_list_encoding(v@));
}

/// Encodes a configuration state.
pub fn serialize_conf_state(cs: &ConfState) -> (r: Result<Vec<u8>, BlixardError>)
    ensures
        r matches Ok(bytes) && bytes@ == conf_state_encoding(cs@),
{
    let mut buf: Vec<u8> = Vec::new();
    push_u64_list(&mut buf, &cs.voters);
    push_u64_list(&mut buf, &cs.learners);
    push_u64_list(&mut buf, &cs.voters_outgoing);
    push_u64_list(&mut buf, &cs.learners_next);
    buf.push(if cs.auto_leave { 1u8 } else { 0u8 });
    assert(buf@ =~= conf_state_encoding(cs@));
    Ok(buf)
}

fn read_u64_list(data: &[u8], start: usize) -> (r: Option<(Vec<u64>, usize)>)
    requires
        start <= data@.len(),
    ensures
        match r {
            Some((v, end)) => decode_u64_list(data@, start as int) == Some((v@, end as int)),
            None => decode_u64_list(data@, start as int) is None,
        },
{
    let len = data.len();
    if len - start < 4 {
        return None;
    }
    let n = u32_from_le_bytes(slice_subrange(data, start, start + 4)) as usize;
    let mut cursor: usize = start + 4;
    let mut out: Vec<u64> = Vec::new();
    let mut i: usize = 0;
    while i < n
        invariant
            start + 4 <= cursor <= len,
            len == data@.len(),
            n == u32_at(data@, start as int),
            i <= n,
            cursor == start + 4 + 8 * i,
            out@ == u64s_at(data@, start as int + 4, i as nat),
        decreases n - i,
    {
        if len - cursor < 8 {
            return None;
        }
        let x = u64_from_le_bytes(slice_subrange(data, cursor, cursor + 8));
        out.push(x);
        proof {
            assert(out@ =~= u64s_at(data@, start as int + 4, (i + 1) as nat));
        }
        cursor = cursor + 8;
        i = i + 1;
    }
    Some((out, cursor))
}

/// Decodes a configuration state. Fails with a serialization error exactly where
/// [`decode_conf_state`] has no value.
pub fn deserialize_conf_state(data: &[u8]) -> (r: Result<ConfState, BlixardError>)
    ensures
        match r {
            Ok(cs) => decode_conf_state(data@) == Some(cs@),
            Err(err) => decode_conf_state(data@) is None && err is Serialization,
        },
{
    if data.len() < 16 {
        return Err(codec_error("deserialize conf state", "insufficient data"));
    }
    let (voters, c1) = match read_u64_list(data, 0) {
        Some(p) => p,
        None => {
            return Err(codec_error("deserialize conf state", "insufficient data for voters"));
        },
    };
    let (learners, c2) = match read_u64_list(data, c1) {
        Some(p) => p,
        None => {
            return Err(codec_error("deserialize conf state", "insufficient data for learners"));
        },
    };
    let (voters_outgoing, c3) = match read_u64_list(data, c2) {
        Some(p) => p,
        None => {
            return Err(
                codec_error("deserialize conf state", "insufficient data for voters_outgoing"),
            );
        },
    };
    let (learners_next, c4) = match read_u64_list(data, c3) {
        Some(p) => p,
        None => {
            return Err(
                codec_error("deserialize conf state", "insufficient data for learners_next"),
            );
        },
    };
    let mut auto_leave = false;
    if c4 < data.len() {
        auto_leave = data[c4] != 0;
    }
    Ok(ConfState { voters, learners, voters_outgoing, learners_next, auto_leave })
}

} // verus!
