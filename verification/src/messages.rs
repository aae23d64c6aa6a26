//! Consensus message classification and routing, and membership-change requests.
use vstd::prelude::*;

use crate::error::BlixardError;

verus! {

/// The consensus message type, as the protocol library defines it.
#[verifier::external_type_specification]
#[verifier::external_body]
pub struct ExRaftMessage(raft::eraftpb::Message);

/// Kind of a consensus message, for routing.
#[derive(Debug, Clone, Copy, PartialEq, Eq, Structural)]
pub enum MessageType {
    Vote,
    Heartbeat,
    Append,
    Snapshot,
    VoteResponse,
    HeartbeatResponse,
    AppendResponse,
    SnapshotResponse,
}

/// The routing kind of a protocol message type, given by its wire number: hup and
/// vote requests are votes, beats and heartbeats heartbeats, proposals and appends
/// appends; anything without a kind of its own counts as a heartbeat.
pub open spec fn message_type_of_code(code: i32) -> MessageType {
    if code == 0 || code == 5 {
        MessageType::Vote
    } else if code == 2 || code == 3 {
        MessageType::Append
    } else if code == 4 {
        MessageType::AppendResponse
    } else if code == 6 {
        MessageType::VoteResponse
    } else if code == 7 {
        MessageType::Snapshot
    } else if code == 9 {
        MessageType::HeartbeatResponse
    } else {
        MessageType::Heartbeat
    }
}

impl MessageType {
    /// The routing kind of the protocol message type numbered `code`.
    pub fn from_code(code: i32) -> (t: MessageType)
        ensures
            t == message_type_of_code(code),
    {
        if code == 0 || code == 5 {
            MessageType::Vote
        } else if code == 2 || code == 3 {
            MessageType::Append
        } else if code == 4 {
            MessageType::AppendResponse
        } else if code == 6 {
            MessageType::VoteResponse
        } else if code == 7 {
            MessageType::Snapshot
        } else if code == 9 {
            MessageType::HeartbeatResponse
        } else {
            MessageType::Heartbeat
        }
    }
}

/// Sender, receiver and wire type number of a protocol message.
#[derive(Debug, Clone, Copy)]
pub struct MessageHeader {
    pub from: u64,
    pub to: u64,
    pub msg_type_code: i32,
}

/// The sender, receiver and wire type number of a message, as the generated
/// `get_from`, `get_to` and `get_msg_type` accessors of `raft::eraftpb::Message`
/// read them.
pub uninterp spec fn header_of(msg: raft::eraftpb::Message) -> MessageHeader;

/// The sender, receiver and type number of a message, read with the generated
/// accessors; they depend on the message alone (see [`header_of`]).
#[verifier::external_body]
fn message_header(msg: &raft::eraftpb::Message) -> (h: MessageHeader)
    ensures
        h == header_of(*msg),
{
    MessageHeader { from: msg.get_from(), to: msg.get_to(), msg_type_code: msg.get_msg_type() as i32 }
}

/// The error type of the protobuf crate's encoder and decoder.
#[verifier::external_type_specification]
#[verifier::external_body]
pub struct ExProtobufError(protobuf::ProtobufError);

/// The bytes `protobuf::Message::write_to_bytes` gives for a message, or `None`
/// where it fails.
pub uninterp spec fn wire_bytes(msg: raft::eraftpb::Message) -> Option<Seq<u8>>;

/// The message `protobuf::Message::merge_from_bytes` reads from bytes into a
/// fresh message, or `None` where it refuses them.
pub uninterp spec fn decoded(bytes: Seq<u8>) -> Option<raft::eraftpb::Message>;

/// The wire encoding of a message, from `protobuf::Message::write_to_bytes`, or
/// the encoder's error; the outcome depends on the message alone (see
/// [`wire_bytes`]).
#[verifier::external_body]
fn message_bytes(msg: &raft::eraftpb::Message) -> (r: Result<Vec<u8>, protobuf::ProtobufError>)
    ensures
        match r {
            Ok(b) => wire_bytes(*msg) == Some(b@),
            Err(_) => wire_bytes(*msg) is None,
        },
{
    protobuf::Message::write_to_bytes(msg)
}

/// A message read from bytes with `protobuf::Message::merge_from_bytes` into a
/// fresh message, or the decoder's error; the outcome depends on the bytes alone
/// (see [`decoded`]).
#[verifier::external_body]
fn message_from_bytes(data: &[u8]) -> (r: Result<raft::eraftpb::Message, protobuf::ProtobufError>)
    ensures
        match r {
            Ok(m) => decoded(data@) == Some(m),
            Err(_) => decoded(data@) is None,
        },
{
    let mut msg = raft::eraftpb::Message::default();
    match protobuf::Message::merge_from_bytes(&mut msg, data) {
        Ok(()) => Ok(msg),
        Err(e) => Err(e),
    }
}

/// What an encoding attempt comes to: its bytes, or a serialization error for a
/// failure of the encoder.
pub fn encoding_outcome(outcome: Result<Vec<u8>, protobuf::ProtobufError>) -> (r: Result<Vec<u8>, BlixardError>)
    ensures
        outcome is Ok ==> r is Ok && r->Ok_0 == outcome->Ok_0,
        outcome is Err ==> r == Err::<Vec<u8>, BlixardError>(
            BlixardError::Serialization { what: "raft message", reason: "protobuf encoding failed" },
        ),
{
    match outcome {
        Ok(bytes) => Ok(bytes),
        Err(_) => Err(BlixardError::Serialization { what: "raft message", reason: "protobuf encoding failed" }),
    }
}

/// What a decoding attempt comes to: its message, or a serialization error for
/// bytes the decoder refused.
pub fn decoding_outcome(outcome: Result<raft::eraftpb::Message, protobuf::ProtobufError>) -> (r: Result<raft::eraftpb::Message, BlixardError>)
    ensures
        outcome is Ok ==> r is Ok && r->Ok_0 == outcome->Ok_0,
        outcome is Err ==> r == Err::<raft::eraftpb::Message, BlixardError>(
            BlixardError::Serialization { what: "raft message", reason: "protobuf decoding failed" },
        ),
{
    match outcome {
        Ok(msg) => Ok(msg),
        Err(_) => Err(BlixardError::Serialization { what: "raft message", reason: "protobuf decoding failed" }),
    }
}

/// The wire encoding of a consensus message, as the protobuf encoder gives it
/// (see [`encoding_outcome`]); an encoder failure is reported as a serialization
/// error.
pub fn serialize_message(msg: &raft::eraftpb::Message) -> (r: Result<Vec<u8>, BlixardError>)
    ensures
        wire_bytes(*msg) is None ==> r == Err::<Vec<u8>, BlixardError>(
            BlixardError::Serialization { what: "raft message", reason: "protobuf encoding failed" },
        ),
        wire_bytes(*msg) is Some ==> r is Ok && r->Ok_0@ == wire_bytes(*msg)->0,
{
    encoding_outcome(message_bytes(msg))
}

/// A consensus message read from its wire encoding by the protobuf decoder (see
/// [`decoding_outcome`]); bytes that do not decode are reported as a
/// serialization error.
pub fn deserialize_message(data: &[u8]) -> (r: Result<raft::eraftpb::Message, BlixardError>)
    ensures
        decoded(data@) is None ==> r == Err::<raft::eraftpb::Message, BlixardError>(
            BlixardError::Serialization { what: "raft message", reason: "protobuf decoding failed" },
        ),
        decoded(data@) is Some ==> r == Ok::<raft::eraftpb::Message, BlixardError>(decoded(data@)->0),
{
    decoding_outcome(message_from_bytes(data))
}

/// Where a message goes and what it is.
#[derive(Debug, Clone, Copy)]
pub struct MessageRoute {
    pub from: u64,
    pub to: u64,
    pub msg_type: MessageType,
}

impl MessageRoute {
    /// The route described by a message header.
    pub fn from_header(h: MessageHeader) -> (r: MessageRoute)
        ensures
            r.from == h.from,
            r.to == h.to,
            r.msg_type == message_type_of_code(h.msg_type_code),
    {
        MessageRoute { from: h.from, to: h.to, msg_type: MessageType::from_code(h.msg_type_code) }
    }

    /// The route of a message: its sender, receiver and routing kind.
    pub fn from_message(msg: &raft::eraftpb::Message) -> (r: MessageRoute)
        ensures
            r.from == header_of(*msg).from,
            r.to == header_of(*msg).to,
            r.msg_type == message_type_of_code(header_of(*msg).msg_type_code),
    {
        let h = message_header(msg);
        MessageRoute::from_header(h)
    }
}

/// Processing priority of a message batch, most urgent first.
#[derive(Debug, Clone, Copy, PartialEq, Eq, PartialOrd, Ord, Hash, Structural)]
pub enum BatchPriority {
    /// Election traffic.
    Election,
    /// Heartbeats.
    Heartbeat,
    /// Log appends and everything else.
    Normal,
    /// Snapshot transfers.
    Snapshot,
}

/// The batch priority of a protocol message type, given by its wire number.
pub open spec fn batch_priority_of_code(code: i32) -> BatchPriority {
    if code == 5 || code == 6 {
        BatchPriority::Election
    } else if code == 8 || code == 9 {
        BatchPriority::Heartbeat
    } else if code == 7 {
        BatchPriority::Snapshot
    } else {
        BatchPriority::Normal
    }
}

impl BatchPriority {
    /// The priority of the protocol message type numbered `code`: vote requests and
    /// responses are elections, heartbeats and their responses heartbeats, snapshots
    /// snapshots, everything else normal.
    pub fn from_message_code(code: i32) -> (p: BatchPriority)
        ensures
            p == batch_priority_of_code(code),
    {
        if code == 5 || code == 6 {
            BatchPriority::Election
        } else if code == 8 || code == 9 {
            BatchPriority::Heartbeat
        } else if code == 7 {
            BatchPriority::Snapshot
        } else {
            BatchPriority::Normal
        }
    }
}

/// Kind of membership change.
#[derive(Debug, Clone, Copy, PartialEq, Eq, Structural)]
pub enum ConfChangeType {
    AddNode,
    RemoveNode,
}

/// Peer-to-peer details carried with a membership change.
#[derive(Debug, Clone)]
pub struct ConfChangeContext {
    pub address: String,
    pub p2p_node_id: Option<String>,
    pub p2p_addresses: Vec<String>,
    pub p2p_relay_url: Option<String>,
}

} // verus!
