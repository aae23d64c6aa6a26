use blixard_core::error::BlixardError;
use blixard_core::membership::Membership;
use blixard_core::messages::{
    decoding_outcome, deserialize_message, encoding_outcome, serialize_message, MessageRoute, MessageType,
};
use blixard_core::resource_monitor::running_vm_totals;
use blixard_core::types::{VmConfig, VmStatus};
use raft::eraftpb::{Message, MessageType as WireType};

fn vm(name: &str, vcpus: u32, memory: u32) -> VmConfig {
    VmConfig { name: name.to_string(), vcpus, memory, preemptible: false, priority: 500, tenant_id: None }
}

#[test]
fn running_vm_totals_count_only_running_vms() {
    let vms = vec![
        (vm("a", 4, 8192), VmStatus::Running),
        (vm("b", 2, 4096), VmStatus::Stopped),
        (vm("c", 1, 512), VmStatus::Running),
    ];
    let t = running_vm_totals(&vms);
    assert_eq!(t.vcpus, 5);
    assert_eq!(t.memory_mb, 8704);
    assert_eq!(t.disk_gb, 10);
    assert_eq!(t.vm_count, 2);

    let none = running_vm_totals(&vec![]);
    assert_eq!((none.vcpus, none.memory_mb, none.disk_gb, none.vm_count), (0, 0, 0, 0));
}

#[test]
fn messages_round_trip_through_their_encoding() {
    let mut msg = Message::default();
    msg.set_from(1);
    msg.set_to(2);
    msg.set_msg_type(WireType::MsgHeartbeat);
    msg.set_term(7);
    let bytes = serialize_message(&msg).unwrap();
    let back = deserialize_message(&bytes).unwrap();
    assert_eq!(back.get_from(), 1);
    assert_eq!(back.get_to(), 2);
    assert_eq!(back.get_term(), 7);
    let route = MessageRoute::from_message(&back);
    assert_eq!(route.msg_type, MessageType::Heartbeat);
}

#[test]
fn truncated_message_bytes_are_refused() {
    // A field tag with no value after it.
    match deserialize_message(&[0x08]) {
        Err(e) => assert_eq!(e, BlixardError::Serialization { what: "raft message", reason: "protobuf decoding failed" }),
        Ok(_) => panic!("truncated bytes decoded"),
    }
}

#[test]
fn peers_are_listed_with_their_addresses() {
    let mut m = Membership::new(1);
    m.update_peer_address(2, "10.0.0.2:7000".to_string());
    m.update_peer_address(3, "10.0.0.3:7000".to_string());
    m.update_peer_address(2, "10.0.0.9:7000".to_string());
    let mut peers = m.get_peers();
    peers.sort();
    assert_eq!(peers, vec![(2, "10.0.0.9:7000".to_string()), (3, "10.0.0.3:7000".to_string())]);
}

#[test]
fn encoder_outcomes_are_mapped() {
    assert_eq!(encoding_outcome(Ok(vec![1, 2, 3])), Ok(vec![1, 2, 3]));
    assert_eq!(
        encoding_outcome(Err(protobuf::ProtobufError::MessageNotInitialized { message: "Message" })),
        Err(BlixardError::Serialization { what: "raft message", reason: "protobuf encoding failed" })
    );
    let mut msg = Message::default();
    msg.set_from(9);
    assert_eq!(decoding_outcome(Ok(msg)).unwrap().get_from(), 9);
    match decoding_outcome(Err(protobuf::ProtobufError::MessageNotInitialized { message: "Message" })) {
        Err(e) => assert_eq!(e, BlixardError::Serialization { what: "raft message", reason: "protobuf decoding failed" }),
        Ok(_) => panic!("an encoder error became a message"),
    }
}
