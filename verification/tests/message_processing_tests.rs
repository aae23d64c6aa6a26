use blixard_core::message_processing::{
    can_forward_directly, estimate_message_size, BufferClass, MessageCache, MessageQueues, ProcessingStats,
    SerializationBuffer,
};
use blixard_core::messages::BatchPriority;

#[test]
fn test_serialization_buffer_reuse() {
    let mut buffer = SerializationBuffer::new();

    assert_eq!(buffer.get_buffer(1024), BufferClass::Small);
    assert_eq!(buffer.get_buffer(2048), BufferClass::Small);
    assert_eq!(buffer.get_buffer(512), BufferClass::Small);

    assert_eq!(buffer.reuse_stats(), 3);
}

#[test]
fn buffer_classes_and_clearing() {
    let mut buffer = SerializationBuffer::new();
    buffer.medium_buffer.extend_from_slice(&[1, 2, 3]);
    assert_eq!(buffer.get_buffer(4096), BufferClass::Small);
    assert_eq!(buffer.medium_buffer.len(), 3);
    assert_eq!(buffer.get_buffer(4097), BufferClass::Medium);
    assert!(buffer.medium_buffer.is_empty());
    assert_eq!(buffer.get_buffer(65537), BufferClass::Large);
}

#[test]
fn test_message_deduplication() {
    let mut cache = MessageCache::new(100);
    let hash = [1u8; 16];

    assert!(!cache.is_duplicate(&hash));
    assert!(cache.is_duplicate(&hash));

    let (hits, misses) = cache.get_cache_stats();
    assert_eq!(hits, 1);
    assert_eq!(misses, 1);
}

#[test]
fn full_cache_is_emptied() {
    let mut cache = MessageCache::new(2);
    assert!(!cache.is_duplicate(&[1u8; 16]));
    assert!(!cache.is_duplicate(&[2u8; 16]));
    assert!(!cache.is_duplicate(&[3u8; 16]));
    assert_eq!(cache.seen_messages.len(), 1);
    assert!(!cache.is_duplicate(&[1u8; 16]));
    assert!(cache.is_duplicate(&[3u8; 16]));
    assert_eq!(cache.get_cache_stats(), (1, 4));
}

#[test]
fn size_estimates_by_type() {
    assert_eq!(estimate_message_size(3, 10), 64 + 2560);
    assert_eq!(estimate_message_size(7, 0), 64 + 1024 * 1024);
    assert_eq!(estimate_message_size(5, 0), 96);
    assert_eq!(estimate_message_size(9, 0), 80);
    assert_eq!(estimate_message_size(2, 4), 192);
    assert!(can_forward_directly(8));
    assert!(can_forward_directly(6));
    assert!(!can_forward_directly(3));
    assert!(!can_forward_directly(7));
}

#[test]
fn queues_drain_by_priority_in_arrival_order() {
    let mut q: MessageQueues<u32> = MessageQueues::new();
    assert!(q.next_batch().is_none());
    q.queue_message(1, 3);
    q.queue_message(2, 8);
    q.queue_message(3, 3);
    q.queue_message(4, 5);
    q.queue_message(5, 7);
    let (b, p) = q.next_batch().unwrap();
    assert_eq!((b, p), (vec![4], BatchPriority::Election));
    let (b, p) = q.next_batch().unwrap();
    assert_eq!((b, p), (vec![2], BatchPriority::Heartbeat));
    let (b, p) = q.next_batch().unwrap();
    assert_eq!((b, p), (vec![1, 3], BatchPriority::Normal));
    let (b, p) = q.next_batch().unwrap();
    assert_eq!((b, p), (vec![5], BatchPriority::Snapshot));
    assert!(q.next_batch().is_none());
}

#[test]
fn snapshot_batches_hold_four() {
    let mut q: MessageQueues<u32> = MessageQueues::new();
    for i in 0..6 {
        q.queue_message(i, 7);
    }
    assert_eq!(q.snapshot.len(), 2);
    assert_eq!(q.next_batch().unwrap().0, vec![0, 1, 2, 3]);
    assert_eq!(q.next_batch().unwrap().0, vec![4, 5]);
}

#[test]
fn stats_counting() {
    let mut s = ProcessingStats::new();
    s.record_batch(3, 300, 7);
    s.record_forward(100, 2);
    assert_eq!(s.messages_processed, 3);
    assert_eq!(s.bytes_processed, 500);
    assert_eq!(s.batches_processed, 1);
    assert_eq!(s.serialization_reuses, 7);
    assert_eq!(s.zero_copy_forwards, 2);
}
