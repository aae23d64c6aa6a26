use blixard_core::priority_batching::{
    BatchPerformanceMetrics, EnhancedRaftProposal, OptimizedBatchConfig, OptimizedProposalBatch, ProposalPriority,
};

#[test]
fn test_batch_performance_metrics() {
    let mut metrics = BatchPerformanceMetrics::new(0);

    metrics.record_batch(10, 100_000_000, 1);
    metrics.record_batch(20, 150_000_000, 2);

    let config = OptimizedBatchConfig::default();
    let optimal_size = metrics.get_optimal_batch_size(&config);

    assert!(optimal_size >= config.min_batch_size);
    assert!(optimal_size <= config.max_batch_size);
    assert_eq!(optimal_size, 50);
}

#[test]
fn optimal_size_follows_best_throughput() {
    let mut metrics = BatchPerformanceMetrics::new(0);
    // throughputs: 10/100, 40/100 (best), 30/100, 4/20, 1/1000
    metrics.record_batch(10, 100, 0);
    metrics.record_batch(40, 100, 0);
    metrics.record_batch(30, 100, 0);
    metrics.record_batch(4, 20, 0);
    metrics.record_batch(1, 1000, 0);
    let config = OptimizedBatchConfig::default();
    assert_eq!(metrics.get_optimal_batch_size(&config), 40);
    // A batch processed in no time beats every finite throughput.
    metrics.record_batch(60, 0, 0);
    assert_eq!(metrics.get_optimal_batch_size(&config), 60);
    // The choice is held within the configured bounds.
    metrics.record_batch(1000, 0, 0);
    assert_eq!(metrics.get_optimal_batch_size(&config), 60);
    let mut small = BatchPerformanceMetrics::new(0);
    for _ in 0..5 {
        small.record_batch(2, 10, 0);
    }
    assert_eq!(small.get_optimal_batch_size(&config), 5);
}

#[test]
fn metrics_keep_fifty_samples() {
    let mut metrics = BatchPerformanceMetrics::new(0);
    for i in 0..60usize {
        metrics.record_batch(i, 1000, i as u64);
    }
    assert_eq!(metrics.batch_sizes.len(), 50);
    assert_eq!(metrics.batch_sizes[0], 10);
    assert_eq!(metrics.last_update_ms, 59);
    assert_eq!(BatchPerformanceMetrics::new(0).get_avg_processing_time_ns(), 10_000_000);
    let mut m = BatchPerformanceMetrics::new(0);
    m.record_batch(1, 100, 0);
    m.record_batch(1, 201, 0);
    assert_eq!(m.get_avg_processing_time_ns(), 150);
}

#[test]
fn test_optimized_batch_creation() {
    let mut batch: OptimizedProposalBatch<&str> = OptimizedProposalBatch::new(0);
    assert!(batch.is_empty());
    assert_eq!(batch.priority, ProposalPriority::Normal);
    assert_eq!(batch.batch_id.len(), 36);

    let proposal = EnhancedRaftProposal::new("start test", ProposalPriority::High, 20, 0);
    assert_eq!(proposal.estimated_size, 84);
    batch.add(proposal);
    assert_eq!(batch.len(), 1);
    assert_eq!(batch.priority, ProposalPriority::High);
    assert_eq!(batch.total_size, 84);
    batch.add(EnhancedRaftProposal::new("low", ProposalPriority::Low, 0, 0));
    assert_eq!(batch.priority, ProposalPriority::High);
}

#[test]
fn flush_rules_by_priority() {
    let config = OptimizedBatchConfig::default();
    let mut batch: OptimizedProposalBatch<u32> = OptimizedProposalBatch::new(100);
    assert!(!batch.should_flush(&config, 1_000));
    batch.add(EnhancedRaftProposal::new(1, ProposalPriority::Normal, 10, 100));
    assert!(!batch.should_flush(&config, 109));
    assert!(batch.should_flush(&config, 110));
    batch.add(EnhancedRaftProposal::new(2, ProposalPriority::Critical, 10, 100));
    assert!(batch.should_flush(&config, 101));
    let mut low: OptimizedProposalBatch<u32> = OptimizedProposalBatch::new(0);
    low.add(EnhancedRaftProposal::new(1, ProposalPriority::Low, 10, 0));
    assert_eq!(low.priority, ProposalPriority::Normal);
    let small = OptimizedBatchConfig { max_batch_size: 2, ..config };
    assert!(batch.should_flush(&small, 100));
}

#[test]
fn expired_proposals_are_taken_out() {
    let mut batch: OptimizedProposalBatch<u32> = OptimizedProposalBatch::new(0);
    batch.add(EnhancedRaftProposal::new(1, ProposalPriority::Critical, 0, 0).with_timeout(5));
    batch.add(EnhancedRaftProposal::new(2, ProposalPriority::Low, 10, 0));
    batch.add(EnhancedRaftProposal::new(3, ProposalPriority::High, 20, 0).with_timeout(50));
    let expired = batch.remove_expired(10);
    assert_eq!(expired.len(), 1);
    assert_eq!(expired[0].inner, 1);
    assert_eq!(batch.len(), 2);
    assert_eq!(batch.total_size, 64 + 10 + 64 + 20);
    assert_eq!(batch.priority, ProposalPriority::High);
    let expired = batch.remove_expired(100);
    assert_eq!(expired.len(), 1);
    assert_eq!(batch.priority, ProposalPriority::Low);
    assert!(batch.proposals[0].age(100) == 100);
    assert!(!batch.proposals[0].is_expired(1_000_000));
}
