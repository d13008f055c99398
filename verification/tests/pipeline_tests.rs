use cherenkov::dedup::{within_window, Deduplicator};
use cherenkov::pipeline::{
    after_write_attempt, AttemptDecision, BatchWriter, CircuitBreaker, DeadLetterQueue, PipelineConfig,
    WriterAction, WriterEvent,
};
use cherenkov::pipeline::{pipeline_stats, pipeline_stats_at, refuse_batch, settle_batch};

#[test]
fn pipeline_defaults() {
    let c = PipelineConfig::default();
    assert_eq!(c.batch_size, 100);
    assert_eq!(c.batch_timeout_ms, 1000);
    assert_eq!(c.circuit_breaker_threshold, 5);
    assert_eq!(c.circuit_breaker_reset_secs, 30);
    assert_eq!(c.dlq_max_size, 10000);
    assert_eq!(c.dedup_window_secs, 60);
}

#[test]
fn breaker_opens_after_threshold_and_recovers() {
    let mut cb = CircuitBreaker::new(3, 30);
    assert!(cb.can_execute_at(0));
    cb.record_failure_at(1_000);
    cb.record_failure_at(2_000);
    assert!(!cb.is_open());
    assert!(cb.can_execute_at(2_500));
    cb.record_failure_at(3_000);
    assert!(cb.is_open());
    // Still open before the reset timeout has passed since the last failure.
    assert!(!cb.can_execute_at(32_999));
    // Half-open afterwards: one request goes through.
    assert!(cb.can_execute_at(33_000));
    assert!(!cb.is_open());
    cb.record_success();
    assert!(cb.can_execute_at(33_001));
    cb.record_failure_at(40_000);
    assert!(!cb.is_open());
}

#[test]
fn write_retries() {
    assert_eq!(after_write_attempt(0, true), AttemptDecision::Done);
    assert_eq!(after_write_attempt(0, false), AttemptDecision::RetryAfterMs(100));
    assert_eq!(after_write_attempt(1, false), AttemptDecision::RetryAfterMs(200));
    assert_eq!(after_write_attempt(2, false), AttemptDecision::GiveUp);
}

#[test]
fn dead_letter_queue_drops_oldest_and_replays() {
    let mut q: DeadLetterQueue<u32> = DeadLetterQueue::new(2);
    assert!(q.is_empty());
    q.store_at(1, "e1".to_string(), 10);
    q.store_at(2, "e2".to_string(), 11);
    q.store_at(3, "e3".to_string(), 12);
    assert_eq!(q.len(), 2);
    let readings: Vec<u32> = q.get_entries().iter().map(|e| e.reading).collect();
    assert_eq!(readings, vec![2, 3]);
    assert_eq!(q.get_entries()[0].error, "e2");
    // The first entry replays, the second fails and stays.
    assert_eq!(q.replay(&vec![true, false]), 1);
    let left: Vec<u32> = q.get_entries().iter().map(|e| e.reading).collect();
    assert_eq!(left, vec![3]);
    let removed = q.remove_entry(0).expect("entry");
    assert_eq!(removed.reading, 3);
    assert!(q.remove_entry(0).is_none());
}

#[test]
fn deduplicator_window() {
    assert!(within_window(100, 50, 60));
    assert!(!within_window(120, 50, 60));
    let mut d = Deduplicator::new(60);
    assert!(!d.is_duplicate_at("s1", 100, 100));
    d.record_at("s1".to_string(), 100, 100);
    assert!(d.is_duplicate_at("s1", 100, 120));
    assert!(d.is_duplicate_at("s1", 90, 120));
    assert!(!d.is_duplicate_at("s1", 101, 120));
    assert!(!d.is_duplicate_at("s1", 100, 160));
    assert!(!d.is_duplicate_at("s2", 100, 120));
    assert_eq!(d.len(), 1);
    d.clear();
    assert_eq!(d.len(), 0);
}

#[test]
fn batch_writer_flushes_full_batches_and_on_close() {
    let mut d = Deduplicator::new(60);
    let mut w: BatchWriter<u32> = BatchWriter::new(2, 1000, 0);
    let a = w.step(WriterEvent::Received { reading: 1, sensor: "s1".to_string(), timestamp: 10 }, 10, 0, &mut d);
    assert!(matches!(a, WriterAction::Wait));
    let a = w.step(WriterEvent::Received { reading: 9, sensor: "s1".to_string(), timestamp: 10 }, 20, 0, &mut d);
    assert!(matches!(a, WriterAction::Duplicate));
    match w.step(WriterEvent::Received { reading: 2, sensor: "s2".to_string(), timestamp: 10 }, 30, 0, &mut d) {
        WriterAction::Flush(b) => assert_eq!(b, vec![1, 2]),
        _ => panic!("expected a full batch"),
    }
    let a = w.step(WriterEvent::Received { reading: 3, sensor: "s3".to_string(), timestamp: 10 }, 40, 0, &mut d);
    assert!(matches!(a, WriterAction::Wait));
    match w.step(WriterEvent::ChannelClosed, 50, 0, &mut d) {
        WriterAction::FlushAndStop(b) => assert_eq!(b, vec![3]),
        _ => panic!("expected the rest and a stop"),
    }
}

#[test]
fn batch_writer_flushes_on_timeout() {
    let mut d = Deduplicator::new(60);
    let mut w: BatchWriter<u32> = BatchWriter::new(100, 1000, 0);
    assert!(matches!(w.step(WriterEvent::Timeout, 5, 0, &mut d), WriterAction::Wait));
    let _ = w.step(WriterEvent::Received { reading: 7, sensor: "s".to_string(), timestamp: 1 }, 10, 0, &mut d);
    match w.step(WriterEvent::Timeout, 500, 0, &mut d) {
        WriterAction::Flush(b) => assert_eq!(b, vec![7]),
        _ => panic!("expected the waiting batch"),
    }
    // A reading arriving a full timeout after the last write flushes at once.
    match w.step(WriterEvent::Received { reading: 8, sensor: "t".to_string(), timestamp: 1 }, 1500, 1, &mut d) {
        WriterAction::Flush(b) => assert_eq!(b, vec![8]),
        _ => panic!("expected a late batch"),
    }
    assert!(matches!(w.step(WriterEvent::ChannelClosed, 1100, 1, &mut d), WriterAction::Stop));
}

#[test]
fn pipeline_stats_report() {
    let mut q: DeadLetterQueue<u32> = DeadLetterQueue::new(10);
    q.store_at(1, "e1".to_string(), 10);
    q.store_at(2, "e2".to_string(), 11);
    let mut cb = CircuitBreaker::new(1, 30);
    let mut d = Deduplicator::new(60);
    d.record_at("s1".to_string(), 100, 100);
    d.record_at("s2".to_string(), 100, 100);
    d.record_at("s3".to_string(), 100, 100);
    let s = pipeline_stats_at(&q, &mut cb, &d, 0);
    assert_eq!((s.dlq_size, s.circuit_breaker_open, s.dedup_cache_size), (2, false, 3));
    cb.record_failure_at(1_000);
    let s = pipeline_stats_at(&q, &mut cb, &d, 2_000);
    assert!(s.circuit_breaker_open);
    let s = pipeline_stats_at(&q, &mut cb, &d, 31_000);
    assert!(!s.circuit_breaker_open);
    let fresh = pipeline_stats(&DeadLetterQueue::<u32>::new(5), &mut CircuitBreaker::new(5, 30), &Deduplicator::new(60));
    assert_eq!((fresh.dlq_size, fresh.circuit_breaker_open, fresh.dedup_cache_size), (0, false, 0));
}

#[test]
fn settle_batch_records_outcomes_and_dead_letters() {
    let mut cb = CircuitBreaker::new(2, 30);
    let mut q: DeadLetterQueue<u32> = DeadLetterQueue::new(10);
    let outcomes = vec![None, Some("disk full".to_string()), None, Some("timeout".to_string())];
    let written = settle_batch(vec![1, 2, 3, 4], outcomes, &mut cb, &mut q, 5_000, 5);
    assert_eq!(written, vec![1, 3]);
    assert!(cb.is_open());
    let entries: Vec<(u32, &str, i64, u32)> =
        q.get_entries().iter().map(|e| (e.reading, e.error.as_str(), e.timestamp, e.retry_count)).collect();
    assert_eq!(entries, vec![(2, "disk full", 5, 0), (4, "timeout", 5, 0)]);
    assert!(!cb.can_execute_at(6_000));

    let mut cb = CircuitBreaker::new(5, 30);
    let mut q2: DeadLetterQueue<u32> = DeadLetterQueue::new(10);
    assert_eq!(settle_batch(vec![7, 8], vec![None, None], &mut cb, &mut q2, 0, 0), vec![7, 8]);
    assert!(q2.is_empty());
    assert!(!cb.is_open());
}

#[test]
fn refused_batch_goes_to_dead_letters() {
    let mut q: DeadLetterQueue<u32> = DeadLetterQueue::new(2);
    refuse_batch(vec![1, 2, 3], &mut q, 9);
    let entries: Vec<(u32, &str)> = q.get_entries().iter().map(|e| (e.reading, e.error.as_str())).collect();
    assert_eq!(entries, vec![(2, "Circuit breaker open"), (3, "Circuit breaker open")]);
}

#[test]
fn deduplicator_with_a_huge_window_sees_no_duplicates() {
    let mut d = Deduplicator::new(u64::MAX);
    d.record_at("s1".to_string(), 100, 100);
    assert!(!d.is_duplicate_at("s1", 100, 100));
    assert!(!d.is_duplicate_at("s1", 50, 101));
    let mut d = Deduplicator::new(i64::MAX as u64);
    d.record_at("s1".to_string(), 100, 100);
    assert!(d.is_duplicate_at("s1", 100, 100));
}
