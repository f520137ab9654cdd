use sigma_rs::consumer::backpressure::{
    BackpressureController, BackpressurePermit, DrainStep, MemoryStep, PerformanceMetrics, SemaphoreOutcome,
    LATENCY_WINDOW,
};
use sigma_rs::consumer::batching::TaskBatcher;
use sigma_rs::consumer::distributor::{TaskDistributor, CIRCUIT_RESET_MS, MAX_WORKER_FAILURES};
use sigma_rs::consumer::shutdown::{ShutdownCoordinator, ShutdownState, WaitStep};
use sigma_rs::consumer::{dlq_client_properties, kafka_client_properties, retry_step, RetryResult, RetryStep};
use std::time::Duration;

/// The message count a fraction of the maximum comes to.
fn threshold(max: usize, fraction: f64) -> usize {
    (max as f64 * fraction) as usize
}

/// Acquire a permit as a caller does: reserve memory step by step (not
/// sleeping here), then take a permit the semaphore gave.
fn acquire(controller: &mut BackpressureController) -> Result<BackpressurePermit, String> {
    let mut attempts: u32 = 0;
    loop {
        match controller.reserve_memory_step(attempts, 0) {
            MemoryStep::Reserved => break,
            MemoryStep::Sleep(_) => attempts += 1,
            MemoryStep::Exhausted(m) => return Err(m),
        }
    }
    controller.take_permit(SemaphoreOutcome::Acquired)
}

#[test]
fn test_backpressure_controller() {
    let mut controller = BackpressureController::new(10);
    let (pause, resume) = (threshold(10, 0.8), threshold(10, 0.5));
    let mut permit1 = acquire(&mut controller).unwrap();
    let mut permit2 = acquire(&mut controller).unwrap();
    assert_eq!(controller.inflight_count(), 2);
    assert!(!controller.should_pause(pause));

    let mut permits = vec![];
    for _ in 0..6 {
        permits.push(acquire(&mut controller).unwrap());
    }
    assert!(controller.should_pause(pause));
    assert!(controller.is_paused());

    for p in permits.iter_mut() {
        controller.release(p);
    }
    assert!(controller.should_resume(resume));
    assert!(!controller.is_paused());
    controller.release(&mut permit1);
    controller.release(&mut permit2);
    assert_eq!(controller.inflight_count(), 0);
}

#[test]
fn test_memory_backpressure() {
    let mut controller = BackpressureController::new(10).with_memory_limit(1);
    controller.update_avg_message_size(100 * 1024);
    let mut permit = acquire(&mut controller).unwrap();
    assert!(controller.memory_usage() > 0);
    assert_eq!(controller.memory_limit(), Some(1024 * 1024));
    controller.release(&mut permit);
    assert_eq!(controller.inflight_count(), 0);
    assert_eq!(controller.memory_usage(), 0);
}

#[test]
fn test_edge_cases() {
    let mut controller = BackpressureController::new(0);
    assert!(controller.should_pause(threshold(0, 0.8)));

    let mut controller2 = BackpressureController::new(10);
    let _permit = acquire(&mut controller2).unwrap();
    assert!(!controller2.should_pause(threshold(10, 0.5)));
}

#[test]
fn test_bounded_retry_prevents_livelock() {
    let mut controller = BackpressureController::new(2).with_memory_limit(1);
    controller.update_avg_message_size(500);
    let mut permit1 = acquire(&mut controller).unwrap();
    let mut permit2 = acquire(&mut controller).unwrap();
    controller.release(&mut permit1);
    controller.release(&mut permit2);
    assert_eq!(controller.memory_usage(), 0);
}

#[test]
fn average_message_size_moves_a_tenth_of_the_way() {
    let mut controller = BackpressureController::new(1);
    controller.update_avg_message_size(11264);
    // (1024 * 9 + 11264) / 10
    assert!(matches!(controller.reserve_memory_step(0, 0), MemoryStep::Reserved));
    let limited = BackpressureController::new(1).with_memory_limit(1);
    let mut limited = limited;
    limited.update_avg_message_size(usize::MAX);
    match limited.reserve_memory_step(0, 0) {
        MemoryStep::Sleep(ms) => assert_eq!(ms, 10),
        other => panic!("expected a sleep, got {:?}", other),
    }
    match limited.reserve_memory_step(150, 0) {
        MemoryStep::Exhausted(m) => assert_eq!(m, "Memory limit exhausted after 150 attempts or 0 seconds"),
        other => panic!("expected exhaustion, got {:?}", other),
    }
    match limited.reserve_memory_step(3, 301) {
        MemoryStep::Exhausted(m) => assert_eq!(m, "Memory limit exhausted after 3 attempts or 301 seconds"),
        other => panic!("expected exhaustion, got {:?}", other),
    }
}

#[test]
fn permits_from_a_closed_or_timed_out_semaphore() {
    let mut controller = BackpressureController::new(3);
    assert_eq!(
        controller.take_permit(SemaphoreOutcome::Closed(false)).unwrap_err(),
        "Failed to acquire emergency permit: semaphore closed"
    );
    assert_eq!(
        controller.take_permit(SemaphoreOutcome::TimedOut(false)).unwrap_err(),
        "Failed to acquire permit: timeout and emergency acquisition failed"
    );
    let mut emergency = controller.take_permit(SemaphoreOutcome::Closed(true)).unwrap();
    assert_eq!(controller.inflight_count(), 0);
    let mut late = controller.take_permit(SemaphoreOutcome::TimedOut(true)).unwrap();
    assert_eq!(controller.inflight_count(), 1);
    controller.release(&mut late);
    controller.release(&mut late);
    assert!(late.is_released());
    assert_eq!(controller.inflight_count(), 0);
    // An emergency permit was never counted, so its release wraps the count.
    controller.release(&mut emergency);
    assert_eq!(controller.inflight_count(), usize::MAX);
    controller.force_cleanup();
    assert_eq!(controller.inflight_count(), 0);
}

#[test]
fn try_acquire_respects_memory_and_availability() {
    let mut controller = BackpressureController::new(2).with_memory_limit(1);
    assert!(controller.try_acquire(false).is_none());
    let mut p = controller.try_acquire(true).unwrap();
    assert_eq!(controller.memory_usage(), 1024);
    assert_eq!(controller.inflight_count(), 1);
    controller.release(&mut p);
    assert_eq!(controller.memory_usage(), 0);
    controller.update_avg_message_size(20 * 1024 * 1024);
    assert!(controller.try_acquire(true).is_none());
    assert!(matches!(controller.drain_step(true), DrainStep::Done));
    let _q = controller.take_permit(SemaphoreOutcome::Acquired).unwrap();
    assert!(matches!(controller.drain_step(false), DrainStep::Wait));
    match controller.drain_step(true) {
        DrainStep::TimedOut(m) => assert_eq!(m, "Shutdown timeout with 1 messages remaining"),
        _ => panic!("expected a timeout"),
    }
    assert!(controller.set_max_inflight(5000));
    controller.clamp_max_inflight(10, 1000);
    assert_eq!(controller.max_inflight(), 1000);
}

#[test]
fn test_shutdown_state() {
    let mut state = ShutdownState::new();
    assert!(!state.is_shutting_down());
    assert!(!state.is_shutdown_complete());
    state.begin_shutdown();
    assert!(state.is_shutting_down());
    state.add_inflight_message();
    assert!(state.has_inflight_messages());
    assert_eq!(state.inflight_count(), 1);
    state.remove_inflight_message();
    assert!(!state.has_inflight_messages());
    state.complete_shutdown();
    assert!(state.is_shutdown_complete());
    assert!(state.shutdown_duration().is_some());
}

#[test]
fn test_shutdown_coordinator() {
    let mut state = ShutdownState::new();
    let coordinator = ShutdownCoordinator::new(Duration::from_secs(1));
    state.add_inflight_message();
    coordinator.begin(&mut state);
    assert!(matches!(coordinator.shutdown_step(&mut state, false), WaitStep::Wait));
    // The message finishes while the coordinator waits.
    state.remove_inflight_message();
    assert!(matches!(coordinator.shutdown_step(&mut state, false), WaitStep::Done));
    assert!(state.is_shutdown_complete());
}

#[test]
fn shutdown_waits_time_out_with_the_count() {
    let mut state = ShutdownState::new();
    state.add_inflight_message();
    state.add_inflight_message();
    match state.wait_for_completion_step(true) {
        WaitStep::TimedOut(m) => assert_eq!(m, "Shutdown timeout with 2 messages still in flight"),
        _ => panic!("expected a timeout"),
    }
    let coordinator = ShutdownCoordinator::new(Duration::from_secs(1));
    match coordinator.shutdown_step(&mut state, true) {
        WaitStep::TimedOut(m) => assert_eq!(m, "Timeout with 2 messages in flight"),
        _ => panic!("expected a timeout"),
    }
    assert!(!state.is_shutdown_complete());
    let mut empty = ShutdownState::new();
    empty.remove_inflight_message();
    assert_eq!(empty.inflight_count(), usize::MAX);
    empty.add_inflight_message();
    assert_eq!(empty.inflight_count(), 0);
    assert!(matches!(empty.wait_for_completion_step(false), WaitStep::Done));
    assert!(empty.is_shutdown_complete());
}

#[test]
fn test_retry_executor() {
    // A fixed policy of two retries; the operation fails twice, then succeeds.
    let max_retries = 2;
    let mut calls = 0;
    let mut attempt = 0;
    let result = loop {
        let current = calls;
        calls += 1;
        let outcome: Result<&str, &str> = if current < 2 { Err("temporary error") } else { Ok("success") };
        match retry_step(outcome, attempt, max_retries, true) {
            RetryStep::Finished(r) => break r,
            RetryStep::RetryAfter(next) => attempt = next,
        }
    };
    match result {
        RetryResult::Success { value, attempts } => {
            assert_eq!(value, "success");
            assert_eq!(attempts, 2);
        }
        _ => panic!("Expected success"),
    }
}

#[test]
fn retries_stop_at_the_limit_or_when_refused() {
    match retry_step::<(), &str>(Err("e"), 3, 3, true) {
        RetryStep::Finished(RetryResult::Failed { error, attempts }) => {
            assert_eq!(error, "e");
            assert_eq!(attempts, 3);
        }
        _ => panic!("expected to give up"),
    }
    assert!(matches!(retry_step::<(), &str>(Err("e"), 0, 3, false), RetryStep::Finished(RetryResult::Failed { .. })));
    assert!(matches!(retry_step::<(), &str>(Err("e"), 0, 3, true), RetryStep::RetryAfter(1)));
}

#[test]
fn kafka_client_properties_take_allowed_settings_only() {
    let custom = vec![("compression.type".to_string(), "lz4".to_string())];
    let props = kafka_client_properties("localhost:9092", "sigma-engine", false, 5000, 30000, 300000, "latest", &custom)
        .unwrap();
    let expected: Vec<(String, String)> = vec![
        ("bootstrap.servers", "localhost:9092"),
        ("group.id", "sigma-engine"),
        ("enable.auto.commit", "false"),
        ("auto.commit.interval.ms", "5000"),
        ("session.timeout.ms", "30000"),
        ("max.poll.interval.ms", "300000"),
        ("auto.offset.reset", "latest"),
        ("compression.type", "lz4"),
    ]
    .into_iter()
    .map(|(k, v)| (k.to_string(), v.to_string()))
    .collect();
    assert_eq!(props, expected);

    let bad = vec![("security.protocol".to_string(), "plaintext".to_string())];
    let err = kafka_client_properties("b", "g", true, 1, 2, 3, "earliest", &bad).unwrap_err();
    assert!(err.starts_with("Disallowed Kafka property 'security.protocol'. Allowed properties: [\"compression.type\""));
    assert!(err.ends_with("\"enable.metrics.push\"]"));
    assert_eq!(
        dlq_client_properties("b"),
        vec![("bootstrap.servers".to_string(), "b".to_string()), ("message.timeout.ms".to_string(), "30000".to_string())]
    );
}

/// Offers one task round the workers as the distributor task does, the
/// workers in `refusing` failing every send.
fn distribute(d: &mut TaskDistributor, refusing: &[usize], now_ms: u64) -> (Option<usize>, bool) {
    let mut delivered_to = None;
    for attempt in 0..d.num_workers() {
        if let Some(w) = d.worker_for_attempt(attempt, now_ms) {
            let ok = !refusing.contains(&w);
            d.record_send(w, ok, now_ms);
            if ok {
                delivered_to = Some(w);
                break;
            }
        }
    }
    let go_on = d.finish_task(delivered_to.is_some());
    (delivered_to, go_on)
}

#[test]
fn distributor_goes_round_robin() {
    let mut d = TaskDistributor::new(3);
    let got: Vec<Option<usize>> = (0..4).map(|_| distribute(&mut d, &[], 0).0).collect();
    assert_eq!(got, vec![Some(0), Some(1), Some(2), Some(0)]);
}

#[test]
fn failing_worker_is_skipped_after_its_circuit_opens() {
    let mut d = TaskDistributor::new(2);
    // Every other task is offered to worker 0 first.
    for _ in 0..2 * MAX_WORKER_FAILURES {
        let (to, go_on) = distribute(&mut d, &[0], 10);
        assert_eq!(to, Some(1));
        assert!(go_on);
    }
    assert!(d.worker(0).circuit_open);
    assert_eq!(d.worker(0).failures, MAX_WORKER_FAILURES);
    assert_eq!(d.worker(1).failures, 0);
    // Worker 0 is no longer tried, even when it would take the task.
    let before = d.worker(0);
    let (to, _) = distribute(&mut d, &[], 20);
    assert_eq!(to, Some(1));
    assert_eq!(d.worker(0).last_failure_ms, before.last_failure_ms);
}

#[test]
fn open_circuit_closes_after_the_reset_time() {
    let mut d = TaskDistributor::new(1);
    for _ in 0..MAX_WORKER_FAILURES {
        distribute(&mut d, &[0], 1000);
    }
    assert!(d.worker(0).circuit_open);
    assert_eq!(d.worker_for_attempt(0, 1000 + CIRCUIT_RESET_MS), None);
    assert_eq!(d.worker_for_attempt(0, 1000 + CIRCUIT_RESET_MS + 1), Some(0));
    assert!(!d.worker(0).circuit_open);
    assert_eq!(d.worker(0).failures, 0);
}

#[test]
fn distributor_stops_when_every_circuit_is_open() {
    let mut d = TaskDistributor::new(2);
    let mut last = (None, true);
    for _ in 0..MAX_WORKER_FAILURES {
        last = distribute(&mut d, &[0, 1], 5);
    }
    assert_eq!(last, (None, false));
}

#[test]
fn batcher_hands_out_full_batches_in_order() {
    let mut b = TaskBatcher::new(3);
    assert_eq!(b.push(1), None);
    assert_eq!(b.push(2), None);
    assert_eq!(b.push(3), Some(vec![1, 2, 3]));
    assert_eq!(b.len(), 0);
    assert_eq!(b.push(4), None);
    assert_eq!(b.on_tick(), Some(vec![4]));
    assert_eq!(b.on_tick(), None);
    assert_eq!(b.push(5), None);
    assert_eq!(b.on_close(), Some(vec![5]));
}

#[test]
fn closing_an_empty_batcher_hands_out_nothing() {
    let b: TaskBatcher<u8> = TaskBatcher::new(2);
    assert_eq!(b.on_close(), None);
}

#[test]
fn permit_without_memory_limit_gives_back_what_it_took() {
    let mut controller = BackpressureController::new(10);
    let before = controller.memory_usage();
    let mut permit = acquire(&mut controller).unwrap();
    assert_eq!(controller.inflight_count(), 1);
    controller.release(&mut permit);
    assert_eq!(controller.memory_usage(), before);
    assert_eq!(controller.inflight_count(), 0);
}

#[test]
fn retries_end_after_the_failures_within_the_limit() {
    let mut attempt = 0;
    let mut failures_left = 2;
    let result = loop {
        let outcome: Result<u32, &str> = if failures_left > 0 {
            failures_left -= 1;
            Err("busy")
        } else {
            Ok(7)
        };
        match retry_step(outcome, attempt, 3, true) {
            RetryStep::Finished(r) => break r,
            RetryStep::RetryAfter(n) => attempt = n,
        }
    };
    assert!(matches!(result, RetryResult::Success { value: 7, attempts: 2 }));
}

#[test]
fn performance_metrics_count_successes_and_failures() {
    let mut metrics = PerformanceMetrics::new();
    metrics.record_success(Duration::from_millis(100));
    metrics.record_success(Duration::from_millis(200));
    metrics.record_failure();
    assert_eq!(metrics.total_processed(), 3);
    assert_eq!(metrics.successful(), 2);
    assert_eq!(metrics.failed(), 1);
    assert_eq!(metrics.latencies(), &[Duration::from_millis(100), Duration::from_millis(200)][..]);
}

#[test]
fn performance_metrics_keep_the_newest_latencies() {
    let mut metrics = PerformanceMetrics::new();
    for i in 0..(LATENCY_WINDOW as u64 + 5) {
        metrics.record_success(Duration::from_millis(i));
    }
    assert_eq!(metrics.latencies().len(), LATENCY_WINDOW);
    assert_eq!(metrics.latencies()[0], Duration::from_millis(5));
    assert_eq!(metrics.latencies()[LATENCY_WINDOW - 1], Duration::from_millis(LATENCY_WINDOW as u64 + 4));
    assert_eq!(metrics.successful(), LATENCY_WINDOW + 5);
}

#[test]
fn controller_records_processing_outcomes() {
    let mut controller = BackpressureController::new(10);
    controller.record_success(Duration::from_millis(7));
    controller.record_failure();
    assert_eq!(controller.metrics().total_processed(), 2);
    assert_eq!(controller.metrics().failed(), 1);
    assert_eq!(controller.inflight_count(), 0);
}

#[test]
fn time_window_keeps_entries_within_its_length() {
    let mut window: sigma_rs::aggregation::TimeWindow<i64> = sigma_rs::aggregation::TimeWindow::new(5_000);
    window.add_value(1, 1_000);
    window.add_value(2, 4_000);
    assert_eq!(window.entry_count(), 2);
    window.add_value(3, 7_000);
    assert_eq!(window.entry_count(), 2);
    assert_eq!(window.values(), vec![2, 3]);
    assert_eq!(window.time_range(), Some((4_000, 7_000)));
    window.add_value(4, 6_000);
    assert_eq!(window.values(), vec![2, 3, 4]);
}

#[test]
fn time_window_values_at_a_time_and_compaction() {
    let mut window: sigma_rs::aggregation::TimeWindow<i64> = sigma_rs::aggregation::TimeWindow::new(10_000);
    window.add_value(1, 0);
    window.add_value(2, 5_000);
    window.add_value(3, 10_000);
    assert_eq!(window.values(), vec![1, 2, 3]);
    assert_eq!(window.values_at(12_000), vec![2, 3]);
    assert_eq!(window.values_at(4_000), vec![1]);
    window.compact_at(16_000);
    assert_eq!(window.values(), vec![3]);
    window.clear();
    assert_eq!(window.entry_count(), 0);
    assert_eq!(window.time_range(), None);
    assert_eq!(window.length(), 10_000);
}
