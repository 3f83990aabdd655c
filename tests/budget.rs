use api_bench::budget::BudgetGate;
use api_bench::engine::{Run, SampleSink};
use api_bench::stats::Sample;

#[test]
fn cap_admits_exactly_cap() {
    let mut g = BudgetGate::new(Some(3), None);
    assert!(g.try_admit(0));
    assert!(g.try_admit(0));
    assert!(g.try_admit(0));
    assert!(!g.try_admit(0));
    assert!(!g.try_admit(5));
    assert_eq!(g.sent, 3);
}

#[test]
fn deadline_refuses_after_it_passes() {
    let mut g = BudgetGate::new(None, Some(100));
    assert!(g.try_admit(0));
    assert!(g.try_admit(100));
    assert!(!g.try_admit(101));
    assert!(!g.try_admit(u64::MAX));
}

#[test]
fn unbounded_gate_always_admits() {
    let mut g = BudgetGate::new(None, None);
    for t in 0..1000u64 {
        assert!(g.try_admit(t));
    }
}

#[test]
fn both_limits_first_violated_stops() {
    let mut g = BudgetGate::new(Some(10), Some(50));
    assert!(g.try_admit(10));
    assert!(!g.try_admit(51));
    assert_eq!(g.sent, 1);
    let mut h = BudgetGate::new(Some(1), Some(50));
    assert!(h.try_admit(10));
    assert!(!h.try_admit(20));
}

/// Runs `workers` workers in turn until each has been refused, each request
/// completing before the worker tries again.
fn drive(run: &mut Run, workers: usize, clock: u64) -> usize {
    let mut stopped = vec![false; workers];
    let mut dispatched = 0usize;
    while stopped.iter().any(|s| !s) {
        for w in 0..workers {
            if stopped[w] {
                continue;
            }
            if run.request_dispatch(clock) {
                dispatched += 1;
                assert!(run.awaiting_sample());
                run.record(Sample::from_outcome(Ok(200), 10 + w as u64));
            } else {
                stopped[w] = true;
            }
        }
    }
    dispatched
}

#[test]
fn five_workers_cap_five() {
    let mut run = Run::new(Some(5), None);
    let n = drive(&mut run, 5, 0);
    assert_eq!(n, 5);
    let (summary, samples) = run.finish();
    assert_eq!(samples.len(), 5);
    assert_eq!(summary.total, 5);
    assert_eq!(summary.success, 5);
}

#[test]
fn expired_deadline_yields_empty_run() {
    let mut run = Run::new(None, Some(0));
    let n = drive(&mut run, 3, 1);
    assert_eq!(n, 0);
    let (summary, samples) = run.finish();
    assert!(samples.is_empty());
    assert_eq!(summary.total, 0);
    assert_eq!(summary.success, 0);
    assert_eq!(summary.errors, 0);
    assert_eq!(summary.mean_latency, 0);
    assert_eq!(summary.p50_latency, 0);
    assert_eq!(summary.p95_latency, 0);
    assert_eq!(summary.p99_latency, 0);
}

#[test]
fn in_flight_requests_complete_after_refusal() {
    let mut run = Run::new(Some(2), None);
    assert!(run.request_dispatch(0));
    assert!(run.request_dispatch(0));
    assert!(!run.request_dispatch(0));
    assert!(run.awaiting_sample());
    run.record(Sample::from_outcome(Err("reset".to_string()), 4));
    run.record(Sample::from_outcome(Ok(500), 6));
    assert!(!run.awaiting_sample());
    let (summary, _) = run.finish();
    assert_eq!(summary.total, 2);
    assert_eq!(summary.errors, 1);
    assert_eq!(summary.p50_latency, 6);
}

#[test]
fn sink_keeps_every_sample() {
    let mut sink = SampleSink::new();
    for i in 0..100u64 {
        sink.append(Sample::from_outcome(Ok(200), i));
    }
    assert_eq!(sink.len(), 100);
    let (summary, samples) = sink.finish();
    assert_eq!(samples.len(), 100);
    assert_eq!(samples[42].latency, 42);
    assert_eq!(summary.total, 100);
    assert_eq!(summary.wall_latency, 99);
}

#[test]
fn worker_steps_store_then_decide() {
    let mut run = Run::new(Some(2), None);
    assert!(run.worker_step(0, None));
    assert!(run.worker_step(0, None));
    assert_eq!(run.admitted, 2);
    assert!(!run.worker_step(0, Some(Sample::from_outcome(Ok(200), 30))));
    assert!(!run.worker_step(0, Some(Sample::from_outcome(Err("timeout".to_string()), 90))));
    assert!(!run.awaiting_sample());
    assert_eq!(run.sink.len(), 2);
    let (summary, samples) = run.finish();
    assert_eq!(samples.len(), 2);
    assert_eq!(summary.success, 1);
    assert_eq!(summary.errors, 1);
    assert_eq!(summary.mean_latency, 30);
}
