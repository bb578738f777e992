use chihiro::console_observer::{drain_to_console, ms_display, render_console_line};
use chihiro::requester::{apply_outcome, RequestOutcome};
use chihiro::sink::{value_at_quantile, Sink};

#[test]
fn empty_sink_drains_to_zeroes() {
    let mut sink = Sink::new();
    let snap = sink.drain();
    assert_eq!(snap.successes, 0);
    assert_eq!(snap.failures, 0);
    assert_eq!(snap.p50, 0);
    assert_eq!(snap.p95, 0);
    assert_eq!(snap.p99, 0);
}

#[test]
fn percentiles_of_one_to_ten() {
    let mut sink = Sink::new();
    for v in [7u64, 3, 10, 1, 5, 9, 2, 8, 6, 4] {
        sink.record("response_time", v);
    }
    let snap = sink.drain();
    assert_eq!(snap.p50, 5);
    assert_eq!(snap.p95, 10);
    assert_eq!(snap.p99, 10);
    assert!(snap.p50 <= snap.p95 && snap.p95 <= snap.p99);
}

#[test]
fn percentile_ordering_on_skewed_samples() {
    let mut sink = Sink::new();
    for v in [100u64, 100, 100, 100, 100, 100, 100, 100, 100, 5000] {
        sink.record("response_time", v);
    }
    let snap = sink.drain();
    assert_eq!(snap.p50, 100);
    assert_eq!(snap.p95, 5000);
    assert!(snap.p50 <= snap.p95 && snap.p95 <= snap.p99);
}

#[test]
fn value_at_quantile_picks_by_rank() {
    let samples = vec![10u64, 20, 30, 40];
    assert_eq!(value_at_quantile(&samples, 50, 100), 20);
    assert_eq!(value_at_quantile(&samples, 95, 100), 40);
    assert_eq!(value_at_quantile(&samples, 1, 100), 10);
    assert_eq!(value_at_quantile(&samples, 100, 100), 40);
}

#[test]
fn unknown_names_are_ignored() {
    let mut sink = Sink::new();
    sink.record("request_time", 42);
    sink.increment("failure");
    let snap = sink.drain();
    assert_eq!(snap.successes, 0);
    assert_eq!(snap.failures, 0);
    assert_eq!(snap.p50, 0);
}

#[test]
fn counters_accumulate_by_name() {
    let mut sink = Sink::new();
    sink.increment("success");
    sink.increment("success");
    sink.increment("error");
    let snap = sink.drain();
    assert_eq!(snap.successes, 2);
    assert_eq!(snap.failures, 1);
}

#[test]
fn second_drain_after_one_success_is_empty() {
    let mut sink = Sink::new();
    sink.record("response_time", 1500);
    sink.increment("success");
    let first = sink.drain();
    assert_eq!(first.successes, 1);
    assert_eq!(first.failures, 0);
    assert_eq!(first.p50, 1500);
    let second = sink.drain();
    assert_eq!(second.successes, 0);
    assert_eq!(second.failures, 0);
    assert_eq!(second.p50, 0);
}

#[test]
fn apply_outcome_classifies_statuses() {
    let mut sink = Sink::new();
    assert!(apply_outcome(&mut sink, 100, &RequestOutcome::Status(200)).is_none());
    assert!(apply_outcome(&mut sink, 100, &RequestOutcome::Status(204)).is_none());
    let err = apply_outcome(&mut sink, 100, &RequestOutcome::Status(500));
    assert_eq!(err.as_deref(), Some("500"));
    let err = apply_outcome(
        &mut sink,
        100,
        &RequestOutcome::Failed(String::from("connection refused")),
    );
    assert_eq!(err.as_deref(), Some("connection refused"));
    let snap = sink.drain();
    assert_eq!(snap.successes, 2);
    assert_eq!(snap.failures, 2);
}

#[test]
fn latency_recorded_for_every_outcome() {
    let mut sink = Sink::new();
    apply_outcome(&mut sink, 10, &RequestOutcome::Status(200));
    apply_outcome(&mut sink, 30, &RequestOutcome::Status(503));
    apply_outcome(&mut sink, 20, &RequestOutcome::Failed(String::from("timeout")));
    let snap = sink.drain();
    assert_eq!(snap.p50, 20);
    assert_eq!(snap.p99, 30);
}

#[test]
fn scenario_constant_success() {
    // Ten dispatched requests, the server always answers 200.
    let mut sink = Sink::new();
    for _ in 0..10 {
        apply_outcome(&mut sink, 2_000_000, &RequestOutcome::Status(200));
    }
    let snap = sink.drain();
    assert_eq!(snap.successes, 10);
    assert_eq!(snap.failures, 0);
}

#[test]
fn ms_display_rounds_and_trims() {
    assert_eq!(ms_display(1_230_000), "1.23");
    assert_eq!(ms_display(1_200_000), "1.2");
    assert_eq!(ms_display(1_000_000), "1");
    assert_eq!(ms_display(12_000), "0.01");
    assert_eq!(ms_display(995_000), "1");
    assert_eq!(ms_display(994_999), "0.99");
    assert_eq!(ms_display(0), "0");
}

#[test]
fn console_line_spells_out_the_window() {
    let mut sink = Sink::new();
    for _ in 0..5 {
        apply_outcome(&mut sink, 1_230_000, &RequestOutcome::Status(200));
    }
    let line = drain_to_console(&mut sink);
    assert_eq!(
        line,
        "success: 5, errors: 0, p50: 1.23 ms, p95: 1.23 ms, p99: 1.23 ms"
    );
}

#[test]
fn console_render_divides_exactly_as_specified() {
    let snap = {
        let mut sink = Sink::new();
        sink.record("response_time", 450_000);
        sink.increment("success");
        sink.drain()
    };
    let line = render_console_line(&snap);
    assert_eq!(
        line,
        "success: 1, errors: 0, p50: 0.45 ms, p95: 0.45 ms, p99: 0.45 ms"
    );
}
