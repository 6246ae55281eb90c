use doc_controller::controller::{conclude_at, reconcile_at, Context};
use doc_controller::diagnostics::Diagnostics;
use doc_controller::document::Document;
use doc_controller::error::Error;
use doc_controller::metrics::{DurationHistogram, ReconcileMetrics, ReconcileTimer};

#[test]
fn durations_fall_into_the_first_bucket_that_holds_them() {
    let cases: [(u64, usize); 12] = [
        (0, 0),
        (10_000, 0),
        (10_001, 1),
        (100_000, 1),
        (250_000, 2),
        (500_000, 3),
        (1_000_000, 4),
        (5_000_000, 5),
        (15_000_000, 6),
        (60_000_000, 7),
        (60_000_001, 8),
        (u64::MAX, 8),
    ];
    for (micros, bucket) in cases {
        let mut h = DurationHistogram::new();
        h.observe(micros);
        let mut expected = vec![0u64; 9];
        expected[bucket] = 1;
        assert_eq!(h.buckets, expected);
        assert_eq!(h.count, 1);
        assert_eq!(h.sum_micros, micros);
    }
}

#[test]
fn histogram_sums_and_counts_every_observation() {
    let mut h = DurationHistogram::new();
    h.observe(5_000);
    h.observe(7_000);
    h.observe(2_000_000);
    assert_eq!(h.count, 3);
    assert_eq!(h.sum_micros, 2_012_000);
    assert_eq!(h.buckets, vec![2, 0, 0, 0, 0, 1, 0, 0, 0]);
}

#[test]
fn full_counters_stay_full() {
    let mut m = ReconcileMetrics::new();
    m.runs = u64::MAX;
    m.duration.count = u64::MAX;
    m.duration.sum_micros = u64::MAX - 1;
    m.duration.buckets[0] = u64::MAX;
    let timer = m.count_and_measure(5);
    assert_eq!(m.runs, u64::MAX);
    m.observe(timer, 10);
    assert_eq!(m.duration.count, u64::MAX);
    assert_eq!(m.duration.sum_micros, u64::MAX);
    assert_eq!(m.duration.buckets[0], u64::MAX);
    m.count_failure("a", "b");
    m.failures[0].count = u64::MAX;
    m.count_failure("a", "b");
    assert_eq!(m.get_failures("a", "b"), u64::MAX);
}

#[test]
fn elapsed_time_is_measured_in_microseconds() {
    let mut m = ReconcileMetrics::new();
    let timer = m.count_and_measure(1_000_000);
    assert_eq!(timer.started_micros, 1_000_000);
    m.observe(timer, 1_300_000);
    assert_eq!(m.duration.sum_micros, 300_000);
    assert_eq!(m.duration.buckets[3], 1);
    // a clock that went back counts as no time at all
    let timer = m.count_and_measure(2_000_000);
    m.observe(timer, 1_000_000);
    assert_eq!(m.duration.sum_micros, 300_000);
    assert_eq!(m.duration.buckets[0], 1);
    // the widest span of the clock still fits
    m.observe(ReconcileTimer { started_micros: i64::MIN }, i64::MAX);
    assert_eq!(m.duration.sum_micros, u64::MAX);
    assert_eq!(m.duration.buckets[8], 1);
    assert_eq!(m.duration.count, 3);
    assert_eq!(m.runs, 2);
}

#[test]
fn failures_are_counted_by_instance_and_error() {
    let mut m = ReconcileMetrics::new();
    assert_eq!(m.get_failures("test", "illegaldocument"), 0);
    m.set_failure(&Document::test(), &Error::IllegalDocument);
    m.set_failure(&Document::test(), &Error::IllegalDocument);
    m.set_failure(&Document::illegal(), &Error::IllegalDocument);
    m.set_failure(&Document::test(), &Error::SerializationError("bad".into()));
    assert_eq!(m.get_failures("test", "illegaldocument"), 2);
    assert_eq!(m.get_failures("illegal", "illegaldocument"), 1);
    assert_eq!(m.get_failures("test", "serializationerror"), 1);
    assert_eq!(m.get_failures("illegal", "serializationerror"), 0);
    assert_eq!(m.get_failures("illegaldocument", "test"), 0);
    assert_eq!(m.failures.len(), 3);
    assert_eq!(m.runs, 0);
    assert_eq!(m.duration.count, 0);
    assert!(m.is_wf());
}

#[test]
fn metrics_without_their_buckets_are_told_apart() {
    let mut m = ReconcileMetrics::new();
    assert!(m.is_wf());
    m.duration.buckets.pop();
    assert!(!m.is_wf());
}

#[test]
fn every_attempt_is_counted_and_measured_once() {
    let mut ctx = Context::started_at(7);
    assert_eq!(ctx.diagnostics.last_event, 7);
    let doc = Document::test().finalized();
    for round in 1..=4u64 {
        let start = 1_000 * round as i64;
        let (timer, _step) = reconcile_at(&doc, &mut ctx, start);
        assert_eq!(ctx.metrics.app.reconcile.runs, round);
        assert_eq!(ctx.metrics.app.reconcile.duration.count, round - 1);
        assert_eq!(ctx.diagnostics.last_event, start);
        conclude_at(&mut ctx, timer, start + 20_000);
        assert_eq!(ctx.metrics.app.reconcile.duration.count, round);
    }
    assert_eq!(ctx.metrics.app.reconcile.duration.buckets[1], 4);
    assert_eq!(ctx.metrics.app.reconcile.duration.sum_micros, 80_000);
    assert!(ctx.is_wf());
}

#[test]
fn diagnostics_keep_the_time_of_the_latest_attempt() {
    let mut d = Diagnostics::started_at(5);
    assert_eq!(d.reporter, "doc-controller");
    assert_eq!(d.last_event, 5);
    let before = d.snapshot();
    d.touch_at(9);
    assert_eq!(d.last_event, 9);
    assert_eq!(before.last_event, 5);
    assert_eq!(d.snapshot(), d);
    d.touch();
    // the clock of a machine that runs this stands after the year 2001
    assert!(d.last_event > 1_000_000_000_000_000);
    assert_eq!(d.reporter, "doc-controller");
    assert_eq!(Diagnostics::default().reporter, "doc-controller");
    let ctx = Context::default();
    assert_eq!(ctx.diagnostics().reporter, "doc-controller");
    assert_eq!(ctx.metrics.app.reconcile.runs, 0);
}
