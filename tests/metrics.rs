use market_price_sdk::metrics::{percentile, MetricsCollector, ProviderMetrics, RequestTimer, MAX_SAMPLES};

#[test]
fn test_metrics_collector() {
    let mut collector = MetricsCollector::new("test");

    collector.record_request(100_000, true);
    collector.record_request(200_000, true);
    collector.record_request(150_000, false);

    let metrics = collector.get_metrics();

    assert_eq!(metrics.provider_name, "test");
    assert_eq!(metrics.total_requests, 3);
    assert_eq!(metrics.failed_requests, 1);
    let (num, den) = metrics.success_rate();
    let rate = num as f64 / den as f64;
    assert!(rate > 0.6 && rate < 0.7);
}

#[test]
fn test_percentile() {
    let values = vec![1, 2, 3, 4, 5, 6, 7, 8, 9, 10];
    assert_eq!(percentile(&values, 50), 5);
    assert_eq!(percentile(&values, 99), 10);
}

#[test]
fn percentile_of_nothing_is_zero() {
    assert_eq!(percentile(&[], 50), 0);
    assert_eq!(percentile(&[], 99), 0);
}

#[test]
fn percentile_ignores_input_order() {
    let values = vec![9, 3, 7, 1, 5];
    // ceil(0.5 * 5) = 3rd smallest; ceil(0.99 * 5) = 5th smallest.
    assert_eq!(percentile(&values, 50), 5);
    assert_eq!(percentile(&values, 99), 9);
    assert_eq!(percentile(&values, 0), 1);
}

#[test]
fn percentile_with_repeated_values() {
    let values = vec![4, 4, 4, 1];
    assert_eq!(percentile(&values, 50), 4);
    assert_eq!(percentile(&values, 25), 1);
}

#[test]
fn empty_metrics_snapshot() {
    let m = ProviderMetrics::empty("x");
    assert_eq!(m.provider_name, "x");
    assert_eq!(m.latency_p50_us, 0);
    assert_eq!(m.latency_p99_us, 0);
    assert_eq!(m.success_rate(), (1, 1));
}

#[test]
fn fresh_collector_reports_full_success() {
    let c = MetricsCollector::new("p");
    let m = c.get_metrics();
    assert_eq!(m.total_requests, 0);
    assert_eq!(m.latency_p50_us, 0);
    assert_eq!(m.success_rate(), (1, 1));
}

#[test]
fn window_evicts_exactly_the_oldest() {
    let mut c = MetricsCollector::new("p");
    for d in 1..=100u64 {
        c.record_request(d, true);
    }
    assert_eq!(c.sample_count(), MAX_SAMPLES);
    assert_eq!(c.get_metrics().latency_p50_us, 50);
    c.record_request(1000, true);
    assert_eq!(c.sample_count(), MAX_SAMPLES);
    let m = c.get_metrics();
    // 1 left the window; 2..=100 and 1000 remain.
    assert_eq!(m.latency_p50_us, 51);
    assert_eq!(m.latency_p99_us, 100);
    assert_eq!(m.total_requests, 101);
}

#[test]
fn percentiles_use_only_successful_samples() {
    let mut c = MetricsCollector::new("p");
    c.record_request(10, true);
    c.record_request(5000, false);
    c.record_request(30, true);
    let m = c.get_metrics();
    assert_eq!(m.latency_p50_us, 10);
    assert_eq!(m.latency_p99_us, 30);
}

#[test]
fn success_rate_survives_eviction() {
    let mut c = MetricsCollector::new("p");
    for _ in 0..10 {
        c.record_request(7, false);
    }
    for _ in 0..100 {
        c.record_request(7, true);
    }
    // The failures left the window; the lifetime counters keep them.
    let m = c.get_metrics();
    assert_eq!(m.total_requests, 110);
    assert_eq!(m.failed_requests, 10);
    assert_eq!(m.success_rate(), (100, 110));
}

#[test]
fn timer_records_duration_and_outcome() {
    let mut c = MetricsCollector::new("p");
    let mut t = RequestTimer::new(1_000);
    t.mark_success();
    t.finish(1_250, &mut c);
    let failed = RequestTimer::new(2_000);
    failed.finish(1_500, &mut c);
    let m = c.get_metrics();
    assert_eq!(m.total_requests, 2);
    assert_eq!(m.failed_requests, 1);
    assert_eq!(m.latency_p50_us, 250);
}
