use lag_lab::metrics::DecisionLatencyMetrics;

#[test]
fn percentiles_returns_none_for_empty_input() {
    let metrics = DecisionLatencyMetrics::new();

    assert_eq!(metrics.percentiles(), None);
}

#[test]
fn single_sample_reports_same_value_for_all_percentiles() {
    let mut metrics = DecisionLatencyMetrics::new();
    metrics.record_latency_micros(42);

    let report = metrics.percentiles().expect("percentiles should exist");

    assert_eq!(report.p50_micros, 42);
    assert_eq!(report.p90_micros, 42);
    assert_eq!(report.p95_micros, 42);
    assert_eq!(report.p99_micros, 42);
    assert_eq!(report.max_micros, 42);
}

#[test]
fn supports_boundary_percentile_queries() {
    let mut metrics = DecisionLatencyMetrics::new();
    metrics.record_latency_micros(10);
    metrics.record_latency_micros(20);
    metrics.record_latency_micros(30);

    assert_eq!(metrics.percentile_micros(1), Some(10));
    assert_eq!(metrics.percentile_micros(100), Some(30));
}

#[test]
fn invalid_percentile_queries_return_none() {
    let mut metrics = DecisionLatencyMetrics::new();
    metrics.record_latency_micros(10);

    assert_eq!(metrics.percentile_micros(0), None);
    assert_eq!(metrics.percentile_micros(101), None);
}

#[test]
fn latency_percentiles_are_reported() {
    let mut metrics = DecisionLatencyMetrics::new();

    metrics.record_latency_micros(1);
    metrics.record_latency_micros(2);
    metrics.record_latency_micros(3);
    metrics.record_latency_micros(4);
    metrics.record_latency_micros(100);

    let report = metrics.percentiles().expect("percentiles should exist");

    assert_eq!(report.count, 5);
    assert_eq!(report.p50_micros, 3);
    assert_eq!(report.p95_micros, 100);
    assert_eq!(report.p99_micros, 100);
}

#[test]
fn percentiles_sort_samples_recorded_out_of_order() {
    let mut metrics = DecisionLatencyMetrics::new();
    metrics.record_latency_micros(30);
    metrics.record_latency_micros(10);
    metrics.record_latency_micros(20);

    let report = metrics.percentiles().expect("percentiles should exist");

    assert_eq!(report.p50_micros, 20);
    assert_eq!(report.max_micros, 30);
    assert_eq!(metrics.percentile_micros(33), Some(10));
    assert_eq!(metrics.percentile_micros(67), Some(30));
}
