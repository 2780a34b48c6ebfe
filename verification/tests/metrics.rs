use fuse::observability::metrics::{millis_to_text, prometheus_export, InferenceMetrics, LatencyTracker};

const MS: u64 = 1_000_000;

#[test]
fn test_inference_metrics_new() {
    let metrics = InferenceMetrics::new();
    assert_eq!(metrics.total_requests(), 0);
    assert_eq!(metrics.active_requests(), 0);
}

#[test]
fn test_request_lifecycle() {
    let mut metrics = InferenceMetrics::new();
    metrics.request_start();
    assert_eq!(metrics.active_requests(), 1);

    metrics.request_complete("llama3", 50, 500 * MS, true);
    assert_eq!(metrics.active_requests(), 0);
    assert_eq!(metrics.total_requests(), 1);
    assert_eq!(metrics.total_tokens_generated(), 50);
}

#[test]
fn test_error_tracking() {
    let mut metrics = InferenceMetrics::new();
    metrics.request_start();
    metrics.request_complete("llama3", 0, 100 * MS, false);
    assert_eq!(metrics.total_errors(), 1);
}

#[test]
fn test_per_model_metrics() {
    let mut metrics = InferenceMetrics::new();
    metrics.request_start();
    metrics.request_complete("llama3", 50, 500 * MS, true);
    metrics.request_start();
    metrics.request_complete("llama3", 100, 1000 * MS, true);

    let snap = metrics.snapshot();
    let model = snap.models.iter().find(|(name, _)| name == "llama3").map(|(_, c)| *c).unwrap();
    assert_eq!(model.requests, 2);
    assert_eq!(model.tokens_generated, 150);
}

#[test]
fn test_latency_percentiles() {
    let mut metrics = InferenceMetrics::new();
    for i in 1..=100u64 {
        metrics.request_start();
        metrics.request_complete("test", 10, i * MS, true);
    }

    let snap = metrics.snapshot();
    let p50 = snap.latency_p50_ns as f64 / 1e6;
    let p95 = snap.latency_p95_ns as f64 / 1e6;
    let p99 = snap.latency_p99_ns as f64 / 1e6;
    assert!(p50 > 40.0 && p50 < 60.0);
    assert!(p95 > 90.0);
    assert!(p99 > 95.0);
}

#[test]
fn latency_percentiles_pick_rounded_positions() {
    let mut metrics = InferenceMetrics::new();
    for i in [5u64, 1, 4, 2, 3] {
        metrics.request_complete("m", 1, i, true);
    }
    let snap = metrics.snapshot();
    // positions round(0.5 * 4) = 2, round(0.95 * 4) = 4, round(0.99 * 4) = 4
    assert_eq!(snap.latency_p50_ns, 3);
    assert_eq!(snap.latency_p95_ns, 5);
    assert_eq!(snap.latency_p99_ns, 5);
}

#[test]
fn test_metrics_snapshot() {
    let metrics = InferenceMetrics::new();
    let snap = metrics.snapshot();
    assert_eq!(snap.total_requests, 0);
    assert_eq!(snap.total_tokens, 0);
    assert_eq!(snap.active_requests, 0);
    assert!(snap.models.is_empty());
}

#[test]
fn test_prometheus_export() {
    let mut metrics = InferenceMetrics::new();
    metrics.request_start();
    metrics.request_complete("test", 100, 500 * MS, true);

    let output = prometheus_export(&metrics.snapshot(), 0);
    assert!(output.contains("fuse_requests_total 1"));
    assert!(output.contains("fuse_tokens_total 100"));
    assert!(output.contains("fuse_errors_total 0"));
    assert!(output.contains("fuse_active_requests 0"));
    assert!(output.contains("fuse_uptime_seconds"));
    assert!(output.contains("fuse_latency_ms{quantile=\"0.5\"} 500.00\n"));
}

#[test]
fn test_prometheus_export_format() {
    let metrics = InferenceMetrics::new();
    let output = prometheus_export(&metrics.snapshot(), 7);
    assert!(output.contains("# HELP"));
    assert!(output.contains("# TYPE"));
    assert!(output.contains("counter"));
    assert!(output.contains("gauge"));
    assert!(output.ends_with("fuse_uptime_seconds 7\n"));
}

#[test]
fn millis_text_rounds_to_hundredths() {
    assert_eq!(millis_to_text(0), "0.00");
    assert_eq!(millis_to_text(1_234_567), "1.23");
    assert_eq!(millis_to_text(1_235_001), "1.24");
    assert_eq!(millis_to_text(1_005_000), "1.00");
    assert_eq!(millis_to_text(1_015_000), "1.02");
    assert_eq!(millis_to_text(123_456_789_000), "123456.79");
}

#[test]
fn test_latency_tracker_empty() {
    let tracker = LatencyTracker::new(100);
    assert_eq!(tracker.percentile(50), 0);
}

#[test]
fn test_latency_tracker_max_samples() {
    let mut tracker = LatencyTracker::new(5);
    for i in 0..10 {
        tracker.record(i);
    }
    assert_eq!(tracker.len(), 5);
    assert_eq!(tracker.percentile(0), 5);
    assert_eq!(tracker.percentile(100), 9);
}

#[test]
fn totals_are_sums_over_models() {
    let mut metrics = InferenceMetrics::new();
    metrics.request_complete("a", 3, 1, true);
    metrics.request_complete("b", 4, 1, false);
    metrics.request_complete("a", 5, 1, false);
    let snap = metrics.snapshot();
    assert_eq!(snap.models.len(), 2);
    let requests: u64 = snap.models.iter().map(|(_, c)| c.requests).sum();
    let tokens: u64 = snap.models.iter().map(|(_, c)| c.tokens_generated).sum();
    let errors: u64 = snap.models.iter().map(|(_, c)| c.errors).sum();
    assert_eq!((requests, tokens, errors), (snap.total_requests, snap.total_tokens, snap.total_errors));
    assert_eq!((snap.total_requests, snap.total_tokens, snap.total_errors), (3, 12, 2));
}
