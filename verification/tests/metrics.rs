use oxybox::http_probe::result::HttpVersion;
use oxybox::http_probe::result::ProbeResult;
use oxybox::mimir::client::create_time_series;
use oxybox::mimir::client::send_to_mimir;
use oxybox::mimir::client::time_series_at;
use oxybox::mimir::client::Label;
use oxybox::mimir::client::Sample;
use oxybox::mimir::client::TimeSeries;
use oxybox::mimir::create_probe_metrics;
use oxybox::mimir::probe_metrics_at;

fn label(name: &str, value: &str) -> Label {
    Label { name: name.to_string(), value: value.to_string() }
}

fn expected_series(metric: &str, url: &str, phase: Option<&str>, value: f64, ts: i64) -> TimeSeries {
    let mut labels = vec![
        label("__name__", metric),
        label("instance", url),
        label("job", "oxybox"),
        label("module", "http_probe"),
        label("target", url),
    ];
    if let Some(phase) = phase {
        labels.push(label("phase", phase));
    }
    TimeSeries { labels, samples: vec![Sample { value: value.to_bits(), timestamp: ts }] }
}

fn names(series: &Vec<TimeSeries>) -> Vec<String> {
    series.iter().map(|s| s.labels[0].value.clone()).collect()
}

fn value_of(series: &Vec<TimeSeries>, metric: &str) -> Option<f64> {
    series
        .iter()
        .find(|s| s.labels[0].value == metric)
        .map(|s| f64::from_bits(s.samples[0].value))
}

fn https_probe() -> ProbeResult {
    ProbeResult {
        url: "https://www.example.com".to_string(),
        dns_time: Some(12_000_000),
        connect_time: Some(30_000_000),
        tls_time: Some(45_000_000),
        http_status: Some(200),
        http_version: Some(HttpVersion::H2),
        cert_validity_seconds: Some(1_824_690_129),
        processing_time: Some(80_000_000),
        transfer_time: Some(5_000_000),
        total_probe_time: 250_000_000,
    }
}

#[test]
fn test_create_and_send_metrics() {
    let mimir_url = "http://localhost:9009";
    let tenant_id = Some("demo");

    let mut metrics_to_send = Vec::new();

    metrics_to_send.push(create_time_series(
        "my_app_http_requests_total",
        &[("method", "GET"), ("status", "200")],
        1.0f64.to_bits(),
        None,
    ));

    metrics_to_send.push(create_time_series(
        "my_app_cpu_usage_percent",
        &[("host", "server-a")],
        25.5f64.to_bits(),
        Some(1_700_000_000_000),
    ));

    metrics_to_send.push(create_time_series(
        "my_app_database_queries_total",
        &[("db", "users"), ("type", "read")],
        1.0f64.to_bits(),
        None,
    ));

    assert_eq!(metrics_to_send[0].labels[1], label("method", "GET"));
    assert_eq!(f64::from_bits(metrics_to_send[1].samples[0].value), 25.5);

    match send_to_mimir(mimir_url, tenant_id, metrics_to_send) {
        Ok(Some(request)) => assert_eq!(request.url, "http://localhost:9009/api/v1/push"),
        Ok(None) => panic!("three series are something to send"),
        Err(e) => panic!("Failed to prepare test metrics: {:?}", e),
    }

    assert!(true);
}

#[test]
fn time_series_puts_the_metric_name_first() {
    let series = time_series_at("up", &[("a", "1"), ("b", "2")], 1.0f64.to_bits(), 42);
    assert_eq!(
        series,
        TimeSeries {
            labels: vec![label("__name__", "up"), label("a", "1"), label("b", "2")],
            samples: vec![Sample { value: 0x3FF0_0000_0000_0000, timestamp: 42 }],
        }
    );
    let bare = time_series_at("up", &[], 0, 0);
    assert_eq!(bare.labels, vec![label("__name__", "up")]);
    assert_eq!(bare.samples, vec![Sample { value: 0, timestamp: 0 }]);
}

#[test]
fn create_time_series_keeps_a_given_timestamp() {
    let series = create_time_series("up", &[("host", "a")], 7, Some(-5));
    assert_eq!(series.samples, vec![Sample { value: 7, timestamp: -5 }]);
    assert_eq!(series.labels, vec![label("__name__", "up"), label("host", "a")]);
}

#[test]
fn create_time_series_stamps_with_the_current_time() {
    let series = create_time_series("up", &[], 7, None);
    assert_eq!(series.samples.len(), 1);
    assert_eq!(series.samples[0].value, 7);
    // Later than 2020-01-01, the clock of any machine that runs this.
    assert!(series.samples[0].timestamp > 1_577_836_800_000);
}

#[test]
fn successful_https_probe_emits_every_series_in_order() {
    let url = "https://www.example.com";
    let ts = 1_700_000_000_123;
    let metrics = probe_metrics_at(&https_probe(), true, ts);
    let expected = vec![
        expected_series("probe_success", url, None, 1.0, ts),
        expected_series("probe_http_duration_seconds", url, Some("resolve"), 0.012, ts),
        expected_series("probe_http_duration_seconds", url, Some("connect"), 0.03, ts),
        expected_series("probe_http_duration_seconds", url, Some("tls"), 0.045, ts),
        expected_series("probe_http_duration_seconds", url, Some("processing"), 0.08, ts),
        expected_series("probe_http_duration_seconds", url, Some("transfer"), 0.005, ts),
        expected_series("probe_duration_seconds", url, None, 0.25, ts),
        expected_series("probe_http_status_code", url, None, 200.0, ts),
        expected_series("probe_dns_lookup_time_seconds", url, None, 0.012, ts),
        expected_series("probe_http_ssl", url, None, 1.0, ts),
        expected_series("probe_ssl_earliest_cert_expiry", url, None, 1824690129.0, ts),
        expected_series("probe_http_version", url, None, 2.0, ts),
    ];
    assert_eq!(metrics, expected);
}

#[test]
fn accepted_status_reports_success_and_all_five_phases() {
    let metrics = probe_metrics_at(&https_probe(), true, 1);
    assert_eq!(value_of(&metrics, "probe_success"), Some(1.0));
    assert_eq!(value_of(&metrics, "probe_http_status_code"), Some(200.0));
    let phases: Vec<String> = metrics
        .iter()
        .filter(|s| s.labels[0].value == "probe_http_duration_seconds")
        .map(|s| s.labels[5].value.clone())
        .collect();
    assert_eq!(phases, vec!["resolve", "connect", "tls", "processing", "transfer"]);
}

#[test]
fn failed_probe_emits_zeroes_and_no_status_or_phase() {
    let url = "https://unresolvable.invalid";
    let probe = ProbeResult::failed(url.to_string());
    assert_eq!(probe.url, url);
    assert_eq!(probe.dns_time, None);
    assert_eq!(probe.connect_time, None);
    assert_eq!(probe.tls_time, None);
    assert_eq!(probe.processing_time, None);
    assert_eq!(probe.transfer_time, None);
    assert_eq!(probe.http_status, None);
    assert_eq!(probe.http_version, None);
    assert_eq!(probe.cert_validity_seconds, None);
    assert_eq!(probe.total_probe_time, 0);
    let metrics = probe_metrics_at(&probe, false, 9);
    assert_eq!(
        metrics,
        vec![
            expected_series("probe_success", url, None, 0.0, 9),
            expected_series("probe_duration_seconds", url, None, 0.0, 9),
            expected_series("probe_http_ssl", url, None, 0.0, 9),
        ]
    );
}

#[test]
fn unaccepted_status_reports_failure_with_the_status() {
    let mut probe = https_probe();
    probe.http_status = Some(404);
    let metrics = probe_metrics_at(&probe, false, 1);
    assert_eq!(value_of(&metrics, "probe_success"), Some(0.0));
    assert_eq!(value_of(&metrics, "probe_http_status_code"), Some(404.0));
}

#[test]
fn plaintext_probe_has_no_tls_series() {
    let mut probe = https_probe();
    probe.url = "http://www.example.com".to_string();
    probe.tls_time = None;
    probe.cert_validity_seconds = None;
    probe.http_version = Some(HttpVersion::Http11);
    let metrics = probe_metrics_at(&probe, true, 1);
    assert_eq!(
        names(&metrics),
        vec![
            "probe_success",
            "probe_http_duration_seconds",
            "probe_http_duration_seconds",
            "probe_http_duration_seconds",
            "probe_http_duration_seconds",
            "probe_duration_seconds",
            "probe_http_status_code",
            "probe_dns_lookup_time_seconds",
            "probe_http_ssl",
            "probe_http_version",
        ]
    );
    assert_eq!(value_of(&metrics, "probe_http_ssl"), Some(0.0));
    assert_eq!(value_of(&metrics, "probe_http_version"), Some(1.1));
    assert!(metrics.iter().all(|s| s.labels.len() < 6 || s.labels[5].value != "tls"));
}

#[test]
fn encoding_is_the_same_for_the_same_input() {
    let first = probe_metrics_at(&https_probe(), true, 77);
    let second = probe_metrics_at(&https_probe(), true, 77);
    assert_eq!(first, second);
    let later = probe_metrics_at(&https_probe(), true, 78);
    assert_eq!(first.len(), later.len());
    for (a, b) in first.iter().zip(later.iter()) {
        assert_eq!(a.labels, b.labels);
        assert_eq!(a.samples[0].value, b.samples[0].value);
        assert_eq!(b.samples[0].timestamp, 78);
    }
}

#[test]
fn all_samples_of_one_probe_share_one_timestamp() {
    let metrics = create_probe_metrics(&https_probe(), true);
    assert_eq!(metrics.len(), 12);
    let ts = metrics[0].samples[0].timestamp;
    assert!(ts > 1_577_836_800_000);
    assert!(metrics.iter().all(|s| s.samples.len() == 1 && s.samples[0].timestamp == ts));
    let stamped = probe_metrics_at(&https_probe(), true, ts);
    assert_eq!(metrics, stamped);
}

#[test]
fn label_names_are_unique_and_include_the_metric_name() {
    for series in probe_metrics_at(&https_probe(), true, 1) {
        assert_eq!(series.labels[0].name, "__name__");
        for (i, a) in series.labels.iter().enumerate() {
            for b in &series.labels[i + 1..] {
                assert_ne!(a.name, b.name);
            }
        }
    }
}
