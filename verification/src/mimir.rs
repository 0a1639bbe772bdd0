//! Probe outcomes as labelled time series, and their way to the backend.

use crate::http_probe::probe::convert_http_version;
use crate::http_probe::probe::version_bits;
use crate::http_probe::result::ProbeResult;
use crate::http_probe::result::ProbeResultView;
use crate::ieee754::flag_bits;
use crate::ieee754::flag_double;
use crate::ieee754::lemma_nearest_bits_positive;
use crate::ieee754::nearest_bits;
use crate::ieee754::nearest_bits_signed;
use crate::ieee754::nearest_double;
use crate::ieee754::nearest_double_signed;
use crate::ieee754::SIGN_BIT;
use crate::mimir::client::series_view;
use crate::mimir::client::single_sample_series;
use crate::mimir::client::LabelView;
use crate::mimir::client::Sample;
use crate::mimir::client::TimeSeries;
use crate::mimir::client::TimeSeriesView;
use vstd::prelude::*;

pub mod client;
pub mod decode;
pub mod wire;

verus! {

/// Nanoseconds in a second.
pub const NANOS_PER_SECOND: u32 = 1_000_000_000;

/// The binary64 bit pattern of a duration of `nanos` nanoseconds, in seconds.
pub open spec fn seconds_bits(nanos: u64) -> u64 {
    nearest_bits(nanos as nat, 1_000_000_000) as u64
}

/// The binary64 bit pattern of a status code.
pub open spec fn status_bits(code: u16) -> u64 {
    nearest_bits(code as nat, 1) as u64
}

/// The binary64 bit pattern of an instant in seconds since the Unix epoch.
pub open spec fn expiry_bits(seconds: i64) -> u64 {
    nearest_bits_signed(seconds as int) as u64
}

/// The labels that every probe series carries after `__name__`.
pub open spec fn probe_labels(url: Seq<char>) -> Seq<LabelView> {
    seq![
        LabelView { name: "instance"@, value: url },
        LabelView { name: "job"@, value: "oxybox"@ },
        LabelView { name: "module"@, value: "http_probe"@ },
        LabelView { name: "target"@, value: url },
    ]
}

/// A probe series of `metric` for `url`, with `extra` labels after the
/// mandatory ones.
pub open spec fn probe_series(
    metric: Seq<char>,
    url: Seq<char>,
    value: u64,
    extra: Seq<LabelView>,
    timestamp: i64,
) -> TimeSeriesView {
    single_sample_series(metric, probe_labels(url) + extra, value, timestamp)
}

/// The series of one phase: present exactly where the phase has a duration.
pub open spec fn phase_series(
    url: Seq<char>,
    duration: Option<u64>,
    phase: Seq<char>,
    timestamp: i64,
) -> Seq<TimeSeriesView> {
    match duration {
        Some(d) => seq![
            probe_series(
                "probe_http_duration_seconds"@,
                url,
                seconds_bits(d),
                seq![LabelView { name: "phase"@, value: phase }],
                timestamp,
            ),
        ],
        None => seq![],
    }
}

/// A series without extra labels, present exactly where there is a value.
pub open spec fn optional_series(
    metric: Seq<char>,
    url: Seq<char>,
    value: Option<u64>,
    timestamp: i64,
) -> Seq<TimeSeriesView> {
    match value {
        Some(v) => seq![probe_series(metric, url, v, seq![], timestamp)],
        None => seq![],
    }
}

/// The series that describe one probe, in the order in which they are pushed.
///
/// `probe_success`, `probe_duration_seconds` and `probe_http_ssl` are always
/// there; every other series is there exactly where the result holds its
/// value. All samples carry `timestamp`.
pub open spec fn probe_metrics(probe: ProbeResultView, success: bool, timestamp: i64) -> Seq<
    TimeSeriesView,
> {
    let url = probe.url;
    seq![probe_series("probe_success"@, url, flag_bits(success), seq![], timestamp)]
        + phase_series(url, probe.dns_time, "resolve"@, timestamp)
        + phase_series(url, probe.connect_time, "connect"@, timestamp)
        + phase_series(url, probe.tls_time, "tls"@, timestamp)
        + phase_series(url, probe.processing_time, "processing"@, timestamp)
        + phase_series(url, probe.transfer_time, "transfer"@, timestamp)
        + seq![
        probe_series(
            "probe_duration_seconds"@,
            url,
            seconds_bits(probe.total_probe_time),
            seq![],
            timestamp,
        ),
    ] + optional_series(
        "probe_http_status_code"@,
        url,
        match probe.http_status {
            Some(code) => Some(status_bits(code)),
            None => None,
        },
        timestamp,
    ) + optional_series(
        "probe_dns_lookup_time_seconds"@,
        url,
        match probe.dns_time {
            Some(d) => Some(seconds_bits(d)),
            None => None,
        },
        timestamp,
    ) + seq![
        probe_series(
            "probe_http_ssl"@,
            url,
            flag_bits(probe.cert_validity_seconds is Some),
            seq![],
            timestamp,
        ),
    ] + optional_series(
        "probe_ssl_earliest_cert_expiry"@,
        url,
        match probe.cert_validity_seconds {
            Some(expiry) => Some(expiry_bits(expiry)),
            None => None,
        },
        timestamp,
    ) + optional_series(
        "probe_http_version"@,
        url,
        match probe.http_version {
            Some(version) => Some(version_bits(version)),
            None => None,
        },
        timestamp,
    )
}

/// The labels given as pairs of name and value, one optional.
pub open spec fn extra_labels(additional: Option<(&str, &str)>) -> Seq<LabelView> {
    match additional {
        Some(pair) => seq![LabelView { name: pair.0@, value: pair.1@ }],
        None => seq![],
    }
}

/// Builds one probe series: the mandatory labels for `instance`, then the
/// additional one.
fn create_time_series(
    metric_name: &str,
    instance: &str,
    value: u64,
    additional_label: Option<(&str, &str)>,
    timestamp: i64,
) -> (series: TimeSeries)
    ensures
        series@ == probe_series(
            metric_name@,
            instance@,
            value,
            extra_labels(additional_label),
            timestamp,
        ),
{
    let mut labels: Vec<(&str, &str)> = Vec::new();
    labels.push(("instance", instance));
    labels.push(("job", "oxybox"));
    labels.push(("module", "http_probe"));
    labels.push(("target", instance));
    if let Some(pair) = additional_label {
        labels.push(pair);
    }
    proof {
        assert(client::pairs_view(labels@) =~= probe_labels(instance@) + extra_labels(
            additional_label,
        ));
    }
    client::time_series_at(metric_name, labels.as_slice(), value, timestamp)
}

/// Appends `series` to `metrics`.
fn push_series(metrics: &mut Vec<TimeSeries>, series: TimeSeries)
    ensures
        series_view(final(metrics)@) == series_view(old(metrics)@) + seq![series@],
{
    metrics.push(series);
    assert(series_view(metrics@) =~= series_view(old(metrics)@) + seq![series@]);
}

/// Appends the series of one phase where the phase has a duration.
fn push_phase(
    metrics: &mut Vec<TimeSeries>,
    url: &str,
    duration: Option<u64>,
    phase: &str,
    timestamp: i64,
)
    ensures
        series_view(final(metrics)@) == series_view(old(metrics)@) + phase_series(
            url@,
            duration,
            phase@,
            timestamp,
        ),
{
    if let Some(d) = duration {
        let value = nearest_double(d, NANOS_PER_SECOND);
        let series = create_time_series(
            "probe_http_duration_seconds",
            url,
            value,
            Some(("phase", phase)),
            timestamp,
        );
        push_series(metrics, series);
    } else {
        assert(series_view(metrics@) =~= series_view(old(metrics)@) + Seq::empty());
    }
}

/// Appends a series without extra labels where there is a value.
fn push_optional(
    metrics: &mut Vec<TimeSeries>,
    metric_name: &str,
    url: &str,
    value: Option<u64>,
    timestamp: i64,
)
    ensures
        series_view(final(metrics)@) == series_view(old(metrics)@) + optional_series(
            metric_name@,
            url@,
            value,
            timestamp,
        ),
{
    if let Some(v) = value {
        let series = create_time_series(metric_name, url, v, None, timestamp);
        push_series(metrics, series);
    } else {
        assert(series_view(metrics@) =~= series_view(old(metrics)@) + Seq::empty());
    }
}

/// The series that describe `probe_result`, every sample stamped with
/// `timestamp`; `probe_success` is 1.0 where `probe_success` holds, else 0.0.
pub fn probe_metrics_at(probe_result: &ProbeResult, probe_success: bool, timestamp: i64) -> (metrics:
    Vec<TimeSeries>)
    ensures
        series_view(metrics@) == probe_metrics(probe_result@, probe_success, timestamp),
{
    let url = probe_result.url.as_str();
    let mut metrics: Vec<TimeSeries> = Vec::new();
    assert(series_view(metrics@) =~= Seq::empty());
    push_optional(&mut metrics, "probe_success", url, Some(flag_double(probe_success)), timestamp);
    push_phase(&mut metrics, url, probe_result.dns_time, "resolve", timestamp);
    push_phase(&mut metrics, url, probe_result.connect_time, "connect", timestamp);
    push_phase(&mut metrics, url, probe_result.tls_time, "tls", timestamp);
    push_phase(&mut metrics, url, probe_result.processing_time, "processing", timestamp);
    push_phase(&mut metrics, url, probe_result.transfer_time, "transfer", timestamp);
    push_optional(
        &mut metrics,
        "probe_duration_seconds",
        url,
        Some(nearest_double(probe_result.total_probe_time, NANOS_PER_SECOND)),
        timestamp,
    );
    let status = match probe_result.http_status {
        Some(code) => Some(nearest_double(code as u64, 1)),
        None => None,
    };
    push_optional(&mut metrics, "probe_http_status_code", url, status, timestamp);
    let lookup = match probe_result.dns_time {
        Some(d) => Some(nearest_double(d, NANOS_PER_SECOND)),
        None => None,
    };
    push_optional(&mut metrics, "probe_dns_lookup_time_seconds", url, lookup, timestamp);
    push_optional(
        &mut metrics,
        "probe_http_ssl",
        url,
        Some(flag_double(probe_result.cert_validity_seconds.is_some())),
        timestamp,
    );
    let expiry = match probe_result.cert_validity_seconds {
        Some(seconds) => Some(nearest_double_signed(seconds)),
        None => None,
    };
    push_optional(&mut metrics, "probe_ssl_earliest_cert_expiry", url, expiry, timestamp);
    let version = match probe_result.http_version {
        Some(v) => Some(convert_http_version(v)),
        None => None,
    };
    push_optional(&mut metrics, "probe_http_version", url, version, timestamp);
    assert(series_view(metrics@) =~= probe_metrics(probe_result@, probe_success, timestamp));
    metrics
}

/// The series that describe `probe_result`, every sample stamped with the
/// wall-clock time at which this function ran.
pub fn create_probe_metrics(probe_result: &ProbeResult, probe_success: bool) -> (metrics: Vec<
    TimeSeries,
>)
    ensures
        exists|timestamp: i64|
            series_view(metrics@) == #[trigger] probe_metrics(
                probe_result@,
                probe_success,
                timestamp,
            ),
{
    let timestamp = client::sample_timestamp(None);
    probe_metrics_at(probe_result, probe_success, timestamp)
}

/// A time series without the instants of its samples: its labels and the
/// values of its samples.
pub open spec fn without_timestamps(series: TimeSeriesView) -> (Seq<LabelView>, Seq<u64>) {
    (series.labels, series.samples.map_values(|sample: Sample| sample.value))
}

/// Time series without the instants of their samples.
pub open spec fn all_without_timestamps(all: Seq<TimeSeriesView>) -> Seq<
    (Seq<LabelView>, Seq<u64>),
> {
    all.map_values(|series: TimeSeriesView| without_timestamps(series))
}

/// Series that agree but for their instants, followed by series that agree
/// but for their instants, agree but for their instants.
proof fn lemma_agree_joined(
    a1: Seq<TimeSeriesView>,
    a2: Seq<TimeSeriesView>,
    b1: Seq<TimeSeriesView>,
    b2: Seq<TimeSeriesView>,
)
    requires
        all_without_timestamps(a1) == all_without_timestamps(a2),
        all_without_timestamps(b1) == all_without_timestamps(b2),
    ensures
        all_without_timestamps(a1 + b1) == all_without_timestamps(a2 + b2),
{
    assert(all_without_timestamps(a1 + b1) =~= all_without_timestamps(a1) + all_without_timestamps(
        b1,
    ));
    assert(all_without_timestamps(a2 + b2) =~= all_without_timestamps(a2) + all_without_timestamps(
        b2,
    ));
}

/// One series stamped with two instants agrees with itself but for them.
proof fn lemma_agree_single(
    metric: Seq<char>,
    url: Seq<char>,
    value: u64,
    extra: Seq<LabelView>,
    first: i64,
    second: i64,
)
    ensures
        all_without_timestamps(seq![probe_series(metric, url, value, extra, first)])
            == all_without_timestamps(seq![probe_series(metric, url, value, extra, second)]),
{
    let a = probe_series(metric, url, value, extra, first);
    let b = probe_series(metric, url, value, extra, second);
    assert(a.samples.map_values(|sample: Sample| sample.value) =~= b.samples.map_values(
        |sample: Sample| sample.value,
    ));
    assert(all_without_timestamps(seq![a]) =~= all_without_timestamps(seq![b]));
}

/// The series of a phase stamped with two instants agree but for them.
proof fn lemma_agree_phase(
    url: Seq<char>,
    duration: Option<u64>,
    phase: Seq<char>,
    first: i64,
    second: i64,
)
    ensures
        all_without_timestamps(phase_series(url, duration, phase, first))
            == all_without_timestamps(phase_series(url, duration, phase, second)),
{
    match duration {
        Some(d) => lemma_agree_single(
            "probe_http_duration_seconds"@,
            url,
            seconds_bits(d),
            seq![LabelView { name: "phase"@, value: phase }],
            first,
            second,
        ),
        None => {},
    }
}

/// An optional series stamped with two instants agrees with itself but for
/// them.
proof fn lemma_agree_optional(
    metric: Seq<char>,
    url: Seq<char>,
    value: Option<u64>,
    first: i64,
    second: i64,
)
    ensures
        all_without_timestamps(optional_series(metric, url, value, first))
            == all_without_timestamps(optional_series(metric, url, value, second)),
{
    match value {
        Some(v) => lemma_agree_single(metric, url, v, seq![], first, second),
        None => {},
    }
}

/// The series of a probe depend on the result and the verdict alone: the
/// same result with the same verdict gives the same series, label for label
/// and value for value, whatever the instant they are stamped with.
pub proof fn lemma_metrics_depend_on_input_alone(
    probe: ProbeResultView,
    success: bool,
    first: i64,
    second: i64,
)
    ensures
        all_without_timestamps(probe_metrics(probe, success, first)) == all_without_timestamps(
            probe_metrics(probe, success, second),
        ),
{
    let url = probe.url;
    let status = match probe.http_status {
        Some(code) => Some(status_bits(code)),
        None => None,
    };
    let lookup = match probe.dns_time {
        Some(d) => Some(seconds_bits(d)),
        None => None,
    };
    let expiry = match probe.cert_validity_seconds {
        Some(e) => Some(expiry_bits(e)),
        None => None,
    };
    let version = match probe.http_version {
        Some(v) => Some(version_bits(v)),
        None => None,
    };
    let a0 = seq![probe_series("probe_success"@, url, flag_bits(success), seq![], first)];
    let b0 = seq![probe_series("probe_success"@, url, flag_bits(success), seq![], second)];
    lemma_agree_single("probe_success"@, url, flag_bits(success), seq![], first, second);
    let a1 = a0 + phase_series(url, probe.dns_time, "resolve"@, first);
    let b1 = b0 + phase_series(url, probe.dns_time, "resolve"@, second);
    lemma_agree_phase(url, probe.dns_time, "resolve"@, first, second);
    lemma_agree_joined(
        a0,
        b0,
        phase_series(url, probe.dns_time, "resolve"@, first),
        phase_series(url, probe.dns_time, "resolve"@, second),
    );
    let a2 = a1 + phase_series(url, probe.connect_time, "connect"@, first);
    let b2 = b1 + phase_series(url, probe.connect_time, "connect"@, second);
    lemma_agree_phase(url, probe.connect_time, "connect"@, first, second);
    lemma_agree_joined(
        a1,
        b1,
        phase_series(url, probe.connect_time, "connect"@, first),
        phase_series(url, probe.connect_time, "connect"@, second),
    );
    let a3 = a2 + phase_series(url, probe.tls_time, "tls"@, first);
    let b3 = b2 + phase_series(url, probe.tls_time, "tls"@, second);
    lemma_agree_phase(url, probe.tls_time, "tls"@, first, second);
    lemma_agree_joined(
        a2,
        b2,
        phase_series(url, probe.tls_time, "tls"@, first),
        phase_series(url, probe.tls_time, "tls"@, second),
    );
    let a4 = a3 + phase_series(url, probe.processing_time, "processing"@, first);
    let b4 = b3 + phase_series(url, probe.processing_time, "processing"@, second);
    lemma_agree_phase(url, probe.processing_time, "processing"@, first, second);
    lemma_agree_joined(
        a3,
        b3,
        phase_series(url, probe.processing_time, "processing"@, first),
        phase_series(url, probe.processing_time, "processing"@, second),
    );
    let a5 = a4 + phase_series(url, probe.transfer_time, "transfer"@, first);
    let b5 = b4 + phase_series(url, probe.transfer_time, "transfer"@, second);
    lemma_agree_phase(url, probe.transfer_time, "transfer"@, first, second);
    lemma_agree_joined(
        a4,
        b4,
        phase_series(url, probe.transfer_time, "transfer"@, first),
        phase_series(url, probe.transfer_time, "transfer"@, second),
    );
    let total = seconds_bits(probe.total_probe_time);
    let a6 = a5 + seq![probe_series("probe_duration_seconds"@, url, total, seq![], first)];
    let b6 = b5 + seq![probe_series("probe_duration_seconds"@, url, total, seq![], second)];
    lemma_agree_single("probe_duration_seconds"@, url, total, seq![], first, second);
    lemma_agree_joined(
        a5,
        b5,
        seq![probe_series("probe_duration_seconds"@, url, total, seq![], first)],
        seq![probe_series("probe_duration_seconds"@, url, total, seq![], second)],
    );
    let a7 = a6 + optional_series("probe_http_status_code"@, url, status, first);
    let b7 = b6 + optional_series("probe_http_status_code"@, url, status, second);
    lemma_agree_optional("probe_http_status_code"@, url, status, first, second);
    lemma_agree_joined(
        a6,
        b6,
        optional_series("probe_http_status_code"@, url, status, first),
        optional_series("probe_http_status_code"@, url, status, second),
    );
    let a8 = a7 + optional_series("probe_dns_lookup_time_seconds"@, url, lookup, first);
    let b8 = b7 + optional_series("probe_dns_lookup_time_seconds"@, url, lookup, second);
    lemma_agree_optional("probe_dns_lookup_time_seconds"@, url, lookup, first, second);
    lemma_agree_joined(
        a7,
        b7,
        optional_series("probe_dns_lookup_time_seconds"@, url, lookup, first),
        optional_series("probe_dns_lookup_time_seconds"@, url, lookup, second),
    );
    let ssl = flag_bits(probe.cert_validity_seconds is Some);
    let a9 = a8 + seq![probe_series("probe_http_ssl"@, url, ssl, seq![], first)];
    let b9 = b8 + seq![probe_series("probe_http_ssl"@, url, ssl, seq![], second)];
    lemma_agree_single("probe_http_ssl"@, url, ssl, seq![], first, second);
    lemma_agree_joined(
        a8,
        b8,
        seq![probe_series("probe_http_ssl"@, url, ssl, seq![], first)],
        seq![probe_series("probe_http_ssl"@, url, ssl, seq![], second)],
    );
    let a10 = a9 + optional_series("probe_ssl_earliest_cert_expiry"@, url, expiry, first);
    let b10 = b9 + optional_series("probe_ssl_earliest_cert_expiry"@, url, expiry, second);
    lemma_agree_optional("probe_ssl_earliest_cert_expiry"@, url, expiry, first, second);
    lemma_agree_joined(
        a9,
        b9,
        optional_series("probe_ssl_earliest_cert_expiry"@, url, expiry, first),
        optional_series("probe_ssl_earliest_cert_expiry"@, url, expiry, second),
    );
    lemma_agree_optional("probe_http_version"@, url, version, first, second);
    lemma_agree_joined(
        a10,
        b10,
        optional_series("probe_http_version"@, url, version, first),
        optional_series("probe_http_version"@, url, version, second),
    );
}

/// Whether a series is labelled as a series must be: the metric name comes
/// first, under `__name__`, and no label name occurs twice.
pub open spec fn well_labelled(series: TimeSeriesView) -> bool {
    &&& series.labels.len() > 0
    &&& series.labels[0].name == "__name__"@
    &&& forall|i: int, j: int|
        0 <= i < j < series.labels.len() ==> series.labels[i].name != series.labels[j].name
}

/// Whether every series is well labelled and holds one sample, stamped
/// `timestamp`.
pub open spec fn all_well_formed(all: Seq<TimeSeriesView>, timestamp: i64) -> bool {
    forall|i: int|
        0 <= i < all.len() ==> {
            &&& well_labelled(#[trigger] all[i])
            &&& all[i].samples.len() == 1
            &&& all[i].samples[0].timestamp == timestamp
        }
}

/// Well-formed series followed by well-formed series are well formed.
proof fn lemma_well_formed_joined(a: Seq<TimeSeriesView>, b: Seq<TimeSeriesView>, timestamp: i64)
    requires
        all_well_formed(a, timestamp),
        all_well_formed(b, timestamp),
    ensures
        all_well_formed(a + b, timestamp),
{
    assert forall|i: int| 0 <= i < (a + b).len() implies {
        &&& well_labelled(#[trigger] (a + b)[i])
        &&& (a + b)[i].samples.len() == 1
        &&& (a + b)[i].samples[0].timestamp == timestamp
    } by {
        if i < a.len() {
            assert((a + b)[i] == a[i]);
        } else {
            assert((a + b)[i] == b[i - a.len()]);
        }
    }
}

/// A probe series is well formed, with or without a phase.
proof fn lemma_well_formed_single(
    metric: Seq<char>,
    url: Seq<char>,
    value: u64,
    phase: Option<Seq<char>>,
    timestamp: i64,
)
    ensures
        all_well_formed(
            seq![
                probe_series(
                    metric,
                    url,
                    value,
                    match phase {
                        Some(p) => seq![LabelView { name: "phase"@, value: p }],
                        None => seq![],
                    },
                    timestamp,
                ),
            ],
            timestamp,
        ),
{
    reveal_strlit("__name__");
    reveal_strlit("instance");
    reveal_strlit("job");
    reveal_strlit("module");
    reveal_strlit("target");
    reveal_strlit("phase");
    let extra = match phase {
        Some(p) => seq![LabelView { name: "phase"@, value: p }],
        None => seq![],
    };
    let series = probe_series(metric, url, value, extra, timestamp);
    let names = series.labels;
    assert(names[0].name == "__name__"@);
    assert(names[1].name == "instance"@);
    assert(names[2].name == "job"@);
    assert(names[3].name == "module"@);
    assert(names[4].name == "target"@);
    assert("__name__"@[0] != "instance"@[0]);
    assert("module"@[0] != "target"@[0]);
    if phase is Some {
        assert(names[5].name == "phase"@);
    }
    assert(well_labelled(series));
}

/// Every series of a probe is labelled as a series must be, with the metric
/// name first and no label name twice, and holds one sample; all samples of
/// one probe share one instant.
pub proof fn lemma_probe_metrics_well_formed(probe: ProbeResultView, success: bool, timestamp: i64)
    ensures
        all_well_formed(probe_metrics(probe, success, timestamp), timestamp),
{
    let url = probe.url;
    let t = timestamp;
    assert forall|duration: Option<u64>, phase: Seq<char>| #[trigger]
        all_well_formed(phase_series(url, duration, phase, t), t) by {
        if let Some(d) = duration {
            lemma_well_formed_single(
                "probe_http_duration_seconds"@,
                url,
                seconds_bits(d),
                Some(phase),
                t,
            );
        }
    }
    assert forall|metric: Seq<char>, value: Option<u64>| #[trigger]
        all_well_formed(optional_series(metric, url, value, t), t) by {
        if let Some(v) = value {
            lemma_well_formed_single(metric, url, v, None, t);
        }
    }
    assert forall|metric: Seq<char>, value: u64| #[trigger]
        all_well_formed(seq![probe_series(metric, url, value, seq![], t)], t) by {
        lemma_well_formed_single(metric, url, value, None, t);
    }
    let status = match probe.http_status {
        Some(code) => Some(status_bits(code)),
        None => None,
    };
    let lookup = match probe.dns_time {
        Some(d) => Some(seconds_bits(d)),
        None => None,
    };
    let expiry = match probe.cert_validity_seconds {
        Some(e) => Some(expiry_bits(e)),
        None => None,
    };
    let version = match probe.http_version {
        Some(v) => Some(version_bits(v)),
        None => None,
    };
    let s0 = seq![probe_series("probe_success"@, url, flag_bits(success), seq![], t)];
    let s1 = s0 + phase_series(url, probe.dns_time, "resolve"@, t);
    lemma_well_formed_joined(s0, phase_series(url, probe.dns_time, "resolve"@, t), t);
    let s2 = s1 + phase_series(url, probe.connect_time, "connect"@, t);
    lemma_well_formed_joined(s1, phase_series(url, probe.connect_time, "connect"@, t), t);
    let s3 = s2 + phase_series(url, probe.tls_time, "tls"@, t);
    lemma_well_formed_joined(s2, phase_series(url, probe.tls_time, "tls"@, t), t);
    let s4 = s3 + phase_series(url, probe.processing_time, "processing"@, t);
    lemma_well_formed_joined(s3, phase_series(url, probe.processing_time, "processing"@, t), t);
    let s5 = s4 + phase_series(url, probe.transfer_time, "transfer"@, t);
    lemma_well_formed_joined(s4, phase_series(url, probe.transfer_time, "transfer"@, t), t);
    let total = seq![
        probe_series(
            "probe_duration_seconds"@,
            url,
            seconds_bits(probe.total_probe_time),
            seq![],
            t,
        ),
    ];
    let s6 = s5 + total;
    lemma_well_formed_joined(s5, total, t);
    let s7 = s6 + optional_series("probe_http_status_code"@, url, status, t);
    lemma_well_formed_joined(s6, optional_series("probe_http_status_code"@, url, status, t), t);
    let s8 = s7 + optional_series("probe_dns_lookup_time_seconds"@, url, lookup, t);
    lemma_well_formed_joined(
        s7,
        optional_series("probe_dns_lookup_time_seconds"@, url, lookup, t),
        t,
    );
    let ssl = seq![
        probe_series(
            "probe_http_ssl"@,
            url,
            flag_bits(probe.cert_validity_seconds is Some),
            seq![],
            t,
        ),
    ];
    let s9 = s8 + ssl;
    lemma_well_formed_joined(s8, ssl, t);
    let s10 = s9 + optional_series("probe_ssl_earliest_cert_expiry"@, url, expiry, t);
    lemma_well_formed_joined(
        s9,
        optional_series("probe_ssl_earliest_cert_expiry"@, url, expiry, t),
        t,
    );
    lemma_well_formed_joined(s10, optional_series("probe_http_version"@, url, version, t), t);
}

/// No duration is reported as a negative number: the pattern of a duration
/// in seconds has its sign bit clear, and is the pattern of zero exactly for
/// no time at all.
pub proof fn lemma_durations_are_not_negative(nanos: u64)
    ensures
        seconds_bits(nanos) < SIGN_BIT,
        seconds_bits(nanos) == 0 <==> nanos == 0,
{
    if nanos > 0 {
        lemma_nearest_bits_positive(nanos as nat, 1_000_000_000);
    }
}

} // verus!
