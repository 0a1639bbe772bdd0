use crate::mimir::decode::decode_write_request;
use crate::mimir::decode::lemma_request_round_trip;
use crate::mimir::decode::parse_request;
use crate::mimir::wire::encode_write_request;
use crate::mimir::wire::request_bytes;
use crate::mimir::wire::request_fits;
use vstd::prelude::*;
use vstd::string::*;

verus! {

/// A label of a time series.
#[derive(Debug, Clone, PartialEq, Eq)]
pub struct Label {
    pub name: String,
    pub value: String,
}

/// One measurement: a binary64 bit pattern and the instant it belongs to, in
/// milliseconds since the Unix epoch.
#[derive(Debug, Clone, Copy, PartialEq, Eq, Structural)]
pub struct Sample {
    pub value: u64,
    pub timestamp: i64,
}

/// A named metric with its labels and samples.
#[derive(Debug, Clone, PartialEq, Eq)]
pub struct TimeSeries {
    pub labels: Vec<Label>,
    pub samples: Vec<Sample>,
}

/// The payload of one push: time series in order.
#[derive(Debug, Clone, PartialEq, Eq)]
pub struct WriteRequest {
    pub timeseries: Vec<TimeSeries>,
}

/// A label as two sequences of characters.
pub struct LabelView {
    pub name: Seq<char>,
    pub value: Seq<char>,
}

/// A time series as sequences.
pub struct TimeSeriesView {
    pub labels: Seq<LabelView>,
    pub samples: Seq<Sample>,
}

impl View for Label {
    type V = LabelView;

    open spec fn view(&self) -> LabelView {
        LabelView { name: self.name@, value: self.value@ }
    }
}

/// The views of a sequence of labels.
pub open spec fn labels_view(labels: Seq<Label>) -> Seq<LabelView> {
    labels.map_values(|l: Label| l@)
}

impl View for TimeSeries {
    type V = TimeSeriesView;

    open spec fn view(&self) -> TimeSeriesView {
        TimeSeriesView { labels: labels_view(self.labels@), samples: self.samples@ }
    }
}

/// The views of a sequence of time series.
pub open spec fn series_view(series: Seq<TimeSeries>) -> Seq<TimeSeriesView> {
    series.map_values(|s: TimeSeries| s@)
}

impl View for WriteRequest {
    type V = Seq<TimeSeriesView>;

    open spec fn view(&self) -> Seq<TimeSeriesView> {
        series_view(self.timeseries@)
    }
}

/// The labels given as pairs of name and value.
pub open spec fn pairs_view(pairs: Seq<(&str, &str)>) -> Seq<LabelView> {
    pairs.map_values(|p: (&str, &str)| LabelView { name: p.0@, value: p.1@ })
}

/// The series of `metric`: the label `__name__` first, then `labels`, and
/// one sample.
pub open spec fn single_sample_series(
    metric: Seq<char>,
    labels: Seq<LabelView>,
    value: u64,
    timestamp: i64,
) -> TimeSeriesView {
    TimeSeriesView {
        labels: seq![LabelView { name: "__name__"@, value: metric }] + labels,
        samples: seq![Sample { value, timestamp }],
    }
}

/// Reads the wall clock through `chrono::Utc::now().timestamp_millis()`.
/// Nothing is claimed of the instant that comes back.
#[verifier::external_body]
fn current_timestamp_millis() -> (now: i64) {
    chrono::Utc::now().timestamp_millis()
}

/// The instant to stamp a sample with: `timestamp_ms` where given, else the
/// current wall-clock time.
pub fn sample_timestamp(timestamp_ms: Option<i64>) -> (timestamp: i64)
    ensures
        timestamp_ms matches Some(t) ==> timestamp == t,
{
    match timestamp_ms {
        Some(t) => t,
        None => current_timestamp_millis(),
    }
}

/// Builds the series of `metric_name` with one sample of `value` at
/// `timestamp`. The label `__name__` comes first, the given labels follow in
/// their order.
pub fn time_series_at(
    metric_name: &str,
    labels: &[(&str, &str)],
    value: u64,
    timestamp: i64,
) -> (series: TimeSeries)
    ensures
        series@ == single_sample_series(metric_name@, pairs_view(labels@), value, timestamp),
{
    let mut all_labels: Vec<Label> = Vec::new();
    all_labels.push(
        Label { name: String::from_str("__name__"), value: String::from_str(metric_name) },
    );
    assert(labels_view(all_labels@) =~= seq![
        LabelView { name: "__name__"@, value: metric_name@ },
    ]);
    let mut i: usize = 0;
    while i < labels.len()
        invariant
            i <= labels.len(),
            labels_view(all_labels@) == seq![LabelView { name: "__name__"@, value: metric_name@ }]
                + pairs_view(labels@).take(i as int),
        decreases labels.len() - i,
    {
        let pair = &labels[i];
        let ghost before = all_labels@;
        let label = Label { name: String::from_str(pair.0), value: String::from_str(pair.1) };
        all_labels.push(label);
        proof {
            assert(labels_view(all_labels@) =~= labels_view(before).push(label@));
            assert(pairs_view(labels@).take(i + 1) =~= pairs_view(labels@).take(i as int).push(
                label@,
            ));
        }
        i += 1;
    }
    let mut samples: Vec<Sample> = Vec::new();
    samples.push(Sample { value, timestamp });
    proof {
        assert(pairs_view(labels@).take(i as int) =~= pairs_view(labels@));
        assert(samples@ =~= seq![Sample { value, timestamp }]);
    }
    TimeSeries { labels: all_labels, samples }
}

/// Builds the series of `metric_name` with one sample of `value`, a binary64
/// bit pattern, stamped with `timestamp_ms` or, where that is `None`, with the
/// current wall-clock time.
pub fn create_time_series(
    metric_name: &str,
    labels: &[(&str, &str)],
    value: u64,
    timestamp_ms: Option<i64>,
) -> (series: TimeSeries)
    ensures
        series.samples@.len() == 1,
        series@ == single_sample_series(
            metric_name@,
            pairs_view(labels@),
            value,
            series.samples@[0].timestamp,
        ),
        timestamp_ms matches Some(t) ==> series.samples@[0].timestamp == t,
{
    let timestamp = sample_timestamp(timestamp_ms);
    time_series_at(metric_name, labels, value, timestamp)
}

/// The error of `snap`, carried through as it is.
#[verifier::external_type_specification]
#[verifier::external_body]
pub struct ExSnapError(snap::Error);

/// Why a push did not go through.
#[derive(Debug, Clone, PartialEq, Eq)]
pub enum PushError {
    /// The backend answered with a status outside 200 to 299.
    BackendRejected { status: u16, body: String },
    /// The request could not be made or carried out.
    Transport(TransportFailure),
}

/// What kept a request from being made or carried out.
#[derive(Debug, Clone, Copy, PartialEq, Eq, Structural)]
pub enum TransportFailure {
    /// The payload is too large to be compressed.
    PayloadTooLarge,
    /// The tenant id cannot stand in a header.
    TenantId,
    /// The request failed on its way.
    Request,
}

/// A `PushError` with its text as a sequence of characters.
pub enum PushErrorView {
    BackendRejected { status: u16, body: Seq<char> },
    Transport(TransportFailure),
}

impl View for PushError {
    type V = PushErrorView;

    open spec fn view(&self) -> PushErrorView {
        match *self {
            PushError::BackendRejected { status, body } => PushErrorView::BackendRejected {
                status,
                body: body@,
            },
            PushError::Transport(failure) => PushErrorView::Transport(failure),
        }
    }
}

/// One HTTP POST: where to, with which headers, carrying which bytes.
#[derive(Debug, Clone, PartialEq, Eq)]
pub struct PushRequest {
    pub url: String,
    pub headers: Vec<Label>,
    pub body: Vec<u8>,
}

/// A `PushRequest` as sequences.
pub struct PushRequestView {
    pub url: Seq<char>,
    pub headers: Seq<LabelView>,
    pub body: Seq<u8>,
}

impl View for PushRequest {
    type V = PushRequestView;

    open spec fn view(&self) -> PushRequestView {
        PushRequestView { url: self.url@, headers: labels_view(self.headers@), body: self.body@ }
    }
}

/// The Snappy block that `snap` makes of `raw`.
pub uninterp spec fn snappy_block(raw: Seq<u8>) -> Seq<u8>;

/// Whether `snap` takes an input of `len` bytes: the largest block that could
/// come of it must fit in 32 bits.
pub open spec fn compressible(len: nat) -> bool {
    32 + len + len / 6 <= 0xFFFF_FFFF
}

/// Compresses `raw` into one Snappy block with
/// `snap::raw::Encoder::new().compress_vec`. It fails exactly on an input
/// whose largest possible block would not fit in 32 bits; the contract names
/// the block and claims no more of it: the same bytes give the same block.
#[verifier::external_body]
fn snappy_compress(raw: &[u8]) -> (compressed: Result<Vec<u8>, snap::Error>)
    ensures
        compressed is Ok <==> compressible(raw@.len()),
        compressed matches Ok(block) ==> block@ == snappy_block(raw@),
{
    snap::raw::Encoder::new().compress_vec(raw)
}

/// The bytes that `snap` reads out of a Snappy block; `None` where it rejects
/// the block.
pub uninterp spec fn snappy_raw(block: Seq<u8>) -> Option<Seq<u8>>;

/// Reads the bytes out of one Snappy block with
/// `snap::raw::Decoder::new().decompress_vec`. The contract names the
/// outcome, and claims of it that a block which `snap` made of some bytes
/// reads back as those bytes.
#[verifier::external_body]
fn snappy_decompress(block: &[u8]) -> (raw: Result<Vec<u8>, snap::Error>)
    ensures
        raw matches Ok(bytes) ==> snappy_raw(block@) == Some(bytes@),
        raw is Err ==> snappy_raw(block@) is None,
        raw matches Ok(bytes) ==> forall|input: Seq<u8>|
            compressible(input.len()) && block@ == #[trigger] snappy_block(input) ==> bytes@
                == input,
        raw is Err ==> forall|input: Seq<u8>|
            compressible(input.len()) ==> block@ != #[trigger] snappy_block(input),
{
    snap::raw::Decoder::new().decompress_vec(block)
}

/// The write request that the body of a push holds: the body is read as one
/// Snappy block, and what comes out of it as a write request on the wire.
///
/// A body that `send_to_mimir` made of a request reads back as that request:
/// every time series with the same labels and the same samples, in the same
/// order.
pub fn read_push_body(body: &[u8]) -> (request: Option<WriteRequest>)
    ensures
        match snappy_raw(body@) {
            Some(raw) => match parse_request(raw, Seq::empty()) {
                Some(view) => request matches Some(r) && r@ == view,
                None => request is None,
            },
            None => request is None,
        },
        forall|sent: Seq<TimeSeriesView>|
            request_fits(sent) && compressible(request_bytes(sent).len()) && body@
                == #[trigger] snappy_block(request_bytes(sent)) ==> (request matches Some(r) && r@
                == sent),
{
    match snappy_decompress(body) {
        Ok(raw) => {
            proof {
                assert forall|sent: Seq<TimeSeriesView>|
                    request_fits(sent) && compressible(request_bytes(sent).len()) && body@
                        == #[trigger] snappy_block(request_bytes(sent)) implies parse_request(
                    raw@,
                    Seq::empty(),
                ) == Some(sent) by {
                    lemma_request_round_trip(sent);
                }
            }
            decode_write_request(raw.as_slice())
        },
        Err(_) => None,
    }
}

/// Whether a character can stand in a header value: a tab, or anything from
/// the space on but the delete character.
pub open spec fn header_char(c: char) -> bool {
    c == '\t' || (c as u32 >= 32 && c as u32 != 127)
}

/// Whether a text can stand as a header value.
pub open spec fn valid_header_value(text: Seq<char>) -> bool {
    forall|i: int| 0 <= i < text.len() ==> header_char(#[trigger] text[i])
}

/// Whether `text` can stand as a header value.
pub fn is_valid_header_value(text: &str) -> (valid: bool)
    ensures
        valid == valid_header_value(text@),
{
    let n = text.unicode_len();
    let mut i: usize = 0;
    while i < n
        invariant
            i <= n,
            n == text@.len(),
            forall|j: int| 0 <= j < i ==> header_char(#[trigger] text@[j]),
        decreases n - i,
    {
        let c = text.get_char(i);
        if !(c == '\t' || (c as u32 >= 32 && c as u32 != 127)) {
            return false;
        }
        i += 1;
    }
    true
}

/// The address a push goes to.
pub open spec fn push_url(endpoint: Seq<char>) -> Seq<char> {
    endpoint + "/api/v1/push"@
}

/// The headers of a push: the three fixed ones, then the tenant where one is
/// given.
pub open spec fn push_headers(tenant_id: Option<Seq<char>>) -> Seq<LabelView> {
    seq![
        LabelView { name: "Content-Encoding"@, value: "snappy"@ },
        LabelView { name: "Content-Type"@, value: "application/x-protobuf"@ },
        LabelView { name: "X-Prometheus-Remote-Write-Version"@, value: "0.1.0"@ },
    ] + match tenant_id {
        Some(id) => seq![LabelView { name: "X-Scope-OrgID"@, value: id }],
        None => seq![],
    }
}

/// What is to be sent for `metrics`, given the block that their encoding
/// compresses to.
///
/// Nothing for no metrics. Else one POST to the push address with the block
/// as its body, unless the encoding is too large to be compressed or the
/// tenant id cannot stand in a header.
pub open spec fn push_plan(
    endpoint: Seq<char>,
    tenant_id: Option<Seq<char>>,
    metrics: Seq<TimeSeriesView>,
    block: Seq<u8>,
) -> Result<Option<PushRequestView>, PushErrorView> {
    if metrics.len() == 0 {
        Ok(None)
    } else if !compressible(request_bytes(metrics).len()) {
        Err(PushErrorView::Transport(TransportFailure::PayloadTooLarge))
    } else if tenant_id matches Some(id) && !valid_header_value(id) {
        Err(PushErrorView::Transport(TransportFailure::TenantId))
    } else {
        Ok(
            Some(
                PushRequestView {
                    url: push_url(endpoint),
                    headers: push_headers(tenant_id),
                    body: block,
                },
            ),
        )
    }
}

/// The view of what `send_to_mimir` returns.
pub open spec fn plan_view(plan: Result<Option<PushRequest>, PushError>) -> Result<
    Option<PushRequestView>,
    PushErrorView,
> {
    match plan {
        Ok(Some(request)) => Ok(Some(request@)),
        Ok(None) => Ok(None),
        Err(error) => Err(error@),
    }
}

/// The view of an optional text.
pub open spec fn text_view(text: Option<&str>) -> Option<Seq<char>> {
    match text {
        Some(t) => Some(t@),
        None => None,
    }
}

/// A header.
fn header(name: &str, value: &str) -> (label: Label)
    ensures
        label@ == (LabelView { name: name@, value: value@ }),
{
    Label { name: String::from_str(name), value: String::from_str(value) }
}

/// The POST that carries `block` to `mimir_endpoint` for `tenant_id`. It
/// fails exactly where the tenant id cannot stand in a header.
pub fn push_request(mimir_endpoint: &str, tenant_id: Option<&str>, block: Vec<u8>) -> (request:
    Result<PushRequest, PushError>)
    ensures
        match request {
            Ok(r) => {
                &&& (tenant_id matches Some(id) ==> valid_header_value(id@))
                &&& r@ == (PushRequestView {
                    url: push_url(mimir_endpoint@),
                    headers: push_headers(text_view(tenant_id)),
                    body: block@,
                })
            },
            Err(error) => {
                &&& tenant_id matches Some(id) && !valid_header_value(id@)
                &&& error@ == PushErrorView::Transport(TransportFailure::TenantId)
            },
        },
{
    let mut headers: Vec<Label> = Vec::new();
    headers.push(header("Content-Encoding", "snappy"));
    headers.push(header("Content-Type", "application/x-protobuf"));
    headers.push(header("X-Prometheus-Remote-Write-Version", "0.1.0"));
    if let Some(id) = tenant_id {
        if !is_valid_header_value(id) {
            return Err(PushError::Transport(TransportFailure::TenantId));
        }
        headers.push(header("X-Scope-OrgID", id));
    }
    let url = String::from_str(mimir_endpoint).concat("/api/v1/push");
    proof {
        assert(labels_view(headers@) =~= push_headers(text_view(tenant_id)));
    }
    Ok(PushRequest { url, headers, body: block })
}

/// Prepares the push of `metrics` to `mimir_endpoint` for `tenant_id`.
///
/// With no metrics there is nothing to send. Otherwise the metrics are
/// wrapped into a write request, encoded, compressed into one Snappy block,
/// and handed back as the POST to make. No request is made here, and none is
/// ever retried. The metrics fit on the wire, so the body reads back as
/// them with `read_push_body`.
pub fn send_to_mimir(mimir_endpoint: &str, tenant_id: Option<&str>, metrics: Vec<TimeSeries>) -> (plan:
    Result<Option<PushRequest>, PushError>)
    ensures
        plan_view(plan) == push_plan(
            mimir_endpoint@,
            text_view(tenant_id),
            series_view(metrics@),
            snappy_block(request_bytes(series_view(metrics@))),
        ),
        request_fits(series_view(metrics@)),
{
    if metrics.len() == 0 {
        return Ok(None);
    }
    let write_request = WriteRequest { timeseries: metrics };
    let encoded = encode_write_request(&write_request);
    let block = match snappy_compress(encoded.as_slice()) {
        Ok(block) => block,
        Err(_) => {
            return Err(PushError::Transport(TransportFailure::PayloadTooLarge));
        },
    };
    match push_request(mimir_endpoint, tenant_id, block) {
        Ok(request) => Ok(Some(request)),
        Err(error) => Err(error),
    }
}

/// Whether a status counts as success: 200 to 299.
pub open spec fn is_success(status: u16) -> bool {
    200 <= status < 300
}

/// What the answer of the backend means for the push.
pub open spec fn response_outcome(status: u16, body: Seq<char>) -> Result<(), PushErrorView> {
    if is_success(status) {
        Ok(())
    } else {
        Err(PushErrorView::BackendRejected { status, body })
    }
}

/// What the answer of the backend means for the push: success for a status
/// from 200 to 299, else a rejection that carries the status and the body.
pub fn push_outcome(status: u16, body: String) -> (outcome: Result<(), PushError>)
    ensures
        match outcome {
            Ok(_) => response_outcome(status, body@) is Ok,
            Err(error) => response_outcome(status, body@) == Err::<(), PushErrorView>(error@),
        },
{
    if 200 <= status && status < 300 {
        Ok(())
    } else {
        Err(PushError::BackendRejected { status, body })
    }
}

} // verus!
