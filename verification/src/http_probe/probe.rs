//! One probe as a sequence of decisions.
//!
//! The caller does the network work and reads a monotonic clock; this module
//! decides, after every step, what was measured and what comes next. Clock
//! readings are nanoseconds on one monotonic clock. A reading that lies before
//! an earlier one counts as the earlier one, so no duration is ever negative.

use crate::config::probe_config::accepts;
use crate::config::probe_config::OrganisationConfig;
use crate::config::probe_config::TargetConfig;
use crate::http_probe::certificate::expiry;
use crate::http_probe::certificate::expiry_of;
use crate::http_probe::certificate::x509_not_after;
use crate::http_probe::certificate::ParseError;
use crate::http_probe::result::HttpVersion;
use crate::http_probe::result::IpAddress;
use crate::http_probe::endpoint::is_https;
use crate::http_probe::endpoint::is_https_url;
use crate::http_probe::endpoint::parse_host;
use crate::http_probe::endpoint::url_host;
use crate::http_probe::result::phase_sum;
use crate::http_probe::result::present;
use crate::http_probe::result::ProbeError;
use crate::http_probe::result::ProbeResult;
use crate::http_probe::result::ProbeResultView;
use crate::http_probe::result::failed_result;
use crate::ieee754::nearest_bits;
use crate::ieee754::nearest_double;
use crate::mimir::client::plan_view;
use crate::mimir::client::push_plan;
use crate::mimir::client::sample_timestamp;
use crate::mimir::client::send_to_mimir;
use crate::mimir::client::series_view;
use crate::mimir::client::snappy_block;
use crate::mimir::client::PushError;
use crate::mimir::client::PushErrorView;
use crate::mimir::client::PushRequest;
use crate::mimir::client::PushRequestView;
use crate::mimir::probe_metrics;
use crate::mimir::probe_metrics_at;
use crate::mimir::wire::request_bytes;
use vstd::prelude::*;
use vstd::string::*;

verus! {

/// What the connection phases of a probe measured.
#[derive(Clone, Copy, Debug, PartialEq, Eq)]
pub struct HttpProbeResult {
    /// Time taken by DNS resolution, in nanoseconds.
    pub dns_time: Option<u64>,
    /// The expiry instant of the peer certificate, in seconds since the Unix
    /// epoch.
    pub cert_validity_seconds: Option<i64>,
    /// Time taken to open the TCP connection, in nanoseconds.
    pub connect_time: Option<u64>,
    /// Time taken by the TLS handshake, in nanoseconds.
    pub tls_time: Option<u64>,
}

/// Where the connection phases stand, with what was measured so far.
#[derive(Clone, Copy, Debug, PartialEq, Eq)]
pub enum ConnectStage {
    /// The host is being resolved.
    Resolving,
    /// The TCP connection is being opened.
    Connecting { dns_time: u64 },
    /// The TLS handshake is under way.
    Handshaking { dns_time: u64, connect_time: u64 },
    /// The peer certificate is being retrieved.
    Inspecting { dns_time: u64, connect_time: u64, tls_time: u64 },
    /// The connection phases have ended.
    Finished,
}

/// The state of the connection phases of one probe.
#[derive(Clone, Copy, Debug, PartialEq, Eq)]
pub struct ConnectState {
    /// Whether the target is probed over TLS.
    pub with_tls: bool,
    /// The clock reading at which the probe began.
    pub started: u64,
    /// The clock reading at which the phase in progress began.
    pub clock: u64,
    /// The phase in progress.
    pub stage: ConnectStage,
}

/// What the caller reports back after a step of the connection phases.
#[derive(Clone, Debug, PartialEq, Eq)]
pub enum ConnectEvent {
    /// The resolver answered with these addresses, in its order.
    Resolved { addresses: Vec<IpAddress> },
    /// The resolver failed.
    ResolveFailed,
    /// The TCP connection is open.
    Connected,
    /// The TCP connection could not be opened.
    ConnectFailed,
    /// The TLS handshake succeeded.
    HandshakeDone,
    /// The TLS handshake failed.
    HandshakeFailed,
    /// The peer presented this certificate, DER-encoded.
    Certificate { der: Vec<u8> },
    /// The peer certificate could not be retrieved.
    CertificateUnavailable,
}

/// What the caller is to do next in the connection phases.
#[derive(Clone, Copy, Debug, PartialEq, Eq)]
pub enum ConnectAction {
    /// Resolve the host.
    Resolve,
    /// Open a TCP connection.
    Connect { address: IpAddress, port: u16 },
    /// Perform the TLS handshake over the open connection.
    Handshake,
    /// Retrieve the peer's leaf certificate.
    FetchCertificate,
    /// The connection phases are over, with this outcome.
    Done(Result<HttpProbeResult, ProbeError>),
    /// The connection phases were over already: nothing is left to do.
    Nothing,
}

/// The later of two clock readings.
pub open spec fn later(clock: u64, now: u64) -> u64 {
    if now > clock {
        now
    } else {
        clock
    }
}

/// The port to connect to: 443 with TLS, 80 without.
pub open spec fn target_port(with_tls: bool) -> u16 {
    if with_tls {
        443
    } else {
        80
    }
}

/// The failure that stands for the phase in progress.
pub open spec fn stage_error(stage: ConnectStage) -> ProbeError {
    match stage {
        ConnectStage::Resolving => ProbeError::DnsFailure,
        ConnectStage::Connecting { .. } => ProbeError::ConnectFailure,
        ConnectStage::Handshaking { .. } => ProbeError::TlsFailure,
        ConnectStage::Inspecting { .. } => ProbeError::CertFailure,
        ConnectStage::Finished => ProbeError::CertFailure,
    }
}

/// The state in which the connection phases begin at clock reading `now`.
pub open spec fn connect_start(with_tls: bool, now: u64) -> ConnectState {
    ConnectState { with_tls, started: now, clock: now, stage: ConnectStage::Resolving }
}

/// The connection phases ended at `clock` with `outcome`.
pub open spec fn connect_end(
    state: ConnectState,
    clock: u64,
    outcome: Result<HttpProbeResult, ProbeError>,
) -> (ConnectState, ConnectAction) {
    (ConnectState { clock, stage: ConnectStage::Finished, ..state }, ConnectAction::Done(outcome))
}

/// The step taken once the certificate was inspected with outcome `expiry`.
///
/// Outside the inspection phase this is the failure of the phase in progress.
pub open spec fn inspection_step(state: ConnectState, expiry: Result<i64, ParseError>, now: u64) -> (
    ConnectState,
    ConnectAction,
) {
    let clock = later(state.clock, now);
    match (state.stage, expiry) {
        (ConnectStage::Finished, _) => (state, ConnectAction::Nothing),
        (ConnectStage::Inspecting { dns_time, connect_time, tls_time }, Ok(seconds)) => connect_end(
            state,
            clock,
            Ok(
                HttpProbeResult {
                    dns_time: Some(dns_time),
                    cert_validity_seconds: Some(seconds),
                    connect_time: Some(connect_time),
                    tls_time: Some(tls_time),
                },
            ),
        ),
        _ => connect_end(state, clock, Err(stage_error(state.stage))),
    }
}

/// One step of the connection phases: the state after `event` arrived at clock
/// reading `now`, and what to do next.
///
/// Each phase lasts from the reading at which it began to the reading at
/// which its event arrived. The first resolved address is the one connected
/// to. An event that does not report the success of the phase in progress ends
/// the phases with that phase's failure.
pub open spec fn connect_step(state: ConnectState, event: ConnectEvent, now: u64) -> (
    ConnectState,
    ConnectAction,
) {
    let clock = later(state.clock, now);
    let elapsed = (clock - state.clock) as u64;
    match (state.stage, event) {
        (ConnectStage::Finished, _) => (state, ConnectAction::Nothing),
        (ConnectStage::Resolving, ConnectEvent::Resolved { addresses }) => if addresses@.len()
            > 0 {
            (
                ConnectState { clock, stage: ConnectStage::Connecting { dns_time: elapsed }, ..state },
                ConnectAction::Connect {
                    address: addresses@[0],
                    port: target_port(state.with_tls),
                },
            )
        } else {
            connect_end(state, clock, Err(ProbeError::DnsFailure))
        },
        (ConnectStage::Connecting { dns_time }, ConnectEvent::Connected) => if state.with_tls {
            (
                ConnectState {
                    clock,
                    stage: ConnectStage::Handshaking { dns_time, connect_time: elapsed },
                    ..state
                },
                ConnectAction::Handshake,
            )
        } else {
            connect_end(
                state,
                clock,
                Ok(
                    HttpProbeResult {
                        dns_time: Some(dns_time),
                        cert_validity_seconds: None,
                        connect_time: Some(elapsed),
                        tls_time: None,
                    },
                ),
            )
        },
        (
            ConnectStage::Handshaking { dns_time, connect_time },
            ConnectEvent::HandshakeDone,
        ) => (
            ConnectState {
                clock,
                stage: ConnectStage::Inspecting { dns_time, connect_time, tls_time: elapsed },
                ..state
            },
            ConnectAction::FetchCertificate,
        ),
        (ConnectStage::Inspecting { .. }, ConnectEvent::Certificate { der }) => inspection_step(
            state,
            expiry_of(x509_not_after(der@)),
            now,
        ),
        _ => connect_end(state, clock, Err(stage_error(state.stage))),
    }
}

/// The later of two clock readings.
pub fn later_reading(clock: u64, now: u64) -> (reading: u64)
    ensures
        reading == later(clock, now),
{
    if now > clock {
        now
    } else {
        clock
    }
}

impl ConnectState {
    /// The state in which the connection phases begin at clock reading `now`;
    /// the first thing to do is to resolve the host.
    pub fn start(with_tls: bool, now: u64) -> (state: ConnectState)
        ensures
            state == connect_start(with_tls, now),
    {
        ConnectState { with_tls, started: now, clock: now, stage: ConnectStage::Resolving }
    }

    /// The failure that stands for the phase in progress.
    pub fn failure(&self) -> (error: ProbeError)
        ensures
            error == stage_error(self.stage),
    {
        match self.stage {
            ConnectStage::Resolving => ProbeError::DnsFailure,
            ConnectStage::Connecting { .. } => ProbeError::ConnectFailure,
            ConnectStage::Handshaking { .. } => ProbeError::TlsFailure,
            ConnectStage::Inspecting { .. } => ProbeError::CertFailure,
            ConnectStage::Finished => ProbeError::CertFailure,
        }
    }

    /// Ends the phases at `clock` with `outcome`.
    fn end(self, clock: u64, outcome: Result<HttpProbeResult, ProbeError>) -> (step: (
        ConnectState,
        ConnectAction,
    ))
        ensures
            step == connect_end(self, clock, outcome),
    {
        (
            ConnectState {
                with_tls: self.with_tls,
                started: self.started,
                clock,
                stage: ConnectStage::Finished,
            },
            ConnectAction::Done(outcome),
        )
    }

    /// Moves on to `stage` at `clock`, with `action` to do next.
    fn proceed(self, clock: u64, stage: ConnectStage, action: ConnectAction) -> (step: (
        ConnectState,
        ConnectAction,
    ))
        ensures
            step == (ConnectState { clock, stage, ..self }, action),
    {
        (ConnectState { with_tls: self.with_tls, started: self.started, clock, stage }, action)
    }
}

/// The step taken once the peer certificate was inspected with outcome
/// `expiry`: the connection phases end, with the measurements and the expiry
/// instant where there is one, else with `ProbeError::CertFailure`.
pub fn conclude_inspection(state: ConnectState, expiry: Result<i64, ParseError>, now: u64) -> (step:
    (ConnectState, ConnectAction))
    ensures
        step == inspection_step(state, expiry, now),
{
    let clock = later_reading(state.clock, now);
    match state.stage {
        ConnectStage::Finished => (state, ConnectAction::Nothing),
        ConnectStage::Inspecting { dns_time, connect_time, tls_time } => match expiry {
            Ok(seconds) => state.end(
                clock,
                Ok(
                    HttpProbeResult {
                        dns_time: Some(dns_time),
                        cert_validity_seconds: Some(seconds),
                        connect_time: Some(connect_time),
                        tls_time: Some(tls_time),
                    },
                ),
            ),
            Err(_) => state.end(clock, Err(ProbeError::CertFailure)),
        },
        _ => {
            let error = state.failure();
            state.end(clock, Err(error))
        },
    }
}

/// One step of the connection phases of a probe: DNS resolution, TCP connect
/// and, with TLS, the handshake and the inspection of the peer certificate.
///
/// Takes the state, the event the caller reports and the clock reading at
/// which it arrived; gives the next state and what to do next.
pub fn get_connect_timings(state: ConnectState, event: ConnectEvent, now: u64) -> (step: (
    ConnectState,
    ConnectAction,
))
    ensures
        step == connect_step(state, event, now),
{
    let clock = later_reading(state.clock, now);
    let elapsed = clock - state.clock;
    match state.stage {
        ConnectStage::Finished => (state, ConnectAction::Nothing),
        ConnectStage::Resolving => match event {
            ConnectEvent::Resolved { addresses } => {
                if addresses.len() > 0 {
                    let port: u16 = if state.with_tls {
                        443
                    } else {
                        80
                    };
                    state.proceed(
                        clock,
                        ConnectStage::Connecting { dns_time: elapsed },
                        ConnectAction::Connect { address: addresses[0], port },
                    )
                } else {
                    state.end(clock, Err(ProbeError::DnsFailure))
                }
            },
            _ => state.end(clock, Err(ProbeError::DnsFailure)),
        },
        ConnectStage::Connecting { dns_time } => match event {
            ConnectEvent::Connected => {
                if state.with_tls {
                    state.proceed(
                        clock,
                        ConnectStage::Handshaking { dns_time, connect_time: elapsed },
                        ConnectAction::Handshake,
                    )
                } else {
                    state.end(
                        clock,
                        Ok(
                            HttpProbeResult {
                                dns_time: Some(dns_time),
                                cert_validity_seconds: None,
                                connect_time: Some(elapsed),
                                tls_time: None,
                            },
                        ),
                    )
                }
            },
            _ => state.end(clock, Err(ProbeError::ConnectFailure)),
        },
        ConnectStage::Handshaking { dns_time, connect_time } => match event {
            ConnectEvent::HandshakeDone => state.proceed(
                clock,
                ConnectStage::Inspecting { dns_time, connect_time, tls_time: elapsed },
                ConnectAction::FetchCertificate,
            ),
            _ => state.end(clock, Err(ProbeError::TlsFailure)),
        },
        ConnectStage::Inspecting { .. } => match event {
            ConnectEvent::Certificate { der } => {
                let inspected = expiry(der.as_slice());
                conclude_inspection(state, inspected, now)
            },
            _ => state.end(clock, Err(ProbeError::CertFailure)),
        },
    }
}

/// Where a probe stands, with what was measured so far.
#[derive(Clone, Copy, Debug, PartialEq, Eq)]
pub enum ProbeStage {
    /// The connection phases are under way.
    Connecting(ConnectState),
    /// The HTTP request was sent at `since`; its response is awaited.
    Requesting { timings: HttpProbeResult, since: u64 },
    /// The response arrived at `since`; its body is being read.
    Transferring {
        timings: HttpProbeResult,
        processing_time: u64,
        http_status: u16,
        http_version: HttpVersion,
        since: u64,
    },
    /// The probe has ended.
    Finished,
}

/// The state of one probe.
#[derive(Debug)]
pub struct ProbeState {
    /// The URL that is probed.
    pub url: String,
    /// The host of the URL: what to resolve and whom to expect in the TLS
    /// handshake.
    pub host: String,
    /// The clock reading at which the probe began.
    pub started: u64,
    /// The phase in progress.
    pub stage: ProbeStage,
}

/// A `ProbeState` with its texts as sequences of characters.
pub struct ProbeStateView {
    pub url: Seq<char>,
    pub host: Seq<char>,
    pub started: u64,
    pub stage: ProbeStage,
}

impl View for ProbeState {
    type V = ProbeStateView;

    open spec fn view(&self) -> ProbeStateView {
        ProbeStateView { url: self.url@, host: self.host@, started: self.started, stage: self.stage }
    }
}

/// What the caller reports back after a step of a probe.
#[derive(Clone, Debug, PartialEq, Eq)]
pub enum ProbeEvent {
    /// An event of the connection phases.
    Connection(ConnectEvent),
    /// The first byte of the response arrived, with this status and version.
    ResponseReceived { http_status: u16, http_version: HttpVersion },
    /// The HTTP request failed.
    RequestFailed,
    /// The response body was read to its end.
    BodyRead,
    /// The response body could not be read.
    BodyFailed,
}

/// What the caller is to do next in a probe.
#[derive(Debug)]
pub enum ProbeAction {
    /// Resolve the host.
    Resolve,
    /// Open a TCP connection.
    Connect { address: IpAddress, port: u16 },
    /// Perform the TLS handshake over the open connection.
    Handshake,
    /// Retrieve the peer's leaf certificate.
    FetchCertificate,
    /// Send the HTTP request, over a client of its own.
    SendRequest,
    /// Read the response body to its end.
    ReadBody,
    /// The probe is over, with this outcome.
    Finish(Result<ProbeResult, ProbeError>),
    /// The probe was over already: nothing is left to do.
    Nothing,
}

/// A `ProbeAction` with its texts as sequences of characters.
pub enum ProbeActionView {
    Resolve,
    Connect { address: IpAddress, port: u16 },
    Handshake,
    FetchCertificate,
    SendRequest,
    ReadBody,
    Finish(Result<ProbeResultView, ProbeError>),
    Nothing,
}

impl View for ProbeAction {
    type V = ProbeActionView;

    open spec fn view(&self) -> ProbeActionView {
        match *self {
            ProbeAction::Resolve => ProbeActionView::Resolve,
            ProbeAction::Connect { address, port } => ProbeActionView::Connect { address, port },
            ProbeAction::Handshake => ProbeActionView::Handshake,
            ProbeAction::FetchCertificate => ProbeActionView::FetchCertificate,
            ProbeAction::SendRequest => ProbeActionView::SendRequest,
            ProbeAction::ReadBody => ProbeActionView::ReadBody,
            ProbeAction::Finish(Ok(result)) => ProbeActionView::Finish(Ok(result@)),
            ProbeAction::Finish(Err(error)) => ProbeActionView::Finish(Err(error)),
            ProbeAction::Nothing => ProbeActionView::Nothing,
        }
    }
}

/// The time spent on setting the connection up: resolution, connect and
/// handshake, as far as they were measured.
pub open spec fn setup_time(timings: HttpProbeResult) -> int {
    present(timings.dns_time) + present(timings.connect_time) + present(timings.tls_time)
}

/// The time to first byte net of the set-up time, floored at zero.
pub open spec fn net_processing_time(elapsed: u64, timings: HttpProbeResult) -> u64 {
    if elapsed > setup_time(timings) {
        (elapsed - setup_time(timings)) as u64
    } else {
        0
    }
}

/// The time from `started` to `clock`, zero where `clock` lies before.
pub open spec fn time_since(started: u64, clock: u64) -> u64 {
    if clock > started {
        (clock - started) as u64
    } else {
        0
    }
}

/// The probe ended with `outcome`.
pub open spec fn probe_end(state: ProbeStateView, outcome: Result<ProbeResultView, ProbeError>) -> (
    ProbeStateView,
    ProbeActionView,
) {
    (ProbeStateView { stage: ProbeStage::Finished, ..state }, ProbeActionView::Finish(outcome))
}

/// What a step of the connection phases means for the probe as a whole.
pub open spec fn after_connect_step(state: ProbeStateView, step: (ConnectState, ConnectAction)) -> (
    ProbeStateView,
    ProbeActionView,
) {
    let connecting = ProbeStateView { stage: ProbeStage::Connecting(step.0), ..state };
    match step.1 {
        ConnectAction::Resolve => (connecting, ProbeActionView::Resolve),
        ConnectAction::Connect { address, port } => (
            connecting,
            ProbeActionView::Connect { address, port },
        ),
        ConnectAction::Handshake => (connecting, ProbeActionView::Handshake),
        ConnectAction::FetchCertificate => (connecting, ProbeActionView::FetchCertificate),
        ConnectAction::Done(Ok(timings)) => (
            ProbeStateView { stage: ProbeStage::Requesting { timings, since: step.0.clock }, ..state },
            ProbeActionView::SendRequest,
        ),
        ConnectAction::Done(Err(error)) => probe_end(state, Err(error)),
        ConnectAction::Nothing => (connecting, ProbeActionView::Nothing),
    }
}

/// The result of a probe whose body was read to its end at `clock`.
pub open spec fn completed_result(
    state: ProbeStateView,
    timings: HttpProbeResult,
    processing_time: u64,
    http_status: u16,
    http_version: HttpVersion,
    since: u64,
    clock: u64,
) -> ProbeResultView {
    ProbeResultView {
        url: state.url,
        dns_time: timings.dns_time,
        connect_time: timings.connect_time,
        tls_time: timings.tls_time,
        http_status: Some(http_status),
        http_version: Some(http_version),
        cert_validity_seconds: timings.cert_validity_seconds,
        processing_time: Some(processing_time),
        transfer_time: Some((clock - since) as u64),
        total_probe_time: time_since(state.started, clock),
    }
}

/// How a probe of `url` begins at clock reading `now`, given the host that
/// was read from the URL.
///
/// Without a host, or with an empty one, the probe is over at once with
/// `ProbeError::InvalidUrl`. Otherwise the host is to be resolved, and the
/// target is probed over TLS exactly where the scheme of the URL is `https`.
pub open spec fn probe_begin(url: Seq<char>, host: Option<Seq<char>>, now: u64) -> (
    ProbeStateView,
    ProbeActionView,
) {
    let name = match host {
        Some(name) => name,
        None => Seq::empty(),
    };
    if name.len() == 0 {
        (
            ProbeStateView { url, host: name, started: now, stage: ProbeStage::Finished },
            ProbeActionView::Finish(Err(ProbeError::InvalidUrl)),
        )
    } else {
        (
            ProbeStateView {
                url,
                host: name,
                started: now,
                stage: ProbeStage::Connecting(connect_start(is_https(url), now)),
            },
            ProbeActionView::Resolve,
        )
    }
}

/// One step of a probe: the state after `event` arrived at clock reading
/// `now`, and what to do next.
///
/// The connection phases come first. Then the request is sent: the time to
/// first byte is the time from sending to the arrival of the response, less
/// the set-up time already measured, floored at zero. Then the body is read:
/// the transfer time is the time that takes, and the total is the time since
/// the probe began. An event that does not report the success of the phase in
/// progress ends the probe with that phase's failure.
pub open spec fn probe_step(state: ProbeStateView, event: ProbeEvent, now: u64) -> (
    ProbeStateView,
    ProbeActionView,
) {
    match (state.stage, event) {
        (ProbeStage::Finished, _) => (state, ProbeActionView::Nothing),
        (ProbeStage::Connecting(connect), ProbeEvent::Connection(event)) => after_connect_step(
            state,
            connect_step(connect, event, now),
        ),
        (ProbeStage::Connecting(connect), _) => if connect.stage is Finished {
            (state, ProbeActionView::Nothing)
        } else {
            probe_end(state, Err(stage_error(connect.stage)))
        },
        (
            ProbeStage::Requesting { timings, since },
            ProbeEvent::ResponseReceived { http_status, http_version },
        ) => {
            let clock = later(since, now);
            (
                ProbeStateView {
                    stage: ProbeStage::Transferring {
                        timings,
                        processing_time: net_processing_time((clock - since) as u64, timings),
                        http_status,
                        http_version,
                        since: clock,
                    },
                    ..state
                },
                ProbeActionView::ReadBody,
            )
        },
        (
            ProbeStage::Transferring { timings, processing_time, http_status, http_version, since },
            ProbeEvent::BodyRead,
        ) => probe_end(
            state,
            Ok(
                completed_result(
                    state,
                    timings,
                    processing_time,
                    http_status,
                    http_version,
                    since,
                    later(since, now),
                ),
            ),
        ),
        _ => probe_end(state, Err(ProbeError::HttpFailure)),
    }
}

/// How a probe of `url` begins at clock reading `now`, given the host that
/// was read from the URL: with the resolution of the host, or, where there is
/// no host, with its end as `ProbeError::InvalidUrl`.
pub fn begin_probe(url: &str, host: Option<String>, now: u64) -> (step: (ProbeState, ProbeAction))
    ensures
        (step.0@, step.1@) == probe_begin(
            url@,
            match host {
                Some(name) => Some(name@),
                None => None,
            },
            now,
        ),
{
    let name = match host {
        Some(name) => name,
        None => String::new(),
    };
    if name.as_str().unicode_len() == 0 {
        (
            ProbeState {
                url: String::from_str(url),
                host: name,
                started: now,
                stage: ProbeStage::Finished,
            },
            ProbeAction::Finish(Err(ProbeError::InvalidUrl)),
        )
    } else {
        let connect = ConnectState::start(is_https_url(url), now);
        (
            ProbeState {
                url: String::from_str(url),
                host: name,
                started: now,
                stage: ProbeStage::Connecting(connect),
            },
            ProbeAction::Resolve,
        )
    }
}

/// Begins a probe of `url` at clock reading `now`.
///
/// The host is read from the URL. Without one the probe is over at once with
/// `ProbeError::InvalidUrl`; otherwise the first thing to do is to resolve it.
/// Every later step is taken with `ProbeState::advance`.
pub fn probe_url(url: &str, now: u64) -> (step: (ProbeState, ProbeAction))
    ensures
        (step.0@, step.1@) == probe_begin(url@, url_host(url@), now),
{
    let host = parse_host(url);
    begin_probe(url, host, now)
}

impl ProbeState {
    /// Ends the probe with `outcome`.
    fn end(self, outcome: Result<ProbeResult, ProbeError>) -> (step: (ProbeState, ProbeAction))
        ensures
            (step.0@, step.1@) == probe_end(
                self@,
                match outcome {
                    Ok(result) => Ok(result@),
                    Err(error) => Err(error),
                },
            ),
    {
        (
            ProbeState {
                url: self.url,
                host: self.host,
                started: self.started,
                stage: ProbeStage::Finished,
            },
            ProbeAction::Finish(outcome),
        )
    }

    /// Moves on to `stage`, with `action` to do next.
    fn proceed(self, stage: ProbeStage, action: ProbeAction) -> (step: (ProbeState, ProbeAction))
        ensures
            step.0@ == (ProbeStateView { stage, ..self@ }),
            step.1 == action,
    {
        (ProbeState { url: self.url, host: self.host, started: self.started, stage }, action)
    }

    /// What a step of the connection phases means for the probe as a whole.
    fn after_connect(self, connect: ConnectState, action: ConnectAction) -> (step: (
        ProbeState,
        ProbeAction,
    ))
        ensures
            (step.0@, step.1@) == after_connect_step(self@, (connect, action)),
    {
        match action {
            ConnectAction::Resolve => self.proceed(
                ProbeStage::Connecting(connect),
                ProbeAction::Resolve,
            ),
            ConnectAction::Connect { address, port } => self.proceed(
                ProbeStage::Connecting(connect),
                ProbeAction::Connect { address, port },
            ),
            ConnectAction::Handshake => self.proceed(
                ProbeStage::Connecting(connect),
                ProbeAction::Handshake,
            ),
            ConnectAction::FetchCertificate => self.proceed(
                ProbeStage::Connecting(connect),
                ProbeAction::FetchCertificate,
            ),
            ConnectAction::Done(Ok(timings)) => self.proceed(
                ProbeStage::Requesting { timings, since: connect.clock },
                ProbeAction::SendRequest,
            ),
            ConnectAction::Done(Err(error)) => self.end(Err(error)),
            ConnectAction::Nothing => self.proceed(
                ProbeStage::Connecting(connect),
                ProbeAction::Nothing,
            ),
        }
    }

    /// One step of the probe: takes the event the caller reports and the
    /// clock reading at which it arrived; gives the next state and what to do
    /// next. The probe is over once the action is `ProbeAction::Finish`.
    pub fn advance(self, event: ProbeEvent, now: u64) -> (step: (ProbeState, ProbeAction))
        ensures
            (step.0@, step.1@) == probe_step(self@, event, now),
    {
        match self.stage {
            ProbeStage::Finished => (self, ProbeAction::Nothing),
            ProbeStage::Connecting(connect) => match event {
                ProbeEvent::Connection(event) => {
                    let (next, action) = get_connect_timings(connect, event, now);
                    self.after_connect(next, action)
                },
                _ => match connect.stage {
                    ConnectStage::Finished => (self, ProbeAction::Nothing),
                    _ => {
                        let error = connect.failure();
                        self.end(Err(error))
                    },
                },
            },
            ProbeStage::Requesting { timings, since } => match event {
                ProbeEvent::ResponseReceived { http_status, http_version } => {
                    let clock = later_reading(since, now);
                    let processing_time = net_time(clock - since, &timings);
                    self.proceed(
                        ProbeStage::Transferring {
                            timings,
                            processing_time,
                            http_status,
                            http_version,
                            since: clock,
                        },
                        ProbeAction::ReadBody,
                    )
                },
                _ => self.end(Err(ProbeError::HttpFailure)),
            },
            ProbeStage::Transferring {
                timings,
                processing_time,
                http_status,
                http_version,
                since,
            } => match event {
                ProbeEvent::BodyRead => {
                    let clock = later_reading(since, now);
                    let total_probe_time = if clock > self.started {
                        clock - self.started
                    } else {
                        0
                    };
                    let result = ProbeResult {
                        url: self.url.clone(),
                        dns_time: timings.dns_time,
                        connect_time: timings.connect_time,
                        tls_time: timings.tls_time,
                        http_status: Some(http_status),
                        http_version: Some(http_version),
                        cert_validity_seconds: timings.cert_validity_seconds,
                        processing_time: Some(processing_time),
                        transfer_time: Some(clock - since),
                        total_probe_time,
                    };
                    self.end(Ok(result))
                },
                _ => self.end(Err(ProbeError::HttpFailure)),
            },
        }
    }
}

/// A duration, or zero where there is none, widened.
fn present_or_zero(duration: Option<u64>) -> (nanos: u128)
    ensures
        nanos == present(duration),
{
    match duration {
        Some(d) => d as u128,
        None => 0,
    }
}

/// The time to first byte net of the set-up time, floored at zero.
pub fn net_time(elapsed: u64, timings: &HttpProbeResult) -> (net: u64)
    ensures
        net == net_processing_time(elapsed, *timings),
{
    let setup: u128 = present_or_zero(timings.dns_time) + present_or_zero(timings.connect_time)
        + present_or_zero(timings.tls_time);
    if elapsed as u128 > setup {
        (elapsed as u128 - setup) as u64
    } else {
        0
    }
}

/// Whether the measurements of a connection state fit the time that passed:
/// the phases measured so far lie between the start of the probe and the
/// start of the phase in progress, and a handshake implies TLS.
pub open spec fn connect_valid(state: ConnectState) -> bool {
    &&& state.started <= state.clock
    &&& match state.stage {
        ConnectStage::Resolving => true,
        ConnectStage::Connecting { dns_time } => dns_time <= state.clock - state.started,
        ConnectStage::Handshaking { dns_time, connect_time } => state.with_tls && dns_time
            + connect_time <= state.clock - state.started,
        ConnectStage::Inspecting { dns_time, connect_time, tls_time } => state.with_tls && dns_time
            + connect_time + tls_time <= state.clock - state.started,
        ConnectStage::Finished => true,
    }
}

/// Whether `timings` are those of completed connection phases that took at
/// most `budget`: resolution and connect were measured, and the handshake and
/// the certificate exactly with TLS.
pub open spec fn timings_valid(timings: HttpProbeResult, with_tls: bool, budget: int) -> bool {
    &&& timings.dns_time is Some
    &&& timings.connect_time is Some
    &&& timings.tls_time is Some <==> with_tls
    &&& timings.cert_validity_seconds is Some <==> with_tls
    &&& setup_time(timings) <= budget
}

/// Whether a probe state is one that a probe can be in: its measurements fit
/// the time that passed, and it is probed over TLS exactly where the scheme
/// of its URL is `https`.
pub open spec fn probe_valid(state: ProbeStateView) -> bool {
    match state.stage {
        ProbeStage::Connecting(connect) => {
            &&& connect_valid(connect)
            &&& connect.started == state.started
            &&& connect.with_tls == is_https(state.url)
        },
        ProbeStage::Requesting { timings, since } => {
            &&& state.started <= since
            &&& timings_valid(timings, is_https(state.url), since - state.started)
        },
        ProbeStage::Transferring { timings, processing_time, since, .. } => {
            &&& state.started <= since
            &&& timings_valid(timings, is_https(state.url), since - state.started)
            &&& setup_time(timings) + processing_time <= since - state.started
        },
        ProbeStage::Finished => true,
    }
}

/// A step of the connection phases keeps a valid state valid, and phases that
/// end well hand on valid timings.
pub proof fn lemma_connect_step_valid(state: ConnectState, event: ConnectEvent, now: u64)
    requires
        connect_valid(state),
    ensures
        connect_valid(connect_step(state, event, now).0),
        connect_step(state, event, now).0.started == state.started,
        connect_step(state, event, now).0.with_tls == state.with_tls,
        connect_step(state, event, now).1 matches ConnectAction::Done(Ok(timings))
            ==> timings_valid(
            timings,
            state.with_tls,
            connect_step(state, event, now).0.clock - state.started,
        ),
{
}

/// A probe begins in a valid state.
pub proof fn lemma_probe_begin_valid(url: Seq<char>, host: Option<Seq<char>>, now: u64)
    ensures
        probe_valid(probe_begin(url, host, now).0),
        probe_begin(url, host, now).0.url == url,
{
}

/// A step of a probe keeps a valid state valid and leaves its URL alone.
pub proof fn lemma_probe_step_valid(state: ProbeStateView, event: ProbeEvent, now: u64)
    requires
        probe_valid(state),
    ensures
        probe_valid(probe_step(state, event, now).0),
        probe_step(state, event, now).0.url == state.url,
        probe_step(state, event, now).0.started == state.started,
{
    if let (ProbeStage::Connecting(connect), ProbeEvent::Connection(event)) = (state.stage, event) {
        lemma_connect_step_valid(connect, event, now);
    }
}

/// What holds of the result of every probe that ends well.
///
/// The result is for the probed URL. The handshake time and the certificate
/// expiry are present exactly where the scheme of the URL is `https`; every
/// other field is present. The phases are parts of the whole: their durations
/// add up to no more than the total.
pub proof fn lemma_successful_probe(state: ProbeStateView, event: ProbeEvent, now: u64)
    requires
        probe_valid(state),
    ensures
        probe_step(state, event, now).1 matches ProbeActionView::Finish(Ok(result)) ==> {
            &&& result.url == state.url
            &&& result.tls_time is Some <==> is_https(state.url)
            &&& result.cert_validity_seconds is Some <==> is_https(state.url)
            &&& result.dns_time is Some
            &&& result.connect_time is Some
            &&& result.processing_time is Some
            &&& result.transfer_time is Some
            &&& result.http_status is Some
            &&& result.http_version is Some
            &&& phase_sum(result) <= result.total_probe_time
        },
{
}

/// Whatever is reported of a probe of a URL whose scheme is not `https`, be
/// it the result of the probe or what stands for its failure, holds neither
/// a handshake time nor a certificate expiry.
pub proof fn lemma_plaintext_probe_has_no_tls(state: ProbeStateView, event: ProbeEvent, now: u64)
    requires
        probe_valid(state),
        !is_https(state.url),
    ensures
        probe_step(state, event, now).1 matches ProbeActionView::Finish(outcome) ==> {
            &&& reported_result(state.url, outcome).tls_time is None
            &&& reported_result(state.url, outcome).cert_validity_seconds is None
        },
{
    lemma_successful_probe(state, event, now);
}

/// Whether a probe counts as healthy: it has a status, and the target
/// accepts it.
pub open spec fn is_accepted(accepted: Seq<u16>, http_status: Option<u16>) -> bool {
    match http_status {
        Some(code) => accepts(accepted, code),
        None => false,
    }
}

/// What is reported of a probe of `url`: its result, or, where it failed, the
/// result that stands for a failed probe.
pub open spec fn reported_result(url: Seq<char>, outcome: Result<ProbeResultView, ProbeError>)
    -> ProbeResultView {
    match outcome {
        Ok(result) => result,
        Err(_) => failed_result(url),
    }
}

/// Whether a probe with this outcome is reported as a success: it ended
/// well, and with a status that is accepted.
pub open spec fn reported_success(accepted: Seq<u16>, outcome: Result<ProbeResultView, ProbeError>)
    -> bool {
    match outcome {
        Ok(result) => is_accepted(accepted, result.http_status),
        Err(_) => false,
    }
}

/// The view of the outcome of a probe.
pub open spec fn outcome_view(outcome: Result<ProbeResult, ProbeError>) -> Result<
    ProbeResultView,
    ProbeError,
> {
    match outcome {
        Ok(result) => Ok(result@),
        Err(error) => Err(error),
    }
}

/// What became of the probe of one target: what is reported, and what is to
/// be sent.
#[derive(Debug)]
pub struct TargetReport {
    /// Whether the probe is reported as a success.
    pub accepted: bool,
    /// The result that is reported.
    pub probe: ProbeResult,
    /// The push to make: a request, nothing, or the reason why none can be
    /// made.
    pub push: Result<Option<PushRequest>, PushError>,
}

/// What is decided for a target once its probe is over, with the samples
/// stamped `timestamp`.
///
/// A probe that ended well is reported as it is, and as a success exactly
/// where its status is one the target accepts. A probe that failed is
/// reported all the same: as a result with nothing measured, and as no
/// success. Either way the series of the result are pushed for the
/// organisation.
pub fn target_report_at(
    org_id: &str,
    target: &TargetConfig,
    outcome: Result<ProbeResult, ProbeError>,
    mimir_target: &str,
    timestamp: i64,
) -> (report: TargetReport)
    ensures
        report.accepted == reported_success(target.accepted_status_codes@, outcome_view(outcome)),
        report.probe@ == reported_result(target.url@, outcome_view(outcome)),
        plan_view(report.push) == push_plan(
            mimir_target@,
            Some(org_id@),
            probe_metrics(report.probe@, report.accepted, timestamp),
            snappy_block(request_bytes(probe_metrics(report.probe@, report.accepted, timestamp))),
        ),
{
    let (probe, accepted) = match outcome {
        Ok(probe) => {
            let accepted = match probe.http_status {
                Some(code) => target.accepts_status(code),
                None => false,
            };
            (probe, accepted)
        },
        Err(_) => (ProbeResult::failed(target.url.clone()), false),
    };
    let metrics = probe_metrics_at(&probe, accepted, timestamp);
    let push = send_to_mimir(mimir_target, Some(org_id), metrics);
    TargetReport { accepted, probe, push }
}

/// Whether a task that was launched `elapsed` nanoseconds ago has run out
/// of its time: the timeout of a task is the polling interval.
pub open spec fn timed_out(timeout_seconds: u64, elapsed: u64) -> bool {
    elapsed >= interval_nanos(timeout_seconds)
}

/// Whether a task that was launched `elapsed` nanoseconds ago has run out of
/// its time.
pub fn is_timed_out(timeout_seconds: u64, elapsed: u64) -> (late: bool)
    ensures
        late == timed_out(timeout_seconds, elapsed),
{
    elapsed as u128 >= timeout_seconds as u128 * 1_000_000_000
}

/// What is decided for a target once its probe is over, `elapsed`
/// nanoseconds after its task was launched with a timeout of
/// `timeout_seconds`.
///
/// A probe that is over only when its time has run out is abandoned:
/// nothing is reported of it and nothing is pushed, neither its result nor
/// what stands for a failure. Of a probe that is over in time, what is
/// reported and the push to make are those of `target_report_at`, the samples
/// stamped with the wall-clock time at which this function ran.
pub fn handle_target_probe(
    org_id: &str,
    target: &TargetConfig,
    outcome: Result<ProbeResult, ProbeError>,
    timeout_seconds: u64,
    elapsed: u64,
    mimir_target: &str,
) -> (report: Option<TargetReport>)
    ensures
        report is None <==> timed_out(timeout_seconds, elapsed),
        report matches Some(made) ==> {
            &&& made.accepted == reported_success(
                target.accepted_status_codes@,
                outcome_view(outcome),
            )
            &&& made.probe@ == reported_result(target.url@, outcome_view(outcome))
            &&& exists|timestamp: i64|
                plan_view(made.push) == push_plan(
                    mimir_target@,
                    Some(org_id@),
                    #[trigger] probe_metrics(made.probe@, made.accepted, timestamp),
                    snappy_block(
                        request_bytes(probe_metrics(made.probe@, made.accepted, timestamp)),
                    ),
                )
        },
{
    if is_timed_out(timeout_seconds, elapsed) {
        None
    } else {
        let timestamp = sample_timestamp(None);
        Some(target_report_at(org_id, target, outcome, mimir_target, timestamp))
    }
}

/// Where the probe loop of an organisation stands.
#[derive(Clone, Copy, Debug, PartialEq, Eq)]
pub enum LoopState {
    /// No cycle has begun yet.
    Idle,
    /// A cycle is under way: it began at `started`, and `pending` of its
    /// probes have not ended yet.
    Running { cycle: u64, started: u64, pending: usize },
    /// The cycle is over; the loop sleeps until the next one is due.
    Sleeping { cycle: u64 },
}

/// How the task of one target ended.
#[derive(Clone, Copy, Debug, PartialEq, Eq)]
pub enum TaskOutcome {
    /// The probe ran to its end, and its metrics were handed on.
    Completed,
    /// The probe took longer than the polling interval and was abandoned.
    TimedOut,
    /// The task broke down.
    Panicked,
}

/// What the caller reports to the probe loop.
#[derive(Clone, Copy, Debug, PartialEq, Eq)]
pub enum LoopEvent {
    /// It is time for a cycle: the loop was started, or its sleep is over.
    Tick,
    /// The task of one target has ended.
    TargetFinished(TaskOutcome),
}

/// What the caller is to do next for the probe loop.
#[derive(Clone, Copy, Debug, PartialEq, Eq)]
pub enum LoopAction {
    /// Launch one task for each of the `targets` targets, each bounded by
    /// `timeout_seconds`.
    Launch { cycle: u64, targets: usize, timeout_seconds: u64 },
    /// Keep waiting for what is outstanding.
    Wait,
    /// Sleep for `nanos` nanoseconds, then report a tick.
    Sleep { nanos: u64 },
}

/// The number of the cycle after cycle `cycle`.
pub open spec fn next_cycle(cycle: u64) -> u64 {
    if cycle < u64::MAX {
        (cycle + 1) as u64
    } else {
        cycle
    }
}

/// The polling interval in nanoseconds.
pub open spec fn interval_nanos(polling_interval_seconds: u64) -> int {
    polling_interval_seconds * 1_000_000_000
}

/// A span of time as a 64-bit count of nanoseconds: nothing for a negative
/// span, the largest count for a span beyond it.
pub open spec fn saturated(nanos: int) -> u64 {
    if nanos < 0 {
        0
    } else if nanos > u64::MAX {
        u64::MAX
    } else {
        nanos as u64
    }
}

/// The time to sleep, in nanoseconds, after a cycle that began at `started`
/// and ended at `now`: what is left of the interval once the time that
/// passed is taken off, and nothing where the cycle took longer.
pub open spec fn cycle_wait(polling_interval_seconds: u64, started: u64, now: u64) -> u64 {
    saturated(interval_nanos(polling_interval_seconds) - (later(started, now) - started))
}

/// The cycle after `cycle` begins at `now`.
pub open spec fn cycle_begin(polling_interval_seconds: u64, targets: nat, cycle: u64, now: u64) -> (
    LoopState,
    LoopAction,
) {
    if targets == 0 {
        (
            LoopState::Sleeping { cycle: next_cycle(cycle) },
            LoopAction::Sleep { nanos: saturated(interval_nanos(polling_interval_seconds)) },
        )
    } else {
        (
            LoopState::Running { cycle: next_cycle(cycle), started: now, pending: targets as usize },
            LoopAction::Launch {
                cycle: next_cycle(cycle),
                targets: targets as usize,
                timeout_seconds: polling_interval_seconds,
            },
        )
    }
}

/// One step of the probe loop of an organisation with `targets` targets.
///
/// On a tick, unless a cycle is under way, the next cycle begins: every
/// target gets a task of its own, bounded by the polling interval; with no
/// targets the cycle is over at once and the loop sleeps the whole interval.
/// When the last task of a cycle has ended, however it ended, the loop sleeps
/// what is left of the interval, to the nanosecond. Anything else changes nothing.
pub open spec fn loop_step(
    polling_interval_seconds: u64,
    targets: nat,
    state: LoopState,
    event: LoopEvent,
    now: u64,
) -> (LoopState, LoopAction) {
    match (state, event) {
        (LoopState::Idle, LoopEvent::Tick) => cycle_begin(polling_interval_seconds, targets, 0, now),
        (LoopState::Sleeping { cycle }, LoopEvent::Tick) => cycle_begin(
            polling_interval_seconds,
            targets,
            cycle,
            now,
        ),
        (LoopState::Running { cycle, started, pending }, LoopEvent::TargetFinished(_)) => if pending
            <= 1 {
            (
                LoopState::Sleeping { cycle },
                LoopAction::Sleep { nanos: cycle_wait(polling_interval_seconds, started, now) },
            )
        } else {
            (
                LoopState::Running { cycle, started, pending: (pending - 1) as usize },
                LoopAction::Wait,
            )
        },
        _ => (state, LoopAction::Wait),
    }
}

/// What is left of the polling interval once `elapsed` nanoseconds have
/// passed, as a 64-bit count of nanoseconds.
fn nanos_left(polling_interval_seconds: u64, elapsed: u64) -> (nanos: u64)
    ensures
        nanos == saturated(interval_nanos(polling_interval_seconds) - elapsed),
{
    let whole: u128 = polling_interval_seconds as u128 * 1_000_000_000;
    let elapsed: u128 = elapsed as u128;
    if whole <= elapsed {
        0
    } else if whole - elapsed > u64::MAX as u128 {
        u64::MAX
    } else {
        (whole - elapsed) as u64
    }
}

/// What holds of every step of the probe loop.
///
/// Cycles never overlap: tasks are launched only while no cycle is under
/// way, one for every target, each bounded by the polling interval. The loop
/// never sleeps longer than the polling interval.
pub proof fn lemma_loop_step(
    polling_interval_seconds: u64,
    targets: nat,
    state: LoopState,
    event: LoopEvent,
    now: u64,
)
    requires
        targets <= usize::MAX,
    ensures
        match loop_step(polling_interval_seconds, targets, state, event, now).1 {
            LoopAction::Launch { targets: launched, timeout_seconds, .. } => {
                &&& !(state is Running)
                &&& launched == targets
                &&& timeout_seconds == polling_interval_seconds
                &&& loop_step(polling_interval_seconds, targets, state, event, now).0 matches LoopState::Running {
                    started,
                    pending,
                    ..
                }
                &&& started == now
                &&& pending == targets
            },
            LoopAction::Sleep { nanos } => nanos <= interval_nanos(polling_interval_seconds),
            LoopAction::Wait => loop_step(polling_interval_seconds, targets, state, event, now).0 is Running
                || loop_step(polling_interval_seconds, targets, state, event, now).0 == state,
        },
{
}

/// The cycle after `cycle` begins at `now`.
fn begin_cycle(org_config: &OrganisationConfig, cycle: u64, now: u64) -> (step: (
    LoopState,
    LoopAction,
))
    ensures
        step == cycle_begin(
            org_config.polling_interval_seconds,
            org_config.targets@.len(),
            cycle,
            now,
        ),
{
    let next = if cycle < u64::MAX {
        cycle + 1
    } else {
        cycle
    };
    let targets = org_config.targets.len();
    if targets == 0 {
        (
            LoopState::Sleeping { cycle: next },
            LoopAction::Sleep { nanos: nanos_left(org_config.polling_interval_seconds, 0) },
        )
    } else {
        (
            LoopState::Running { cycle: next, started: now, pending: targets },
            LoopAction::Launch {
                cycle: next,
                targets,
                timeout_seconds: org_config.polling_interval_seconds,
            },
        )
    }
}

/// One step of the probe loop of an organisation: takes the state, the event
/// the caller reports and the clock reading at which it arrived; gives the
/// next state and what to do next. The loop never ends.
pub fn run_probe_loop(org_config: &OrganisationConfig, state: LoopState, event: LoopEvent, now: u64)
    -> (step: (LoopState, LoopAction))
    ensures
        step == loop_step(
            org_config.polling_interval_seconds,
            org_config.targets@.len(),
            state,
            event,
            now,
        ),
{
    match state {
        LoopState::Idle => match event {
            LoopEvent::Tick => begin_cycle(org_config, 0, now),
            _ => (state, LoopAction::Wait),
        },
        LoopState::Sleeping { cycle } => match event {
            LoopEvent::Tick => begin_cycle(org_config, cycle, now),
            _ => (state, LoopAction::Wait),
        },
        LoopState::Running { cycle, started, pending } => match event {
            LoopEvent::TargetFinished(_) => {
                if pending <= 1 {
                    let elapsed = later_reading(started, now) - started;
                    let nanos = nanos_left(org_config.polling_interval_seconds, elapsed);
                    (LoopState::Sleeping { cycle }, LoopAction::Sleep { nanos })
                } else {
                    (LoopState::Running { cycle, started, pending: pending - 1 }, LoopAction::Wait)
                }
            },
            _ => (state, LoopAction::Wait),
        },
    }
}

/// Ten times the number that stands for an HTTP version: 0.9, 1.0, 1.1, 2.0
/// and 3.0 for the versions that have a name, 0.0 for any other.
pub open spec fn version_tenths(version: HttpVersion) -> nat {
    match version {
        HttpVersion::Http09 => 9,
        HttpVersion::Http10 => 10,
        HttpVersion::Http11 => 11,
        HttpVersion::H2 => 20,
        HttpVersion::H3 => 30,
        HttpVersion::Unknown => 0,
    }
}

/// The binary64 bit pattern of the number that stands for an HTTP version.
pub open spec fn version_bits(version: HttpVersion) -> u64 {
    nearest_bits(version_tenths(version), 10) as u64
}

/// The number that stands for an HTTP version, as a binary64 bit pattern:
/// 0.9, 1.0, 1.1, 2.0 or 3.0, and 0.0 for a version without a name.
pub fn convert_http_version(version: HttpVersion) -> (bits: u64)
    ensures
        bits == version_bits(version),
{
    let tenths: u64 = match version {
        HttpVersion::Http09 => 9,
        HttpVersion::Http10 => 10,
        HttpVersion::Http11 => 11,
        HttpVersion::H2 => 20,
        HttpVersion::H3 => 30,
        HttpVersion::Unknown => 0,
    };
    nearest_double(tenths, 10)
}

} // verus!
