use vstd::prelude::*;

verus! {

/// The HTTP version a response was received over.
#[derive(Clone, Copy, Debug, PartialEq, Eq, Structural)]
pub enum HttpVersion {
    /// HTTP/0.9
    Http09,
    /// HTTP/1.0
    Http10,
    /// HTTP/1.1
    Http11,
    /// HTTP/2
    H2,
    /// HTTP/3
    H3,
    /// Any version this library has no name for.
    Unknown,
}

/// An IP address as plain bits, most significant byte first.
#[derive(Clone, Copy, Debug, PartialEq, Eq)]
pub enum IpAddress {
    /// An IPv4 address.
    V4(u32),
    /// An IPv6 address.
    V6(u128),
}

/// Why a probe ended before it could be completed: the phase that failed.
#[derive(Clone, Copy, Debug, PartialEq, Eq, Structural)]
pub enum ProbeError {
    /// The URL has no host.
    InvalidUrl,
    /// The host did not resolve to any address.
    DnsFailure,
    /// The TCP connection could not be opened.
    ConnectFailure,
    /// The TLS handshake failed.
    TlsFailure,
    /// The peer certificate could not be retrieved or parsed.
    CertFailure,
    /// The HTTP request failed, or its body could not be read.
    HttpFailure,
}

/// The outcome of one probe. Durations are in nanoseconds.
#[derive(Debug)]
pub struct ProbeResult {
    /// The URL that was probed.
    pub url: String,
    /// Time taken by DNS resolution.
    pub dns_time: Option<u64>,
    /// Time taken to open the TCP connection.
    pub connect_time: Option<u64>,
    /// Time taken by the TLS handshake; absent for plaintext HTTP.
    pub tls_time: Option<u64>,
    /// The HTTP status code of the response.
    pub http_status: Option<u16>,
    /// The HTTP version of the response.
    pub http_version: Option<HttpVersion>,
    /// The expiry instant of the peer certificate, in seconds since the Unix
    /// epoch. This is an instant, not a remaining duration.
    pub cert_validity_seconds: Option<i64>,
    /// Time to first byte, net of the connection set-up already accounted for.
    pub processing_time: Option<u64>,
    /// Time taken to read the response body.
    pub transfer_time: Option<u64>,
    /// Time from the start of the probe to its end.
    pub total_probe_time: u64,
}

/// What a `ProbeResult` holds, with the URL as a sequence of characters.
pub struct ProbeResultView {
    pub url: Seq<char>,
    pub dns_time: Option<u64>,
    pub connect_time: Option<u64>,
    pub tls_time: Option<u64>,
    pub http_status: Option<u16>,
    pub http_version: Option<HttpVersion>,
    pub cert_validity_seconds: Option<i64>,
    pub processing_time: Option<u64>,
    pub transfer_time: Option<u64>,
    pub total_probe_time: u64,
}

impl View for ProbeResult {
    type V = ProbeResultView;

    open spec fn view(&self) -> ProbeResultView {
        ProbeResultView {
            url: self.url@,
            dns_time: self.dns_time,
            connect_time: self.connect_time,
            tls_time: self.tls_time,
            http_status: self.http_status,
            http_version: self.http_version,
            cert_validity_seconds: self.cert_validity_seconds,
            processing_time: self.processing_time,
            transfer_time: self.transfer_time,
            total_probe_time: self.total_probe_time,
        }
    }
}

/// The result that stands for a probe that failed: nothing was measured.
pub open spec fn failed_result(url: Seq<char>) -> ProbeResultView {
    ProbeResultView {
        url,
        dns_time: None,
        connect_time: None,
        tls_time: None,
        http_status: None,
        http_version: None,
        cert_validity_seconds: None,
        processing_time: None,
        transfer_time: None,
        total_probe_time: 0,
    }
}

/// The sum of the phase durations that are present.
pub open spec fn phase_sum(result: ProbeResultView) -> int {
    present(result.dns_time) + present(result.connect_time) + present(result.tls_time) + present(
        result.processing_time,
    ) + present(result.transfer_time)
}

/// A duration, or zero where there is none.
pub open spec fn present(duration: Option<u64>) -> int {
    match duration {
        Some(d) => d as int,
        None => 0,
    }
}

impl ProbeResult {
    /// The result recorded for a probe of `url` that failed: every optional
    /// field absent and a total time of zero.
    pub fn failed(url: String) -> (result: ProbeResult)
        ensures
            result@ == failed_result(url@),
    {
        ProbeResult {
            url,
            dns_time: None,
            connect_time: None,
            tls_time: None,
            http_status: None,
            http_version: None,
            cert_validity_seconds: None,
            processing_time: None,
            transfer_time: None,
            total_probe_time: 0,
        }
    }
}

} // verus!
