use vstd::prelude::*;

verus! {

/// A probe target: the URL to monitor and the HTTP status codes that count as
/// healthy.
#[derive(Debug, Clone)]
pub struct TargetConfig {
    /// The URL of the target service to be monitored.
    pub url: String,
    /// The accepted HTTP status codes for the target service.
    pub accepted_status_codes: Vec<u16>,
}

/// An organisation: its tenant id, its polling cadence and its targets.
#[derive(Debug, Clone)]
pub struct OrganisationConfig {
    /// The tenant id sent along with every push for this organisation.
    pub organisation_id: String,
    /// Seconds between the starts of two probe cycles; also the timeout of
    /// each probe.
    pub polling_interval_seconds: u64,
    /// The targets probed in every cycle.
    pub targets: Vec<TargetConfig>,
}

/// The status codes accepted when a target names none: 200 alone.
pub fn default_status_codes() -> (codes: Vec<u16>)
    ensures
        codes@ == seq![200u16],
{
    let mut codes: Vec<u16> = Vec::new();
    codes.push(200);
    codes
}

/// Whether `code` is one of `accepted`.
pub open spec fn accepts(accepted: Seq<u16>, code: u16) -> bool {
    accepted.contains(code)
}

impl TargetConfig {
    /// A target for `url` that accepts the default status codes.
    pub fn new(url: String) -> (target: TargetConfig)
        ensures
            target.url@ == url@,
            target.accepted_status_codes@ == seq![200u16],
    {
        TargetConfig { url, accepted_status_codes: default_status_codes() }
    }

    /// Whether the target accepts `code`.
    pub fn accepts_status(&self, code: u16) -> (accepted: bool)
        ensures
            accepted == accepts(self.accepted_status_codes@, code),
    {
        let mut i: usize = 0;
        while i < self.accepted_status_codes.len()
            invariant
                i <= self.accepted_status_codes.len(),
                forall|j: int| 0 <= j < i ==> self.accepted_status_codes@[j] != code,
            decreases self.accepted_status_codes.len() - i,
        {
            if self.accepted_status_codes[i] == code {
                return true;
            }
            i += 1;
        }
        false
    }
}

} // verus!
