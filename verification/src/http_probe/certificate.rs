//! The expiry instant of an X.509 certificate.

use vstd::prelude::*;

verus! {

/// The error of `x509_parser`, carried through as it is.
#[verifier::external_type_specification]
#[verifier::external_body]
pub struct ExX509Error(x509_parser::error::X509Error);

/// The error of the parser that `x509_parser` is built on, carried through
/// as it is.
#[verifier::external_type_specification]
#[verifier::external_body]
#[verifier::reject_recursive_types(E)]
pub struct ExNomErr<E>(x509_parser::nom::Err<E>);

/// Why a certificate could not be inspected.
#[derive(Clone, Copy, Debug, PartialEq, Eq, Structural)]
pub enum ParseError {
    /// The bytes are not a DER-encoded X.509 certificate.
    Malformed,
}

/// The `notAfter` instant of the certificate that `der` encodes, in seconds
/// since the Unix epoch, as `x509_parser` reads it; `None` where it rejects
/// the bytes.
pub uninterp spec fn x509_not_after(der: Seq<u8>) -> Option<i64>;

/// Parses `der` with `x509_parser::parse_x509_certificate` and reads
/// `validity().not_after.timestamp()` of the certificate. The contract names
/// the outcome and claims no more: the same bytes give the same outcome.
#[verifier::external_body]
fn parse_not_after(der: &[u8]) -> (parsed: Result<
    i64,
    x509_parser::nom::Err<x509_parser::error::X509Error>,
>)
    ensures
        parsed matches Ok(seconds) ==> x509_not_after(der@) == Some(seconds),
        parsed is Err ==> x509_not_after(der@) is None,
{
    match x509_parser::parse_x509_certificate(der) {
        Ok((_, certificate)) => Ok(certificate.validity().not_after.timestamp()),
        Err(error) => Err(error),
    }
}

/// What `expiry` returns for a parser outcome.
pub open spec fn expiry_of(not_after: Option<i64>) -> Result<i64, ParseError> {
    match not_after {
        Some(seconds) => Ok(seconds),
        None => Err(ParseError::Malformed),
    }
}

/// The expiry instant of the DER-encoded certificate `der`, in seconds since
/// the Unix epoch; `ParseError::Malformed` exactly where the bytes are not
/// accepted as a certificate.
pub fn expiry(der: &[u8]) -> (expiry: Result<i64, ParseError>)
    ensures
        expiry == expiry_of(x509_not_after(der@)),
{
    match parse_not_after(der) {
        Ok(seconds) => Ok(seconds),
        Err(_) => Err(ParseError::Malformed),
    }
}

/// Seconds in a day.
pub const SECONDS_PER_DAY: i64 = 86_400;

/// The whole days from `now` to `not_after`, rounded towards zero; negative
/// once the certificate has expired.
pub open spec fn validity_days(not_after: i64, now: i64) -> int {
    if not_after >= now {
        (not_after - now) / 86_400
    } else {
        -((now - not_after) / 86_400)
    }
}

/// The whole days for which a certificate that expires at `not_after` is
/// still valid at `now`, both in seconds since the Unix epoch; negative once
/// the certificate has expired.
pub fn get_cert_validity_days(not_after: i64, now: i64) -> (days: i64)
    ensures
        days == validity_days(not_after, now),
{
    let difference: i128 = not_after as i128 - now as i128;
    if difference >= 0 {
        (difference / 86_400) as i64
    } else {
        -(((-difference) / 86_400) as i64)
    }
}

} // verus!
