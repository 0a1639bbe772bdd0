//! What a probe reads from the text of its URL.

use vstd::prelude::*;
use vstd::string::*;

verus! {

/// The host that the `url` crate reads from an absolute URL; `None` where it
/// rejects the text or the URL has no host.
pub uninterp spec fn url_host(url: Seq<char>) -> Option<Seq<char>>;

/// Parses `url` with `url::Url::parse` and reads `host_str()` of the result;
/// a text that does not parse has no host. The contract names the outcome
/// and claims no more: the same text gives the same outcome.
#[verifier::external_body]
pub(crate) fn parse_host(url: &str) -> (host: Option<String>)
    ensures
        host matches Some(name) ==> url_host(url@) == Some(name@),
        host is None ==> url_host(url@) is None,
{
    match url::Url::parse(url) {
        Ok(parsed) => match parsed.host_str() {
            Some(name) => Some(name.to_string()),
            None => None,
        },
        Err(_) => None,
    }
}

/// Whether `c` is the letter written `small` or `capital`.
pub open spec fn is_letter(c: char, small: char, capital: char) -> bool {
    c == small || c == capital
}

/// Whether the scheme of `url` is `https`: the text begins with `https:`,
/// its letters in either case. A scheme does not depend on the case of its
/// letters.
pub open spec fn is_https(url: Seq<char>) -> bool {
    &&& url.len() >= 6
    &&& is_letter(url[0], 'h', 'H')
    &&& is_letter(url[1], 't', 'T')
    &&& is_letter(url[2], 't', 'T')
    &&& is_letter(url[3], 'p', 'P')
    &&& is_letter(url[4], 's', 'S')
    &&& url[5] == ':'
}

/// Whether the scheme of `url` is `https`, and so the target is probed over
/// TLS.
pub fn is_https_url(url: &str) -> (https: bool)
    ensures
        https == is_https(url@),
{
    if url.unicode_len() < 6 {
        return false;
    }
    let h = url.get_char(0);
    let t = url.get_char(1);
    let u = url.get_char(2);
    let p = url.get_char(3);
    let s = url.get_char(4);
    (h == 'h' || h == 'H') && (t == 't' || t == 'T') && (u == 't' || u == 'T') && (p == 'p' || p
        == 'P') && (s == 's' || s == 'S') && url.get_char(5) == ':'
}

} // verus!
