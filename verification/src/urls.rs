//! URLs read with the `url` crate.

use vstd::prelude::*;
use crate::models::opt_view;

verus! {

/// The parts of a parsed URL that the library reads.
pub struct UrlParts {
    /// The host, where the URL has one.
    pub host: Option<String>,
    /// The path, percent-encoded as the parser leaves it.
    pub path: String,
}

/// What `url::Url::parse` gives for a text: `None` where it refuses it, else the host
/// (`Url::host_str`) and the path (`Url::path`).
pub uninterp spec fn url_parts(s: Seq<char>) -> Option<(Option<Seq<char>>, Seq<char>)>;

/// `url::Url::parse`, read through `Url::host_str` and `Url::path`. The contract names
/// the result: the same text always parses to the same parts; the WHATWG parsing rules
/// themselves are not stated.
#[verifier::external_body]
pub(crate) fn parse_url(s: &str) -> (r: Option<UrlParts>)
    ensures
        r matches Some(p) ==> url_parts(s@) == Some((opt_view(p.host), p.path@)),
        r is None ==> url_parts(s@) is None,
{
    match url::Url::parse(s) {
        Ok(u) => Some(UrlParts { host: u.host_str().map(|h| h.to_string()), path: u.path().to_string() }),
        Err(_) => None,
    }
}

} // verus!
