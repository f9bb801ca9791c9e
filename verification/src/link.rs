//! Link handling: turning a pasted web link into an item identifier.
//! URL parsing itself is done by the url crate (re-exported by
//! reqwest); the decisions over the parsed pieces are verified here.
use vstd::prelude::*;
use crate::text::{is_id, is_id_spec, str_eq};

verus! {

#[verifier::external_type_specification]
#[verifier::external_body]
pub struct ExUrl(reqwest::Url);

/// Relies on reqwest::Url::parse (the url crate): `Some` exactly when
/// the input parses as an absolute URL; nothing is assumed about the
/// parsed value.
#[verifier::external_body]
pub fn is_link(input: &str) -> (r: Option<reqwest::Url>) {
    match reqwest::Url::parse(input) {
        Ok(u) => Some(u),
        Err(_) => None,
    }
}

/// Relies on reqwest::Url::scheme: the scheme of the parsed URL, in
/// lower case.
#[verifier::external_body]
fn url_scheme(u: &reqwest::Url) -> (r: String) {
    u.scheme().to_string()
}

/// Relies on reqwest::Url::host_str: the host of the URL, when it has
/// one.
#[verifier::external_body]
fn url_host(u: &reqwest::Url) -> (r: Option<String>) {
    u.host_str().map(|h| h.to_string())
}

/// Relies on reqwest::Url::path_segments: the slash-separated segments
/// of the URL's path, when the URL can have them.
#[verifier::external_body]
fn url_path_segments(u: &reqwest::Url) -> (r: Option<Vec<String>>) {
    u.path_segments().map(|segs| segs.map(|s| s.to_string()).collect())
}

/// How a link is turned into an identifier: a direct site link carries
/// the id in its path; a shortener link must first be followed through
/// one redirect; any other host is rejected.
#[derive(Clone, Copy, Debug, PartialEq, Eq, Structural)]
pub enum LinkKind {
    Direct,
    Shortened,
    Other,
}

/// Classifies a link by its host.
pub fn classify_host(host: Option<&str>) -> (k: LinkKind)
    ensures
        k == (match host {
            Some(h) => {
                if h@ == "www.bilibili.com"@ {
                    LinkKind::Direct
                } else if h@ == "b23.tv"@ {
                    LinkKind::Shortened
                } else {
                    LinkKind::Other
                }
            },
            None => LinkKind::Other,
        }),
{
    match host {
        Some(h) => {
            if str_eq(h, "www.bilibili.com") {
                LinkKind::Direct
            } else if str_eq(h, "b23.tv") {
                LinkKind::Shortened
            } else {
                LinkKind::Other
            }
        },
        None => LinkKind::Other,
    }
}

/// Only web links are followed.
pub fn scheme_is_web(scheme: &str) -> (r: bool)
    ensures
        r == (scheme@ == "http"@ || scheme@ == "https"@),
{
    str_eq(scheme, "http") || str_eq(scheme, "https")
}

/// The first path segment that is a valid identifier, if any: `Some`
/// exactly when one of the segments validates, and then the earliest
/// such segment.
pub fn find_id_segment(segments: &Vec<String>) -> (r: Option<String>)
    ensures
        r is Some <==> exists|i: int|
            0 <= i < segments@.len() && is_id_spec((#[trigger] segments@[i])@),
        r matches Some(s) ==> exists|i: int|
            0 <= i < segments@.len() && s == segments@[i] && is_id_spec((#[trigger] segments@[
                i
            ])@) && forall|j: int| 0 <= j < i ==> !is_id_spec((#[trigger] segments@[j])@),
{
    let n = segments.len();
    let mut i: usize = 0;
    while i < n
        invariant
            n == segments@.len(),
            0 <= i <= n,
            forall|j: int| 0 <= j < i ==> !is_id_spec((#[trigger] segments@[j])@),
        decreases n - i,
    {
        if is_id(segments[i].as_str()) {
            let found = segments[i].clone();
            return Some(found);
        }
        i = i + 1;
    }
    None
}

/// Extracts the identifier a direct link carries in its path: whatever
/// the URL's segments are, a returned value is always a valid
/// identifier, the earliest one in the path.
pub fn get_bv(link: &reqwest::Url) -> (r: Option<String>)
    ensures
        r matches Some(s) ==> is_id_spec(s@),
{
    match url_path_segments(link) {
        Some(segments) => {
            match find_id_segment(&segments) {
                Some(s) => {
                    proof {
                        let i = choose|i: int|
                            0 <= i < segments@.len() && s == segments@[i] && is_id_spec(
                                (#[trigger] segments@[i])@,
                            ) && forall|j: int|
                                0 <= j < i ==> !is_id_spec((#[trigger] segments@[j])@);
                        assert(is_id_spec(s@));
                    }
                    Some(s)
                },
                None => None,
            }
        },
        None => None,
    }
}

/// The scheme and host of a link, for the verified dispatch: only
/// `http`/`https` links with a known host are followed.  What comes out
/// depends on the parsed URL, which the library holds opaquely; the
/// dispatch rules themselves are `scheme_is_web` and `classify_host`.
pub fn link_dispatch(link: &reqwest::Url) -> (k: LinkKind) {
    let scheme = url_scheme(link);
    if !scheme_is_web(scheme.as_str()) {
        return LinkKind::Other;
    }
    let host = url_host(link);
    match host {
        Some(h) => classify_host(Some(h.as_str())),
        None => classify_host(None),
    }
}

} // verus!
