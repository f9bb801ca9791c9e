//! Capability prober: interprets the headers of the metadata-only
//! request that precedes a download.  The network round trip happens
//! outside the library; this module fixes exactly what the two relevant
//! header values mean.
use vstd::prelude::*;
use crate::num::{all_digits, dec_value, parse_u64};
use crate::text::str_eq;

verus! {

/// What one download knows about its source after probing: where it
/// comes from is fixed by the caller; here are its size and whether the
/// server honors byte-range requests.  Immutable once produced.
#[derive(Clone, Copy, Debug, PartialEq, Eq, Structural)]
pub struct ResourceDescriptor {
    pub total_len: u64,
    pub range_capable: bool,
}

/// Why probing failed: the length header was absent, or its value was
/// not a plain decimal byte count that fits in 64 bits.  Either way the
/// download of this item is abandoned.
#[derive(Clone, Copy, Debug, PartialEq, Eq, Structural)]
pub enum ProbeError {
    MissingLength,
    MalformedLength,
}

/// A well-formed content-length header value: a non-empty string of
/// decimal digits denoting a value that fits in a `u64`.
pub open spec fn valid_length_header(s: Seq<char>) -> bool {
    s.len() > 0 && all_digits(s) && dec_value(s) <= u64::MAX
}

/// The server is range-capable exactly when it advertises the literal
/// token `bytes`.
pub open spec fn range_capable_spec(accept_ranges: Option<Seq<char>>) -> bool {
    match accept_ranges {
        Some(v) => v == "bytes"@,
        None => false,
    }
}

/// Interprets the probe response headers.  The content-length header is
/// required: its absence is an error, as is any value that is not a
/// plain decimal count.  The accept-ranges header is optional: absence
/// or any value other than the literal token `bytes` simply means the
/// segmented path cannot be used.
pub fn probe_headers(content_length: Option<&str>, accept_ranges: Option<&str>) -> (r: Result<
    ResourceDescriptor,
    ProbeError,
>)
    ensures
        match content_length {
            None => r == Err::<ResourceDescriptor, ProbeError>(ProbeError::MissingLength),
            Some(s) => {
                if valid_length_header(s@) {
                    r matches Ok(d) && d.total_len == dec_value(s@) && d.range_capable
                        == range_capable_spec(
                        match accept_ranges {
                            Some(v) => Some(v@),
                            None => None,
                        },
                    )
                } else {
                    r == Err::<ResourceDescriptor, ProbeError>(ProbeError::MalformedLength)
                }
            },
        },
{
    let len_text = match content_length {
        None => {
            return Err(ProbeError::MissingLength);
        },
        Some(s) => s,
    };
    let total_len = match parse_u64(len_text) {
        None => {
            return Err(ProbeError::MalformedLength);
        },
        Some(v) => v,
    };
    let range_capable = match accept_ranges {
        None => false,
        Some(v) => str_eq(v, "bytes"),
    };
    Ok(ResourceDescriptor { total_len, range_capable })
}

} // verus!
