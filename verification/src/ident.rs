//! Resource identifiers: the two accepted spellings of an item id and
//! the parser that tells them apart.
use vstd::prelude::*;
use crate::num::{all_digits, dec_value, parse_usize};

verus! {

/// An item identifier: either an alphanumeric `bv`-form id, kept
/// verbatim, or a numeric `av`-form id.
#[derive(Clone, Debug, PartialEq, Eq)]
pub enum BiliId {
    BV(String),
    AV(usize),
}

/// Why an identifier was rejected: it carries neither accepted prefix,
/// or its numeric part is not a usable number.
#[derive(Clone, Copy, Debug, PartialEq, Eq, Structural)]
pub enum IdError {
    Illegal,
    BadNumber,
}

/// The numeric part of an `av`-form id is usable: non-empty, all decimal
/// digits, and small enough to index with.
pub open spec fn valid_av_number(s: Seq<char>) -> bool {
    s.len() > 0 && all_digits(s) && dec_value(s) <= usize::MAX
}

/// Classifies an identifier by its first two characters, compared
/// ignoring ASCII case: `bv` keeps the whole id verbatim, `av` parses
/// the remainder as a decimal number, anything else (including an id
/// shorter than two characters) is illegal.
pub fn get_video_id(id: &str) -> (r: Result<BiliId, IdError>)
    ensures
        ({
            let s = id@;
            if s.len() >= 2 && (s[0] == 'b' || s[0] == 'B') && (s[1] == 'v' || s[1] == 'V') {
                r matches Ok(v) && v matches BiliId::BV(b) && b@ == s
            } else if s.len() >= 2 && (s[0] == 'a' || s[0] == 'A') && (s[1] == 'v' || s[1]
                == 'V') {
                if valid_av_number(s.skip(2)) {
                    r matches Ok(v) && v matches BiliId::AV(n) && n == dec_value(s.skip(2))
                } else {
                    r == Err::<BiliId, IdError>(IdError::BadNumber)
                }
            } else {
                r == Err::<BiliId, IdError>(IdError::Illegal)
            }
        }),
{
    let n = id.unicode_len();
    if n < 2 {
        return Err(IdError::Illegal);
    }
    let c0 = id.get_char(0);
    let c1 = id.get_char(1);
    if (c0 == 'b' || c0 == 'B') && (c1 == 'v' || c1 == 'V') {
        return Ok(BiliId::BV(String::from_str(id)));
    }
    if (c0 == 'a' || c0 == 'A') && (c1 == 'v' || c1 == 'V') {
        let rest = id.substring_char(2, n);
        proof {
            assert(rest@ =~= id@.skip(2));
        }
        return match parse_usize(rest) {
            Some(v) => Ok(BiliId::AV(v)),
            None => Err(IdError::BadNumber),
        };
    }
    Err(IdError::Illegal)
}

} // verus!
