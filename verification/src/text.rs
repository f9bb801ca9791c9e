//! Character-level text utilities: exact string comparison, whitespace
//! trimming, filename sanitization and identifier validation.
use vstd::prelude::*;
use crate::num::{all_digits, is_digit_char, push_char};

verus! {

/// Compares two strings character by character.
pub fn str_eq(a: &str, b: &str) -> (r: bool)
    ensures
        r == (a@ == b@),
{
    let na = a.unicode_len();
    let nb = b.unicode_len();
    if na != nb {
        assert(a@ != b@) by {
            assert(a@.len() != b@.len());
        }
        return false;
    }
    let mut i: usize = 0;
    while i < na
        invariant
            na == a@.len() == b@.len(),
            0 <= i <= na,
            forall|j: int| 0 <= j < i ==> a@[j] == b@[j],
        decreases na - i,
    {
        if a.get_char(i) != b.get_char(i) {
            return false;
        }
        i = i + 1;
    }
    proof {
        assert(a@ =~= b@);
    }
    true
}

/// ASCII lower-casing of one character: upper-case letters move down by
/// thirty-two code points, everything else is untouched.
pub open spec fn ascii_lower(c: char) -> char {
    if 'A' <= c && c <= 'Z' {
        ((c as u32) + 32) as char
    } else {
        c
    }
}

/// A string lower-cased character by character, ASCII letters only.
pub open spec fn lower_seq(s: Seq<char>) -> Seq<char> {
    s.map(|_i: int, c: char| ascii_lower(c))
}

/// Compares two strings ignoring ASCII case.
pub fn eq_ignore_case(a: &str, b: &str) -> (r: bool)
    ensures
        r == (lower_seq(a@) == lower_seq(b@)),
{
    let na = a.unicode_len();
    let nb = b.unicode_len();
    if na != nb {
        assert(lower_seq(a@).len() != lower_seq(b@).len());
        return false;
    }
    let mut i: usize = 0;
    while i < na
        invariant
            na == a@.len() == b@.len(),
            0 <= i <= na,
            forall|j: int| 0 <= j < i ==> lower_seq(a@)[j] == lower_seq(b@)[j],
        decreases na - i,
    {
        let ca = a.get_char(i) as u32;
        let cb = b.get_char(i) as u32;
        let la = if 65 <= ca && ca <= 90 {
            ca + 32
        } else {
            ca
        };
        let lb = if 65 <= cb && cb <= 90 {
            cb + 32
        } else {
            cb
        };
        assert(la == ascii_lower(a@[i as int]) as u32 && lb == ascii_lower(b@[i as int]) as u32);
        if la != lb {
            assert(lower_seq(a@)[i as int] != lower_seq(b@)[i as int]);
            return false;
        }
        assert(lower_seq(a@)[i as int] == lower_seq(b@)[i as int]);
        i = i + 1;
    }
    proof {
        assert(lower_seq(a@) =~= lower_seq(b@));
    }
    true
}

/// How the value of a switch variable reads: the affirmative and
/// negative spellings accepted, compared ignoring ASCII case; anything
/// else means the variable is not usable as a switch.
pub open spec fn spec_bool_token(s: Seq<char>) -> Option<bool> {
    let l = lower_seq(s);
    if l == "true"@ || l == "t"@ || l == "yes"@ || l == "y"@ || l == "1"@ {
        Some(true)
    } else if l == "false"@ || l == "f"@ || l == "no"@ || l == "n"@ || l == "0"@ {
        Some(false)
    } else {
        None
    }
}

/// Interprets the value of an environment switch, when the variable was
/// set at all.  Reading the environment itself happens outside the
/// library; this fixes what the value means.
pub fn get_env_bool(value: Option<&str>) -> (r: Option<bool>)
    ensures
        r == (match value {
            Some(s) => spec_bool_token(s@),
            None => None,
        }),
{
    let s = match value {
        None => {
            return None;
        },
        Some(s) => s,
    };
    proof {
        reveal_strlit("true");
        reveal_strlit("t");
        reveal_strlit("yes");
        reveal_strlit("y");
        reveal_strlit("1");
        reveal_strlit("false");
        reveal_strlit("f");
        reveal_strlit("no");
        reveal_strlit("n");
        reveal_strlit("0");
        assert(lower_seq("true"@) =~= "true"@);
        assert(lower_seq("t"@) =~= "t"@);
        assert(lower_seq("yes"@) =~= "yes"@);
        assert(lower_seq("y"@) =~= "y"@);
        assert(lower_seq("1"@) =~= "1"@);
        assert(lower_seq("false"@) =~= "false"@);
        assert(lower_seq("f"@) =~= "f"@);
        assert(lower_seq("no"@) =~= "no"@);
        assert(lower_seq("n"@) =~= "n"@);
        assert(lower_seq("0"@) =~= "0"@);
    }
    if eq_ignore_case(s, "true") || eq_ignore_case(s, "t") || eq_ignore_case(s, "yes")
        || eq_ignore_case(s, "y") || eq_ignore_case(s, "1") {
        Some(true)
    } else if eq_ignore_case(s, "false") || eq_ignore_case(s, "f") || eq_ignore_case(s, "no")
        || eq_ignore_case(s, "n") || eq_ignore_case(s, "0") {
        Some(false)
    } else {
        None
    }
}

/// The characters the Unicode standard marks as white space; these are
/// what `str::trim` removes at either end of a string.
pub open spec fn is_space(c: char) -> bool {
    c == '\u{0009}' || c == '\u{000A}' || c == '\u{000B}' || c == '\u{000C}' || c == '\u{000D}'
        || c == ' ' || c == '\u{0085}' || c == '\u{00A0}' || c == '\u{1680}' || c == '\u{2000}'
        || c == '\u{2001}' || c == '\u{2002}' || c == '\u{2003}' || c == '\u{2004}'
        || c == '\u{2005}' || c == '\u{2006}' || c == '\u{2007}' || c == '\u{2008}'
        || c == '\u{2009}' || c == '\u{200A}' || c == '\u{2028}' || c == '\u{2029}'
        || c == '\u{202F}' || c == '\u{205F}' || c == '\u{3000}'
}

fn is_space_exec(c: char) -> (r: bool)
    ensures
        r == is_space(c),
{
    c == '\u{0009}' || c == '\u{000A}' || c == '\u{000B}' || c == '\u{000C}' || c == '\u{000D}'
        || c == ' ' || c == '\u{0085}' || c == '\u{00A0}' || c == '\u{1680}' || c == '\u{2000}'
        || c == '\u{2001}' || c == '\u{2002}' || c == '\u{2003}' || c == '\u{2004}'
        || c == '\u{2005}' || c == '\u{2006}' || c == '\u{2007}' || c == '\u{2008}'
        || c == '\u{2009}' || c == '\u{200A}' || c == '\u{2028}' || c == '\u{2029}'
        || c == '\u{202F}' || c == '\u{205F}' || c == '\u{3000}'
}

/// What is left of `s` after dropping leading white space.
pub open spec fn trim_front(s: Seq<char>) -> Seq<char>
    decreases s.len(),
{
    if s.len() > 0 && is_space(s.first()) {
        trim_front(s.drop_first())
    } else {
        s
    }
}

/// What is left of `s` after dropping trailing white space.
pub open spec fn trim_back(s: Seq<char>) -> Seq<char>
    decreases s.len(),
{
    if s.len() > 0 && is_space(s.last()) {
        trim_back(s.drop_last())
    } else {
        s
    }
}

/// What is left of `s` after dropping white space at both ends, as
/// `str::trim` does.
pub open spec fn spec_trim(s: Seq<char>) -> Seq<char> {
    trim_back(trim_front(s))
}

proof fn lemma_trim_front_skip(s: Seq<char>, k: int)
    requires
        0 <= k <= s.len(),
        forall|i: int| 0 <= i < k ==> is_space(#[trigger] s[i]),
        k < s.len() ==> !is_space(s[k]),
    ensures
        trim_front(s) == s.skip(k),
    decreases k,
{
    if k == 0 {
        assert(s.skip(0) =~= s);
    } else {
        assert(is_space(s.first()));
        let t = s.drop_first();
        assert(forall|i: int| 0 <= i < k - 1 ==> is_space(#[trigger] t[i])) by {
            assert(forall|i: int| 0 <= i < t.len() ==> t[i] == #[trigger] s[i + 1]);
        }
        assert(k - 1 < t.len() ==> !is_space(t[k - 1]));
        lemma_trim_front_skip(t, k - 1);
        assert(t.skip(k - 1) =~= s.skip(k));
    }
}

proof fn lemma_trim_back_take(s: Seq<char>, k: int)
    requires
        0 <= k <= s.len(),
        forall|i: int| k <= i < s.len() ==> is_space(#[trigger] s[i]),
        k > 0 ==> !is_space(s[k - 1]),
    ensures
        trim_back(s) == s.take(k),
    decreases s.len() - k,
{
    if k == s.len() {
        assert(s.take(k) =~= s);
    } else {
        assert(is_space(s.last()));
        let t = s.drop_last();
        assert(forall|i: int| k <= i < t.len() ==> is_space(#[trigger] t[i]));
        lemma_trim_back_take(t, k);
        assert(t.take(k) =~= s.take(k));
    }
}

/// The span `[lo, hi)` of the non-white-space core of `s`, so that
/// `s@.subrange(lo, hi) == spec_trim(s@)`.  `lo == hi` means the string
/// is entirely white space.
fn trim_span(s: &str) -> (r: (usize, usize))
    ensures
        0 <= r.0 <= r.1 <= s@.len(),
        s@.subrange(r.0 as int, r.1 as int) == spec_trim(s@),
{
    let n = s.unicode_len();
    let mut lo: usize = 0;
    while lo < n && is_space_exec(s.get_char(lo))
        invariant
            0 <= lo <= n == s@.len(),
            forall|i: int| 0 <= i < lo ==> is_space(#[trigger] s@[i]),
        decreases n - lo,
    {
        lo = lo + 1;
    }
    proof {
        lemma_trim_front_skip(s@, lo as int);
    }
    if lo == n {
        proof {
            assert(s@.skip(lo as int).len() == 0);
            assert(trim_back(s@.skip(lo as int)) == s@.skip(lo as int));
            assert(s@.subrange(lo as int, lo as int) =~= s@.skip(lo as int));
        }
        return (lo, lo);
    }
    let mut hi: usize = n;
    while hi > lo + 1 && is_space_exec(s.get_char(hi - 1))
        invariant
            lo < hi <= n == s@.len(),
            forall|i: int| hi <= i < n ==> is_space(#[trigger] s@[i]),
        decreases hi,
    {
        hi = hi - 1;
    }
    proof {
        let f = s@.skip(lo as int);
        assert(!is_space(s@[lo as int]));
        assert(forall|i: int| 0 <= i < f.len() ==> f[i] == #[trigger] s@[i + lo]);
        // Either the loop stopped on a non-space character, or it reached
        // the single character at `lo`, which is not white space.
        assert(!is_space(s@[hi - 1]));
        lemma_trim_back_take(f, hi - lo as int);
        assert(f.take(hi - lo as int) =~= s@.subrange(lo as int, hi as int));
    }
    (lo, hi)
}

/// The characters stripped from filenames: separators, wildcard and
/// quoting characters that are unsafe in a file name on common systems.
pub open spec fn is_unsafe_filename_char(c: char) -> bool {
    c == '?' || c == '|' || c == '_' || c == '*' || c == '<' || c == '>' || c == '、'
        || c == '/' || c == '"'
}

/// A sanitized filename: every unsafe character replaced by a space.
pub open spec fn spec_safe_filename(s: Seq<char>) -> Seq<char> {
    s.map(|_i: int, c: char| if is_unsafe_filename_char(c) { ' ' } else { c })
}

/// Replaces every unsafe filename character with a space.
pub fn safe_filename(filename: &str) -> (r: String)
    ensures
        r@ == spec_safe_filename(filename@),
{
    let n = filename.unicode_len();
    let mut out = String::new();
    let mut i: usize = 0;
    while i < n
        invariant
            0 <= i <= n == filename@.len(),
            out@ == spec_safe_filename(filename@.subrange(0, i as int)),
        decreases n - i,
    {
        let c = filename.get_char(i);
        let replaced = c == '?' || c == '|' || c == '_' || c == '*' || c == '<' || c == '>'
            || c == '、' || c == '/' || c == '"';
        if replaced {
            push_char(&mut out, ' ');
        } else {
            push_char(&mut out, c);
        }
        proof {
            let pre = filename@.subrange(0, i as int);
            let ext = filename@.subrange(0, i as int + 1);
            assert(spec_safe_filename(ext) =~= spec_safe_filename(pre).push(
                if is_unsafe_filename_char(c) { ' ' } else { c },
            ));
        }
        i = i + 1;
    }
    proof {
        assert(filename@.subrange(0, n as int) =~= filename@);
    }
    out
}

/// A valid identifier, after trimming white space and ignoring ASCII
/// case: either `bv` followed by exactly ten further characters (none a
/// line break), or an optional `av` prefix followed by one to ten decimal
/// digits.
pub open spec fn is_id_spec(s: Seq<char>) -> bool {
    let t = spec_trim(s);
    ||| (t.len() == 12 && (t[0] == 'b' || t[0] == 'B') && (t[1] == 'v' || t[1] == 'V')
        && no_newline(t.skip(2)))
    ||| (1 <= t.len() <= 10 && all_digits(t))
    ||| (3 <= t.len() <= 12 && (t[0] == 'a' || t[0] == 'A') && (t[1] == 'v' || t[1] == 'V')
        && all_digits(t.skip(2)))
}

/// No character of `t` is a line break.
pub open spec fn no_newline(t: Seq<char>) -> bool {
    forall|i: int| 0 <= i < t.len() ==> #[trigger] t[i] != '\n'
}

/// Whether every character of `s@.subrange(lo, hi)` is a decimal digit.
fn all_digits_range(s: &str, lo: usize, hi: usize) -> (r: bool)
    requires
        lo <= hi <= s@.len(),
    ensures
        r == all_digits(s@.subrange(lo as int, hi as int)),
{
    let ghost t = s@.subrange(lo as int, hi as int);
    let mut all = true;
    let mut i: usize = lo;
    while i < hi
        invariant
            lo <= i <= hi <= s@.len(),
            t == s@.subrange(lo as int, hi as int),
            all == (forall|j: int| 0 <= j < i - lo ==> is_digit_char(#[trigger] t[j])),
        decreases hi - i,
    {
        let c = s.get_char(i);
        assert(t[i - lo] == s@[i as int]);
        let code = c as u32;
        if code < 48 || code > 57 {
            assert(!is_digit_char(t[i - lo]));
            all = false;
        }
        i = i + 1;
    }
    all
}

/// Whether no character of `s@.subrange(lo, hi)` is a line break.
fn no_newline_range(s: &str, lo: usize, hi: usize) -> (r: bool)
    requires
        lo <= hi <= s@.len(),
    ensures
        r == no_newline(s@.subrange(lo as int, hi as int)),
{
    let ghost t = s@.subrange(lo as int, hi as int);
    let mut ok = true;
    let mut i: usize = lo;
    while i < hi
        invariant
            lo <= i <= hi <= s@.len(),
            t == s@.subrange(lo as int, hi as int),
            ok == (forall|j: int| 0 <= j < i - lo ==> #[trigger] t[j] != '\n'),
        decreases hi - i,
    {
        let c = s.get_char(i);
        assert(t[i - lo] == s@[i as int]);
        if c == '\n' {
            ok = false;
        }
        i = i + 1;
    }
    ok
}

/// Decides whether an input names a downloadable item by identifier.
pub fn is_id(input: &str) -> (r: bool)
    ensures
        r == is_id_spec(input@),
{
    let (lo, hi) = trim_span(input);
    let ghost t = spec_trim(input@);
    let n = hi - lo;
    assert(t.len() == n);
    assert(forall|i: int| 0 <= i < n ==> t[i] == #[trigger] input@[lo + i]);

    proof {
        if n >= 2 {
            assert(input@.subrange(lo as int + 2, hi as int) =~= t.skip(2));
        }
    }

    let bv_form = n == 12 && {
        let c0 = input.get_char(lo);
        let c1 = input.get_char(lo + 1);
        assert(c0 == t[0] && c1 == t[1]);
        (c0 == 'b' || c0 == 'B') && (c1 == 'v' || c1 == 'V') && no_newline_range(
            input,
            lo + 2,
            hi,
        )
    };
    assert(bv_form == (t.len() == 12 && (t[0] == 'b' || t[0] == 'B') && (t[1] == 'v' || t[1]
        == 'V') && no_newline(t.skip(2))));

    let digit_form = 1 <= n && n <= 10 && all_digits_range(input, lo, hi);
    assert(digit_form == (1 <= t.len() <= 10 && all_digits(t)));

    let av_form = 3 <= n && n <= 12 && {
        let c0 = input.get_char(lo);
        let c1 = input.get_char(lo + 1);
        assert(c0 == t[0] && c1 == t[1]);
        (c0 == 'a' || c0 == 'A') && (c1 == 'v' || c1 == 'V') && all_digits_range(
            input,
            lo + 2,
            hi,
        )
    };
    assert(av_form == (3 <= t.len() <= 12 && (t[0] == 'a' || t[0] == 'A') && (t[1] == 'v'
        || t[1] == 'V') && all_digits(t.skip(2))));

    bv_form || digit_form || av_form
}

} // verus!
