//! Release-tag version handling: parsing `vMAJOR.MINOR.PATCH` tags and
//! comparing version triples.

use vstd::prelude::*;
use vstd::string::StrSliceExecFns;
use vstd::string::StringExecFns;
use crate::strutil::{all_digits, first_at_from, parse_u64, push_char, spec_dec_digits,
    spec_dec_value, u64_to_string};

verus! {

/// A parsed `major.minor.patch` version triple.
#[derive(Debug, Clone, Copy, PartialEq, Eq, Structural)]
pub struct SimpleVersion {
    pub major: u64,
    pub minor: u64,
    pub patch: u64,
}

/// True if `c` counts as whitespace when trimming a tag (the ASCII
/// whitespace characters).
pub open spec fn spec_is_ws(c: char) -> bool {
    c == ' ' || c == '\t' || c == '\n' || c == '\r'
}

/// The first index at or after `i` holding a non-whitespace character.
pub open spec fn lead_ws_from(s: Seq<char>, i: int) -> int
    decreases s.len() - i,
{
    if i < 0 || i >= s.len() {
        s.len() as int
    } else if !spec_is_ws(s[i]) {
        i
    } else {
        lead_ws_from(s, i + 1)
    }
}

/// One past the last non-whitespace character strictly below `i`, or zero.
pub open spec fn back_ws_from(s: Seq<char>, i: int) -> int
    decreases i,
{
    if i <= 0 || i > s.len() {
        0
    } else if !spec_is_ws(s[i - 1]) {
        i
    } else {
        back_ws_from(s, i - 1)
    }
}

/// `s` with leading and trailing ASCII whitespace removed.
pub open spec fn spec_trimmed(s: Seq<char>) -> Seq<char> {
    let lo = lead_ws_from(s, 0);
    if lo == s.len() {
        Seq::empty()
    } else {
        s.subrange(lo, back_ws_from(s, s.len() as int))
    }
}

/// True if `s` is a non-empty digit string whose value fits in a `u64`.
pub open spec fn spec_valid_num(s: Seq<char>) -> bool {
    s.len() > 0 && all_digits(s) && spec_dec_value(s) <= u64::MAX
}

/// The version triple denoted by a release tag, if any.
///
/// The tag is trimmed of ASCII whitespace, an optional leading `v` is
/// dropped, everything from the first `-` on (a prerelease suffix) is
/// ignored, and what remains must be exactly three dot-separated decimal
/// numbers.
pub open spec fn spec_parse_simple_version(s: Seq<char>) -> Option<SimpleVersion> {
    let t = spec_trimmed(s);
    let u = if t.len() > 0 && t[0] == 'v' {
        t.subrange(1, t.len() as int)
    } else {
        t
    };
    let core = u.take(first_at_from(u, '-', 0));
    let d1 = first_at_from(core, '.', 0);
    if d1 == core.len() {
        None
    } else {
        let d2 = first_at_from(core, '.', d1 + 1);
        if d2 == core.len() {
            None
        } else if first_at_from(core, '.', d2 + 1) != core.len() {
            None
        } else {
            let p1 = core.take(d1);
            let p2 = core.subrange(d1 + 1, d2);
            let p3 = core.subrange(d2 + 1, core.len() as int);
            if spec_valid_num(p1) && spec_valid_num(p2) && spec_valid_num(p3) {
                Some(
                    SimpleVersion {
                        major: spec_dec_value(p1) as u64,
                        minor: spec_dec_value(p2) as u64,
                        patch: spec_dec_value(p3) as u64,
                    },
                )
            } else {
                None
            }
        }
    }
}

/// Strict ordering of version triples: compare major, then minor, then
/// patch.
pub open spec fn spec_version_gt(a: SimpleVersion, b: SimpleVersion) -> bool {
    a.major > b.major || (a.major == b.major && (a.minor > b.minor || (a.minor == b.minor
        && a.patch > b.patch)))
}

/// The canonical `major.minor.patch` rendering of a version triple.
pub open spec fn spec_version_string(v: SimpleVersion) -> Seq<char> {
    spec_dec_digits(v.major as nat) + seq!['.'] + spec_dec_digits(v.minor as nat) + seq!['.']
        + spec_dec_digits(v.patch as nat)
}

/// True if `candidate` and `current` both parse and `candidate` is the
/// strictly newer version.
pub open spec fn spec_is_newer_version(candidate: Seq<char>, current: Seq<char>) -> bool {
    match (spec_parse_simple_version(candidate), spec_parse_simple_version(current)) {
        (Some(a), Some(b)) => spec_version_gt(a, b),
        _ => false,
    }
}

/// True if `c` counts as trimmable whitespace.
fn is_ws(c: char) -> (r: bool)
    ensures
        r == spec_is_ws(c),
{
    c == ' ' || c == '\t' || c == '\n' || c == '\r'
}

/// Finds the first occurrence of `c` in `s` at or after `from`, returning
/// `s`'s character length when there is none.
fn find_char_from(s: &str, c: char, from: usize) -> (r: usize)
    requires
        from <= s@.len(),
    ensures
        r == first_at_from(s@, c, from as int),
        from <= r <= s@.len(),
        r < s@.len() ==> s@[r as int] == c,
        forall|j: int| from <= j < r ==> s@[j] != c,
{
    let n = s.unicode_len();
    let mut i: usize = from;
    while i < n
        invariant
            from <= i <= n,
            n == s@.len(),
            first_at_from(s@, c, from as int) == first_at_from(s@, c, i as int),
            forall|j: int| from <= j < i ==> s@[j] != c,
        decreases n - i,
    {
        if s.get_char(i) == c {
            return i;
        }
        i = i + 1;
    }
    i
}

/// Parses a release tag into its version triple.
///
/// Accepts, after trimming ASCII whitespace, an optional `v` prefix and an
/// ignored `-`-prerelease suffix around exactly three dot-separated decimal
/// numbers; returns `None` for every other shape.
pub fn parse_simple_version(raw: &str) -> (r: Option<SimpleVersion>)
    ensures
        r == spec_parse_simple_version(raw@),
{
    let n = raw.unicode_len();
    let mut lo: usize = 0;
    while lo < n && is_ws(raw.get_char(lo))
        invariant
            0 <= lo <= n,
            n == raw@.len(),
            lead_ws_from(raw@, 0) == lead_ws_from(raw@, lo as int),
        decreases n - lo,
    {
        lo = lo + 1;
    }
    assert(lead_ws_from(raw@, 0) == lo);
    if lo == n {
        assert(spec_trimmed(raw@) =~= Seq::<char>::empty());
        assert(spec_parse_simple_version(raw@) is None) by {
            let t = spec_trimmed(raw@);
            assert(first_at_from(t, '-', 0) == 0);
            assert(t.take(0) =~= Seq::<char>::empty());
        }
        return None;
    }
    let mut hi: usize = n;
    while hi > lo && is_ws(raw.get_char(hi - 1))
        invariant
            lo < hi <= n,
            n == raw@.len(),
            lo < n,
            !spec_is_ws(raw@[lo as int]),
            back_ws_from(raw@, n as int) == back_ws_from(raw@, hi as int),
        decreases hi,
    {
        hi = hi - 1;
    }
    assert(back_ws_from(raw@, n as int) == hi);
    let t = raw.substring_char(lo, hi);
    assert(t@ == spec_trimmed(raw@));
    let tn = t.unicode_len();
    let u = if tn > 0 && t.get_char(0) == 'v' {
        t.substring_char(1, tn)
    } else {
        t
    };
    let dash = find_char_from(u, '-', 0);
    let core = u.substring_char(0, dash);
    assert(core@ =~= u@.take(first_at_from(u@, '-', 0)));
    let cn = dash;
    let d1 = find_char_from(core, '.', 0);
    if d1 == cn {
        return None;
    }
    let d2 = find_char_from(core, '.', d1 + 1);
    if d2 == cn {
        return None;
    }
    let d3 = find_char_from(core, '.', d2 + 1);
    if d3 < cn {
        return None;
    }
    let p1 = core.substring_char(0, d1);
    let p2 = core.substring_char(d1 + 1, d2);
    let p3 = core.substring_char(d2 + 1, cn);
    let major = parse_u64(p1);
    let minor = parse_u64(p2);
    let patch = parse_u64(p3);
    match (major, minor, patch) {
        (Some(major), Some(minor), Some(patch)) => Some(
            SimpleVersion { major, minor, patch },
        ),
        _ => None,
    }
}

/// True if `version` parses as a release-tag version.
pub fn is_valid_version(version: &str) -> (r: bool)
    ensures
        r == (spec_parse_simple_version(version@) is Some),
{
    parse_simple_version(version).is_some()
}

/// True if both arguments parse and `candidate` is strictly newer than
/// `current`; anything unparsable is never newer.
pub fn is_newer_version(candidate: &str, current: &str) -> (r: bool)
    ensures
        r == spec_is_newer_version(candidate@, current@),
{
    let c = parse_simple_version(candidate);
    let u = parse_simple_version(current);
    match (c, u) {
        (Some(a), Some(b)) => {
            a.major > b.major || (a.major == b.major && (a.minor > b.minor || (a.minor == b.minor
                && a.patch > b.patch)))
        },
        _ => false,
    }
}

/// Rewrites a release tag into its canonical `major.minor.patch` form,
/// returning `None` exactly when the tag does not parse.
pub fn normalize_version_string(raw: &str) -> (r: Option<String>)
    ensures
        r is Some <==> spec_parse_simple_version(raw@) is Some,
        r is Some ==> (r->0)@ == spec_version_string(spec_parse_simple_version(raw@)->0),
{
    match parse_simple_version(raw) {
        None => None,
        Some(v) => {
            let mut out = u64_to_string(v.major);
            push_char(&mut out, '.');
            let minor_s = u64_to_string(v.minor);
            out.append(minor_s.as_str());
            push_char(&mut out, '.');
            let patch_s = u64_to_string(v.patch);
            out.append(patch_s.as_str());
            proof {
                assert(out@ =~= spec_version_string(v));
            }
            Some(out)
        },
    }
}

} // verus!
