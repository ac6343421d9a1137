use vstd::prelude::*;
use crate::parse::is_digit;

verus! {

/// A character of a version number after its optional leading `v`.
pub open spec fn is_version_char(c: char) -> bool {
    is_digit(c) || c == '.'
}

/// The end of the run of version characters that starts at `u`.
pub open spec fn version_end(s: Seq<char>, u: int) -> int
    decreases s.len() - u,
{
    if u < 0 || u >= s.len() || !is_version_char(s[u]) {
        if u < 0 { 0 } else if u > s.len() { s.len() as int } else { u }
    } else {
        version_end(s, u + 1)
    }
}

/// Where the digits of a version that follows `tag: ` at `t` begin.
pub open spec fn version_digits_start(s: Seq<char>, t: int) -> int {
    if t + 5 < s.len() && s[t + 5] == 'v' { t + 6 } else { t + 5 }
}

/// `tag: ` starts at `t`, followed by an optional `v` and at least one digit or dot.
pub open spec fn tag_at(s: Seq<char>, t: int) -> bool {
    let u = version_digits_start(s, t);
    0 <= t && u < s.len() && s[t] == 't' && s[t + 1] == 'a' && s[t + 2] == 'g' && s[t + 3] == ':'
        && s[t + 4] == ' ' && is_version_char(s[u])
}

/// The leftmost position, at or after `t`, where a version tag starts.
pub open spec fn tag_from(s: Seq<char>, t: int) -> Option<int>
    decreases s.len() - t,
{
    if t < 0 || t >= s.len() {
        None
    } else if tag_at(s, t) {
        Some(t)
    } else {
        tag_from(s, t + 1)
    }
}

/// The version named by the leftmost `tag: <version>` in a refs annotation.
pub open spec fn tag_spec(s: Seq<char>) -> Option<Seq<char>> {
    match tag_from(s, 0) {
        Some(t) => Some(s.subrange(t + 5, version_end(s, version_digits_start(s, t)))),
        None => None,
    }
}

fn is_version_char_exec(c: char) -> (r: bool)
    ensures
        r == is_version_char(c),
{
    ('0' <= c && c <= '9') || c == '.'
}

fn is_tag_at(s: &str, n: usize, t: usize) -> (r: bool)
    requires
        n == s@.len(),
    ensures
        r == tag_at(s@, t as int),
        r ==> version_digits_start(s@, t as int) < n,
{
    if t >= n || n - t < 6 {
        return false;
    }
    let u = if s.get_char(t + 5) == 'v' { t + 6 } else { t + 5 };
    u < n && s.get_char(t) == 't' && s.get_char(t + 1) == 'a' && s.get_char(t + 2) == 'g'
        && s.get_char(t + 3) == ':' && s.get_char(t + 4) == ' ' && is_version_char_exec(
        s.get_char(u),
    )
}

fn find_version_end(s: &str, n: usize, u: usize) -> (r: usize)
    requires
        n == s@.len(),
        u <= n,
    ensures
        r == version_end(s@, u as int),
        u <= r <= n,
{
    let mut k: usize = u;
    while k < n
        invariant
            n == s@.len(),
            u <= k <= n,
            version_end(s@, u as int) == version_end(s@, k as int),
        decreases n - k,
    {
        if !is_version_char_exec(s.get_char(k)) {
            return k;
        }
        k = k + 1;
    }
    k
}

/// The version that a refs annotation tags, if any: the text after the
/// leftmost `tag: ` that is an optional `v` followed by digits and dots.
pub fn tag_version(refs: &str) -> (r: Option<String>)
    ensures
        match r {
            Some(v) => tag_spec(refs@) == Some(v@),
            None => tag_spec(refs@) == None::<Seq<char>>,
        },
{
    let n = refs.unicode_len();
    let mut t: usize = 0;
    while t < n
        invariant
            n == refs@.len(),
            tag_from(refs@, 0) == tag_from(refs@, t as int),
        decreases n - t,
    {
        if is_tag_at(refs, n, t) {
            let u = if refs.get_char(t + 5) == 'v' { t + 6 } else { t + 5 };
            let e = find_version_end(refs, n, u);
            return Some(String::from_str(refs.substring_char(t + 5, e)));
        }
        t = t + 1;
    }
    None
}

} // verus!
