use vstd::prelude::*;

verus! {

/// A character with the Unicode `White_Space` property.
pub open spec fn is_space(c: char) -> bool {
    ('\u{9}' <= c && c <= '\u{d}') || c == ' ' || c == '\u{85}' || c == '\u{a0}' || c == '\u{1680}'
        || ('\u{2000}' <= c && c <= '\u{200a}') || c == '\u{2028}' || c == '\u{2029}' || c
        == '\u{202f}' || c == '\u{205f}' || c == '\u{3000}'
}

/// `s` without its trailing white space.
pub open spec fn trim_end_spec(s: Seq<char>) -> Seq<char>
    decreases s.len(),
{
    if s.len() > 0 && is_space(s.last()) {
        trim_end_spec(s.drop_last())
    } else {
        s
    }
}

/// The lines joined by newlines.
pub open spec fn join_lines(ls: Seq<Seq<char>>) -> Seq<char>
    decreases ls.len(),
{
    if ls.len() == 0 {
        seq![]
    } else if ls.len() == 1 {
        ls[0]
    } else {
        join_lines(ls.drop_last()) + "\n"@ + ls.last()
    }
}

/// `s` without a final `.git`, the suffix of a repository's name.
pub open spec fn strip_dot_git(s: Seq<char>) -> Seq<char> {
    let n = s.len();
    if n >= 4 && s[n - 4] == '.' && s[n - 3] == 'g' && s[n - 2] == 'i' && s[n - 1] == 't' {
        s.take(n - 4)
    } else {
        s
    }
}

pub fn is_space_exec(c: char) -> (r: bool)
    ensures
        r == is_space(c),
{
    ('\u{9}' <= c && c <= '\u{d}') || c == ' ' || c == '\u{85}' || c == '\u{a0}' || c == '\u{1680}'
        || ('\u{2000}' <= c && c <= '\u{200a}') || c == '\u{2028}' || c == '\u{2029}' || c
        == '\u{202f}' || c == '\u{205f}' || c == '\u{3000}'
}

/// `s` without its trailing white space.
pub fn trim_end(s: &str) -> (r: String)
    ensures
        r@ == trim_end_spec(s@),
{
    let n = s.unicode_len();
    let mut k: usize = n;
    assert(s@.take(n as int) =~= s@);
    while k > 0 && is_space_exec(s.get_char(k - 1))
        invariant
            n == s@.len(),
            k <= n,
            trim_end_spec(s@) == trim_end_spec(s@.take(k as int)),
        decreases k,
    {
        assert(s@.take(k as int).drop_last() =~= s@.take(k - 1));
        k = k - 1;
    }
    assert(s@.subrange(0, k as int) =~= s@.take(k as int));
    String::from_str(s.substring_char(0, k))
}

/// The lines joined by newlines.
pub fn join_lines_exec(ls: &Vec<String>) -> (r: String)
    ensures
        r@ == join_lines(ls@.map_values(|s: String| s@)),
{
    let ghost lv = ls@.map_values(|s: String| s@);
    let n = ls.len();
    if n == 0 {
        let r = String::new();
        return r;
    }
    let mut r = ls[0].clone();
    assert(lv.take(1).drop_last().len() == 0);
    let mut i: usize = 1;
    while i < n
        invariant
            n == ls@.len() == lv.len(),
            lv == ls@.map_values(|s: String| s@),
            1 <= i <= n,
            r@ == join_lines(lv.take(i as int)),
        decreases n - i,
    {
        r.append("\n");
        r.append(ls[i].as_str());
        assert(lv.take(i + 1).drop_last() =~= lv.take(i as int));
        i = i + 1;
    }
    assert(lv.take(n as int) =~= lv);
    r
}

/// The base of a remote URL as printed by the version-control tool:
/// trailing white space is removed, then a final `.git`.
pub fn base_url(raw: &str) -> (r: String)
    ensures
        r@ == strip_dot_git(trim_end_spec(raw@)),
{
    let t = trim_end(raw);
    let s = t.as_str();
    let n = s.unicode_len();
    if n >= 4 && s.get_char(n - 4) == '.' && s.get_char(n - 3) == 'g' && s.get_char(n - 2) == 'i'
        && s.get_char(n - 1) == 't' {
        assert(s@.subrange(0, n - 4) =~= s@.take(n - 4));
        String::from_str(s.substring_char(0, n - 4))
    } else {
        t
    }
}

} // verus!
