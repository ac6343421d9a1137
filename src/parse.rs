use vstd::prelude::*;

verus! {

/// An ASCII decimal digit.
pub open spec fn is_digit(c: char) -> bool {
    '0' <= c && c <= '9'
}

/// A character that may stand in a scope keyword.
pub open spec fn is_word(c: char) -> bool {
    is_digit(c) || ('a' <= c && c <= 'z') || ('A' <= c && c <= 'Z') || c == '_'
}

/// What the `k`-th character of `YYYY-MM-DD` followed by two spaces must be.
pub open spec fn date_char_ok(k: int, c: char) -> bool {
    if k == 4 || k == 7 {
        c == '-'
    } else if k >= 10 {
        c == ' '
    } else {
        is_digit(c)
    }
}

/// Length of the date prefix: ten characters of date and two spaces.
pub const DATE_PREFIX: usize = 12;

/// A date followed by two spaces starts at position `i` of `s`.
pub open spec fn date_at(s: Seq<char>, i: int) -> bool {
    0 <= i && i + 12 <= s.len() && forall|k: int| 0 <= k < 12 ==> date_char_ok(k, #[trigger] s[i + k])
}

/// The leftmost position, at or after `i`, where a date prefix starts.
pub open spec fn date_from(s: Seq<char>, i: int) -> Option<int>
    decreases s.len() - i,
{
    if i < 0 || i + 12 > s.len() {
        None
    } else if date_at(s, i) {
        Some(i)
    } else {
        date_from(s, i + 1)
    }
}

/// The first newline at or after `p`, or the end of `s`.
pub open spec fn line_end(s: Seq<char>, p: int) -> int
    decreases s.len() - p,
{
    if p < 0 || p >= s.len() {
        s.len() as int
    } else if s[p] == '\n' {
        p
    } else {
        line_end(s, p + 1)
    }
}

/// The smallest `j` at or after `j0`, with `j + 1` before `e`, that holds
/// `)` followed by a space.
pub open spec fn close_from(s: Seq<char>, e: int, j: int) -> Option<int>
    decreases e - j,
{
    if j < 0 || j + 1 >= e || e > s.len() {
        None
    } else if s[j] == ')' && s[j + 1] == ' ' {
        Some(j)
    } else {
        close_from(s, e, j + 1)
    }
}

/// Where the refs annotation starting at `p` (an opening parenthesis) closes:
/// the first `) ` after it on the same line. Ref names hold no spaces, so the
/// decoration list ends there.
pub open spec fn refs_close(s: Seq<char>, p: int) -> Option<int> {
    if 0 <= p < s.len() && s[p] == '(' {
        close_from(s, line_end(s, p), p + 1)
    } else {
        None
    }
}

/// The lines of `s` from position `a` on, split at each newline; the
/// text after the last newline, empty or not, is the last line.
pub open spec fn lines_from(s: Seq<char>, a: int) -> Seq<Seq<char>>
    decreases s.len() - a,
{
    let e = line_end(s, a);
    if a < 0 || a > s.len() || e < a || e >= s.len() {
        seq![s.subrange(a, s.len() as int)]
    } else {
        seq![s.subrange(a, e)] + lines_from(s, e + 1)
    }
}

/// The end of the run of word characters that starts at `q`.
pub open spec fn word_end(s: Seq<char>, q: int) -> int
    decreases s.len() - q,
{
    if q < 0 || q >= s.len() || !is_word(s[q]) {
        if q < 0 { 0 } else if q > s.len() { s.len() as int } else { q }
    } else {
        word_end(s, q + 1)
    }
}

/// A scope keyword, followed by `: `, starts at `q`.
pub open spec fn has_scope_at(s: Seq<char>, q: int) -> bool {
    let k = word_end(s, q);
    0 <= q < k && k + 1 < s.len() && s[k] == ':' && s[k + 1] == ' '
}

/// The fields of one log line; a field that did not match is `None`.
pub ghost struct ParsedLine {
    pub date: Option<Seq<char>>,
    pub refs: Option<Seq<char>>,
    pub scope: Option<Seq<char>>,
    pub message: Option<Seq<char>>,
}

/// The fields of `s` read by the line grammar
/// `DATE  [(REFS) ][SCOPE: ]MESSAGE`, matched at the leftmost date.
pub open spec fn parse_spec(s: Seq<char>) -> ParsedLine {
    match date_from(s, 0) {
        None => ParsedLine { date: None, refs: None, scope: None, message: None },
        Some(i) => {
            let p = i + 12;
            let refs = match refs_close(s, p) {
                Some(j) => Some(s.subrange(p + 1, j)),
                None => None,
            };
            let q = match refs_close(s, p) {
                Some(j) => j + 2,
                None => p,
            };
            let scope = if has_scope_at(s, q) {
                Some(s.subrange(q, word_end(s, q)))
            } else {
                None
            };
            let r = if has_scope_at(s, q) {
                word_end(s, q) + 2
            } else {
                q
            };
            ParsedLine {
                date: Some(s.subrange(i, i + 10)),
                refs,
                scope,
                message: Some(s.subrange(r, line_end(s, r))),
            }
        },
    }
}

/// One log line split into its fields.
pub struct LogLine {
    pub date: Option<String>,
    pub refs: Option<String>,
    pub scope: Option<String>,
    pub message: Option<String>,
}

pub open spec fn opt_view(o: Option<String>) -> Option<Seq<char>> {
    match o {
        Some(s) => Some(s@),
        None => None,
    }
}

impl View for LogLine {
    type V = ParsedLine;

    open spec fn view(&self) -> ParsedLine {
        ParsedLine {
            date: opt_view(self.date),
            refs: opt_view(self.refs),
            scope: opt_view(self.scope),
            message: opt_view(self.message),
        }
    }
}

fn is_digit_exec(c: char) -> (r: bool)
    ensures
        r == is_digit(c),
{
    '0' <= c && c <= '9'
}

fn is_word_exec(c: char) -> (r: bool)
    ensures
        r == is_word(c),
{
    is_digit_exec(c) || ('a' <= c && c <= 'z') || ('A' <= c && c <= 'Z') || c == '_'
}

fn is_date_at(s: &str, n: usize, i: usize) -> (r: bool)
    requires
        n == s@.len(),
    ensures
        r == date_at(s@, i as int),
{
    if i > n || n - i < DATE_PREFIX {
        return false;
    }
    let mut k: usize = 0;
    while k < DATE_PREFIX
        invariant
            i + 12 <= n == s@.len(),
            k <= 12,
            forall|m: int| 0 <= m < k ==> date_char_ok(m, #[trigger] s@[i + m]),
        decreases 12 - k,
    {
        let c = s.get_char(i + k);
        let ok = if k == 4 || k == 7 {
            c == '-'
        } else if k >= 10 {
            c == ' '
        } else {
            is_digit_exec(c)
        };
        if !ok {
            assert(!date_char_ok(k as int, s@[i + k as int]));
            return false;
        }
        k = k + 1;
    }
    true
}

fn find_date(s: &str, n: usize) -> (r: Option<usize>)
    requires
        n == s@.len(),
    ensures
        match r {
            Some(i) => date_from(s@, 0) == Some(i as int) && i + 12 <= n,
            None => date_from(s@, 0) == None::<int>,
        },
{
    let mut i: usize = 0;
    while i <= n && n - i >= DATE_PREFIX
        invariant
            n == s@.len(),
            date_from(s@, 0) == date_from(s@, i as int),
        decreases n - i,
    {
        if is_date_at(s, n, i) {
            return Some(i);
        }
        i = i + 1;
    }
    None
}

fn find_line_end(s: &str, n: usize, p: usize) -> (r: usize)
    requires
        n == s@.len(),
        p <= n,
    ensures
        r == line_end(s@, p as int),
        p <= r <= n,
{
    let mut e: usize = p;
    while e < n
        invariant
            n == s@.len(),
            p <= e <= n,
            line_end(s@, p as int) == line_end(s@, e as int),
        decreases n - e,
    {
        if s.get_char(e) == '\n' {
            return e;
        }
        e = e + 1;
    }
    e
}

fn find_refs_close(s: &str, n: usize, p: usize) -> (r: Option<usize>)
    requires
        n == s@.len(),
        p <= n,
    ensures
        match r {
            Some(j) => refs_close(s@, p as int) == Some(j as int) && p < j && j + 1 < n,
            None => refs_close(s@, p as int) == None::<int>,
        },
{
    if p >= n || s.get_char(p) != '(' {
        return None;
    }
    let e = find_line_end(s, n, p);
    let mut j: usize = p + 1;
    while j < e && e - j >= 2
        invariant
            n == s@.len(),
            p < j,
            e <= n,
            refs_close(s@, p as int) == close_from(s@, e as int, j as int),
        decreases e - j,
    {
        if s.get_char(j) == ')' && s.get_char(j + 1) == ' ' {
            return Some(j);
        }
        j = j + 1;
    }
    None
}

fn find_word_end(s: &str, n: usize, q: usize) -> (r: usize)
    requires
        n == s@.len(),
        q <= n,
    ensures
        r == word_end(s@, q as int),
        q <= r <= n,
{
    let mut k: usize = q;
    while k < n
        invariant
            n == s@.len(),
            q <= k <= n,
            word_end(s@, q as int) == word_end(s@, k as int),
        decreases n - k,
    {
        if !is_word_exec(s.get_char(k)) {
            return k;
        }
        k = k + 1;
    }
    k
}

/// Splits one line of the version-control log into date, refs annotation,
/// scope keyword and message.
pub fn parse_line(s: &str) -> (r: LogLine)
    ensures
        r@ == parse_spec(s@),
{
    let n = s.unicode_len();
    match find_date(s, n) {
        None => LogLine { date: None, refs: None, scope: None, message: None },
        Some(i) => {
            let p = i + DATE_PREFIX;
            let date = String::from_str(s.substring_char(i, i + 10));
            let (refs, q) = match find_refs_close(s, n, p) {
                Some(j) => (Some(String::from_str(s.substring_char(p + 1, j))), j + 2),
                None => (None, p),
            };
            let k = find_word_end(s, n, q);
            let (scope, r) = if q < k && k < n && n - k >= 2 && s.get_char(k) == ':' && s.get_char(k + 1)
                == ' ' {
                (Some(String::from_str(s.substring_char(q, k))), k + 2)
            } else {
                (None, q)
            };
            let e = find_line_end(s, n, r);
            let message = String::from_str(s.substring_char(r, e));
            LogLine { date: Some(date), refs, scope, message: Some(message) }
        },
    }
}

/// Splits a log into its lines at each newline.
pub fn split_lines(s: &str) -> (r: Vec<String>)
    ensures
        r@.map_values(|l: String| l@) == lines_from(s@, 0),
{
    let n = s.unicode_len();
    let mut out: Vec<String> = Vec::new();
    let mut a: usize = 0;
    loop
        invariant
            n == s@.len(),
            a <= n,
            out@.map_values(|l: String| l@) + lines_from(s@, a as int) == lines_from(s@, 0),
        decreases n - a,
    {
        let e = find_line_end(s, n, a);
        let ghost before = out@.map_values(|l: String| l@);
        out.push(String::from_str(s.substring_char(a, e)));
        assert(out@.map_values(|l: String| l@) =~= before.push(s@.subrange(a as int, e as int)));
        if e >= n {
            assert(lines_from(s@, a as int) == seq![s@.subrange(a as int, n as int)]);
            assert(out@.map_values(|l: String| l@) =~= before + lines_from(s@, a as int));
            return out;
        }
        assert(lines_from(s@, a as int) == seq![s@.subrange(a as int, e as int)] + lines_from(
            s@,
            e + 1,
        ));
        assert(out@.map_values(|l: String| l@) + lines_from(s@, e + 1) =~= before + lines_from(
            s@,
            a as int,
        ));
        a = e + 1;
    }
}

} // verus!
