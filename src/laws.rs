use vstd::prelude::*;
use indexmap::IndexMap;
use crate::bucket::{add_entry, any_entries, is_known_scope, empty_entries, find_label, scope_items, upsert, version_entries, Bucket, BucketView, EntriesView};
use crate::group::{
    group_spec, is_first_release, line_tag, seed, state_after, step, unreleased_label, GroupState,
};
use crate::tag::{is_version_char, tag_at, tag_from, version_digits_start, version_end};
use crate::parse::{parse_spec, ParsedLine};
use crate::render::{bucket_lines, bullet_spec, header_spec, prev_label, bullets_newest_first, changelog_spec, rendered_from, section_spec, sections_spec};

verus! {

/// Rendering the same buckets with the same URL twice gives the same text.
pub proof fn law_render_idempotent(m: IndexMap<String, Bucket>, url: Seq<char>, first: Seq<char>, second: Seq<char>)
    requires
        first == changelog_spec(version_entries(m), url),
        second == changelog_spec(version_entries(m), url),
    ensures
        first == second,
{
}

/// The lines of newer buckets come before those of older ones: what is
/// rendered from position `j` on is a prefix of what is rendered from `i <= j` on.
pub proof fn law_newer_buckets_first(es: Seq<(Seq<char>, BucketView)>, url: Seq<char>, i: int, j: int)
    requires
        0 <= i <= j <= es.len(),
    ensures
        rendered_from(es, url, j).is_prefix_of(rendered_from(es, url, i)),
    decreases j - i,
{
    if i < j {
        law_newer_buckets_first(es, url, i + 1, j);
        assert(rendered_from(es, url, i) == rendered_from(es, url, i + 1) + bucket_lines(es, url, i));
    } else {
        assert(rendered_from(es, url, j).is_prefix_of(rendered_from(es, url, i)));
    }
}

/// Within a section, the bullet at place `t` is that of the message added
/// `t`-th from the last, so each message has exactly one bullet, newest first.
pub proof fn law_section_bullets(items: Seq<Seq<char>>, title: Seq<char>, t: int)
    requires
        0 <= t < items.len(),
    ensures
        section_spec(items, title).len() == items.len() + 3,
        section_spec(items, title)[2 + t] == bullet_spec(items[items.len() - 1 - t]),
        section_spec(items, title).subrange(2, 2 + items.len() as int) == bullets_newest_first(
            items,
            items.len() as int,
        ),
{
    let s = section_spec(items, title);
    assert(s.subrange(2, 2 + items.len() as int) =~= bullets_newest_first(items, items.len() as int));
}

/// A bucket without a message under `feat`, `refactor` or `fix` renders no line.
pub proof fn law_empty_bucket_omitted(es: Seq<(Seq<char>, BucketView)>, url: Seq<char>, i: int)
    requires
        0 <= i < es.len(),
        !any_entries(es[i].1.entries),
    ensures
        bucket_lines(es, url, i) == Seq::<Seq<char>>::empty(),
{
}

/// The line adds no message under a recognised scope and tags no version.
pub open spec fn quiet_line(pl: ParsedLine) -> bool {
    line_tag(pl) is None && !(pl.scope is Some && pl.message is Some && is_known_scope(
        pl.scope.unwrap(),
    ))
}

proof fn lemma_quiet_prefix(log: Seq<Seq<char>>, k: nat)
    requires
        k <= log.len(),
        forall|j: int| 0 <= j < k ==> quiet_line(#[trigger] parse_spec(log[log.len() - 1 - j])),
    ensures
        state_after(log, k).done == Seq::<(Seq<char>, BucketView)>::empty(),
        state_after(log, k).cur == empty_entries(),
    decreases k,
{
    if k > 0 {
        lemma_quiet_prefix(log, (k - 1) as nat);
        let pl = parse_spec(log[log.len() - k]);
        assert(quiet_line(parse_spec(log[log.len() - 1 - (k - 1)])));
        reveal_strlit("feat");
        reveal_strlit("refactor");
        reveal_strlit("fix");
        assert("feat"@.len() == 4 && "refactor"@.len() == 8 && "fix"@.len() == 3);
        assert(state_after(log, k).cur =~= empty_entries());
    }
}

/// When the oldest tag of a log is the first release and no line before it,
/// nor the tagged line itself, holds a message under `feat`, `refactor` or
/// `fix`, that release is sealed first with the one entry `initial release`
/// under `feat`, and renders as an Added section with one bullet.
pub proof fn law_first_release_seeded(log: Seq<Seq<char>>, k: nat)
    requires
        k < log.len(),
        forall|j: int| 0 <= j < k ==> quiet_line(#[trigger] parse_spec(log[log.len() - 1 - j])),
        line_tag(parse_spec(log[log.len() - 1 - k])) matches Some(v) && is_first_release(v),
        quiet_line(
            ParsedLine { refs: None, ..parse_spec(log[log.len() - 1 - k]) },
        ),
    ensures
        state_after(log, k + 1).done.len() == 1,
        state_after(log, k + 1).done[0].0 == line_tag(parse_spec(log[log.len() - 1 - k])).unwrap(),
        state_after(log, k + 1).done[0].1.entries == (EntriesView {
            added: seq!["initial release"@],
            changed: seq![],
            fixed: seq![],
        }),
        sections_spec(state_after(log, k + 1).done[0].1.entries) == seq![
            "### "@ + "Added"@,
            seq![],
            bullet_spec("initial release"@),
            seq![],
        ],
{
    lemma_quiet_prefix(log, k);
    let st = state_after(log, k);
    let line = log[log.len() - (k + 1)];
    assert(line == log[log.len() - 1 - k]);
    let pl = parse_spec(line);
    let v = line_tag(pl).unwrap();
    reveal_strlit("feat");
    reveal_strlit("refactor");
    reveal_strlit("fix");
    assert("feat"@.len() == 4 && "refactor"@.len() == 8 && "fix"@.len() == 3);
    let cur = if pl.scope is Some && pl.message is Some {
        add_entry(st.cur, pl.scope.unwrap(), pl.message.unwrap())
    } else {
        st.cur
    };
    assert(cur =~= empty_entries());
    assert(find_label(st.done, v, 0) is None);
    let e = seed(v, cur);
    assert(e.added =~= seq!["initial release"@]);
    assert(e.changed =~= Seq::<Seq<char>>::empty());
    assert(e.fixed =~= Seq::<Seq<char>>::empty());
    let items = e.added;
    assert(bullets_newest_first(items, 1) =~= seq![bullet_spec("initial release"@)]);
    assert(sections_spec(e) =~= seq!["### "@ + "Added"@, seq![], bullet_spec("initial release"@), seq![]]);
}

/// A message under a recognised scope goes to the end of that scope's list
/// in the bucket that its line belongs to: the one the line seals, if it
/// carries a version tag, else the one still being filled.
pub proof fn law_message_lands(st: GroupState, line: Seq<char>)
    requires
        parse_spec(line).scope matches Some(sc) && is_known_scope(sc),
        parse_spec(line).message is Some,
    ensures
        ({
            let pl = parse_spec(line);
            let sc = pl.scope.unwrap();
            let msg = pl.message.unwrap();
            match line_tag(pl) {
                Some(v) => {
                    let es = step(st, line).done;
                    let i = find_label(es, v, 0);
                    i is Some && scope_items(es[i.unwrap()].1.entries, sc).last() == msg
                },
                None => scope_items(step(st, line).cur, sc).last() == msg,
            }
        }),
{
    let pl = parse_spec(line);
    reveal_strlit("feat");
    reveal_strlit("refactor");
    reveal_strlit("fix");
    assert("feat"@.len() == 4 && "refactor"@.len() == 8 && "fix"@.len() == 3);
    match line_tag(pl) {
        Some(v) => {
            let e = BucketView {
                date: step(st, line).date,
                entries: seed(v, add_entry(st.cur, pl.scope.unwrap(), pl.message.unwrap())),
            };
            lemma_upsert_finds(st.done, v, e);
        },
        None => {},
    }
}

proof fn lemma_find_label_some(es: Seq<(Seq<char>, BucketView)>, k: Seq<char>, i: int)
    requires
        0 <= i,
    ensures
        find_label(es, k, i) matches Some(j) ==> i <= j < es.len() && es[j].0 == k && forall|m: int|
            i <= m < j ==> es[m].0 != k,
        find_label(es, k, i) is None ==> forall|j: int| i <= j < es.len() ==> es[j].0 != k,
    decreases es.len() - i,
{
    if i < es.len() && es[i].0 != k {
        lemma_find_label_some(es, k, i + 1);
    }
}

proof fn lemma_upsert_finds(es: Seq<(Seq<char>, BucketView)>, k: Seq<char>, v: BucketView)
    ensures
        find_label(upsert(es, k, v), k, 0) matches Some(j) && upsert(es, k, v)[j].1 == v,
{
    lemma_find_label_some(es, k, 0);
    let u = upsert(es, k, v);
    lemma_find_label_some(u, k, 0);
    match find_label(es, k, 0) {
        Some(j) => {
            lemma_find_label_first(es, k, 0, j);
            lemma_find_label_first(u, k, 0, j);
        },
        None => {
            lemma_find_label_first(u, k, 0, es.len() as int);
        },
    }
}

/// Where no earlier label matches and label `j` does, the search finds `j`.
proof fn lemma_find_label_first(es: Seq<(Seq<char>, BucketView)>, k: Seq<char>, i: int, j: int)
    requires
        0 <= i <= j < es.len(),
        es[j].0 == k,
        forall|m: int| i <= m < j ==> es[m].0 != k,
    ensures
        find_label(es, k, i) == Some(j),
    decreases j - i,
{
    if i < j {
        lemma_find_label_first(es, k, i + 1, j);
    }
}

/// Line `j` of a newest-first log counted from its oldest line.
pub open spec fn chron_line(log: Seq<Seq<char>>, j: int) -> Seq<char> {
    log[log.len() - 1 - j]
}

/// `e` with the message of a parsed line added under its scope, if it has both.
pub open spec fn line_entries(e: EntriesView, pl: ParsedLine) -> EntriesView {
    if pl.scope is Some && pl.message is Some {
        add_entry(e, pl.scope.unwrap(), pl.message.unwrap())
    } else {
        e
    }
}

/// The messages of the lines from `a` up to `b` (excluded), oldest first,
/// each under its scope.
pub open spec fn collect(log: Seq<Seq<char>>, a: int, b: int) -> EntriesView
    decreases b - a,
{
    if b <= a {
        empty_entries()
    } else {
        line_entries(collect(log, a, b - 1), parse_spec(chron_line(log, b - 1)))
    }
}

/// The position of the last tagged line before position `k`, or -1.
pub open spec fn last_tag_before(log: Seq<Seq<char>>, k: int) -> int
    decreases k,
{
    if k <= 0 {
        -1
    } else if line_tag(parse_spec(chron_line(log, k - 1))) is Some {
        k - 1
    } else {
        last_tag_before(log, k - 1)
    }
}

proof fn lemma_last_tag_bounds(log: Seq<Seq<char>>, k: int)
    requires
        0 <= k,
    ensures
        -1 <= last_tag_before(log, k) < k,
    decreases k,
{
    if k > 0 {
        lemma_last_tag_bounds(log, k - 1);
    }
}

proof fn lemma_cur_is_segment(log: Seq<Seq<char>>, k: nat)
    requires
        k <= log.len(),
    ensures
        state_after(log, k).cur == collect(log, last_tag_before(log, k as int) + 1, k as int),
    decreases k,
{
    if k > 0 {
        lemma_cur_is_segment(log, (k - 1) as nat);
        lemma_last_tag_bounds(log, k - 1);
        assert(chron_line(log, k - 1) == log[log.len() - k]);
    }
}

/// The bucket that a tagged line seals holds the messages of the lines
/// since the previous tagged line, up to and including this one, each once
/// under its own scope (with the first-release entry where that applies).
pub proof fn law_sealed_bucket(log: Seq<Seq<char>>, t: int)
    requires
        0 <= t < log.len(),
        line_tag(parse_spec(chron_line(log, t))) is Some,
    ensures
        ({
            let v = line_tag(parse_spec(chron_line(log, t))).unwrap();
            let es = state_after(log, (t + 1) as nat).done;
            let i = find_label(es, v, 0);
            i is Some && es[i.unwrap()].1.entries == seed(
                v,
                collect(log, last_tag_before(log, t) + 1, t + 1),
            )
        }),
{
    lemma_cur_is_segment(log, t as nat);
    lemma_last_tag_bounds(log, t);
    let st = state_after(log, t as nat);
    let line = chron_line(log, t);
    assert(line == log[log.len() - (t + 1)]);
    let pl = parse_spec(line);
    let v = line_tag(pl).unwrap();
    let date = match pl.date {
        Some(d) => d,
        None => st.date,
    };
    let e = BucketView { date, entries: seed(v, line_entries(st.cur, pl)) };
    lemma_upsert_finds(st.done, v, e);
}

proof fn lemma_upsert_other(es: Seq<(Seq<char>, BucketView)>, k: Seq<char>, k2: Seq<char>, x: BucketView)
    requires
        k != k2,
        find_label(es, k, 0) is Some,
    ensures
        find_label(upsert(es, k2, x), k, 0) == find_label(es, k, 0),
        upsert(es, k2, x)[find_label(es, k, 0).unwrap()] == es[find_label(es, k, 0).unwrap()],
{
    lemma_find_label_some(es, k, 0);
    lemma_find_label_some(es, k2, 0);
    let j = find_label(es, k, 0).unwrap();
    let u = upsert(es, k2, x);
    assert(forall|m: int| 0 <= m < j ==> u[m].0 != k);
    lemma_find_label_first(u, k, 0, j);
}

/// Once sealed, a bucket is kept as it is to the end, unless a later line
/// tags the same version again.
pub proof fn law_sealed_bucket_kept(log: Seq<Seq<char>>, t: int)
    requires
        0 <= t < log.len(),
        line_tag(parse_spec(chron_line(log, t))) is Some,
        forall|j: int|
            t < j < log.len() ==> line_tag(parse_spec(#[trigger] chron_line(log, j))) != line_tag(
                parse_spec(chron_line(log, t)),
            ),
    ensures
        ({
            let v = line_tag(parse_spec(chron_line(log, t))).unwrap();
            let es = state_after(log, (t + 1) as nat).done;
            let i = find_label(es, v, 0).unwrap();
            find_label(group_spec(log), v, 0) == Some(i) && group_spec(log)[i] == es[i]
        }),
{
    law_sealed_bucket(log, t);
    let v = line_tag(parse_spec(chron_line(log, t))).unwrap();
    let es = state_after(log, (t + 1) as nat).done;
    let i = find_label(es, v, 0).unwrap();
    lemma_kept_from(log, t, v, i, log.len());
    let st = state_after(log, log.len());
    lemma_tag_not_unreleased(parse_spec(chron_line(log, t)));
    lemma_upsert_other(st.done, v, unreleased_label(), BucketView { date: st.date, entries: st.cur });
}

proof fn lemma_kept_from(log: Seq<Seq<char>>, t: int, v: Seq<char>, i: int, k: nat)
    requires
        0 <= t < log.len(),
        t + 1 <= k <= log.len(),
        line_tag(parse_spec(chron_line(log, t))) == Some(v),
        forall|j: int|
            t < j < log.len() ==> line_tag(parse_spec(#[trigger] chron_line(log, j))) != Some(v),
        find_label(state_after(log, (t + 1) as nat).done, v, 0) == Some(i),
    ensures
        find_label(state_after(log, k).done, v, 0) == Some(i),
        state_after(log, k).done[i] == state_after(log, (t + 1) as nat).done[i],
    decreases k,
{
    if k > t + 1 {
        lemma_kept_from(log, t, v, i, (k - 1) as nat);
        let st = state_after(log, (k - 1) as nat);
        let line = log[log.len() - k];
        assert(line == chron_line(log, k - 1));
        let pl = parse_spec(line);
        match line_tag(pl) {
            Some(w) => {
                let date = match pl.date {
                    Some(d) => d,
                    None => st.date,
                };
                let e = BucketView { date, entries: seed(w, line_entries(st.cur, pl)) };
                lemma_upsert_other(st.done, v, w, e);
            },
            None => {},
        }
    }
}

proof fn lemma_version_end_at_least(s: Seq<char>, u: int)
    requires
        0 <= u <= s.len(),
    ensures
        u <= version_end(s, u) <= s.len(),
    decreases s.len() - u,
{
    if u < s.len() && is_version_char(s[u]) {
        lemma_version_end_at_least(s, u + 1);
    }
}

proof fn lemma_tag_from_at(s: Seq<char>, t: int)
    requires
        0 <= t,
    ensures
        tag_from(s, t) matches Some(x) ==> tag_at(s, x) && t <= x,
    decreases s.len() - t,
{
    if t < s.len() && !tag_at(s, t) {
        lemma_tag_from_at(s, t + 1);
    }
}

/// A version tag starts with `v`, a digit or a dot, so no tag is the
/// unreleased label.
proof fn lemma_tag_not_unreleased(pl: ParsedLine)
    ensures
        line_tag(pl) is Some ==> line_tag(pl).unwrap() != unreleased_label(),
{
    if let Some(r) = pl.refs {
        lemma_tag_from_at(r, 0);
        if let Some(t) = tag_from(r, 0) {
            let u = version_digits_start(r, t);
            lemma_version_end_at_least(r, u + 1);
            assert(version_end(r, u) == version_end(r, u + 1));
            let v = r.subrange(t + 5, version_end(r, u));
            assert(v.len() > 0);
            assert(v[0] == r[t + 5]);
            reveal_strlit("unreleased");
            assert("unreleased"@.len() == 10);
            assert("unreleased"@[0] == 'u');
            assert(v[0] != unreleased_label()[0]);
        }
    }
}

/// The last bucket is the unreleased one, and it holds the messages of the
/// lines after the last tagged line, each once under its own scope.
pub proof fn law_unreleased_last(log: Seq<Seq<char>>)
    ensures
        group_spec(log).len() > 0,
        group_spec(log).last().0 == unreleased_label(),
        group_spec(log).last().1.entries == collect(
            log,
            last_tag_before(log, log.len() as int) + 1,
            log.len() as int,
        ),
{
    lemma_cur_is_segment(log, log.len());
    lemma_no_unreleased_done(log, log.len());
    let st = state_after(log, log.len());
    lemma_find_label_some(st.done, unreleased_label(), 0);
}

proof fn lemma_no_unreleased_done(log: Seq<Seq<char>>, k: nat)
    requires
        k <= log.len(),
    ensures
        find_label(state_after(log, k).done, unreleased_label(), 0) is None,
    decreases k,
{
    if k > 0 {
        lemma_no_unreleased_done(log, (k - 1) as nat);
        let st = state_after(log, (k - 1) as nat);
        let line = log[log.len() - k];
        let pl = parse_spec(line);
        lemma_tag_not_unreleased(pl);
        match line_tag(pl) {
            Some(w) => {
                let date = match pl.date {
                    Some(d) => d,
                    None => st.date,
                };
                let e = BucketView { date, entries: seed(w, line_entries(st.cur, pl)) };
                lemma_find_label_some(st.done, unreleased_label(), 0);
                lemma_find_label_some(st.done, w, 0);
                let u = upsert(st.done, w, e);
                lemma_find_label_some(u, unreleased_label(), 0);
                assert(forall|m: int| 0 <= m < u.len() ==> u[m].0 != unreleased_label());
            },
            None => {},
        }
    }
}

/// Every message under `feat`, `refactor` or `fix` of the lines from just
/// after one tagged line up to and including the next (whose version no later
/// line tags again) is rendered once, under its own section, in that
/// version's block: the block is the version's heading followed by the
/// sections of exactly those messages (with the first-release entry where
/// that applies).
pub proof fn law_messages_rendered_in_their_version(log: Seq<Seq<char>>, url: Seq<char>, t: int)
    requires
        0 <= t < log.len(),
        line_tag(parse_spec(chron_line(log, t))) is Some,
        forall|j: int|
            t < j < log.len() ==> line_tag(parse_spec(#[trigger] chron_line(log, j))) != line_tag(
                parse_spec(chron_line(log, t)),
            ),
    ensures
        ({
            let v = line_tag(parse_spec(chron_line(log, t))).unwrap();
            let es = group_spec(log);
            let e = seed(v, collect(log, last_tag_before(log, t) + 1, t + 1));
            find_label(es, v, 0) matches Some(i) && es[i].0 == v && es[i].1.entries == e && (
            any_entries(e) ==> bucket_lines(es, url, i) == seq![
                header_spec(prev_label(es, i), v, url, es[i].1.date),
                Seq::<char>::empty(),
            ] + sections_spec(e)) && (!any_entries(e) ==> bucket_lines(es, url, i)
                == Seq::<Seq<char>>::empty())
        }),
{
    law_sealed_bucket(log, t);
    law_sealed_bucket_kept(log, t);
    let v = line_tag(parse_spec(chron_line(log, t))).unwrap();
    lemma_find_label_some(group_spec(log), v, 0);
}

/// The messages after the last tagged line are rendered once each, under
/// their own sections, in the Unreleased block, which comes first.
pub proof fn law_unreleased_rendered_first(log: Seq<Seq<char>>, url: Seq<char>)
    ensures
        ({
            let es = group_spec(log);
            let e = collect(log, last_tag_before(log, log.len() as int) + 1, log.len() as int);
            let i = es.len() - 1;
            rendered_from(es, url, i) == bucket_lines(es, url, i) && (any_entries(e)
                ==> bucket_lines(es, url, i) == seq![
                header_spec(prev_label(es, i), unreleased_label(), url, es[i].1.date),
                Seq::<char>::empty(),
            ] + sections_spec(e))
        }),
{
    law_unreleased_last(log);
    let es = group_spec(log);
    let i = es.len() - 1;
    assert(rendered_from(es, url, i + 1) == Seq::<Seq<char>>::empty());
    assert(rendered_from(es, url, i) =~= bucket_lines(es, url, i));
}

/// When the oldest tag is the first release, no line before it nor the
/// tagged line itself holds a message under `feat`, `refactor` or `fix`,
/// and no later line tags it again, the rendered block of that release is
/// its release-link heading and an Added section with the one bullet of
/// `initial release`.
pub proof fn law_first_release_rendered(log: Seq<Seq<char>>, url: Seq<char>, k: nat)
    requires
        k < log.len(),
        forall|j: int| 0 <= j < k ==> quiet_line(#[trigger] parse_spec(log[log.len() - 1 - j])),
        line_tag(parse_spec(log[log.len() - 1 - k])) matches Some(v) && is_first_release(v),
        quiet_line(
            ParsedLine { refs: None, ..parse_spec(log[log.len() - 1 - k]) },
        ),
        forall|j: int|
            k < j < log.len() ==> line_tag(parse_spec(#[trigger] chron_line(log, j))) != line_tag(
                parse_spec(chron_line(log, k as int)),
            ),
    ensures
        ({
            let es = group_spec(log);
            let v = line_tag(parse_spec(log[log.len() - 1 - k])).unwrap();
            es[0].0 == v && bucket_lines(es, url, 0) == seq![
                header_spec(None, v, url, es[0].1.date),
                Seq::<char>::empty(),
                "### "@ + "Added"@,
                Seq::<char>::empty(),
                bullet_spec("initial release"@),
                Seq::<char>::empty(),
            ]
        }),
{
    law_first_release_seeded(log, k);
    law_sealed_bucket_kept(log, k as int);
    let v = line_tag(parse_spec(log[log.len() - 1 - k])).unwrap();
    let done = state_after(log, k + 1).done;
    lemma_find_label_some(done, v, 0);
    let es = group_spec(log);
    let e = es[0].1.entries;
    assert(any_entries(e));
    assert(bucket_lines(es, url, 0) =~= seq![
        header_spec(None, v, url, es[0].1.date),
        Seq::<char>::empty(),
        "### "@ + "Added"@,
        Seq::<char>::empty(),
        bullet_spec("initial release"@),
        Seq::<char>::empty(),
    ]);
}

} // verus!
