use vstd::prelude::*;
use indexmap::IndexMap;
use crate::bucket::{
    add_entry, any_chunks, any_entries, empty_entries, same_text, texts, upsert, version_entries,
    versions_insert, versions_new, Bucket, BucketView, Entries, EntriesView,
};
use crate::parse::{parse_line, parse_spec, ParsedLine};
use crate::tag::{tag_spec, tag_version};

verus! {

/// The grouper between two lines: the sealed versions, the last date
/// seen, and the messages of the bucket being filled.
pub ghost struct GroupState {
    pub done: Seq<(Seq<char>, BucketView)>,
    pub date: Seq<char>,
    pub cur: EntriesView,
}

/// The version that a parsed line tags, if any.
pub open spec fn line_tag(pl: ParsedLine) -> Option<Seq<char>> {
    match pl.refs {
        Some(r) => tag_spec(r),
        None => None,
    }
}

/// The label of the first release.
pub open spec fn is_first_release(v: Seq<char>) -> bool {
    v == "v1.0.0"@ || v == "1.0.0"@
}

/// The entries sealed under `v`: the first release, when it would be empty,
/// gets the single entry `initial release` under `feat`.
pub open spec fn seed(v: Seq<char>, e: EntriesView) -> EntriesView {
    if is_first_release(v) && !any_entries(e) {
        add_entry(e, "feat"@, "initial release"@)
    } else {
        e
    }
}

/// The grouper after one more line, oldest first.
pub open spec fn step(st: GroupState, line: Seq<char>) -> GroupState {
    let pl = parse_spec(line);
    let date = match pl.date {
        Some(d) => d,
        None => st.date,
    };
    let cur = if pl.scope is Some && pl.message is Some {
        add_entry(st.cur, pl.scope.unwrap(), pl.message.unwrap())
    } else {
        st.cur
    };
    match line_tag(pl) {
        Some(v) => GroupState {
            done: upsert(st.done, v, BucketView { date, entries: seed(v, cur) }),
            date,
            cur: empty_entries(),
        },
        None => GroupState { done: st.done, date, cur },
    }
}

pub open spec fn initial_state() -> GroupState {
    GroupState { done: seq![], date: seq![], cur: empty_entries() }
}

/// The grouper after the `k` oldest lines of a newest-first log.
pub open spec fn state_after(log: Seq<Seq<char>>, k: nat) -> GroupState
    decreases k,
{
    if k == 0 {
        initial_state()
    } else {
        step(state_after(log, (k - 1) as nat), log[log.len() - k])
    }
}

/// The label of the bucket that holds the commits after the last tag.
pub open spec fn unreleased_label() -> Seq<char> {
    "unreleased"@
}

/// The version buckets of a newest-first log, oldest first, ending with
/// the unreleased bucket.
pub open spec fn group_spec(log: Seq<Seq<char>>) -> Seq<(Seq<char>, BucketView)> {
    let st = state_after(log, log.len());
    upsert(st.done, unreleased_label(), BucketView { date: st.date, entries: st.cur })
}

/// Walks a newest-first log from its oldest line and seals a bucket at each
/// version tag, then seals what is left under `unreleased`.
pub fn group_lines(log: &Vec<String>) -> (r: IndexMap<String, Bucket>)
    ensures
        version_entries(r) == group_spec(texts(log@)),
{
    let ghost lv = texts(log@);
    let n = log.len();
    let mut chunks = versions_new();
    let mut date = String::new();
    let mut cur = Entries::new();
    let mut k: usize = 0;
    while k < n
        invariant
            n == log@.len() == lv.len(),
            lv == texts(log@),
            k <= n,
            version_entries(chunks) == state_after(lv, k as nat).done,
            date@ == state_after(lv, k as nat).date,
            cur@ == state_after(lv, k as nat).cur,
        decreases n - k,
    {
        let line = &log[n - 1 - k];
        assert(line@ == lv[lv.len() - (k + 1)]);
        let pl = parse_line(line.as_str());
        let ghost pv = parse_spec(line@);
        if let Some(d) = pl.date {
            date = d;
        }
        if let (Some(scope), Some(msg)) = (pl.scope, pl.message) {
            cur.add(scope.as_str(), msg);
        }
        let tag = match pl.refs {
            Some(refs) => tag_version(refs.as_str()),
            None => None,
        };
        assert(tag.is_some() == line_tag(pv).is_some());
        if let Some(v) = tag {
            if (same_text(v.as_str(), "v1.0.0") || same_text(v.as_str(), "1.0.0")) && !any_chunks(
                &cur,
            ) {
                cur.add("feat", String::from_str("initial release"));
            }
            let sealed = Bucket { date: date.clone(), entries: cur };
            versions_insert(&mut chunks, v, sealed);
            cur = Entries::new();
        }
        k = k + 1;
    }
    versions_insert(&mut chunks, String::from_str("unreleased"), Bucket { date, entries: cur });
    chunks
}

} // verus!
