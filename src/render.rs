use vstd::prelude::*;
use indexmap::IndexMap;
use crate::bucket::{
    any_chunks, any_entries, same_text, scope_items, texts, version_entries,
    versions_get, versions_len, Bucket, BucketView, Entries, EntriesView,
};
use crate::group::{group_lines, group_spec};
use crate::parse::{lines_from, split_lines};
use crate::text::{base_url, join_lines, join_lines_exec, strip_dot_git, trim_end, trim_end_spec};

verus! {

/// What `char::to_uppercase` yields for `c`.
pub uninterp spec fn upper_of(c: char) -> Seq<char>;

/// Relies on `char::to_uppercase`: the upper-case form of `c`, which depends on `c` alone.
#[verifier::external_body]
fn upper_char(c: char) -> (r: String)
    ensures
        r@ == upper_of(c),
{
    c.to_uppercase().collect::<String>()
}

/// `m` with its first character upper-cased.
pub open spec fn capitalize(m: Seq<char>) -> Seq<char> {
    if m.len() == 0 {
        m
    } else {
        upper_of(m[0]) + m.drop_first()
    }
}

/// The bullet line of one message.
pub open spec fn bullet_spec(m: Seq<char>) -> Seq<char> {
    "* "@ + capitalize(m)
}

/// The bullets of `items`, the last added first.
pub open spec fn bullets_newest_first(items: Seq<Seq<char>>, j: int) -> Seq<Seq<char>> {
    Seq::new(j as nat, |t: int| bullet_spec(items[items.len() - 1 - t]))
}

/// The lines of one section: nothing for no messages, else a level-3
/// heading, a blank line, the bullets newest first and a blank line.
pub open spec fn section_spec(items: Seq<Seq<char>>, title: Seq<char>) -> Seq<Seq<char>> {
    if items.len() == 0 {
        seq![]
    } else {
        seq!["### "@ + title, seq![]] + bullets_newest_first(items, items.len() as int) + seq![
            seq![],
        ]
    }
}

/// The text that a heading shows for a version label.
pub open spec fn label_text(version: Seq<char>) -> Seq<char> {
    if version == "unreleased"@ {
        "Unreleased"@
    } else {
        version
    }
}

/// The level-2 heading of a version: a comparison link against the previous
/// version, or a release link for the earliest one.
pub open spec fn header_spec(prev: Option<Seq<char>>, version: Seq<char>, url: Seq<char>, date: Seq<char>) -> Seq<char> {
    match prev {
        Some(p) => "## ["@ + label_text(version) + "]("@ + url + "/compare/"@ + p + "..."@ + version
            + ") - "@ + date,
        None => "## ["@ + label_text(version) + "]("@ + url + "/releases/tag/"@ + version + ") - "@
            + date,
    }
}

/// The label before position `i`, if any.
pub open spec fn prev_label(es: Seq<(Seq<char>, BucketView)>, i: int) -> Option<Seq<char>> {
    if i > 0 {
        Some(es[i - 1].0)
    } else {
        None
    }
}

/// The sections of a bucket, in the order Added, Changed, Fixed.
pub open spec fn sections_spec(e: EntriesView) -> Seq<Seq<char>> {
    section_spec(e.added, "Added"@) + section_spec(e.changed, "Changed"@) + section_spec(
        e.fixed,
        "Fixed"@,
    )
}

/// The lines of bucket `i`: none when it has no message, else its heading,
/// a blank line and its sections.
pub open spec fn bucket_lines(es: Seq<(Seq<char>, BucketView)>, url: Seq<char>, i: int) -> Seq<Seq<char>> {
    if any_entries(es[i].1.entries) {
        seq![header_spec(prev_label(es, i), es[i].0, url, es[i].1.date), seq![]] + sections_spec(
            es[i].1.entries,
        )
    } else {
        seq![]
    }
}

/// The lines of the buckets from the newest down to position `i`.
pub open spec fn rendered_from(es: Seq<(Seq<char>, BucketView)>, url: Seq<char>, i: int) -> Seq<Seq<char>>
    decreases es.len() - i,
{
    if i < 0 || i >= es.len() {
        seq![]
    } else {
        rendered_from(es, url, i + 1) + bucket_lines(es, url, i)
    }
}

/// All lines of the document: its title, a blank line, then every bucket newest first.
pub open spec fn doc_lines(es: Seq<(Seq<char>, BucketView)>, url: Seq<char>) -> Seq<Seq<char>> {
    seq!["# Changelog"@, seq![]] + rendered_from(es, url, 0)
}

/// The markdown document for the buckets `es` and the base URL `url`.
pub open spec fn changelog_spec(es: Seq<(Seq<char>, BucketView)>, url: Seq<char>) -> Seq<char> {
    trim_end_spec(join_lines(doc_lines(es, url)))
}

/// The heading lines of `version`: the level-2 heading and a blank line.
pub fn get_header(version0: Option<String>, version: &str, url: &str, date: &str) -> (r: Vec<String>)
    ensures
        texts(r@) == seq![
            header_spec(
                match version0 {
                    Some(p) => Some(p@),
                    None => None,
                },
                version@,
                url@,
                date@,
            ),
            seq![],
        ],
{
    let mut h = String::from_str("## [");
    if same_text(version, "unreleased") {
        h.append("Unreleased");
    } else {
        h.append(version);
    }
    h.append("](");
    h.append(url);
    match version0 {
        Some(prev) => {
            h.append("/compare/");
            h.append(prev.as_str());
            h.append("...");
        },
        None => {
            h.append("/releases/tag/");
        },
    }
    h.append(version);
    h.append(") - ");
    h.append(date);
    let r = vec![h, String::new()];
    assert(texts(r@) =~= seq![h@, seq![]]);
    r
}

/// The bullet line of a message whose first character, upper-cased, is
/// `first`: `* `, then `first`, then the rest of `s`.
pub fn bullet_with_first(first: &str, s: &str) -> (r: String)
    ensures
        s@.len() == 0 ==> r@ == "* "@,
        s@.len() > 0 ==> r@ == "* "@ + first@ + s@.drop_first(),
{
    let mut r = String::from_str("* ");
    let n = s.unicode_len();
    if n > 0 {
        r.append(first);
        r.append(s.substring_char(1, n));
        assert(s@.subrange(1, n as int) =~= s@.drop_first());
    } else {
        assert(s@ =~= Seq::<char>::empty());
    }
    r
}

/// The bullet line of one message: `* ` and the message with its first
/// character upper-cased.
pub fn get_list_bullet(s: &str) -> (r: String)
    ensures
        r@ == bullet_spec(s@),
{
    let n = s.unicode_len();
    if n > 0 {
        let up = upper_char(s.get_char(0));
        bullet_with_first(up.as_str(), s)
    } else {
        let r = bullet_with_first("", s);
        assert(r@ =~= "* "@ + s@);
        r
    }
}

/// The lines of the section `header` for the messages under `scope`.
pub fn get_chunk(chunk0: &Entries, scope: &str, header: &str) -> (r: Vec<String>)
    ensures
        texts(r@) == section_spec(scope_items(chunk0@, scope@), header@),
{
    let mut chunk: Vec<String> = Vec::new();
    let items: &Vec<String> = if same_text(scope, "feat") {
        &chunk0.added
    } else if same_text(scope, "refactor") {
        &chunk0.changed
    } else if same_text(scope, "fix") {
        &chunk0.fixed
    } else {
        assert(texts(chunk@) =~= seq![]);
        return chunk;
    };
    let ghost iv = texts(items@);
    assert(iv == scope_items(chunk0@, scope@));
    let n = items.len();
    if n == 0 {
        assert(texts(chunk@) =~= seq![]);
        return chunk;
    }
    let mut title = String::from_str("### ");
    title.append(header);
    chunk.push(title);
    chunk.push(String::new());
    let ghost head = seq!["### "@ + header@, Seq::<char>::empty()];
    assert(texts(chunk@) =~= head + bullets_newest_first(iv, 0));
    let mut j: usize = 0;
    while j < n
        invariant
            n == items@.len() == iv.len(),
            iv == texts(items@),
            j <= n,
            texts(chunk@) == head + bullets_newest_first(iv, j as int),
        decreases n - j,
    {
        let b = get_list_bullet(items[n - 1 - j].as_str());
        let ghost prev = texts(chunk@);
        assert(iv[n - 1 - j] == items@[n - 1 - j]@);
        chunk.push(b);
        assert(texts(chunk@) =~= prev.push(b@));
        assert(bullets_newest_first(iv, j + 1) =~= bullets_newest_first(iv, j as int).push(
            bullet_spec(iv[n - 1 - j]),
        ));
        assert(texts(chunk@) =~= head + bullets_newest_first(iv, j + 1));
        j = j + 1;
    }
    chunk.push(String::new());
    assert(texts(chunk@) =~= head + bullets_newest_first(iv, n as int) + seq![Seq::<char>::empty()]);
    chunk
}

/// Renders the buckets newest first under the title `# Changelog`, with
/// trailing white space removed.
pub fn get_changelog(chunks: &IndexMap<String, Bucket>, url: &str) -> (r: String)
    ensures
        r@ == changelog_spec(version_entries(*chunks), url@),
{
    let ghost es = version_entries(*chunks);
    let mut changelog: Vec<String> = vec![String::from_str("# Changelog"), String::new()];
    let ghost head = seq!["# Changelog"@, Seq::<char>::empty()];
    let n = versions_len(chunks);
    assert(texts(changelog@) =~= head + rendered_from(es, url@, n as int));
    let mut i: usize = n;
    while i > 0
        invariant
            n == es.len(),
            es == version_entries(*chunks),
            i <= n,
            texts(changelog@) == head + rendered_from(es, url@, i as int),
        decreases i,
    {
        let (version, bucket) = versions_get(chunks, i - 1).unwrap();
        let version0 = if i - 1 > 0 {
            let (prev, _) = versions_get(chunks, i - 2).unwrap();
            Some(prev.clone())
        } else {
            None
        };
        let ghost before = texts(changelog@);
        if any_chunks(&bucket.entries) {
            let mut part = get_header(version0, version.as_str(), url, bucket.date.as_str());
            let mut added = get_chunk(&bucket.entries, "feat", "Added");
            let mut changed = get_chunk(&bucket.entries, "refactor", "Changed");
            let mut fixed = get_chunk(&bucket.entries, "fix", "Fixed");
            proof {
                reveal_strlit("feat");
                reveal_strlit("refactor");
                reveal_strlit("fix");
                assert("feat"@.len() == 4 && "refactor"@.len() == 8 && "fix"@.len() == 3);
            }
            let ghost head_lines = texts(part@);
            let ghost added_lines = texts(added@);
            let ghost changed_lines = texts(changed@);
            let ghost fixed_lines = texts(fixed@);
            changelog.append(&mut part);
            changelog.append(&mut added);
            changelog.append(&mut changed);
            changelog.append(&mut fixed);
            assert(texts(changelog@) =~= before + head_lines + added_lines + changed_lines + fixed_lines);
            assert(bucket_lines(es, url@, i - 1) =~= head_lines + added_lines + changed_lines + fixed_lines);
        }
        assert(rendered_from(es, url@, i - 1) == rendered_from(es, url@, i as int) + bucket_lines(
            es,
            url@,
            i - 1,
        ));
        assert(texts(changelog@) =~= head + rendered_from(es, url@, i - 1));
        i = i - 1;
    }
    let joined = join_lines_exec(&changelog);
    assert(changelog@.map_values(|s: String| s@) == texts(changelog@));
    trim_end(joined.as_str())
}

/// The changelog of a newest-first log, with links built on the remote URL
/// `remote` as the version-control tool prints it.
pub fn changelog(log: &Vec<String>, remote: &str) -> (r: String)
    ensures
        r@ == changelog_spec(group_spec(texts(log@)), strip_dot_git(trim_end_spec(remote@))),
{
    let url = base_url(remote);
    let chunks = group_lines(log);
    get_changelog(&chunks, url.as_str())
}

/// The changelog of a log given as one text, newest line first, with links
/// built on the remote URL `remote` as the version-control tool prints it.
pub fn changelog_from_text(log: &str, remote: &str) -> (r: String)
    ensures
        r@ == changelog_spec(group_spec(lines_from(log@, 0)), strip_dot_git(trim_end_spec(remote@))),
{
    let lines = split_lines(log);
    assert(texts(lines@) == lines@.map_values(|l: String| l@));
    changelog(&lines, remote)
}

} // verus!
