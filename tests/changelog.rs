use changelog::bucket::{any_chunks, has_chunk, Entries};
use changelog::group::group_lines;
use changelog::parse::{parse_line, split_lines};
use changelog::render::{
    bullet_with_first, changelog, changelog_from_text, get_changelog, get_chunk, get_header, get_list_bullet,
};
use changelog::tag::tag_version;
use changelog::text::{base_url, trim_end};

fn log(lines: &[&str]) -> Vec<String> {
    lines.iter().map(|s| s.to_string()).collect()
}

fn strings(v: &[&str]) -> Vec<String> {
    v.iter().map(|s| s.to_string()).collect()
}

#[test]
fn parse_line_with_refs_and_scope() {
    let l = parse_line("2024-03-05  (HEAD -> main, tag: v1.2.0) feat: add login button");
    assert_eq!(l.date.as_deref(), Some("2024-03-05"));
    assert_eq!(l.refs.as_deref(), Some("HEAD -> main, tag: v1.2.0"));
    assert_eq!(l.scope.as_deref(), Some("feat"));
    assert_eq!(l.message.as_deref(), Some("add login button"));
}

#[test]
fn parse_line_without_refs_or_scope() {
    let l = parse_line("2024-03-05  Merge branch 'x'");
    assert_eq!(l.date.as_deref(), Some("2024-03-05"));
    assert_eq!(l.refs, None);
    assert_eq!(l.scope, None);
    assert_eq!(l.message.as_deref(), Some("Merge branch 'x'"));
}

#[test]
fn parse_line_scope_needs_colon_space() {
    let l = parse_line("2024-03-05  fix:no space");
    assert_eq!(l.scope, None);
    assert_eq!(l.message.as_deref(), Some("fix:no space"));
    let m = parse_line("2024-03-05  see fix: inside text");
    assert_eq!(m.scope, None);
    assert_eq!(m.message.as_deref(), Some("see fix: inside text"));
}

#[test]
fn parse_line_blank_or_malformed() {
    let l = parse_line("");
    assert_eq!(l.date, None);
    assert_eq!(l.refs, None);
    assert_eq!(l.scope, None);
    assert_eq!(l.message, None);
    let m = parse_line("24-1-1 feat: x");
    assert_eq!(m.date, None);
    assert_eq!(m.message, None);
}

#[test]
fn parse_line_refs_close_at_first_paren() {
    let l = parse_line("2024-01-02  (tag: v1.2.0) fix: handle (edge) case");
    assert_eq!(l.refs.as_deref(), Some("tag: v1.2.0"));
    assert_eq!(l.scope.as_deref(), Some("fix"));
    assert_eq!(l.message.as_deref(), Some("handle (edge) case"));
}

#[test]
fn message_with_paren_is_kept() {
    let l = log(&["2024-01-02  (tag: v1.2.0) fix: handle (edge) case"]);
    let m = group_lines(&l);
    assert_eq!(m["v1.2.0"].entries.fixed, strings(&["handle (edge) case"]));
}

#[test]
fn tag_version_cases() {
    assert_eq!(tag_version("HEAD -> main, tag: v1.2.0, origin/main").as_deref(), Some("v1.2.0"));
    assert_eq!(tag_version("tag: 2.0.1").as_deref(), Some("2.0.1"));
    assert_eq!(tag_version("origin/main"), None);
    assert_eq!(tag_version("tag: release-x, tag: v3.1"), Some("v3.1".to_string()));
    assert_eq!(tag_version("tag: v1.0.0-beta").as_deref(), Some("v1.0.0"));
}

#[test]
fn header_with_previous_version() {
    let h = get_header(Some("v1.0.0".to_string()), "v1.1.0", "https://example.com/org/repo", "2024-02-01");
    assert_eq!(
        h,
        strings(&["## [v1.1.0](https://example.com/org/repo/compare/v1.0.0...v1.1.0) - 2024-02-01", ""])
    );
}

#[test]
fn header_of_earliest_version() {
    let h = get_header(None, "v1.0.0", "https://example.com/org/repo", "2024-01-01");
    assert_eq!(
        h,
        strings(&["## [v1.0.0](https://example.com/org/repo/releases/tag/v1.0.0) - 2024-01-01", ""])
    );
}

#[test]
fn header_of_unreleased() {
    let h = get_header(Some("v1.1.0".to_string()), "unreleased", "https://x.org/r", "2024-05-01");
    assert_eq!(h[0], "## [Unreleased](https://x.org/r/compare/v1.1.0...unreleased) - 2024-05-01");
}

#[test]
fn bullet_capitalizes_first_letter() {
    assert_eq!(get_list_bullet("add login button"), "* Add login button");
    assert_eq!(get_list_bullet("Already"), "* Already");
    assert_eq!(get_list_bullet(""), "* ");
    assert_eq!(get_list_bullet("ßtraße"), "* SStraße");
}

#[test]
fn bullet_with_given_first() {
    assert_eq!(bullet_with_first("X", "abc"), "* Xbc");
    assert_eq!(bullet_with_first("X", ""), "* ");
}

#[test]
fn entries_and_chunks() {
    let mut e = Entries::new();
    assert!(!any_chunks(&e));
    e.add("docs", "ignored".to_string());
    assert!(!any_chunks(&e));
    e.add("fix", "first".to_string());
    e.add("fix", "second".to_string());
    assert!(any_chunks(&e));
    assert!(has_chunk(&e, "fix"));
    assert!(!has_chunk(&e, "feat"));
    assert!(!has_chunk(&e, "docs"));
    assert_eq!(get_chunk(&e, "fix", "Fixed"), strings(&["### Fixed", "", "* Second", "* First", ""]));
    assert!(get_chunk(&e, "feat", "Added").is_empty());
    assert!(get_chunk(&e, "docs", "Docs").is_empty());
}

#[test]
fn grouping_seals_at_tags() {
    let l = log(&[
        "2024-03-01  (HEAD -> main) feat: newest",
        "2024-02-01  (tag: v1.1.0) fix: patch",
        "2024-01-15  refactor: tidy",
        "2024-01-01  (tag: v1.0.0) feat: first",
    ]);
    let m = group_lines(&l);
    let keys: Vec<&String> = m.keys().collect();
    assert_eq!(keys, vec!["v1.0.0", "v1.1.0", "unreleased"]);
    let b0 = &m["v1.0.0"];
    assert_eq!(b0.date, "2024-01-01");
    assert_eq!(b0.entries.added, strings(&["first"]));
    let b1 = &m["v1.1.0"];
    assert_eq!(b1.date, "2024-02-01");
    assert_eq!(b1.entries.changed, strings(&["tidy"]));
    assert_eq!(b1.entries.fixed, strings(&["patch"]));
    let b2 = &m["unreleased"];
    assert_eq!(b2.date, "2024-03-01");
    assert_eq!(b2.entries.added, strings(&["newest"]));
}

#[test]
fn empty_log_has_empty_unreleased_bucket() {
    let m = group_lines(&Vec::new());
    assert_eq!(m.len(), 1);
    assert!(!any_chunks(&m["unreleased"].entries));
    assert_eq!(get_changelog(&m, "https://x.org/r"), "# Changelog");
}

#[test]
fn first_release_is_seeded() {
    let l = log(&["2024-01-02  chore: setup", "2024-01-01  (tag: v1.0.0) initial commit", ""]);
    let out = changelog(&l, "https://example.com/org/repo.git\n");
    assert_eq!(
        out,
        "# Changelog\n\n## [v1.0.0](https://example.com/org/repo/releases/tag/v1.0.0) - 2024-01-01\n\n### Added\n\n* Initial release"
    );
}

#[test]
fn first_release_without_v_is_seeded() {
    let l = log(&["2024-01-01  (tag: 1.0.0) docs: readme"]);
    let m = group_lines(&l);
    assert_eq!(m["1.0.0"].entries.added, strings(&["initial release"]));
}

#[test]
fn empty_version_is_omitted() {
    let l = log(&[
        "2024-03-01  (tag: v1.2.0) docs: only docs",
        "2024-02-01  (tag: v1.1.0) feat: thing",
        "2024-01-01  (tag: v1.0.0) feat: start",
    ]);
    let out = changelog(&l, "https://x.org/r");
    assert!(!out.contains("v1.2.0"));
    assert!(out.contains("## [v1.1.0](https://x.org/r/compare/v1.0.0...v1.1.0) - 2024-02-01"));
}

#[test]
fn full_document_order_and_links() {
    let l = log(&[
        "2024-03-02  feat: later feature",
        "2024-03-01  fix: bug one",
        "2024-02-01  (tag: v1.1.0) feat: second feature",
        "2024-01-20  feat: first feature",
        "2024-01-01  (tag: v1.0.0) refactor: setup",
    ]);
    let out = changelog(&l, "https://example.com/org/repo\n");
    let expected = "# Changelog\n\n\
## [Unreleased](https://example.com/org/repo/compare/v1.1.0...unreleased) - 2024-03-02\n\n\
### Added\n\n* Later feature\n\n\
### Fixed\n\n* Bug one\n\n\
## [v1.1.0](https://example.com/org/repo/compare/v1.0.0...v1.1.0) - 2024-02-01\n\n\
### Added\n\n* Second feature\n* First feature\n\n\
## [v1.0.0](https://example.com/org/repo/releases/tag/v1.0.0) - 2024-01-01\n\n\
### Changed\n\n* Setup";
    assert_eq!(out, expected);
}

#[test]
fn every_scoped_message_once() {
    let l = log(&[
        "2024-02-01  (tag: v1.1.0) fix: b",
        "2024-01-10  feat: a",
        "2024-01-05  fix: a",
        "2024-01-01  (tag: v1.0.0) feat: z",
    ]);
    let out = changelog(&l, "https://x.org/r");
    assert_eq!(out.matches("* A").count(), 2);
    assert_eq!(out.matches("* B").count(), 1);
    assert_eq!(out.matches("* Z").count(), 1);
    let v11 = out.find("## [v1.1.0]").unwrap();
    let v10 = out.find("## [v1.0.0]").unwrap();
    assert!(v11 < v10);
}

#[test]
fn rendering_twice_is_identical() {
    let l = log(&["2024-01-01  (tag: v1.0.0) feat: x", "2024-02-01  fix: y"]);
    let m = group_lines(&l);
    assert_eq!(get_changelog(&m, "https://x.org/r"), get_changelog(&m, "https://x.org/r"));
}

#[test]
fn base_url_strips_git_suffix() {
    assert_eq!(base_url("https://example.com/org/repo.git\n"), "https://example.com/org/repo");
    assert_eq!(base_url("https://example.com/org/repo\n"), "https://example.com/org/repo");
    assert_eq!(base_url("https://example.com/org/legit\n"), "https://example.com/org/legit");
    assert_eq!(base_url("git@example.com:org/repo.git  \n"), "git@example.com:org/repo");
}

#[test]
fn split_lines_at_newlines() {
    assert_eq!(split_lines("a\nb\n"), strings(&["a", "b", ""]));
    assert_eq!(split_lines(""), strings(&[""]));
    assert_eq!(split_lines("one"), strings(&["one"]));
}

#[test]
fn changelog_from_log_text() {
    let text = "2024-02-01  (HEAD -> main, tag: v1.1.0) fix: crash\n2024-01-01  (tag: v1.0.0) feat: start\n";
    let out = changelog_from_text(text, "https://x.org/r.git\n");
    assert_eq!(
        out,
        "# Changelog\n\n## [v1.1.0](https://x.org/r/compare/v1.0.0...v1.1.0) - 2024-02-01\n\n### Fixed\n\n* Crash\n\n## [v1.0.0](https://x.org/r/releases/tag/v1.0.0) - 2024-01-01\n\n### Added\n\n* Start"
    );
}

#[test]
fn trim_end_removes_trailing_space() {
    assert_eq!(trim_end("abc \n\t"), "abc");
    assert_eq!(trim_end("  "), "");
    assert_eq!(trim_end("a\u{3000}"), "a");
}
