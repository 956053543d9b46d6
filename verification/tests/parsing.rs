use mcp_git::blame::{blame_report, group_blame, parse_blame, BlameLine};
use mcp_git::diff::{change_label_of, ChangeKind, DiffCollector};
use mcp_git::error::McpGitError;
use mcp_git::listing::{
    file_report, remote_listing, repo_listing, repo_summary, tag_listing, HeadState, RemoteUrls,
};
use mcp_git::log::{CommitRecord, LogCollector, SearchCollector};
use mcp_git::server::{
    repo_paths_or_default, DiffParams, FileAtRefParams, LogParams, McpGitServer, RepoEntry,
    SearchParams,
};
use mcp_git::status::parse_status;
use mcp_git::text::{
    chars_of, contains_chars, parse_u32, person, push_decimal, split_lines, starts_with_chars,
    trim,
};

const SHA_A: &str = "aaaaaaaaaaaaaaaaaaaaaaaaaaaaaaaaaaaaaaaa";
const SHA_B: &str = "bbbbbbbbbbbbbbbbbbbbbbbbbbbbbbbbbbbbbbbb";

fn blame_text() -> String {
    let mut t = String::new();
    t.push_str(&format!("{} 1 1 2\n", SHA_A));
    t.push_str("author Alice\nauthor-mail <alice@test.com>\nsummary first\nfilename a.rs\n");
    t.push_str("\tline one\n");
    t.push_str(&format!("{} 2 2\n", SHA_A));
    t.push_str("author Alice\nfilename a.rs\n\tline two\n");
    t.push_str(&format!("{} 3 3 1\n", SHA_B));
    t.push_str("author Bob\nfilename a.rs\n\tline three\n");
    t
}

fn entry(name: &str) -> RepoEntry {
    RepoEntry { name: name.to_string(), path: format!("/srv/{}", name) }
}

#[test]
fn blame_groups_consecutive_lines_of_one_commit() {
    let report = blame_report(&blame_text());
    assert_eq!(report.total_lines, 3);
    assert_eq!(report.groups.len(), 2);
    assert_eq!(report.groups[0].commit, "aaaaaaaa");
    assert_eq!(report.groups[0].author, "Alice");
    assert_eq!(report.groups[0].lines, "1-2");
    assert_eq!(report.groups[1].commit, "bbbbbbbb");
    assert_eq!(report.groups[1].author, "Bob");
    assert_eq!(report.groups[1].lines, "3");
}

#[test]
fn blame_reads_line_numbers_and_authors() {
    let lines = parse_blame(&blame_text());
    let numbers: Vec<u32> = lines.iter().map(|l| l.line_no).collect();
    assert_eq!(numbers, vec![1, 2, 3]);
    assert_eq!(lines[2].sha, SHA_B);
    assert_eq!(lines[2].author, "Bob");
}

#[test]
fn blame_header_without_second_field_keeps_line_number() {
    let text = format!("{} 7 9\nauthor A\n\tx\n{} 4\n\ty\n", SHA_A, SHA_B);
    let lines = parse_blame(&text);
    assert_eq!(lines.len(), 2);
    assert_eq!(lines[0].line_no, 9);
    assert_eq!(lines[1].line_no, 9);
    assert_eq!(lines[1].sha, SHA_B);
}

#[test]
fn blame_unparsable_line_number_is_zero() {
    let text = format!("{} 7 x9 1\n\tx\n", SHA_A);
    let lines = parse_blame(&text);
    assert_eq!(lines[0].line_no, 0);
}

#[test]
fn blame_content_before_any_header_has_empty_commit() {
    let lines = parse_blame("\tlonely\n");
    assert_eq!(lines.len(), 1);
    assert_eq!(lines[0].sha, "");
    let groups = group_blame(&lines);
    assert_eq!(groups[0].commit, "");
    assert_eq!(groups[0].lines, "0");
}

#[test]
fn blame_non_hex_header_is_not_a_header() {
    let text = format!("{} 5 5\n\tx\n", "g".repeat(40));
    let lines = parse_blame(&text);
    assert_eq!(lines[0].sha, "");
    assert_eq!(lines[0].line_no, 0);
}

#[test]
fn blame_groups_split_when_commit_returns() {
    let mk = |sha: &str, n: u32| BlameLine { sha: sha.to_string(), author: "x".to_string(), line_no: n };
    let lines = vec![mk(SHA_A, 1), mk(SHA_B, 2), mk(SHA_A, 3), mk(SHA_A, 4)];
    let groups = group_blame(&lines);
    let ranges: Vec<&str> = groups.iter().map(|g| g.lines.as_str()).collect();
    assert_eq!(ranges, vec!["1", "2", "3-4"]);
}

#[test]
fn status_sorts_lines_into_staged_unstaged_untracked() {
    let text = " M src/lib.rs\n?? new.txt\nA  added.rs\nMM both.rs\nR  old -> new\n";
    let r = parse_status(text);
    let staged: Vec<(&str, &str)> =
        r.staged.iter().map(|f| (f.path.as_str(), f.status.as_str())).collect();
    let unstaged: Vec<(&str, &str)> =
        r.unstaged.iter().map(|f| (f.path.as_str(), f.status.as_str())).collect();
    assert_eq!(staged, vec![("added.rs", "added"), ("both.rs", "modified"), ("old -> new", "renamed")]);
    assert_eq!(unstaged, vec![("src/lib.rs", "modified"), ("both.rs", "modified")]);
    assert_eq!(r.untracked, vec!["new.txt".to_string()]);
    assert!(!r.is_clean);
}

#[test]
fn status_clean_and_short_lines() {
    let r = parse_status("");
    assert!(r.is_clean);
    let r = parse_status("M\nab\n");
    assert!(r.is_clean);
    let r = parse_status("   blank columns\n");
    assert!(r.is_clean);
}

#[test]
fn blame_ids_are_short_and_early_lines_have_no_commit() {
    let text = format!("\tfirst\n{} 2 2\nauthor Ann\n\tsecond\n", SHA_A);
    let r = blame_report(&text);
    assert_eq!(r.groups[0].commit, "");
    assert_eq!(r.groups[0].author, "");
    assert!(r.groups.iter().all(|g| g.commit.chars().count() <= 8));
}

#[test]
fn status_unknown_codes() {
    let r = parse_status("UD conflict.rs\n");
    assert_eq!(r.staged[0].status, "unknown");
    assert_eq!(r.unstaged[0].status, "deleted");
    let r = parse_status("CT x\r\n");
    assert_eq!(r.staged[0].status, "copied");
    assert_eq!(r.unstaged[0].status, "unknown");
    assert_eq!(r.staged[0].path, "x");
}

#[test]
fn status_non_ascii_first_column() {
    // A two-byte first character: its second byte is not a space.
    let r = parse_status("\u{e9}x path\n");
    assert_eq!(r.staged[0].status, "unknown");
    assert_eq!(r.unstaged[0].status, "unknown");
    assert_eq!(r.staged[0].path, " path");
}

#[test]
fn error_messages_and_codes() {
    let e = McpGitError::RepoNotFound("x".to_string());
    assert_eq!(e.message(), "Repository not found: x");
    assert_eq!(e.to_mcp_error().code, -32602);
    let e = McpGitError::AmbiguousRepo;
    assert_eq!(
        e.to_mcp_error().message,
        "Ambiguous repository: multiple repos connected, specify the 'repo' parameter"
    );
    assert_eq!(e.to_mcp_error().code, -32602);
    let e = McpGitError::InvalidRef("HEAD~9: no".to_string());
    assert_eq!(e.message(), "Invalid ref: HEAD~9: no");
    assert_eq!(e.to_mcp_error().code, -32602);
    let e = McpGitError::Git("boom".to_string());
    assert_eq!(e.message(), "Git error: boom");
    assert_eq!(e.to_mcp_error().code, -32603);
    let e = McpGitError::Other("plain".to_string());
    assert_eq!(e.message(), "plain");
    assert_eq!(e.to_mcp_error().code, -32603);
}

#[test]
fn resolve_picks_first_named_repo() {
    let server = McpGitServer::new(vec![entry("a"), entry("b"), entry("b")], 1, 1);
    let r = server.resolve(Some("b")).ok().unwrap();
    assert_eq!(r.path, "/srv/b");
    match server.resolve(Some("zzz")) {
        Err(McpGitError::RepoNotFound(n)) => assert_eq!(n, "zzz"),
        _ => panic!("expected RepoNotFound"),
    }
    assert!(matches!(server.resolve(None), Err(McpGitError::AmbiguousRepo)));
}

#[test]
fn requests_fill_in_defaults() {
    let server = McpGitServer::new(vec![entry("r")], 7, 9);
    let log = server
        .log_request(&LogParams { repo: None, max_count: None, branch: None, author: None })
        .ok()
        .unwrap();
    assert_eq!(log.max, 9);
    assert_eq!(log.rev, "HEAD");
    let diff = server
        .diff_request(&DiffParams {
            repo: Some("r".to_string()),
            from_ref: "v1".to_string(),
            to_ref: None,
            path: None,
        })
        .ok()
        .unwrap();
    assert_eq!(diff.to_ref, "HEAD");
    assert_eq!(diff.max_files, 7);
    let search = server
        .search_request(&SearchParams { repo: None, query: "q".to_string(), max_count: Some(3) })
        .ok()
        .unwrap();
    assert_eq!(search.max, 3);
    let file = server
        .file_request(&FileAtRefParams { repo: None, path: "src/a.rs".to_string(), rev: None })
        .ok()
        .unwrap();
    assert_eq!(file.spec, "HEAD:src/a.rs");
    let file = server
        .file_request(&FileAtRefParams {
            repo: None,
            path: "b".to_string(),
            rev: Some("v2".to_string()),
        })
        .ok()
        .unwrap();
    assert_eq!(file.spec, "v2:b");
}

#[test]
fn log_filter_ignores_case_in_name_and_email() {
    let rec = |name: &str, email: &str| CommitRecord {
        sha: "s".to_string(),
        author_name: name.to_string(),
        author_email: email.to_string(),
        timestamp: 1,
        message: "  msg\n\n".to_string(),
    };
    let mut log = LogCollector::new(10, Some("BOB"));
    log.offer(rec("bob", "b@x"));
    log.offer(rec("Carol", "ROBOBO@x"));
    log.offer(rec("Dan", "d@x"));
    let report = log.finish();
    assert_eq!(report.count, 2);
    assert_eq!(report.commits[0].author, "bob <b@x>");
    assert_eq!(report.commits[0].message, "msg");
}

#[test]
fn log_filter_lowercases_beyond_ascii() {
    let mut log = LogCollector::new(10, Some("ÉLO"));
    log.offer(CommitRecord {
        sha: "s".to_string(),
        author_name: "Mélodie".to_string(),
        author_email: "m@x".to_string(),
        timestamp: 1,
        message: "m".to_string(),
    });
    assert_eq!(log.finish().count, 1);
}

#[test]
fn log_with_zero_limit_is_empty() {
    let mut log = LogCollector::new(0, None);
    assert!(log.is_full());
    log.offer(CommitRecord {
        sha: "s".to_string(),
        author_name: "a".to_string(),
        author_email: "e".to_string(),
        timestamp: 0,
        message: "m".to_string(),
    });
    assert_eq!(log.finish().count, 0);
}

#[test]
fn search_stops_at_limit_and_zero_returns_nothing() {
    let mut s = SearchCollector::new(1, "fix");
    assert!(!s.offer("1".to_string(), None, "Fix one".to_string()));
    let r = s.finish();
    assert_eq!(r.count, 1);
    assert_eq!(r.matches[0].author, "unknown");

    let mut s = SearchCollector::new(0, "fix");
    assert!(!s.offer("1".to_string(), None, "FIX it".to_string()));
    assert!(!s.offer("2".to_string(), None, "fix again".to_string()));
    assert_eq!(s.finish().count, 0);

    let mut upper = SearchCollector::new(5, "FIX");
    let mut lower = SearchCollector::new(5, "fix");
    for (i, m) in ["Fix a", "nothing", "prefix"].iter().enumerate() {
        upper.offer(i.to_string(), None, m.to_string());
        lower.offer(i.to_string(), None, m.to_string());
    }
    let (u, l) = (upper.finish(), lower.finish());
    assert_eq!(u.count, 2);
    assert_eq!(u.count, l.count);
    assert_eq!(u.matches[1].sha, l.matches[1].sha);

    let mut s = SearchCollector::new(2, "zzz");
    assert!(s.offer("1".to_string(), Some(("A".to_string(), "a@x".to_string())), "nope".to_string()));
    assert_eq!(s.finish().count, 0);
}

#[test]
fn diff_limit_and_labels() {
    let mut d = DiffCollector::new(1, None);
    d.offer("a".to_string(), ChangeKind::Rewrite { copy: true });
    d.offer("b".to_string(), ChangeKind::Deletion);
    let r = d.finish(String::new(), String::new(), String::new(), String::new());
    assert_eq!(r.file_count, 1);
    assert_eq!(r.files[0].change, "copied");
    assert_eq!(change_label_of(&ChangeKind::Rewrite { copy: false }), "renamed");
    assert_eq!(change_label_of(&ChangeKind::Modification), "modified");
    assert_eq!(change_label_of(&ChangeKind::Addition), "added");
}

#[test]
fn listings() {
    let tags = tag_listing(vec![
        ("v1".to_string(), Some("abc".to_string())),
        ("broken".to_string(), None),
    ]);
    assert_eq!(tags.count, 2);
    assert_eq!(tags.tags[1].sha, "unknown");

    let remotes = remote_listing(vec![
        Some(RemoteUrls {
            name: "origin".to_string(),
            fetch_url: Some("https://x/r.git".to_string()),
            push_url: None,
        }),
        None,
    ]);
    assert_eq!(remotes.count, 1);
    assert_eq!(remotes.remotes[0].fetch_url, "https://x/r.git");
    assert_eq!(remotes.remotes[0].push_url, "");

    let e = entry("r");
    assert_eq!(repo_summary(&e, &HeadState::Detached).branch, "detached");
    assert_eq!(repo_summary(&e, &HeadState::Unreadable).branch, "unknown");
    let all = repo_listing(
        &vec![entry("a"), entry("b"), entry("c")],
        &vec![HeadState::Branch("dev".to_string()), HeadState::Detached, HeadState::Unreadable],
    );
    let branches: Vec<&str> = all.iter().map(|s| s.branch.as_str()).collect();
    assert_eq!(branches, vec!["dev", "detached", "unknown"]);
    assert_eq!(all[1].name, "b");
    assert!(repo_listing(&vec![], &vec![]).is_empty());
    assert_eq!(repo_paths_or_default(vec![]), vec![".".to_string()]);
    assert_eq!(repo_paths_or_default(vec!["a".to_string()]), vec!["a".to_string()]);
    let d = RepoEntry::discovered("given", "/abs/given".to_string(), None, None);
    assert_eq!(d.name, "given");
    assert_eq!(d.path, "/abs/given");
}

#[test]
fn file_contents_text_and_binary() {
    let r = file_report("a.txt".to_string(), "HEAD".to_string(), b"hi\xffthere");
    assert!(!r.binary);
    assert_eq!(r.size, 8);
    assert_eq!(r.content.unwrap(), "hi\u{fffd}there");
    let r = file_report("b.bin".to_string(), "HEAD".to_string(), &[1, 0, 2]);
    assert!(r.binary);
    assert!(r.content.is_none());
    let mut late = vec![b'a'; 9000];
    late[8500] = 0;
    let r = file_report("c".to_string(), "HEAD".to_string(), &late);
    assert!(!r.binary);
}

#[test]
fn text_helpers() {
    assert_eq!(trim("\u{3000}\t hello world \u{85}\n"), "hello world");
    assert_eq!(trim("   "), "");
    assert_eq!(person("A", "a@x"), "A <a@x>");
    let s = chars_of("hello");
    assert!(contains_chars(&s, &chars_of("ll")));
    assert!(contains_chars(&s, &chars_of("")));
    assert!(!contains_chars(&s, &chars_of("lo!")));
    assert!(starts_with_chars(&s, &chars_of("he")));
    assert!(!starts_with_chars(&s, &chars_of("hello!")));
    let lines = split_lines(&chars_of("a\r\n\nb\rc\n"));
    let lines: Vec<String> = lines.iter().map(|l| l.iter().collect()).collect();
    assert_eq!(lines, vec!["a".to_string(), String::new(), "b\rc".to_string()]);
    let digits = chars_of("+42");
    assert_eq!(parse_u32(&digits, 0, 3), Some(42));
    let big = chars_of("4294967296");
    assert_eq!(parse_u32(&big, 0, big.len()), None);
    let max = chars_of("4294967295");
    assert_eq!(parse_u32(&max, 0, max.len()), Some(u32::MAX));
    let plus = chars_of("+");
    assert_eq!(parse_u32(&plus, 0, 1), None);
    let neg = chars_of("-1");
    assert_eq!(parse_u32(&neg, 0, 2), None);
    let mut out = String::new();
    push_decimal(&mut out, 1203);
    assert_eq!(out, "1203");
}
