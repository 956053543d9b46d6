//! The scenarios of a small repository: three commits by Alice on `main`
//! (adding `README.md`, `src/main.rs` and `src/lib.rs`), and one commit by
//! Bob on `feature` that changes `src/lib.rs`. Walks list newest first.

use mcp_git::diff::{ChangeKind, DiffCollector};
use mcp_git::listing::{branch_listing, repo_listing, HeadState};
use mcp_git::log::{commit_details, CommitRecord, LogCollector, SearchCollector};
use mcp_git::server::{LogParams, McpGitServer, RepoEntry, RepoParam};

const README_SHA: &str = "1111111111111111111111111111111111111111";
const MAIN_SHA: &str = "2222222222222222222222222222222222222222";
const LIB_SHA: &str = "3333333333333333333333333333333333333333";
const BOB_SHA: &str = "4444444444444444444444444444444444444444";

fn alice(sha: &str, time: i64, message: &str) -> CommitRecord {
    CommitRecord {
        sha: sha.to_string(),
        author_name: "Alice".to_string(),
        author_email: "alice@test.com".to_string(),
        timestamp: time,
        message: message.to_string(),
    }
}

/// The commits reachable from `main`, newest first.
fn main_walk() -> Vec<CommitRecord> {
    vec![
        alice(LIB_SHA, 300, "Add lib.rs with hello function\n"),
        alice(MAIN_SHA, 200, "Add main.rs entry point\n"),
        alice(README_SHA, 100, "Initial commit: add README\n"),
    ]
}

/// The commits reachable from `feature`, newest first.
fn feature_walk() -> Vec<CommitRecord> {
    let mut walk = vec![CommitRecord {
        sha: BOB_SHA.to_string(),
        author_name: "Bob".to_string(),
        author_email: "bob@test.com".to_string(),
        timestamp: 400,
        message: "Update hello to print\n".to_string(),
    }];
    walk.extend(main_walk());
    walk
}

fn entry(name: &str) -> RepoEntry {
    RepoEntry { name: name.to_string(), path: format!("/tmp/{}", name) }
}

fn make_server() -> McpGitServer {
    McpGitServer::new(vec![entry("repo")], 500, 50)
}

/// Runs a log request over a walk the way the server does: stop once full.
fn run_log(server: &McpGitServer, params: LogParams, walk: Vec<CommitRecord>) -> mcp_git::log::LogReport {
    let req = server.log_request(&params).ok().expect("log failed");
    let mut log = LogCollector::new(req.max, req.author.as_deref());
    for rec in walk {
        if log.is_full() {
            break;
        }
        log.offer(rec);
    }
    log.finish()
}

#[test]
fn test_list_repos() {
    let server = make_server();
    let heads = vec![HeadState::Branch("main".to_string())];
    let summaries = repo_listing(&server.repos, &heads);
    assert_eq!(summaries.len(), 1);
    assert_eq!(summaries[0].name, "repo");
    assert_eq!(summaries[0].branch, "main");
}

#[test]
fn test_log_basic() {
    let server = make_server();
    let params = LogParams { repo: None, max_count: None, branch: None, author: None };
    let report = run_log(&server, params, main_walk());
    assert_eq!(report.count, 3);
    assert!(report.commits[0].message.contains("lib.rs"));
    assert!(report.commits[2].message.contains("README"));
}

#[test]
fn test_log_with_max_count() {
    let server = make_server();
    let params = LogParams { repo: None, max_count: Some(2), branch: None, author: None };
    let report = run_log(&server, params, main_walk());
    assert_eq!(report.count, 2);
}

#[test]
fn test_log_with_author_filter() {
    let server = make_server();
    let params = LogParams {
        repo: None,
        max_count: Some(50),
        branch: None,
        author: Some("Bob".to_string()),
    };
    let report = run_log(&server, params, main_walk());
    assert_eq!(report.count, 0);

    let params = LogParams {
        repo: None,
        max_count: Some(50),
        branch: Some("feature".to_string()),
        author: Some("Bob".to_string()),
    };
    let req = server.log_request(&params).ok().unwrap();
    assert_eq!(req.rev, "feature");
    let report = run_log(&server, params, feature_walk());
    assert_eq!(report.count, 1);
    assert!(report.commits[0].author.contains("Bob"));
}

#[test]
fn test_log_author_filter_does_not_reduce_max() {
    let server = make_server();
    let params = LogParams {
        repo: None,
        max_count: Some(50),
        branch: Some("feature".to_string()),
        author: Some("Alice".to_string()),
    };
    let report = run_log(&server, params, feature_walk());
    assert_eq!(report.count, 3, "Should find all 3 Alice commits on feature branch");
}

#[test]
fn test_show_commit() {
    let rec = alice(LIB_SHA, 300, "Add lib.rs with hello function\n");
    let details = commit_details(
        rec,
        "Alice",
        "alice@test.com",
        vec![MAIN_SHA.to_string()],
        vec![("src/lib.rs".to_string(), ChangeKind::Addition)],
    );
    assert_eq!(details.sha, LIB_SHA);
    assert!(details.author.contains("Alice"));
    assert_eq!(details.message, "Add lib.rs with hello function");
    assert_eq!(details.parents, vec![MAIN_SHA.to_string()]);
    assert_eq!(details.files.len(), 1);
    assert_eq!(details.files[0].path, "src/lib.rs");
    assert_eq!(details.files[0].change, "added");
}

#[test]
fn test_list_branches() {
    let listing = branch_listing(
        Some("main".to_string()),
        vec!["feature".to_string(), "main".to_string()],
        vec![],
    );
    let names: Vec<&str> = listing.local.iter().map(|b| b.name.as_str()).collect();
    assert!(names.contains(&"main"), "should contain main");
    assert!(names.contains(&"feature"), "should contain feature");
    let main_branch = listing.local.iter().find(|b| b.name == "main").unwrap();
    assert!(main_branch.current);
}

#[test]
fn test_search_commits() {
    let mut search = SearchCollector::new(50, "README");
    for rec in main_walk() {
        let author = Some((rec.author_name.clone(), rec.author_email.clone()));
        if !search.offer(rec.sha, author, rec.message) {
            break;
        }
    }
    let report = search.finish();
    assert_eq!(report.count, 1);
    assert!(report.matches[0].message.contains("README"));
}

#[test]
fn test_diff() {
    // From the first commit to the newest on main: two files were added.
    let mut diff = DiffCollector::new(500, None);
    diff.offer("src/lib.rs".to_string(), ChangeKind::Addition);
    diff.offer("src/main.rs".to_string(), ChangeKind::Addition);
    let report = diff.finish(
        README_SHA.to_string(),
        LIB_SHA.to_string(),
        README_SHA.to_string(),
        LIB_SHA.to_string(),
    );
    assert!(report.file_count > 0, "should have changed files");
    let paths: Vec<&str> = report.files.iter().map(|f| f.path.as_str()).collect();
    assert!(paths.contains(&"src/main.rs"), "should include src/main.rs");
    assert!(paths.contains(&"src/lib.rs"), "should include src/lib.rs");
}

#[test]
fn test_diff_with_path_filter() {
    let mut diff = DiffCollector::new(500, Some("src/main"));
    diff.offer("src/lib.rs".to_string(), ChangeKind::Addition);
    diff.offer("src/main.rs".to_string(), ChangeKind::Addition);
    let report = diff.finish(String::new(), String::new(), String::new(), String::new());
    assert_eq!(report.files.len(), 1);
    assert_eq!(report.files[0].path, "src/main.rs");
}

#[test]
fn test_resolve_single_repo() {
    let server = make_server();
    let params = RepoParam { repo: None };
    let result = server.repo_of(&params);
    assert!(result.is_ok(), "resolve(None) should succeed with single repo");
}

#[test]
fn test_resolve_ambiguous() {
    let server = McpGitServer::new(vec![entry("one"), entry("two")], 500, 50);
    let params = RepoParam { repo: None };
    let result = server.repo_of(&params);
    assert!(result.is_err(), "resolve(None) should fail with multiple repos");
}

#[test]
fn test_resolve_not_found() {
    let server = make_server();
    let params = RepoParam { repo: Some("nonexistent".to_string()) };
    let result = server.repo_of(&params);
    assert!(result.is_err(), "resolve with wrong name should fail");
}
