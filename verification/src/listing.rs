use vstd::prelude::*;

use crate::server::RepoEntry;
use crate::text::{from_utf8_lossy, utf8_lossy};

verus! {

// ---------------------------------------------------------------------------
// Connected repositories
// ---------------------------------------------------------------------------

/// What could be read of a repository's `HEAD`.
pub enum HeadState {
    /// The repository could not be opened.
    Unreadable,
    /// `HEAD` names no branch, or could not be read.
    Detached,
    /// `HEAD` is on the branch of this short name.
    Branch(String),
}

/// How the current branch of a repository is shown.
pub open spec fn head_label(h: HeadState) -> Seq<char> {
    match h {
        HeadState::Unreadable => "unknown"@,
        HeadState::Detached => "detached"@,
        HeadState::Branch(b) => b@,
    }
}

/// A connected repository as it is listed.
pub struct RepoSummary {
    pub name: String,
    pub path: String,
    pub branch: String,
}

/// A connected repository listed with its name, path, and current branch
/// (`detached` when `HEAD` names none, `unknown` when it cannot be opened).
pub fn repo_summary(entry: &RepoEntry, head: &HeadState) -> (s: RepoSummary)
    ensures
        s.name@ == entry.name@,
        s.path@ == entry.path@,
        s.branch@ == head_label(*head),
{
    let branch = match head {
        HeadState::Unreadable => String::from_str("unknown"),
        HeadState::Detached => String::from_str("detached"),
        HeadState::Branch(b) => b.clone(),
    };
    RepoSummary { name: entry.name.clone(), path: entry.path.clone(), branch }
}

/// Whether a summary shows a repository with the given head.
pub open spec fn summarizes(s: RepoSummary, entry: RepoEntry, head: HeadState) -> bool {
    s.name@ == entry.name@ && s.path@ == entry.path@ && s.branch@ == head_label(head)
}

/// The list of connected repositories: one summary per repository, in
/// order, given what could be read of each one's `HEAD`.
pub fn repo_listing(repos: &Vec<RepoEntry>, heads: &Vec<HeadState>) -> (l: Vec<RepoSummary>)
    requires
        heads@.len() == repos@.len(),
    ensures
        l@.len() == repos@.len(),
        forall|i: int|
            #![trigger l@[i]]
            0 <= i < repos@.len() ==> summarizes(l@[i], repos@[i], heads@[i]),
{
    let mut out: Vec<RepoSummary> = Vec::new();
    let n = repos.len();
    let mut i: usize = 0;
    while i < n
        invariant
            i <= n == repos@.len() == heads@.len(),
            out@.len() == i,
            forall|j: int|
                #![trigger out@[j]]
                0 <= j < i ==> summarizes(out@[j], repos@[j], heads@[j]),
        decreases n - i,
    {
        out.push(repo_summary(&repos[i], &heads[i]));
        i = i + 1;
    }
    out
}

// ---------------------------------------------------------------------------
// Branches
// ---------------------------------------------------------------------------

/// A local branch, and whether it is the one `HEAD` is on.
pub struct BranchInfo {
    pub name: String,
    pub current: bool,
}

/// The branches of a repository: local ones, marked when current, and remote ones.
pub struct BranchListing {
    pub local: Vec<BranchInfo>,
    pub remote: Vec<String>,
}

/// The names of a sequence of strings.
pub open spec fn names_of(v: Seq<String>) -> Seq<Seq<char>> {
    v.map_values(|s: String| s@)
}

/// Whether `HEAD` is on the branch named `n`.
pub open spec fn is_current(head: Option<String>, n: Seq<char>) -> bool {
    match head {
        Some(h) => h@ == n,
        None => false,
    }
}

/// Lists the branches: every local branch in order, marked current exactly
/// when `HEAD` is on a branch of that name, and the remote branches as given.
pub fn branch_listing(head: Option<String>, local: Vec<String>, remote: Vec<String>) -> (l: BranchListing)
    ensures
        l.local@.len() == local@.len(),
        forall|i: int|
            #![trigger l.local@[i]]
            0 <= i < local@.len() ==> l.local@[i].name@ == local@[i]@ && l.local@[i].current
                == is_current(head, local@[i]@),
        names_of(l.remote@) == names_of(remote@),
{
    let mut out: Vec<BranchInfo> = Vec::new();
    let n = local.len();
    let mut i: usize = 0;
    while i < n
        invariant
            i <= n == local.len(),
            out@.len() == i,
            forall|j: int|
                #![trigger out@[j]]
                0 <= j < i ==> out@[j].name@ == local@[j]@ && out@[j].current == is_current(
                    head,
                    local@[j]@,
                ),
        decreases n - i,
    {
        let name = local[i].clone();
        let current = match &head {
            Some(h) => *h == name,
            None => false,
        };
        out.push(BranchInfo { name, current });
        i = i + 1;
    }
    BranchListing { local: out, remote }
}

// ---------------------------------------------------------------------------
// Tags
// ---------------------------------------------------------------------------

/// A tag and the commit it points to.
pub struct TagInfo {
    pub name: String,
    pub sha: String,
}

/// The tags of a repository and their number.
pub struct TagListing {
    pub tags: Vec<TagInfo>,
    pub count: usize,
}

/// The id a tag is listed with: the one it peels to, or `unknown` when that could not be found.
pub open spec fn tag_sha_text(sha: Option<String>) -> Seq<char> {
    match sha {
        Some(s) => s@,
        None => "unknown"@,
    }
}

/// Lists the tags in the order given, each with the id it peels to, or
/// `unknown` when that could not be found.
pub fn tag_listing(tags: Vec<(String, Option<String>)>) -> (l: TagListing)
    ensures
        l.tags@.len() == tags@.len(),
        forall|i: int|
            #![trigger l.tags@[i]]
            0 <= i < tags@.len() ==> l.tags@[i].name@ == tags@[i].0@ && l.tags@[i].sha@
                == tag_sha_text(tags@[i].1),
        l.count == tags@.len(),
{
    let mut out: Vec<TagInfo> = Vec::new();
    let n = tags.len();
    let mut i: usize = 0;
    while i < n
        invariant
            i <= n == tags.len(),
            out@.len() == i,
            forall|j: int|
                #![trigger out@[j]]
                0 <= j < i ==> out@[j].name@ == tags@[j].0@ && out@[j].sha@ == tag_sha_text(
                    tags@[j].1,
                ),
        decreases n - i,
    {
        let name = tags[i].0.clone();
        let sha = match &tags[i].1 {
            Some(s) => s.clone(),
            None => String::from_str("unknown"),
        };
        out.push(TagInfo { name, sha });
        i = i + 1;
    }
    let count = out.len();
    TagListing { tags: out, count }
}

// ---------------------------------------------------------------------------
// Remotes
// ---------------------------------------------------------------------------

/// A configured remote as read from the repository.
pub struct RemoteUrls {
    pub name: String,
    pub fetch_url: Option<String>,
    pub push_url: Option<String>,
}

/// A remote as it is listed.
pub struct RemoteInfo {
    pub name: String,
    pub fetch_url: String,
    pub push_url: String,
}

/// The remotes of a repository and their number.
pub struct RemoteListing {
    pub remotes: Vec<RemoteInfo>,
    pub count: usize,
}

/// An optional URL as it is listed: empty when there is none.
pub open spec fn url_text(u: Option<String>) -> Seq<char> {
    match u {
        Some(s) => s@,
        None => Seq::empty(),
    }
}

/// How a remote is listed: name, fetch URL, push URL.
pub open spec fn remote_view(r: RemoteUrls) -> (Seq<char>, Seq<char>, Seq<char>) {
    (r.name@, url_text(r.fetch_url), url_text(r.push_url))
}

/// The remotes among `rs` that could be read, as they are listed.
pub open spec fn readable_remotes(rs: Seq<Option<RemoteUrls>>) -> Seq<(Seq<char>, Seq<char>, Seq<char>)>
    decreases rs.len(),
{
    if rs.len() == 0 {
        Seq::empty()
    } else {
        match rs.last() {
            Some(r) => readable_remotes(rs.drop_last()).push(remote_view(r)),
            None => readable_remotes(rs.drop_last()),
        }
    }
}

/// The remotes listed.
pub open spec fn remote_info_views(v: Seq<RemoteInfo>) -> Seq<(Seq<char>, Seq<char>, Seq<char>)> {
    v.map_values(|r: RemoteInfo| (r.name@, r.fetch_url@, r.push_url@))
}

fn url_or_empty(u: &Option<String>) -> (s: String)
    ensures
        s@ == url_text(*u),
{
    match u {
        Some(s) => s.clone(),
        None => String::new(),
    }
}

/// Lists the remotes that could be read, in the order of their names, each
/// with its fetch and push URL (empty when it has none); remotes that could
/// not be read (`None`) are left out.
pub fn remote_listing(remotes: Vec<Option<RemoteUrls>>) -> (l: RemoteListing)
    ensures
        remote_info_views(l.remotes@) == readable_remotes(remotes@),
        l.count == readable_remotes(remotes@).len(),
{
    let mut out: Vec<RemoteInfo> = Vec::new();
    let n = remotes.len();
    let mut i: usize = 0;
    while i < n
        invariant
            i <= n == remotes.len(),
            remote_info_views(out@) == readable_remotes(remotes@.take(i as int)),
        decreases n - i,
    {
        assert(remotes@.take(i + 1).drop_last() =~= remotes@.take(i as int));
        match &remotes[i] {
            Some(r) => {
                let ghost before = out@;
                out.push(
                    RemoteInfo {
                        name: r.name.clone(),
                        fetch_url: url_or_empty(&r.fetch_url),
                        push_url: url_or_empty(&r.push_url),
                    },
                );
                assert(remote_info_views(out@) =~= remote_info_views(before).push(remote_view(*r)));
            },
            None => {},
        }
        i = i + 1;
    }
    assert(remotes@.take(n as int) =~= remotes@);
    let count = out.len();
    RemoteListing { remotes: out, count }
}

// ---------------------------------------------------------------------------
// File contents
// ---------------------------------------------------------------------------

/// How many leading bytes are looked at to tell binary content from text.
pub const BINARY_PROBE: usize = 8192;

/// Whether content counts as binary: a zero byte among its first 8192 bytes.
pub open spec fn is_binary(data: Seq<u8>) -> bool {
    exists|i: int| 0 <= i < data.len() && i < BINARY_PROBE && data[i] == 0
}

/// A file at a revision: its path, the revision, its size in bytes, and
/// either its text or the note that it is binary.
pub struct FileReport {
    pub path: String,
    pub rev: String,
    pub binary: bool,
    pub size: usize,
    pub content: Option<String>,
}

/// The contents of a file at a revision: binary when a zero byte occurs in
/// its first 8192 bytes, and otherwise its bytes decoded as UTF-8, each
/// invalid sequence replaced by U+FFFD.
pub fn file_report(path: String, rev: String, data: &[u8]) -> (r: FileReport)
    ensures
        r.path@ == path@,
        r.rev@ == rev@,
        r.size == data@.len(),
        r.binary == is_binary(data@),
        r.binary ==> r.content is None,
        !r.binary ==> (r.content matches Some(c) && c@ == utf8_lossy(data@)),
{
    let n = data.len();
    let limit = if n < BINARY_PROBE { n } else { BINARY_PROBE };
    let mut i: usize = 0;
    while i < limit && data[i] != 0
        invariant
            limit <= n == data@.len(),
            limit <= BINARY_PROBE,
            limit == n || limit == BINARY_PROBE,
            i <= limit,
            forall|j: int| 0 <= j < i ==> data@[j] != 0,
        decreases limit - i,
    {
        i = i + 1;
    }
    let binary = i < limit;
    let content = if binary {
        None
    } else {
        Some(from_utf8_lossy(data))
    };
    FileReport { path, rev, binary, size: n, content }
}


/// How what could not be read is shown: a repository that cannot be opened
/// has branch `unknown`, a detached `HEAD` shows `detached`, and a branch
/// shows its own name; a tag whose target cannot be found shows `unknown`
/// and otherwise that target's id; a missing remote URL shows as empty.
pub proof fn law_listing_placeholders(h: HeadState, sha: Option<String>, url: Option<String>)
    ensures
        h is Unreadable ==> head_label(h) == "unknown"@,
        h is Detached ==> head_label(h) == "detached"@,
        h matches HeadState::Branch(b) ==> head_label(h) == b@,
        sha is None ==> tag_sha_text(sha) == "unknown"@,
        sha matches Some(s) ==> tag_sha_text(sha) == s@,
        url is None ==> url_text(url).len() == 0,
        url matches Some(u) ==> url_text(url) == u@,
{
}

/// Content is binary exactly when one of its first 8192 bytes is zero: a
/// zero byte further on leaves it text, and content without any zero byte
/// is always text.
pub proof fn law_binary_looks_at_first_bytes(data: Seq<u8>)
    ensures
        is_binary(data) <==> exists|i: int| 0 <= i < data.len() && i < 8192 && #[trigger] data[i] == 0u8,
        is_binary(data) == is_binary(data.take(if data.len() < 8192 { data.len() as int } else { 8192 })),
        (forall|i: int| 0 <= i < data.len() ==> #[trigger] data[i] != 0u8) ==> !is_binary(data),
{
    let p = data.take(if data.len() < 8192 { data.len() as int } else { 8192 });
    if is_binary(data) {
        let i = choose|i: int| 0 <= i < data.len() && i < BINARY_PROBE && data[i] == 0;
        assert(p[i] == data[i]);
    }
    if is_binary(p) {
        let i = choose|i: int| 0 <= i < p.len() && i < BINARY_PROBE && p[i] == 0;
        assert(p[i] == data[i]);
    }
}


/// A local branch is marked current exactly when `HEAD` is on a branch of
/// that very name; with a detached or unreadable `HEAD` no branch is.
pub proof fn law_current_branch(head: Option<String>, n: Seq<char>)
    ensures
        is_current(head, n) <==> (head is Some && head->Some_0@ == n),
{
}

} // verus!
