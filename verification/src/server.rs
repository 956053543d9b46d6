use vstd::prelude::*;

use crate::error::McpGitError;

verus! {

/// A connected repository: the name callers use for it and the path of its work tree.
pub struct RepoEntry {
    pub name: String,
    pub path: String,
}

/// The connected repositories and the limits that answers are held to.
pub struct McpGitServer {
    pub repos: Vec<RepoEntry>,
    pub max_diff_lines: u32,
    pub max_log_entries: u32,
}

/// Parameters that only name a repository.
pub struct RepoParam {
    pub repo: Option<String>,
}

/// Parameters of a commit-log request.
pub struct LogParams {
    pub repo: Option<String>,
    pub max_count: Option<u32>,
    pub branch: Option<String>,
    pub author: Option<String>,
}

/// Parameters of a diff request.
pub struct DiffParams {
    pub repo: Option<String>,
    pub from_ref: String,
    pub to_ref: Option<String>,
    pub path: Option<String>,
}

/// Parameters of a show-commit request.
pub struct CommitParams {
    pub repo: Option<String>,
    pub commit: String,
}

/// Parameters of a commit-message search.
pub struct SearchParams {
    pub repo: Option<String>,
    pub query: String,
    pub max_count: Option<u32>,
}

/// Parameters naming a file at a revision.
pub struct FileAtRefParams {
    pub repo: Option<String>,
    pub path: String,
    pub rev: Option<String>,
}

/// The characters of an optional string.
pub open spec fn opt_text(o: Option<String>) -> Option<Seq<char>> {
    match o {
        Some(s) => Some(s@),
        None => None,
    }
}

/// The index of the first repository at or after `i` whose name is `n`,
/// or the number of repositories where there is none.
pub open spec fn find_named(repos: Seq<RepoEntry>, n: Seq<char>, i: int) -> int
    decreases repos.len() - i,
{
    if i < 0 || i >= repos.len() {
        repos.len() as int
    } else if repos[i].name@ == n {
        i
    } else {
        find_named(repos, n, i + 1)
    }
}

/// The repository that a request names: the first one with the given name,
/// or the only one when no name is given.
pub open spec fn resolved_index(repos: Seq<RepoEntry>, name: Option<Seq<char>>) -> Option<int> {
    match name {
        Some(n) => if find_named(repos, n, 0) < repos.len() {
            Some(find_named(repos, n, 0))
        } else {
            None
        },
        None => if repos.len() == 1 {
            Some(0)
        } else {
            None
        },
    }
}

/// The error answered when no repository can be chosen: the unknown name,
/// or ambiguity when none was given.
pub open spec fn resolve_failure(name: Option<Seq<char>>, e: McpGitError) -> bool {
    match name {
        Some(n) => e matches McpGitError::RepoNotFound(s) && s@ == n,
        None => e is AmbiguousRepo,
    }
}

/// The contract of every request that starts by choosing a repository,
/// given the repository it chose or the error it answered: `Ok` exactly
/// when one can be chosen, and then it is that one.
pub open spec fn resolves(
    repos: Seq<RepoEntry>,
    name: Option<Seq<char>>,
    outcome: Result<RepoEntry, McpGitError>,
) -> bool {
    match resolved_index(repos, name) {
        Some(k) => outcome == Ok::<RepoEntry, McpGitError>(repos[k]),
        None => outcome is Err && resolve_failure(name, outcome->Err_0),
    }
}

/// `s`, or `HEAD` when it is absent.
pub open spec fn rev_or_head(s: Option<String>) -> Seq<char> {
    match s {
        Some(r) => r@,
        None => "HEAD"@,
    }
}

fn copy_opt(o: &Option<String>) -> (r: Option<String>)
    ensures
        opt_text(r) == opt_text(*o),
{
    match o {
        Some(s) => Some(s.clone()),
        None => None,
    }
}

fn rev_or_head_of(o: &Option<String>) -> (r: String)
    ensures
        r@ == rev_or_head(*o),
{
    match o {
        Some(s) => s.clone(),
        None => String::from_str("HEAD"),
    }
}

/// What a commit-log request asks for once its defaults are filled in.
pub struct LogRequest<'a> {
    pub repo: &'a RepoEntry,
    pub max: u32,
    pub rev: String,
    pub author: Option<String>,
}

/// What a diff request asks for once its defaults are filled in.
pub struct DiffRequest<'a> {
    pub repo: &'a RepoEntry,
    pub from_ref: String,
    pub to_ref: String,
    pub path: Option<String>,
    pub max_files: usize,
}

/// What a commit-message search asks for once its defaults are filled in.
pub struct SearchRequest<'a> {
    pub repo: &'a RepoEntry,
    pub query: String,
    pub max: u32,
}

/// A file at a revision, with the revision spec `rev:path` that finds its blob.
pub struct FileRequest<'a> {
    pub repo: &'a RepoEntry,
    pub path: String,
    pub rev: String,
    pub spec: String,
}

/// The repository paths to serve: those given, or the current directory
/// when none is given.
pub open spec fn served_paths(given: Seq<Seq<char>>) -> Seq<Seq<char>> {
    if given.len() == 0 {
        seq!["."@]
    } else {
        given
    }
}

/// The repository paths to serve: those given, or `.` when none is given.
pub fn repo_paths_or_default(given: Vec<String>) -> (paths: Vec<String>)
    ensures
        paths@.map_values(|p: String| p@) == served_paths(given@.map_values(|p: String| p@)),
{
    if given.len() == 0 {
        let paths = vec![String::from_str(".")];
        assert(paths@.map_values(|p: String| p@) =~= seq!["."@]);
        paths
    } else {
        given
    }
}

impl RepoEntry {
    /// A repository found at a path given on the command line: it is named
    /// by the last component of its canonical path (the given path when
    /// that has none) and served from its work tree (the canonical path
    /// for a bare repository).
    pub fn discovered(
        given: &str,
        canonical: String,
        file_name: Option<String>,
        work_dir: Option<String>,
    ) -> (e: RepoEntry)
        ensures
            e.name@ == (match file_name {
                Some(n) => n@,
                None => given@,
            }),
            e.path@ == (match work_dir {
                Some(w) => w@,
                None => canonical@,
            }),
    {
        let name = match file_name {
            Some(n) => n,
            None => String::from_str(given),
        };
        let path = match work_dir {
            Some(w) => w,
            None => canonical,
        };
        RepoEntry { name, path }
    }
}

impl McpGitServer {
    /// A server over the given repositories with the given limits.
    pub fn new(repos: Vec<RepoEntry>, max_diff_lines: u32, max_log_entries: u32) -> (s: Self)
        ensures
            s.repos@ == repos@,
            s.max_diff_lines == max_diff_lines,
            s.max_log_entries == max_log_entries,
    {
        McpGitServer { repos, max_diff_lines, max_log_entries }
    }

    /// Chooses the repository a request is about: the first one with the
    /// given name, or the only one when no name is given.
    pub fn resolve(&self, name: Option<&str>) -> (r: Result<&RepoEntry, McpGitError>)
        ensures
            resolves(self.repos@, match name { Some(n) => Some(n@), None => None },
                match r { Ok(e) => Ok(*e), Err(e) => Err(e) }),
    {
        match name {
            Some(n) => {
                let wanted = String::from_str(n);
                let mut i: usize = 0;
                while i < self.repos.len()
                    invariant
                        i <= self.repos.len(),
                        wanted@ == n@,
                        name == Some(n),
                        find_named(self.repos@, n@, 0) == find_named(self.repos@, n@, i as int),
                    decreases self.repos.len() - i,
                {
                    if self.repos[i].name == wanted {
                        return Ok(&self.repos[i]);
                    }
                    i = i + 1;
                }
                Err(McpGitError::RepoNotFound(wanted))
            },
            None => {
                if self.repos.len() == 1 {
                    Ok(&self.repos[0])
                } else {
                    Err(McpGitError::AmbiguousRepo)
                }
            },
        }
    }

    fn resolve_param(&self, repo: &Option<String>) -> (r: Result<&RepoEntry, McpGitError>)
        ensures
            resolves(self.repos@, opt_text(*repo), match r { Ok(e) => Ok(*e), Err(e) => Err(e) }),
    {
        match repo {
            Some(n) => self.resolve(Some(n.as_str())),
            None => self.resolve(None),
        }
    }

    /// Fills in a commit-log request: at most `max_count` commits (the
    /// server's log limit by default) from `branch` (`HEAD` by default),
    /// filtered by `author` when one is given.
    pub fn log_request(&self, params: &LogParams) -> (r: Result<LogRequest, McpGitError>)
        ensures
            resolves(self.repos@, opt_text(params.repo), match r { Ok(q) => Ok(*q.repo), Err(e) => Err(e) }),
            r matches Ok(q) ==> {
                &&& q.max == (match params.max_count {
                    Some(m) => m,
                    None => self.max_log_entries,
                })
                &&& q.rev@ == rev_or_head(params.branch)
                &&& opt_text(q.author) == opt_text(params.author)
            },
    {
        let repo = self.resolve_param(&params.repo)?;
        let max = match params.max_count {
            Some(m) => m,
            None => self.max_log_entries,
        };
        Ok(LogRequest {
            repo,
            max,
            rev: rev_or_head_of(&params.branch),
            author: copy_opt(&params.author),
        })
    }

    /// Fills in a diff request: from `from_ref` to `to_ref` (`HEAD` by
    /// default), restricted to paths under `path` when one is given, listing
    /// at most as many files as the server's diff limit.
    pub fn diff_request(&self, params: &DiffParams) -> (r: Result<DiffRequest, McpGitError>)
        ensures
            resolves(self.repos@, opt_text(params.repo), match r { Ok(q) => Ok(*q.repo), Err(e) => Err(e) }),
            r matches Ok(q) ==> {
                &&& q.from_ref@ == params.from_ref@
                &&& q.to_ref@ == rev_or_head(params.to_ref)
                &&& opt_text(q.path) == opt_text(params.path)
                &&& q.max_files == self.max_diff_lines
            },
    {
        let repo = self.resolve_param(&params.repo)?;
        Ok(DiffRequest {
            repo,
            from_ref: params.from_ref.clone(),
            to_ref: rev_or_head_of(&params.to_ref),
            path: copy_opt(&params.path),
            max_files: self.max_diff_lines as usize,
        })
    }

    /// Fills in a commit-message search: at most `max_count` matches (the
    /// server's log limit by default).
    pub fn search_request(&self, params: &SearchParams) -> (r: Result<SearchRequest, McpGitError>)
        ensures
            resolves(self.repos@, opt_text(params.repo), match r { Ok(q) => Ok(*q.repo), Err(e) => Err(e) }),
            r matches Ok(q) ==> {
                &&& q.query@ == params.query@
                &&& q.max == (match params.max_count {
                    Some(m) => m,
                    None => self.max_log_entries,
                })
            },
    {
        let repo = self.resolve_param(&params.repo)?;
        let max = match params.max_count {
            Some(m) => m,
            None => self.max_log_entries,
        };
        Ok(SearchRequest { repo, query: params.query.clone(), max })
    }

    /// Fills in a request for a file at a revision (`HEAD` by default); the
    /// blob is found by the revision spec `rev:path`.
    pub fn file_request(&self, params: &FileAtRefParams) -> (r: Result<FileRequest, McpGitError>)
        ensures
            resolves(self.repos@, opt_text(params.repo), match r { Ok(q) => Ok(*q.repo), Err(e) => Err(e) }),
            r matches Ok(q) ==> {
                &&& q.path@ == params.path@
                &&& q.rev@ == rev_or_head(params.rev)
                &&& q.spec@ == rev_or_head(params.rev) + ":"@ + params.path@
            },
    {
        let repo = self.resolve_param(&params.repo)?;
        let rev = rev_or_head_of(&params.rev);
        let spec = crate::text::join3(rev.as_str(), ":", params.path.as_str());
        Ok(FileRequest { repo, path: params.path.clone(), rev, spec })
    }

    /// Chooses the repository named by a request that only names one.
    pub fn repo_of(&self, params: &RepoParam) -> (r: Result<&RepoEntry, McpGitError>)
        ensures
            resolves(self.repos@, opt_text(params.repo), match r { Ok(e) => Ok(*e), Err(e) => Err(e) }),
    {
        self.resolve_param(&params.repo)
    }
}


proof fn lemma_find_named(repos: Seq<RepoEntry>, n: Seq<char>, i: int)
    requires
        0 <= i <= repos.len(),
    ensures
        i <= find_named(repos, n, i) <= repos.len(),
        forall|j: int| i <= j < find_named(repos, n, i) ==> (#[trigger] repos[j]).name@ != n,
        find_named(repos, n, i) < repos.len() ==> repos[find_named(repos, n, i)].name@ == n,
    decreases repos.len() - i,
{
    if i < repos.len() && repos[i].name@ != n {
        lemma_find_named(repos, n, i + 1);
    }
}

/// How a request's repository is chosen. With a name, the request goes to
/// the first repository of that name, and fails naming it exactly when no
/// repository has that name. Without a name, it goes to the one repository
/// when exactly one is connected, and fails as ambiguous otherwise.
pub proof fn law_resolve_chooses_first_named(
    repos: Seq<RepoEntry>,
    name: Option<Seq<char>>,
    outcome: Result<RepoEntry, McpGitError>,
)
    requires
        resolves(repos, name, outcome),
    ensures
        name matches Some(n) ==> (outcome is Ok <==> exists|i: int|
            0 <= i < repos.len() && (#[trigger] repos[i]).name@ == n),
        name matches Some(n) ==> (outcome matches Ok(e) ==> exists|k: int|
            0 <= k < repos.len() && e == #[trigger] repos[k] && e.name@ == n && forall|j: int|
                0 <= j < k ==> (#[trigger] repos[j]).name@ != n),
        name matches Some(n) ==> (outcome matches Err(err) ==> (err matches McpGitError::RepoNotFound(
            s,
        ) && s@ == n)),
        name is None ==> (outcome is Ok <==> repos.len() == 1),
        name is None ==> (outcome matches Ok(e) ==> e == repos[0]),
        name is None ==> (outcome matches Err(err) ==> err is AmbiguousRepo),
{
    if let Some(n) = name {
        lemma_find_named(repos, n, 0);
        let f = find_named(repos, n, 0);
        if f < repos.len() {
            assert(repos[f].name@ == n);
            assert(outcome == Ok::<RepoEntry, McpGitError>(repos[f]));
            assert(forall|j: int| 0 <= j < f ==> (#[trigger] repos[j]).name@ != n);
        } else {
            assert forall|i: int| 0 <= i < repos.len() implies (#[trigger] repos[i]).name@ != n by {}
            assert(outcome is Err);
            assert(resolve_failure(name, outcome->Err_0));
        }
    }
}


/// The defaults a request falls back on: a missing revision is `HEAD`, a
/// given one is used as it is; with no repository path given the server
/// serves the current directory `.`, and otherwise exactly the paths given.
pub proof fn law_request_defaults(rev: Option<String>, given: Seq<Seq<char>>)
    ensures
        rev is None ==> rev_or_head(rev) == seq!['H', 'E', 'A', 'D'],
        rev matches Some(r) ==> rev_or_head(rev) == r@,
        given.len() == 0 ==> served_paths(given) == seq![seq!['.']],
        given.len() > 0 ==> served_paths(given) == given,
{
    reveal_strlit("HEAD");
    reveal_strlit(".");
    assert("HEAD"@ =~= seq!['H', 'E', 'A', 'D']);
    assert("."@ =~= seq!['.']);
}

} // verus!
