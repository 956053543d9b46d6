use vstd::prelude::*;

use crate::diff::{change_label, changed_files, ChangeKind, DiffFile};
use crate::text::{
    chars_of, contains_chars, contains_text, lowercase, person, person_text, to_lowercase, trim,
    trimmed,
};

verus! {

/// A commit as read from the repository: its id, its author's name and
/// e-mail, the author's time in seconds since the epoch, and its message.
pub struct CommitRecord {
    pub sha: String,
    pub author_name: String,
    pub author_email: String,
    pub timestamp: i64,
    pub message: String,
}

/// The view of a commit record: id, author name, author e-mail, time, message.
pub type CommitView = (Seq<char>, Seq<char>, Seq<char>, i64, Seq<char>);

impl View for CommitRecord {
    type V = CommitView;

    open spec fn view(&self) -> CommitView {
        (self.sha@, self.author_name@, self.author_email@, self.timestamp, self.message@)
    }
}

/// A commit as a log lists it: id, `name <email>` of its author, time, and
/// its message without surrounding whitespace.
pub struct LogEntry {
    pub sha: String,
    pub author: String,
    pub timestamp: i64,
    pub message: String,
}

/// The view of a log entry: id, author, time, message.
pub type EntryView = (Seq<char>, Seq<char>, i64, Seq<char>);

impl View for LogEntry {
    type V = EntryView;

    open spec fn view(&self) -> EntryView {
        (self.sha@, self.author@, self.timestamp, self.message@)
    }
}

/// The views of a sequence of log entries.
pub open spec fn entry_views(v: Seq<LogEntry>) -> Seq<EntryView> {
    v.map_values(|e: LogEntry| e@)
}

/// How a commit is listed in a log.
pub open spec fn entry_of(r: CommitView) -> EntryView {
    (r.0, person_text(r.1, r.2), r.3, trimmed(r.4))
}

/// The lowercased form of an optional author filter.
pub open spec fn lowered(f: Option<Seq<char>>) -> Option<Seq<char>> {
    match f {
        Some(s) => Some(lowercase(s)),
        None => None,
    }
}

/// Whether a commit passes an author filter given in lowercase: with no
/// filter every commit does; otherwise the filter must occur, ignoring
/// case, in the author's name or e-mail.
pub open spec fn author_matches(r: CommitView, needle: Option<Seq<char>>) -> bool {
    match needle {
        None => true,
        Some(n) => contains_text(lowercase(r.1), n) || contains_text(lowercase(r.2), n),
    }
}

/// A log being collected: its limit, its author filter in lowercase, and
/// the entries collected so far.
pub struct LogCollector {
    pub max: u32,
    pub needle: Option<Vec<char>>,
    pub entries: Vec<LogEntry>,
}

/// The view of a log being collected: limit, lowercase filter, entries.
pub type LogState = (u32, Option<Seq<char>>, Seq<EntryView>);

impl View for LogCollector {
    type V = LogState;

    open spec fn view(&self) -> LogState {
        (
            self.max,
            match self.needle {
                Some(v) => Some(v@),
                None => None,
            },
            entry_views(self.entries@),
        )
    }
}

/// What offering one commit does to a log: while the log is below its limit,
/// a commit that passes the author filter is added; otherwise nothing changes.
pub open spec fn log_offer(st: LogState, r: CommitView) -> LogState {
    if st.2.len() < st.0 && author_matches(r, st.1) {
        (st.0, st.1, st.2.push(entry_of(r)))
    } else {
        st
    }
}

/// The log after offering `recs` in order.
pub open spec fn log_after(st: LogState, recs: Seq<CommitView>) -> LogState
    decreases recs.len(),
{
    if recs.len() == 0 {
        st
    } else {
        log_offer(log_after(st, recs.drop_last()), recs.last())
    }
}

/// The entries of the commits in `recs` that pass the filter, in order.
pub open spec fn log_hits(recs: Seq<CommitView>, needle: Option<Seq<char>>) -> Seq<EntryView>
    decreases recs.len(),
{
    if recs.len() == 0 {
        Seq::empty()
    } else if author_matches(recs.last(), needle) {
        log_hits(recs.drop_last(), needle).push(entry_of(recs.last()))
    } else {
        log_hits(recs.drop_last(), needle)
    }
}

/// The first `n` elements of `s`, or all of it when it is shorter.
pub open spec fn first_n<A>(s: Seq<A>, n: int) -> Seq<A> {
    if n < s.len() {
        s.take(n)
    } else {
        s
    }
}

/// The answer to a commit-log request.
pub struct LogReport {
    pub commits: Vec<LogEntry>,
    pub count: usize,
}

/// Collects a log as the commits of a walk are offered to it one by one.
impl LogCollector {
    /// An empty log with the given limit and optional author filter.
    pub fn new(max: u32, author: Option<&str>) -> (c: Self)
        ensures
            c@ == (max, lowered(match author { Some(a) => Some(a@), None => None }), Seq::<EntryView>::empty()),
    {
        let needle = match author {
            Some(a) => {
                let low = to_lowercase(a);
                Some(chars_of(low.as_str()))
            },
            None => None,
        };
        let c = LogCollector { max, needle, entries: Vec::new() };
        assert(entry_views(c.entries@) =~= Seq::<EntryView>::empty());
        c
    }

    /// Whether the log has reached its limit, so that the walk can stop.
    pub fn is_full(&self) -> (b: bool)
        ensures
            b == (self@.2.len() >= self@.0),
    {
        self.entries.len() >= self.max as usize
    }

    /// Offers the next commit of the walk.
    pub fn offer(&mut self, rec: CommitRecord)
        ensures
            final(self)@ == log_offer(old(self)@, rec@),
    {
        if self.entries.len() >= self.max as usize {
            return;
        }
        let pass = match &self.needle {
            None => true,
            Some(n) => {
                let name = chars_of(to_lowercase(rec.author_name.as_str()).as_str());
                let email = chars_of(to_lowercase(rec.author_email.as_str()).as_str());
                contains_chars(&name, n) || contains_chars(&email, n)
            },
        };
        if pass {
            let author = person(rec.author_name.as_str(), rec.author_email.as_str());
            let message = trim(rec.message.as_str());
            let ghost before = self.entries@;
            self.entries.push(
                LogEntry { sha: rec.sha, author, timestamp: rec.timestamp, message },
            );
            assert(entry_views(self.entries@) =~= entry_views(before).push(entry_of(rec@)));
        }
    }

    /// The collected log and the number of its entries.
    pub fn finish(self) -> (r: LogReport)
        ensures
            entry_views(r.commits@) == self@.2,
            r.count == self@.2.len(),
    {
        let count = self.entries.len();
        LogReport { commits: self.entries, count }
    }
}

/// The author filter does not count the commits it leaves out: a log that
/// starts empty and is offered `recs` in order holds the entries of the
/// first `max` commits that pass the filter, in walk order.
pub proof fn law_log_takes_first_matching(
    max: u32,
    needle: Option<Seq<char>>,
    recs: Seq<CommitView>,
)
    ensures
        log_after((max, needle, Seq::empty()), recs) == (max, needle, first_n(
            log_hits(recs, needle),
            max as int,
        )),
    decreases recs.len(),
{
    if recs.len() > 0 {
        law_log_takes_first_matching(max, needle, recs.drop_last());
        let prev = log_hits(recs.drop_last(), needle);
        if author_matches(recs.last(), needle) && prev.len() >= max {
            assert(first_n(prev.push(entry_of(recs.last())), max as int) =~= first_n(
                prev,
                max as int,
            ));
        }
    }
}

/// Offering a commit to a log made with an author filter: the filter is
/// kept in lowercase, and while the log holds fewer entries than its limit
/// the commit is added exactly when there is no filter or the lowercased
/// filter occurs in the lowercased author name or in the lowercased author
/// e-mail; it is added with its id, `name <email>`, its time and its
/// message without surrounding whitespace. Otherwise the log stays as it was.
pub proof fn law_log_offer_filters_authors(
    max: u32,
    filter: Option<Seq<char>>,
    entries: Seq<EntryView>,
    r: CommitView,
)
    ensures
        lowered(filter) == (match filter {
            Some(f) => Some(lowercase(f)),
            None => None::<Seq<char>>,
        }),
        log_offer((max, lowered(filter), entries), r) == if entries.len() < max && (match filter {
            None => true,
            Some(f) => contains_text(lowercase(r.1), lowercase(f)) || contains_text(
                lowercase(r.2),
                lowercase(f),
            ),
        }) {
            (max, lowered(filter), entries.push((r.0, r.1 + " <"@ + r.2 + ">"@, r.3, trimmed(r.4))))
        } else {
            (max, lowered(filter), entries)
        },
{
}

// ---------------------------------------------------------------------------
// Searching commit messages
// ---------------------------------------------------------------------------

/// A commit whose message matches a search: id, author (or `unknown` when
/// it could not be read), and its message without surrounding whitespace.
pub struct SearchMatch {
    pub sha: String,
    pub author: String,
    pub message: String,
}

/// The view of a search match: id, author, message.
pub type MatchView = (Seq<char>, Seq<char>, Seq<char>);

impl View for SearchMatch {
    type V = MatchView;

    open spec fn view(&self) -> MatchView {
        (self.sha@, self.author@, self.message@)
    }
}

/// The views of a sequence of search matches.
pub open spec fn match_views(v: Seq<SearchMatch>) -> Seq<MatchView> {
    v.map_values(|m: SearchMatch| m@)
}

/// A commit offered to a search: id, author name and e-mail when they
/// could be read, and message.
pub type CandidateView = (Seq<char>, Option<(Seq<char>, Seq<char>)>, Seq<char>);

/// The characters of an optional author name and e-mail.
pub open spec fn author_view(a: Option<(String, String)>) -> Option<(Seq<char>, Seq<char>)> {
    match a {
        Some(p) => Some((p.0@, p.1@)),
        None => None,
    }
}

/// How an author is shown in a search result.
pub open spec fn author_text(a: Option<(Seq<char>, Seq<char>)>) -> Seq<char> {
    match a {
        Some(p) => person_text(p.0, p.1),
        None => "unknown"@,
    }
}

/// Whether a commit's message contains the query, ignoring case; `needle`
/// is the query in lowercase.
pub open spec fn message_matches(c: CandidateView, needle: Seq<char>) -> bool {
    contains_text(lowercase(c.2), needle)
}

/// How a matching commit is listed.
pub open spec fn match_of(c: CandidateView) -> MatchView {
    (c.0, author_text(c.1), trimmed(c.2))
}

/// A search in progress: its limit, its query in lowercase, and the
/// matches so far.
pub struct SearchCollector {
    pub max: u32,
    pub needle: Vec<char>,
    pub matches: Vec<SearchMatch>,
}

/// The view of a search in progress: limit, lowercase query, matches.
pub type SearchState = (u32, Seq<char>, Seq<MatchView>);

impl View for SearchCollector {
    type V = SearchState;

    open spec fn view(&self) -> SearchState {
        (self.max, self.needle@, match_views(self.matches@))
    }
}

/// What offering one commit does to a search: while the search holds fewer
/// matches than its limit, a commit whose message matches is added;
/// otherwise nothing changes.
pub open spec fn search_offer(st: SearchState, c: CandidateView) -> SearchState {
    if st.2.len() < st.0 && message_matches(c, st.1) {
        (st.0, st.1, st.2.push(match_of(c)))
    } else {
        st
    }
}

/// The search after offering `cs` in order.
pub open spec fn search_after(st: SearchState, cs: Seq<CandidateView>) -> SearchState
    decreases cs.len(),
{
    if cs.len() == 0 {
        st
    } else {
        search_offer(search_after(st, cs.drop_last()), cs.last())
    }
}

/// The matches among `cs`, in order.
pub open spec fn search_hits(cs: Seq<CandidateView>, needle: Seq<char>) -> Seq<MatchView>
    decreases cs.len(),
{
    if cs.len() == 0 {
        Seq::empty()
    } else if message_matches(cs.last(), needle) {
        search_hits(cs.drop_last(), needle).push(match_of(cs.last()))
    } else {
        search_hits(cs.drop_last(), needle)
    }
}

/// The answer to a commit-message search.
pub struct SearchReport {
    pub matches: Vec<SearchMatch>,
    pub count: usize,
}

/// Collects search matches as the commits of a walk are offered to it.
impl SearchCollector {
    /// A search for `query` (matched ignoring case) keeping at most `max` matches.
    pub fn new(max: u32, query: &str) -> (c: Self)
        ensures
            c@ == (max, lowercase(query@), Seq::<MatchView>::empty()),
    {
        let low = to_lowercase(query);
        let c = SearchCollector { max, needle: chars_of(low.as_str()), matches: Vec::new() };
        assert(match_views(c.matches@) =~= Seq::<MatchView>::empty());
        c
    }

    /// Offers the next commit of the walk; answers whether the walk should
    /// go on, which it should while the search is below its limit.
    pub fn offer(&mut self, sha: String, author: Option<(String, String)>, message: String) -> (go_on: bool)
        ensures
            final(self)@ == search_offer(
                old(self)@,
                (sha@, author_view(author), message@),
            ),
            go_on == (final(self)@.2.len() < final(self)@.0),
    {
        if self.matches.len() >= self.max as usize {
            return false;
        }
        let ghost c: CandidateView = (sha@, author_view(author), message@);
        let low = chars_of(to_lowercase(message.as_str()).as_str());
        if contains_chars(&low, &self.needle) {
            let shown = match &author {
                Some(p) => person(p.0.as_str(), p.1.as_str()),
                None => String::from_str("unknown"),
            };
            let text = trim(message.as_str());
            let ghost before = self.matches@;
            self.matches.push(SearchMatch { sha, author: shown, message: text });
            assert(match_views(self.matches@) =~= match_views(before).push(match_of(c)));
        }
        self.matches.len() < self.max as usize
    }

    /// The matches found and their number.
    pub fn finish(self) -> (r: SearchReport)
        ensures
            match_views(r.matches@) == self@.2,
            r.count == self@.2.len(),
    {
        let count = self.matches.len();
        SearchReport { matches: self.matches, count }
    }
}

/// A search returns at most `max` results: the first `max` commits of the
/// walk whose message matches, in order (none at all when `max` is 0).
pub proof fn law_search_takes_first_matching(max: u32, needle: Seq<char>, cs: Seq<CandidateView>)
    ensures
        search_after((max, needle, Seq::empty()), cs) == (max, needle, first_n(
            search_hits(cs, needle),
            max as int,
        )),
    decreases cs.len(),
{
    if cs.len() > 0 {
        law_search_takes_first_matching(max, needle, cs.drop_last());
        let prev = search_hits(cs.drop_last(), needle);
        if message_matches(cs.last(), needle) && prev.len() >= max {
            assert(first_n(prev.push(match_of(cs.last())), max as int) =~= first_n(
                prev,
                max as int,
            ));
        }
    }
}

/// A search ignores case: it sees its query only through the query's
/// lowercase form, so two queries with the same lowercase form find the
/// same commits.
pub proof fn law_search_ignores_query_case(
    max: u32,
    q1: Seq<char>,
    q2: Seq<char>,
    cs: Seq<CandidateView>,
)
    requires
        lowercase(q1) == lowercase(q2),
    ensures
        search_after((max, lowercase(q1), Seq::empty()), cs).2 == search_after(
            (max, lowercase(q2), Seq::empty()),
            cs,
        ).2,
{
}

/// Offering a commit to a search for `query`: while the search holds fewer
/// matches than its limit, a commit whose lowercased message contains the
/// lowercased query is added with its id, its author shown as
/// `name <email>` when the author could be read and as `unknown` only when
/// it could not, and its message without surrounding whitespace; otherwise
/// the search stays as it was.
pub proof fn law_search_offer_shows_author(
    max: u32,
    query: Seq<char>,
    found: Seq<MatchView>,
    c: CandidateView,
)
    ensures
        search_offer((max, lowercase(query), found), c) == if found.len() < max && contains_text(
            lowercase(c.2),
            lowercase(query),
        ) {
            (
                max,
                lowercase(query),
                found.push(
                    (
                        c.0,
                        match c.1 {
                            Some(p) => p.0 + " <"@ + p.1 + ">"@,
                            None => "unknown"@,
                        },
                        trimmed(c.2),
                    ),
                ),
            )
        } else {
            (max, lowercase(query), found)
        },
{
}

// ---------------------------------------------------------------------------
// One commit in detail
// ---------------------------------------------------------------------------

/// A commit shown in detail.
pub struct CommitDetails {
    pub sha: String,
    pub author: String,
    pub committer: String,
    pub timestamp: i64,
    pub message: String,
    pub parents: Vec<String>,
    pub files: Vec<DiffFile>,
}

/// A commit shown in detail: its id, `name <email>` of its author and of
/// its committer, the author's time, its message without surrounding
/// whitespace, the ids of its parents, and the files it changed (the
/// changes from its first parent's tree, or from the empty tree for a
/// root commit, in the order given).
pub fn commit_details(
    rec: CommitRecord,
    committer_name: &str,
    committer_email: &str,
    parents: Vec<String>,
    changes: Vec<(String, ChangeKind)>,
) -> (d: CommitDetails)
    ensures
        d.sha@ == rec.sha@,
        d.author@ == person_text(rec.author_name@, rec.author_email@),
        d.committer@ == person_text(committer_name@, committer_email@),
        d.timestamp == rec.timestamp,
        d.message@ == trimmed(rec.message@),
        d.parents@ == parents@,
        d.files@.len() == changes@.len(),
        forall|i: int|
            #![trigger d.files@[i]]
            0 <= i < changes@.len() ==> d.files@[i]@ == (changes@[i].0@, change_label(changes@[i].1)),
{
    CommitDetails {
        author: person(rec.author_name.as_str(), rec.author_email.as_str()),
        committer: person(committer_name, committer_email),
        timestamp: rec.timestamp,
        message: trim(rec.message.as_str()),
        sha: rec.sha,
        parents,
        files: changed_files(changes),
    }
}

} // verus!
