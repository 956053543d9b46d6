use vstd::prelude::*;

use crate::log::first_n;
use crate::text::{chars_of, starts_with_chars, starts_with_text};

verus! {

/// How a path changed between two trees.
pub enum ChangeKind {
    Addition,
    Deletion,
    Modification,
    /// A rename, or a copy when `copy` is set.
    Rewrite { copy: bool },
}

/// The word by which a change is shown.
pub open spec fn change_label(k: ChangeKind) -> Seq<char> {
    match k {
        ChangeKind::Addition => "added"@,
        ChangeKind::Deletion => "deleted"@,
        ChangeKind::Modification => "modified"@,
        ChangeKind::Rewrite { copy } => if copy {
            "copied"@
        } else {
            "renamed"@
        },
    }
}

/// The word by which a change is shown.
pub fn change_label_of(k: &ChangeKind) -> (s: String)
    ensures
        s@ == change_label(*k),
{
    match k {
        ChangeKind::Addition => String::from_str("added"),
        ChangeKind::Deletion => String::from_str("deleted"),
        ChangeKind::Modification => String::from_str("modified"),
        ChangeKind::Rewrite { copy } => if *copy {
            String::from_str("copied")
        } else {
            String::from_str("renamed")
        },
    }
}

/// A changed path and how it changed.
pub struct DiffFile {
    pub path: String,
    pub change: String,
}

/// The view of a changed file: path, change.
pub type DiffFileView = (Seq<char>, Seq<char>);

impl View for DiffFile {
    type V = DiffFileView;

    open spec fn view(&self) -> DiffFileView {
        (self.path@, self.change@)
    }
}

/// The views of a sequence of changed files.
pub open spec fn diff_file_views(v: Seq<DiffFile>) -> Seq<DiffFileView> {
    v.map_values(|f: DiffFile| f@)
}

/// A change offered by the tree diff: its path and its kind.
pub type ChangeView = (Seq<char>, ChangeKind);

/// Whether a changed path passes the path filter (it starts with it).
pub open spec fn path_passes(path: Seq<char>, filter: Option<Seq<char>>) -> bool {
    match filter {
        None => true,
        Some(f) => starts_with_text(path, f),
    }
}

/// A diff summary being collected: its limit, its path filter, the files so far.
pub struct DiffCollector {
    pub max_files: usize,
    pub filter: Option<Vec<char>>,
    pub files: Vec<DiffFile>,
}

/// The view of a diff summary being collected: limit, filter, files.
pub type DiffState = (usize, Option<Seq<char>>, Seq<DiffFileView>);

impl View for DiffCollector {
    type V = DiffState;

    open spec fn view(&self) -> DiffState {
        (
            self.max_files,
            match self.filter {
                Some(f) => Some(f@),
                None => None,
            },
            diff_file_views(self.files@),
        )
    }
}

/// What offering one change does: a change that passes the filter is added
/// while the summary is below its limit; the diff goes on either way.
pub open spec fn diff_offer(st: DiffState, c: ChangeView) -> DiffState {
    if path_passes(c.0, st.1) && st.2.len() < st.0 {
        (st.0, st.1, st.2.push((c.0, change_label(c.1))))
    } else {
        st
    }
}

/// The summary after offering `cs` in order.
pub open spec fn diff_after(st: DiffState, cs: Seq<ChangeView>) -> DiffState
    decreases cs.len(),
{
    if cs.len() == 0 {
        st
    } else {
        diff_offer(diff_after(st, cs.drop_last()), cs.last())
    }
}

/// The changes among `cs` that pass the filter, as they are shown.
pub open spec fn diff_hits(cs: Seq<ChangeView>, filter: Option<Seq<char>>) -> Seq<DiffFileView>
    decreases cs.len(),
{
    if cs.len() == 0 {
        Seq::empty()
    } else if path_passes(cs.last().0, filter) {
        diff_hits(cs.drop_last(), filter).push((cs.last().0, change_label(cs.last().1)))
    } else {
        diff_hits(cs.drop_last(), filter)
    }
}

/// The answer to a diff request.
pub struct DiffReport {
    pub from: String,
    pub to: String,
    pub from_sha: String,
    pub to_sha: String,
    pub files: Vec<DiffFile>,
    pub file_count: usize,
}

/// Collects the changed files of a tree diff as they are visited.
impl DiffCollector {
    /// An empty summary keeping at most `max_files` files under `filter`.
    pub fn new(max_files: usize, filter: Option<&str>) -> (c: Self)
        ensures
            c@ == (max_files, match filter { Some(f) => Some(f@), None => None }, Seq::<DiffFileView>::empty()),
    {
        let filter = match filter {
            Some(f) => Some(chars_of(f)),
            None => None,
        };
        let c = DiffCollector { max_files, filter, files: Vec::new() };
        assert(diff_file_views(c.files@) =~= Seq::<DiffFileView>::empty());
        c
    }

    /// Offers the next change of the diff.
    pub fn offer(&mut self, path: String, kind: ChangeKind)
        ensures
            final(self)@ == diff_offer(old(self)@, (path@, kind)),
    {
        let pass = match &self.filter {
            None => true,
            Some(f) => starts_with_chars(&chars_of(path.as_str()), f),
        };
        if pass && self.files.len() < self.max_files {
            let change = change_label_of(&kind);
            let ghost before = self.files@;
            let ghost entry = (path@, change_label(kind));
            self.files.push(DiffFile { path, change });
            assert(diff_file_views(self.files@) =~= diff_file_views(before).push(entry));
        }
    }

    /// The summary of the diff between the two revisions.
    pub fn finish(self, from: String, to: String, from_sha: String, to_sha: String) -> (r: DiffReport)
        ensures
            diff_file_views(r.files@) == self@.2,
            r.file_count == self@.2.len(),
            r.from@ == from@,
            r.to@ == to@,
            r.from_sha@ == from_sha@,
            r.to_sha@ == to_sha@,
    {
        let file_count = self.files.len();
        DiffReport { from, to, from_sha, to_sha, files: self.files, file_count }
    }
}

/// The files a commit changed, as they are shown: each changed path in the
/// order given, with the word for how it changed.
pub fn changed_files(changes: Vec<(String, ChangeKind)>) -> (files: Vec<DiffFile>)
    ensures
        files@.len() == changes@.len(),
        forall|i: int|
            #![trigger files@[i]]
            0 <= i < changes@.len() ==> files@[i]@ == (changes@[i].0@, change_label(changes@[i].1)),
{
    let mut files: Vec<DiffFile> = Vec::new();
    let n = changes.len();
    let mut i: usize = 0;
    while i < n
        invariant
            i <= n == changes@.len(),
            files@.len() == i,
            forall|j: int|
                #![trigger files@[j]]
                0 <= j < i ==> files@[j]@ == (changes@[j].0@, change_label(changes@[j].1)),
        decreases n - i,
    {
        let path = changes[i].0.clone();
        let change = change_label_of(&changes[i].1);
        files.push(DiffFile { path, change });
        i = i + 1;
    }
    files
}

/// A diff summary lists the first `max_files` changes that pass the path
/// filter, in the order the diff visits them.
pub proof fn law_diff_takes_first_matching(
    max_files: usize,
    filter: Option<Seq<char>>,
    cs: Seq<ChangeView>,
)
    ensures
        diff_after((max_files, filter, Seq::empty()), cs) == (max_files, filter, first_n(
            diff_hits(cs, filter),
            max_files as int,
        )),
    decreases cs.len(),
{
    if cs.len() > 0 {
        law_diff_takes_first_matching(max_files, filter, cs.drop_last());
        let prev = diff_hits(cs.drop_last(), filter);
        if path_passes(cs.last().0, filter) && prev.len() >= max_files {
            assert(first_n(prev.push((cs.last().0, change_label(cs.last().1))), max_files as int)
                =~= first_n(prev, max_files as int));
        }
    }
}


/// Each kind of change has its own word: an addition is shown as `added`, a
/// deletion as `deleted`, a modification as `modified`, a rename as
/// `renamed` and a copy as `copied`; two different kinds are never shown by
/// the same word.
pub proof fn law_change_words(k: ChangeKind, j: ChangeKind)
    ensures
        k is Addition ==> change_label(k) == "added"@,
        k is Deletion ==> change_label(k) == "deleted"@,
        k is Modification ==> change_label(k) == "modified"@,
        k matches ChangeKind::Rewrite { copy: true } ==> change_label(k) == "copied"@,
        k matches ChangeKind::Rewrite { copy: false } ==> change_label(k) == "renamed"@,
        k != j ==> change_label(k) != change_label(j),
{
    reveal_strlit("added");
    reveal_strlit("deleted");
    reveal_strlit("modified");
    reveal_strlit("copied");
    reveal_strlit("renamed");
    if k != j {
        let a = change_label(k);
        let b = change_label(j);
        if a.len() == b.len() {
            assert(a[0] != b[0]);
        }
    }
}

/// Offering a change to a diff summary: while the summary holds fewer files
/// than its limit, a change whose path begins with the filter (any path when
/// there is none) is added at the end with its path and the word for its
/// kind (`added`, `deleted`, `modified`, `copied` or `renamed`); otherwise
/// the summary stays as it was.
pub proof fn law_diff_offer_shows_change(
    max_files: usize,
    filter: Option<Seq<char>>,
    files: Seq<DiffFileView>,
    path: Seq<char>,
    kind: ChangeKind,
)
    ensures
        diff_offer((max_files, filter, files), (path, kind)) == if files.len() < max_files && (
        match filter {
            None => true,
            Some(f) => f.len() <= path.len() && path.take(f.len() as int) == f,
        }) {
            (
                max_files,
                filter,
                files.push(
                    (
                        path,
                        match kind {
                            ChangeKind::Addition => "added"@,
                            ChangeKind::Deletion => "deleted"@,
                            ChangeKind::Modification => "modified"@,
                            ChangeKind::Rewrite { copy } => if copy {
                                "copied"@
                            } else {
                                "renamed"@
                            },
                        },
                    ),
                ),
            )
        } else {
            (max_files, filter, files)
        },
{
    if let Some(f) = filter {
        if f.len() <= path.len() {
            assert(path.take(f.len() as int) =~= path.subrange(0, f.len() as int));
        }
    }
}

} // verus!
