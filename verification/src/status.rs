use vstd::prelude::*;

use crate::text::{byte_len, chars_of, lines_of, seqs_of, split_lines, string_of, utf8_width, utf8_width_of};

verus! {

/// A changed file and what happened to it.
pub struct FileStatus {
    pub path: String,
    pub status: String,
}

impl View for FileStatus {
    type V = (Seq<char>, Seq<char>);

    open spec fn view(&self) -> (Seq<char>, Seq<char>) {
        (self.path@, self.status@)
    }
}

/// The state of a work tree: changes in the index, changes in the work
/// tree, untracked files, and whether there is nothing of the three.
pub struct StatusReport {
    pub staged: Vec<FileStatus>,
    pub unstaged: Vec<FileStatus>,
    pub untracked: Vec<String>,
    pub is_clean: bool,
}

/// The views of a sequence of file states.
pub open spec fn status_views(v: Seq<FileStatus>) -> Seq<(Seq<char>, Seq<char>)> {
    v.map_values(|f: FileStatus| f@)
}

/// The character sequences of a sequence of strings.
pub open spec fn string_views(v: Seq<String>) -> Seq<Seq<char>> {
    v.map_values(|s: String| s@)
}

/// The character index at which the first `rem` bytes of `line[k..]` end,
/// if a character ends exactly there.
pub open spec fn cut_from(line: Seq<char>, k: int, rem: int) -> Option<int>
    decreases line.len() - k,
{
    if rem <= 0 {
        if rem == 0 { Some(k) } else { None }
    } else if k < 0 || k >= line.len() || utf8_width(line[k]) > rem {
        None
    } else {
        cut_from(line, k + 1, rem - utf8_width(line[k]))
    }
}

/// The path of a porcelain status line: what follows its first three bytes.
pub open spec fn status_path(line: Seq<char>) -> Seq<char> {
    line.skip(cut_from(line, 0, 3)->Some_0)
}

/// What the index column of a status line says.
pub open spec fn index_label(c: char) -> Seq<char> {
    if c == 'A' {
        "added"@
    } else if c == 'M' {
        "modified"@
    } else if c == 'D' {
        "deleted"@
    } else if c == 'R' {
        "renamed"@
    } else if c == 'C' {
        "copied"@
    } else {
        "unknown"@
    }
}

/// The work-tree column of a status line: the second byte of the line,
/// `None` when that byte belongs to a character of several bytes.
pub open spec fn worktree_code(line: Seq<char>) -> Option<char> {
    if utf8_width(line[0]) == 1 {
        Some(line[1])
    } else {
        None
    }
}

/// What the work-tree column of a status line says.
pub open spec fn worktree_label(w: Option<char>) -> Seq<char> {
    if w == Some('M') {
        "modified"@
    } else if w == Some('D') {
        "deleted"@
    } else {
        "unknown"@
    }
}

/// Staged changes, unstaged changes and untracked paths read so far.
pub type StatusScan = (Seq<(Seq<char>, Seq<char>)>, Seq<(Seq<char>, Seq<char>)>, Seq<Seq<char>>);

/// Reading one line of `git status --porcelain=v1`: lines shorter than
/// three bytes are skipped; `?` in the first column marks an untracked
/// path; otherwise a non-space first column is a staged change and a
/// non-space second column an unstaged one.
pub open spec fn status_step(st: StatusScan, line: Seq<char>) -> StatusScan {
    if byte_len(line) < 3 {
        st
    } else if line[0] == '?' {
        (st.0, st.1, st.2.push(status_path(line)))
    } else {
        let staged = if line[0] != ' ' {
            st.0.push((status_path(line), index_label(line[0])))
        } else {
            st.0
        };
        let unstaged = if worktree_code(line) != Some(' ') {
            st.1.push((status_path(line), worktree_label(worktree_code(line))))
        } else {
            st.1
        };
        (staged, unstaged, st.2)
    }
}

/// The state after reading `lines` in order.
pub open spec fn status_scan(lines: Seq<Seq<char>>) -> StatusScan
    decreases lines.len(),
{
    if lines.len() == 0 {
        (Seq::empty(), Seq::empty(), Seq::empty())
    } else {
        status_step(status_scan(lines.drop_last()), lines.last())
    }
}

/// Whether every line of three or more bytes has a character boundary
/// after its third byte, so that its path can be cut off.
pub open spec fn status_lines_cut_cleanly(text: Seq<char>) -> bool {
    forall|i: int|
        0 <= i < lines_of(text).len() ==> byte_len(#[trigger] lines_of(text)[i]) >= 3 ==> cut_from(
            lines_of(text)[i],
            0,
            3,
        ) is Some
}

proof fn lemma_byte_len_take(s: Seq<char>, k: int)
    requires
        0 <= k < s.len(),
    ensures
        byte_len(s.take(k + 1)) == byte_len(s.take(k)) + utf8_width(s[k]),
{
    assert(s.take(k + 1).drop_last() =~= s.take(k));
}

proof fn lemma_byte_len_prefix(s: Seq<char>, k: int)
    requires
        0 <= k <= s.len(),
    ensures
        byte_len(s.take(k)) <= byte_len(s),
    decreases s.len() - k,
{
    if k < s.len() {
        lemma_byte_len_take(s, k);
        lemma_byte_len_prefix(s, k + 1);
    } else {
        assert(s.take(k) =~= s);
    }
}

/// How a status line is cut: `(short, cut)` where `short` tells whether the
/// line has fewer than three bytes and `cut` is the character index where
/// its path starts, if a character ends after the third byte.
fn cut_line(line: &Vec<char>) -> (r: (bool, Option<usize>))
    ensures
        r.0 == (byte_len(line@) < 3),
        r.1 matches Some(k) ==> cut_from(line@, 0, 3) == Some(k as int) && k <= line@.len(),
        r.1 is None ==> cut_from(line@, 0, 3) is None,
{
    let n = line.len();
    let mut k: usize = 0;
    let mut acc: usize = 0;
    while acc < 3 && k < n
        invariant
            k <= n == line.len(),
            acc == byte_len(line@.take(k as int)),
            acc <= 6,
            acc <= 3 ==> cut_from(line@, 0, 3) == cut_from(line@, k as int, 3 - acc),
            acc > 3 ==> cut_from(line@, 0, 3) is None,
        decreases n - k,
    {
        proof {
            lemma_byte_len_take(line@, k as int);
        }
        let w = utf8_width_of(line[k]);
        acc = acc + w;
        k = k + 1;
    }
    proof {
        lemma_byte_len_prefix(line@, k as int);
        if k == n {
            assert(line@.take(k as int) =~= line@);
        }
    }
    let short = acc < 3;
    if acc == 3 {
        (short, Some(k))
    } else {
        (short, None)
    }
}

fn index_label_of(c: char) -> (s: String)
    ensures
        s@ == index_label(c),
{
    if c == 'A' {
        String::from_str("added")
    } else if c == 'M' {
        String::from_str("modified")
    } else if c == 'D' {
        String::from_str("deleted")
    } else if c == 'R' {
        String::from_str("renamed")
    } else if c == 'C' {
        String::from_str("copied")
    } else {
        String::from_str("unknown")
    }
}

fn worktree_label_of(w: Option<char>) -> (s: String)
    ensures
        s@ == worktree_label(w),
{
    if w == Some('M') {
        String::from_str("modified")
    } else if w == Some('D') {
        String::from_str("deleted")
    } else {
        String::from_str("unknown")
    }
}

/// The state of a work tree from `git status --porcelain=v1` output.
pub fn parse_status(text: &str) -> (r: StatusReport)
    requires
        status_lines_cut_cleanly(text@),
    ensures
        (status_views(r.staged@), status_views(r.unstaged@), string_views(r.untracked@))
            == status_scan(lines_of(text@)),
        r.is_clean == (r.staged@.len() == 0 && r.unstaged@.len() == 0 && r.untracked@.len() == 0),
{
    let cs = chars_of(text);
    let lines = split_lines(&cs);
    let mut staged: Vec<FileStatus> = Vec::new();
    let mut unstaged: Vec<FileStatus> = Vec::new();
    let mut untracked: Vec<String> = Vec::new();
    let n = lines.len();
    let mut i: usize = 0;
    while i < n
        invariant
            i <= n == lines.len(),
            seqs_of(lines@) == lines_of(text@),
            status_lines_cut_cleanly(text@),
            (status_views(staged@), status_views(unstaged@), string_views(untracked@))
                == status_scan(seqs_of(lines@).take(i as int)),
        decreases n - i,
    {
        let line = &lines[i];
        assert(seqs_of(lines@).take(i + 1).drop_last() =~= seqs_of(lines@).take(i as int));
        assert(seqs_of(lines@).take(i + 1).last() == line@);
        assert(lines_of(text@)[i as int] == line@);
        let (short, cut) = cut_line(line);
        if !short {
            let k = match cut {
                Some(k) => k,
                None => {
                    assert(false);
                    0
                },
            };
            let path = string_of(line, k, line.len());
            assert(path@ =~= status_path(line@));
            let first = line[0];
            if first == '?' {
                let ghost before = untracked@;
                untracked.push(path);
                assert(string_views(untracked@) =~= string_views(before).push(status_path(line@)));
            } else {
                proof {
                    if line@.len() == 1 {
                        assert(line@.drop_last() =~= Seq::<char>::empty());
                        assert(byte_len(line@.drop_last()) == 0);
                        assert(line@.last() == line@[0]);
                        assert(byte_len(line@) == utf8_width(line@[0]));
                    }
                }
                let w: Option<char> = if utf8_width_of(first) == 1 {
                    Some(line[1])
                } else {
                    None
                };
                assert(w == worktree_code(line@));
                if first != ' ' {
                    let ghost before = staged@;
                    staged.push(FileStatus { path: path.clone(), status: index_label_of(first) });
                    assert(status_views(staged@) =~= status_views(before).push(
                        (status_path(line@), index_label(first)),
                    ));
                }
                if w != Some(' ') {
                    let ghost before = unstaged@;
                    unstaged.push(FileStatus { path, status: worktree_label_of(w) });
                    assert(status_views(unstaged@) =~= status_views(before).push(
                        (status_path(line@), worktree_label(w)),
                    ));
                }
            }
        }
        i = i + 1;
    }
    assert(seqs_of(lines@).take(n as int) =~= seqs_of(lines@));
    let is_clean = staged.len() == 0 && unstaged.len() == 0 && untracked.len() == 0;
    StatusReport { staged, unstaged, untracked, is_clean }
}


/// Whether a status line reports nothing: it is shorter than three bytes,
/// or both of its columns are spaces.
pub open spec fn reports_nothing(line: Seq<char>) -> bool {
    byte_len(line) < 3 || (line[0] == ' ' && worktree_code(line) == Some(' '))
}

/// A work tree is reported clean exactly when no line of the status output
/// reports a change: every line is shorter than three bytes or has two
/// blank columns.
pub proof fn law_status_clean_iff_nothing_reported(lines: Seq<Seq<char>>)
    ensures
        ({
            let st = status_scan(lines);
            st.0.len() == 0 && st.1.len() == 0 && st.2.len() == 0
        }) <==> (forall|i: int| 0 <= i < lines.len() ==> reports_nothing(#[trigger] lines[i])),
    decreases lines.len(),
{
    if lines.len() > 0 {
        let prev = lines.drop_last();
        law_status_clean_iff_nothing_reported(prev);
        let st = status_scan(prev);
        let st2 = status_scan(lines);
        assert(st2 == status_step(st, lines.last()));
        assert(st.0.len() <= st2.0.len() && st.1.len() <= st2.1.len() && st.2.len() <= st2.2.len());
        if forall|i: int| 0 <= i < lines.len() ==> reports_nothing(#[trigger] lines[i]) {
            assert forall|i: int| 0 <= i < prev.len() implies reports_nothing(#[trigger] prev[i]) by {
                assert(prev[i] == lines[i]);
            }
            assert(reports_nothing(lines[lines.len() - 1]));
        } else {
            let i = choose|i: int| 0 <= i < lines.len() && !reports_nothing(#[trigger] lines[i]);
            if i < lines.len() - 1 {
                assert(prev[i] == lines[i]);
            }
        }
    }
}


/// Whether a status line reports a staged change.
pub open spec fn is_staged_line(line: Seq<char>) -> bool {
    byte_len(line) >= 3 && line[0] != '?' && line[0] != ' '
}

/// Whether a status line reports an unstaged change.
pub open spec fn is_unstaged_line(line: Seq<char>) -> bool {
    byte_len(line) >= 3 && line[0] != '?' && worktree_code(line) != Some(' ')
}

/// Whether a status line reports an untracked path.
pub open spec fn is_untracked_line(line: Seq<char>) -> bool {
    byte_len(line) >= 3 && line[0] == '?'
}

/// A staged change as it is listed.
pub open spec fn staged_entry(line: Seq<char>) -> (Seq<char>, Seq<char>) {
    (status_path(line), index_label(line[0]))
}

/// An unstaged change as it is listed.
pub open spec fn unstaged_entry(line: Seq<char>) -> (Seq<char>, Seq<char>) {
    (status_path(line), worktree_label(worktree_code(line)))
}

/// The status lists, line by line: untracked paths are the paths of the
/// lines marked `?`; staged changes come from the other lines with a
/// non-space first column, unstaged ones from the other lines with a
/// non-space second column; each list keeps the order of the output.
pub proof fn law_status_lists_filter_lines(lines: Seq<Seq<char>>)
    ensures
        status_scan(lines).0 == lines.filter(|l: Seq<char>| is_staged_line(l)).map_values(
            |l: Seq<char>| staged_entry(l),
        ),
        status_scan(lines).1 == lines.filter(|l: Seq<char>| is_unstaged_line(l)).map_values(
            |l: Seq<char>| unstaged_entry(l),
        ),
        status_scan(lines).2 == lines.filter(|l: Seq<char>| is_untracked_line(l)).map_values(
            |l: Seq<char>| status_path(l),
        ),
    decreases lines.len(),
{
    reveal(Seq::filter);
    let ps = |l: Seq<char>| is_staged_line(l);
    let pu = |l: Seq<char>| is_unstaged_line(l);
    let pt = |l: Seq<char>| is_untracked_line(l);
    let fs = |l: Seq<char>| staged_entry(l);
    let fu = |l: Seq<char>| unstaged_entry(l);
    let ft = |l: Seq<char>| status_path(l);
    if lines.len() == 0 {
        assert(lines.filter(ps).map_values(fs) =~= Seq::empty());
        assert(lines.filter(pu).map_values(fu) =~= Seq::empty());
        assert(lines.filter(pt).map_values(ft) =~= Seq::empty());
    } else {
        let prev = lines.drop_last();
        let last = lines.last();
        law_status_lists_filter_lines(prev);
        assert(lines.filter(ps) == if ps(last) { prev.filter(ps).push(last) } else { prev.filter(ps) });
        assert(lines.filter(pu) == if pu(last) { prev.filter(pu).push(last) } else { prev.filter(pu) });
        assert(lines.filter(pt) == if pt(last) { prev.filter(pt).push(last) } else { prev.filter(pt) });
        assert(prev.filter(ps).push(last).map_values(fs) =~= prev.filter(ps).map_values(fs).push(fs(last)));
        assert(prev.filter(pu).push(last).map_values(fu) =~= prev.filter(pu).map_values(fu).push(fu(last)));
        assert(prev.filter(pt).push(last).map_values(ft) =~= prev.filter(pt).map_values(ft).push(ft(last)));
    }
}


/// The lines of status output that report a staged change, in order.
pub open spec fn staged_lines(lines: Seq<Seq<char>>) -> Seq<Seq<char>> {
    lines.filter(|l: Seq<char>| is_staged_line(l))
}

/// The lines of status output that report an untracked path, in order.
pub open spec fn untracked_lines(lines: Seq<Seq<char>>) -> Seq<Seq<char>> {
    lines.filter(|l: Seq<char>| is_untracked_line(l))
}

/// The lines of status output that report an unstaged change, in order.
pub open spec fn unstaged_lines(lines: Seq<Seq<char>>) -> Seq<Seq<char>> {
    lines.filter(|l: Seq<char>| is_unstaged_line(l))
}

proof fn lemma_cut_from(line: Seq<char>, k: int, rem: int)
    requires
        0 <= k <= line.len(),
        cut_from(line, k, rem) is Some,
    ensures
        k <= cut_from(line, k, rem)->Some_0 <= line.len(),
        byte_len(line.take(cut_from(line, k, rem)->Some_0)) == byte_len(line.take(k)) + rem,
    decreases line.len() - k,
{
    if rem > 0 {
        lemma_byte_len_take(line, k);
        lemma_cut_from(line, k + 1, rem - utf8_width(line[k]));
    }
}

/// What each listed change says: the k-th staged change comes from the k-th
/// line with a staged change, and is shown by its index column: `A` as
/// `added`, `M` as `modified`, `D` as `deleted`, `R` as `renamed`, `C` as
/// `copied`, and anything else as `unknown`; the k-th unstaged change comes
/// from the k-th line with an unstaged change, and is shown by its work-tree
/// column (the line's second byte): `M` as `modified`, `D` as `deleted`,
/// and anything else as `unknown`; the k-th untracked path comes from the
/// k-th line marked `?`. The path of each is what follows the first three
/// bytes of its line.
pub proof fn law_status_words(lines: Seq<Seq<char>>)
    ensures
        status_scan(lines).0.len() == staged_lines(lines).len(),
        status_scan(lines).1.len() == unstaged_lines(lines).len(),
        status_scan(lines).2.len() == untracked_lines(lines).len(),
        forall|k: int|
            #![trigger status_scan(lines).2[k]]
            0 <= k < status_scan(lines).2.len() ==> {
                let l = untracked_lines(lines)[k];
                &&& l[0] == '?'
                &&& cut_from(l, 0, 3) matches Some(j) ==> byte_len(l.take(j)) == 3
                    && status_scan(lines).2[k] == l.skip(j)
            },
        forall|k: int|
            #![trigger status_scan(lines).0[k]]
            0 <= k < status_scan(lines).0.len() ==> {
                let l = staged_lines(lines)[k];
                let e = status_scan(lines).0[k];
                &&& l[0] == 'A' ==> e.1 == "added"@
                &&& l[0] == 'M' ==> e.1 == "modified"@
                &&& l[0] == 'D' ==> e.1 == "deleted"@
                &&& l[0] == 'R' ==> e.1 == "renamed"@
                &&& l[0] == 'C' ==> e.1 == "copied"@
                &&& l[0] != 'A' && l[0] != 'M' && l[0] != 'D' && l[0] != 'R' && l[0] != 'C' ==> e.1
                    == "unknown"@
                &&& cut_from(l, 0, 3) matches Some(j) ==> byte_len(l.take(j)) == 3 && e.0 == l.skip(j)
            },
        forall|k: int|
            #![trigger status_scan(lines).1[k]]
            0 <= k < status_scan(lines).1.len() ==> {
                let l = unstaged_lines(lines)[k];
                let e = status_scan(lines).1[k];
                let single = utf8_width(l[0]) == 1;
                &&& single && l[1] == 'M' ==> e.1 == "modified"@
                &&& single && l[1] == 'D' ==> e.1 == "deleted"@
                &&& !(single && (l[1] == 'M' || l[1] == 'D')) ==> e.1 == "unknown"@
                &&& cut_from(l, 0, 3) matches Some(j) ==> byte_len(l.take(j)) == 3 && e.0 == l.skip(j)
            },
{
    law_status_lists_filter_lines(lines);
    let st = status_scan(lines);
    assert forall|k: int| 0 <= k < st.0.len() implies {
        let l = #[trigger] staged_lines(lines)[k];
        cut_from(l, 0, 3) matches Some(j) ==> byte_len(l.take(j)) == 3
    } by {
        let l = staged_lines(lines)[k];
        if cut_from(l, 0, 3) is Some {
            lemma_cut_from(l, 0, 3);
            assert(l.take(0) =~= Seq::<char>::empty());
        }
    }
    assert forall|k: int| 0 <= k < st.2.len() implies {
        let l = #[trigger] untracked_lines(lines)[k];
        cut_from(l, 0, 3) matches Some(j) ==> byte_len(l.take(j)) == 3
    } by {
        let l = untracked_lines(lines)[k];
        if cut_from(l, 0, 3) is Some {
            lemma_cut_from(l, 0, 3);
            assert(l.take(0) =~= Seq::<char>::empty());
        }
    }
    assert forall|k: int| 0 <= k < st.1.len() implies {
        let l = #[trigger] unstaged_lines(lines)[k];
        cut_from(l, 0, 3) matches Some(j) ==> byte_len(l.take(j)) == 3
    } by {
        let l = unstaged_lines(lines)[k];
        if cut_from(l, 0, 3) is Some {
            lemma_cut_from(l, 0, 3);
            assert(l.take(0) =~= Seq::<char>::empty());
        }
    }
}

} // verus!
