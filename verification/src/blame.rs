use vstd::prelude::*;

use crate::text::{
    chars_of, decimal, law_decimal_reads_back, lines_of, push_decimal, parse_u32, parse_u32_text, seqs_of,
    split_lines, starts_with_chars, starts_with_text, string_of,
};

verus! {

/// One line of a blamed file: the commit it comes from, that commit's
/// author, and its line number in the file.
pub struct BlameLine {
    pub sha: String,
    pub author: String,
    pub line_no: u32,
}

impl View for BlameLine {
    type V = (Seq<char>, Seq<char>, u32);

    open spec fn view(&self) -> (Seq<char>, Seq<char>, u32) {
        (self.sha@, self.author@, self.line_no)
    }
}

/// A run of consecutive lines from one commit: the commit's short id, its
/// author, and the line numbers it covers as `n` or `first-last`.
pub struct BlameGroup {
    pub commit: String,
    pub author: String,
    pub lines: String,
}

impl View for BlameGroup {
    type V = (Seq<char>, Seq<char>, Seq<char>);

    open spec fn view(&self) -> (Seq<char>, Seq<char>, Seq<char>) {
        (self.commit@, self.author@, self.lines@)
    }
}

/// The blame of a file: its groups, and how many lines it has.
pub struct BlameReport {
    pub groups: Vec<BlameGroup>,
    pub total_lines: usize,
}

/// The views of a sequence of blamed lines.
pub open spec fn line_views(v: Seq<BlameLine>) -> Seq<(Seq<char>, Seq<char>, u32)> {
    v.map_values(|l: BlameLine| l@)
}

/// The views of a sequence of groups.
pub open spec fn group_views(v: Seq<BlameGroup>) -> Seq<(Seq<char>, Seq<char>, Seq<char>)> {
    v.map_values(|g: BlameGroup| g@)
}

// ---------------------------------------------------------------------------
// Reading `git blame --line-porcelain`
// ---------------------------------------------------------------------------

/// Whether `c` is an ASCII hexadecimal digit.
pub open spec fn is_hex(c: char) -> bool {
    ('0' <= c && c <= '9') || ('a' <= c && c <= 'f') || ('A' <= c && c <= 'F')
}

/// Whether a line opens a blame entry: forty hexadecimal digits and a space.
pub open spec fn is_header(line: Seq<char>) -> bool {
    line.len() > 40 && (forall|i: int| 0 <= i < 40 ==> is_hex(#[trigger] line[i])) && line[40]
        == ' '
}

/// The index of the first space in `s` at or after `i`, or `s.len()` if none.
pub open spec fn space_from(s: Seq<char>, i: int) -> int
    decreases s.len() - i,
{
    if i < 0 || i >= s.len() {
        s.len() as int
    } else if s[i] == ' ' {
        i
    } else {
        space_from(s, i + 1)
    }
}

/// The line number that a header line gives: its second field after the
/// commit id (the line's number in the final file), read as a number, 0
/// when it is not one; `prev` when the header has no second field.
pub open spec fn header_line_no(line: Seq<char>, prev: u32) -> u32 {
    let rest = line.skip(41);
    let k = space_from(rest, 0);
    if k < rest.len() {
        let after = rest.skip(k + 1);
        match parse_u32_text(after.take(space_from(after, 0))) {
            Some(v) => v,
            None => 0,
        }
    } else {
        prev
    }
}

/// The prefix of an author line.
pub open spec fn author_prefix() -> Seq<char> {
    seq!['a', 'u', 't', 'h', 'o', 'r', ' ']
}

/// What has been read of blame output so far: the blamed lines, and the
/// commit, author and line number of the current entry.
pub type BlameScan = (Seq<(Seq<char>, Seq<char>, u32)>, Seq<char>, Seq<char>, u32);

/// Reading one line of blame output: a tab-led content line records the
/// current entry; a header sets its commit and line number; an `author `
/// line sets its author; any other line changes nothing.
pub open spec fn blame_step(st: BlameScan, line: Seq<char>) -> BlameScan {
    if line.len() > 0 && line[0] == '\t' {
        (st.0.push((st.1, st.2, st.3)), st.1, st.2, st.3)
    } else if is_header(line) {
        (st.0, line.take(40), st.2, header_line_no(line, st.3))
    } else if starts_with_text(line, author_prefix()) {
        (st.0, st.1, line.skip(7), st.3)
    } else {
        st
    }
}

/// The state after reading `lines` in order, starting with no commit, no
/// author and line number 0.
pub open spec fn blame_scan(lines: Seq<Seq<char>>) -> BlameScan
    decreases lines.len(),
{
    if lines.len() == 0 {
        (Seq::empty(), Seq::empty(), Seq::empty(), 0)
    } else {
        blame_step(blame_scan(lines.drop_last()), lines.last())
    }
}

/// The blamed lines described by `git blame --line-porcelain` output.
pub open spec fn blamed_lines(text: Seq<char>) -> Seq<(Seq<char>, Seq<char>, u32)> {
    blame_scan(lines_of(text)).0
}

fn is_hex_char(c: char) -> (b: bool)
    ensures
        b == is_hex(c),
{
    ('0' <= c && c <= '9') || ('a' <= c && c <= 'f') || ('A' <= c && c <= 'F')
}

fn is_header_line(line: &Vec<char>) -> (b: bool)
    ensures
        b == is_header(line@),
{
    if line.len() <= 40 || line[40] != ' ' {
        return false;
    }
    let mut i: usize = 0;
    while i < 40
        invariant
            i <= 40 < line.len(),
            forall|j: int| 0 <= j < i ==> is_hex(#[trigger] line@[j]),
        decreases 40 - i,
    {
        if !is_hex_char(line[i]) {
            return false;
        }
        i = i + 1;
    }
    true
}

fn space_index(s: &Vec<char>, from: usize) -> (k: usize)
    requires
        from <= s.len(),
    ensures
        k == space_from(s@, from as int),
        from <= k <= s.len(),
{
    let mut i = from;
    while i < s.len() && s[i] != ' '
        invariant
            from <= i <= s.len(),
            space_from(s@, from as int) == space_from(s@, i as int),
        decreases s.len() - i,
    {
        i = i + 1;
    }
    i
}

proof fn lemma_space_from_shift(s: Seq<char>, d: int, i: int)
    requires
        0 <= d <= s.len(),
        0 <= i,
    ensures
        space_from(s.skip(d), i) == space_from(s, i + d) - d,
    decreases s.len() - d - i,
{
    if i < s.len() - d && s[i + d] != ' ' {
        lemma_space_from_shift(s, d, i + 1);
    }
}

fn header_number(line: &Vec<char>, prev: u32) -> (n: u32)
    requires
        line@.len() > 40,
    ensures
        n == header_line_no(line@, prev),
{
    let ghost rest = line@.skip(41);
    let k = space_index(line, 41);
    proof {
        lemma_space_from_shift(line@, 41, 0);
    }
    if k >= line.len() {
        return prev;
    }
    let e = space_index(line, k + 1);
    proof {
        let after = rest.skip(space_from(rest, 0) + 1);
        lemma_space_from_shift(line@, k + 1, 0);
        assert(after =~= line@.skip(k + 1));
        assert(after.take(space_from(after, 0)) =~= line@.subrange(k + 1, e as int));
    }
    match parse_u32(line, k + 1, e) {
        Some(v) => v,
        None => 0,
    }
}

fn has_author_prefix(line: &Vec<char>) -> (b: bool)
    ensures
        b == starts_with_text(line@, author_prefix()),
{
    let prefix: Vec<char> = vec!['a', 'u', 't', 'h', 'o', 'r', ' '];
    assert(prefix@ =~= author_prefix());
    starts_with_chars(line, &prefix)
}

/// The blamed lines of `git blame --line-porcelain` output, in order.
pub fn parse_blame(text: &str) -> (lines: Vec<BlameLine>)
    ensures
        line_views(lines@) == blamed_lines(text@),
        forall|i: int| 0 <= i < lines@.len() ==> vstd::utf8::is_ascii_chars(#[trigger] lines@[i].sha@),
{
    let cs = chars_of(text);
    let raw = split_lines(&cs);
    let mut out: Vec<BlameLine> = Vec::new();
    let mut sha = String::new();
    let mut author = String::new();
    let mut line_no: u32 = 0;
    let n = raw.len();
    let mut i: usize = 0;
    while i < n
        invariant
            i <= n == raw.len(),
            seqs_of(raw@) == lines_of(text@),
            (line_views(out@), sha@, author@, line_no) == blame_scan(seqs_of(raw@).take(i as int)),
            vstd::utf8::is_ascii_chars(sha@),
            forall|j: int| 0 <= j < out@.len() ==> vstd::utf8::is_ascii_chars(#[trigger] out@[j].sha@),
        decreases n - i,
    {
        let line = &raw[i];
        assert(seqs_of(raw@).take(i + 1).drop_last() =~= seqs_of(raw@).take(i as int));
        assert(seqs_of(raw@).take(i + 1).last() == line@);
        if line.len() > 0 && line[0] == '\t' {
            let ghost before = out@;
            out.push(BlameLine { sha: sha.clone(), author: author.clone(), line_no });
            assert(line_views(out@) =~= line_views(before).push((sha@, author@, line_no)));
        } else if is_header_line(line) {
            line_no = header_number(line, line_no);
            sha = string_of(line, 0, 40);
            assert(line@.subrange(0, 40) =~= line@.take(40));
            assert forall|j: int| 0 <= j < sha@.len() implies '\0' <= #[trigger] sha@[j] <= '\u{7f}' by {
                assert(is_hex(line@[j]));
            }
        } else if has_author_prefix(line) {
            author = string_of(line, 7, line.len());
            assert(line@.subrange(7, line@.len() as int) =~= line@.skip(7));
        }
        i = i + 1;
    }
    assert(seqs_of(raw@).take(n as int) =~= seqs_of(raw@));
    out
}


// ---------------------------------------------------------------------------
// Grouping consecutive lines by commit
// ---------------------------------------------------------------------------

/// A blamed line as the grouping sees it: commit, author, line number.
pub type BlamedLine = (Seq<char>, Seq<char>, u32);

/// The end of the run of lines that share the commit of `ls[0]`, searching from `j`.
pub open spec fn run_end(ls: Seq<BlamedLine>, j: int) -> int
    decreases ls.len() - j,
{
    if 1 <= j < ls.len() && ls[j].0 == ls[0].0 {
        run_end(ls, j + 1)
    } else {
        j
    }
}

/// Bounds on the end of a run.
pub proof fn lemma_run_end(ls: Seq<BlamedLine>, j: int)
    requires
        1 <= j <= ls.len(),
    ensures
        j <= run_end(ls, j) <= ls.len(),
        forall|k: int| j <= k < run_end(ls, j) ==> #[trigger] ls[k].0 == ls[0].0,
        run_end(ls, j) < ls.len() ==> ls[run_end(ls, j)].0 != ls[0].0,
    decreases ls.len() - j,
{
    if j < ls.len() && ls[j].0 == ls[0].0 {
        lemma_run_end(ls, j + 1);
    }
}

/// The maximal runs of consecutive lines from one commit, in order.
pub open spec fn blame_runs(ls: Seq<BlamedLine>) -> Seq<Seq<BlamedLine>>
    decreases ls.len(),
{
    if ls.len() == 0 {
        Seq::empty()
    } else {
        let n = run_end(ls, 1);
        proof {
            lemma_run_end(ls, 1);
        }
        seq![ls.take(n)] + blame_runs(ls.skip(n))
    }
}

/// The first eight characters of a commit id (all of it when shorter).
pub open spec fn short_id(sha: Seq<char>) -> Seq<char> {
    sha.take(if sha.len() < 8 { sha.len() as int } else { 8 })
}

/// Line numbers shown as `n` for a single line and `first-last` otherwise.
pub open spec fn range_text(first: u32, last: u32) -> Seq<char> {
    if first == last {
        decimal(first as nat)
    } else {
        decimal(first as nat) + seq!['-'] + decimal(last as nat)
    }
}

/// A run shown as a group: the short id and author of its first line, and
/// the numbers of its first and last lines.
pub open spec fn group_of_run(run: Seq<BlamedLine>) -> (Seq<char>, Seq<char>, Seq<char>) {
    (short_id(run[0].0), run[0].1, range_text(run[0].2, run.last().2))
}

/// The groups shown for a sequence of blamed lines.
pub open spec fn blame_groups(ls: Seq<BlamedLine>) -> Seq<(Seq<char>, Seq<char>, Seq<char>)> {
    blame_runs(ls).map_values(|run: Seq<BlamedLine>| group_of_run(run))
}

proof fn lemma_runs_skip(ls: Seq<BlamedLine>, i: int, n: int)
    requires
        0 <= i < ls.len(),
        n == run_end(ls.skip(i), 1),
    ensures
        blame_groups(ls.skip(i)) == seq![group_of_run(ls.skip(i).take(n))] + blame_groups(
            ls.skip(i + n),
        ),
        1 <= n <= ls.len() - i,
{
    let t = ls.skip(i);
    lemma_run_end(t, 1);
    assert(t.skip(n) =~= ls.skip(i + n));
    assert(blame_runs(t) == seq![t.take(n)] + blame_runs(t.skip(n)));
    assert(blame_groups(t) =~= seq![group_of_run(t.take(n))] + blame_groups(ls.skip(i + n)));
}

/// Appends `first` or `first-last` to `s`.
fn push_range(s: &mut String, first: u32, last: u32)
    ensures
        final(s)@ == old(s)@ + range_text(first, last),
{
    push_decimal(s, first);
    if first != last {
        s.append("-");
        push_decimal(s, last);
    }
    assert(s@ =~= old(s)@ + range_text(first, last)) by {
        if first != last {
            assert("-"@ =~= seq!['-']) by {
                reveal_strlit("-");
            }
        }
    }
}

/// Groups consecutive lines that come from the same commit; each group
/// shows the short id and author of its first line and the numbers of its
/// first and last lines.
pub fn group_blame(lines: &Vec<BlameLine>) -> (groups: Vec<BlameGroup>)
    requires
        forall|i: int| 0 <= i < lines@.len() ==> vstd::utf8::is_ascii_chars(#[trigger] lines@[i].sha@),
    ensures
        group_views(groups@) == blame_groups(line_views(lines@)),
{
    let ghost lv = line_views(lines@);
    let n = lines.len();
    let mut groups: Vec<BlameGroup> = Vec::new();
    let mut i: usize = 0;
    assert(lv.skip(0) =~= lv);
    while i < n
        invariant
            i <= n == lines@.len(),
            lv == line_views(lines@),
            group_views(groups@) + blame_groups(lv.skip(i as int)) == blame_groups(lv),
        decreases n - i,
    {
        let ghost t = lv.skip(i as int);
        let mut j = i + 1;
        while j < n && lines[j].sha == lines[i].sha
            invariant
                i < j <= n == lines@.len(),
                lv == line_views(lines@),
                t == lv.skip(i as int),
                run_end(t, 1) == run_end(t, (j - i) as int),
            decreases n - j,
        {
            j = j + 1;
        }
        proof {
            lemma_runs_skip(lv, i as int, (j - i) as int);
        }
        let ghost run = t.take((j - i) as int);
        let sha_chars = chars_of(lines[i].sha.as_str());
        let m = if sha_chars.len() < 8 { sha_chars.len() } else { 8 };
        let commit = string_of(&sha_chars, 0, m);
        let mut range = String::new();
        push_range(&mut range, lines[i].line_no, lines[j - 1].line_no);
        assert(range@ =~= range_text(run[0].2, run.last().2));
        assert(commit@ =~= short_id(run[0].0));
        let ghost before = groups@;
        groups.push(BlameGroup { commit, author: lines[i].author.clone(), lines: range });
        assert(group_views(groups@) =~= group_views(before).push(group_of_run(run)));
        i = j;
        assert(group_views(groups@) + blame_groups(lv.skip(i as int)) =~= blame_groups(lv));
    }
    assert(lv.skip(n as int) =~= Seq::<BlamedLine>::empty());
    assert(blame_groups(lv.skip(n as int)) =~= Seq::empty());
    assert(group_views(groups@) =~= blame_groups(lv));
    groups
}

/// The blame of a file from `git blame --line-porcelain` output: its
/// lines grouped by commit, and the number of its lines.
pub fn blame_report(text: &str) -> (r: BlameReport)
    ensures
        group_views(r.groups@) == blame_groups(blamed_lines(text@)),
        r.total_lines == blamed_lines(text@).len(),
{
    let lines = parse_blame(text);
    let groups = group_blame(&lines);
    BlameReport { groups, total_lines: lines.len() }
}

// ---------------------------------------------------------------------------
// Laws
// ---------------------------------------------------------------------------

/// The groups of a blame are the maximal runs of consecutive lines from one
/// commit: put back together they give every line once and in order, no
/// run is empty, every line of a run has the run's commit, and neighbouring
/// runs come from different commits.
pub proof fn law_blame_runs_are_maximal(ls: Seq<BlamedLine>)
    ensures
        blame_runs(ls).flatten() == ls,
        forall|k: int| 0 <= k < blame_runs(ls).len() ==> #[trigger] blame_runs(ls)[k].len() > 0,
        forall|k: int, j: int|
            0 <= k < blame_runs(ls).len() && 0 <= j < blame_runs(ls)[k].len() ==> #[trigger] blame_runs(ls)[k][j].0
                == blame_runs(ls)[k][0].0,
        forall|k: int|
            0 <= k < blame_runs(ls).len() - 1 ==> #[trigger] blame_runs(ls)[k][0].0 != blame_runs(
                ls,
            )[k + 1][0].0,
    decreases ls.len(),
{
    if ls.len() > 0 {
        let n = run_end(ls, 1);
        lemma_run_end(ls, 1);
        let rest = ls.skip(n);
        law_blame_runs_are_maximal(rest);
        let runs = blame_runs(ls);
        assert(runs == seq![ls.take(n)] + blame_runs(rest));
        assert(runs.drop_first() =~= blame_runs(rest));
        assert(runs.first() == ls.take(n));
        assert(runs.flatten() == ls.take(n) + blame_runs(rest).flatten());
        assert(ls.take(n) + rest =~= ls);
        assert forall|k: int| 0 <= k < runs.len() implies #[trigger] runs[k].len() > 0 by {
            if k > 0 {
                assert(runs[k] == blame_runs(rest)[k - 1]);
            }
        }
        assert forall|k: int, j: int|
            0 <= k < runs.len() && 0 <= j < runs[k].len() implies #[trigger] runs[k][j].0
                == runs[k][0].0 by {
            if k > 0 {
                assert(runs[k] == blame_runs(rest)[k - 1]);
            } else {
                if j > 0 {
                    assert(runs[0][j] == ls[j]);
                }
            }
        }
        assert forall|k: int| 0 <= k < runs.len() - 1 implies #[trigger] runs[k][0].0 != runs[k
            + 1][0].0 by {
            if k > 0 {
                assert(runs[k] == blame_runs(rest)[k - 1]);
                assert(runs[k + 1] == blame_runs(rest)[k]);
            } else {
                assert(runs[1] == blame_runs(rest)[0]);
                assert(rest.len() > 0);
                let m = run_end(rest, 1);
                lemma_run_end(rest, 1);
                assert(blame_runs(rest) == seq![rest.take(m)] + blame_runs(rest.skip(m)));
                assert(blame_runs(rest)[0] == rest.take(m));
                assert(runs[1][0] == ls[n]);
            }
        }
    }
}

/// Every content line of the blamed file is counted once: the number of
/// blamed lines is the number of tab-led lines of the output.
pub proof fn law_blame_counts_content_lines(lines: Seq<Seq<char>>)
    ensures
        blame_scan(lines).0.len() == lines.filter(|l: Seq<char>| l.len() > 0 && l[0] == '\t').len(),
    decreases lines.len(),
{
    reveal(Seq::filter);
    if lines.len() > 0 {
        law_blame_counts_content_lines(lines.drop_last());
    }
}


/// Every group shows a commit id of at most eight characters.
pub proof fn law_blame_short_ids(ls: Seq<BlamedLine>)
    ensures
        forall|k: int| 0 <= k < blame_groups(ls).len() ==> (#[trigger] blame_groups(ls)[k]).0.len() <= 8,
{
    assert forall|k: int| 0 <= k < blame_groups(ls).len() implies (#[trigger] blame_groups(ls)[k]).0.len() <= 8 by {
        assert(blame_groups(ls)[k] == group_of_run(blame_runs(ls)[k]));
    }
}

/// The second field of a header line: the line's number in the final
/// file, as text, when the header has one.
pub open spec fn header_second_field(line: Seq<char>) -> Option<Seq<char>> {
    let rest = line.skip(41);
    let k = space_from(rest, 0);
    if k < rest.len() {
        let after = rest.skip(k + 1);
        Some(after.take(space_from(after, 0)))
    } else {
        None
    }
}

/// A header whose line-number field is not a 32-bit decimal number gives
/// line number 0; a header without that field keeps the previous number.
pub proof fn law_blame_header_line_number(st: BlameScan, line: Seq<char>)
    requires
        is_header(line),
    ensures
        header_second_field(line) matches Some(f) && parse_u32_text(f) is None ==> blame_step(
            st,
            line,
        ).3 == 0,
        header_second_field(line) is None ==> blame_step(st, line).3 == st.3,
{
}

/// Whether a line of blame output sets neither the commit nor the author.
pub open spec fn sets_nothing(line: Seq<char>) -> bool {
    !is_header(line) && !(starts_with_text(line, author_prefix()) && !(line.len() > 0 && line[0]
        == '\t'))
}

/// Content lines read before any header or author line are blamed on no
/// commit and no author, at line number 0.
pub proof fn law_blame_lines_before_any_header(lines: Seq<Seq<char>>)
    requires
        forall|i: int| 0 <= i < lines.len() ==> sets_nothing(#[trigger] lines[i]),
    ensures
        blame_scan(lines).1 == Seq::<char>::empty(),
        blame_scan(lines).2 == Seq::<char>::empty(),
        blame_scan(lines).3 == 0,
        forall|i: int|
            0 <= i < blame_scan(lines).0.len() ==> #[trigger] blame_scan(lines).0[i] == (
                Seq::<char>::empty(),
                Seq::<char>::empty(),
                0u32,
            ),
    decreases lines.len(),
{
    if lines.len() > 0 {
        let prev = lines.drop_last();
        assert forall|i: int| 0 <= i < prev.len() implies sets_nothing(#[trigger] prev[i]) by {
            assert(prev[i] == lines[i]);
        }
        law_blame_lines_before_any_header(prev);
        assert(sets_nothing(lines[lines.len() - 1]));
    }
}


/// Each group shows the run of lines it stands for: as its commit, the first
/// eight characters of the full commit id of those lines (the whole id when
/// it is shorter), so that the commit is a prefix of that id; the author of
/// the run's first line; and its line numbers, `n` for a run of one line
/// number and `first-last` otherwise.
pub proof fn law_blame_groups_show_runs(ls: Seq<BlamedLine>)
    ensures
        blame_groups(ls).len() == blame_runs(ls).len(),
        forall|k: int|
            #![trigger blame_groups(ls)[k]]
            0 <= k < blame_groups(ls).len() ==> {
                let g = blame_groups(ls)[k];
                let run = blame_runs(ls)[k];
                let id = run[0].0;
                &&& g.0.len() == (if id.len() < 8 { id.len() } else { 8 })
                &&& g.0 == id.take(g.0.len() as int)
                &&& g.1 == run[0].1
                &&& g.2 == (if run[0].2 == run[run.len() - 1].2 {
                    decimal(run[0].2 as nat)
                } else {
                    decimal(run[0].2 as nat) + seq!['-'] + decimal(run[run.len() - 1].2 as nat)
                })
            },
{
    law_blame_runs_are_maximal(ls);
    assert forall|k: int| 0 <= k < blame_groups(ls).len() implies #[trigger] blame_groups(ls)[k]
        == group_of_run(blame_runs(ls)[k]) by {}
}


/// An entry of blame output is recorded as written: after a header line, an
/// `author ` line and a tab-led content line, the content line is blamed on
/// the first forty characters of the header (the commit id), on the text
/// after `author `, and on the header's line number.
pub proof fn law_blame_entry_recorded(st: BlameScan, h: Seq<char>, a: Seq<char>, c: Seq<char>)
    requires
        is_header(h),
    ensures
        ({
            let after_header = blame_step(st, h);
            let after_author = blame_step(after_header, seq!['a', 'u', 't', 'h', 'o', 'r', ' '] + a);
            let after_content = blame_step(after_author, seq!['\t'] + c);
            after_content.0 == st.0.push((h.subrange(0, 40), a, after_header.3))
        }),
{
    let al = seq!['a', 'u', 't', 'h', 'o', 'r', ' '] + a;
    assert(al[1] == 'u');
    assert(!is_hex(al[1]));
    assert(!is_header(al));
    assert(al.subrange(0, 7) =~= author_prefix());
    assert(al.skip(7) =~= a);
    let cl = seq!['\t'] + c;
    assert(cl[0] == '\t');
    assert(h.take(40) =~= h.subrange(0, 40));
}

proof fn lemma_space_at(s: Seq<char>, i: int, k: int)
    requires
        0 <= i <= k <= s.len(),
        forall|j: int| i <= j < k ==> #[trigger] s[j] != ' ',
        k == s.len() || s[k] == ' ',
    ensures
        space_from(s, i) == k,
    decreases k - i,
{
    if i < k {
        lemma_space_at(s, i + 1, k);
    }
}

/// A header `id orig final ...` gives as line number its `final` field:
/// when the field after the original line number is the decimal text of
/// `n`, followed by a space or by nothing, the line number is `n`.
pub proof fn law_blame_header_gives_final_line(
    id: Seq<char>,
    orig: Seq<char>,
    n: u32,
    tail: Seq<char>,
    prev: u32,
)
    requires
        id.len() == 40,
        forall|i: int| 0 <= i < 40 ==> is_hex(#[trigger] id[i]),
        forall|i: int| 0 <= i < orig.len() ==> #[trigger] orig[i] != ' ',
        tail.len() == 0 || tail[0] == ' ',
    ensures
        is_header(id + seq![' '] + orig + seq![' '] + decimal(n as nat) + tail),
        header_line_no(id + seq![' '] + orig + seq![' '] + decimal(n as nat) + tail, prev) == n,
{
    let d = decimal(n as nat);
    law_decimal_reads_back(n);
    let h = id + seq![' '] + orig + seq![' '] + d + tail;
    assert forall|i: int| 0 <= i < 40 implies is_hex(#[trigger] h[i]) by {
        assert(h[i] == id[i]);
    }
    assert(h[40] == ' ');
    let rest = h.skip(41);
    assert(rest =~= orig + seq![' '] + d + tail);
    assert forall|j: int| 0 <= j < orig.len() implies #[trigger] rest[j] != ' ' by {
        assert(rest[j] == orig[j]);
    }
    assert(rest[orig.len() as int] == ' ');
    lemma_space_at(rest, 0, orig.len() as int);
    let after = rest.skip(orig.len() as int + 1);
    assert(after =~= d + tail);
    assert forall|j: int| 0 <= j < d.len() implies #[trigger] after[j] != ' ' by {
        assert(after[j] == d[j]);
        assert('0' <= d[j] <= '9');
    }
    if tail.len() > 0 {
        assert(after[d.len() as int] == tail[0]);
    }
    lemma_space_at(after, 0, d.len() as int);
    assert(after.take(d.len() as int) =~= d);
}

} // verus!
