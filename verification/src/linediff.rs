//! Line-level diffs for changed files: the alignment comes from the
//! `similar` crate; classification, blank-line handling and counting are
//! verified here.

use vstd::prelude::*;

use crate::seqext::lemma_take_push;

verus! {

/// One aligned line of a line-level diff: inserted on the "after" side,
/// deleted from the "before" side, or equal in both.
pub enum LineChange {
    Insert(String),
    Delete(String),
    Equal(String),
}

/// The mathematical value of a [`LineChange`].
pub enum LineOp {
    Insert(Seq<char>),
    Delete(Seq<char>),
    Equal(Seq<char>),
}

impl View for LineChange {
    type V = LineOp;

    open spec fn view(&self) -> LineOp {
        match self {
            LineChange::Insert(t) => LineOp::Insert(t@),
            LineChange::Delete(t) => LineOp::Delete(t@),
            LineChange::Equal(t) => LineOp::Equal(t@),
        }
    }
}

/// The views of a sequence of line changes.
pub open spec fn line_ops(s: Seq<LineChange>) -> Seq<LineOp> {
    s.map_values(|c: LineChange| c@)
}

/// How long the first line of a text is, its terminator included: a line
/// ends after `"\r\n"`, `"\n"` or a lone `"\r"`; with no terminator the
/// whole text is one line.
pub open spec fn first_line_len(s: Seq<char>) -> int
    decreases s.len(),
{
    if s.len() == 0 {
        0
    } else if s[0] == '\n' {
        1
    } else if s[0] == '\r' {
        if s.len() >= 2 && s[1] == '\n' {
            2
        } else {
            1
        }
    } else {
        1 + first_line_len(s.skip(1))
    }
}

/// The first line of a nonempty text is nonempty and no longer than the
/// text.
pub proof fn lemma_first_line_len(s: Seq<char>)
    requires
        s.len() > 0,
    ensures
        1 <= first_line_len(s) <= s.len(),
    decreases s.len(),
{
    if s[0] != '\n' && s[0] != '\r' {
        if s.skip(1).len() > 0 {
            lemma_first_line_len(s.skip(1));
        } else {
            assert(first_line_len(s.skip(1)) == 0);
        }
    }
}

/// The lines of a text, as the diff treats them: each line keeps its
/// terminator; text after the last terminator is a final line of its own.
pub open spec fn lines_of(s: Seq<char>) -> Seq<Seq<char>>
    decreases s.len() via lines_of_decreases
{
    if s.len() == 0 {
        Seq::empty()
    } else {
        let k = first_line_len(s);
        seq![s.take(k)] + lines_of(s.skip(k))
    }
}

#[via_fn]
proof fn lines_of_decreases(s: Seq<char>) {
    if s.len() > 0 {
        lemma_first_line_len(s);
    }
}

/// The "before" side a diff covers: the lines of its equal and deleted
/// changes, in order.
pub open spec fn before_lines(ops: Seq<LineOp>) -> Seq<Seq<char>>
    decreases ops.len(),
{
    if ops.len() == 0 {
        Seq::empty()
    } else {
        before_lines(ops.drop_last()) + match ops.last() {
            LineOp::Insert(_) => Seq::<Seq<char>>::empty(),
            LineOp::Delete(t) => seq![t],
            LineOp::Equal(t) => seq![t],
        }
    }
}

/// The "after" side a diff covers: the lines of its equal and inserted
/// changes, in order.
pub open spec fn after_lines(ops: Seq<LineOp>) -> Seq<Seq<char>>
    decreases ops.len(),
{
    if ops.len() == 0 {
        Seq::empty()
    } else {
        after_lines(ops.drop_last()) + match ops.last() {
            LineOp::Insert(t) => seq![t],
            LineOp::Delete(_) => Seq::<Seq<char>>::empty(),
            LineOp::Equal(t) => seq![t],
        }
    }
}

/// The line-level alignment of two texts, as the `similar` crate computes it
/// with its default settings: a deterministic function of the two texts
/// alone. Which alignment is chosen is the algorithm's business; that it
/// covers every line of both sides, in order, is stated below.
pub uninterp spec fn line_diff_of(before: Seq<char>, after: Seq<char>) -> Seq<LineOp>;

/// Relies on `similar::TextDiff::from_lines` and
/// `TextDiff::iter_all_changes`: the line diff of the two texts, yielded in
/// order with one change per line. The changes cover both sides: the equal
/// and deleted lines are exactly the lines of `before` in order, the equal
/// and inserted lines exactly the lines of `after`. `Change::as_str` is
/// always `Some` for diffs built from `&str` input.
#[verifier::external_body]
fn diff_lines(before: &str, after: &str) -> (r: Vec<LineChange>)
    ensures
        line_ops(r@) == line_diff_of(before@, after@),
        before_lines(line_ops(r@)) == lines_of(before@),
        after_lines(line_ops(r@)) == lines_of(after@),
{
    let diff = similar::TextDiff::from_lines(before, after);
    diff.iter_all_changes().map(|c| {
        let text = c.as_str().unwrap_or("").to_owned();
        match c.tag() {
            similar::ChangeTag::Insert => LineChange::Insert(text),
            similar::ChangeTag::Delete => LineChange::Delete(text),
            similar::ChangeTag::Equal => LineChange::Equal(text),
        }
    }).collect()
}

/// An ASCII whitespace character.
pub open spec fn is_ws_char(c: char) -> bool {
    c == ' ' || c == '\t' || c == '\n' || c == '\r' || c == '\u{000C}'
}

/// A blank line: nothing but whitespace (so stripping surrounding whitespace
/// leaves it empty).
pub open spec fn is_blank(s: Seq<char>) -> bool {
    forall|i: int| 0 <= i < s.len() ==> is_ws_char(#[trigger] s[i])
}

/// Whether the line holds only whitespace.
pub fn is_blank_line(s: &str) -> (r: bool)
    ensures
        r == is_blank(s@),
{
    let n = s.unicode_len();
    let mut i: usize = 0;
    while i < n
        invariant
            n == s@.len(),
            i <= n,
            forall|k: int| 0 <= k < i ==> is_ws_char(#[trigger] s@[k]),
        decreases n - i,
    {
        let c = s.get_char(i);
        if !(c == ' ' || c == '\t' || c == '\n' || c == '\r' || c == '\u{000C}') {
            return false;
        }
        i += 1;
    }
    true
}

/// A line without its terminator: a trailing `"\r\n"`, `"\n"` or `"\r"` is
/// dropped; the terminator separates lines and is not their content.
pub open spec fn strip_term(s: Seq<char>) -> Seq<char> {
    if s.len() >= 2 && s[s.len() - 2] == '\r' && s[s.len() - 1] == '\n' {
        s.take(s.len() - 2)
    } else if s.len() >= 1 && (s[s.len() - 1] == '\n' || s[s.len() - 1] == '\r') {
        s.take(s.len() - 1)
    } else {
        s
    }
}

/// Strips the line terminator from a line, if it carries one.
pub fn strip_line_terminator(s: &str) -> (r: String)
    ensures
        r@ == strip_term(s@),
{
    let n = s.unicode_len();
    if n >= 2 {
        let c1 = s.get_char(n - 2);
        let c2 = s.get_char(n - 1);
        if c1 == '\r' && c2 == '\n' {
            return s.substring_char(0, n - 2).to_owned();
        }
        if c2 == '\n' || c2 == '\r' {
            return s.substring_char(0, n - 1).to_owned();
        }
        s.to_owned()
    } else if n == 1 {
        let c = s.get_char(0);
        if c == '\n' || c == '\r' {
            return String::new();
        }
        s.to_owned()
    } else {
        s.to_owned()
    }
}

/// The same operation on a line with the terminator stripped.
pub open spec fn strip_op(op: LineOp) -> LineOp {
    match op {
        LineOp::Insert(t) => LineOp::Insert(strip_term(t)),
        LineOp::Delete(t) => LineOp::Delete(strip_term(t)),
        LineOp::Equal(t) => LineOp::Equal(strip_term(t)),
    }
}

/// All operations of a diff with their terminators stripped.
pub open spec fn strip_ops(ops: Seq<LineOp>) -> Seq<LineOp> {
    ops.map_values(|op: LineOp| strip_op(op))
}

/// How many lines a diff inserts.
pub open spec fn count_added(ops: Seq<LineOp>) -> int
    decreases ops.len(),
{
    if ops.len() == 0 {
        0
    } else {
        count_added(ops.drop_last()) + if ops.last() is Insert {
            1int
        } else {
            0int
        }
    }
}

/// How many substantive lines a diff removes: deleted lines that are not
/// blank. Blank deleted lines are whitespace churn and do not count.
pub open spec fn count_removed(ops: Seq<LineOp>) -> int
    decreases ops.len(),
{
    if ops.len() == 0 {
        0
    } else {
        count_removed(ops.drop_last()) + if ops.last() matches LineOp::Delete(t) && !is_blank(t) {
            1int
        } else {
            0int
        }
    }
}

/// Counting law: an inserted line always raises the added count; a deleted
/// line raises the removed count exactly when it is not blank, so blank-line
/// deletions never contribute to `lines_removed` and non-blank deletions
/// always do; equal lines change neither count.
pub proof fn lemma_count_push(ops: Seq<LineOp>, x: LineOp)
    ensures
        count_added(ops.push(x)) == count_added(ops) + if x is Insert {
            1int
        } else {
            0int
        },
        count_removed(ops.push(x)) == count_removed(ops) + if x matches LineOp::Delete(t)
            && !is_blank(t) {
            1int
        } else {
            0int
        },
{
    assert(ops.push(x).drop_last() =~= ops);
    assert(ops.push(x).last() == x);
}

/// An inserted line.
pub open spec fn insert_pred() -> spec_fn(LineOp) -> bool {
    |op: LineOp| op is Insert
}

/// A deleted line that counts: not blank.
pub open spec fn counted_delete_pred() -> spec_fn(LineOp) -> bool {
    |op: LineOp| op matches LineOp::Delete(t) && !is_blank(t)
}

/// Counting law in closed form: the added count is the number of inserted
/// lines, and the removed count is the number of non-blank deleted lines —
/// blank-line deletions never contribute, non-blank deletions always do.
pub proof fn lemma_counts_are_filters(ops: Seq<LineOp>)
    ensures
        count_added(ops) == ops.filter(insert_pred()).len(),
        count_removed(ops) == ops.filter(counted_delete_pred()).len(),
    decreases ops.len(),
{
    reveal(Seq::filter);
    if ops.len() > 0 {
        lemma_counts_are_filters(ops.drop_last());
    }
}

/// One changed path, ready for the report: the path, the counted lines, and
/// the diff lines with terminators stripped.
pub struct ChangedFile {
    /// The path, present in both snapshots.
    pub path: String,
    /// How many lines the diff inserts.
    pub lines_added: usize,
    /// How many non-blank lines the diff deletes.
    pub lines_removed: usize,
    /// The aligned diff lines, in order, without terminators.
    pub lines: Vec<LineChange>,
}

/// The mathematical value of a [`ChangedFile`].
pub struct SpecChangedFile {
    pub path: Seq<char>,
    pub lines_added: int,
    pub lines_removed: int,
    pub lines: Seq<LineOp>,
}

impl View for ChangedFile {
    type V = SpecChangedFile;

    open spec fn view(&self) -> SpecChangedFile {
        SpecChangedFile {
            path: self.path@,
            lines_added: self.lines_added as int,
            lines_removed: self.lines_removed as int,
            lines: line_ops(self.lines@),
        }
    }
}

impl ChangedFile {
    /// The report data this value must carry for a changed path with the
    /// given contents.
    pub open spec fn is_report_for(&self, path: Seq<char>, before: Seq<char>, after: Seq<char>) -> bool {
        &&& self.path@ == path
        &&& self.lines_added == count_added(line_diff_of(before, after))
        &&& self.lines_removed == count_removed(line_diff_of(before, after))
        &&& line_ops(self.lines@) == strip_ops(line_diff_of(before, after))
        &&& before_lines(line_diff_of(before, after)) == lines_of(before)
        &&& after_lines(line_diff_of(before, after)) == lines_of(after)
    }
}

/// Diffs one changed path: computes the line alignment of the two contents,
/// counts inserted and substantive (non-blank) deleted lines, and strips the
/// line terminators for display.
pub fn changed_file_report(path: String, before: &String, after: &String) -> (cf: ChangedFile)
    ensures
        cf.is_report_for(path@, before@, after@),
{
    let ops = diff_lines(before.as_str(), after.as_str());
    let ghost raw = line_diff_of(before@, after@);

    let mut lines: Vec<LineChange> = Vec::new();
    let mut lines_added: usize = 0;
    let mut lines_removed: usize = 0;

    let n = ops.len();
    let mut i: usize = 0;
    while i < n
        invariant
            line_ops(ops@) == raw,
            n == ops@.len(),
            i <= n,
            lines_added == count_added(raw.take(i as int)),
            lines_removed == count_removed(raw.take(i as int)),
            lines_added <= i,
            lines_removed <= i,
            line_ops(lines@) == strip_ops(raw.take(i as int)),
        decreases n - i,
    {
        proof {
            lemma_take_push(raw, i as int);
            lemma_count_push(raw.take(i as int), raw[i as int]);
            assert(raw[i as int] == ops@[i as int]@);
        }
        let ghost lines0 = lines@;
        let op = &ops[i];
        match op {
            LineChange::Insert(t) => {
                lines.push(LineChange::Insert(strip_line_terminator(t.as_str())));
                lines_added += 1;
            },
            LineChange::Delete(t) => {
                if !is_blank_line(t.as_str()) {
                    lines_removed += 1;
                }
                lines.push(LineChange::Delete(strip_line_terminator(t.as_str())));
            },
            LineChange::Equal(t) => {
                lines.push(LineChange::Equal(strip_line_terminator(t.as_str())));
            },
        }
        proof {
            let x = lines@.last();
            assert(lines@ == lines0.push(x));
            assert(line_ops(lines@) =~= line_ops(lines0).push(x@));
            assert(x@ == strip_op(raw[i as int]));
            assert(strip_ops(raw.take(i as int + 1)) =~= strip_ops(raw.take(i as int)).push(
                strip_op(raw[i as int]),
            ));
        }
        i += 1;
    }
    proof {
        assert(raw.take(n as int) =~= raw);
    }
    ChangedFile { path, lines_added, lines_removed, lines }
}

} // verus!
