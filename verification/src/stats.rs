//! The aggregator: sorts a comparison's differences into report buckets,
//! reclassifies whitespace-only changes as identical, and derives the summary
//! statistics (line totals, similarity percentage).

use vstd::prelude::*;

use crate::compare::{lemma_str_views_push, str_views, Comparison, Difference, SpecDifference};
use crate::linediff::{
    changed_file_report, count_added, count_removed, line_diff_of, strip_ops, ChangedFile,
    SpecChangedFile,
};
use crate::seqext::{lemma_filter_membership, lemma_filter_push, lemma_filter_subset,
    lemma_map_values_push, lemma_take_push};

verus! {

/// A changed pair whose line diff has no substantive change: nothing added,
/// nothing removed but blank lines. Such a pair is whitespace churn and is
/// reported as identical.
pub open spec fn zero_diff(before: Seq<char>, after: Seq<char>) -> bool {
    count_added(line_diff_of(before, after)) == 0 && count_removed(line_diff_of(before, after))
        == 0
}

/// An entry recording an added path.
pub open spec fn added_entry_pred() -> spec_fn((Seq<char>, SpecDifference)) -> bool {
    |e: (Seq<char>, SpecDifference)| e.1 is Added
}

/// An entry recording a removed path.
pub open spec fn removed_entry_pred() -> spec_fn((Seq<char>, SpecDifference)) -> bool {
    |e: (Seq<char>, SpecDifference)| e.1 is Removed
}

/// A changed entry whose diff is substantive.
pub open spec fn substantive_pred() -> spec_fn((Seq<char>, SpecDifference)) -> bool {
    |e: (Seq<char>, SpecDifference)|
        e.1 matches SpecDifference::Changed { before, after } && !zero_diff(before, after)
}

/// A changed entry whose diff is whitespace churn only.
pub open spec fn reclassified_pred() -> spec_fn((Seq<char>, SpecDifference)) -> bool {
    |e: (Seq<char>, SpecDifference)|
        e.1 matches SpecDifference::Changed { before, after } && zero_diff(before, after)
}

/// The path of an entry.
pub open spec fn entry_path() -> spec_fn((Seq<char>, SpecDifference)) -> Seq<char> {
    |e: (Seq<char>, SpecDifference)| e.0
}

/// The report record of a substantive changed entry.
pub open spec fn mk_changed() -> spec_fn((Seq<char>, SpecDifference)) -> SpecChangedFile {
    |e: (Seq<char>, SpecDifference)|
        match e.1 {
            SpecDifference::Changed { before, after } => SpecChangedFile {
                path: e.0,
                lines_added: count_added(line_diff_of(before, after)),
                lines_removed: count_removed(line_diff_of(before, after)),
                lines: strip_ops(line_diff_of(before, after)),
            },
            _ => SpecChangedFile {
                path: e.0,
                lines_added: 0,
                lines_removed: 0,
                lines: Seq::empty(),
            },
        }
}

/// The added paths among the difference entries, in order.
pub open spec fn added_of(d: Seq<(Seq<char>, SpecDifference)>) -> Seq<Seq<char>> {
    d.filter(added_entry_pred()).map_values(entry_path())
}

/// The removed paths among the difference entries, in order.
pub open spec fn removed_of(d: Seq<(Seq<char>, SpecDifference)>) -> Seq<Seq<char>> {
    d.filter(removed_entry_pred()).map_values(entry_path())
}

/// The changed paths whose diff is whitespace churn only, in order; they are
/// moved into the identical set.
pub open spec fn reclassified_of(d: Seq<(Seq<char>, SpecDifference)>) -> Seq<Seq<char>> {
    d.filter(reclassified_pred()).map_values(entry_path())
}

/// The report records of the substantively changed paths, in order.
pub open spec fn changed_of(d: Seq<(Seq<char>, SpecDifference)>) -> Seq<SpecChangedFile> {
    d.filter(substantive_pred()).map_values(mk_changed())
}

/// The views of a sequence of changed-file records.
pub open spec fn changed_views(s: Seq<ChangedFile>) -> Seq<SpecChangedFile> {
    s.map_values(|cf: ChangedFile| cf@)
}

/// The sum of the added-line counts of the changed files.
pub open spec fn sum_added(s: Seq<SpecChangedFile>) -> int
    decreases s.len(),
{
    if s.len() == 0 {
        0
    } else {
        sum_added(s.drop_last()) + s.last().lines_added
    }
}

/// The sum of the removed-line counts of the changed files.
pub open spec fn sum_removed(s: Seq<SpecChangedFile>) -> int
    decreases s.len(),
{
    if s.len() == 0 {
        0
    } else {
        sum_removed(s.drop_last()) + s.last().lines_removed
    }
}

/// A value held to the range of `u64`: totals saturate rather than wrap.
pub open spec fn clamp_u64(x: int) -> int {
    if x <= u64::MAX {
        x
    } else {
        u64::MAX as int
    }
}

/// Sorted report input: the comparison's paths in their four buckets (after
/// reclassifying whitespace-only changes as identical) and the line totals.
pub struct ReportData {
    /// Identical paths: those of the comparison, then the reclassified ones.
    pub identical: Vec<String>,
    /// Added paths, in difference order.
    pub added: Vec<String>,
    /// Removed paths, in difference order.
    pub removed: Vec<String>,
    /// Substantively changed paths with their diffs, in difference order.
    pub changed: Vec<ChangedFile>,
    /// Lines added over all changed files, saturating at `u64::MAX`.
    pub total_lines_added: u64,
    /// Non-blank lines removed over all changed files, saturating.
    pub total_lines_removed: u64,
}

impl ReportData {
    /// What the report data of a comparison must hold.
    pub open spec fn is_report_data_for(&self, c: Comparison) -> bool {
        let d = c.spec_differences();
        &&& str_views(self.identical@) == c.spec_identical() + reclassified_of(d)
        &&& str_views(self.added@) == added_of(d)
        &&& str_views(self.removed@) == removed_of(d)
        &&& changed_views(self.changed@) == changed_of(d)
        &&& self.total_lines_added == clamp_u64(sum_added(changed_of(d)))
        &&& self.total_lines_removed == clamp_u64(sum_removed(changed_of(d)))
    }

    /// How many paths the report covers in all.
    pub open spec fn spec_total(&self) -> nat {
        self.identical@.len() + self.added@.len() + self.removed@.len() + self.changed@.len()
    }
}

/// Sorts the differences of a comparison into the report buckets: added and
/// removed paths are listed; each changed pair is line-diffed, and a pair
/// whose diff has no substantive line change is moved into the identical set
/// instead of the changed listing. Sums the line counts over the changed
/// files, saturating at `u64::MAX`.
pub fn partition_report(c: Comparison) -> (rd: ReportData)
    ensures
        rd.is_report_data_for(c),
{
    let ghost d = c.spec_differences();

    let mut identical = c.identical;
    let mut added: Vec<String> = Vec::new();
    let mut removed: Vec<String> = Vec::new();
    let mut changed: Vec<ChangedFile> = Vec::new();
    let mut total_lines_added: u64 = 0;
    let mut total_lines_removed: u64 = 0;

    let n = c.differences.len();
    let mut i: usize = 0;
    while i < n
        invariant
            d == c.spec_differences(),
            n == c.differences@.len(),
            i <= n,
            str_views(identical@) == c.spec_identical() + reclassified_of(d.take(i as int)),
            str_views(added@) == added_of(d.take(i as int)),
            str_views(removed@) == removed_of(d.take(i as int)),
            changed_views(changed@) == changed_of(d.take(i as int)),
            total_lines_added == clamp_u64(sum_added(changed_of(d.take(i as int)))),
            total_lines_removed == clamp_u64(sum_removed(changed_of(d.take(i as int)))),
        decreases n - i,
    {
        let ghost e = d[i as int];
        proof {
            lemma_take_push(d, i as int);
            lemma_filter_push(d.take(i as int), e, added_entry_pred());
            lemma_filter_push(d.take(i as int), e, removed_entry_pred());
            lemma_filter_push(d.take(i as int), e, substantive_pred());
            lemma_filter_push(d.take(i as int), e, reclassified_pred());
            lemma_map_values_push(d.take(i as int).filter(added_entry_pred()), e, entry_path());
            lemma_map_values_push(d.take(i as int).filter(removed_entry_pred()), e, entry_path());
            lemma_map_values_push(d.take(i as int).filter(reclassified_pred()), e, entry_path());
            lemma_map_values_push(d.take(i as int).filter(substantive_pred()), e, mk_changed());
            assert(e == (c.differences@[i as int].0@, c.differences@[i as int].1@));
        }
        let entry = &c.differences[i];
        match &entry.1 {
            Difference::Added => {
                let ghost a0 = added@;
                added.push(entry.0.clone());
                proof {
                    let x = added@.last();
                    assert(added@ == a0.push(x));
                    lemma_str_views_push(a0, x);
                }
            },
            Difference::Removed => {
                let ghost r0 = removed@;
                removed.push(entry.0.clone());
                proof {
                    let x = removed@.last();
                    assert(removed@ == r0.push(x));
                    lemma_str_views_push(r0, x);
                }
            },
            Difference::Changed { before, after } => {
                let cf = changed_file_report(entry.0.clone(), before, after);
                if cf.lines_added == 0 && cf.lines_removed == 0 {
                    let ghost id0 = identical@;
                    identical.push(cf.path);
                    proof {
                        let x = identical@.last();
                        assert(identical@ == id0.push(x));
                        lemma_str_views_push(id0, x);
                        assert(str_views(identical@) =~= c.spec_identical() + reclassified_of(
                            d.take(i as int + 1),
                        ));
                    }
                } else {
                    let ghost ch0 = changed@;
                    total_lines_added = total_lines_added.saturating_add(cf.lines_added as u64);
                    total_lines_removed = total_lines_removed.saturating_add(
                        cf.lines_removed as u64,
                    );
                    changed.push(cf);
                    proof {
                        let x = changed@.last();
                        assert(changed@ == ch0.push(x));
                        lemma_changed_views_push(ch0, x);
                        assert(x@ == mk_changed()(e));
                        let s0 = changed_of(d.take(i as int));
                        let s1 = changed_of(d.take(i as int + 1));
                        assert(s1 == s0.push(mk_changed()(e)));
                        lemma_sum_push(s0, mk_changed()(e));
                        assert(total_lines_added == clamp_u64(sum_added(s1)));
                        assert(total_lines_removed == clamp_u64(sum_removed(s1)));
                    }
                }
            },
        }
        i += 1;
    }
    proof {
        assert(d.take(n as int) =~= d);
    }
    ReportData { identical, added, removed, changed, total_lines_added, total_lines_removed }
}

/// Changed-file views distribute over push.
proof fn lemma_changed_views_push(s: Seq<ChangedFile>, x: ChangedFile)
    ensures
        changed_views(s.push(x)) == changed_views(s).push(x@),
{
    assert(changed_views(s.push(x)) =~= changed_views(s).push(x@));
}

/// The line sums distribute over push.
proof fn lemma_sum_push(s: Seq<SpecChangedFile>, x: SpecChangedFile)
    ensures
        sum_added(s.push(x)) == sum_added(s) + x.lines_added,
        sum_removed(s.push(x)) == sum_removed(s) + x.lines_removed,
{
    assert(s.push(x).drop_last() =~= s);
    assert(s.push(x).last() == x);
}

/// Reclassification law: a changed pair whose line diff counts no added and
/// no removed line ends in the identical listing of the report, and under no
/// changed-file record.
pub proof fn lemma_zero_diff_reclassified(c: Comparison, rd: ReportData, k: int)
    requires
        c.wf(),
        rd.is_report_data_for(c),
        0 <= k < c.spec_differences().len(),
        c.spec_differences()[k].1 matches SpecDifference::Changed { before, after }
            && zero_diff(before, after),
    ensures
        str_views(rd.identical@).contains(c.spec_differences()[k].0),
        forall|j: int|
            0 <= j < changed_views(rd.changed@).len() ==> changed_views(rd.changed@)[j].path
                != c.spec_differences()[k].0,
{
    let d = c.spec_differences();
    let e = d[k];
    let p = e.0;
    lemma_filter_membership(d, reclassified_pred());
    assert(d.contains(e));
    assert(reclassified_pred()(e));
    let f = d.filter(reclassified_pred());
    assert(f.contains(e));
    let m = choose|m: int| 0 <= m < f.len() && f[m] == e;
    assert(reclassified_of(d)[m] == p);
    assert(str_views(rd.identical@)[c.spec_identical().len() + m] == p);
    assert(str_views(rd.identical@).contains(p));

    lemma_filter_subset(d, substantive_pred());
    let g = d.filter(substantive_pred());
    assert forall|j: int|
        0 <= j < changed_views(rd.changed@).len() implies changed_views(rd.changed@)[j].path
        != p by {
        assert(changed_views(rd.changed@)[j] == mk_changed()(g[j]));
        if g[j].0 == p {
            assert(g.contains(g[j]));
            assert(d.contains(g[j]));
            let k2 = choose|k2: int| 0 <= k2 < d.len() && d[k2] == g[j];
            d.lemma_filter_pred(substantive_pred(), j);
            assert(substantive_pred()(g[j]));
            assert(k2 != k);
            assert(d[k2].0 != d[k].0);
        }
    }
}

/// The whole-report summary: line totals over the changed files and the
/// similarity percentage.
pub struct ReportSummary {
    /// Lines added over all changed files.
    pub lines_added: u64,
    /// Non-blank lines removed over all changed files.
    pub lines_removed: u64,
    /// The share of identical paths among all paths, in whole percent.
    pub percent_similar: u32,
}

/// The similarity percentage: the share of `identical` among `total` paths,
/// as a whole number of percent, rounded to the nearest integer (halves round
/// up). A comparison of two empty snapshots has no paths at all and counts as
/// fully similar, so the percentage is 100 by convention.
pub open spec fn percent_similar_spec(identical: nat, total: nat) -> nat {
    if total == 0 {
        100
    } else {
        (identical * 200 + total) / (total * 2)
    }
}

/// The percentage never exceeds 100.
pub proof fn lemma_percent_similar_le_100(identical: nat, total: nat)
    requires
        identical <= total,
    ensures
        percent_similar_spec(identical, total) <= 100,
{
    if total != 0 {
        assert((identical * 200 + total) / (total * 2) <= 100) by (nonlinear_arith)
            requires
                identical <= total,
                total > 0,
        ;
    }
}

/// Division-by-zero guard law: the percentage is defined with no paths at
/// all, and is then 100.
pub proof fn lemma_percent_similar_empty()
    ensures
        percent_similar_spec(0, 0) == 100,
{
}

/// Computes the similarity percentage from the number of identical paths and
/// the total number of paths. Total and defined even when `total` is zero.
pub fn percent_similar(identical: usize, total: usize) -> (r: u32)
    requires
        identical <= total,
    ensures
        r == percent_similar_spec(identical as nat, total as nat),
        r <= 100,
{
    proof {
        lemma_percent_similar_le_100(identical as nat, total as nat);
    }
    if total == 0 {
        100
    } else {
        let num: u128 = (identical as u128) * 200 + (total as u128);
        let den: u128 = (total as u128) * 2;
        (num / den) as u32
    }
}

/// Derives the summary from the report data: the two saturated line totals
/// and the similarity percentage over all four buckets.
pub fn summarize(rd: &ReportData) -> (s: ReportSummary)
    ensures
        s.lines_added == rd.total_lines_added,
        s.lines_removed == rd.total_lines_removed,
        s.percent_similar == percent_similar_spec(
            rd.identical@.len() as nat,
            rd.spec_total(),
        ),
        s.percent_similar <= 100,
{
    proof {
        lemma_percent_similar_le_100(rd.identical@.len() as nat, rd.spec_total());
    }
    let id: u128 = rd.identical.len() as u128;
    let total: u128 = id + (rd.added.len() as u128) + (rd.removed.len() as u128) + (rd.changed.len()
        as u128);
    let percent: u32 = if total == 0 {
        100
    } else {
        let num: u128 = id * 200 + total;
        let den: u128 = total * 2;
        (num / den) as u32
    };
    ReportSummary {
        lines_added: rd.total_lines_added,
        lines_removed: rd.total_lines_removed,
        percent_similar: percent,
    }
}

} // verus!
