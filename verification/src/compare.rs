//! The comparator: partitions the paths of two snapshots into identical,
//! added, removed and changed, in a deterministic order.

use vstd::prelude::*;

use crate::seqext::{lemma_filter_all_false, lemma_filter_all_true, lemma_filter_membership,
    lemma_filter_push, lemma_filter_unique, lemma_map_values_push, lemma_take_push};
use crate::snapshot::Snapshot;

verus! {

/// How a single path differs between the "before" and the "after" snapshot.
/// Paths whose content is equal in both snapshots are not differences; they
/// belong to the identical set of a [`Comparison`].
pub enum Difference {
    /// The path exists only in "after".
    Added,
    /// The path exists in both, with differing content.
    Changed { before: String, after: String },
    /// The path exists only in "before".
    Removed,
}

/// The mathematical value of a [`Difference`]: the same three cases over
/// sequences of characters.
pub enum SpecDifference {
    Added,
    Changed { before: Seq<char>, after: Seq<char> },
    Removed,
}

impl View for Difference {
    type V = SpecDifference;

    open spec fn view(&self) -> SpecDifference {
        match self {
            Difference::Added => SpecDifference::Added,
            Difference::Changed { before, after } => SpecDifference::Changed {
                before: before@,
                after: after@,
            },
            Difference::Removed => SpecDifference::Removed,
        }
    }
}

/// The views of a sequence of strings.
pub open spec fn str_views(s: Seq<String>) -> Seq<Seq<char>> {
    s.map_values(|x: String| x@)
}

/// The views of a sequence of path/difference pairs.
pub open spec fn diff_views(s: Seq<(String, Difference)>) -> Seq<(Seq<char>, SpecDifference)> {
    s.map_values(|e: (String, Difference)| (e.0@, e.1@))
}

/// The outcome of comparing two snapshots: the paths with equal content in
/// both, and a difference for every other path of either snapshot.
pub struct Comparison {
    /// Paths present in both snapshots with equal content, in the order of
    /// the "before" snapshot.
    pub identical: Vec<String>,
    /// Every non-identical path of either snapshot, with its difference:
    /// first the removed and changed paths in "before" order, then the added
    /// paths in "after" order. No path occurs twice.
    pub differences: Vec<(String, Difference)>,
}

impl Comparison {
    /// The identical paths, as sequences of characters.
    pub open spec fn spec_identical(&self) -> Seq<Seq<char>> {
        str_views(self.identical@)
    }

    /// The differences, as pairs of path and difference value.
    pub open spec fn spec_differences(&self) -> Seq<(Seq<char>, SpecDifference)> {
        diff_views(self.differences@)
    }

    /// Whether `p` is in the identical set.
    pub open spec fn in_identical(&self, p: Seq<char>) -> bool {
        self.spec_identical().contains(p)
    }

    /// Whether some difference is recorded for `p`.
    pub open spec fn in_differences(&self, p: Seq<char>) -> bool {
        exists|i: int|
            0 <= i < self.spec_differences().len() && #[trigger] self.spec_differences()[i].0 == p
    }

    /// Well-formedness: no path is listed twice, and no path is both
    /// identical and different.
    pub open spec fn wf(&self) -> bool {
        &&& forall|i: int, j: int|
            0 <= i < j < self.spec_identical().len() ==> self.spec_identical()[i]
                != self.spec_identical()[j]
        &&& forall|i: int, j: int|
            0 <= i < j < self.spec_differences().len() ==> #[trigger] self.spec_differences()[i].0
                != #[trigger] self.spec_differences()[j].0
        &&& forall|p: Seq<char>| !(self.in_identical(p) && #[trigger] self.in_differences(p))
    }
}

/// A path with equal content in both maps.
pub open spec fn identical_pred(
    b: Map<Seq<char>, Seq<char>>,
    a: Map<Seq<char>, Seq<char>>,
) -> spec_fn(Seq<char>) -> bool {
    |p: Seq<char>| b.contains_key(p) && a.contains_key(p) && b[p] == a[p]
}

/// A path of "before" that is removed or changed in "after".
pub open spec fn changed_or_removed_pred(
    b: Map<Seq<char>, Seq<char>>,
    a: Map<Seq<char>, Seq<char>>,
) -> spec_fn(Seq<char>) -> bool {
    |p: Seq<char>| b.contains_key(p) && !(a.contains_key(p) && b[p] == a[p])
}

/// A path of "after" that is absent from "before".
pub open spec fn added_pred(
    b: Map<Seq<char>, Seq<char>>,
    a: Map<Seq<char>, Seq<char>>,
) -> spec_fn(Seq<char>) -> bool {
    |p: Seq<char>| a.contains_key(p) && !b.contains_key(p)
}

/// The difference recorded for a path of "before" that is not identical:
/// removed when absent from "after", changed otherwise.
pub open spec fn diff_for(
    b: Map<Seq<char>, Seq<char>>,
    a: Map<Seq<char>, Seq<char>>,
    p: Seq<char>,
) -> SpecDifference {
    if !a.contains_key(p) {
        SpecDifference::Removed
    } else {
        SpecDifference::Changed { before: b[p], after: a[p] }
    }
}

/// Pairs a non-identical path of "before" with its difference.
pub open spec fn mk_before_diff(
    b: Map<Seq<char>, Seq<char>>,
    a: Map<Seq<char>, Seq<char>>,
) -> spec_fn(Seq<char>) -> (Seq<char>, SpecDifference) {
    |p: Seq<char>| (p, diff_for(b, a, p))
}

/// Pairs an added path with the added difference.
pub open spec fn mk_added_diff() -> spec_fn(Seq<char>) -> (Seq<char>, SpecDifference) {
    |p: Seq<char>| (p, SpecDifference::Added)
}

/// The identical set of a comparison of `b` against `a`, where `bpaths` walks
/// the paths of `b` in order.
pub open spec fn identical_of(
    b: Map<Seq<char>, Seq<char>>,
    bpaths: Seq<Seq<char>>,
    a: Map<Seq<char>, Seq<char>>,
) -> Seq<Seq<char>> {
    bpaths.filter(identical_pred(b, a))
}

/// The removed and changed entries, in the order of `bpaths`.
pub open spec fn before_diffs_of(
    b: Map<Seq<char>, Seq<char>>,
    bpaths: Seq<Seq<char>>,
    a: Map<Seq<char>, Seq<char>>,
) -> Seq<(Seq<char>, SpecDifference)> {
    bpaths.filter(changed_or_removed_pred(b, a)).map_values(mk_before_diff(b, a))
}

/// The added entries, in the order of `apaths`.
pub open spec fn added_diffs_of(
    b: Map<Seq<char>, Seq<char>>,
    a: Map<Seq<char>, Seq<char>>,
    apaths: Seq<Seq<char>>,
) -> Seq<(Seq<char>, SpecDifference)> {
    apaths.filter(added_pred(b, a)).map_values(mk_added_diff())
}

/// All difference entries of a comparison of `b` against `a`.
pub open spec fn differences_of(
    b: Map<Seq<char>, Seq<char>>,
    bpaths: Seq<Seq<char>>,
    a: Map<Seq<char>, Seq<char>>,
    apaths: Seq<Seq<char>>,
) -> Seq<(Seq<char>, SpecDifference)> {
    before_diffs_of(b, bpaths, a) + added_diffs_of(b, a, apaths)
}

/// `ps` walks the keys of `m`: every key once, and nothing else.
pub open spec fn paths_model(m: Map<Seq<char>, Seq<char>>, ps: Seq<Seq<char>>) -> bool {
    &&& forall|i: int, j: int| 0 <= i < j < ps.len() ==> ps[i] != ps[j]
    &&& forall|i: int| 0 <= i < ps.len() ==> m.contains_key(#[trigger] ps[i])
    &&& forall|k: Seq<char>| m.contains_key(k) ==> ps.contains(k)
}

/// Compares two snapshots: partitions every path of either snapshot into the
/// identical set (present in both, equal content) or the differences (added,
/// removed, or changed with both contents recorded), walking "before" first
/// and then the paths only in "after". Total: comparison never fails.
pub fn compare_sites(before: Snapshot, after: Snapshot) -> (c: Comparison)
    requires
        before.wf(),
        after.wf(),
    ensures
        c.spec_identical() == identical_of(before@, before.paths(), after@),
        c.spec_differences() == differences_of(
            before@,
            before.paths(),
            after@,
            after.paths(),
        ),
{
    let ghost b = before@;
    let ghost a = after@;
    let ghost bps = before.paths();
    let ghost aps = after.paths();

    let mut identical: Vec<String> = Vec::new();
    let mut differences: Vec<(String, Difference)> = Vec::new();

    let nb = before.len();
    let mut i: usize = 0;
    while i < nb
        invariant
            before.wf(),
            after.wf(),
            b == before@,
            a == after@,
            bps == before.paths(),
            nb == bps.len(),
            i <= nb,
            str_views(identical@) == identical_of(b, bps.take(i as int), a),
            diff_views(differences@) == before_diffs_of(b, bps.take(i as int), a),
        decreases nb - i,
    {
        let (path, before_content) = before.entry_at(i);
        let ghost p = bps[i as int];
        proof {
            lemma_take_push(bps, i as int);
            lemma_filter_push(bps.take(i as int), p, identical_pred(b, a));
            lemma_filter_push(bps.take(i as int), p, changed_or_removed_pred(b, a));
            lemma_map_values_push(
                bps.take(i as int).filter(changed_or_removed_pred(b, a)),
                p,
                mk_before_diff(b, a),
            );
        }
        let ghost id0 = identical@;
        let ghost d0 = differences@;
        match after.get(path) {
            Some(after_content) => {
                if *before_content == *after_content {
                    identical.push(path.clone());
                    proof {
                        let x = identical@.last();
                        assert(identical@ == id0.push(x));
                        lemma_str_views_push(id0, x);
                        assert(x@ == p);
                    }
                } else {
                    differences.push(
                        (
                            path.clone(),
                            Difference::Changed {
                                before: before_content.clone(),
                                after: after_content.clone(),
                            },
                        ),
                    );
                    proof {
                        let x = differences@.last();
                        assert(differences@ == d0.push(x));
                        lemma_diff_views_push(d0, x);
                        assert(x.0@ == p);
                        assert(x.1@ == diff_for(b, a, p));
                    }
                }
            },
            None => {
                differences.push((path.clone(), Difference::Removed));
                proof {
                    let x = differences@.last();
                    assert(differences@ == d0.push(x));
                    lemma_diff_views_push(d0, x);
                    assert(x.0@ == p);
                    assert(x.1@ == diff_for(b, a, p));
                }
            },
        }
        i += 1;
    }
    proof {
        assert(bps.take(nb as int) =~= bps);
    }

    let na = after.len();
    let mut j: usize = 0;
    while j < na
        invariant
            before.wf(),
            after.wf(),
            b == before@,
            a == after@,
            bps == before.paths(),
            aps == after.paths(),
            na == aps.len(),
            j <= na,
            str_views(identical@) == identical_of(b, bps, a),
            diff_views(differences@) == before_diffs_of(b, bps, a) + added_diffs_of(
                b,
                a,
                aps.take(j as int),
            ),
        decreases na - j,
    {
        let (path, _) = after.entry_at(j);
        let ghost p = aps[j as int];
        proof {
            lemma_take_push(aps, j as int);
            lemma_filter_push(aps.take(j as int), p, added_pred(b, a));
            lemma_map_values_push(
                aps.take(j as int).filter(added_pred(b, a)),
                p,
                mk_added_diff(),
            );
        }
        let ghost d0 = differences@;
        match before.get(path) {
            None => {
                differences.push((path.clone(), Difference::Added));
                proof {
                    let x = differences@.last();
                    assert(differences@ == d0.push(x));
                    lemma_diff_views_push(d0, x);
                    assert(x.0@ == p);
                    assert(x.1@ == SpecDifference::Added);
                    assert(diff_views(differences@) =~= before_diffs_of(b, bps, a)
                        + added_diffs_of(b, a, aps.take(j as int)).push((p, SpecDifference::Added)));
                }
            },
            Some(_) => {},
        }
        j += 1;
    }
    proof {
        assert(aps.take(na as int) =~= aps);
    }

    Comparison { identical, differences }
}

/// String views distribute over push.
pub proof fn lemma_str_views_push(s: Seq<String>, x: String)
    ensures
        str_views(s.push(x)) == str_views(s).push(x@),
{
    assert(str_views(s.push(x)) =~= str_views(s).push(x@));
}

/// Pair views distribute over push.
proof fn lemma_diff_views_push(s: Seq<(String, Difference)>, x: (String, Difference))
    ensures
        diff_views(s.push(x)) == diff_views(s).push((x.0@, x.1@)),
{
    assert(diff_views(s.push(x)) =~= diff_views(s).push((x.0@, x.1@)));
}

/// A difference entry agrees with the two snapshots: added means present
/// only in "after", removed only in "before", changed in both with exactly
/// the two recorded, differing contents.
pub open spec fn diff_matches(
    b: Map<Seq<char>, Seq<char>>,
    a: Map<Seq<char>, Seq<char>>,
    e: (Seq<char>, SpecDifference),
) -> bool {
    match e.1 {
        SpecDifference::Added => a.contains_key(e.0) && !b.contains_key(e.0),
        SpecDifference::Removed => b.contains_key(e.0) && !a.contains_key(e.0),
        SpecDifference::Changed { before, after } => b.contains_key(e.0) && a.contains_key(e.0)
            && before == b[e.0] && after == a[e.0] && before != after,
    }
}

/// Partition law: every path of either snapshot lands in exactly one of the
/// identical set and the difference listing; no path is listed twice; each
/// difference carries the tag its two memberships dictate; and the identical
/// set holds exactly the paths with equal content in both snapshots.
pub proof fn lemma_partition(
    b: Map<Seq<char>, Seq<char>>,
    bpaths: Seq<Seq<char>>,
    a: Map<Seq<char>, Seq<char>>,
    apaths: Seq<Seq<char>>,
    c: Comparison,
)
    requires
        paths_model(b, bpaths),
        paths_model(a, apaths),
        c.spec_identical() == identical_of(b, bpaths, a),
        c.spec_differences() == differences_of(b, bpaths, a, apaths),
    ensures
        c.wf(),
        forall|p: Seq<char>| #![auto]
            (b.contains_key(p) || a.contains_key(p)) <==> (c.in_identical(p)
                || c.in_differences(p)),
        forall|p: Seq<char>| #![auto]
            c.in_identical(p) <==> (b.contains_key(p) && a.contains_key(p) && b[p] == a[p]),
        forall|k: int|
            0 <= k < c.spec_differences().len() ==> diff_matches(
                b,
                a,
                #[trigger] c.spec_differences()[k],
            ),
{
    let bf = bpaths.filter(changed_or_removed_pred(b, a));
    let af = apaths.filter(added_pred(b, a));
    let bd = before_diffs_of(b, bpaths, a);
    let ad = added_diffs_of(b, a, apaths);
    let d = c.spec_differences();
    lemma_filter_membership(bpaths, identical_pred(b, a));
    lemma_filter_membership(bpaths, changed_or_removed_pred(b, a));
    lemma_filter_membership(apaths, added_pred(b, a));
    lemma_filter_unique(bpaths, identical_pred(b, a));
    lemma_filter_unique(bpaths, changed_or_removed_pred(b, a));
    lemma_filter_unique(apaths, added_pred(b, a));

    assert(forall|k: int| 0 <= k < bd.len() ==> #[trigger] bd[k] == (bf[k], diff_for(b, a, bf[k])));
    assert(forall|k: int| 0 <= k < ad.len() ==> #[trigger] ad[k] == (af[k], SpecDifference::Added));
    assert(forall|k: int|
        0 <= k < d.len() ==> #[trigger] d[k] == if k < bd.len() {
            bd[k]
        } else {
            ad[k - bd.len()]
        });

    // Each difference entry carries the tag its memberships dictate.
    assert forall|k: int| 0 <= k < d.len() implies diff_matches(b, a, #[trigger] d[k]) by {
        if k < bd.len() {
            assert(bf.contains(bf[k]));
            assert(changed_or_removed_pred(b, a)(bf[k]));
        } else {
            assert(af.contains(af[k - bd.len()]));
            assert(added_pred(b, a)(af[k - bd.len()]));
        }
    }

    // The identical set is exactly the paths equal in both snapshots.
    assert forall|p: Seq<char>| #![auto]
        c.in_identical(p) <==> (b.contains_key(p) && a.contains_key(p) && b[p]
        == a[p]) by {
        if b.contains_key(p) && a.contains_key(p) && b[p] == a[p] {
            assert(bpaths.contains(p));
            assert(identical_pred(b, a)(p));
        }
        if c.in_identical(p) {
            assert(identical_pred(b, a)(p));
        }
    }

    // A path has a difference entry exactly when one of the two filters
    // keeps it.
    assert forall|p: Seq<char>| #![auto]
        c.in_differences(p) <==> (bf.contains(p) || af.contains(p)) by {
        if c.in_differences(p) {
            let k = choose|k: int| 0 <= k < d.len() && #[trigger] d[k].0 == p;
            if k < bd.len() {
                assert(bf.contains(bf[k]));
            } else {
                assert(af.contains(af[k - bd.len()]));
            }
        }
        if bf.contains(p) {
            let k = choose|k: int| 0 <= k < bf.len() && bf[k] == p;
            assert(d[k].0 == p);
        }
        if af.contains(p) {
            let k = choose|k: int| 0 <= k < af.len() && af[k] == p;
            assert(d[bd.len() + k].0 == p);
        }
    }

    // Coverage both ways.
    assert forall|p: Seq<char>| #![auto]
        (b.contains_key(p) || a.contains_key(p)) <==> (c.in_identical(p) || c.in_differences(
        p,
    )) by {
        if b.contains_key(p) || a.contains_key(p) {
            if b.contains_key(p) {
                assert(bpaths.contains(p));
                if a.contains_key(p) && b[p] == a[p] {
                    assert(identical_pred(b, a)(p));
                } else {
                    assert(changed_or_removed_pred(b, a)(p));
                }
            } else {
                assert(apaths.contains(p));
                assert(added_pred(b, a)(p));
            }
        }
    }

    // No repeats and no overlap.
    assert forall|i: int, j: int|
        0 <= i < j < d.len() implies #[trigger] d[i].0 != #[trigger] d[j].0 by {
        if j < bd.len() {
            assert(d[i].0 == bf[i] && d[j].0 == bf[j]);
        } else if i >= bd.len() {
            assert(d[i].0 == af[i - bd.len()] && d[j].0 == af[j - bd.len()]);
        } else {
            assert(bf.contains(bf[i]));
            assert(af.contains(af[j - bd.len()]));
            assert(changed_or_removed_pred(b, a)(bf[i]));
            assert(added_pred(b, a)(af[j - bd.len()]));
        }
    }
    assert(c.wf());
}

/// The partition law, stated against `compare_sites` itself: the comparison
/// of two well-formed snapshots covers every path of either snapshot exactly
/// once, and each difference carries the tag its memberships dictate.
pub proof fn lemma_compare_sites_partition(before: Snapshot, after: Snapshot, c: Comparison)
    requires
        before.wf(),
        after.wf(),
        c.spec_identical() == identical_of(before@, before.paths(), after@),
        c.spec_differences() == differences_of(before@, before.paths(), after@, after.paths()),
    ensures
        c.wf(),
        forall|p: Seq<char>| #![auto]
            (before@.contains_key(p) || after@.contains_key(p)) <==> (c.in_identical(p)
                || c.in_differences(p)),
        forall|p: Seq<char>| #![auto]
            c.in_identical(p) <==> (before@.contains_key(p) && after@.contains_key(p)
                && before@[p] == after@[p]),
        forall|k: int|
            0 <= k < c.spec_differences().len() ==> diff_matches(
                before@,
                after@,
                #[trigger] c.spec_differences()[k],
            ),
{
    before.lemma_paths();
    after.lemma_paths();
    lemma_partition(before@, before.paths(), after@, after.paths(), c);
}

/// The reflexivity law, stated against `compare_sites` itself: comparing a
/// snapshot against one with the same contents makes every path identical
/// and records no difference at all.
pub proof fn lemma_compare_sites_reflexive(s: Snapshot, c: Comparison)
    requires
        s.wf(),
        c.spec_identical() == identical_of(s@, s.paths(), s@),
        c.spec_differences() == differences_of(s@, s.paths(), s@, s.paths()),
    ensures
        c.spec_identical() == s.paths(),
        c.spec_differences() == Seq::<(Seq<char>, SpecDifference)>::empty(),
{
    s.lemma_paths();
    lemma_compare_reflexive(s@, s.paths(), c);
}

/// Reflexivity law: comparing a snapshot against itself makes every path
/// identical and records no difference at all.
pub proof fn lemma_compare_reflexive(m: Map<Seq<char>, Seq<char>>, ps: Seq<Seq<char>>, c: Comparison)
    requires
        paths_model(m, ps),
        c.spec_identical() == identical_of(m, ps, m),
        c.spec_differences() == differences_of(m, ps, m, ps),
    ensures
        c.spec_identical() == ps,
        c.spec_differences() == Seq::<(Seq<char>, SpecDifference)>::empty(),
{
    lemma_filter_all_true(ps, identical_pred(m, m));
    lemma_filter_all_false(ps, changed_or_removed_pred(m, m));
    lemma_filter_all_false(ps, added_pred(m, m));
    assert(c.spec_differences() =~= Seq::<(Seq<char>, SpecDifference)>::empty());
}

} // verus!
