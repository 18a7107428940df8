//! A snapshot of a file tree: an immutable mapping from normalized path to
//! full text content, with a deterministic iteration order.

use vstd::prelude::*;

verus! {

/// A mapping from normalized path (a slash-separated string beginning with
/// `/`) to the full text content of that file. Paths are unique; entries keep
/// the order in which they were first inserted, which makes every walk over a
/// snapshot deterministic.
pub struct Snapshot {
    entries: Vec<(String, String)>,
}

/// The map described by a sequence of path/content entries. A later entry
/// with the same path overrides an earlier one.
pub open spec fn entries_map(s: Seq<(String, String)>) -> Map<Seq<char>, Seq<char>>
    decreases s.len(),
{
    if s.len() == 0 {
        Map::empty()
    } else {
        entries_map(s.drop_last()).insert(s.last().0@, s.last().1@)
    }
}

impl View for Snapshot {
    type V = Map<Seq<char>, Seq<char>>;

    closed spec fn view(&self) -> Map<Seq<char>, Seq<char>> {
        entries_map(self.entries@)
    }
}

impl Snapshot {
    /// The paths of this snapshot, in iteration order.
    pub closed spec fn paths(&self) -> Seq<Seq<char>> {
        self.entries@.map_values(|e: (String, String)| e.0@)
    }

    /// Well-formedness: no path occurs twice.
    pub closed spec fn wf(&self) -> bool {
        forall|i: int, j: int|
            0 <= i < j < self.entries@.len() ==> self.entries@[i].0@ != self.entries@[j].0@
    }

    /// A well-formed snapshot's path sequence has no repeats, its length is
    /// the size of the map's domain, and membership in it coincides with
    /// membership in the map's domain.
    pub proof fn lemma_paths(&self)
        requires
            self.wf(),
        ensures
            forall|i: int, j: int|
                0 <= i < j < self.paths().len() ==> self.paths()[i] != self.paths()[j],
            forall|i: int|
                0 <= i < self.paths().len() ==> self@.contains_key(#[trigger] self.paths()[i]),
            forall|k: Seq<char>|
                self@.contains_key(k) ==> exists|i: int|
                    0 <= i < self.paths().len() && self.paths()[i] == k,
    {
        assert forall|i: int|
            0 <= i < self.paths().len() implies self@.contains_key(
            #[trigger] self.paths()[i],
        ) by {
            lemma_entries_map_contains(self.entries@, self.paths()[i]);
        }
        assert forall|k: Seq<char>| self@.contains_key(k) implies exists|i: int|
            0 <= i < self.paths().len() && self.paths()[i] == k by {
            lemma_entries_map_contains(self.entries@, k);
            let i = choose|i: int| 0 <= i < self.entries@.len() && self.entries@[i].0@ == k;
            assert(self.paths()[i] == k);
        }
    }

    /// The empty snapshot.
    pub fn new() -> (s: Snapshot)
        ensures
            s.wf(),
            s@ == Map::<Seq<char>, Seq<char>>::empty(),
            s.paths() == Seq::<Seq<char>>::empty(),
    {
        let s = Snapshot { entries: Vec::new() };
        proof {
            assert(s.paths() =~= Seq::<Seq<char>>::empty());
        }
        s
    }

    /// How many paths the snapshot holds.
    pub fn len(&self) -> (n: usize)
        ensures
            n == self.paths().len(),
    {
        self.entries.len()
    }

    /// The path and content of the entry at position `i` of the iteration
    /// order.
    pub fn entry_at(&self, i: usize) -> (r: (&String, &String))
        requires
            self.wf(),
            i < self.paths().len(),
        ensures
            r.0@ == self.paths()[i as int],
            self@.contains_key(r.0@),
            r.1@ == self@[r.0@],
    {
        proof {
            lemma_entries_map_index(self.entries@, i as int);
        }
        let e = &self.entries[i];
        (&e.0, &e.1)
    }

    /// Looks a path up, returning its content when the path is present.
    pub fn get(&self, path: &String) -> (r: Option<&String>)
        requires
            self.wf(),
        ensures
            match r {
                Some(c) => self@.contains_key(path@) && c@ == self@[path@],
                None => !self@.contains_key(path@),
            },
    {
        let n = self.entries.len();
        let mut i: usize = 0;
        while i < n
            invariant
                self.wf(),
                n == self.entries@.len(),
                i <= n,
                forall|k: int| 0 <= k < i ==> self.entries@[k].0@ != path@,
            decreases n - i,
        {
            let e = &self.entries[i];
            if e.0 == *path {
                proof {
                    lemma_entries_map_index(self.entries@, i as int);
                }
                return Some(&e.1);
            }
            i += 1;
        }
        proof {
            lemma_entries_map_contains(self.entries@, path@);
        }
        None
    }

    /// Inserts a path with its content. An existing entry for the same path
    /// is replaced in place; a new path is appended to the iteration order.
    pub fn insert(&mut self, path: String, content: String)
        requires
            old(self).wf(),
        ensures
            final(self).wf(),
            final(self)@ == old(self)@.insert(path@, content@),
            final(self).paths() == if old(self)@.contains_key(path@) {
                old(self).paths()
            } else {
                old(self).paths().push(path@)
            },
    {
        let ghost old_entries = self.entries@;
        let n = self.entries.len();
        let mut i: usize = 0;
        while i < n
            invariant
                self.entries@ == old_entries,
                old_entries == old(self).entries@,
                old(self).wf(),
                n == self.entries@.len(),
                i <= n,
                forall|k: int| 0 <= k < i ==> self.entries@[k].0@ != path@,
            decreases n - i,
        {
            if self.entries[i].0 == path {
                proof {
                    lemma_entries_map_update(old_entries, i as int, (path, content));
                    lemma_entries_map_contains(old_entries, path@);
                }
                self.entries.set(i, (path, content));
                proof {
                    assert forall|p: int, q: int|
                        0 <= p < q < self.entries@.len() implies self.entries@[p].0@
                        != self.entries@[q].0@ by {
                        assert(old_entries[p].0@ != old_entries[q].0@);
                        assert(self.entries@[p].0@ == old_entries[p].0@);
                        assert(self.entries@[q].0@ == old_entries[q].0@);
                    }
                    assert(self.paths() =~= old(self).paths());
                }
                return ;
            }
            i += 1;
        }
        proof {
            lemma_entries_map_contains(old_entries, path@);
        }
        self.entries.push((path, content));
        proof {
            assert(self.entries@.drop_last() =~= old_entries);
            assert(self.paths() =~= old(self).paths().push(path@));
        }
    }
}

/// The key set of `entries_map` is exactly the set of paths among the
/// entries.
pub proof fn lemma_entries_map_contains(s: Seq<(String, String)>, k: Seq<char>)
    ensures
        entries_map(s).contains_key(k) <==> exists|i: int| 0 <= i < s.len() && s[i].0@ == k,
    decreases s.len(),
{
    if s.len() > 0 {
        lemma_entries_map_contains(s.drop_last(), k);
        if s.last().0@ == k {
            assert(s[s.len() - 1].0@ == k);
        } else if entries_map(s).contains_key(k) {
            let i = choose|i: int| 0 <= i < s.drop_last().len() && s.drop_last()[i].0@ == k;
            assert(s[i].0@ == k);
        } else if exists|i: int| 0 <= i < s.len() && s[i].0@ == k {
            let i = choose|i: int| 0 <= i < s.len() && s[i].0@ == k;
            assert(s.drop_last()[i].0@ == k);
        }
    }
}

/// With unique paths, the map sends each entry's path to that entry's
/// content.
pub proof fn lemma_entries_map_index(s: Seq<(String, String)>, i: int)
    requires
        0 <= i < s.len(),
        forall|p: int, q: int| 0 <= p < q < s.len() ==> s[p].0@ != s[q].0@,
    ensures
        entries_map(s).contains_key(s[i].0@),
        entries_map(s)[s[i].0@] == s[i].1@,
    decreases s.len(),
{
    lemma_entries_map_contains(s, s[i].0@);
    if i < s.len() - 1 {
        assert(s[i].0@ != s.last().0@);
        assert(s.drop_last()[i] == s[i]);
        lemma_entries_map_index(s.drop_last(), i);
    }
}

/// Replacing the entry at `i` by one with the same path replaces the path's
/// content in the map.
proof fn lemma_entries_map_update(s: Seq<(String, String)>, i: int, e: (String, String))
    requires
        0 <= i < s.len(),
        s[i].0@ == e.0@,
        forall|p: int, q: int| 0 <= p < q < s.len() ==> s[p].0@ != s[q].0@,
    ensures
        entries_map(s.update(i, e)) == entries_map(s).insert(e.0@, e.1@),
    decreases s.len(),
{
    let t = s.update(i, e);
    if i == s.len() - 1 {
        assert(t.drop_last() =~= s.drop_last());
        assert(t.last() == e);
        assert(entries_map(t) =~= entries_map(s).insert(e.0@, e.1@));
    } else {
        assert(t.drop_last() =~= s.drop_last().update(i, e));
        assert(t.last() == s.last());
        assert(forall|p: int, q: int|
            0 <= p < q < s.drop_last().len() ==> s.drop_last()[p].0@ != s.drop_last()[q].0@);
        assert(s.drop_last()[i] == s[i]);
        lemma_entries_map_update(s.drop_last(), i, e);
        assert(s[i].0@ != s.last().0@);
        assert(entries_map(t) =~= entries_map(s).insert(e.0@, e.1@));
    }
}

} // verus!
