use vstd::prelude::*;

verus! {

/// The map a sequence of key/value entries represents. Later entries would
/// win, though the store keeps its keys unique.
pub open spec fn entries_map(s: Seq<(u64, usize)>) -> Map<u64, usize>
    decreases s.len(),
{
    if s.len() == 0 {
        Map::empty()
    } else {
        entries_map(s.drop_last()).insert(s.last().0, s.last().1)
    }
}

/// No key occurs twice.
pub open spec fn unique_keys(s: Seq<(u64, usize)>) -> bool {
    forall|i: int, j: int| 0 <= i < j < s.len() ==> (#[trigger] s[i]).0 != (#[trigger] s[j]).0
}

/// The row index a store holds for a screen, with the default of 0 for a
/// screen it has never seen.
pub open spec fn stored_index(sel: Map<u64, usize>, id: u64) -> usize {
    if sel.contains_key(id) {
        sel[id]
    } else {
        0
    }
}

proof fn lemma_entries_map_contains(s: Seq<(u64, usize)>, k: u64)
    ensures
        entries_map(s).contains_key(k) <==> exists|i: int|
            0 <= i < s.len() && (#[trigger] s[i]).0 == k,
    decreases s.len(),
{
    if s.len() > 0 {
        lemma_entries_map_contains(s.drop_last(), k);
        if s.last().0 == k {
            assert(s[s.len() - 1].0 == k);
        } else {
            if entries_map(s).contains_key(k) {
                assert(exists|i: int| 0 <= i < s.drop_last().len() && (#[trigger] s.drop_last()[i]).0 == k);
                let i = choose|i: int| 0 <= i < s.drop_last().len() && (#[trigger] s.drop_last()[i]).0 == k;
                assert(s[i].0 == k);
            }
            if exists|i: int| 0 <= i < s.len() && (#[trigger] s[i]).0 == k {
                let i = choose|i: int| 0 <= i < s.len() && (#[trigger] s[i]).0 == k;
                assert(i < s.len() - 1);
                assert(s.drop_last()[i].0 == k);
            }
        }
    }
}

proof fn lemma_entries_map_at(s: Seq<(u64, usize)>, i: int)
    requires
        0 <= i < s.len(),
        forall|j: int| i < j < s.len() ==> (#[trigger] s[j]).0 != s[i].0,
    ensures
        entries_map(s).contains_key(s[i].0),
        entries_map(s)[s[i].0] == s[i].1,
    decreases s.len(),
{
    if i < s.len() - 1 {
        lemma_entries_map_at(s.drop_last(), i);
        assert(s.drop_last()[i] == s[i]);
        assert(s.last().0 != s[i].0);
    }
}

proof fn lemma_entries_map_update(s: Seq<(u64, usize)>, i: int, v: usize)
    requires
        0 <= i < s.len(),
        unique_keys(s),
    ensures
        entries_map(s.update(i, (s[i].0, v))) == entries_map(s).insert(s[i].0, v),
    decreases s.len(),
{
    let t = s.update(i, (s[i].0, v));
    if i == s.len() - 1 {
        assert(t.drop_last() =~= s.drop_last());
        assert(entries_map(t) =~= entries_map(s).insert(s[i].0, v));
    } else {
        lemma_entries_map_update(s.drop_last(), i, v);
        assert(t.drop_last() =~= s.drop_last().update(i, (s[i].0, v)));
        assert(t.last() == s.last());
        assert(s.last().0 != s[i].0);
        assert(entries_map(t) =~= entries_map(s).insert(s[i].0, v));
    }
}

/// Persistent per-screen selection memory: which row is highlighted on each
/// menu screen, keyed by the screen's identifier. Entries live on whether or
/// not the screen is visible; writing overwrites any prior value for the
/// same screen; a screen never written reads as row 0.
pub struct SelectionStore {
    entries: Vec<(u64, usize)>,
}

impl View for SelectionStore {
    type V = Map<u64, usize>;

    closed spec fn view(&self) -> Map<u64, usize> {
        entries_map(self.entries@)
    }
}

impl SelectionStore {
    pub closed spec fn wf(self) -> bool {
        unique_keys(self.entries@)
    }

    /// An empty store: every screen reads as row 0.
    pub fn new() -> (r: SelectionStore)
        ensures
            r.wf(),
            r@ == Map::<u64, usize>::empty(),
    {
        SelectionStore { entries: Vec::new() }
    }

    /// The selected row of the screen `id`, defaulting to 0 for a screen the
    /// store has never seen.
    pub fn get(&self, id: u64) -> (r: usize)
        requires
            self.wf(),
        ensures
            r == stored_index(self@, id),
    {
        proof {
            lemma_entries_map_contains(self.entries@, id);
        }
        let n: usize = self.entries.len();
        let mut i: usize = 0;
        while i < n
            invariant
                n == self.entries@.len(),
                i <= n,
                self.wf(),
                forall|j: int| 0 <= j < i ==> (#[trigger] self.entries@[j]).0 != id,
            decreases n - i,
        {
            if self.entries[i].0 == id {
                proof {
                    lemma_entries_map_at(self.entries@, i as int);
                }
                return self.entries[i].1;
            }
            i = i + 1;
        }
        0
    }

    /// Records `index` as the selected row of the screen `id`, overwriting
    /// any prior value for that screen.
    pub fn set(&mut self, id: u64, index: usize)
        requires
            old(self).wf(),
        ensures
            final(self).wf(),
            final(self)@ == old(self)@.insert(id, index),
    {
        let n: usize = self.entries.len();
        let mut i: usize = 0;
        while i < n
            invariant
                n == self.entries@.len(),
                i <= n,
                self.wf(),
                self.entries@ == old(self).entries@,
                forall|j: int| 0 <= j < i ==> (#[trigger] self.entries@[j]).0 != id,
            decreases n - i,
        {
            if self.entries[i].0 == id {
                proof {
                    lemma_entries_map_update(self.entries@, i as int, index);
                }
                let e = self.entries.remove(i);
                self.entries.insert(i, (e.0, index));
                proof {
                    assert(self.entries@ =~= old(self).entries@.update(
                        i as int,
                        (old(self).entries@[i as int].0, index),
                    ));
                }
                return;
            }
            i = i + 1;
        }
        self.entries.push((id, index));
        proof {
            lemma_entries_map_contains(old(self).entries@, id);
            assert(self.entries@.drop_last() =~= old(self).entries@);
        }
    }
}

} // verus!
