//! Counters keyed by small numeric ids, in first-seen order.

use vstd::prelude::*;

verus! {

/// Whether some entry of `s` counts `id`.
pub open spec fn has_id(s: Seq<(usize, u64)>, id: usize) -> bool {
    exists|i: int| 0 <= i < s.len() && #[trigger] s[i].0 == id
}

/// The count of `id` in `s` (0 when absent).
pub open spec fn count_of(s: Seq<(usize, u64)>, id: usize) -> u64 {
    if has_id(s, id) {
        s[choose|i: int| 0 <= i < s.len() && #[trigger] s[i].0 == id].1
    } else {
        0
    }
}

/// The ids of `s` are pairwise distinct.
pub open spec fn distinct_ids(s: Seq<(usize, u64)>) -> bool {
    forall|i: int, j: int| 0 <= i < s.len() && 0 <= j < s.len() && i != j ==> #[trigger] s[i].0 != #[trigger] s[j].0
}

proof fn lemma_count_at(s: Seq<(usize, u64)>, i: int)
    requires
        distinct_ids(s),
        0 <= i < s.len(),
    ensures
        has_id(s, s[i].0),
        count_of(s, s[i].0) == s[i].1,
{
    assert(has_id(s, s[i].0));
    let j = choose|j: int| 0 <= j < s.len() && #[trigger] s[j].0 == s[i].0;
    assert(s[j].0 == s[i].0);
}

/// Event counts per id.
#[derive(Debug)]
pub struct IdCounts {
    entries: Vec<(usize, u64)>,
}

impl IdCounts {
    /// The (id, count) entries in first-seen order.
    pub closed spec fn entries(&self) -> Seq<(usize, u64)> {
        self.entries@
    }

    #[verifier::type_invariant]
    closed spec fn inv(&self) -> bool {
        distinct_ids(self.entries@)
    }

    /// No counts.
    pub fn new() -> (c: Self)
        ensures
            c.entries() == Seq::<(usize, u64)>::empty(),
    {
        IdCounts { entries: Vec::new() }
    }

    /// The number of ids seen.
    pub fn len(&self) -> (n: usize)
        ensures
            n == self.entries().len(),
    {
        self.entries.len()
    }

    /// The entry at position `i`.
    pub fn entry_at(&self, i: usize) -> (r: (usize, u64))
        requires
            i < self.entries().len(),
        ensures
            r == self.entries()[i as int],
            count_of(self.entries(), r.0) == r.1,
    {
        proof {
            use_type_invariant(self);
            lemma_count_at(self.entries@, i as int);
        }
        self.entries[i]
    }

    /// The count of `id` (0 when never seen).
    pub fn get(&self, id: usize) -> (r: Option<u64>)
        ensures
            r == if has_id(self.entries(), id) { Some(count_of(self.entries(), id)) } else { None::<u64> },
    {
        let mut i: usize = 0;
        while i < self.entries.len()
            invariant
                0 <= i <= self.entries.len(),
                forall|j: int| 0 <= j < i ==> #[trigger] self.entries@[j].0 != id,
            decreases self.entries.len() - i,
        {
            if self.entries[i].0 == id {
                proof {
                    use_type_invariant(self);
                    lemma_count_at(self.entries@, i as int);
                }
                return Some(self.entries[i].1);
            }
            i = i + 1;
        }
        None
    }

    /// Counts one more event for `id`: a new entry with count 1, or the
    /// existing count raised by one in place.
    pub fn increment(&mut self, id: usize)
        requires
            count_of(old(self).entries(), id) < u64::MAX,
        ensures
            has_id(old(self).entries(), id) ==> exists|i: int| 0 <= i < old(self).entries().len()
                && old(self).entries()[i].0 == id
                && final(self).entries() == old(self).entries().update(i, (id, (old(self).entries()[i].1 + 1) as u64)),
            !has_id(old(self).entries(), id) ==> final(self).entries() == old(self).entries().push((id, 1u64)),
            forall|k: usize| #[trigger] count_of(final(self).entries(), k) == if k == id {
                (count_of(old(self).entries(), id) + 1) as u64
            } else {
                count_of(old(self).entries(), k)
            },
            forall|k: usize| #[trigger] has_id(final(self).entries(), k) == (has_id(old(self).entries(), k) || k == id),
    {
        proof { use_type_invariant(&*self); }
        let ghost before = self.entries@;
        let mut i: usize = 0;
        while i < self.entries.len()
            invariant
                0 <= i <= self.entries.len(),
                self.entries@ == before,
                before == old(self).entries@,
                distinct_ids(before),
                count_of(before, id) < u64::MAX,
                forall|j: int| 0 <= j < i ==> #[trigger] self.entries@[j].0 != id,
            decreases self.entries.len() - i,
        {
            if self.entries[i].0 == id {
                proof { lemma_count_at(before, i as int); }
                let c = self.entries[i].1;
                let mut entries: Vec<(usize, u64)> = Vec::new();
                std::mem::swap(&mut entries, &mut self.entries);
                entries.set(i, (id, c + 1));
                let ghost after = entries@;
                proof {
                    assert(after == before.update(i as int, (id, (c + 1) as u64)));
                    assert(distinct_ids(after)) by {
                        assert forall|a: int, b: int| 0 <= a < after.len() && 0 <= b < after.len() && a != b implies #[trigger] after[a].0 != #[trigger] after[b].0 by {
                            assert(after[a].0 == before[a].0 && after[b].0 == before[b].0);
                        }
                    }
                    assert forall|k: usize| #[trigger] has_id(after, k) == (has_id(before, k) || k == id) by {
                        if has_id(before, k) {
                            let j = choose|j: int| 0 <= j < before.len() && #[trigger] before[j].0 == k;
                            assert(after[j].0 == k);
                        }
                        if has_id(after, k) {
                            let j = choose|j: int| 0 <= j < after.len() && #[trigger] after[j].0 == k;
                            assert(before[j].0 == k);
                        }
                        assert(after[i as int].0 == id);
                    }
                    assert forall|k: usize| #[trigger] count_of(after, k) == if k == id {
                        (count_of(before, id) + 1) as u64
                    } else {
                        count_of(before, k)
                    } by {
                        if has_id(after, k) {
                            let j = choose|j: int| 0 <= j < after.len() && #[trigger] after[j].0 == k;
                            lemma_count_at(after, j);
                            lemma_count_at(before, j);
                        }
                    }
                }
                self.entries = entries;
                assert(0 <= i < before.len() && before[i as int].0 == id && self.entries@ == before.update(i as int, (id, (before[i as int].1 + 1) as u64)));
                assert(has_id(before, id));
                assert(exists|j: int| 0 <= j < before.len() && before[j].0 == id && self.entries@ == before.update(j, (id, (before[j].1 + 1) as u64)));
                return;
            }
            i = i + 1;
        }
        let mut entries: Vec<(usize, u64)> = Vec::new();
        std::mem::swap(&mut entries, &mut self.entries);
        entries.push((id, 1));
        let ghost after = entries@;
        proof {
            assert(!has_id(before, id));
            assert(after == before.push((id, 1u64)));
            assert(distinct_ids(after)) by {
                assert forall|a: int, b: int| 0 <= a < after.len() && 0 <= b < after.len() && a != b implies #[trigger] after[a].0 != #[trigger] after[b].0 by {
                    if a < before.len() && b < before.len() {
                        assert(after[a] == before[a] && after[b] == before[b]);
                    } else if a < before.len() {
                        assert(after[a] == before[a]);
                    } else {
                        assert(after[b] == before[b]);
                    }
                }
            }
            assert forall|k: usize| #[trigger] has_id(after, k) == (has_id(before, k) || k == id) by {
                if has_id(before, k) {
                    let j = choose|j: int| 0 <= j < before.len() && #[trigger] before[j].0 == k;
                    assert(after[j].0 == k);
                }
                if has_id(after, k) && k != id {
                    let j = choose|j: int| 0 <= j < after.len() && #[trigger] after[j].0 == k;
                    assert(j < before.len());
                    assert(before[j].0 == k);
                }
                assert(after[before.len() as int].0 == id);
            }
            assert forall|k: usize| #[trigger] count_of(after, k) == if k == id {
                (count_of(before, id) + 1) as u64
            } else {
                count_of(before, k)
            } by {
                if has_id(after, k) {
                    let j = choose|j: int| 0 <= j < after.len() && #[trigger] after[j].0 == k;
                    lemma_count_at(after, j);
                    if j < before.len() {
                        assert(before[j] == after[j]);
                        lemma_count_at(before, j);
                    }
                }
            }
        }
        self.entries = entries;
    }

    /// Forgets every count.
    pub fn clear(&mut self)
        ensures
            final(self).entries() == Seq::<(usize, u64)>::empty(),
    {
        self.entries = Vec::new();
    }
}

} // verus!
