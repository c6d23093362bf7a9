//! A map from names to values, kept as a list of entries with distinct names.
//!
//! The JIT's tables are keyed by variable, label and function names. This
//! list-backed map keeps its entries in the order they were first inserted;
//! its view is the finite map from each name's characters to its value.

use vstd::prelude::*;

verus! {

/// Whether some entry of `s` is named `k`.
pub open spec fn has_name<V>(s: Seq<(Seq<char>, V)>, k: Seq<char>) -> bool {
    exists|i: int| 0 <= i < s.len() && #[trigger] s[i].0 == k
}

/// The position of the entry named `k` (meaningful when there is one).
pub open spec fn name_index<V>(s: Seq<(Seq<char>, V)>, k: Seq<char>) -> int {
    choose|i: int| 0 <= i < s.len() && #[trigger] s[i].0 == k
}

/// The names of `s` are pairwise distinct.
pub open spec fn distinct_names<V>(s: Seq<(Seq<char>, V)>) -> bool {
    forall|i: int, j: int| 0 <= i < s.len() && 0 <= j < s.len() && i != j ==> #[trigger] s[i].0
        != #[trigger] s[j].0
}

/// The finite map that a list of named entries denotes.
pub open spec fn map_of<V>(s: Seq<(Seq<char>, V)>) -> Map<Seq<char>, V> {
    Map::new(|k: Seq<char>| has_name(s, k), |k: Seq<char>| s[name_index(s, k)].1)
}

/// In a list with distinct names, the entry at `i` is what the map holds for its name.
pub proof fn lemma_map_of_at<V>(s: Seq<(Seq<char>, V)>, i: int)
    requires
        distinct_names(s),
        0 <= i < s.len(),
    ensures
        map_of(s).contains_key(s[i].0),
        map_of(s)[s[i].0] == s[i].1,
        name_index(s, s[i].0) == i,
{
    assert(has_name(s, s[i].0));
    let j = name_index(s, s[i].0);
    assert(s[j].0 == s[i].0);
}

/// Appending an entry under a new name adds it to the map.
pub proof fn lemma_map_of_push<V>(s: Seq<(Seq<char>, V)>, k: Seq<char>, v: V)
    requires
        distinct_names(s),
        !has_name(s, k),
    ensures
        distinct_names(s.push((k, v))),
        map_of(s.push((k, v))) =~= map_of(s).insert(k, v),
{
    let t = s.push((k, v));
    assert forall|a: int, b: int| 0 <= a < t.len() && 0 <= b < t.len() && a != b implies #[trigger] t[a].0
        != #[trigger] t[b].0 by {
        if a < s.len() && b < s.len() {
            assert(t[a] == s[a] && t[b] == s[b]);
        } else if a < s.len() {
            assert(t[a] == s[a]);
        } else {
            assert(t[b] == s[b]);
        }
    }
    assert forall|key: Seq<char>| #[trigger] map_of(t).contains_key(key) == map_of(s).insert(k, v).contains_key(key) by {
        if has_name(s, key) {
            let i = name_index(s, key);
            assert(t[i] == s[i]);
        }
        if has_name(t, key) && key != k {
            let i = name_index(t, key);
            assert(i < s.len());
            assert(s[i] == t[i]);
        }
        if key == k {
            assert(t[s.len() as int].0 == k);
        }
    }
    assert forall|key: Seq<char>| #[trigger] map_of(t).contains_key(key) implies map_of(t)[key]
        == map_of(s).insert(k, v)[key] by {
        if key == k {
            assert(t[s.len() as int].0 == k);
            lemma_map_of_at(t, s.len() as int);
        } else {
            let i = name_index(t, key);
            assert(i < s.len());
            assert(s[i] == t[i]);
            lemma_map_of_at(t, i);
            lemma_map_of_at(s, i);
        }
    }
}

/// Replacing the value of the entry at `i` replaces the value of its name.
pub proof fn lemma_map_of_update<V>(s: Seq<(Seq<char>, V)>, i: int, v: V)
    requires
        distinct_names(s),
        0 <= i < s.len(),
    ensures
        distinct_names(s.update(i, (s[i].0, v))),
        map_of(s.update(i, (s[i].0, v))) =~= map_of(s).insert(s[i].0, v),
{
    let t = s.update(i, (s[i].0, v));
    assert forall|a: int, b: int| 0 <= a < t.len() && 0 <= b < t.len() && a != b implies #[trigger] t[a].0
        != #[trigger] t[b].0 by {
        assert(t[a].0 == s[a].0 && t[b].0 == s[b].0);
    }
    assert forall|key: Seq<char>| #[trigger] map_of(t).contains_key(key) == map_of(s).insert(s[i].0, v).contains_key(key) by {
        if has_name(s, key) {
            let j = name_index(s, key);
            assert(t[j].0 == s[j].0);
        }
        if has_name(t, key) {
            let j = name_index(t, key);
            assert(t[j].0 == s[j].0);
        }
    }
    assert forall|key: Seq<char>| #[trigger] map_of(t).contains_key(key) implies map_of(t)[key]
        == map_of(s).insert(s[i].0, v)[key] by {
        let j = name_index(t, key);
        assert(t[j].0 == s[j].0);
        lemma_map_of_at(t, j);
        if j != i {
            lemma_map_of_at(s, j);
        }
    }
}

/// Removing the entry at `i` removes its name from the map.
pub proof fn lemma_map_of_remove<V>(s: Seq<(Seq<char>, V)>, i: int)
    requires
        distinct_names(s),
        0 <= i < s.len(),
    ensures
        distinct_names(s.remove(i)),
        map_of(s.remove(i)) =~= map_of(s).remove(s[i].0),
{
    let t = s.remove(i);
    assert forall|a: int| 0 <= a < t.len() implies #[trigger] t[a] == s[if a < i { a } else { a + 1 }] by {}
    assert forall|a: int, b: int| 0 <= a < t.len() && 0 <= b < t.len() && a != b implies #[trigger] t[a].0
        != #[trigger] t[b].0 by {
        let a2 = if a < i { a } else { a + 1 };
        let b2 = if b < i { b } else { b + 1 };
        assert(t[a] == s[a2] && t[b] == s[b2]);
    }
    assert forall|key: Seq<char>| #[trigger] map_of(t).contains_key(key) == map_of(s).remove(s[i].0).contains_key(key) by {
        if has_name(t, key) {
            let j = name_index(t, key);
            let j2 = if j < i { j } else { j + 1 };
            assert(t[j] == s[j2]);
            assert(s[j2].0 != s[i].0);
        }
        if has_name(s, key) && key != s[i].0 {
            let j = name_index(s, key);
            assert(j != i);
            let j1 = if j < i { j } else { j - 1 };
            assert(t[j1] == s[j]);
        }
    }
    assert forall|key: Seq<char>| #[trigger] map_of(t).contains_key(key) implies map_of(t)[key]
        == map_of(s).remove(s[i].0)[key] by {
        let j = name_index(t, key);
        let j2 = if j < i { j } else { j + 1 };
        assert(t[j] == s[j2]);
        lemma_map_of_at(t, j);
        lemma_map_of_at(s, j2);
    }
}

/// The entries after storing `v` under `k`: the value of the entry named
/// `k` replaced in place, or a new entry at the end.
pub open spec fn insert_entry<V>(s: Seq<(Seq<char>, V)>, k: Seq<char>, v: V) -> Seq<(Seq<char>, V)> {
    if has_name(s, k) {
        s.map_values(|e: (Seq<char>, V)| if e.0 == k { (k, v) } else { e })
    } else {
        s.push((k, v))
    }
}

/// Names mapped to values, in first-insertion order.
#[derive(Debug)]
pub struct NameMap<V> {
    entries: Vec<(String, V)>,
}

/// The view of a stored entry: its name's characters and its value.
pub open spec fn entry_view<V>(e: (String, V)) -> (Seq<char>, V) {
    (e.0@, e.1)
}

impl<V> NameMap<V> {
    /// The entries, in order, with names as character sequences.
    pub closed spec fn pairs(&self) -> Seq<(Seq<char>, V)> {
        self.entries@.map_values(|e: (String, V)| entry_view(e))
    }

    /// The map from names to values.
    pub open spec fn view(&self) -> Map<Seq<char>, V> {
        map_of(self.pairs())
    }

    /// The names in entry order.
    pub open spec fn names(&self) -> Seq<Seq<char>> {
        self.pairs().map_values(|p: (Seq<char>, V)| p.0)
    }

    #[verifier::type_invariant]
    closed spec fn inv(&self) -> bool {
        distinct_names(self.pairs())
    }

    /// An empty map.
    pub fn new() -> (m: Self)
        ensures
            m.pairs() == Seq::<(Seq<char>, V)>::empty(),
            m@ == Map::<Seq<char>, V>::empty(),
    {
        let m = NameMap { entries: Vec::new() };
        assert(m.pairs() =~= Seq::<(Seq<char>, V)>::empty());
        assert(m@ =~= Map::<Seq<char>, V>::empty());
        m
    }

    /// The number of entries.
    pub fn len(&self) -> (n: usize)
        ensures
            n == self.pairs().len(),
            n == self@.len(),
    {
        proof {
            use_type_invariant(self);
            lemma_len_of_distinct(self.pairs());
        }
        self.entries.len()
    }

    /// The position of the entry named `name`, if any.
    pub fn position(&self, name: &str) -> (r: Option<usize>)
        ensures
            match r {
                Some(i) => i < self.pairs().len() && self.pairs()[i as int].0 == name@,
                None => !has_name(self.pairs(), name@),
            },
            r is Some == self@.contains_key(name@),
    {
        let mut i: usize = 0;
        while i < self.entries.len()
            invariant
                0 <= i <= self.entries.len(),
                forall|j: int| 0 <= j < i ==> #[trigger] self.pairs()[j].0 != name@,
            decreases self.entries.len() - i,
        {
            if crate::text::same_text(self.entries[i].0.as_str(), name) {
                return Some(i);
            }
            i = i + 1;
        }
        None
    }

    /// Whether `name` is in the map.
    pub fn contains_key(&self, name: &str) -> (r: bool)
        ensures
            r == self@.contains_key(name@),
    {
        self.position(name).is_some()
    }

    /// The name of the entry at `i`.
    pub fn name_at(&self, i: usize) -> (r: &String)
        requires
            i < self.pairs().len(),
        ensures
            r@ == self.pairs()[i as int].0,
            r@ == self.names()[i as int],
            forall|j: int| 0 <= j < self.pairs().len() && j != i ==> #[trigger] self.names()[j] != r@,
    {
        proof { use_type_invariant(self); }
        &self.entries[i].0
    }

    /// The value of the entry at `i`.
    pub fn value_at(&self, i: usize) -> (r: &V)
        requires
            i < self.pairs().len(),
        ensures
            *r == self.pairs()[i as int].1,
            self@.contains_key(self.pairs()[i as int].0),
            *r == self@[self.pairs()[i as int].0],
    {
        proof {
            use_type_invariant(self);
            lemma_map_of_at(self.pairs(), i as int);
        }
        &self.entries[i].1
    }

    /// The value stored under `name`, if any.
    pub fn get(&self, name: &str) -> (r: Option<&V>)
        ensures
            match r {
                Some(v) => self@.contains_key(name@) && *v == self@[name@],
                None => !self@.contains_key(name@),
            },
    {
        match self.position(name) {
            Some(i) => {
                proof {
                    use_type_invariant(self);
                    lemma_map_of_at(self.pairs(), i as int);
                }
                Some(&self.entries[i].1)
            },
            None => None,
        }
    }

    /// Replaces the value of the entry at `i`.
    pub fn set_at(&mut self, i: usize, v: V)
        requires
            i < old(self).pairs().len(),
        ensures
            final(self).pairs() == old(self).pairs().update(i as int, (old(self).pairs()[i as int].0, v)),
            final(self)@ == old(self)@.insert(old(self).pairs()[i as int].0, v),
    {
        proof {
            use_type_invariant(&*self);
            lemma_map_of_update(self.pairs(), i as int, v);
        }
        let ghost before = self.pairs();
        let name = self.entries[i].0.clone();
        let mut entries: Vec<(String, V)> = Vec::new();
        std::mem::swap(&mut entries, &mut self.entries);
        entries.set(i, (name, v));
        assert(entries@.map_values(|e: (String, V)| entry_view(e)) =~= before.update(i as int, (before[i as int].0, v)));
        self.entries = entries;
        assert(self.pairs() =~= before.update(i as int, (before[i as int].0, v)));
    }

    /// Replaces the value of the entry at `i`, handing back the value it held.
    pub fn replace_at(&mut self, i: usize, v: V) -> (r: V)
        requires
            i < old(self).pairs().len(),
        ensures
            final(self).pairs() == old(self).pairs().update(i as int, (old(self).pairs()[i as int].0, v)),
            final(self)@ == old(self)@.insert(old(self).pairs()[i as int].0, v),
            r == old(self).pairs()[i as int].1,
            r == old(self)@[old(self).pairs()[i as int].0],
    {
        proof {
            use_type_invariant(&*self);
            lemma_map_of_update(self.pairs(), i as int, v);
            lemma_map_of_at(self.pairs(), i as int);
        }
        let ghost before = self.pairs();
        let mut entries: Vec<(String, V)> = Vec::new();
        std::mem::swap(&mut entries, &mut self.entries);
        let (name, old_v) = entries.remove(i);
        entries.insert(i, (name, v));
        assert(entries@.map_values(|e: (String, V)| entry_view(e)) =~= before.update(i as int, (before[i as int].0, v)));
        self.entries = entries;
        old_v
    }

    /// Adds an entry under a name that is not in the map yet.
    pub fn push_new(&mut self, name: String, v: V)
        requires
            !old(self)@.contains_key(name@),
        ensures
            final(self).pairs() == old(self).pairs().push((name@, v)),
            final(self)@ == old(self)@.insert(name@, v),
    {
        proof {
            use_type_invariant(&*self);
            lemma_map_of_push(self.pairs(), name@, v);
        }
        let ghost before = self.pairs();
        let ghost k = name@;
        let mut entries: Vec<(String, V)> = Vec::new();
        std::mem::swap(&mut entries, &mut self.entries);
        entries.push((name, v));
        assert(entries@.map_values(|e: (String, V)| entry_view(e)) =~= before.push((k, v)));
        self.entries = entries;
        assert(self.pairs() =~= before.push((k, v)));
    }

    /// Stores `v` under `name`: a new entry at the end, or the value of the
    /// existing entry replaced in place.
    pub fn insert(&mut self, name: String, v: V)
        ensures
            final(self)@ == old(self)@.insert(name@, v),
            final(self).pairs() == insert_entry(old(self).pairs(), name@, v),
            old(self)@.contains_key(name@) ==> final(self).names() == old(self).names(),
            !old(self)@.contains_key(name@) ==> final(self).names() == old(self).names().push(name@),
    {
        proof { use_type_invariant(&*self); }
        let ghost k = name@;
        match self.position(name.as_str()) {
            Some(i) => {
                let ghost before = self.pairs();
                self.set_at(i, v);
                assert(self.names() =~= old(self).names());
                assert(has_name(before, k));
                assert(self.pairs() =~= insert_entry(before, k, v)) by {
                    assert forall|j: int| 0 <= j < before.len() && j != i implies before[j].0 != k by {
                        assert(before[j].0 != before[i as int].0);
                    }
                }
            },
            None => {
                self.push_new(name, v);
                assert(self.names() =~= old(self).names().push(k));
            },
        }
    }

    /// Removes the entry at `i`, keeping the order of the others.
    pub fn remove_at(&mut self, i: usize) -> (r: (String, V))
        requires
            i < old(self).pairs().len(),
        ensures
            final(self).pairs() == old(self).pairs().remove(i as int),
            final(self)@ == old(self)@.remove(old(self).pairs()[i as int].0),
            r.0@ == old(self).pairs()[i as int].0,
            r.1 == old(self).pairs()[i as int].1,
    {
        proof {
            use_type_invariant(&*self);
            lemma_map_of_remove(self.pairs(), i as int);
        }
        let ghost before = self.pairs();
        let mut entries: Vec<(String, V)> = Vec::new();
        std::mem::swap(&mut entries, &mut self.entries);
        let r = entries.remove(i);
        assert(entries@.map_values(|e: (String, V)| entry_view(e)) =~= before.remove(i as int));
        self.entries = entries;
        assert(self.pairs() =~= before.remove(i as int));
        r
    }

    /// Removes every entry.
    pub fn clear(&mut self)
        ensures
            final(self).pairs() == Seq::<(Seq<char>, V)>::empty(),
            final(self)@ == Map::<Seq<char>, V>::empty(),
    {
        self.entries = Vec::new();
        assert(self.pairs() =~= Seq::<(Seq<char>, V)>::empty());
        assert(self@ =~= Map::<Seq<char>, V>::empty());
    }
}

impl<V> NameMap<V> {
    /// No two entries share a name (a fact only: nothing runs).
    pub fn names_are_distinct(&self)
        ensures
            distinct_names(self.pairs()),
    {
        proof {
            use_type_invariant(self);
        }
    }
}

/// A name is a key of the map exactly when it is one of the entry names.
pub proof fn lemma_names_dom<V>(m: &NameMap<V>)
    ensures
        forall|k: Seq<char>| #[trigger] m@.contains_key(k) == m.names().contains(k),
{
    let s = m.pairs();
    let ns = m.names();
    assert forall|k: Seq<char>| #[trigger] m@.contains_key(k) == ns.contains(k) by {
        if has_name(s, k) {
            let i = name_index(s, k);
            assert(ns[i] == k);
        }
        if ns.contains(k) {
            let i = choose|i: int| 0 <= i < ns.len() && ns[i] == k;
            assert(s[i].0 == k);
        }
    }
}

/// A list with distinct names has as many entries as its map has keys.
pub proof fn lemma_len_of_distinct<V>(s: Seq<(Seq<char>, V)>)
    requires
        distinct_names(s),
    ensures
        map_of(s).len() == s.len(),
    decreases s.len(),
{
    if s.len() == 0 {
        assert(map_of(s) =~= Map::<Seq<char>, V>::empty());
    } else {
        let t = s.drop_last();
        let k = s.last().0;
        assert(distinct_names(t)) by {
            assert forall|a: int, b: int| 0 <= a < t.len() && 0 <= b < t.len() && a != b implies #[trigger] t[a].0
                != #[trigger] t[b].0 by {
                assert(t[a] == s[a] && t[b] == s[b]);
            }
        }
        assert(!has_name(t, k)) by {
            if has_name(t, k) {
                let j = name_index(t, k);
                assert(t[j] == s[j]);
            }
        }
        lemma_len_of_distinct(t);
        lemma_map_of_push(t, k, s.last().1);
        assert(t.push((k, s.last().1)) =~= s);
        lemma_map_of_finite(t);
    }
}

/// The map of a list is finite.
pub proof fn lemma_map_of_finite<V>(s: Seq<(Seq<char>, V)>)
    ensures
        map_of(s).dom().finite(),
    decreases s.len(),
{
    let ks = s.map_values(|p: (Seq<char>, V)| p.0);
    let keys = ks.to_set();
    assert(map_of(s).dom() =~= keys) by {
        assert forall|k: Seq<char>| map_of(s).dom().contains(k) implies keys.contains(k) by {
            let i = name_index(s, k);
            assert(ks[i] == k);
        }
        assert forall|k: Seq<char>| keys.contains(k) implies map_of(s).dom().contains(k) by {
            let i = choose|i: int| 0 <= i < ks.len() && #[trigger] ks[i] == k;
            assert(s[i].0 == k);
        }
    }
    vstd::seq_lib::seq_to_set_is_finite(ks);
}

} // verus!
