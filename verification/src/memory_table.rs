//! Allocation bookkeeping for JIT code: reference counts, roots, stack
//! frames, and the collection passes that drop what is unreachable.

use vstd::prelude::*;

verus! {

/// What an allocation holds.
#[derive(Debug, Clone, Copy, PartialEq, Eq, Structural)]
pub enum AllocationType {
    String,
    List,
    Mapping,
    Object,
    Closure,
}

/// One tracked allocation.
#[derive(Debug, Clone, Copy)]
pub struct Allocation {
    pub id: u64,
    pub alloc_type: AllocationType,
    pub size: usize,
    pub references: usize,
    pub is_live: bool,
    pub created_at: u64,
}

/// A call frame and the allocations made while it was the innermost one.
#[derive(Debug, Clone)]
pub struct StackFrame {
    pub frame_id: u64,
    pub local_allocations: Vec<u64>,
    pub parent_frame: Option<u64>,
}

/// Summary of the table.
#[derive(Debug, Clone)]
pub struct MemoryStats {
    pub total_allocations: usize,
    pub live_allocations: usize,
    pub total_size: usize,
    pub stack_depth: usize,
    pub root_count: usize,
}

/// Whether `s` holds an allocation with id `id`.
pub open spec fn holds(s: Seq<Allocation>, id: u64) -> bool {
    exists|i: int| 0 <= i < s.len() && #[trigger] s[i].id == id
}

/// The allocation with id `id` in `s` (meaningful when `holds`).
pub open spec fn alloc_with(s: Seq<Allocation>, id: u64) -> Allocation {
    s[choose|i: int| 0 <= i < s.len() && #[trigger] s[i].id == id]
}

/// The ids of `s` increase strictly.
pub open spec fn ids_increasing(s: Seq<Allocation>) -> bool {
    forall|i: int, j: int| 0 <= i < j < s.len() ==> #[trigger] s[i].id < #[trigger] s[j].id
}

/// Whether the allocation `a` is garbage: no references and not a root.
pub open spec fn is_garbage(a: Allocation, roots: Seq<u64>) -> bool {
    a.references == 0 && !roots.contains(a.id)
}

/// The allocations of `s` that are not garbage, in order.
pub open spec fn survivors(s: Seq<Allocation>, roots: Seq<u64>) -> Seq<Allocation>
    decreases s.len(),
{
    if s.len() == 0 {
        Seq::empty()
    } else {
        let rest = survivors(s.drop_last(), roots);
        if is_garbage(s.last(), roots) { rest } else { rest.push(s.last()) }
    }
}

/// The ids of the garbage in `s`, in order.
pub open spec fn garbage_ids(s: Seq<Allocation>, roots: Seq<u64>) -> Seq<u64>
    decreases s.len(),
{
    if s.len() == 0 {
        Seq::empty()
    } else {
        let rest = garbage_ids(s.drop_last(), roots);
        if is_garbage(s.last(), roots) { rest.push(s.last().id) } else { rest }
    }
}

/// The marked allocations of `s`, unmarked again for the next cycle, in order.
pub open spec fn swept_survivors(s: Seq<Allocation>) -> Seq<Allocation>
    decreases s.len(),
{
    if s.len() == 0 {
        Seq::empty()
    } else {
        let rest = swept_survivors(s.drop_last());
        if s.last().is_live { rest.push(Allocation { is_live: false, ..s.last() }) } else { rest }
    }
}

/// The ids of the unmarked allocations of `s`, in order.
pub open spec fn unmarked_ids(s: Seq<Allocation>) -> Seq<u64>
    decreases s.len(),
{
    if s.len() == 0 {
        Seq::empty()
    } else {
        let rest = unmarked_ids(s.drop_last());
        if !s.last().is_live { rest.push(s.last().id) } else { rest }
    }
}

/// The total size of the allocations of `s`.
pub open spec fn total_size(s: Seq<Allocation>) -> int
    decreases s.len(),
{
    if s.len() == 0 { 0 } else { total_size(s.drop_last()) + s.last().size }
}

/// The number of marked allocations of `s`.
pub open spec fn live_count(s: Seq<Allocation>) -> int
    decreases s.len(),
{
    if s.len() == 0 { 0 } else { live_count(s.drop_last()) + if s.last().is_live { 1int } else { 0 } }
}

/// `s` with every allocation whose id is in `ids` marked.
pub open spec fn marked(s: Seq<Allocation>, ids: Seq<u64>) -> Seq<Allocation> {
    Seq::new(s.len(), |i: int| if ids.contains(s[i].id) { Allocation { is_live: true, ..s[i] } } else { s[i] })
}

/// Allocations, roots and frames of JIT-compiled code.
pub struct MemoryTable {
    allocations: Vec<Allocation>,
    next_id: u64,
    stack_frames: Vec<StackFrame>,
    roots: Vec<u64>,
    instruction_counter: u64,
}

impl MemoryTable {
    /// The tracked allocations, by increasing id.
    pub closed spec fn allocs(&self) -> Seq<Allocation> {
        self.allocations@
    }

    /// The id the next allocation gets.
    pub closed spec fn next_id(&self) -> u64 {
        self.next_id
    }

    /// The roots, in the order they were marked.
    pub closed spec fn roots(&self) -> Seq<u64> {
        self.roots@
    }

    /// The frames, outermost first.
    pub closed spec fn frames(&self) -> Seq<StackFrame> {
        self.stack_frames@
    }

    /// The ids each frame recorded, outermost frame first.
    pub open spec fn frame_ids(&self) -> Seq<Seq<u64>> {
        self.frames().map_values(|f: StackFrame| f.local_allocations@)
    }

    /// The instruction counter.
    pub closed spec fn instructions(&self) -> u64 {
        self.instruction_counter
    }

    /// Ids increase strictly and stay below the next id.
    pub open spec fn wf(&self) -> bool {
        &&& ids_increasing(self.allocs())
        &&& forall|i: int| 0 <= i < self.allocs().len() ==> #[trigger] self.allocs()[i].id < self.next_id()
    }

    /// An empty table; ids start at 1.
    pub fn new() -> (t: Self)
        ensures
            t.wf(),
            t.allocs() == Seq::<Allocation>::empty(),
            t.next_id() == 1,
            t.roots() == Seq::<u64>::empty(),
            t.frames() == Seq::<StackFrame>::empty(),
            t.frame_ids() == Seq::<Seq<u64>>::empty(),
            t.instructions() == 0,
    {
        let t = Self { allocations: Vec::new(), next_id: 1, stack_frames: Vec::new(), roots: Vec::new(), instruction_counter: 0 };
        assert(t.frame_ids() =~= Seq::<Seq<u64>>::empty());
        t
    }

    /// Tracks a new live allocation with no references and returns its id;
    /// the innermost frame, if any, records it.
    pub fn allocate(&mut self, alloc_type: AllocationType, size: usize) -> (id: u64)
        requires
            old(self).wf(),
            old(self).next_id() < u64::MAX,
        ensures
            final(self).wf(),
            id == old(self).next_id(),
            final(self).next_id() == id + 1,
            final(self).allocs() == old(self).allocs().push(Allocation {
                id,
                alloc_type,
                size,
                references: 0,
                is_live: true,
                created_at: old(self).instructions(),
            }),
            final(self).roots() == old(self).roots(),
            final(self).instructions() == old(self).instructions(),
            final(self).frames().len() == old(self).frames().len(),
            old(self).frames().len() == 0 ==> final(self).frame_ids() == old(self).frame_ids(),
            old(self).frames().len() > 0 ==> final(self).frame_ids() == old(self).frame_ids().update(
                old(self).frames().len() - 1,
                old(self).frame_ids().last().push(id),
            ),
    {
        let id = self.next_id;
        self.next_id = self.next_id + 1;
        let allocation = Allocation {
            id,
            alloc_type,
            size,
            references: 0,
            is_live: true,
            created_at: self.instruction_counter,
        };
        self.allocations.push(allocation);
        let n = self.stack_frames.len();
        if n > 0 {
            let ghost before = self.frame_ids();
            let mut frame = self.stack_frames.pop().unwrap();
            frame.local_allocations.push(id);
            self.stack_frames.push(frame);
            assert(self.frame_ids() =~= before.update(n - 1, before.last().push(id)));
        }
        id
    }

    fn index_of(&self, id: u64) -> (r: Option<usize>)
        requires
            self.wf(),
        ensures
            match r {
                Some(i) => i < self.allocs().len() && self.allocs()[i as int].id == id && holds(self.allocs(), id)
                    && alloc_with(self.allocs(), id) == self.allocs()[i as int],
                None => !holds(self.allocs(), id),
            },
    {
        let mut i: usize = 0;
        while i < self.allocations.len()
            invariant
                0 <= i <= self.allocations.len(),
                self.wf(),
                forall|j: int| 0 <= j < i ==> #[trigger] self.allocations@[j].id != id,
            decreases self.allocations.len() - i,
        {
            if self.allocations[i].id == id {
                proof {
                    let s = self.allocs();
                    assert(holds(s, id));
                    let j = choose|j: int| 0 <= j < s.len() && #[trigger] s[j].id == id;
                    assert(self.allocations@[i as int].id == id);
                    if j < i {
                        assert(s[j].id < s[i as int].id);
                    } else if j > i {
                        assert(i < j < s.len());
                        assert(s[i as int].id < s[j].id);
                    }
                    assert(j == i);
                }
                return Some(i);
            }
            i = i + 1;
        }
        None
    }

    fn set_alloc(&mut self, i: usize, a: Allocation)
        requires
            old(self).wf(),
            i < old(self).allocs().len(),
            a.id == old(self).allocs()[i as int].id,
        ensures
            final(self).wf(),
            final(self).allocs() == old(self).allocs().update(i as int, a),
            final(self).next_id() == old(self).next_id(),
            final(self).roots() == old(self).roots(),
            final(self).frames() == old(self).frames(),
            final(self).instructions() == old(self).instructions(),
    {
        self.allocations.set(i, a);
        assert(forall|j: int| 0 <= j < self.allocs().len() ==> #[trigger] self.allocs()[j].id == old(self).allocs()[j].id);
    }

    /// Counts one more reference to `id`, if tracked.
    pub fn increment_ref(&mut self, id: u64)
        requires
            old(self).wf(),
            holds(old(self).allocs(), id) ==> alloc_with(old(self).allocs(), id).references < usize::MAX,
        ensures
            final(self).wf(),
            final(self).next_id() == old(self).next_id(),
            final(self).roots() == old(self).roots(),
            final(self).frames() == old(self).frames(),
            final(self).instructions() == old(self).instructions(),
            holds(old(self).allocs(), id) ==> exists|i: int| 0 <= i < old(self).allocs().len() && old(self).allocs()[i].id == id
                && final(self).allocs() == old(self).allocs().update(i, Allocation {
                    references: (old(self).allocs()[i].references + 1) as usize,
                    ..old(self).allocs()[i]
                }),
            !holds(old(self).allocs(), id) ==> final(self).allocs() == old(self).allocs(),
    {
        match self.index_of(id) {
            Some(i) => {
                let mut a = self.allocations[i];
                a.references = a.references + 1;
                self.set_alloc(i, a);
            },
            None => {},
        }
    }

    fn is_root(&self, id: u64) -> (r: bool)
        ensures
            r == self.roots().contains(id),
    {
        let mut i: usize = 0;
        while i < self.roots.len()
            invariant
                0 <= i <= self.roots.len(),
                forall|j: int| 0 <= j < i ==> self.roots@[j] != id,
            decreases self.roots.len() - i,
        {
            if self.roots[i] == id {
                assert(self.roots@[i as int] == id);
                return true;
            }
            i = i + 1;
        }
        false
    }

    /// Drops one reference to `id`; true when that was the last one and
    /// `id` is not a root. An untracked id, or one with no references, is left
    /// as it is and gives false.
    pub fn decrement_ref(&mut self, id: u64) -> (r: bool)
        requires
            old(self).wf(),
        ensures
            final(self).wf(),
            final(self).next_id() == old(self).next_id(),
            final(self).roots() == old(self).roots(),
            final(self).frames() == old(self).frames(),
            final(self).instructions() == old(self).instructions(),
            !holds(old(self).allocs(), id) ==> final(self).allocs() == old(self).allocs() && !r,
            holds(old(self).allocs(), id) && alloc_with(old(self).allocs(), id).references == 0
                ==> final(self).allocs() == old(self).allocs() && !r,
            holds(old(self).allocs(), id) && alloc_with(old(self).allocs(), id).references > 0 ==> {
                &&& exists|i: int| 0 <= i < old(self).allocs().len() && old(self).allocs()[i].id == id
                    && final(self).allocs() == old(self).allocs().update(i, Allocation {
                        references: (old(self).allocs()[i].references - 1) as usize,
                        ..old(self).allocs()[i]
                    })
                &&& r == (alloc_with(old(self).allocs(), id).references == 1 && !old(self).roots().contains(id))
            },
    {
        match self.index_of(id) {
            Some(i) => {
                let mut a = self.allocations[i];
                if a.references == 0 {
                    return false;
                }
                a.references = a.references - 1;
                self.set_alloc(i, a);
                a.references == 0 && !self.is_root(id)
            },
            None => false,
        }
    }

    /// Makes `id` a root (once).
    pub fn mark_root(&mut self, id: u64)
        requires
            old(self).wf(),
        ensures
            final(self).wf(),
            final(self).allocs() == old(self).allocs(),
            final(self).next_id() == old(self).next_id(),
            final(self).frames() == old(self).frames(),
            final(self).instructions() == old(self).instructions(),
            final(self).roots() == if old(self).roots().contains(id) { old(self).roots() } else { old(self).roots().push(id) },
    {
        if !self.is_root(id) {
            self.roots.push(id);
        }
    }

    /// Removes `id` from the roots.
    pub fn unmark_root(&mut self, id: u64)
        requires
            old(self).wf(),
        ensures
            final(self).wf(),
            final(self).allocs() == old(self).allocs(),
            final(self).next_id() == old(self).next_id(),
            final(self).frames() == old(self).frames(),
            final(self).instructions() == old(self).instructions(),
            final(self).roots() == old(self).roots().filter(|x: u64| x != id),
    {
        let mut kept: Vec<u64> = Vec::new();
        let mut i: usize = 0;
        while i < self.roots.len()
            invariant
                0 <= i <= self.roots.len(),
                self.roots@ == old(self).roots@,
                kept@ == self.roots@.take(i as int).filter(|x: u64| x != id),
            decreases self.roots.len() - i,
        {
            let x = self.roots[i];
            proof {
                reveal_with_fuel(Seq::filter, 1);
                assert(self.roots@.take(i + 1).drop_last() =~= self.roots@.take(i as int));
            }
            if x != id {
                kept.push(x);
            }
            i = i + 1;
        }
        assert(self.roots@.take(self.roots@.len() as int) =~= self.roots@);
        self.roots = kept;
    }

    /// Enters a frame.
    pub fn push_frame(&mut self, frame_id: u64, parent: Option<u64>)
        requires
            old(self).wf(),
        ensures
            final(self).wf(),
            final(self).allocs() == old(self).allocs(),
            final(self).next_id() == old(self).next_id(),
            final(self).roots() == old(self).roots(),
            final(self).instructions() == old(self).instructions(),
            final(self).frames().len() == old(self).frames().len() + 1,
            final(self).frame_ids() == old(self).frame_ids().push(Seq::<u64>::empty()),
            final(self).frames().last().frame_id == frame_id,
            final(self).frames().last().parent_frame == parent,
    {
        let ghost before = self.frame_ids();
        let frame = StackFrame { frame_id, local_allocations: Vec::new(), parent_frame: parent };
        self.stack_frames.push(frame);
        assert(self.frame_ids() =~= before.push(Seq::<u64>::empty()));
    }

    /// Leaves the innermost frame, handing back the ids it recorded.
    pub fn pop_frame(&mut self) -> (r: Option<Vec<u64>>)
        requires
            old(self).wf(),
        ensures
            final(self).wf(),
            final(self).allocs() == old(self).allocs(),
            final(self).next_id() == old(self).next_id(),
            final(self).roots() == old(self).roots(),
            final(self).instructions() == old(self).instructions(),
            old(self).frames().len() == 0 ==> r is None && final(self).frames() == old(self).frames()
                && final(self).frame_ids() == old(self).frame_ids(),
            old(self).frames().len() > 0 ==> {
                &&& final(self).frames() == old(self).frames().drop_last()
                &&& final(self).frame_ids() == old(self).frame_ids().drop_last()
                &&& r matches Some(v) && v@ == old(self).frame_ids().last()
            },
    {
        let ghost before = self.frame_ids();
        match self.stack_frames.pop() {
            Some(frame) => {
                assert(self.frame_ids() =~= before.drop_last());
                Some(frame.local_allocations)
            },
            None => None,
        }
    }

    /// Counts one executed instruction.
    pub fn increment_instruction(&mut self)
        requires
            old(self).instructions() < u64::MAX,
        ensures
            final(self).instructions() == old(self).instructions() + 1,
            final(self).allocs() == old(self).allocs(),
            final(self).next_id() == old(self).next_id(),
            final(self).roots() == old(self).roots(),
            final(self).frames() == old(self).frames(),
    {
        self.instruction_counter = self.instruction_counter + 1;
    }

    /// The instruction counter.
    pub fn get_instruction_counter(&self) -> (r: u64)
        ensures
            r == self.instructions(),
    {
        self.instruction_counter
    }

    /// The allocation with id `id`, if tracked.
    pub fn get_allocation(&self, id: u64) -> (r: Option<&Allocation>)
        requires
            self.wf(),
        ensures
            match r {
                Some(a) => holds(self.allocs(), id) && *a == alloc_with(self.allocs(), id),
                None => !holds(self.allocs(), id),
            },
    {
        match self.index_of(id) {
            Some(i) => Some(&self.allocations[i]),
            None => None,
        }
    }

    /// Drops every allocation with no references that is not a root and
    /// returns their ids, by increasing id.
    pub fn collect_garbage(&mut self) -> (r: Vec<u64>)
        requires
            old(self).wf(),
        ensures
            final(self).wf(),
            final(self).allocs() == survivors(old(self).allocs(), old(self).roots()),
            r@ == garbage_ids(old(self).allocs(), old(self).roots()),
            final(self).next_id() == old(self).next_id(),
            final(self).roots() == old(self).roots(),
            final(self).frames() == old(self).frames(),
            final(self).instructions() == old(self).instructions(),
    {
        let mut collected: Vec<u64> = Vec::new();
        let mut kept: Vec<Allocation> = Vec::new();
        let mut i: usize = 0;
        let ghost s = self.allocs();
        let ghost roots = self.roots();
        while i < self.allocations.len()
            invariant
                0 <= i <= self.allocations.len(),
                s == self.allocs(),
                s == old(self).allocs(),
                roots == self.roots(),
                self.wf(),
                kept@ == survivors(s.take(i as int), roots),
                collected@ == garbage_ids(s.take(i as int), roots),
                forall|j: int| 0 <= j < kept@.len() ==> exists|k: int| 0 <= k < i && #[trigger] kept@[j] == s[k],
                forall|a: int, b: int| 0 <= a < b < kept@.len() ==> #[trigger] kept@[a].id < #[trigger] kept@[b].id,
                kept@.len() > 0 ==> exists|k: int| 0 <= k < i && kept@.last() == s[k],
            decreases self.allocations.len() - i,
        {
            let a = self.allocations[i];
            let garbage = a.references == 0 && !self.is_root(a.id);
            proof {
                assert(s.take(i + 1).drop_last() =~= s.take(i as int));
                assert(s.take(i + 1).last() == a);
            }
            if garbage {
                collected.push(a.id);
            } else {
                proof {
                    if kept@.len() > 0 {
                        let k = choose|k: int| 0 <= k < i && kept@.last() == s[k];
                        assert(s[k].id < s[i as int].id);
                    }
                }
                let ghost before = kept@;
                kept.push(a);
                proof {
                    assert forall|j: int| 0 <= j < kept@.len() implies exists|k: int| 0 <= k < i + 1 && #[trigger] kept@[j] == s[k] by {
                        if j < before.len() {
                            assert(kept@[j] == before[j]);
                        } else {
                            assert(kept@[j] == s[i as int]);
                        }
                    }
                    assert forall|x: int, y: int| 0 <= x < y < kept@.len() implies #[trigger] kept@[x].id < #[trigger] kept@[y].id by {
                        if y < before.len() {
                            assert(kept@[x] == before[x] && kept@[y] == before[y]);
                        } else if before.len() > 0 {
                            let k = choose|k: int| 0 <= k < i && before.last() == s[k];
                            assert(kept@[x] == before[x]);
                            if x < before.len() - 1 {
                                assert(before[x].id < before.last().id);
                            }
                        }
                    }
                }
            }
            i = i + 1;
        }
        assert(s.take(s.len() as int) =~= s);
        proof {
            assert forall|j: int| 0 <= j < kept@.len() implies #[trigger] kept@[j].id < self.next_id() by {
                let k = choose|k: int| 0 <= k < s.len() && #[trigger] kept@[j] == s[k];
            }
        }
        self.allocations = kept;
        collected
    }

    /// Counts and sizes of the table.
    pub fn stats(&self) -> (r: MemoryStats)
        requires
            total_size(self.allocs()) <= usize::MAX,
        ensures
            r.total_allocations == self.allocs().len(),
            r.live_allocations == live_count(self.allocs()),
            r.total_size == total_size(self.allocs()),
            r.stack_depth == self.frames().len(),
            r.root_count == self.roots().len(),
    {
        let mut size: usize = 0;
        let mut live: usize = 0;
        let mut i: usize = 0;
        while i < self.allocations.len()
            invariant
                0 <= i <= self.allocations.len(),
                total_size(self.allocs()) <= usize::MAX,
                size == total_size(self.allocs().take(i as int)),
                live == live_count(self.allocs().take(i as int)),
                live <= i,
            decreases self.allocations.len() - i,
        {
            proof {
                let s = self.allocs();
                assert(s.take(i + 1).drop_last() =~= s.take(i as int));
                lemma_total_size_prefix(s, i + 1);
            }
            size = size + self.allocations[i].size;
            if self.allocations[i].is_live {
                live = live + 1;
            }
            i = i + 1;
        }
        assert(self.allocs().take(self.allocs().len() as int) =~= self.allocs());
        MemoryStats {
            total_allocations: self.allocations.len(),
            live_allocations: live,
            total_size: size,
            stack_depth: self.stack_frames.len(),
            root_count: self.roots.len(),
        }
    }

    /// Marks every tracked root as live.
    pub fn mark_reachable(&mut self)
        requires
            old(self).wf(),
        ensures
            final(self).wf(),
            final(self).allocs() == marked(old(self).allocs(), old(self).roots()),
            final(self).next_id() == old(self).next_id(),
            final(self).roots() == old(self).roots(),
            final(self).frames() == old(self).frames(),
            final(self).instructions() == old(self).instructions(),
    {
        let mut r: usize = 0;
        let ghost s = self.allocs();
        while r < self.roots.len()
            invariant
                0 <= r <= self.roots.len(),
                self.wf(),
                s == old(self).allocs(),
                self.roots() == old(self).roots(),
                self.next_id() == old(self).next_id(),
                self.frames() == old(self).frames(),
                self.instructions() == old(self).instructions(),
                self.allocs() == marked(s, self.roots@.take(r as int)),
            decreases self.roots.len() - r,
        {
            let id = self.roots[r];
            self.mark_recursive(id);
            proof {
                let before = self.roots@.take(r as int);
                let after = self.roots@.take(r + 1);
                assert(after =~= before.push(id));
                assert forall|x: u64| after.contains(x) == (before.contains(x) || x == id) by {
                    if after.contains(x) {
                        let k = choose|k: int| 0 <= k < after.len() && after[k] == x;
                        if k < before.len() { assert(before[k] == x); }
                    }
                    if before.contains(x) {
                        let k = choose|k: int| 0 <= k < before.len() && before[k] == x;
                        assert(after[k] == x);
                    }
                    if x == id { assert(after[r as int] == id); }
                }
                assert(self.allocs() =~= marked(s, after));
            }
            r = r + 1;
        }
        assert(self.roots@.take(self.roots@.len() as int) =~= self.roots@);
    }

    /// Marks the allocation `id` as live, if tracked.
    fn mark_recursive(&mut self, id: u64)
        requires
            old(self).wf(),
        ensures
            final(self).wf(),
            final(self).allocs() == Seq::new(old(self).allocs().len(), |i: int| if old(self).allocs()[i].id == id {
                Allocation { is_live: true, ..old(self).allocs()[i] }
            } else {
                old(self).allocs()[i]
            }),
            final(self).next_id() == old(self).next_id(),
            final(self).roots() == old(self).roots(),
            final(self).frames() == old(self).frames(),
            final(self).instructions() == old(self).instructions(),
    {
        match self.index_of(id) {
            Some(i) => {
                let mut a = self.allocations[i];
                if !a.is_live {
                    a.is_live = true;
                    self.set_alloc(i, a);
                }
                proof {
                    let s = old(self).allocs();
                    assert forall|j: int| 0 <= j < s.len() && j != i implies s[j].id != id by {
                        if j < i { assert(s[j].id < s[i as int].id); } else { assert(s[i as int].id < s[j].id); }
                    }
                }
                assert(self.allocs() =~= Seq::new(old(self).allocs().len(), |k: int| if old(self).allocs()[k].id == id {
                    Allocation { is_live: true, ..old(self).allocs()[k] }
                } else {
                    old(self).allocs()[k]
                }));
            },
            None => {
                assert(self.allocs() =~= Seq::new(old(self).allocs().len(), |k: int| if old(self).allocs()[k].id == id {
                    Allocation { is_live: true, ..old(self).allocs()[k] }
                } else {
                    old(self).allocs()[k]
                }));
            },
        }
    }

    /// Drops every unmarked allocation and returns their ids, by increasing
    /// id; the rest are unmarked for the next cycle.
    pub fn sweep(&mut self) -> (r: Vec<u64>)
        requires
            old(self).wf(),
        ensures
            final(self).wf(),
            final(self).allocs() == swept_survivors(old(self).allocs()),
            r@ == unmarked_ids(old(self).allocs()),
            final(self).next_id() == old(self).next_id(),
            final(self).roots() == old(self).roots(),
            final(self).frames() == old(self).frames(),
            final(self).instructions() == old(self).instructions(),
    {
        let mut swept: Vec<u64> = Vec::new();
        let mut kept: Vec<Allocation> = Vec::new();
        let mut i: usize = 0;
        let ghost s = self.allocs();
        while i < self.allocations.len()
            invariant
                0 <= i <= self.allocations.len(),
                s == self.allocs(),
                s == old(self).allocs(),
                self.wf(),
                kept@ == swept_survivors(s.take(i as int)),
                swept@ == unmarked_ids(s.take(i as int)),
                forall|j: int| 0 <= j < kept@.len() ==> exists|k: int| 0 <= k < i && #[trigger] kept@[j].id == s[k].id,
                forall|a: int, b: int| 0 <= a < b < kept@.len() ==> #[trigger] kept@[a].id < #[trigger] kept@[b].id,
                kept@.len() > 0 ==> exists|k: int| 0 <= k < i && kept@.last().id == s[k].id,
            decreases self.allocations.len() - i,
        {
            let a = self.allocations[i];
            proof {
                assert(s.take(i + 1).drop_last() =~= s.take(i as int));
                assert(s.take(i + 1).last() == a);
            }
            if !a.is_live {
                swept.push(a.id);
            } else {
                proof {
                    if kept@.len() > 0 {
                        let k = choose|k: int| 0 <= k < i && kept@.last().id == s[k].id;
                        assert(s[k].id < s[i as int].id);
                    }
                }
                let ghost before = kept@;
                let mut b = a;
                b.is_live = false;
                kept.push(b);
                proof {
                    assert forall|j: int| 0 <= j < kept@.len() implies exists|k: int| 0 <= k < i + 1 && #[trigger] kept@[j].id == s[k].id by {
                        if j < before.len() {
                            assert(kept@[j] == before[j]);
                        } else {
                            assert(kept@[j].id == s[i as int].id);
                        }
                    }
                    assert forall|x: int, y: int| 0 <= x < y < kept@.len() implies #[trigger] kept@[x].id < #[trigger] kept@[y].id by {
                        if y < before.len() {
                            assert(kept@[x] == before[x] && kept@[y] == before[y]);
                        } else if before.len() > 0 {
                            assert(kept@[x] == before[x]);
                            if x < before.len() - 1 {
                                assert(before[x].id < before.last().id);
                            }
                        }
                    }
                    assert(kept@ =~= swept_survivors(s.take(i + 1)));
                }
            }
            i = i + 1;
        }
        assert(s.take(s.len() as int) =~= s);
        proof {
            assert forall|j: int| 0 <= j < kept@.len() implies #[trigger] kept@[j].id < self.next_id() by {
                let k = choose|k: int| 0 <= k < s.len() && #[trigger] kept@[j].id == s[k].id;
            }
        }
        self.allocations = kept;
        swept
    }
}

proof fn lemma_total_size_prefix(s: Seq<Allocation>, n: int)
    requires
        0 <= n <= s.len(),
    ensures
        total_size(s.take(n)) <= total_size(s),
    decreases s.len() - n,
{
    if n < s.len() {
        lemma_total_size_prefix(s, n + 1);
        assert(s.take(n + 1).drop_last() =~= s.take(n));
    } else {
        assert(s.take(n) =~= s);
    }
}


/// Collection splits the allocations: the number kept and the number
/// collected add up to all of them; an allocation is collected exactly when
/// it has no references and is not a root, and kept exactly otherwise.
pub proof fn law_collect_partitions(s: Seq<Allocation>, roots: Seq<u64>)
    requires
        ids_increasing(s),
    ensures
        survivors(s, roots).len() + garbage_ids(s, roots).len() == s.len(),
        forall|i: int| 0 <= i < s.len() ==> (garbage_ids(s, roots).contains(#[trigger] s[i].id) <==> is_garbage(s[i], roots)),
        forall|i: int| 0 <= i < s.len() ==> (survivors(s, roots).contains(#[trigger] s[i]) <==> !is_garbage(s[i], roots)),
    decreases s.len(),
{
    if s.len() > 0 {
        let t = s.drop_last();
        assert(ids_increasing(t)) by {
            assert forall|i: int, j: int| 0 <= i < j < t.len() implies #[trigger] t[i].id < #[trigger] t[j].id by {
                assert(s[i].id < s[j].id);
            }
        }
        law_collect_partitions(t, roots);
        let last = s.last();
        assert forall|i: int| 0 <= i < t.len() implies #[trigger] t[i].id < last.id by {
            assert(s[i].id < s[s.len() - 1].id);
        }
        lemma_survivors_ids_below(t, roots, last.id);
        lemma_garbage_ids_below(t, roots, last.id);
        let g = garbage_ids(t, roots);
        let k = survivors(t, roots);
        assert forall|i: int| 0 <= i < s.len() implies (garbage_ids(s, roots).contains(#[trigger] s[i].id) <==> is_garbage(s[i], roots)) by {
            lemma_push_contains(g, last.id, s[i].id);
            if i < s.len() - 1 {
                assert(s[i] == t[i]);
                assert(s[i].id < last.id);
            } else {
                if g.contains(last.id) {
                    let j = choose|j: int| 0 <= j < g.len() && g[j] == last.id;
                    assert(g[j] < last.id);
                }
            }
        }
        assert forall|i: int| 0 <= i < s.len() implies (survivors(s, roots).contains(#[trigger] s[i]) <==> !is_garbage(s[i], roots)) by {
            lemma_push_contains(k, last, s[i]);
            if i < s.len() - 1 {
                assert(s[i] == t[i]);
                assert(s[i].id < last.id);
                assert(s[i] != last);
            } else {
                if k.contains(last) {
                    let j = choose|j: int| 0 <= j < k.len() && k[j] == last;
                    assert(k[j].id < last.id);
                }
            }
        }
    }
}

/// What a sequence with one more element at the end contains.
proof fn lemma_push_contains<A>(q: Seq<A>, a: A, x: A)
    ensures
        q.push(a).contains(x) <==> (q.contains(x) || x == a),
{
    if q.contains(x) {
        let j = choose|j: int| 0 <= j < q.len() && q[j] == x;
        assert(q.push(a)[j] == x);
    }
    if x == a {
        assert(q.push(a)[q.len() as int] == x);
    }
    if q.push(a).contains(x) {
        let j = choose|j: int| 0 <= j < q.push(a).len() && q.push(a)[j] == x;
        if j < q.len() {
            assert(q[j] == x);
        }
    }
}

/// Every kept allocation of `s` has an id below `bound` when all of `s` does.
proof fn lemma_survivors_ids_below(s: Seq<Allocation>, roots: Seq<u64>, bound: u64)
    requires
        forall|i: int| 0 <= i < s.len() ==> #[trigger] s[i].id < bound,
    ensures
        forall|i: int| 0 <= i < survivors(s, roots).len() ==> #[trigger] survivors(s, roots)[i].id < bound,
    decreases s.len(),
{
    if s.len() > 0 {
        let t = s.drop_last();
        assert forall|i: int| 0 <= i < t.len() implies #[trigger] t[i].id < bound by {
            assert(t[i] == s[i]);
        }
        lemma_survivors_ids_below(t, roots, bound);
    }
}

/// Every collected id of `s` is below `bound` when all of `s`'s ids are.
proof fn lemma_garbage_ids_below(s: Seq<Allocation>, roots: Seq<u64>, bound: u64)
    requires
        forall|i: int| 0 <= i < s.len() ==> #[trigger] s[i].id < bound,
    ensures
        forall|i: int| 0 <= i < garbage_ids(s, roots).len() ==> #[trigger] garbage_ids(s, roots)[i] < bound,
    decreases s.len(),
{
    if s.len() > 0 {
        let t = s.drop_last();
        assert forall|i: int| 0 <= i < t.len() implies #[trigger] t[i].id < bound by {
            assert(t[i] == s[i]);
        }
        lemma_garbage_ids_below(t, roots, bound);
        assert(s[s.len() - 1].id < bound);
        let rest = garbage_ids(t, roots);
        let g = garbage_ids(s, roots);
        assert forall|i: int| 0 <= i < g.len() implies #[trigger] g[i] < bound by {
            if is_garbage(s.last(), roots) {
                assert(g == rest.push(s.last().id));
                if i < rest.len() {
                    assert(g[i] == rest[i]);
                }
            } else {
                assert(g == rest);
            }
        }
    }
}

/// A second collection right after the first finds nothing and keeps
/// everything.
pub proof fn law_collect_idempotent(s: Seq<Allocation>, roots: Seq<u64>)
    ensures
        garbage_ids(survivors(s, roots), roots) == Seq::<u64>::empty(),
        survivors(survivors(s, roots), roots) == survivors(s, roots),
    decreases s.len(),
{
    if s.len() > 0 {
        law_collect_idempotent(s.drop_last(), roots);
        let rest = survivors(s.drop_last(), roots);
        if !is_garbage(s.last(), roots) {
            assert(rest.push(s.last()).drop_last() =~= rest);
        }
    }
}

/// Marking commutes with dropping the last allocation.
proof fn lemma_marked_drop_last(s: Seq<Allocation>, ids: Seq<u64>)
    requires
        s.len() > 0,
    ensures
        marked(s, ids).drop_last() == marked(s.drop_last(), ids),
        marked(s, ids).last() == (if ids.contains(s.last().id) { Allocation { is_live: true, ..s.last() } } else { s.last() }),
{
    assert(marked(s, ids).drop_last() =~= marked(s.drop_last(), ids));
}

/// Marking from the roots and then sweeping keeps every tracked root.
pub proof fn law_roots_survive_sweep(s: Seq<Allocation>, roots: Seq<u64>)
    ensures
        forall|i: int| 0 <= i < s.len() && roots.contains(#[trigger] s[i].id) ==> holds(
            swept_survivors(marked(s, roots)),
            s[i].id,
        ),
    decreases s.len(),
{
    if s.len() > 0 {
        let t = s.drop_last();
        law_roots_survive_sweep(t, roots);
        lemma_marked_drop_last(s, roots);
        let m = marked(s, roots);
        let rest = swept_survivors(marked(t, roots));
        assert forall|i: int| 0 <= i < s.len() && roots.contains(#[trigger] s[i].id) implies holds(
            swept_survivors(m),
            s[i].id,
        ) by {
            if m.last().is_live {
                let out = rest.push(Allocation { is_live: false, ..m.last() });
                assert(swept_survivors(m) == out);
                if i < s.len() - 1 {
                    assert(t[i] == s[i]);
                    let k = choose|k: int| 0 <= k < rest.len() && #[trigger] rest[k].id == s[i].id;
                    assert(out[k] == rest[k]);
                } else {
                    assert(out[rest.len() as int].id == s[i].id);
                }
            } else {
                assert(swept_survivors(m) == rest);
                assert(i < s.len() - 1);
                assert(t[i] == s[i]);
            }
        }
    }
}

/// The id the next allocation gets is not tracked yet.
pub proof fn law_next_id_is_fresh(t: MemoryTable)
    requires
        t.wf(),
    ensures
        !holds(t.allocs(), t.next_id()),
{
    if holds(t.allocs(), t.next_id()) {
        let i = choose|i: int| 0 <= i < t.allocs().len() && #[trigger] t.allocs()[i].id == t.next_id();
        assert(t.allocs()[i].id < t.next_id());
    }
}

/// The garbage ids of a list with increasing ids increase strictly, each
/// is the id of a garbage allocation of the list, and every garbage
/// allocation's id is among them.
proof fn lemma_garbage_ids(s: Seq<Allocation>, roots: Seq<u64>)
    requires
        ids_increasing(s),
    ensures
        forall|a: int, b: int| 0 <= a < b < garbage_ids(s, roots).len() ==> #[trigger] garbage_ids(s, roots)[a]
            < #[trigger] garbage_ids(s, roots)[b],
        forall|j: int| 0 <= j < garbage_ids(s, roots).len() ==> exists|i: int| 0 <= i < s.len()
            && #[trigger] s[i].id == #[trigger] garbage_ids(s, roots)[j] && is_garbage(s[i], roots),
        forall|i: int| 0 <= i < s.len() && is_garbage(#[trigger] s[i], roots) ==> garbage_ids(s, roots).contains(s[i].id),
    decreases s.len(),
{
    if s.len() > 0 {
        let p = s.drop_last();
        lemma_garbage_ids(p, roots);
        let g = garbage_ids(s, roots);
        let gp = garbage_ids(p, roots);
        assert forall|j: int| 0 <= j < gp.len() implies #[trigger] gp[j] < s.last().id by {
            let i = choose|i: int| 0 <= i < p.len() && #[trigger] p[i].id == gp[j] && is_garbage(p[i], roots);
            assert(s[i] == p[i]);
        }
        assert forall|j: int| 0 <= j < g.len() implies exists|i: int| 0 <= i < s.len()
            && #[trigger] s[i].id == #[trigger] g[j] && is_garbage(s[i], roots) by {
            if j < gp.len() {
                assert(g[j] == gp[j]);
                let i = choose|i: int| 0 <= i < p.len() && #[trigger] p[i].id == gp[j] && is_garbage(p[i], roots);
                assert(s[i] == p[i]);
            } else {
                assert(s[s.len() - 1].id == g[j]);
            }
        }
        assert forall|i: int| 0 <= i < s.len() && is_garbage(#[trigger] s[i], roots) implies g.contains(s[i].id) by {
            if i < p.len() {
                assert(p[i] == s[i]);
                let j = choose|j: int| 0 <= j < gp.len() && gp[j] == p[i].id;
                assert(g[j] == gp[j]);
            } else {
                assert(g[g.len() - 1] == s.last().id);
            }
        }
        assert forall|a: int, b: int| 0 <= a < b < g.len() implies #[trigger] g[a] < #[trigger] g[b] by {
            if b < gp.len() {
                assert(g[a] == gp[a] && g[b] == gp[b]);
            } else {
                assert(g[a] == gp[a]);
            }
        }
    }
}

/// Collecting garbage reports each garbage allocation exactly once: the
/// reported ids increase strictly, and an id is reported exactly when the
/// table holds an allocation with that id that has no references and is
/// not a root.
pub proof fn law_garbage_reported_once(t: MemoryTable)
    requires
        t.wf(),
    ensures
        forall|a: int, b: int| 0 <= a < b < garbage_ids(t.allocs(), t.roots()).len() ==> #[trigger] garbage_ids(
            t.allocs(),
            t.roots(),
        )[a] < #[trigger] garbage_ids(t.allocs(), t.roots())[b],
        forall|id: u64| #[trigger] garbage_ids(t.allocs(), t.roots()).contains(id) <==> (holds(t.allocs(), id)
            && is_garbage(alloc_with(t.allocs(), id), t.roots())),
{
    let s = t.allocs();
    let roots = t.roots();
    lemma_garbage_ids(s, roots);
    let g = garbage_ids(s, roots);
    assert forall|id: u64| #[trigger] g.contains(id) <==> (holds(s, id) && is_garbage(alloc_with(s, id), roots)) by {
        if g.contains(id) {
            let j = choose|j: int| 0 <= j < g.len() && g[j] == id;
            let i = choose|i: int| 0 <= i < s.len() && #[trigger] s[i].id == #[trigger] g[j] && is_garbage(s[i], roots);
            let c = choose|c: int| 0 <= c < s.len() && #[trigger] s[c].id == id;
            if c < i { assert(s[c].id < s[i].id); }
            if i < c { assert(s[i].id < s[c].id); }
        }
        if holds(s, id) && is_garbage(alloc_with(s, id), roots) {
            let c = choose|c: int| 0 <= c < s.len() && #[trigger] s[c].id == id;
            assert(is_garbage(s[c], roots));
        }
    }
}

/// Every allocation that `survivors` keeps is one of `s`.
proof fn lemma_survivors_from(s: Seq<Allocation>, roots: Seq<u64>)
    ensures
        forall|k: int| 0 <= k < survivors(s, roots).len() ==> exists|i: int| 0 <= i < s.len() && #[trigger] s[i] == #[trigger] survivors(s, roots)[k],
    decreases s.len(),
{
    if s.len() > 0 {
        let t = s.drop_last();
        lemma_survivors_from(t, roots);
        assert forall|k: int| 0 <= k < survivors(s, roots).len() implies exists|i: int| 0 <= i < s.len() && #[trigger] s[i] == #[trigger] survivors(s, roots)[k] by {
            if k < survivors(t, roots).len() {
                let i = choose|i: int| 0 <= i < t.len() && #[trigger] t[i] == #[trigger] survivors(t, roots)[k];
                assert(s[i] == t[i]);
                assert(survivors(s, roots)[k] == survivors(t, roots)[k]);
            } else {
                assert(s[s.len() - 1] == survivors(s, roots)[k]);
            }
        }
    }
}

/// After a collection an id is found exactly where it was found before and
/// its allocation was not garbage, and then with the same allocation; so
/// no id that the collection returned is found afterwards.
pub proof fn law_collected_are_gone(t: MemoryTable)
    requires
        t.wf(),
    ensures
        forall|id: u64| #[trigger] holds(survivors(t.allocs(), t.roots()), id) <==> (holds(t.allocs(), id) && !is_garbage(
            alloc_with(t.allocs(), id),
            t.roots(),
        )),
        forall|id: u64| #[trigger] holds(survivors(t.allocs(), t.roots()), id) ==> alloc_with(survivors(t.allocs(), t.roots()), id)
            == alloc_with(t.allocs(), id),
        forall|id: u64| #[trigger] garbage_ids(t.allocs(), t.roots()).contains(id) ==> !holds(survivors(t.allocs(), t.roots()), id),
{
    let s = t.allocs();
    let roots = t.roots();
    let v = survivors(s, roots);
    law_collect_partitions(s, roots);
    law_garbage_reported_once(t);
    lemma_survivors_from(s, roots);
    assert forall|id: u64| #[trigger] holds(v, id) implies holds(s, id) && !is_garbage(alloc_with(s, id), roots)
        && alloc_with(v, id) == alloc_with(s, id) by {
        let k = choose|k: int| 0 <= k < v.len() && #[trigger] v[k].id == id;
        let i = choose|i: int| 0 <= i < s.len() && #[trigger] s[i] == #[trigger] v[k];
        assert(s[i].id == id);
        assert(v.contains(s[i]));
        let c = choose|c: int| 0 <= c < s.len() && #[trigger] s[c].id == id;
        if c < i { assert(s[c].id < s[i].id); }
        if i < c { assert(s[i].id < s[c].id); }
        let k2 = choose|k2: int| 0 <= k2 < v.len() && #[trigger] v[k2].id == id;
        let i2 = choose|i2: int| 0 <= i2 < s.len() && #[trigger] s[i2] == #[trigger] v[k2];
        assert(s[i2].id == id);
        if c < i2 { assert(s[c].id < s[i2].id); }
        if i2 < c { assert(s[i2].id < s[c].id); }
    }
    assert forall|id: u64| holds(s, id) && !is_garbage(alloc_with(s, id), roots) implies #[trigger] holds(v, id) by {
        let c = choose|c: int| 0 <= c < s.len() && #[trigger] s[c].id == id;
        assert(v.contains(s[c]));
        let k = choose|k: int| 0 <= k < v.len() && v[k] == s[c];
        assert(v[k].id == id);
    }
}

} // verus!
