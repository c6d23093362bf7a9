//! Optimisation passes over instruction words.

use vstd::prelude::*;
use crate::name_map::NameMap;

verus! {

/// `ADD Xd, Xn, #0` with `d == n` (64-bit, no shift): it changes nothing.
pub open spec fn is_dead_add(w: u32) -> bool {
    w & 0xFFFF_FC00u32 == 0x9100_0000u32 && w & 31u32 == (w >> 5u32) & 31u32
}

/// `MOVZ Xd, #0` (64-bit): sets `Xd` to zero.
pub open spec fn is_zero_move(w: u32) -> bool {
    w & 0xFFFF_FFE0u32 == 0xD280_0000u32
}

/// `ADD Xd, Xd, Xm` (64-bit, unshifted register) with `d` the register `x`.
pub open spec fn is_self_add(w: u32, x: u32) -> bool {
    w & 0xFFE0_FC00u32 == 0x8B00_0000u32 && w & 31u32 == x && (w >> 5u32) & 31u32 == x
}

/// `MOV Xd, Xm`, written `ORR Xd, XZR, Xm`.
pub open spec fn mov_reg_word(d: u32, m: u32) -> u32 {
    0xAA00_03E0u32 | (m << 16u32) | d
}

/// The peephole pass over `s`, left to right: a dead `add x, x, #0` is
/// dropped, and `mov x, #0` followed by `add x, x, y` becomes `mov x, y`;
/// every other instruction is kept.
pub open spec fn peephole(s: Seq<u32>) -> Seq<u32>
    decreases s.len(),
{
    if s.len() == 0 {
        seq![]
    } else if is_dead_add(s[0]) {
        peephole(s.drop_first())
    } else if s.len() >= 2 && is_zero_move(s[0]) && is_self_add(s[1], s[0] & 31u32) {
        seq![mov_reg_word(s[0] & 31u32, (s[1] >> 16u32) & 31u32)] + peephole(s.subrange(2, s.len() as int))
    } else {
        seq![s[0]] + peephole(s.drop_first())
    }
}

/// A peephole pass over instruction words.
pub struct PeepholeOptimizer {
    prev_instr: Option<u32>,
}

impl PeepholeOptimizer {
    /// The last instruction the pass looked at, if any.
    pub closed spec fn previous(&self) -> Option<u32> {
        self.prev_instr
    }

    /// A pass with no history.
    pub fn new() -> (p: Self)
        ensures
            p.previous() is None,
    {
        Self { prev_instr: None }
    }

    /// The optimised sequence: dead `add x, x, #0` instructions dropped and
    /// each `mov x, #0; add x, x, y` pair turned into `mov x, y`.
    pub fn optimize(&mut self, instrs: &[u32]) -> (r: Vec<u32>)
        ensures
            r@ == peephole(instrs@),
            final(self).previous() == old(self).previous(),
    {
        let mut optimized: Vec<u32> = Vec::new();
        let n = instrs.len();
        let mut i: usize = 0;
        assert(instrs@.subrange(0, n as int) =~= instrs@);
        while i < n
            invariant
                0 <= i <= n,
                n == instrs@.len(),
                optimized@ + peephole(instrs@.subrange(i as int, n as int)) == peephole(instrs@),
                self.previous() == old(self).previous(),
            decreases n - i,
        {
            let ghost rest = instrs@.subrange(i as int, n as int);
            let w = instrs[i];
            assert(rest[0] == w);
            if w & 0xFFFF_FC00u32 == 0x9100_0000u32 && w & 31u32 == (w >> 5u32) & 31u32 {
                assert(rest.drop_first() =~= instrs@.subrange(i + 1, n as int));
                i = i + 1;
            } else if i + 1 < n && w & 0xFFFF_FFE0u32 == 0xD280_0000u32
                && instrs[i + 1] & 0xFFE0_FC00u32 == 0x8B00_0000u32 && instrs[i + 1] & 31u32 == w & 31u32
                && (instrs[i + 1] >> 5u32) & 31u32 == w & 31u32
            {
                let v = instrs[i + 1];
                assert(rest[1] == v);
                assert(rest.subrange(2, rest.len() as int) =~= instrs@.subrange(i + 2, n as int));
                let word = 0xAA00_03E0u32 | (((v >> 16u32) & 31u32) << 16u32) | (w & 31u32);
                let ghost before = optimized@;
                optimized.push(word);
                assert(optimized@ + peephole(instrs@.subrange(i + 2, n as int)) =~= before + (seq![word] + peephole(instrs@.subrange(i + 2, n as int))));
                i = i + 2;
            } else {
                let ghost before = optimized@;
                optimized.push(w);
                assert(rest.drop_first() =~= instrs@.subrange(i + 1, n as int));
                assert(optimized@ + peephole(instrs@.subrange(i + 1, n as int)) =~= before + (seq![w] + peephole(instrs@.subrange(i + 1, n as int))));
                i = i + 1;
            }
        }
        assert(optimized@ + Seq::<u32>::empty() =~= optimized@);
        optimized
    }
}

/// The lifetime after recording the uses `uses[..n]` on top of `start`:
/// a variable's first recorded use opens `(pos, pos)`, later ones raise the end.
pub open spec fn lifetimes_after(start: Map<Seq<char>, (usize, usize)>, uses: Seq<(usize, Seq<char>)>, n: int) -> Map<Seq<char>, (usize, usize)>
    decreases n,
{
    if n <= 0 {
        start
    } else {
        let m = lifetimes_after(start, uses, n - 1);
        let (pos, var) = uses[n - 1];
        if m.contains_key(var) {
            let (s, e) = m[var];
            m.insert(var, (s, if pos > e { pos } else { e }))
        } else {
            m.insert(var, (pos, pos))
        }
    }
}

/// The variables in first-use order after recording `uses[..n]` on top of
/// `start`: a variable not seen before is appended.
pub open spec fn variables_after(start: Seq<Seq<char>>, uses: Seq<(usize, Seq<char>)>, n: int) -> Seq<Seq<char>>
    decreases n,
{
    if n <= 0 {
        start
    } else {
        let s = variables_after(start, uses, n - 1);
        if s.contains(uses[n - 1].1) { s } else { s.push(uses[n - 1].1) }
    }
}

/// Registers handed out in order: the `i`-th variable gets `x<i>` for
/// `i < 8` and `x0` after that.
pub open spec fn register_for(i: int) -> u8 {
    if i < 8 { i as u8 } else { 0 }
}

/// A linear-scan register allocator.
pub struct LinearScanAllocator {
    lifetimes: NameMap<(usize, usize)>,
}

impl LinearScanAllocator {
    /// The recorded (first use, last use) of each variable.
    pub closed spec fn lifetimes(&self) -> Map<Seq<char>, (usize, usize)> {
        self.lifetimes@
    }

    /// The variables with a lifetime, in first-use order.
    pub closed spec fn variables(&self) -> Seq<Seq<char>> {
        self.lifetimes.names()
    }

    /// An allocator with no lifetimes.
    pub fn new() -> (a: Self)
        ensures
            a.lifetimes() == Map::<Seq<char>, (usize, usize)>::empty(),
            a.variables() == Seq::<Seq<char>>::empty(),
    {
        let a = Self { lifetimes: NameMap::new() };
        assert(a.variables() =~= Seq::<Seq<char>>::empty());
        a
    }

    /// Records the uses `(position, variable)`, in order.
    pub fn compute_liveness(&mut self, var_uses: &[(usize, String)])
        ensures
            final(self).lifetimes() == lifetimes_after(old(self).lifetimes(), var_uses@.map_values(|u: (usize, String)| (u.0, u.1@)), var_uses@.len() as int),
            final(self).variables() == variables_after(old(self).variables(), var_uses@.map_values(|u: (usize, String)| (u.0, u.1@)), var_uses@.len() as int),
    {
        let ghost uses = var_uses@.map_values(|u: (usize, String)| (u.0, u.1@));
        let mut i: usize = 0;
        while i < var_uses.len()
            invariant
                0 <= i <= var_uses.len(),
                uses == var_uses@.map_values(|u: (usize, String)| (u.0, u.1@)),
                self.lifetimes() == lifetimes_after(old(self).lifetimes(), uses, i as int),
                self.variables() == variables_after(old(self).variables(), uses, i as int),
            decreases var_uses.len() - i,
        {
            let pos = var_uses[i].0;
            let var = &var_uses[i].1;
            assert(uses[i as int] == (pos, var@));
            proof { crate::name_map::lemma_names_dom(&self.lifetimes); }
            let ghost names_before = self.variables();
            match self.lifetimes.position(var.as_str()) {
                Some(k) => {
                    let (s, e) = *self.lifetimes.value_at(k);
                    let end = if pos > e { pos } else { e };
                    self.lifetimes.set_at(k, (s, end));
                    assert(self.variables() =~= names_before);
                },
                None => {
                    self.lifetimes.push_new(var.clone(), (pos, pos));
                    assert(self.variables() =~= names_before.push(var@));
                },
            }
            i = i + 1;
        }
    }

    /// Assigns registers to the variables in first-use order: `x0`..`x7` to
    /// the first eight, `x0` to the rest.
    pub fn allocate(&mut self) -> (r: NameMap<u8>)
        ensures
            r@.dom() == final(self).lifetimes().dom(),
            forall|i: int| 0 <= i < final(self).variables().len() ==> #[trigger] r@[final(self).variables()[i]] == register_for(i),
            final(self).lifetimes() == old(self).lifetimes(),
            final(self).variables() == old(self).variables(),
    {
        let mut result: NameMap<u8> = NameMap::new();
        let mut next_reg: u8 = 0;
        let mut i: usize = 0;
        while i < self.lifetimes.len()
            invariant
                0 <= i <= self.variables().len(),
                next_reg as int == if i < 8 { i as int } else { 8 },
                result.names() == self.variables().take(i as int),
                forall|j: int| 0 <= j < i ==> #[trigger] result@[self.variables()[j]] == register_for(j),
                forall|k: Seq<char>| result@.contains_key(k) == self.variables().take(i as int).contains(k),
            decreases self.variables().len() - i,
        {
            let name = self.lifetimes.name_at(i).clone();
            let reg = if next_reg < 8 { next_reg } else { 0 };
            if next_reg < 8 {
                next_reg = next_reg + 1;
            }
            proof {
                crate::name_map::lemma_names_dom(&result);
                if self.variables().take(i as int).contains(name@) {
                    let j = choose|j: int| 0 <= j < i && self.variables().take(i as int)[j] == name@;
                    assert(self.variables()[j] == name@);
                }
            }
            let ghost before = result@;
            result.insert(name, reg);
            proof {
                let t0 = self.variables().take(i as int);
                let t1 = self.variables().take(i + 1);
                assert(t1 =~= t0.push(self.variables()[i as int]));
                assert forall|k: Seq<char>| result@.contains_key(k) == t1.contains(k) by {
                    if t1.contains(k) {
                        let j = choose|j: int| 0 <= j < t1.len() && t1[j] == k;
                        if j < i { assert(t0[j] == k); }
                    }
                    if t0.contains(k) {
                        let j = choose|j: int| 0 <= j < t0.len() && t0[j] == k;
                        assert(t1[j] == k);
                    }
                    assert(t1[i as int] == name@);
                }
            }
            i = i + 1;
        }
        proof {
            assert(self.variables().take(self.variables().len() as int) =~= self.variables());
            crate::name_map::lemma_names_dom(&self.lifetimes);
            assert(result@.dom() =~= self.lifetimes().dom());
        }
        result
    }
}

/// A combination of the passes.
pub struct CodegenOptimizer {
    peephole: PeepholeOptimizer,
    regalloc: LinearScanAllocator,
}

impl CodegenOptimizer {
    /// The peephole pass and the register allocator it runs with.
    pub closed spec fn passes(&self) -> (PeepholeOptimizer, LinearScanAllocator) {
        (self.peephole, self.regalloc)
    }

    /// Fresh passes: a peephole pass with no history and an allocator with
    /// no lifetimes.
    pub fn new() -> (o: Self)
        ensures
            o.passes().0.previous() is None,
            o.passes().1.lifetimes() == Map::<Seq<char>, (usize, usize)>::empty(),
    {
        Self { peephole: PeepholeOptimizer::new(), regalloc: LinearScanAllocator::new() }
    }

    /// Runs the passes: the peephole pass over the instructions (the
    /// register allocator has no lifetimes to work on here).
    pub fn optimize(&mut self, instrs: &[u32]) -> (r: Vec<u32>)
        ensures
            r@ == peephole(instrs@),
            final(self).passes().1.lifetimes() == old(self).passes().1.lifetimes(),
    {
        self.peephole.optimize(instrs)
    }
}

} // verus!
