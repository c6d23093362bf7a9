//! Hot-path tracking: execution counts of functions, blocks, loops and
//! variable accesses, and the optimisation decisions taken from them.

use vstd::prelude::*;
use crate::name_map::{NameMap, map_of, insert_entry};
use crate::counters::{IdCounts, count_of, has_id};

verus! {

/// A basic block.
#[derive(Debug, Clone, Copy, Hash, PartialEq, Eq, Structural)]
pub struct BlockId(pub usize);

/// A loop.
#[derive(Debug, Clone, Copy, Hash, PartialEq, Eq, Structural)]
pub struct LoopId(pub usize);

/// How often a variable was read and written, and when it was last touched.
#[derive(Debug, Clone, Copy)]
pub struct AccessPattern {
    pub read_count: u64,
    pub write_count: u64,
    pub last_access_time: u64,
    pub access_stride: Option<i32>,
}

/// What is hot.
#[derive(Debug, Clone)]
pub struct HotpathInfo {
    pub hot_functions: Vec<String>,
    pub hot_blocks: Vec<BlockId>,
    pub hot_loops: Vec<LoopId>,
    pub hot_variables: Vec<String>,
}

/// Summary counts.
#[derive(Debug, Clone)]
pub struct HotpathStats {
    pub total_functions: usize,
    pub total_blocks: usize,
    pub total_loops: usize,
    pub hot_functions: usize,
    pub hot_blocks: usize,
    pub hot_loops: usize,
}

/// The count stored for `k`, 0 when absent.
pub open spec fn count_in(m: Map<Seq<char>, u64>, k: Seq<char>) -> u64 {
    if m.contains_key(k) { m[k] } else { 0 }
}

/// The names whose count reaches `threshold`, in entry order.
pub open spec fn names_at_least(pairs: Seq<(Seq<char>, u64)>, threshold: u64) -> Seq<Seq<char>>
    decreases pairs.len(),
{
    if pairs.len() == 0 {
        Seq::empty()
    } else {
        let rest = names_at_least(pairs.drop_last(), threshold);
        if pairs.last().1 >= threshold { rest.push(pairs.last().0) } else { rest }
    }
}

/// The ids whose count reaches `threshold`, in entry order.
pub open spec fn ids_at_least(entries: Seq<(usize, u64)>, threshold: u64) -> Seq<usize>
    decreases entries.len(),
{
    if entries.len() == 0 {
        Seq::empty()
    } else {
        let rest = ids_at_least(entries.drop_last(), threshold);
        if entries.last().1 >= threshold { rest.push(entries.last().0) } else { rest }
    }
}

/// The variables whose reads and writes together reach `threshold`, in entry order.
pub open spec fn vars_at_least(pairs: Seq<(Seq<char>, AccessPattern)>, threshold: u64) -> Seq<Seq<char>>
    decreases pairs.len(),
{
    if pairs.len() == 0 {
        Seq::empty()
    } else {
        let rest = vars_at_least(pairs.drop_last(), threshold);
        if pairs.last().1.read_count + pairs.last().1.write_count >= threshold {
            rest.push(pairs.last().0)
        } else {
            rest
        }
    }
}

/// Execution counters with hotness thresholds.
#[derive(Debug)]
pub struct HotpathTracker {
    function_counts: NameMap<u64>,
    block_counts: IdCounts,
    loop_counts: IdCounts,
    var_access: NameMap<AccessPattern>,
    hot_function_threshold: u64,
    hot_block_threshold: u64,
    hot_loop_threshold: u64,
}

impl HotpathTracker {
    /// Calls per function name, in first-call order.
    pub closed spec fn functions(&self) -> Seq<(Seq<char>, u64)> {
        self.function_counts.pairs()
    }

    /// Calls per function name.
    pub closed spec fn function_map(&self) -> Map<Seq<char>, u64> {
        self.function_counts@
    }

    /// Executions per block id, in first-seen order.
    pub closed spec fn blocks(&self) -> Seq<(usize, u64)> {
        self.block_counts.entries()
    }

    /// Iterations per loop id, in first-seen order.
    pub closed spec fn loops(&self) -> Seq<(usize, u64)> {
        self.loop_counts.entries()
    }

    /// Access patterns per variable, in first-access order.
    pub closed spec fn vars(&self) -> Seq<(Seq<char>, AccessPattern)> {
        self.var_access.pairs()
    }

    /// Access patterns per variable.
    pub closed spec fn var_map(&self) -> Map<Seq<char>, AccessPattern> {
        self.var_access@
    }

    /// The (function, block, loop) thresholds.
    pub closed spec fn thresholds(&self) -> (u64, u64, u64) {
        (self.hot_function_threshold, self.hot_block_threshold, self.hot_loop_threshold)
    }

    /// Reads and writes of every variable add up within `u64`.
    pub open spec fn wf(&self) -> bool {
        forall|k: Seq<char>| #[trigger] self.var_map().contains_key(k) ==> self.var_map()[k].read_count
            + self.var_map()[k].write_count <= u64::MAX
    }

    /// A tracker with no counts and the given thresholds.
    pub fn new(hot_function_threshold: u64, hot_block_threshold: u64, hot_loop_threshold: u64) -> (t: Self)
        ensures
            t.wf(),
            t.functions() == Seq::<(Seq<char>, u64)>::empty(),
            t.function_map() == Map::<Seq<char>, u64>::empty(),
            t.blocks() == Seq::<(usize, u64)>::empty(),
            t.loops() == Seq::<(usize, u64)>::empty(),
            t.vars() == Seq::<(Seq<char>, AccessPattern)>::empty(),
            t.var_map() == Map::<Seq<char>, AccessPattern>::empty(),
            t.thresholds() == (hot_function_threshold, hot_block_threshold, hot_loop_threshold),
    {
        Self {
            function_counts: NameMap::new(),
            block_counts: IdCounts::new(),
            loop_counts: IdCounts::new(),
            var_access: NameMap::new(),
            hot_function_threshold,
            hot_block_threshold,
            hot_loop_threshold,
        }
    }

    /// A tracker with thresholds 100 (functions), 1000 (blocks), 10000 (loops).
    pub fn with_defaults() -> (t: Self)
        ensures
            t.wf(),
            t.functions() == Seq::<(Seq<char>, u64)>::empty(),
            t.function_map() == Map::<Seq<char>, u64>::empty(),
            t.blocks() == Seq::<(usize, u64)>::empty(),
            t.loops() == Seq::<(usize, u64)>::empty(),
            t.vars() == Seq::<(Seq<char>, AccessPattern)>::empty(),
            t.var_map() == Map::<Seq<char>, AccessPattern>::empty(),
            t.thresholds() == (100u64, 1000u64, 10000u64),
    {
        Self::new(100, 1000, 10000)
    }

    /// Counts one call of `name`.
    pub fn record_function_call(&mut self, name: &str)
        requires
            count_in(old(self).function_map(), name@) < u64::MAX,
        ensures
            final(self).function_map() == old(self).function_map().insert(name@, (count_in(old(self).function_map(), name@) + 1) as u64),
            final(self).functions() == insert_entry(old(self).functions(), name@, (count_in(old(self).function_map(), name@) + 1) as u64),
            final(self).blocks() == old(self).blocks(),
            final(self).loops() == old(self).loops(),
            final(self).vars() == old(self).vars(),
            final(self).var_map() == old(self).var_map(),
            final(self).thresholds() == old(self).thresholds(),
    {
        let c: u64 = match self.function_counts.get(name) {
            Some(v) => *v,
            None => 0,
        };
        self.function_counts.insert(name.to_owned(), c + 1);
    }

    /// Counts one execution of a block.
    pub fn record_block_execution(&mut self, block_id: BlockId)
        requires
            count_of(old(self).blocks(), block_id.0) < u64::MAX,
        ensures
            forall|k: usize| #[trigger] count_of(final(self).blocks(), k) == if k == block_id.0 {
                (count_of(old(self).blocks(), k) + 1) as u64
            } else {
                count_of(old(self).blocks(), k)
            },
            forall|k: usize| #[trigger] has_id(final(self).blocks(), k) == (has_id(old(self).blocks(), k) || k == block_id.0),
            final(self).function_map() == old(self).function_map(),
            final(self).functions() == old(self).functions(),
            final(self).loops() == old(self).loops(),
            final(self).vars() == old(self).vars(),
            final(self).var_map() == old(self).var_map(),
            final(self).thresholds() == old(self).thresholds(),
    {
        self.block_counts.increment(block_id.0);
    }

    /// Counts one iteration of a loop.
    pub fn record_loop_iteration(&mut self, loop_id: LoopId)
        requires
            count_of(old(self).loops(), loop_id.0) < u64::MAX,
        ensures
            forall|k: usize| #[trigger] count_of(final(self).loops(), k) == if k == loop_id.0 {
                (count_of(old(self).loops(), k) + 1) as u64
            } else {
                count_of(old(self).loops(), k)
            },
            forall|k: usize| #[trigger] has_id(final(self).loops(), k) == (has_id(old(self).loops(), k) || k == loop_id.0),
            final(self).function_map() == old(self).function_map(),
            final(self).functions() == old(self).functions(),
            final(self).blocks() == old(self).blocks(),
            final(self).vars() == old(self).vars(),
            final(self).var_map() == old(self).var_map(),
            final(self).thresholds() == old(self).thresholds(),
    {
        self.loop_counts.increment(loop_id.0);
    }

    /// The access pattern of `var`, or a fresh one.
    fn pattern_of(&self, var: &str) -> (r: (Option<usize>, AccessPattern))
        ensures
            match r.0 {
                Some(i) => i < self.vars().len() && self.vars()[i as int].0 == var@ && self.var_map().contains_key(var@)
                    && r.1 == self.var_map()[var@],
                None => !self.var_map().contains_key(var@)
                    && r.1 == AccessPattern { read_count: 0, write_count: 0, last_access_time: 0, access_stride: None },
            },
    {
        match self.var_access.position(var) {
            Some(i) => (Some(i), *self.var_access.value_at(i)),
            None => (None, AccessPattern { read_count: 0, write_count: 0, last_access_time: 0, access_stride: None }),
        }
    }

    fn store_pattern(&mut self, var: &str, slot: Option<usize>, p: AccessPattern)
        requires
            match slot {
                Some(i) => i < old(self).vars().len() && old(self).vars()[i as int].0 == var@,
                None => !old(self).var_map().contains_key(var@),
            },
        ensures
            final(self).var_map() == old(self).var_map().insert(var@, p),
            final(self).function_map() == old(self).function_map(),
            final(self).functions() == old(self).functions(),
            final(self).blocks() == old(self).blocks(),
            final(self).loops() == old(self).loops(),
            final(self).thresholds() == old(self).thresholds(),
    {
        match slot {
            Some(i) => self.var_access.set_at(i, p),
            None => self.var_access.push_new(var.to_owned(), p),
        }
    }

    /// Counts one read of `var` at time `time`.
    pub fn record_var_read(&mut self, var: &str, time: u64)
        requires
            old(self).wf(),
            old(self).var_map().contains_key(var@) ==> old(self).var_map()[var@].read_count + old(self).var_map()[var@].write_count < u64::MAX,
        ensures
            final(self).wf(),
            final(self).var_map() == old(self).var_map().insert(var@, if old(self).var_map().contains_key(var@) {
                AccessPattern {
                    read_count: (old(self).var_map()[var@].read_count + 1) as u64,
                    last_access_time: time,
                    ..old(self).var_map()[var@]
                }
            } else {
                AccessPattern { read_count: 1, write_count: 0, last_access_time: time, access_stride: None }
            }),
            final(self).function_map() == old(self).function_map(),
            final(self).functions() == old(self).functions(),
            final(self).blocks() == old(self).blocks(),
            final(self).loops() == old(self).loops(),
            final(self).thresholds() == old(self).thresholds(),
    {
        let (slot, mut p) = self.pattern_of(var);
        p.read_count = p.read_count + 1;
        p.last_access_time = time;
        self.store_pattern(var, slot, p);
    }

    /// Counts one write of `var` at time `time`.
    pub fn record_var_write(&mut self, var: &str, time: u64)
        requires
            old(self).wf(),
            old(self).var_map().contains_key(var@) ==> old(self).var_map()[var@].read_count + old(self).var_map()[var@].write_count < u64::MAX,
        ensures
            final(self).wf(),
            final(self).var_map() == old(self).var_map().insert(var@, if old(self).var_map().contains_key(var@) {
                AccessPattern {
                    write_count: (old(self).var_map()[var@].write_count + 1) as u64,
                    last_access_time: time,
                    ..old(self).var_map()[var@]
                }
            } else {
                AccessPattern { read_count: 0, write_count: 1, last_access_time: time, access_stride: None }
            }),
            final(self).function_map() == old(self).function_map(),
            final(self).functions() == old(self).functions(),
            final(self).blocks() == old(self).blocks(),
            final(self).loops() == old(self).loops(),
            final(self).thresholds() == old(self).thresholds(),
    {
        let (slot, mut p) = self.pattern_of(var);
        p.write_count = p.write_count + 1;
        p.last_access_time = time;
        self.store_pattern(var, slot, p);
    }

    fn hot_names(counts: &NameMap<u64>, threshold: u64) -> (r: Vec<String>)
        ensures
            r@.map_values(|s: String| s@) == names_at_least(counts.pairs(), threshold),
    {
        let mut out: Vec<String> = Vec::new();
        let mut i: usize = 0;
        while i < counts.len()
            invariant
                0 <= i <= counts.pairs().len(),
                out@.map_values(|s: String| s@) == names_at_least(counts.pairs().take(i as int), threshold),
            decreases counts.pairs().len() - i,
        {
            if *counts.value_at(i) >= threshold {
                out.push(counts.name_at(i).clone());
            }
            proof {
                assert(counts.pairs().take(i + 1).drop_last() =~= counts.pairs().take(i as int));
                assert(out@.map_values(|s: String| s@) =~= names_at_least(counts.pairs().take(i + 1), threshold));
            }
            i = i + 1;
        }
        assert(counts.pairs().take(counts.pairs().len() as int) =~= counts.pairs());
        out
    }

    fn hot_ids(counts: &IdCounts, threshold: u64) -> (r: Vec<usize>)
        ensures
            r@ == ids_at_least(counts.entries(), threshold),
    {
        let mut out: Vec<usize> = Vec::new();
        let mut i: usize = 0;
        while i < counts.len()
            invariant
                0 <= i <= counts.entries().len(),
                out@ == ids_at_least(counts.entries().take(i as int), threshold),
            decreases counts.entries().len() - i,
        {
            let (id, c) = counts.entry_at(i);
            if c >= threshold {
                out.push(id);
            }
            proof {
                assert(counts.entries().take(i + 1).drop_last() =~= counts.entries().take(i as int));
            }
            i = i + 1;
        }
        assert(counts.entries().take(counts.entries().len() as int) =~= counts.entries());
        out
    }

    fn hot_vars(&self) -> (r: Vec<String>)
        requires
            self.wf(),
        ensures
            r@.map_values(|s: String| s@) == vars_at_least(self.vars(), self.thresholds().0),
    {
        let mut out: Vec<String> = Vec::new();
        let mut i: usize = 0;
        while i < self.var_access.len()
            invariant
                0 <= i <= self.vars().len(),
                self.wf(),
                out@.map_values(|s: String| s@) == vars_at_least(self.vars().take(i as int), self.thresholds().0),
            decreases self.vars().len() - i,
        {
            let p = *self.var_access.value_at(i);
            if p.read_count + p.write_count >= self.hot_function_threshold {
                out.push(self.var_access.name_at(i).clone());
            }
            proof {
                assert(self.vars().take(i + 1).drop_last() =~= self.vars().take(i as int));
                assert(out@.map_values(|s: String| s@) =~= vars_at_least(self.vars().take(i + 1), self.thresholds().0));
            }
            i = i + 1;
        }
        assert(self.vars().take(self.vars().len() as int) =~= self.vars());
        out
    }

    /// The functions, blocks and loops that reached their thresholds, and
    /// the variables whose reads and writes reached the function threshold.
    pub fn get_hotpaths(&self) -> (r: HotpathInfo)
        requires
            self.wf(),
        ensures
            r.hot_functions@.map_values(|s: String| s@) == names_at_least(self.functions(), self.thresholds().0),
            r.hot_blocks@.map_values(|b: BlockId| b.0) == ids_at_least(self.blocks(), self.thresholds().1),
            r.hot_loops@.map_values(|l: LoopId| l.0) == ids_at_least(self.loops(), self.thresholds().2),
            r.hot_variables@.map_values(|s: String| s@) == vars_at_least(self.vars(), self.thresholds().0),
    {
        let hot_functions = Self::hot_names(&self.function_counts, self.hot_function_threshold);
        let block_ids = Self::hot_ids(&self.block_counts, self.hot_block_threshold);
        let loop_ids = Self::hot_ids(&self.loop_counts, self.hot_loop_threshold);
        let mut hot_blocks: Vec<BlockId> = Vec::new();
        let mut i: usize = 0;
        while i < block_ids.len()
            invariant
                0 <= i <= block_ids.len(),
                hot_blocks@.map_values(|b: BlockId| b.0) == block_ids@.take(i as int),
            decreases block_ids.len() - i,
        {
            let ghost prev = hot_blocks@;
            hot_blocks.push(BlockId(block_ids[i]));
            assert(hot_blocks@ == prev.push(BlockId(block_ids@[i as int])));
            assert(block_ids@.take(i + 1) =~= block_ids@.take(i as int).push(block_ids@[i as int]));
            assert(hot_blocks@.map_values(|b: BlockId| b.0) =~= block_ids@.take(i + 1));
            i = i + 1;
        }
        let mut hot_loops: Vec<LoopId> = Vec::new();
        let mut j: usize = 0;
        while j < loop_ids.len()
            invariant
                0 <= j <= loop_ids.len(),
                hot_loops@.map_values(|l: LoopId| l.0) == loop_ids@.take(j as int),
            decreases loop_ids.len() - j,
        {
            let ghost prev = hot_loops@;
            hot_loops.push(LoopId(loop_ids[j]));
            assert(hot_loops@ == prev.push(LoopId(loop_ids@[j as int])));
            assert(loop_ids@.take(j + 1) =~= loop_ids@.take(j as int).push(loop_ids@[j as int]));
            assert(hot_loops@.map_values(|l: LoopId| l.0) =~= loop_ids@.take(j + 1));
            j = j + 1;
        }
        assert(block_ids@.take(block_ids@.len() as int) =~= block_ids@);
        assert(loop_ids@.take(loop_ids@.len() as int) =~= loop_ids@);
        let hot_variables = self.hot_vars();
        HotpathInfo { hot_functions, hot_blocks, hot_loops, hot_variables }
    }

    /// Whether `name` was called at least as often as the function threshold.
    pub fn should_optimize_function(&self, name: &str) -> (r: bool)
        ensures
            r == (self.function_map().contains_key(name@) && self.function_map()[name@] >= self.thresholds().0),
    {
        match self.function_counts.get(name) {
            Some(c) => *c >= self.hot_function_threshold,
            None => false,
        }
    }

    /// Whether `var` was read and written together at least as often as the
    /// block threshold.
    pub fn should_pin_to_register(&self, var: &str) -> (r: bool)
        requires
            self.wf(),
        ensures
            r == (self.var_map().contains_key(var@) && self.var_map()[var@].read_count
                + self.var_map()[var@].write_count >= self.thresholds().1),
    {
        match self.var_access.get(var) {
            Some(p) => p.read_count + p.write_count >= self.hot_block_threshold,
            None => false,
        }
    }

    /// Forgets every count; the thresholds stay.
    pub fn reset(&mut self)
        ensures
            final(self).wf(),
            final(self).functions() == Seq::<(Seq<char>, u64)>::empty(),
            final(self).function_map() == Map::<Seq<char>, u64>::empty(),
            final(self).blocks() == Seq::<(usize, u64)>::empty(),
            final(self).loops() == Seq::<(usize, u64)>::empty(),
            final(self).vars() == Seq::<(Seq<char>, AccessPattern)>::empty(),
            final(self).var_map() == Map::<Seq<char>, AccessPattern>::empty(),
            final(self).thresholds() == old(self).thresholds(),
    {
        self.function_counts.clear();
        self.block_counts.clear();
        self.loop_counts.clear();
        self.var_access.clear();
    }

    /// How many functions, blocks and loops were seen, and how many are hot.
    pub fn stats(&self) -> (r: HotpathStats)
        requires
            self.wf(),
        ensures
            r.total_functions == self.functions().len(),
            r.total_blocks == self.blocks().len(),
            r.total_loops == self.loops().len(),
            r.hot_functions == names_at_least(self.functions(), self.thresholds().0).len(),
            r.hot_blocks == ids_at_least(self.blocks(), self.thresholds().1).len(),
            r.hot_loops == ids_at_least(self.loops(), self.thresholds().2).len(),
    {
        let info = self.get_hotpaths();
        HotpathStats {
            total_functions: self.function_counts.len(),
            total_blocks: self.block_counts.len(),
            total_loops: self.loop_counts.len(),
            hot_functions: info.hot_functions.len(),
            hot_blocks: info.hot_blocks.len(),
            hot_loops: info.hot_loops.len(),
        }
    }

    /// The calls counted for `name`, if any.
    fn call_count(&self, name: &str) -> (r: Option<u64>)
        ensures
            r == if self.function_map().contains_key(name@) { Some(self.function_map()[name@]) } else { None::<u64> },
    {
        match self.function_counts.get(name) {
            Some(c) => Some(*c),
            None => None,
        }
    }
}

/// Optimisation decisions taken from a tracker.
pub struct HotpathOptimizer {
    tracker: HotpathTracker,
}

/// The names of `hot` whose call count reaches `twice`, in order.
pub open spec fn inline_picks(hot: Seq<Seq<char>>, counts: Map<Seq<char>, u64>, twice: int) -> Seq<Seq<char>>
    decreases hot.len(),
{
    if hot.len() == 0 {
        Seq::empty()
    } else {
        let rest = inline_picks(hot.drop_last(), counts, twice);
        if counts.contains_key(hot.last()) && counts[hot.last()] >= twice { rest.push(hot.last()) } else { rest }
    }
}

impl HotpathOptimizer {
    /// The tracker the decisions come from.
    pub closed spec fn tracker(&self) -> HotpathTracker {
        self.tracker
    }

    /// An optimizer over `tracker`.
    pub fn new(tracker: HotpathTracker) -> (o: Self)
        ensures
            o.tracker() == tracker,
    {
        Self { tracker }
    }

    /// For each variable, in order, whether it should stay in a register.
    pub fn optimize_register_allocation(&self, variables: &[String]) -> (r: Vec<(String, bool)>)
        requires
            self.tracker().wf(),
        ensures
            r@.len() == variables@.len(),
            forall|i: int| 0 <= i < variables@.len() ==> #[trigger] r@[i].0@ == variables@[i]@ && r@[i].1 == (
                self.tracker().var_map().contains_key(variables@[i]@) && self.tracker().var_map()[variables@[i]@].read_count
                    + self.tracker().var_map()[variables@[i]@].write_count >= self.tracker().thresholds().1),
    {
        let mut out: Vec<(String, bool)> = Vec::new();
        let mut i: usize = 0;
        while i < variables.len()
            invariant
                0 <= i <= variables.len(),
                self.tracker().wf(),
                out@.len() == i,
                forall|j: int| #![trigger out@[j]] 0 <= j < i ==> out@[j].0@ == variables@[j]@ && out@[j].1 == (
                    self.tracker().var_map().contains_key(variables@[j]@) && self.tracker().var_map()[variables@[j]@].read_count
                        + self.tracker().var_map()[variables@[j]@].write_count >= self.tracker().thresholds().1),
            decreases variables.len() - i,
        {
            let pin = self.tracker.should_pin_to_register(variables[i].as_str());
            let ghost prev = out@;
            let name = variables[i].clone();
            out.push((name, pin));
            assert(out@ == prev.push((name, pin)));
            assert(out@[i as int].0@ == variables@[i as int]@);
            assert(out@[i as int].1 == (self.tracker().var_map().contains_key(variables@[i as int]@) && self.tracker().var_map()[variables@[i as int]@].read_count
                        + self.tracker().var_map()[variables@[i as int]@].write_count >= self.tracker().thresholds().1));
            assert(forall|j: int| 0 <= j < i ==> out@[j] == prev[j]);
            i = i + 1;
        }
        out
    }

    /// The hot functions called at least twice the function threshold, in
    /// the order of `get_hotpaths`.
    pub fn suggest_inline_candidates(&self) -> (r: Vec<String>)
        requires
            self.tracker().wf(),
            names_at_least(self.tracker().functions(), self.tracker().thresholds().0).len() > 0
                ==> 2 * self.tracker().thresholds().0 <= u64::MAX,
        ensures
            r@.map_values(|s: String| s@) == inline_picks(
                names_at_least(self.tracker().functions(), self.tracker().thresholds().0),
                self.tracker().function_map(),
                2 * self.tracker().thresholds().0,
            ),
    {
        let hot = self.tracker.get_hotpaths().hot_functions;
        let ghost hs = hot@.map_values(|s: String| s@);
        let mut out: Vec<String> = Vec::new();
        let mut i: usize = 0;
        while i < hot.len()
            invariant
                0 <= i <= hot.len(),
                hs == hot@.map_values(|s: String| s@),
                hs == names_at_least(self.tracker().functions(), self.tracker().thresholds().0),
                hot.len() > 0 ==> 2 * self.tracker().thresholds().0 <= u64::MAX,
                out@.map_values(|s: String| s@) == inline_picks(hs.take(i as int), self.tracker().function_map(), 2 * self.tracker().thresholds().0),
            decreases hot.len() - i,
        {
            let keep = match self.tracker.call_count(hot[i].as_str()) {
                Some(c) => c >= self.tracker.hot_function_threshold * 2,
                None => false,
            };
            if keep {
                out.push(hot[i].clone());
            }
            proof {
                assert(hs.take(i + 1).drop_last() =~= hs.take(i as int));
                assert(hs.take(i + 1).last() == hot@[i as int]@);
                assert(out@.map_values(|s: String| s@) =~= inline_picks(hs.take(i + 1), self.tracker().function_map(), 2 * self.tracker().thresholds().0));
            }
            i = i + 1;
        }
        assert(hs.take(hs.len() as int) =~= hs);
        out
    }

    /// Whether a loop is hot and has a known trip count of at most 8.
    pub fn should_unroll_loop(&self, loop_id: LoopId, trip_count: Option<usize>) -> (r: bool)
        ensures
            r == (has_id(self.tracker().loops(), loop_id.0) && count_of(self.tracker().loops(), loop_id.0)
                >= self.tracker().thresholds().2 && (match trip_count {
                Some(c) => c <= 8,
                None => false,
            })),
    {
        let is_hot = match self.tracker.loop_counts.get(loop_id.0) {
            Some(c) => c >= self.tracker.hot_loop_threshold,
            None => false,
        };
        is_hot && match trip_count {
            Some(c) => c <= 8,
            None => false,
        }
    }
}


/// Counting one more call: the called function's count goes up by one, no
/// other count changes, and no function that was hot stops being hot.
pub proof fn law_calls_only_heat(before: HotpathTracker, after: HotpathTracker, name: Seq<char>)
    requires
        count_in(before.function_map(), name) < u64::MAX,
        after.function_map() == before.function_map().insert(name, (count_in(before.function_map(), name) + 1) as u64),
        after.thresholds() == before.thresholds(),
    ensures
        count_in(after.function_map(), name) == count_in(before.function_map(), name) + 1,
        forall|n: Seq<char>| n != name ==> #[trigger] count_in(after.function_map(), n) == count_in(before.function_map(), n),
        forall|n: Seq<char>| #[trigger] count_in(before.function_map(), n) >= before.thresholds().0 ==> count_in(after.function_map(), n)
            >= after.thresholds().0,
{
}

} // verus!
