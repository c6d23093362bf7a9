//! Stack maps: where the collector finds pointers at each safepoint.

use vstd::prelude::*;
use crate::name_map::NameMap;
use crate::text::{concat, u64_to_text, decimal};

verus! {

/// A point in compiled code where the collector may stop the program.
#[derive(Debug, Clone)]
pub struct Safepoint {
    /// Byte offset in the compiled code.
    pub offset: usize,
    /// Registers holding pointers (bit `n` for `x<n>`).
    pub register_mask: u32,
    /// Frame-pointer offsets of the stack slots holding pointers.
    pub stack_slots: Vec<i32>,
}

/// The safepoints of one compiled function.
#[derive(Debug, Clone)]
pub struct StackMap {
    pub name: String,
    pub safepoints: Vec<Safepoint>,
    pub frame_size: usize,
}

/// The text of a serialized stack map.
pub open spec fn stack_map_text(name: Seq<char>, frame_size: nat) -> Seq<char> {
    "StackMap("@ + name + ",frame_size="@ + decimal(frame_size) + ")"@
}

impl StackMap {
    /// A stack map with no safepoints.
    pub fn new(name: &str, frame_size: usize) -> (m: Self)
        ensures
            m.name@ == name@,
            m.safepoints@.len() == 0,
            m.frame_size == frame_size,
    {
        Self { name: name.to_owned(), safepoints: Vec::new(), frame_size }
    }

    /// Adds a safepoint at the end.
    pub fn register_safepoint(&mut self, offset: usize, register_mask: u32, stack_slots: Vec<i32>)
        ensures
            final(self).name == old(self).name,
            final(self).frame_size == old(self).frame_size,
            final(self).safepoints@ == old(self).safepoints@.push(Safepoint { offset, register_mask, stack_slots }),
    {
        self.safepoints.push(Safepoint { offset, register_mask, stack_slots });
    }

    /// `StackMap(<name>,frame_size=<size>)`.
    pub fn serialize(&self) -> (s: String)
        ensures
            s@ == stack_map_text(self.name@, self.frame_size as nat),
    {
        let a = concat("StackMap(", self.name.as_str());
        let b = concat(a.as_str(), ",frame_size=");
        let n = u64_to_text(self.frame_size as u64);
        let c = concat(b.as_str(), n.as_str());
        concat(c.as_str(), ")")
    }
}

/// Which variables hold pointers.
pub struct GCMetadata {
    var_types: NameMap<bool>,
}

impl GCMetadata {
    /// Whether each marked variable holds a pointer.
    pub closed spec fn marks(&self) -> Map<Seq<char>, bool> {
        self.var_types@
    }

    /// No marks.
    pub fn new() -> (g: Self)
        ensures
            g.marks() == Map::<Seq<char>, bool>::empty(),
    {
        Self { var_types: NameMap::new() }
    }

    /// Marks `var` as holding a pointer.
    pub fn mark_pointer(&mut self, var: &str)
        ensures
            final(self).marks() == old(self).marks().insert(var@, true),
    {
        self.var_types.insert(var.to_owned(), true);
    }

    /// Marks `var` as holding a plain value.
    pub fn mark_value(&mut self, var: &str)
        ensures
            final(self).marks() == old(self).marks().insert(var@, false),
    {
        self.var_types.insert(var.to_owned(), false);
    }

    /// Whether `var` was last marked as a pointer (unmarked variables are not).
    pub fn is_pointer(&self, var: &str) -> (r: bool)
        ensures
            r == (self.marks().contains_key(var@) && self.marks()[var@]),
    {
        match self.var_types.get(var) {
            Some(b) => *b,
            None => false,
        }
    }
}

} // verus!
