//! Branch encoders and the label manager that patches branch targets.

use vstd::prelude::*;
use crate::encoder::{Reg, reg_num, is_wide, pick, reg3_word, build_reg3_word, spec_bl, encode_bl};
use crate::name_map::NameMap;
use crate::text::concat;

verus! {

/// `B` with a word offset in the low 26 bits.
pub open spec fn spec_b(offset: i32) -> u32 {
    0x14000000u32 | ((offset & 0x3FFFFFFi32) as u32)
}

/// A conditional branch `B.cond` to a byte offset: the word offset in
/// bits 5..24 and the condition in bits 0..4.
pub open spec fn spec_b_cond(cond: u32, offset: i32) -> u32 {
    (0x54000000u32 | cond) | ((((offset >> 2i32) & 0x7FFFFi32) as u32) << 5u32)
}

/// `CMP Rn, Rm`, that is `SUBS XZR, Rn, Rm`.
pub open spec fn spec_cmp_reg(rn: Reg, rm: Reg) -> u32 {
    reg3_word(pick(is_wide(rn), 0xEB000000, 0x6B000000), reg_num(rm), reg_num(rn), 31)
}

/// Encodes `B` with a word offset.
pub fn encode_b(offset: i32) -> (r: u32)
    ensures
        r == spec_b(offset),
{
    let imm26 = (offset & 0x3FFFFFFi32) as u32;
    0x14000000u32 | imm26
}

fn encode_b_cond(cond: u32, offset: i32) -> (r: u32)
    ensures
        r == spec_b_cond(cond, offset),
{
    let imm19 = ((offset >> 2i32) & 0x7FFFFi32) as u32;
    (0x54000000u32 | cond) | (imm19 << 5u32)
}

/// Encodes `B.NE` to a byte offset.
pub fn encode_b_ne(offset: i32) -> (r: u32)
    ensures
        r == spec_b_cond(1, offset),
{
    encode_b_cond(1, offset)
}

/// Encodes `B.EQ` to a byte offset.
pub fn encode_b_eq(offset: i32) -> (r: u32)
    ensures
        r == spec_b_cond(0, offset),
{
    encode_b_cond(0, offset)
}

/// Encodes `B.LT` to a byte offset.
pub fn encode_b_lt(offset: i32) -> (r: u32)
    ensures
        r == spec_b_cond(0xB, offset),
{
    encode_b_cond(0xB, offset)
}

/// Encodes `B.GT` to a byte offset.
pub fn encode_b_gt(offset: i32) -> (r: u32)
    ensures
        r == spec_b_cond(0xC, offset),
{
    encode_b_cond(0xC, offset)
}

/// Encodes `CMP Rn, Rm`.
pub fn encode_cmp_reg(rn: Reg, rm: Reg) -> (r: u32)
    ensures
        r == spec_cmp_reg(rn, rm),
{
    let base: u32 = match rn {
        Reg::W(_) => 0x6B000000,
        _ => 0xEB000000,
    };
    build_reg3_word(base, rm.encode(), rn.encode(), 31)
}

/// The kind of branch recorded at an offset, waiting for its label.
#[derive(Debug, Clone, Copy)]
pub enum BranchKind {
    B,
    BNe,
    BEq,
    BLt,
    BGt,
    BL,
}

/// Division by 4 rounded toward zero, as Rust's `/` on `i32` does.
pub open spec fn quarter(x: int) -> int {
    if x >= 0 { x / 4 } else { -((-x) / 4) }
}

/// The instruction word of a branch of `kind` that jumps `rel` bytes forward.
pub open spec fn branch_word(kind: BranchKind, rel: i32) -> u32 {
    match kind {
        BranchKind::B => spec_b(quarter(rel as int) as i32),
        BranchKind::BNe => spec_b_cond(1, rel),
        BranchKind::BEq => spec_b_cond(0, rel),
        BranchKind::BLt => spec_b_cond(0xB, rel),
        BranchKind::BGt => spec_b_cond(0xC, rel),
        BranchKind::BL => spec_bl(rel),
    }
}

/// Byte `k` (0 = least significant) of a 32-bit word.
pub open spec fn word_byte(w: u32, k: int) -> u8 {
    ((w >> (8 * k) as u32) & 0xFFu32) as u8
}

/// The four little-endian bytes of a 32-bit word.
pub open spec fn le_bytes(w: u32) -> Seq<u8> {
    seq![word_byte(w, 0), word_byte(w, 1), word_byte(w, 2), word_byte(w, 3)]
}

/// `code` with the little-endian bytes of `w` written at `at`.
pub open spec fn put_word(code: Seq<u8>, at: int, w: u32) -> Seq<u8> {
    code.update(at, word_byte(w, 0)).update(at + 1, word_byte(w, 1)).update(at + 2, word_byte(w, 2)).update(
        at + 3,
        word_byte(w, 3),
    )
}

/// The distance in bytes from a branch at `at` to a label at `target`,
/// each taken as a 32-bit signed offset (the upper bits dropped).
pub open spec fn rel_bytes(target: usize, at: usize) -> int {
    (target as i32) as int - (at as i32) as int
}

/// A recorded branch: its offset in the code, the label it targets, its kind.
pub type PendingBranch = (usize, Seq<char>, BranchKind);

/// The code after patching the first `n` recorded branches, whose labels
/// must all be defined.
pub open spec fn patch_prefix(
    code: Seq<u8>,
    labels: Map<Seq<char>, usize>,
    pending: Seq<PendingBranch>,
    n: int,
) -> Seq<u8>
    decreases n,
{
    if n <= 0 {
        code
    } else {
        let (at, label, kind) = pending[n - 1];
        let rel = rel_bytes(labels[label], at);
        put_word(patch_prefix(code, labels, pending, n - 1), at as int, branch_word(kind, rel as i32))
    }
}

/// The index of the first recorded branch whose label is not defined, or
/// the number of branches when every label is defined.
pub open spec fn first_undefined(labels: Map<Seq<char>, usize>, pending: Seq<PendingBranch>) -> int {
    if exists|i: int| 0 <= i < pending.len() && !labels.contains_key(#[trigger] pending[i].1) {
        choose|i: int|
            0 <= i < pending.len() && !labels.contains_key(#[trigger] pending[i].1) && forall|j: int|
                0 <= j < i ==> labels.contains_key(#[trigger] pending[j].1)
    } else {
        pending.len() as int
    }
}

/// Label positions and the branches waiting for them.
pub struct LabelManager {
    labels: NameMap<usize>,
    pending: Vec<(usize, String, BranchKind)>,
}

/// The view of a stored branch.
pub open spec fn pending_view(p: (usize, String, BranchKind)) -> PendingBranch {
    (p.0, p.1@, p.2)
}

impl LabelManager {
    /// The defined labels and their byte offsets.
    pub closed spec fn label_map(&self) -> Map<Seq<char>, usize> {
        self.labels@
    }

    /// The recorded branches, in the order they were recorded.
    pub closed spec fn branches(&self) -> Seq<PendingBranch> {
        self.pending@.map_values(|p: (usize, String, BranchKind)| pending_view(p))
    }

    /// A manager with no labels and no branches.
    pub fn new() -> (m: Self)
        ensures
            m.label_map() == Map::<Seq<char>, usize>::empty(),
            m.branches() == Seq::<PendingBranch>::empty(),
    {
        let m = Self { labels: NameMap::new(), pending: Vec::new() };
        assert(m.branches() =~= Seq::<PendingBranch>::empty());
        m
    }

    /// Defines (or moves) the label `name` at byte offset `offset`.
    pub fn define_label(&mut self, name: &str, offset: usize)
        ensures
            final(self).label_map() == old(self).label_map().insert(name@, offset),
            final(self).branches() == old(self).branches(),
    {
        self.labels.insert(name.to_owned(), offset);
    }

    /// The offset of the label `name`, if it is defined.
    pub fn label_offset(&self, name: &str) -> (r: Option<usize>)
        ensures
            match r {
                Some(o) => self.label_map().contains_key(name@) && o == self.label_map()[name@],
                None => !self.label_map().contains_key(name@),
            },
    {
        match self.labels.get(name) {
            Some(o) => Some(*o),
            None => None,
        }
    }

    /// Records a branch of `kind` at byte offset `offset` that targets `label`.
    pub fn record_branch(&mut self, offset: usize, label: &str, kind: BranchKind)
        ensures
            final(self).label_map() == old(self).label_map(),
            final(self).branches() == old(self).branches().push((offset, label@, kind)),
    {
        let ghost before = self.branches();
        self.pending.push((offset, label.to_owned(), kind));
        assert(self.branches() =~= before.push((offset, label@, kind)));
    }

    /// Writes the instruction of every recorded branch into `code`, in the
    /// order they were recorded. At the first branch whose label is not
    /// defined it stops with `Undefined label: <name>`; the branches before
    /// it stay patched.
    pub fn patch_branches(&self, code: &mut [u8]) -> (r: Result<(), String>)
        requires
            forall|i: int| 0 <= i < first_undefined(self.label_map(), self.branches()) ==> {
                &&& #[trigger] self.branches()[i].0 + 4 <= old(code)@.len()
                &&& i32::MIN <= rel_bytes(self.label_map()[self.branches()[i].1], self.branches()[i].0) <= i32::MAX
            },
        ensures
            final(code)@ == patch_prefix(old(code)@, self.label_map(), self.branches(), first_undefined(self.label_map(), self.branches())),
            match r {
                Ok(()) => first_undefined(self.label_map(), self.branches()) == self.branches().len(),
                Err(msg) => first_undefined(self.label_map(), self.branches()) < self.branches().len()
                    && msg@ == "Undefined label: "@ + self.branches()[first_undefined(self.label_map(), self.branches())].1,
            },
    {
        let ghost labels = self.label_map();
        let ghost pending = self.branches();
        let mut i: usize = 0;
        while i < self.pending.len()
            invariant
                0 <= i <= self.pending.len(),
                pending == self.branches(),
                labels == self.label_map(),
                code@.len() == old(code)@.len(),
                forall|j: int| 0 <= j < i ==> labels.contains_key(#[trigger] pending[j].1),
                code@ == patch_prefix(old(code)@, labels, pending, i as int),
                forall|j: int| 0 <= j < first_undefined(labels, pending) ==> {
                    &&& #[trigger] pending[j].0 + 4 <= old(code)@.len()
                    &&& i32::MIN <= rel_bytes(labels[pending[j].1], pending[j].0) <= i32::MAX
                },
            decreases self.pending.len() - i,
        {
            let at = self.pending[i].0;
            let kind = self.pending[i].2;
            assert(pending[i as int] == pending_view(self.pending@[i as int]));
            assert(at == pending[i as int].0);
            assert(kind == pending[i as int].2);
            match self.label_offset(self.pending[i].1.as_str()) {
                None => {
                    proof {
                        assert(!labels.contains_key(pending[i as int].1));
                        lemma_first_undefined_is(labels, pending, i as int);
                    }
                    let msg = concat("Undefined label: ", self.pending[i].1.as_str());
                    return Err(msg);
                },
                Some(target) => {
                    assert(target == labels[pending[i as int].1]);
                    proof { lemma_first_undefined_after(labels, pending, i as int); }
                    assert(at + 4 <= old(code)@.len());
                    let rel: i32 = (target as i32) - (at as i32);
                    let word = patch_word(kind, rel);
                    write_word(code, at, word);
                    assert(code@ == patch_prefix(old(code)@, labels, pending, i + 1));
                    i = i + 1;
                },
            }
        }
        proof {
            lemma_first_undefined_none(labels, pending);
        }
        Ok(())
    }
}

/// The instruction word of a branch, computed.
fn patch_word(kind: BranchKind, rel: i32) -> (r: u32)
    ensures
        r == branch_word(kind, rel),
{
    match kind {
        BranchKind::B => {
            let wide: i64 = rel as i64;
            let q64: i64 = if wide >= 0 { wide / 4 } else { -((-wide) / 4) };
            encode_b(q64 as i32)
        },
        BranchKind::BNe => encode_b_ne(rel),
        BranchKind::BEq => encode_b_eq(rel),
        BranchKind::BLt => encode_b_lt(rel),
        BranchKind::BGt => encode_b_gt(rel),
        BranchKind::BL => encode_bl(rel),
    }
}

/// Writes the little-endian bytes of `w` at `at`.
fn write_word(code: &mut [u8], at: usize, w: u32)
    requires
        at + 4 <= old(code)@.len(),
    ensures
        final(code)@ == put_word(old(code)@, at as int, w),
{
    code[at] = (w & 0xFFu32) as u8;
    code[at + 1] = ((w >> 8u32) & 0xFFu32) as u8;
    code[at + 2] = ((w >> 16u32) & 0xFFu32) as u8;
    code[at + 3] = ((w >> 24u32) & 0xFFu32) as u8;
    assert(w >> 0u32 == w) by (bit_vector);
}

proof fn lemma_first_undefined_is(labels: Map<Seq<char>, usize>, pending: Seq<PendingBranch>, i: int)
    requires
        0 <= i < pending.len(),
        !labels.contains_key(pending[i].1),
        forall|j: int| 0 <= j < i ==> labels.contains_key(#[trigger] pending[j].1),
    ensures
        first_undefined(labels, pending) == i,
{
    assert(exists|i: int| 0 <= i < pending.len() && !labels.contains_key(#[trigger] pending[i].1));
    let c = first_undefined(labels, pending);
    assert(0 <= c < pending.len() && !labels.contains_key(pending[c].1) && forall|j: int|
                0 <= j < c ==> labels.contains_key(#[trigger] pending[j].1));
    if c < i {
        assert(labels.contains_key(pending[c].1));
    }
    if i < c {
        assert(labels.contains_key(pending[i].1));
    }
}

/// Below an undefined branch there is a first one.
proof fn lemma_least_undefined(labels: Map<Seq<char>, usize>, pending: Seq<PendingBranch>, k: int)
    requires
        0 <= k < pending.len(),
        !labels.contains_key(pending[k].1),
    ensures
        exists|m: int|
            0 <= m < pending.len() && !labels.contains_key(#[trigger] pending[m].1) && forall|j: int|
                0 <= j < m ==> labels.contains_key(#[trigger] pending[j].1),
    decreases k,
{
    if exists|j: int| 0 <= j < k && !labels.contains_key(#[trigger] pending[j].1) {
        let j = choose|j: int| 0 <= j < k && !labels.contains_key(#[trigger] pending[j].1);
        lemma_least_undefined(labels, pending, j);
    } else {
        assert(forall|j: int| 0 <= j < k ==> labels.contains_key(#[trigger] pending[j].1));
    }
}

proof fn lemma_first_undefined_after(labels: Map<Seq<char>, usize>, pending: Seq<PendingBranch>, i: int)
    requires
        0 <= i < pending.len(),
        forall|j: int| 0 <= j <= i ==> labels.contains_key(#[trigger] pending[j].1),
    ensures
        first_undefined(labels, pending) > i,
{
    if exists|k: int| 0 <= k < pending.len() && !labels.contains_key(#[trigger] pending[k].1) {
        let k = choose|k: int| 0 <= k < pending.len() && !labels.contains_key(#[trigger] pending[k].1);
        lemma_least_undefined(labels, pending, k);
        let c = first_undefined(labels, pending);
        assert(0 <= c < pending.len() && !labels.contains_key(pending[c].1));
        if c <= i {
            assert(labels.contains_key(pending[c].1));
        }
    }
}

/// The first undefined branch is one of the branches (or their number),
/// and every branch before it has a defined label.
pub proof fn lemma_first_undefined_bound(labels: Map<Seq<char>, usize>, pending: Seq<PendingBranch>)
    ensures
        0 <= first_undefined(labels, pending) <= pending.len(),
        forall|j: int| 0 <= j < first_undefined(labels, pending) ==> labels.contains_key(#[trigger] pending[j].1),
{
    if exists|k: int| 0 <= k < pending.len() && !labels.contains_key(#[trigger] pending[k].1) {
        let k = choose|k: int| 0 <= k < pending.len() && !labels.contains_key(#[trigger] pending[k].1);
        lemma_least_undefined(labels, pending, k);
    }
}

proof fn lemma_first_undefined_none(labels: Map<Seq<char>, usize>, pending: Seq<PendingBranch>)
    requires
        forall|j: int| 0 <= j < pending.len() ==> labels.contains_key(#[trigger] pending[j].1),
    ensures
        first_undefined(labels, pending) == pending.len(),
{
}


/// Every recorded branch lies inside code of length `len`.
pub open spec fn branches_fit(pending: Seq<PendingBranch>, len: int) -> bool {
    forall|i: int| 0 <= i < pending.len() ==> #[trigger] pending[i].0 + 4 <= len
}

/// No two recorded branches share a byte.
pub open spec fn branches_apart(pending: Seq<PendingBranch>) -> bool {
    forall|i: int, j: int|
        0 <= i < pending.len() && 0 <= j < pending.len() && i != j ==> #[trigger] pending[i].0 + 4
            <= #[trigger] pending[j].0 || pending[j].0 + 4 <= pending[i].0
}

/// The instruction word that patching writes for a recorded branch.
pub open spec fn patched_word(labels: Map<Seq<char>, usize>, b: PendingBranch) -> u32 {
    branch_word(b.2, rel_bytes(labels[b.1], b.0) as i32)
}

/// Writing a word keeps the length, puts the word's bytes at `at`, and
/// leaves every other byte alone.
/// Patching branches that lie inside the code keeps its length.
pub proof fn lemma_patch_prefix_len(code: Seq<u8>, labels: Map<Seq<char>, usize>, pending: Seq<PendingBranch>, n: int)
    requires
        0 <= n <= pending.len(),
        forall|j: int| 0 <= j < n ==> #[trigger] pending[j].0 + 4 <= code.len(),
    ensures
        patch_prefix(code, labels, pending, n).len() == code.len(),
    decreases n,
{
    if n > 0 {
        lemma_patch_prefix_len(code, labels, pending, n - 1);
        let (at, label, kind) = pending[n - 1];
        let rel = rel_bytes(labels[label], at);
        lemma_put_word(patch_prefix(code, labels, pending, n - 1), at as int, branch_word(kind, rel as i32));
    }
}

proof fn lemma_put_word(code: Seq<u8>, at: int, w: u32)
    requires
        0 <= at,
        at + 4 <= code.len(),
    ensures
        put_word(code, at, w).len() == code.len(),
        put_word(code, at, w).subrange(at, at + 4) == le_bytes(w),
        forall|p: int| 0 <= p < code.len() && (p < at || p >= at + 4) ==> #[trigger] put_word(code, at, w)[p]
            == code[p],
{
    assert(put_word(code, at, w).subrange(at, at + 4) =~= le_bytes(w));
}

/// After patching the first `n` branches, each of them holds its word and
/// every byte outside them is as it was.
proof fn lemma_patch_prefix(code: Seq<u8>, labels: Map<Seq<char>, usize>, pending: Seq<PendingBranch>, n: int)
    requires
        branches_fit(pending, code.len() as int),
        branches_apart(pending),
        0 <= n <= pending.len(),
    ensures
        patch_prefix(code, labels, pending, n).len() == code.len(),
        forall|k: int| 0 <= k < n ==> (#[trigger] patch_prefix(code, labels, pending, n).subrange(
            pending[k].0 as int,
            pending[k].0 + 4,
        )) == le_bytes(patched_word(labels, pending[k])),
        forall|p: int|
            0 <= p < code.len() && (forall|k: int| 0 <= k < n ==> p < #[trigger] pending[k].0 || p >= pending[k].0 + 4)
                ==> #[trigger] patch_prefix(code, labels, pending, n)[p] == code[p],
    decreases n,
{
    if n > 0 {
        lemma_patch_prefix(code, labels, pending, n - 1);
        let prev = patch_prefix(code, labels, pending, n - 1);
        let b = pending[n - 1];
        let at = b.0 as int;
        assert(at + 4 <= code.len());
        lemma_put_word(prev, at, patched_word(labels, b));
        let out = patch_prefix(code, labels, pending, n);
        assert(out == put_word(prev, at, patched_word(labels, b)));
        assert forall|k: int| 0 <= k < n implies (#[trigger] out.subrange(pending[k].0 as int, pending[k].0 + 4))
            == le_bytes(patched_word(labels, pending[k])) by {
            if k < n - 1 {
                let a = pending[k].0 as int;
                assert(pending[k].0 + 4 <= pending[n - 1].0 || pending[n - 1].0 + 4 <= pending[k].0);
                assert(out.subrange(a, a + 4) =~= prev.subrange(a, a + 4)) by {
                    assert forall|q: int| a <= q < a + 4 implies #[trigger] out[q] == prev[q] by {
                        assert(q < at || q >= at + 4);
                    }
                }
            }
        }
        assert forall|p: int|
            0 <= p < code.len() && (forall|k: int| 0 <= k < n ==> p < #[trigger] pending[k].0 || p >= pending[k].0 + 4)
            implies #[trigger] out[p] == code[p] by {
            assert(p < pending[n - 1].0 || p >= pending[n - 1].0 + 4);
            assert(forall|k: int| 0 <= k < n - 1 ==> p < #[trigger] pending[k].0 || p >= pending[k].0 + 4);
        }
    }
}

/// Patching branches that lie apart inside the code: each branch's
/// instruction word ends up, little-endian, at its offset, the code keeps
/// its length, and every byte outside the branches is left as it was.
pub proof fn law_patch_places_each_branch(code: Seq<u8>, labels: Map<Seq<char>, usize>, pending: Seq<PendingBranch>)
    requires
        branches_fit(pending, code.len() as int),
        branches_apart(pending),
    ensures
        patch_prefix(code, labels, pending, pending.len() as int).len() == code.len(),
        forall|k: int| 0 <= k < pending.len() ==> (#[trigger] patch_prefix(code, labels, pending, pending.len() as int).subrange(
            pending[k].0 as int,
            pending[k].0 + 4,
        )) == le_bytes(patched_word(labels, pending[k])),
        forall|p: int|
            0 <= p < code.len() && (forall|k: int| 0 <= k < pending.len() ==> p < #[trigger] pending[k].0 || p >= pending[k].0 + 4)
                ==> #[trigger] patch_prefix(code, labels, pending, pending.len() as int)[p] == code[p],
{
    lemma_patch_prefix(code, labels, pending, pending.len() as int);
}

/// Defining a label: the label is at the given offset, and every other
/// label stays where it was.
pub proof fn law_define_then_offset(before: Map<Seq<char>, usize>, after: Map<Seq<char>, usize>, name: Seq<char>, offset: usize)
    requires
        after == before.insert(name, offset),
    ensures
        after.contains_key(name) && after[name] == offset,
        forall|other: Seq<char>| other != name ==> (#[trigger] after.contains_key(other) == before.contains_key(other))
            && (before.contains_key(other) ==> after[other] == before[other]),
{
}

/// A conditional branch word to a byte offset that is a multiple of 4
/// within ±1 MiB: opcode 0x54000000, bit 4 clear, the condition in bits
/// 0..4, and the 19-bit offset field, sign-extended and times 4, giving the
/// offset back.
proof fn lemma_b_cond_word(cond: u32, rel: i32)
    requires
        cond < 16,
        rel % 4 == 0,
        -0x100000 <= rel < 0x100000,
    ensures
        spec_b_cond(cond, rel) & 0xFF00001Fu32 == 0x54000000u32 | cond,
        ({
            let f = (spec_b_cond(cond, rel) >> 5u32) & 0x7FFFFu32;
            (if f < 0x40000 { f as int } else { f - 0x80000 }) * 4 == rel
        }),
{
    assert(cond < 16 && rel % 4 == 0 && -0x100000 <= rel < 0x100000 ==> {
        let w = (0x54000000u32 | cond) | ((((rel >> 2i32) & 0x7FFFFi32) as u32) << 5u32);
        let f = (w >> 5u32) & 0x7FFFFu32;
        &&& w & 0xFF00001Fu32 == 0x54000000u32 | cond
        &&& (if f < 0x40000 { f as int } else { f - 0x80000 }) * 4 == rel
    }) by (bit_vector);
}

/// A `B` word to a word offset within its reach: opcode 0x14000000 and the
/// 26-bit field, sign-extended, giving the word offset back.
proof fn lemma_b_word(q: i32)
    requires
        -0x2000000 <= q < 0x2000000,
    ensures
        spec_b(q) & 0xFC000000u32 == 0x14000000u32,
        ({
            let f = spec_b(q) & 0x3FFFFFFu32;
            (if f < 0x2000000 { f as int } else { f - 0x4000000 }) == q
        }),
{
    assert(-0x2000000 <= q < 0x2000000 ==> {
        let w = 0x14000000u32 | ((q & 0x3FFFFFFi32) as u32);
        let f = w & 0x3FFFFFFu32;
        &&& w & 0xFC000000u32 == 0x14000000u32
        &&& (if f < 0x2000000 { f as int } else { f - 0x4000000 }) == q
    }) by (bit_vector);
}

/// The branch word of each kind, to a byte offset `rel` that is a multiple
/// of 4 within reach of a conditional branch (±1 MiB), carries the ARM64
/// opcode of that kind: `B` 0x14000000, `BL` 0x94000000, and the
/// conditional branches 0x54000000 with the condition of their own test
/// (`EQ` 0, `NE` 1, `LT` 11, `GT` 12); and its offset field, sign-extended
/// and scaled by 4, is `rel`.
pub proof fn law_branch_words(rel: i32)
    requires
        rel % 4 == 0,
        -0x100000 <= rel < 0x100000,
    ensures
        branch_word(BranchKind::B, rel) & 0xFC000000u32 == 0x14000000u32,
        ({
            let f = branch_word(BranchKind::B, rel) & 0x3FFFFFFu32;
            (if f < 0x2000000 { f as int } else { f - 0x4000000 }) * 4 == rel
        }),
        branch_word(BranchKind::BL, rel) & 0xFC000000u32 == 0x94000000u32,
        branch_word(BranchKind::BEq, rel) & 0xFF00001Fu32 == 0x54000000u32,
        branch_word(BranchKind::BNe, rel) & 0xFF00001Fu32 == 0x54000001u32,
        branch_word(BranchKind::BLt, rel) & 0xFF00001Fu32 == 0x5400000Bu32,
        branch_word(BranchKind::BGt, rel) & 0xFF00001Fu32 == 0x5400000Cu32,
        forall|k: BranchKind| (k is BEq || k is BNe || k is BLt || k is BGt) ==> ({
            let f = (#[trigger] branch_word(k, rel) >> 5u32) & 0x7FFFFu32;
            (if f < 0x40000 { f as int } else { f - 0x80000 }) * 4 == rel
        }),
{
    let q = quarter(rel as int);
    assert(q * 4 == rel);
    lemma_b_word(q as i32);
    lemma_b_cond_word(0, rel);
    lemma_b_cond_word(1, rel);
    lemma_b_cond_word(0xB, rel);
    lemma_b_cond_word(0xC, rel);
    assert((0x54000000u32 | 0u32 == 0x54000000u32) && (0x54000000u32 | 1u32 == 0x54000001u32) && (0x54000000u32 | 0xBu32 == 0x5400000Bu32) && (0x54000000u32 | 0xCu32 == 0x5400000Cu32)) by (bit_vector);
    crate::encoder::law_branch_link_offset(rel);
}

/// `CMP Rn, Rm` is `SUBS` into register 31: the word of `SUB` into register
/// 31 of the same width as `Rn`, from the same registers in the same order,
/// with the flag bit (bit 29) set.
pub proof fn law_compare_registers_is_flag_setting_subtract(rn: Reg, rm: Reg)
    requires
        reg_num(rn) < 32,
        reg_num(rm) < 32,
    ensures
        spec_cmp_reg(rn, rm) == crate::encoder::spec_sub_reg(if rn is W { Reg::W(31) } else { Reg::XZR }, rn, rm) | 0x20000000u32,
{
    assert(0x20000000u32 & 0x001F03FFu32 == 0) by (bit_vector);
    crate::encoder::lemma_reg3_set_bit(pick(is_wide(rn), 0xCB000000, 0x4B000000), 0x20000000u32, reg_num(rm), reg_num(rn), 31);
    assert((0xCB000000u32 | 0x20000000u32 == 0xEB000000u32) && (0x4B000000u32 | 0x20000000u32 == 0x6B000000u32)) by (bit_vector);
}

} // verus!
