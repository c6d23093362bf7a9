//! Register allocation with spilling, and the emitter that moves values
//! between physical registers and their locations.
//!
//! Variables live in `x0`..`x7` while those are free and then in 8-byte
//! stack slots below the frame pointer. The emitter uses `x9` and `x10` as
//! scratch registers and `x12` for addresses out of `LDUR`/`STUR` range.

use vstd::prelude::*;
use crate::encoder::{
    Reg, spec_ldur, spec_stur, spec_add_reg, spec_add_imm, spec_mov_imm, spec_sub_reg, spec_mul_reg,
    spec_sdiv_reg, spec_blr, encode_ldur, encode_stur, encode_add_reg, encode_add_imm, encode_mov_imm,
    encode_sub_reg, encode_mul_reg, encode_sdiv_reg, encode_blr,
};
use crate::branching::{
    le_bytes, spec_b, spec_b_cond, spec_cmp_reg, encode_b, encode_b_eq, encode_b_ne, encode_b_lt,
    encode_b_gt, encode_cmp_reg,
};
use crate::emit::{words_le, mov64_seq, lemma_words_le_append, lemma_words_le_one, push_word, push_words, mov64_bytes_into};
use crate::name_map::NameMap;

verus! {

/// A comparison condition.
#[derive(Debug, Clone, Copy)]
pub enum ConditionCode {
    Eq,
    Ne,
    Lt,
    Le,
    Gt,
    Ge,
}

/// The 4-bit ARM64 condition field of `c`.
pub open spec fn cond_bits(c: ConditionCode) -> u32 {
    match c {
        ConditionCode::Eq => 0,
        ConditionCode::Ne => 1,
        ConditionCode::Lt => 0xB,
        ConditionCode::Le => 0xD,
        ConditionCode::Gt => 0xC,
        ConditionCode::Ge => 0xA,
    }
}

/// The condition field of the negation of `c`.
pub open spec fn inverted_cond_bits(c: ConditionCode) -> u32 {
    match c {
        ConditionCode::Eq => 1,
        ConditionCode::Ne => 0,
        ConditionCode::Lt => 0xA,
        ConditionCode::Le => 0xC,
        ConditionCode::Gt => 0xD,
        ConditionCode::Ge => 0xB,
    }
}

impl ConditionCode {
    /// The 4-bit condition field.
    pub fn to_bits(self) -> (r: u32)
        ensures
            r == cond_bits(self),
    {
        match self {
            ConditionCode::Eq => 0b0000,
            ConditionCode::Ne => 0b0001,
            ConditionCode::Lt => 0b1011,
            ConditionCode::Le => 0b1101,
            ConditionCode::Gt => 0b1100,
            ConditionCode::Ge => 0b1010,
        }
    }
}

/// Where a variable lives: a physical register or a frame-pointer offset.
#[derive(Debug, Clone, Copy, PartialEq, Eq, Structural)]
pub enum Location {
    Register(u8),
    Stack(i32),
}

/// The frame size that keeps every slot down to `offset + 8` inside the
/// frame: the used bytes, capped at `u16::MAX`, rounded up to 16 (saturating).
pub open spec fn frame_bytes(offset: int) -> int {
    if offset >= -16 {
        0
    } else {
        let used = -offset - 8;
        let capped = if used > 0xFFFF { 0xFFFF } else { used };
        if capped % 16 != 0 {
            let up = capped + (16 - capped % 16);
            if up > 0xFFFF { 0xFFFF } else { up }
        } else {
            capped
        }
    }
}

/// Tracks which variable lives where.
pub struct RegisterMap {
    var_map: NameMap<Location>,
    reg_free: [bool; 8],
    stack_offset: i32,
}

impl RegisterMap {
    /// The location of each variable.
    pub closed spec fn locations(&self) -> Map<Seq<char>, Location> {
        self.var_map@
    }

    /// Which of `x0`..`x7` are free.
    pub closed spec fn free_regs(&self) -> Seq<bool> {
        self.reg_free@
    }

    /// The offset of the next stack slot.
    pub closed spec fn next_slot(&self) -> int {
        self.stack_offset as int
    }

    /// The next slot is an 8-byte slot at or below `-16`.
    pub open spec fn wf(&self) -> bool {
        &&& self.free_regs().len() == 8
        &&& self.next_slot() <= -16
        &&& self.next_slot() > i32::MIN
        &&& self.next_slot() % 8 == 0
    }

    /// No two variables share a location: each register in use is one of
    /// `x0`..`x7` marked busy, each slot lies above the next free slot.
    pub open spec fn consistent(&self) -> bool {
        &&& forall|k: Seq<char>| #[trigger] self.locations().contains_key(k) ==> match self.locations()[k] {
            Location::Register(r) => r < 8 && !self.free_regs()[r as int],
            Location::Stack(o) => self.next_slot() < o <= -16 && o % 8 == 0,
        }
        &&& forall|k1: Seq<char>, k2: Seq<char>| #[trigger] self.locations().contains_key(k1)
            && #[trigger] self.locations().contains_key(k2) && k1 != k2 ==> self.locations()[k1]
            != self.locations()[k2]
    }

    /// The state after `k` allocations of distinct variables from an empty
    /// map, with nothing freed: the first `k` registers busy, and a slot
    /// used for each allocation beyond the eighth.
    pub open spec fn after_fresh_allocs(&self, k: nat) -> bool {
        &&& self.wf()
        &&& forall|i: int| 0 <= i < 8 ==> #[trigger] self.free_regs()[i] == (i >= k)
        &&& self.next_slot() == -16 - 8 * (if k > 8 { k - 8 } else { 0 })
    }

    /// An empty map: all eight registers free, the first slot at `-16`.
    pub fn new() -> (m: Self)
        ensures
            m.wf(),
            m.consistent(),
            m.locations() == Map::<Seq<char>, Location>::empty(),
            forall|i: int| 0 <= i < 8 ==> m.free_regs()[i],
            m.next_slot() == -16,
            m.after_fresh_allocs(0),
    {
        Self { var_map: NameMap::new(), reg_free: [true, true, true, true, true, true, true, true], stack_offset: -16 }
    }

    /// The location of `var`, allocating one when it has none: the lowest
    /// free register, else the next stack slot (which moves 8 bytes down).
    pub fn alloc_var(&mut self, var: &str) -> (r: Result<Location, String>)
        requires
            old(self).wf(),
            !old(self).locations().contains_key(var@) && (forall|i: int| 0 <= i < 8 ==> !old(self).free_regs()[i])
                ==> old(self).next_slot() - 8 > i32::MIN,
        ensures
            final(self).wf(),
            old(self).consistent() ==> final(self).consistent(),
            r is Ok,
            old(self).locations().contains_key(var@) ==> {
                &&& r == Ok::<Location, String>(old(self).locations()[var@])
                &&& final(self).locations() == old(self).locations()
                &&& final(self).free_regs() == old(self).free_regs()
                &&& final(self).next_slot() == old(self).next_slot()
            },
            !old(self).locations().contains_key(var@) ==> match r {
                Ok(Location::Register(i)) => {
                    &&& i < 8
                    &&& old(self).free_regs()[i as int]
                    &&& forall|j: int| 0 <= j < i ==> !old(self).free_regs()[j]
                    &&& final(self).free_regs() == old(self).free_regs().update(i as int, false)
                    &&& final(self).next_slot() == old(self).next_slot()
                    &&& final(self).locations() == old(self).locations().insert(var@, Location::Register(i))
                },
                Ok(Location::Stack(o)) => {
                    &&& forall|j: int| 0 <= j < 8 ==> !old(self).free_regs()[j]
                    &&& o == old(self).next_slot()
                    &&& final(self).next_slot() == old(self).next_slot() - 8
                    &&& final(self).free_regs() == old(self).free_regs()
                    &&& final(self).locations() == old(self).locations().insert(var@, Location::Stack(o))
                },
                Err(_) => false,
            },
            !old(self).locations().contains_key(var@) ==> forall|k: nat| #[trigger] old(self).after_fresh_allocs(k)
                ==> final(self).after_fresh_allocs(k + 1),
    {
        if let Some(loc) = self.var_map.get(var) {
            return Ok(*loc);
        }
        let mut i: usize = 0;
        while i < 8
            invariant
                0 <= i <= 8,
                self.reg_free@ == old(self).reg_free@,
                self.var_map@ == old(self).var_map@,
                self.stack_offset == old(self).stack_offset,
                !self.var_map@.contains_key(var@),
                old(self).wf(),
                forall|j: int| 0 <= j < i ==> !self.reg_free@[j],
            decreases 8 - i,
        {
            if self.reg_free[i] {
                self.reg_free[i] = false;
                let loc = Location::Register(i as u8);
                self.var_map.insert(var.to_owned(), loc);
                proof {
                    assert forall|k: nat| #[trigger] old(self).after_fresh_allocs(k) implies self.after_fresh_allocs(k + 1) by {
                        assert(old(self).free_regs()[i as int]);
                        if k < i {
                            assert(!old(self).free_regs()[k as int]);
                        }
                        if k > i {
                            assert(old(self).free_regs()[i as int] == (i >= k));
                        }
                        assert(k == i);
                    }
                }
                return Ok(loc);
            }
            i = i + 1;
        }
        let offset = self.stack_offset;
        proof {
            assert forall|k: nat| #[trigger] old(self).after_fresh_allocs(k) implies k >= 8 by {
                if k < 8 {
                    assert(!old(self).free_regs()[k as int]);
                }
            }
        }
        self.stack_offset = self.stack_offset - 8;
        let loc = Location::Stack(offset);
        self.var_map.insert(var.to_owned(), loc);
        Ok(loc)
    }

    /// Frees the register of `loc` (stack slots are not reclaimed).
    pub fn free(&mut self, loc: Location)
        requires
            old(self).wf(),
        ensures
            final(self).wf(),
            final(self).locations() == old(self).locations(),
            final(self).next_slot() == old(self).next_slot(),
            final(self).free_regs() == match loc {
                Location::Register(r) => if r < 8 { old(self).free_regs().update(r as int, true) } else { old(self).free_regs() },
                Location::Stack(_) => old(self).free_regs(),
            },
    {
        if let Location::Register(reg) = loc {
            if (reg as usize) < 8 {
                self.reg_free[reg as usize] = true;
            }
        }
    }

    /// The location of `var`, if it has one.
    pub fn get(&self, var: &str) -> (r: Option<Location>)
        ensures
            match r {
                Some(l) => self.locations().contains_key(var@) && l == self.locations()[var@],
                None => !self.locations().contains_key(var@),
            },
    {
        match self.var_map.get(var) {
            Some(l) => Some(*l),
            None => None,
        }
    }

    /// Forgets every variable and frees every register.
    pub fn clear(&mut self)
        ensures
            final(self).wf(),
            final(self).consistent(),
            final(self).locations() == Map::<Seq<char>, Location>::empty(),
            forall|i: int| 0 <= i < 8 ==> final(self).free_regs()[i],
            final(self).next_slot() == -16,
    {
        self.var_map.clear();
        self.reg_free = [true, true, true, true, true, true, true, true];
        self.stack_offset = -16;
    }

    /// The 16-byte aligned frame size that holds every stack slot in use.
    pub fn stack_frame_bytes(&self) -> (r: u16)
        requires
            self.wf(),
        ensures
            r as int == frame_bytes(self.next_slot()),
            r % 16 == 0 || r == 0xFFFF,
    {
        if self.stack_offset >= -16 {
            return 0;
        }
        let used_i32 = (-self.stack_offset) - 8;
        if used_i32 <= 0 {
            return 0;
        }
        let mut bytes: u16 = if used_i32 > 0xFFFF { 0xFFFF } else { used_i32 as u16 };
        let rem = bytes % 16;
        if rem != 0 {
            bytes = bytes.saturating_add(16 - rem);
        }
        bytes
    }
}

/// `SP` for register number 31, otherwise `X(b)`.
pub open spec fn base_reg(b: u8) -> Reg {
    if b == 31 { Reg::SP } else { Reg::X(b) }
}

/// Words that load `[base + offset]` into `x<rt>`: one `LDUR` when the offset
/// fits 9 signed bits, the address built in `x12` when it fits 16, and
/// `MOV x<rt>, #0` otherwise.
pub open spec fn ldr_words(rt: u8, base: u8, offset: i32) -> Seq<u32> {
    if -256 <= offset <= 255 {
        seq![spec_ldur(Reg::X(rt), base_reg(base), offset as i16)]
    } else if -32768 <= offset <= 32767 {
        mov64_seq(Reg::X(12), (offset as i64) as u64) + seq![
            spec_add_reg(Reg::X(12), Reg::X(12), base_reg(base)),
            spec_ldur(Reg::X(rt), Reg::X(12), 0),
        ]
    } else {
        seq![spec_mov_imm(Reg::X(rt), 0)]
    }
}

/// Words that store `x<rt>` to `[base + offset]`; nothing when the offset
/// does not fit 16 signed bits.
pub open spec fn str_words(rt: u8, base: u8, offset: i32) -> Seq<u32> {
    if -256 <= offset <= 255 {
        seq![spec_stur(Reg::X(rt), base_reg(base), offset as i16)]
    } else if -32768 <= offset <= 32767 {
        mov64_seq(Reg::X(12), (offset as i64) as u64) + seq![
            spec_add_reg(Reg::X(12), Reg::X(12), base_reg(base)),
            spec_stur(Reg::X(rt), Reg::X(12), 0),
        ]
    } else {
        Seq::empty()
    }
}

/// Words that bring the value at `loc` into `x<target>` (frame pointer `x29`).
pub open spec fn load_words(target: u8, loc: Location) -> Seq<u32> {
    match loc {
        Location::Register(r) => if r != target {
            seq![spec_add_imm(Reg::X(target), Reg::X(r), 0)]
        } else {
            Seq::empty()
        },
        Location::Stack(offset) => ldr_words(target, 29, offset),
    }
}

/// Words that put the value of `x<src>` at `loc`.
pub open spec fn store_words(src: u8, loc: Location) -> Seq<u32> {
    match loc {
        Location::Register(r) => if r != src {
            seq![spec_add_imm(Reg::X(r), Reg::X(src), 0)]
        } else {
            Seq::empty()
        },
        Location::Stack(offset) => str_words(src, 29, offset),
    }
}

/// Words of a binary operation: left into `x9`, right into `x10`, the
/// operation word, `x9` to the destination.
pub open spec fn binop_words(op: u32, dest: Location, left: Location, right: Location) -> Seq<u32> {
    load_words(9, left) + load_words(10, right) + seq![op] + store_words(9, dest)
}

/// `CSET x9, cond` (as `CSINC x9, XZR, XZR, !cond`).
pub open spec fn cset_word(c: ConditionCode) -> u32 {
    0x9A9F07E0u32 | (inverted_cond_bits(c) << 12u32) | 9u32
}

/// Words of a call through `x9` to an absolute address.
pub open spec fn call_words(addr: u64) -> Seq<u32> {
    mov64_seq(Reg::X(9), addr) + seq![spec_blr(Reg::X(9))]
}

/// An instruction buffer that spills through the stack transparently.
pub struct ArithmeticEncoder {
    buf: Vec<u8>,
}

impl ArithmeticEncoder {
    /// The bytes emitted so far.
    pub closed spec fn bytes(&self) -> Seq<u8> {
        self.buf@
    }

    /// An empty buffer.
    pub fn new() -> (e: Self)
        ensures
            e.bytes() == Seq::<u8>::empty(),
    {
        Self { buf: Vec::new() }
    }

    /// Appends one instruction word, little-endian.
    pub fn emit_u32_le(&mut self, value: u32)
        ensures
            final(self).bytes() == old(self).bytes() + le_bytes(value),
    {
        push_word(&mut self.buf, value);
    }

    /// Appends raw bytes.
    pub fn emit_bytes(&mut self, bytes: &[u8])
        ensures
            final(self).bytes() == old(self).bytes() + bytes@,
    {
        let mut i: usize = 0;
        while i < bytes.len()
            invariant
                0 <= i <= bytes.len(),
                self.buf@ == old(self).buf@ + bytes@.take(i as int),
            decreases bytes.len() - i,
        {
            self.buf.push(bytes[i]);
            assert(bytes@.take(i + 1) =~= bytes@.take(i as int).push(bytes@[i as int]));
            i = i + 1;
        }
        assert(bytes@.take(bytes@.len() as int) =~= bytes@);
    }

    /// Appends a word sequence.
    fn emit_words(&mut self, ws: &[u32])
        ensures
            final(self).bytes() == old(self).bytes() + words_le(ws@),
    {
        push_words(&mut self.buf, ws);
    }

    fn emit_word(&mut self, w: u32)
        ensures
            final(self).bytes() == old(self).bytes() + words_le(seq![w]),
    {
        proof { lemma_words_le_one(w); }
        push_word(&mut self.buf, w);
    }

    pub(crate) fn emit_mov64(&mut self, reg: Reg, value: u64)
        ensures
            final(self).bytes() == old(self).bytes() + words_le(mov64_seq(reg, value)),
    {
        mov64_bytes_into(&mut self.buf, reg, value);
    }

    fn raw_ldr(&mut self, rt: u8, base: u8, offset: i32)
        ensures
            final(self).bytes() == old(self).bytes() + words_le(ldr_words(rt, base, offset)),
    {
        let base_reg = if base == 31 { Reg::SP } else { Reg::X(base) };
        if -256 <= offset && offset <= 255 {
            self.emit_word(encode_ldur(Reg::X(rt), base_reg, offset as i16));
        } else if -32768 <= offset && offset <= 32767 {
            let off = offset as i16;
            let ghost b0 = self.bytes();
            self.emit_mov64(Reg::X(12), off as i64 as u64);
            let w1 = encode_add_reg(Reg::X(12), Reg::X(12), base_reg);
            let w2 = encode_ldur(Reg::X(rt), Reg::X(12), 0);
            self.emit_words(&[w1, w2]);
            proof {
                assert((off as i64) as u64 == (offset as i64) as u64);
                lemma_words_le_append(mov64_seq(Reg::X(12), (offset as i64) as u64), seq![w1, w2]);
                assert([w1, w2]@ =~= seq![w1, w2]);
            }
        } else {
            self.emit_word(encode_mov_imm(Reg::X(rt), 0));
        }
    }

    fn raw_str(&mut self, rt: u8, base: u8, offset: i32)
        ensures
            final(self).bytes() == old(self).bytes() + words_le(str_words(rt, base, offset)),
    {
        let base_reg = if base == 31 { Reg::SP } else { Reg::X(base) };
        if -256 <= offset && offset <= 255 {
            self.emit_word(encode_stur(Reg::X(rt), base_reg, offset as i16));
        } else if -32768 <= offset && offset <= 32767 {
            let off = offset as i16;
            self.emit_mov64(Reg::X(12), off as i64 as u64);
            let w1 = encode_add_reg(Reg::X(12), Reg::X(12), base_reg);
            let w2 = encode_stur(Reg::X(rt), Reg::X(12), 0);
            self.emit_words(&[w1, w2]);
            proof {
                assert((off as i64) as u64 == (offset as i64) as u64);
                lemma_words_le_append(mov64_seq(Reg::X(12), (offset as i64) as u64), seq![w1, w2]);
                assert([w1, w2]@ =~= seq![w1, w2]);
            }
        } else {
            assert(words_le(Seq::<u32>::empty()) =~= Seq::<u8>::empty());
            assert(old(self).bytes() + Seq::<u8>::empty() =~= old(self).bytes());
        }
    }

    /// Loads the value at `loc` into `x<target_reg>`.
    pub fn load_to_reg(&mut self, target_reg: u8, loc: Location)
        ensures
            final(self).bytes() == old(self).bytes() + words_le(load_words(target_reg, loc)),
    {
        match loc {
            Location::Register(r) => {
                if r != target_reg {
                    self.emit_word(encode_add_imm(Reg::X(target_reg), Reg::X(r), 0));
                } else {
                    assert(words_le(Seq::<u32>::empty()) =~= Seq::<u8>::empty());
                    assert(old(self).bytes() + Seq::<u8>::empty() =~= old(self).bytes());
                }
            },
            Location::Stack(offset) => {
                self.raw_ldr(target_reg, 29, offset);
            },
        }
    }

    /// Stores `x<src_reg>` to `loc`.
    pub fn store_from_reg(&mut self, src_reg: u8, loc: Location)
        ensures
            final(self).bytes() == old(self).bytes() + words_le(store_words(src_reg, loc)),
    {
        match loc {
            Location::Register(r) => {
                if r != src_reg {
                    self.emit_word(encode_add_imm(Reg::X(r), Reg::X(src_reg), 0));
                } else {
                    assert(words_le(Seq::<u32>::empty()) =~= Seq::<u8>::empty());
                    assert(old(self).bytes() + Seq::<u8>::empty() =~= old(self).bytes());
                }
            },
            Location::Stack(offset) => {
                self.raw_str(src_reg, 29, offset);
            },
        }
    }

    /// `dest = imm`, through `x9`.
    pub fn emit_mov_imm(&mut self, dest: Location, imm: u16)
        ensures
            final(self).bytes() == old(self).bytes() + words_le(seq![spec_mov_imm(Reg::X(9), imm)] + store_words(9, dest)),
    {
        let w = encode_mov_imm(Reg::X(9), imm);
        self.emit_word(w);
        self.store_from_reg(9, dest);
        proof { lemma_words_le_append(seq![w], store_words(9, dest)); }
    }

    /// `dest = src`, through `x9`.
    pub fn emit_mov(&mut self, dest: Location, src: Location)
        ensures
            final(self).bytes() == old(self).bytes() + words_le(load_words(9, src) + store_words(9, dest)),
    {
        self.load_to_reg(9, src);
        self.store_from_reg(9, dest);
        proof { lemma_words_le_append(load_words(9, src), store_words(9, dest)); }
    }

    /// `ADD x<dest>, x<src>, #imm`.
    pub fn emit_add_imm(&mut self, dest: u8, src: u8, imm: u16)
        ensures
            final(self).bytes() == old(self).bytes() + le_bytes(spec_add_imm(Reg::X(dest), Reg::X(src), imm)),
    {
        self.emit_u32_le(encode_add_imm(Reg::X(dest), Reg::X(src), imm));
    }

    fn emit_binop(&mut self, op: u32, dest: Location, left: Location, right: Location)
        ensures
            final(self).bytes() == old(self).bytes() + words_le(binop_words(op, dest, left, right)),
    {
        self.load_to_reg(9, left);
        self.load_to_reg(10, right);
        self.emit_word(op);
        self.store_from_reg(9, dest);
        proof {
            let a = load_words(9, left);
            let b = load_words(10, right);
            let c = seq![op];
            let d = store_words(9, dest);
            lemma_words_le_append(a, b);
            lemma_words_le_append(a + b, c);
            lemma_words_le_append(a + b + c, d);
            assert(old(self).bytes() + words_le(a) + words_le(b) + words_le(c) + words_le(d)
                =~= old(self).bytes() + words_le(a + b + c + d));
        }
    }

    /// `dest = left + right`.
    pub fn emit_add(&mut self, dest: Location, left: Location, right: Location)
        ensures
            final(self).bytes() == old(self).bytes() + words_le(
                binop_words(spec_add_reg(Reg::X(9), Reg::X(9), Reg::X(10)), dest, left, right),
            ),
    {
        let op = encode_add_reg(Reg::X(9), Reg::X(9), Reg::X(10));
        self.emit_binop(op, dest, left, right);
    }

    /// `dest = left - right`.
    pub fn emit_sub(&mut self, dest: Location, left: Location, right: Location)
        ensures
            final(self).bytes() == old(self).bytes() + words_le(
                binop_words(spec_sub_reg(Reg::X(9), Reg::X(9), Reg::X(10)), dest, left, right),
            ),
    {
        let op = encode_sub_reg(Reg::X(9), Reg::X(9), Reg::X(10));
        self.emit_binop(op, dest, left, right);
    }

    /// `dest = left * right`.
    pub fn emit_mul(&mut self, dest: Location, left: Location, right: Location)
        ensures
            final(self).bytes() == old(self).bytes() + words_le(
                binop_words(spec_mul_reg(Reg::X(9), Reg::X(9), Reg::X(10)), dest, left, right),
            ),
    {
        let op = encode_mul_reg(Reg::X(9), Reg::X(9), Reg::X(10));
        self.emit_binop(op, dest, left, right);
    }

    /// `dest = left / right` (signed).
    pub fn emit_div(&mut self, dest: Location, left: Location, right: Location)
        ensures
            final(self).bytes() == old(self).bytes() + words_le(
                binop_words(spec_sdiv_reg(Reg::X(9), Reg::X(9), Reg::X(10)), dest, left, right),
            ),
    {
        let op = encode_sdiv_reg(Reg::X(9), Reg::X(9), Reg::X(10));
        self.emit_binop(op, dest, left, right);
    }

    /// Compares `left` with `right` (through `x9`, `x10`).
    pub fn emit_cmp(&mut self, left: Location, right: Location)
        ensures
            final(self).bytes() == old(self).bytes() + words_le(
                load_words(9, left) + load_words(10, right) + seq![spec_cmp_reg(Reg::X(9), Reg::X(10))],
            ),
    {
        self.load_to_reg(9, left);
        self.load_to_reg(10, right);
        let w = encode_cmp_reg(Reg::X(9), Reg::X(10));
        self.emit_word(w);
        proof {
            lemma_words_le_append(load_words(9, left), load_words(10, right));
            lemma_words_le_append(load_words(9, left) + load_words(10, right), seq![w]);
        }
    }

    /// `dest = cond ? 1 : 0` from the flags of the last comparison.
    pub fn emit_cset(&mut self, dest: Location, cond: ConditionCode)
        ensures
            final(self).bytes() == old(self).bytes() + words_le(seq![cset_word(cond)] + store_words(9, dest)),
    {
        let inverted: u32 = match cond {
            ConditionCode::Eq => 0b0001,
            ConditionCode::Ne => 0b0000,
            ConditionCode::Lt => 0b1010,
            ConditionCode::Le => 0b1100,
            ConditionCode::Gt => 0b1101,
            ConditionCode::Ge => 0b1011,
        };
        let instr = 0x9A9F07E0u32 | (inverted << 12u32) | 9u32;
        self.emit_word(instr);
        self.store_from_reg(9, dest);
        proof { lemma_words_le_append(seq![instr], store_words(9, dest)); }
    }

    /// `B` with a word offset.
    pub fn emit_b(&mut self, offset: i32)
        ensures
            final(self).bytes() == old(self).bytes() + le_bytes(spec_b(offset)),
    {
        self.emit_u32_le(encode_b(offset));
    }

    /// `B.EQ` to a byte offset.
    pub fn emit_b_eq(&mut self, offset: i32)
        ensures
            final(self).bytes() == old(self).bytes() + le_bytes(spec_b_cond(0, offset)),
    {
        self.emit_u32_le(encode_b_eq(offset));
    }

    /// `B.NE` to a byte offset.
    pub fn emit_b_ne(&mut self, offset: i32)
        ensures
            final(self).bytes() == old(self).bytes() + le_bytes(spec_b_cond(1, offset)),
    {
        self.emit_u32_le(encode_b_ne(offset));
    }

    /// `B.LT` to a byte offset.
    pub fn emit_b_lt(&mut self, offset: i32)
        ensures
            final(self).bytes() == old(self).bytes() + le_bytes(spec_b_cond(0xB, offset)),
    {
        self.emit_u32_le(encode_b_lt(offset));
    }

    /// `B.GT` to a byte offset.
    pub fn emit_b_gt(&mut self, offset: i32)
        ensures
            final(self).bytes() == old(self).bytes() + le_bytes(spec_b_cond(0xC, offset)),
    {
        self.emit_u32_le(encode_b_gt(offset));
    }

    /// Calls the absolute address `addr` through `x9`.
    pub fn emit_call(&mut self, addr: u64)
        ensures
            final(self).bytes() == old(self).bytes() + words_le(call_words(addr)),
    {
        self.emit_mov64(Reg::X(9), addr);
        let w = encode_blr(Reg::X(9));
        self.emit_word(w);
        proof { lemma_words_le_append(mov64_seq(Reg::X(9), addr), seq![w]); }
    }

    /// Calls `addr` with `arg0` in `x0` and `arg1` in `x1`.
    pub fn emit_call_arg2(&mut self, addr: u64, arg0: u64, arg1: u64)
        ensures
            final(self).bytes() == old(self).bytes() + words_le(
                mov64_seq(Reg::X(0), arg0) + mov64_seq(Reg::X(1), arg1) + call_words(addr),
            ),
    {
        self.emit_mov64(Reg::X(0), arg0);
        self.emit_mov64(Reg::X(1), arg1);
        self.emit_call(addr);
        proof {
            lemma_words_le_append(mov64_seq(Reg::X(0), arg0), mov64_seq(Reg::X(1), arg1));
            lemma_words_le_append(mov64_seq(Reg::X(0), arg0) + mov64_seq(Reg::X(1), arg1), call_words(addr));
        }
    }

    /// Moves the value at `src` into physical register `x<dest_phys>`.
    pub fn move_to_phys_reg(&mut self, dest_phys: u8, src: Location)
        ensures
            final(self).bytes() == old(self).bytes() + words_le(load_words(dest_phys, src)),
    {
        self.load_to_reg(dest_phys, src);
    }

    /// Moves physical register `x<src_phys>` to `dest`.
    pub fn move_from_phys_reg(&mut self, dest: Location, src_phys: u8)
        ensures
            final(self).bytes() == old(self).bytes() + words_le(store_words(src_phys, dest)),
    {
        self.store_from_reg(src_phys, dest);
    }

    /// The emitted bytes.
    pub fn into_bytes(self) -> (r: Vec<u8>)
        ensures
            r@ == self.bytes(),
    {
        self.buf
    }

    /// The number of emitted bytes.
    pub fn len(&self) -> (r: usize)
        ensures
            r == self.bytes().len(),
    {
        self.buf.len()
    }
}


/// The frame reserved below the frame pointer covers every stack slot in
/// use, keeps the stack 16-byte aligned, and wastes less than 16 bytes (as
/// long as the slots fit the 16-bit immediate).
pub proof fn law_frame_covers_slots(m: RegisterMap)
    requires
        m.wf(),
        m.consistent(),
        -m.next_slot() - 8 <= 0xFFF0,
    ensures
        frame_bytes(m.next_slot()) % 16 == 0,
        forall|k: Seq<char>| #[trigger] m.locations().contains_key(k) ==> match m.locations()[k] {
            Location::Stack(o) => -o <= frame_bytes(m.next_slot()),
            Location::Register(_) => true,
        },
        m.next_slot() < -16 ==> frame_bytes(m.next_slot()) < -m.next_slot() - 8 + 16,
{
    let next = m.next_slot();
    if next < -16 {
        let used = -next - 8;
        assert(used <= 0xFFF0);
        if used % 16 != 0 {
            assert(used + (16 - used % 16) <= 0xFFFF);
            assert((used + (16 - used % 16)) % 16 == 0);
        }
    }
    assert forall|k: Seq<char>| #[trigger] m.locations().contains_key(k) implies match m.locations()[k] {
        Location::Stack(o) => -o <= frame_bytes(next),
        Location::Register(_) => true,
    } by {
        match m.locations()[k] {
            Location::Stack(o) => {
                assert(next < o <= -16 && o % 8 == 0);
                assert(o >= next + 8);
            },
            Location::Register(_) => {},
        }
    }
}

/// After `k` allocations of distinct variables from an empty map (at most
/// 8000, so that the slots fit the 16-bit immediate), the frame is empty
/// while the registers suffice, and otherwise holds the `k - 8` slots below
/// the first, rounded up to 16 bytes.
pub proof fn law_frame_after_fresh_allocs(m: RegisterMap, k: nat)
    requires
        m.after_fresh_allocs(k),
        k <= 8000,
    ensures
        frame_bytes(m.next_slot()) == if k <= 8 { 0 } else { (8 * (k - 7) + 15) / 16 * 16 },
        frame_bytes(m.next_slot()) % 16 == 0,
{
    if k > 8 {
        let used: int = 8 * (k - 7);
        assert(-m.next_slot() - 8 == used);
        assert(used <= 0xFFFF);
        if used % 16 != 0 {
            assert(used % 16 == 8) by {
                assert(used == 8 * (k - 7));
            }
            assert(used + (16 - used % 16) == (used + 15) / 16 * 16);
        } else {
            assert(used == (used + 15) / 16 * 16);
        }
    }
}

} // verus!
