//! Call sequences that the JIT compiler wraps around runtime calls.
//!
//! Before a call the caller-saved registers `x0`..`x7` are stored in a
//! 64-byte block below the stack pointer and restored after it; arguments
//! travel through the scratch registers `x9`..`x11`.

use vstd::prelude::*;
use crate::encoder::{Reg, spec_sub_imm, spec_add_imm, spec_str_imm, spec_ldr_imm, encode_sub_imm, encode_add_imm, encode_str_imm, encode_ldr_imm};
use crate::regalloc::{ArithmeticEncoder, Location, load_words, call_words};
use crate::emit::{words_le, mov64_seq, lemma_words_le_append, lemma_words_le_one};
use crate::symbol_table::SymbolLocation;

verus! {

/// Bytes of the block that holds the saved registers.
pub const CALL_SAVE_BYTES: u16 = 64;

/// `SUB SP, SP, #64` and then `STR x<r>, [SP, #8r]` for `r` in 0..8.
pub open spec fn save_words() -> Seq<u32> {
    seq![spec_sub_imm(Reg::SP, Reg::SP, 64)] + Seq::new(8, |r: int| spec_str_imm(Reg::X(r as u8), Reg::SP, (r * 8) as u16))
}

/// `LDR x<r>, [SP, #8r]` for `r` in 0..8 and then `ADD SP, SP, #64`.
pub open spec fn restore_words() -> Seq<u32> {
    Seq::new(8, |r: int| spec_ldr_imm(Reg::X(r as u8), Reg::SP, (r * 8) as u16)) + seq![spec_add_imm(Reg::SP, Reg::SP, 64)]
}

/// `MOV x<dst>, x<src>` written as `ADD x<dst>, x<src>, #0`.
pub open spec fn mov_reg_word(dst: u8, src: u8) -> u32 {
    spec_add_imm(Reg::X(dst), Reg::X(src), 0)
}

/// A one-argument runtime call whose result ends in `x9`.
pub open spec fn call1_words(addr: u64, arg0: Location) -> Seq<u32> {
    save_words() + load_words(9, arg0) + seq![mov_reg_word(0, 9)] + call_words(addr) + seq![mov_reg_word(9, 0)]
        + restore_words()
}

/// A two-argument runtime call whose result ends in `x9`.
pub open spec fn call2_words(addr: u64, arg0: Location, arg1: Location) -> Seq<u32> {
    save_words() + load_words(9, arg0) + load_words(10, arg1) + seq![mov_reg_word(0, 9), mov_reg_word(1, 10)]
        + call_words(addr) + seq![mov_reg_word(9, 0)] + restore_words()
}

/// A three-argument runtime call (its result is not kept).
pub open spec fn call3_words(addr: u64, arg0: Location, arg1: Location, arg2: Location) -> Seq<u32> {
    save_words() + load_words(9, arg0) + load_words(10, arg1) + load_words(11, arg2) + seq![
        mov_reg_word(0, 9),
        mov_reg_word(1, 10),
        mov_reg_word(2, 11),
    ] + call_words(addr) + restore_words()
}

/// Appends the word sequences `a` then `b` to `bytes`: the same as appending `a + b`.
proof fn lemma_append2(bytes: Seq<u8>, a: Seq<u32>, b: Seq<u32>)
    ensures
        bytes + words_le(a) + words_le(b) == bytes + words_le(a + b),
{
    lemma_words_le_append(a, b);
    assert(bytes + words_le(a) + words_le(b) =~= bytes + (words_le(a) + words_le(b)));
}

fn emit_one(emit: &mut ArithmeticEncoder, w: u32)
    ensures
        final(emit).bytes() == old(emit).bytes() + words_le(seq![w]),
{
    proof { lemma_words_le_one(w); }
    emit.emit_u32_le(w);
}

/// Saves `x0`..`x7` below the stack pointer.
pub fn emit_save_call_regs(emit: &mut ArithmeticEncoder)
    ensures
        final(emit).bytes() == old(emit).bytes() + words_le(save_words()),
{
    let first = encode_sub_imm(Reg::SP, Reg::SP, CALL_SAVE_BYTES);
    emit_one(emit, first);
    let ghost stores = Seq::new(8, |r: int| spec_str_imm(Reg::X(r as u8), Reg::SP, (r * 8) as u16));
    let mut r: u16 = 0;
    while r < 8
        invariant
            0 <= r <= 8,
            emit.bytes() == old(emit).bytes() + words_le(seq![first] + stores.take(r as int)),
            first == spec_sub_imm(Reg::SP, Reg::SP, 64),
            stores == Seq::new(8, |r: int| spec_str_imm(Reg::X(r as u8), Reg::SP, (r * 8) as u16)),
        decreases 8 - r,
    {
        let w = encode_str_imm(Reg::X(r as u8), Reg::SP, r * 8);
        emit_one(emit, w);
        proof {
            assert(w == stores[r as int]);
            lemma_append2(old(emit).bytes(), seq![first] + stores.take(r as int), seq![w]);
            assert(seq![first] + stores.take(r as int) + seq![w] =~= seq![first] + stores.take(r + 1));
        }
        r = r + 1;
    }
    assert(stores.take(8) =~= stores);
}

/// Restores `x0`..`x7` and releases the save block.
pub fn emit_restore_call_regs(emit: &mut ArithmeticEncoder)
    ensures
        final(emit).bytes() == old(emit).bytes() + words_le(restore_words()),
{
    let ghost loads = Seq::new(8, |r: int| spec_ldr_imm(Reg::X(r as u8), Reg::SP, (r * 8) as u16));
    let mut r: u16 = 0;
    assert(loads.take(0) =~= Seq::<u32>::empty());
    assert(old(emit).bytes() + words_le(Seq::<u32>::empty()) =~= old(emit).bytes());
    while r < 8
        invariant
            0 <= r <= 8,
            emit.bytes() == old(emit).bytes() + words_le(loads.take(r as int)),
            loads == Seq::new(8, |r: int| spec_ldr_imm(Reg::X(r as u8), Reg::SP, (r * 8) as u16)),
        decreases 8 - r,
    {
        let w = encode_ldr_imm(Reg::X(r as u8), Reg::SP, r * 8);
        emit_one(emit, w);
        proof {
            assert(w == loads[r as int]);
            lemma_append2(old(emit).bytes(), loads.take(r as int), seq![w]);
            assert(loads.take(r as int) + seq![w] =~= loads.take(r + 1));
        }
        r = r + 1;
    }
    let last = encode_add_imm(Reg::SP, Reg::SP, CALL_SAVE_BYTES);
    emit_one(emit, last);
    proof {
        assert(loads.take(8) =~= loads);
        lemma_append2(old(emit).bytes(), loads, seq![last]);
    }
}

/// Loads a 64-bit constant into `x<reg>`.
pub fn emit_mov64_to_reg(emit: &mut ArithmeticEncoder, reg: u8, value: u64)
    ensures
        final(emit).bytes() == old(emit).bytes() + words_le(mov64_seq(Reg::X(reg), value)),
{
    let ws = crate::encoder::encode_mov64(Reg::X(reg), value);
    let mut k: usize = 0;
    let ghost target = mov64_seq(Reg::X(reg), value);
    assert(target.take(0) =~= Seq::<u32>::empty());
    assert(old(emit).bytes() + words_le(Seq::<u32>::empty()) =~= old(emit).bytes());
    while k < 4
        invariant
            0 <= k <= 4,
            target == mov64_seq(Reg::X(reg), value),
            forall|j: int| 0 <= j < 4 ==> #[trigger] ws[j] == crate::encoder::spec_mov64_word(Reg::X(reg), value, j as u64),
            emit.bytes() == old(emit).bytes() + words_le(target.take(k as int)),
        decreases 4 - k,
    {
        let w = ws[k];
        emit_one(emit, w);
        proof {
            lemma_append2(old(emit).bytes(), target.take(k as int), seq![w]);
            assert(w == target[k as int]);
            assert(target.take(k as int) + seq![w] =~= target.take(k + 1));
        }
        k = k + 1;
    }
    assert(target.take(4) =~= target);
}

/// Calls `func_addr` with two arguments, keeping `x0`..`x7`; the result is left in `x9`.
pub fn emit_call2(emit: &mut ArithmeticEncoder, func_addr: u64, arg0: Location, arg1: Location)
    ensures
        final(emit).bytes() == old(emit).bytes() + words_le(call2_words(func_addr, arg0, arg1)),
{
    let ghost b = old(emit).bytes();
    emit_save_call_regs(emit);
    emit.load_to_reg(9, arg0);
    emit.load_to_reg(10, arg1);
    let m0 = encode_add_imm(Reg::X(0), Reg::X(9), 0);
    let m1 = encode_add_imm(Reg::X(1), Reg::X(10), 0);
    emit_one(emit, m0);
    emit_one(emit, m1);
    emit.emit_call(func_addr);
    let m9 = encode_add_imm(Reg::X(9), Reg::X(0), 0);
    emit_one(emit, m9);
    emit_restore_call_regs(emit);
    proof {
        let s0 = save_words();
        let s1 = load_words(9, arg0);
        let s2 = load_words(10, arg1);
        lemma_append2(b, s0, s1);
        lemma_append2(b, s0 + s1, s2);
        lemma_append2(b, s0 + s1 + s2, seq![m0]);
        lemma_append2(b, s0 + s1 + s2 + seq![m0], seq![m1]);
        lemma_append2(b, s0 + s1 + s2 + seq![m0] + seq![m1], call_words(func_addr));
        lemma_append2(b, s0 + s1 + s2 + seq![m0] + seq![m1] + call_words(func_addr), seq![m9]);
        lemma_append2(b, s0 + s1 + s2 + seq![m0] + seq![m1] + call_words(func_addr) + seq![m9], restore_words());
        assert(s0 + s1 + s2 + seq![m0] + seq![m1] + call_words(func_addr) + seq![m9] + restore_words()
            =~= call2_words(func_addr, arg0, arg1));
    }
}

/// Calls `func_addr` with one argument, keeping `x0`..`x7`; the result is left in `x9`.
pub fn emit_call1(emit: &mut ArithmeticEncoder, func_addr: u64, arg0: Location)
    ensures
        final(emit).bytes() == old(emit).bytes() + words_le(call1_words(func_addr, arg0)),
{
    let ghost b = old(emit).bytes();
    emit_save_call_regs(emit);
    emit.load_to_reg(9, arg0);
    let m0 = encode_add_imm(Reg::X(0), Reg::X(9), 0);
    emit_one(emit, m0);
    emit.emit_call(func_addr);
    let m9 = encode_add_imm(Reg::X(9), Reg::X(0), 0);
    emit_one(emit, m9);
    emit_restore_call_regs(emit);
    proof {
        let s0 = save_words();
        let s1 = load_words(9, arg0);
        lemma_append2(b, s0, s1);
        lemma_append2(b, s0 + s1, seq![m0]);
        lemma_append2(b, s0 + s1 + seq![m0], call_words(func_addr));
        lemma_append2(b, s0 + s1 + seq![m0] + call_words(func_addr), seq![m9]);
        lemma_append2(b, s0 + s1 + seq![m0] + call_words(func_addr) + seq![m9], restore_words());
        assert(s0 + s1 + seq![m0] + call_words(func_addr) + seq![m9] + restore_words()
            =~= call1_words(func_addr, arg0));
    }
}

/// Calls `func_addr` with three arguments, keeping `x0`..`x7`.
pub fn emit_call3(emit: &mut ArithmeticEncoder, func_addr: u64, arg0: Location, arg1: Location, arg2: Location)
    ensures
        final(emit).bytes() == old(emit).bytes() + words_le(call3_words(func_addr, arg0, arg1, arg2)),
{
    let ghost b = old(emit).bytes();
    emit_save_call_regs(emit);
    emit.load_to_reg(9, arg0);
    emit.load_to_reg(10, arg1);
    emit.load_to_reg(11, arg2);
    let m0 = encode_add_imm(Reg::X(0), Reg::X(9), 0);
    let m1 = encode_add_imm(Reg::X(1), Reg::X(10), 0);
    let m2 = encode_add_imm(Reg::X(2), Reg::X(11), 0);
    emit_one(emit, m0);
    emit_one(emit, m1);
    emit_one(emit, m2);
    emit.emit_call(func_addr);
    emit_restore_call_regs(emit);
    proof {
        let s0 = save_words();
        let s1 = load_words(9, arg0);
        let s2 = load_words(10, arg1);
        let s3 = load_words(11, arg2);
        lemma_append2(b, s0, s1);
        lemma_append2(b, s0 + s1, s2);
        lemma_append2(b, s0 + s1 + s2, s3);
        lemma_append2(b, s0 + s1 + s2 + s3, seq![m0]);
        lemma_append2(b, s0 + s1 + s2 + s3 + seq![m0], seq![m1]);
        lemma_append2(b, s0 + s1 + s2 + s3 + seq![m0] + seq![m1], seq![m2]);
        lemma_append2(b, s0 + s1 + s2 + s3 + seq![m0] + seq![m1] + seq![m2], call_words(func_addr));
        lemma_append2(b, s0 + s1 + s2 + s3 + seq![m0] + seq![m1] + seq![m2] + call_words(func_addr), restore_words());
        assert(s0 + s1 + s2 + s3 + seq![m0] + seq![m1] + seq![m2] + call_words(func_addr) + restore_words()
            =~= call3_words(func_addr, arg0, arg1, arg2));
    }
}

/// The symbol-table location of a register-map location.
pub fn location_to_symbol(loc: Location) -> (r: Option<SymbolLocation>)
    ensures
        r == Some(match loc {
            Location::Register(x) => SymbolLocation::Register(x),
            Location::Stack(o) => SymbolLocation::Stack(o),
        }),
{
    Some(match loc {
        Location::Register(r) => SymbolLocation::Register(r),
        Location::Stack(off) => SymbolLocation::Stack(off),
    })
}

} // verus!
