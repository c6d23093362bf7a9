//! Building small functions word by word.

use vstd::prelude::*;
use crate::encoder::{Reg, spec_mov_imm, encode_mov_imm, encode_ret, encode_stp_fp_lr, encode_ldp_fp_lr};
use crate::branching::le_bytes;
use crate::emit::{push_word, words_le, lemma_words_le_one, lemma_words_le_append};

verus! {

/// Writes instruction words in little-endian order.
pub struct CodeEmitter {
    buf: Vec<u8>,
}

/// The words of a function that returns `value`: prologue, `MOV x0, #value`,
/// epilogue, `RET`.
pub open spec fn constant_function_words(value: u16) -> Seq<u32> {
    seq![0xA9BF7BFDu32, spec_mov_imm(Reg::X(0), value), 0xA8C17BFDu32, 0xD65F03C0u32]
}

impl CodeEmitter {
    /// The bytes written so far.
    pub closed spec fn bytes(&self) -> Seq<u8> {
        self.buf@
    }

    /// An empty emitter.
    pub fn new() -> (e: Self)
        ensures
            e.bytes() == Seq::<u8>::empty(),
    {
        Self { buf: Vec::new() }
    }

    /// Appends a word.
    pub fn emit_u32_le(&mut self, value: u32)
        ensures
            final(self).bytes() == old(self).bytes() + le_bytes(value),
    {
        push_word(&mut self.buf, value);
    }

    /// Appends `MOV rd, #imm`.
    pub fn emit_mov_imm(&mut self, rd: Reg, imm: u16)
        ensures
            final(self).bytes() == old(self).bytes() + le_bytes(spec_mov_imm(rd, imm)),
    {
        self.emit_u32_le(encode_mov_imm(rd, imm));
    }

    /// Appends `RET`.
    pub fn emit_ret(&mut self)
        ensures
            final(self).bytes() == old(self).bytes() + le_bytes(0xD65F03C0u32),
    {
        self.emit_u32_le(encode_ret());
    }

    /// Appends the prologue `STP X29, X30, [SP, #-16]!`.
    pub fn emit_prologue(&mut self)
        ensures
            final(self).bytes() == old(self).bytes() + le_bytes(0xA9BF7BFDu32),
    {
        self.emit_u32_le(encode_stp_fp_lr());
    }

    /// Appends the epilogue `LDP X29, X30, [SP], #16`.
    pub fn emit_epilogue(&mut self)
        ensures
            final(self).bytes() == old(self).bytes() + le_bytes(0xA8C17BFDu32),
    {
        self.emit_u32_le(encode_ldp_fp_lr());
    }

    /// The bytes written.
    pub fn into_bytes(self) -> (r: Vec<u8>)
        ensures
            r@ == self.bytes(),
    {
        self.buf
    }
}

/// The machine code of a function that returns the constant `value`.
pub fn constant_function_code(value: u16) -> (r: Vec<u8>)
    ensures
        r@ == words_le(constant_function_words(value)),
        r@.len() == 16,
{
    let mut emitter = CodeEmitter::new();
    emitter.emit_prologue();
    emitter.emit_mov_imm(Reg::X(0), value);
    emitter.emit_epilogue();
    emitter.emit_ret();
    let r = emitter.into_bytes();
    proof {
        let ws = constant_function_words(value);
        let (a, b, c, d) = (seq![ws[0]], seq![ws[1]], seq![ws[2]], seq![ws[3]]);
        lemma_words_le_one(ws[0]);
        lemma_words_le_one(ws[1]);
        lemma_words_le_one(ws[2]);
        lemma_words_le_one(ws[3]);
        lemma_words_le_append(a, b);
        lemma_words_le_append(a + b, c);
        lemma_words_le_append(a + b + c, d);
        assert(a + b + c + d =~= ws);
        assert(r@ =~= words_le(ws));
    }
    r
}

} // verus!
