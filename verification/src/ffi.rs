//! Calls from JIT code into runtime functions.

use vstd::prelude::*;
use crate::emit::{words_le, push_words, mov64_bytes_into, lemma_words_le_append, lemma_words_le_one};
use crate::encoder::{Reg, spec_blr, encode_blr};
use crate::regalloc::call_words;
use crate::emit::mov64_seq;

verus! {

/// A named runtime function and its address.
pub struct FfiHandle {
    pub ptr: u64,
    pub name: String,
}

impl FfiHandle {
    /// A handle for the function `name` at address `ptr`.
    pub fn from_ptr(name: &str, ptr: u64) -> (h: Self)
        ensures
            h.name@ == name@,
            h.ptr == ptr,
    {
        Self { ptr, name: name.to_owned() }
    }

    /// The function's address.
    pub fn addr(&self) -> (r: u64)
        ensures
            r == self.ptr,
    {
        self.ptr
    }
}

/// Emits calls to absolute addresses.
pub struct FfiEmitter;

impl FfiEmitter {
    /// The code that calls `func_addr`: the address loaded into `x9`, then `BLR x9`.
    pub fn emit_call(func_addr: u64) -> (r: Vec<u8>)
        ensures
            r@ == words_le(call_words(func_addr)),
    {
        let mut code: Vec<u8> = Vec::new();
        mov64_bytes_into(&mut code, Reg::X(9), func_addr);
        let blr = encode_blr(Reg::X(9));
        let tail = [blr];
        push_words(&mut code, &tail);
        proof {
            assert(tail@ =~= seq![spec_blr(Reg::X(9))]);
            lemma_words_le_append(mov64_seq(Reg::X(9), func_addr), seq![spec_blr(Reg::X(9))]);
            assert(Seq::<u8>::empty() + words_le(mov64_seq(Reg::X(9), func_addr)) =~= words_le(mov64_seq(Reg::X(9), func_addr)));
        }
        code
    }
}

} // verus!
