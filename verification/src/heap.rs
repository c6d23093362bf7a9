//! Code sequences for heap-allocated lists.

use vstd::prelude::*;
use crate::encoder::{Reg, spec_mov_imm, encode_mov_imm};
use crate::branching::le_bytes;
use crate::emit::push_word;

verus! {

/// Byte offset of a list's length field.
pub const LIST_LEN_OFFSET: i32 = 0;

/// Byte offset of a list's capacity field.
pub const LIST_CAP_OFFSET: i32 = 8;

/// Byte offset of a list's data pointer.
pub const LIST_DATA_OFFSET: i32 = 16;

/// The bytes of a list of `capacity` elements: a 24-byte header and 8 bytes per element.
pub open spec fn list_bytes(capacity: u16) -> int {
    24 + capacity * 8
}

/// Emitters for list allocation and access.
pub struct HeapAllocator;

impl HeapAllocator {
    /// The code that puts the size of a `capacity`-element list in `x0`
    /// (`MOV x0, #size`), or no code when the size does not fit 16 bits.
    pub fn emit_list_alloc(capacity: u16) -> (r: Vec<u8>)
        ensures
            list_bytes(capacity) <= 0xFFFF ==> r@ == le_bytes(spec_mov_imm(Reg::X(0), list_bytes(capacity) as u16)),
            list_bytes(capacity) > 0xFFFF ==> r@.len() == 0,
    {
        let mut code: Vec<u8> = Vec::new();
        let element_size: u32 = 8;
        let header_size: u32 = 24;
        let total_size: u32 = header_size + (capacity as u32) * element_size;
        if total_size <= 0xFFFF {
            push_word(&mut code, encode_mov_imm(Reg::X(0), total_size as u16));
            assert(code@ =~= le_bytes(spec_mov_imm(Reg::X(0), list_bytes(capacity) as u16)));
        }
        code
    }

    /// The code that stores a list element: none yet.
    pub fn emit_list_store() -> (r: Vec<u8>)
        ensures
            r@.len() == 0,
    {
        Vec::new()
    }

    /// The code that loads a list element: none yet.
    pub fn emit_list_load() -> (r: Vec<u8>)
        ensures
            r@.len() == 0,
    {
        Vec::new()
    }
}

} // verus!
