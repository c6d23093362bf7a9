//! ARM64 instruction encoders.
//!
//! Every ARM64 instruction is a 32-bit word. The functions here build the
//! words of a small instruction subset from their operands. Each encoding is
//! stated as a spec function over the instruction's fields, and the laws at the
//! end of the file show that the register and immediate fields can be read
//! back from the word.

use vstd::prelude::*;

verus! {

/// An ARM64 register operand.
///
/// `X(n)` is a 64-bit general register, `W(n)` its 32-bit view, `SP` the
/// stack pointer and `XZR` the zero register; the last two share number 31.
#[derive(Debug, Clone, Copy, PartialEq, Eq)]
pub enum Reg {
    X(u8),
    W(u8),
    SP,
    XZR,
}

/// The 5-bit register number of `r` (31 for `SP` and `XZR`).
pub open spec fn reg_num(r: Reg) -> u8 {
    match r {
        Reg::X(n) => n,
        Reg::W(n) => n,
        Reg::SP => 31,
        Reg::XZR => 31,
    }
}

/// Whether an instruction whose first operand is `r` works on 64 bits
/// (the `sf` bit): everything but a `W` register.
pub open spec fn is_wide(r: Reg) -> bool {
    !(r is W)
}

/// The register that a 5-bit number denotes, in a 64-bit or 32-bit context.
pub open spec fn reg_from_num(val: u8, is_64bit: bool) -> Reg {
    if val == 31 {
        if is_64bit { Reg::XZR } else { Reg::SP }
    } else if is_64bit {
        Reg::X(val)
    } else {
        Reg::W(val)
    }
}

impl Reg {
    /// Returns the 5-bit encoding of the register.
    pub fn encode(&self) -> (r: u8)
        ensures
            r == reg_num(*self),
    {
        match self {
            Reg::X(r) => *r,
            Reg::W(r) => *r,
            Reg::SP => 31,
            Reg::XZR => 31,
        }
    }

    /// Builds the register that an encoded number denotes.
    pub fn from_encoded(val: u8, is_64bit: bool) -> (r: Reg)
        ensures
            r == reg_from_num(val, is_64bit),
    {
        if val == 31 {
            if is_64bit {
                Reg::XZR
            } else {
                Reg::SP
            }
        } else if is_64bit {
            Reg::X(val)
        } else {
            Reg::W(val)
        }
    }
}

/// `sf` selects between the 64-bit and the 32-bit form of an opcode.
pub open spec fn pick(sf: bool, wide: u32, narrow: u32) -> u32 {
    if sf { wide } else { narrow }
}

/// Layout of a move-wide instruction: opcode, `imm16` in bits 5..21, `Rd` in bits 0..5.
pub open spec fn movz_word(base: u32, imm16: u16, rd: u8) -> u32 {
    base | ((imm16 as u32) << 5u32) | (rd as u32)
}

/// Layout of an add/subtract-immediate instruction: `imm12` at bit 10, `Rn` at 5, `Rd` at 0.
pub open spec fn imm12_word(base: u32, imm: u16, rn: u8, rd: u8) -> u32 {
    base | ((imm as u32) << 10u32) | ((rn as u32) << 5u32) | (rd as u32)
}

/// Layout of a three-register instruction: `Rm` at bit 16, `Rn` at 5, `Rd` at 0.
pub open spec fn reg3_word(base: u32, rm: u8, rn: u8, rd: u8) -> u32 {
    base | ((rm as u32) << 16u32) | ((rn as u32) << 5u32) | (rd as u32)
}

/// Layout of an unscaled load/store: `imm9` at bit 12, `Rn` at 5, `Rt` at 0.
pub open spec fn imm9_word(base: u32, imm9: u32, rn: u8, rt: u8) -> u32 {
    base | (imm9 << 12u32) | ((rn as u32) << 5u32) | (rt as u32)
}

/// The 9-bit two's complement field of a signed byte offset.
pub open spec fn imm9_of(offset: i16) -> u32 {
    ((offset as i32) & 0x1FFi32) as u32
}

/// `MOVZ Rd, #imm` (32- or 64-bit after the destination).
pub open spec fn spec_mov_imm(rd: Reg, imm: u16) -> u32 {
    movz_word(pick(is_wide(rd), 0xD2800000, 0x52800000), imm, reg_num(rd))
}

/// `ADD Rd, Rn, #imm`.
pub open spec fn spec_add_imm(rd: Reg, rn: Reg, imm: u16) -> u32 {
    imm12_word(pick(is_wide(rd), 0x91000000, 0x11000000), imm, reg_num(rn), reg_num(rd))
}

/// `SUB Rd, Rn, #imm`.
pub open spec fn spec_sub_imm(rd: Reg, rn: Reg, imm: u16) -> u32 {
    imm12_word(pick(is_wide(rd), 0xD1000000, 0x51000000), imm, reg_num(rn), reg_num(rd))
}

/// `ADD Rd, Rn, Rm`.
pub open spec fn spec_add_reg(rd: Reg, rn: Reg, rm: Reg) -> u32 {
    reg3_word(pick(is_wide(rd), 0x8B000000, 0x0B000000), reg_num(rm), reg_num(rn), reg_num(rd))
}

/// `SUB Rd, Rn, Rm`.
pub open spec fn spec_sub_reg(rd: Reg, rn: Reg, rm: Reg) -> u32 {
    reg3_word(pick(is_wide(rd), 0xCB000000, 0x4B000000), reg_num(rm), reg_num(rn), reg_num(rd))
}

/// `MUL Rd, Rn, Rm` (`MADD` with `XZR` as addend).
pub open spec fn spec_mul_reg(rd: Reg, rn: Reg, rm: Reg) -> u32 {
    reg3_word(pick(is_wide(rd), 0x9B007C00, 0x1B007C00), reg_num(rm), reg_num(rn), reg_num(rd))
}

/// `SDIV Rd, Rn, Rm`.
pub open spec fn spec_sdiv_reg(rd: Reg, rn: Reg, rm: Reg) -> u32 {
    reg3_word(pick(is_wide(rd), 0x9AC00C00, 0x1AC00C00), reg_num(rm), reg_num(rn), reg_num(rd))
}

/// `CMP Rn, #imm`, that is `SUBS XZR, Rn, #imm`.
pub open spec fn spec_cmp_imm(rn: Reg, imm: u16) -> u32 {
    imm12_word(pick(is_wide(rn), 0xF1000000, 0x71000000), imm, reg_num(rn), 31)
}

/// `STR Xt, [Xn, #offset]` with the offset scaled by 8.
pub open spec fn spec_str_imm(rt: Reg, rn: Reg, offset_bytes: u16) -> u32 {
    0xF9000000u32 | (((offset_bytes / 8) as u32) << 10u32) | ((reg_num(rn) as u32) << 5u32) | (reg_num(rt) as u32)
}

/// `LDR Xt, [Xn, #offset]` with the offset scaled by 8.
pub open spec fn spec_ldr_imm(rt: Reg, rn: Reg, offset_bytes: u16) -> u32 {
    0xF9400000u32 | (((offset_bytes / 8) as u32) << 10u32) | ((reg_num(rn) as u32) << 5u32) | (reg_num(rt) as u32)
}

/// `STUR Xt, [Xn, #offset]` with a signed 9-bit byte offset.
pub open spec fn spec_stur(rt: Reg, rn: Reg, offset_bytes: i16) -> u32 {
    imm9_word(0xF8000000, imm9_of(offset_bytes), reg_num(rn), reg_num(rt))
}

/// `LDUR Xt, [Xn, #offset]` with a signed 9-bit byte offset.
pub open spec fn spec_ldur(rt: Reg, rn: Reg, offset_bytes: i16) -> u32 {
    imm9_word(0xF8400000, imm9_of(offset_bytes), reg_num(rn), reg_num(rt))
}

/// `BL` with a byte offset: the word offset in the low 26 bits.
pub open spec fn spec_bl(offset: i32) -> u32 {
    0x94000000u32 | (((offset >> 2i32) & 0x3FFFFFFi32) as u32)
}

/// `BLR Xn`.
pub open spec fn spec_blr(rn: Reg) -> u32 {
    0xD63F0000u32 | ((reg_num(rn) as u32) << 5u32)
}

/// The 16-bit chunk `k` (0 = lowest) of a 64-bit value.
pub open spec fn chunk16(value: u64, k: u64) -> u32 {
    ((value >> (16 * k)) & 0xFFFFu64) as u32
}

/// Word `k` of the `MOVZ`/`MOVK` sequence that loads `value` into `reg`:
/// `MOVZ` for the lowest chunk, then `MOVK` with shift `hw = k`.
pub open spec fn spec_mov64_word(reg: Reg, value: u64, k: u64) -> u32 {
    pick(k == 0, 0xD2800000, 0xF2800000) | ((k as u32) << 21u32) | (chunk16(value, k) << 5u32)
        | (reg_num(reg) as u32)
}

/// Encodes `MOVZ Rd, #imm` (`MOV Rd, #imm`).
pub fn encode_mov_imm(rd: Reg, imm: u16) -> (r: u32)
    ensures
        r == spec_mov_imm(rd, imm),
{
    let sf: u32 = match rd {
        Reg::W(_) => 0,
        _ => 1,
    };
    let rd_enc = rd.encode();
    let mut instruction: u32 = if sf == 1 { 0xD2800000 } else { 0x52800000 };
    instruction = instruction | ((imm as u32) << 5u32);
    instruction = instruction | (rd_enc as u32);
    instruction
}

/// Encodes `RET` (return through `X30`).
pub fn encode_ret() -> (r: u32)
    ensures
        r == 0xD65F03C0u32,
{
    0xD65F03C0
}

/// Encodes `ADD Rd, Rn, #imm`.
pub fn encode_add_imm(rd: Reg, rn: Reg, imm: u16) -> (r: u32)
    ensures
        r == spec_add_imm(rd, rn, imm),
{
    let base: u32 = match rd {
        Reg::W(_) => 0x11000000,
        _ => 0x91000000,
    };
    base | ((imm as u32) << 10u32) | ((rn.encode() as u32) << 5u32) | (rd.encode() as u32)
}

/// Encodes `ADD Rd, Rn, Rm`.
pub fn encode_add_reg(rd: Reg, rn: Reg, rm: Reg) -> (r: u32)
    ensures
        r == spec_add_reg(rd, rn, rm),
{
    let base: u32 = match rd {
        Reg::W(_) => 0x0B000000,
        _ => 0x8B000000,
    };
    base | ((rm.encode() as u32) << 16u32) | ((rn.encode() as u32) << 5u32) | (rd.encode() as u32)
}

/// Encodes `STP X29, X30, [SP, #-16]!`, the standard prologue.
pub fn encode_stp_fp_lr() -> (r: u32)
    ensures
        r == 0xA9BF7BFDu32,
{
    0xA9BF7BFD
}

/// Encodes `LDP X29, X30, [SP], #16`, the standard epilogue.
pub fn encode_ldp_fp_lr() -> (r: u32)
    ensures
        r == 0xA8C17BFDu32,
{
    0xA8C17BFD
}

/// Encodes `STR Xt, [Xn, #offset]` (unsigned offset, a multiple of 8).
pub fn encode_str_imm(rt: Reg, rn: Reg, offset_bytes: u16) -> (r: u32)
    requires
        rt is X,
        offset_bytes % 8 == 0,
    ensures
        r == spec_str_imm(rt, rn, offset_bytes),
{
    let imm12 = (offset_bytes / 8) as u32;
    0xF9000000u32 | (imm12 << 10u32) | ((rn.encode() as u32) << 5u32) | (rt.encode() as u32)
}

/// Encodes `LDR Xt, [Xn, #offset]` (unsigned offset, a multiple of 8).
pub fn encode_ldr_imm(rt: Reg, rn: Reg, offset_bytes: u16) -> (r: u32)
    requires
        rt is X,
        offset_bytes % 8 == 0,
    ensures
        r == spec_ldr_imm(rt, rn, offset_bytes),
{
    let imm12 = (offset_bytes / 8) as u32;
    0xF9400000u32 | (imm12 << 10u32) | ((rn.encode() as u32) << 5u32) | (rt.encode() as u32)
}

/// Encodes `STUR Xt, [Xn, #offset]` (signed 9-bit byte offset).
pub fn encode_stur(rt: Reg, rn: Reg, offset_bytes: i16) -> (r: u32)
    requires
        rt is X,
        rn is X || rn is SP,
        -256 <= offset_bytes <= 255,
    ensures
        r == spec_stur(rt, rn, offset_bytes),
{
    let imm9 = ((offset_bytes as i32) & 0x1FFi32) as u32;
    0xF8000000u32 | (imm9 << 12u32) | ((rn.encode() as u32) << 5u32) | (rt.encode() as u32)
}

/// Encodes `LDUR Xt, [Xn, #offset]` (signed 9-bit byte offset).
pub fn encode_ldur(rt: Reg, rn: Reg, offset_bytes: i16) -> (r: u32)
    requires
        rt is X,
        rn is X || rn is SP,
        -256 <= offset_bytes <= 255,
    ensures
        r == spec_ldur(rt, rn, offset_bytes),
{
    let imm9 = ((offset_bytes as i32) & 0x1FFi32) as u32;
    0xF8400000u32 | (imm9 << 12u32) | ((rn.encode() as u32) << 5u32) | (rt.encode() as u32)
}

/// Encodes `SUB Rd, Rn, #imm`.
pub fn encode_sub_imm(rd: Reg, rn: Reg, imm: u16) -> (r: u32)
    ensures
        r == spec_sub_imm(rd, rn, imm),
{
    let base: u32 = match rd {
        Reg::W(_) => 0x51000000,
        _ => 0xD1000000,
    };
    base | ((imm as u32) << 10u32) | ((rn.encode() as u32) << 5u32) | (rd.encode() as u32)
}

/// Encodes `SUB Rd, Rn, Rm`.
pub fn encode_sub_reg(rd: Reg, rn: Reg, rm: Reg) -> (r: u32)
    ensures
        r == spec_sub_reg(rd, rn, rm),
{
    let base: u32 = match rd {
        Reg::W(_) => 0x4B000000,
        _ => 0xCB000000,
    };
    base | ((rm.encode() as u32) << 16u32) | ((rn.encode() as u32) << 5u32) | (rd.encode() as u32)
}

/// Encodes `MUL Rd, Rn, Rm`.
pub fn encode_mul_reg(rd: Reg, rn: Reg, rm: Reg) -> (r: u32)
    ensures
        r == spec_mul_reg(rd, rn, rm),
{
    let base: u32 = match rd {
        Reg::W(_) => 0x1B007C00,
        _ => 0x9B007C00,
    };
    base | ((rm.encode() as u32) << 16u32) | ((rn.encode() as u32) << 5u32) | (rd.encode() as u32)
}

/// Encodes `SDIV Rd, Rn, Rm`.
pub fn encode_sdiv_reg(rd: Reg, rn: Reg, rm: Reg) -> (r: u32)
    ensures
        r == spec_sdiv_reg(rd, rn, rm),
{
    let base: u32 = match rd {
        Reg::W(_) => 0x1AC00C00,
        _ => 0x9AC00C00,
    };
    base | ((rm.encode() as u32) << 16u32) | ((rn.encode() as u32) << 5u32) | (rd.encode() as u32)
}

/// Encodes `BL` to a byte offset relative to the instruction.
pub fn encode_bl(offset: i32) -> (r: u32)
    ensures
        r == spec_bl(offset),
{
    let imm26 = ((offset >> 2i32) & 0x3FFFFFFi32) as u32;
    0x94000000u32 | imm26
}

/// Encodes `BLR Xn`.
pub fn encode_blr(rn: Reg) -> (r: u32)
    ensures
        r == spec_blr(rn),
{
    0xD63F0000u32 | ((rn.encode() as u32) << 5u32)
}

/// Encodes the four `MOVZ`/`MOVK` instructions that load a 64-bit value.
pub fn encode_mov64(reg: Reg, value: u64) -> (r: [u32; 4])
    ensures
        forall|k: int| 0 <= k < 4 ==> #[trigger] r[k] == spec_mov64_word(reg, value, k as u64),
{
    let reg_enc = reg.encode() as u32;
    let imm0 = (value & 0xFFFFu64) as u32;
    let imm1 = ((value >> 16u64) & 0xFFFFu64) as u32;
    let imm2 = ((value >> 32u64) & 0xFFFFu64) as u32;
    let imm3 = ((value >> 48u64) & 0xFFFFu64) as u32;
    let instr0 = 0xD2800000u32 | (0u32 << 21u32) | (imm0 << 5u32) | reg_enc;
    let instr1 = 0xF2800000u32 | (1u32 << 21u32) | (imm1 << 5u32) | reg_enc;
    let instr2 = 0xF2800000u32 | (2u32 << 21u32) | (imm2 << 5u32) | reg_enc;
    let instr3 = 0xF2800000u32 | (3u32 << 21u32) | (imm3 << 5u32) | reg_enc;
    assert(value >> 0u64 == value) by (bit_vector);
    let r = [instr0, instr1, instr2, instr3];
    assert(r[0] == spec_mov64_word(reg, value, 0));
    assert(r[1] == spec_mov64_word(reg, value, 1));
    assert(r[2] == spec_mov64_word(reg, value, 2));
    assert(r[3] == spec_mov64_word(reg, value, 3));
    r
}

/// Assembles an add/subtract-immediate word from its fields.
pub fn build_imm12_word(base: u32, imm: u16, rn: u8, rd: u8) -> (r: u32)
    ensures
        r == imm12_word(base, imm, rn, rd),
{
    base | ((imm as u32) << 10u32) | ((rn as u32) << 5u32) | (rd as u32)
}

/// Assembles a three-register word from its fields.
pub fn build_reg3_word(base: u32, rm: u8, rn: u8, rd: u8) -> (r: u32)
    ensures
        r == reg3_word(base, rm, rn, rd),
{
    base | ((rm as u32) << 16u32) | ((rn as u32) << 5u32) | (rd as u32)
}

/// Encodes `CMP Rn, #imm`.
pub fn encode_cmp_imm(rn: Reg, imm: u16) -> (r: u32)
    ensures
        r == spec_cmp_imm(rn, imm),
{
    let base: u32 = match rn {
        Reg::W(_) => 0x71000000,
        _ => 0xF1000000,
    };
    build_imm12_word(base, imm, rn.encode(), 31)
}


/// A register named by a number below 31 is rebuilt from its encoding:
/// `X(n)` in a 64-bit context, `W(n)` in a 32-bit one.
pub proof fn law_reg_number_roundtrip(r: Reg)
    requires
        reg_num(r) < 31,
        r is X || r is W,
    ensures
        reg_from_num(reg_num(r), r is X) == r,
{
}

/// `MOV Rd, #imm`: for a register number below 32, `Rd` sits in bits 0..5,
/// the immediate in bits 5..21, and bit 31 tells a 64-bit destination.
pub proof fn law_mov_imm_fields(rd: Reg, imm: u16)
    requires
        reg_num(rd) < 32,
    ensures
        spec_mov_imm(rd, imm) & 0x1Fu32 == reg_num(rd) as u32,
        (spec_mov_imm(rd, imm) >> 5u32) & 0xFFFFu32 == imm as u32,
        (spec_mov_imm(rd, imm) >> 31u32 == 1u32) == is_wide(rd),
{
    let n = reg_num(rd);
    let base = pick(is_wide(rd), 0xD2800000, 0x52800000);
    assert(base == 0xD2800000u32 || base == 0x52800000u32);
    assert(n < 32 && (base == 0xD2800000u32 || base == 0x52800000u32) ==> {
        let w = base | ((imm as u32) << 5u32) | (n as u32);
        &&& w & 0x1Fu32 == n as u32
        &&& (w >> 5u32) & 0xFFFFu32 == imm as u32
        &&& (w >> 31u32 == 1u32) == (base == 0xD2800000u32)
    }) by (bit_vector);
}

/// Add/subtract-immediate and compare-immediate words: for an immediate
/// below 4096 and register numbers below 32, `Rd`, `Rn` and `imm12` are read
/// back from bits 0..5, 5..10 and 10..22.
pub proof fn law_imm12_fields(base: u32, imm: u16, rn: u8, rd: u8)
    requires
        imm < 4096,
        rn < 32,
        rd < 32,
        base & 0x3FFFFFu32 == 0,
    ensures
        imm12_word(base, imm, rn, rd) & 0x1Fu32 == rd as u32,
        (imm12_word(base, imm, rn, rd) >> 5u32) & 0x1Fu32 == rn as u32,
        (imm12_word(base, imm, rn, rd) >> 10u32) & 0xFFFu32 == imm as u32,
        imm12_word(base, imm, rn, rd) & 0xFFC00000u32 == base,
{
    assert(imm < 4096 && rn < 32 && rd < 32 && base & 0x3FFFFFu32 == 0 ==> {
        let w = base | ((imm as u32) << 10u32) | ((rn as u32) << 5u32) | (rd as u32);
        &&& w & 0x1Fu32 == rd as u32
        &&& (w >> 5u32) & 0x1Fu32 == rn as u32
        &&& (w >> 10u32) & 0xFFFu32 == imm as u32
        &&& w & 0xFFC00000u32 == base
    }) by (bit_vector);
}

/// Three-register words: for register numbers below 32, `Rd`, `Rn`, `Rm`
/// are read back from bits 0..5, 5..10 and 16..21, and the opcode bits stay.
pub proof fn law_reg3_fields(base: u32, rm: u8, rn: u8, rd: u8)
    requires
        rm < 32,
        rn < 32,
        rd < 32,
        base & 0x001F03FFu32 == 0,
    ensures
        reg3_word(base, rm, rn, rd) & 0x1Fu32 == rd as u32,
        (reg3_word(base, rm, rn, rd) >> 5u32) & 0x1Fu32 == rn as u32,
        (reg3_word(base, rm, rn, rd) >> 16u32) & 0x1Fu32 == rm as u32,
        reg3_word(base, rm, rn, rd) & !0x001F03FFu32 == base,
{
    assert(rm < 32 && rn < 32 && rd < 32 && base & 0x001F03FFu32 == 0 ==> {
        let w = base | ((rm as u32) << 16u32) | ((rn as u32) << 5u32) | (rd as u32);
        &&& w & 0x1Fu32 == rd as u32
        &&& (w >> 5u32) & 0x1Fu32 == rn as u32
        &&& (w >> 16u32) & 0x1Fu32 == rm as u32
        &&& w & !0x001F03FFu32 == base
    }) by (bit_vector);
}

/// The unscaled load/store offset field holds the offset in two's
/// complement: sign-extending the 9-bit field gives the offset back.
pub proof fn law_imm9_roundtrip(offset: i16)
    requires
        -256 <= offset <= 255,
    ensures
        imm9_of(offset) < 512,
        (if imm9_of(offset) < 256 { imm9_of(offset) as int } else { imm9_of(offset) - 512 }) == offset,
{
    assert(-256 <= offset <= 255 ==> {
        let f = ((offset as i32) & 0x1FFi32) as u32;
        &&& f < 512
        &&& (if f < 256 { f as int } else { f - 512 }) == offset
    }) by (bit_vector);
}

/// The `MOVZ`/`MOVK` sequence of `encode_mov64` loads the value: the
/// immediates of its four words, each shifted by `16 * hw`, add up to the value,
/// and each word names the register and the chunk index `hw`.
pub proof fn law_mov64_loads_value(reg: Reg, value: u64)
    requires
        reg_num(reg) < 32,
    ensures
        forall|k: u64| k < 4 ==> (#[trigger] spec_mov64_word(reg, value, k) >> 5u32) & 0xFFFFu32
            == chunk16(value, k),
        forall|k: u64| k < 4 ==> #[trigger] spec_mov64_word(reg, value, k) & 0x1Fu32
            == reg_num(reg) as u32,
        forall|k: u64| k < 4 ==> (#[trigger] spec_mov64_word(reg, value, k) >> 21u32) & 3u32
            == k as u32,
        (chunk16(value, 0) as u64) | ((chunk16(value, 1) as u64) << 16u64) | ((chunk16(value, 2)
            as u64) << 32u64) | ((chunk16(value, 3) as u64) << 48u64) == value,
{
    let n = reg_num(reg);
    assert forall|k: u64| k < 4 implies {
        &&& (#[trigger] spec_mov64_word(reg, value, k) >> 5u32) & 0xFFFFu32 == chunk16(value, k)
        &&& spec_mov64_word(reg, value, k) & 0x1Fu32 == n as u32
        &&& (spec_mov64_word(reg, value, k) >> 21u32) & 3u32 == k as u32
    } by {
        let c = chunk16(value, k);
        let base = pick(k == 0, 0xD2800000, 0xF2800000);
        assert(c == ((value >> (16 * k)) & 0xFFFFu64) as u32);
        assert(((value >> (16 * k)) & 0xFFFFu64) as u32 <= 0xFFFF) by (bit_vector);
        assert(base == 0xD2800000u32 || base == 0xF2800000u32);
        assert(c <= 0xFFFF && n < 32 && k < 4 && (base == 0xD2800000u32 || base == 0xF2800000u32) ==> {
            let w = base | ((k as u32) << 21u32) | (c << 5u32) | (n as u32);
            &&& (w >> 5u32) & 0xFFFFu32 == c
            &&& w & 0x1Fu32 == n as u32
            &&& (w >> 21u32) & 3u32 == k as u32
        }) by (bit_vector);
    }
    assert(chunk16(value, 0) == ((value >> 0u64) & 0xFFFFu64) as u32);
    assert(chunk16(value, 1) == ((value >> 16u64) & 0xFFFFu64) as u32);
    assert(chunk16(value, 2) == ((value >> 32u64) & 0xFFFFu64) as u32);
    assert(chunk16(value, 3) == ((value >> 48u64) & 0xFFFFu64) as u32);
    assert((((value >> 0u64) & 0xFFFFu64) as u32 as u64) | ((((value >> 16u64) & 0xFFFFu64) as u32
        as u64) << 16u64) | ((((value >> 32u64) & 0xFFFFu64) as u32 as u64) << 32u64) | ((((value
        >> 48u64) & 0xFFFFu64) as u32 as u64) << 48u64) == value) by (bit_vector);
}

/// The opcode bits of the three-register arithmetic words, outside the
/// register fields, are those of the ARM64 architecture: `ADD` 0x0B000000 /
/// 0x8B000000, `SUB` 0x4B000000 / 0xCB000000, `MUL` (`MADD` with `XZR`)
/// 0x1B007C00 / 0x9B007C00 and `SDIV` 0x1AC00C00 / 0x9AC00C00 for a 32-bit /
/// 64-bit destination; and `SUB` is `ADD` with the subtract bit (bit 30) set,
/// so the two never give the same word.
pub proof fn law_reg3_opcodes(rd: Reg, rn: Reg, rm: Reg)
    requires
        reg_num(rd) < 32,
        reg_num(rn) < 32,
        reg_num(rm) < 32,
    ensures
        spec_add_reg(rd, rn, rm) & !0x001F03FFu32 == if rd is W { 0x0B000000u32 } else { 0x8B000000u32 },
        spec_sub_reg(rd, rn, rm) & !0x001F03FFu32 == if rd is W { 0x4B000000u32 } else { 0xCB000000u32 },
        spec_mul_reg(rd, rn, rm) & !0x001F03FFu32 == if rd is W { 0x1B007C00u32 } else { 0x9B007C00u32 },
        spec_sdiv_reg(rd, rn, rm) & !0x001F03FFu32 == if rd is W { 0x1AC00C00u32 } else { 0x9AC00C00u32 },
        spec_add_reg(rd, rn, rm) & 0x40000000u32 == 0,
        spec_sub_reg(rd, rn, rm) == spec_add_reg(rd, rn, rm) | 0x40000000u32,
        spec_sub_reg(rd, rn, rm) != spec_add_reg(rd, rn, rm),
{
    let (d, n, m) = (reg_num(rd), reg_num(rn), reg_num(rm));
    assert((0x8B000000u32 & 0x001F03FFu32 == 0 && 0x0B000000u32 & 0x001F03FFu32 == 0) && (0xCB000000u32 & 0x001F03FFu32 == 0 && 0x4B000000u32 & 0x001F03FFu32 == 0) && (0x9B007C00u32 & 0x001F03FFu32 == 0 && 0x1B007C00u32 & 0x001F03FFu32 == 0) && (0x9AC00C00u32 & 0x001F03FFu32 == 0 && 0x1AC00C00u32 & 0x001F03FFu32 == 0) && (0x40000000u32 & 0x001F03FFu32 == 0)) by (bit_vector);
    law_reg3_fields(pick(is_wide(rd), 0x8B000000, 0x0B000000), m, n, d);
    law_reg3_fields(pick(is_wide(rd), 0xCB000000, 0x4B000000), m, n, d);
    law_reg3_fields(pick(is_wide(rd), 0x9B007C00, 0x1B007C00), m, n, d);
    law_reg3_fields(pick(is_wide(rd), 0x9AC00C00, 0x1AC00C00), m, n, d);
    lemma_reg3_set_bit(pick(is_wide(rd), 0x8B000000, 0x0B000000), 0x40000000u32, m, n, d);
    assert((0x8B000000u32 | 0x40000000u32 == 0xCB000000u32) && (0x0B000000u32 | 0x40000000u32 == 0x4B000000u32) && (0x8B000000u32 & 0x40000000u32 == 0) && (0x0B000000u32 & 0x40000000u32 == 0)) by (bit_vector);
}

/// Setting an opcode bit outside the register fields of a three-register
/// word sets it in the word, and a word has such a bit exactly when its
/// opcode has it.
pub(crate) proof fn lemma_reg3_set_bit(base: u32, bit: u32, rm: u8, rn: u8, rd: u8)
    requires
        rm < 32,
        rn < 32,
        rd < 32,
        bit & 0x001F03FFu32 == 0,
        bit != 0,
    ensures
        reg3_word(base | bit, rm, rn, rd) == reg3_word(base, rm, rn, rd) | bit,
        reg3_word(base, rm, rn, rd) & bit == base & bit,
{
    assert(rm < 32 && rn < 32 && rd < 32 && bit & 0x001F03FFu32 == 0 ==> {
        &&& (base | bit) | ((rm as u32) << 16u32) | ((rn as u32) << 5u32) | (rd as u32) == (base | ((rm as u32) << 16u32) | ((rn as u32) << 5u32) | (rd as u32)) | bit
        &&& (base | ((rm as u32) << 16u32) | ((rn as u32) << 5u32) | (rd as u32)) & bit == base & bit
    }) by (bit_vector);
}

/// The immediate forms follow the same architecture: `ADD #imm`
/// 0x11000000 / 0x91000000, and `SUB #imm` the same with the subtract bit
/// (bit 30) set and the flag bit (bit 29) clear.
pub proof fn law_imm12_opcodes(rd: Reg, rn: Reg, imm: u16)
    requires
        reg_num(rd) < 32,
        reg_num(rn) < 32,
        imm < 4096,
    ensures
        spec_add_imm(rd, rn, imm) & 0xFFC00000u32 == if rd is W { 0x11000000u32 } else { 0x91000000u32 },
        spec_sub_imm(rd, rn, imm) & 0xFFC00000u32 == if rd is W { 0x51000000u32 } else { 0xD1000000u32 },
        spec_sub_imm(rd, rn, imm) == spec_add_imm(rd, rn, imm) | 0x40000000u32,
        spec_add_imm(rd, rn, imm) & 0x40000000u32 == 0,
        spec_sub_imm(rd, rn, imm) & 0x20000000u32 == 0,
{
    let (d, n) = (reg_num(rd), reg_num(rn));
    assert((0x91000000u32 & 0x3FFFFFu32 == 0 && 0x11000000u32 & 0x3FFFFFu32 == 0) && (0xD1000000u32 & 0x3FFFFFu32 == 0 && 0x51000000u32 & 0x3FFFFFu32 == 0) && (0x40000000u32 & 0x3FFFFFu32 == 0)) by (bit_vector);
    law_imm12_fields(pick(is_wide(rd), 0x91000000, 0x11000000), imm, n, d);
    law_imm12_fields(pick(is_wide(rd), 0xD1000000, 0x51000000), imm, n, d);
    lemma_imm12_set_bit(pick(is_wide(rd), 0x91000000, 0x11000000), 0x40000000u32, imm, n, d);
    assert(0x20000000u32 & 0x3FFFFFu32 == 0) by (bit_vector);
    lemma_imm12_set_bit(pick(is_wide(rd), 0xD1000000, 0x51000000), 0x20000000u32, imm, n, d);
    assert((0x91000000u32 | 0x40000000u32 == 0xD1000000u32) && (0x11000000u32 | 0x40000000u32 == 0x51000000u32) && (0x91000000u32 & 0x40000000u32 == 0) && (0x11000000u32 & 0x40000000u32 == 0) && (0xD1000000u32 & 0x20000000u32 == 0) && (0x51000000u32 & 0x20000000u32 == 0)) by (bit_vector);
}

/// Setting an opcode bit above the fields of an add/subtract-immediate
/// word sets it in the word, and a word has such a bit exactly when its
/// opcode has it.
proof fn lemma_imm12_set_bit(base: u32, bit: u32, imm: u16, rn: u8, rd: u8)
    requires
        imm < 4096,
        rn < 32,
        rd < 32,
        bit & 0x3FFFFFu32 == 0,
    ensures
        imm12_word(base | bit, imm, rn, rd) == imm12_word(base, imm, rn, rd) | bit,
        imm12_word(base, imm, rn, rd) & bit == base & bit,
{
    assert(imm < 4096 && rn < 32 && rd < 32 && bit & 0x3FFFFFu32 == 0 ==> {
        let f = ((imm as u32) << 10u32) | ((rn as u32) << 5u32) | (rd as u32);
        &&& (base | bit) | ((imm as u32) << 10u32) | ((rn as u32) << 5u32) | (rd as u32) == (base | ((imm as u32) << 10u32) | ((rn as u32) << 5u32) | (rd as u32)) | bit
        &&& (base | ((imm as u32) << 10u32) | ((rn as u32) << 5u32) | (rd as u32)) & bit == base & bit
    }) by (bit_vector);
}

/// `CMP Rn, #imm` is `SUBS` into register 31: the word of `SUB` into
/// register 31 of the same width as `Rn`, with the flag bit (bit 29) set.
pub proof fn law_compare_is_flag_setting_subtract(rn: Reg, imm: u16)
    requires
        reg_num(rn) < 32,
        imm < 4096,
    ensures
        spec_cmp_imm(rn, imm) == spec_sub_imm(if rn is W { Reg::W(31) } else { Reg::XZR }, rn, imm) | 0x20000000u32,
{
    assert(0x20000000u32 & 0x3FFFFFu32 == 0) by (bit_vector);
    lemma_imm12_set_bit(pick(is_wide(rn), 0xD1000000, 0x51000000), 0x20000000u32, imm, reg_num(rn), 31);
    assert((0xD1000000u32 | 0x20000000u32 == 0xF1000000u32) && (0x51000000u32 | 0x20000000u32 == 0x71000000u32)) by (bit_vector);
}

/// Loads are stores with the load bit (bit 22) set, in both the scaled and
/// the unscaled form.
pub proof fn law_load_is_store_with_load_bit(rt: Reg, rn: Reg, offset: u16, unscaled: i16)
    requires
        reg_num(rt) < 32,
        reg_num(rn) < 32,
        offset < 32768,
    ensures
        spec_ldr_imm(rt, rn, offset) == spec_str_imm(rt, rn, offset) | 0x00400000u32,
        spec_str_imm(rt, rn, offset) & 0x00400000u32 == 0,
        spec_ldur(rt, rn, unscaled) == spec_stur(rt, rn, unscaled) | 0x00400000u32,
        spec_stur(rt, rn, unscaled) & 0x00400000u32 == 0,
{
    let (t, n) = (reg_num(rt), reg_num(rn));
    let o = (offset / 8) as u32;
    let f = imm9_of(unscaled);
    assert(f == ((unscaled as i32) & 0x1FFi32) as u32);
    assert(((unscaled as i32) & 0x1FFi32) as u32 <= 0x1FF) by (bit_vector);
    assert(o < 4096);
    assert(t < 32 && n < 32 && o < 4096 && f <= 0x1FF ==> {
        &&& (0xF9400000u32 | (o << 10u32) | ((n as u32) << 5u32) | (t as u32)) == (0xF9000000u32 | (o << 10u32) | ((n as u32) << 5u32) | (t as u32)) | 0x00400000u32
        &&& (0xF9000000u32 | (o << 10u32) | ((n as u32) << 5u32) | (t as u32)) & 0x00400000u32 == 0
        &&& (0xF8400000u32 | (f << 12u32) | ((n as u32) << 5u32) | (t as u32)) == (0xF8000000u32 | (f << 12u32) | ((n as u32) << 5u32) | (t as u32)) | 0x00400000u32
        &&& (0xF8000000u32 | (f << 12u32) | ((n as u32) << 5u32) | (t as u32)) & 0x00400000u32 == 0
    }) by (bit_vector);
}

/// The remaining words carry the architecture's opcodes outside their
/// operand fields: `MOVZ` 0x52800000 / 0xD2800000, `STR`/`LDR` (unsigned
/// offset) 0xF9000000 / 0xF9400000, `STUR`/`LDUR` 0xF8000000 / 0xF8400000,
/// `BLR` 0xD63F0000 and `BL` 0x94000000.
pub proof fn law_fixed_opcodes(rd: Reg, rn: Reg, imm: u16, offset: u16, unscaled: i16)
    requires
        reg_num(rd) < 32,
        reg_num(rn) < 32,
        offset < 32768,
    ensures
        spec_mov_imm(rd, imm) & 0xFFE00000u32 == if rd is W { 0x52800000u32 } else { 0xD2800000u32 },
        spec_str_imm(rd, rn, offset) & 0xFFC00000u32 == 0xF9000000u32,
        spec_ldr_imm(rd, rn, offset) & 0xFFC00000u32 == 0xF9400000u32,
        spec_stur(rd, rn, unscaled) & 0xFFE00C00u32 == 0xF8000000u32,
        spec_ldur(rd, rn, unscaled) & 0xFFE00C00u32 == 0xF8400000u32,
        spec_blr(rn) & !0x3E0u32 == 0xD63F0000u32,
        (spec_blr(rn) >> 5u32) & 0x1Fu32 == reg_num(rn) as u32,
{
    let (d, n) = (reg_num(rd), reg_num(rn));
    let o = (offset / 8) as u32;
    let f = imm9_of(unscaled);
    assert(((unscaled as i32) & 0x1FFi32) as u32 <= 0x1FF) by (bit_vector);
    assert(o < 4096);
    let b = pick(is_wide(rd), 0xD2800000, 0x52800000);
    assert(b == 0xD2800000u32 || b == 0x52800000u32);
    assert(d < 32 && n < 32 && o < 4096 && f <= 0x1FF && (b == 0xD2800000u32 || b == 0x52800000u32) ==> {
        &&& (b | ((imm as u32) << 5u32) | (d as u32)) & 0xFFE00000u32 == b
        &&& (0xF9000000u32 | (o << 10u32) | ((n as u32) << 5u32) | (d as u32)) & 0xFFC00000u32 == 0xF9000000u32
        &&& (0xF9400000u32 | (o << 10u32) | ((n as u32) << 5u32) | (d as u32)) & 0xFFC00000u32 == 0xF9400000u32
        &&& (0xF8000000u32 | (f << 12u32) | ((n as u32) << 5u32) | (d as u32)) & 0xFFE00C00u32 == 0xF8000000u32
        &&& (0xF8400000u32 | (f << 12u32) | ((n as u32) << 5u32) | (d as u32)) & 0xFFE00C00u32 == 0xF8400000u32
        &&& (0xD63F0000u32 | ((n as u32) << 5u32)) & !0x3E0u32 == 0xD63F0000u32
        &&& ((0xD63F0000u32 | ((n as u32) << 5u32)) >> 5u32) & 0x1Fu32 == n as u32
    }) by (bit_vector);
}

/// `BL` to a byte offset that is a multiple of 4 within its reach: the
/// opcode is 0x94000000 and its 26-bit field, sign-extended and times 4,
/// gives the offset back.
pub proof fn law_branch_link_offset(offset: i32)
    requires
        offset % 4 == 0,
        -0x8000000 <= offset < 0x8000000,
    ensures
        spec_bl(offset) & 0xFC000000u32 == 0x94000000u32,
        ({
            let f = spec_bl(offset) & 0x3FFFFFFu32;
            (if f < 0x2000000 { f as int } else { f - 0x4000000 }) * 4 == offset
        }),
{
    assert(offset % 4 == 0 && -0x8000000 <= offset < 0x8000000 ==> {
        let w = 0x94000000u32 | (((offset >> 2i32) & 0x3FFFFFFi32) as u32);
        let f = w & 0x3FFFFFFu32;
        &&& w & 0xFC000000u32 == 0x94000000u32
        &&& (if f < 0x2000000 { f as int } else { f - 0x4000000 }) * 4 == offset
    }) by (bit_vector);
}

} // verus!
