use icarus::encoder::{
    encode_add_imm, encode_add_reg, encode_bl, encode_blr, encode_ldp_fp_lr, encode_mov64,
    encode_mov_imm, encode_mul_reg, encode_ret, encode_sdiv_reg, encode_stp_fp_lr, encode_sub_imm,
    encode_sub_reg, Reg,
};

#[test]
fn test_encode_mov_imm() {
    // mov x0, #42
    assert_eq!(encode_mov_imm(Reg::X(0), 42), 0xD2800540);
    // mov w1, #10
    assert_eq!(encode_mov_imm(Reg::W(1), 10), 0x52800141);
}

#[test]
fn test_encode_ret() {
    assert_eq!(encode_ret(), 0xD65F03C0);
}

#[test]
fn test_encode_add_imm() {
    assert_eq!(encode_add_imm(Reg::X(0), Reg::X(0), 1), 0x91000400);
    assert_eq!(encode_add_imm(Reg::X(1), Reg::X(2), 10), 0x91002841);
}

#[test]
fn test_encode_add_reg() {
    assert_eq!(encode_add_reg(Reg::X(0), Reg::X(1), Reg::X(2)), 0x8B020020);
    assert_eq!(encode_add_reg(Reg::W(3), Reg::W(4), Reg::W(5)), 0x0B050083);
}

#[test]
fn test_encode_prologue_epilogue() {
    assert_eq!(encode_stp_fp_lr(), 0xA9BF7BFD);
    assert_eq!(encode_ldp_fp_lr(), 0xA8C17BFD);
}

#[test]
fn test_encode_sub_imm() {
    assert_eq!(encode_sub_imm(Reg::X(0), Reg::X(0), 1), 0xD1000400);
}

#[test]
fn test_encode_sub_reg() {
    assert_eq!(encode_sub_reg(Reg::X(0), Reg::X(1), Reg::X(2)), 0xCB020020);
}

#[test]
fn test_encode_mul_reg() {
    assert_eq!(encode_mul_reg(Reg::X(0), Reg::X(1), Reg::X(2)), 0x9B027C20);
}

#[test]
fn test_encode_sdiv_reg() {
    assert_eq!(encode_sdiv_reg(Reg::X(0), Reg::X(1), Reg::X(2)), 0x9AC20C20);
}

#[test]
fn test_encode_bl() {
    assert_eq!(encode_bl(0x1000), 0x94000000 | ((0x1000 >> 2) & 0x3FFFFFF) as u32);
}

#[test]
fn test_encode_blr() {
    assert_eq!(encode_blr(Reg::X(1)), 0xD63F0000 | (1 << 5));
}

#[test]
fn test_encode_mov64() {
    let result = encode_mov64(Reg::X(0), 0x123456789ABCDEF0);
    assert_eq!(result[0], 0xD29BDE00);
    assert_eq!(result[1], 0xF2B35780);
    assert_eq!(result[2], 0xF2CACF00);
    assert_eq!(result[3], 0xF2E24680);
}

#[test]
fn register_numbers_round_trip() {
    for n in 0u8..31 {
        assert_eq!(Reg::from_encoded(n, true).encode(), n);
        assert_eq!(Reg::from_encoded(n, false).encode(), n);
    }
    assert_eq!(Reg::from_encoded(31, true), Reg::XZR);
    assert_eq!(Reg::from_encoded(31, false), Reg::SP);
    assert_eq!(Reg::SP.encode(), 31);
}

#[test]
fn negative_branch_offsets_wrap_into_the_field() {
    // bl -4: imm26 of all ones
    assert_eq!(encode_bl(-4), 0x97FFFFFF);
}
