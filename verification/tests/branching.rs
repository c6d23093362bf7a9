use icarus::branching::{encode_b, encode_cmp_reg, BranchKind, LabelManager};
use icarus::encoder::Reg;

#[test]
fn test_encode_b() {
    let instr = encode_b(10);
    assert_eq!(instr & 0x3FFFFFF, 10);
}

#[test]
fn test_encode_cmp_reg() {
    let instr = encode_cmp_reg(Reg::X(0), Reg::X(1));
    assert!(instr != 0);
    assert_eq!(instr, 0xEB01001F);
}

#[test]
fn test_label_manager() {
    let mut mgr = LabelManager::new();
    mgr.define_label("loop", 0);
    mgr.define_label("end", 16);
    assert_eq!(mgr.label_offset("loop"), Some(0));
    assert_eq!(mgr.label_offset("end"), Some(16));
}

#[test]
fn redefining_a_label_moves_it() {
    let mut mgr = LabelManager::new();
    mgr.define_label("top", 4);
    mgr.define_label("top", 12);
    assert_eq!(mgr.label_offset("top"), Some(12));
    assert_eq!(mgr.label_offset("bottom"), None);
}

#[test]
fn patching_writes_each_branch_little_endian() {
    let mut mgr = LabelManager::new();
    mgr.define_label("target", 8);
    mgr.record_branch(0, "target", BranchKind::B);
    mgr.record_branch(4, "target", BranchKind::BNe);
    let mut code = vec![0u8; 12];
    assert_eq!(mgr.patch_branches(&mut code), Ok(()));
    // b #2 words forward
    assert_eq!(&code[0..4], &0x1400_0002u32.to_le_bytes());
    // b.ne 4 bytes forward: imm19 = 1
    assert_eq!(&code[4..8], &(0x5400_0001u32 | (1 << 5)).to_le_bytes());
    assert_eq!(&code[8..12], &[0, 0, 0, 0]);
}

#[test]
fn patching_stops_at_an_undefined_label() {
    let mut mgr = LabelManager::new();
    mgr.define_label("here", 0);
    mgr.record_branch(4, "here", BranchKind::B);
    mgr.record_branch(0, "nowhere", BranchKind::B);
    let mut code = vec![0u8; 8];
    assert_eq!(mgr.patch_branches(&mut code), Err("Undefined label: nowhere".to_string()));
    // the branch before the undefined one was patched: b -1 word
    assert_eq!(&code[4..8], &0x17FF_FFFFu32.to_le_bytes());
    assert_eq!(&code[0..4], &[0, 0, 0, 0]);
}
