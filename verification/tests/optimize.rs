use icarus::encoder::{encode_add_imm, encode_add_reg, encode_mov_imm, Reg};
use icarus::optimize::{CodegenOptimizer, LinearScanAllocator, PeepholeOptimizer};

#[test]
fn test_peephole_optimizer() {
    let mut opt = PeepholeOptimizer::new();
    let instrs = vec![0x12345678, 0x87654321];
    let result = opt.optimize(&instrs);
    assert_eq!(result.len(), 2);
}

#[test]
fn test_linear_scan_allocator() {
    let mut alloc = LinearScanAllocator::new();
    alloc.compute_liveness(&[
        (0, "x".to_string()),
        (5, "x".to_string()),
        (2, "y".to_string()),
        (8, "y".to_string()),
    ]);
    let assignment = alloc.allocate();
    assert!(assignment.contains_key("x"));
    assert!(assignment.contains_key("y"));
}

#[test]
fn test_codegen_optimizer() {
    let mut opt = CodegenOptimizer::new();
    let instrs = vec![0x11111111, 0x22222222];
    let result = opt.optimize(&instrs);
    assert_eq!(result.len(), 2);
}

#[test]
fn dead_adds_are_dropped() {
    let mut peephole = PeepholeOptimizer::new();
    let dead = encode_add_imm(Reg::X(0), Reg::X(0), 0);
    assert!(peephole.optimize(&[dead]).is_empty());
    let kept = [
        encode_add_imm(Reg::X(0), Reg::X(1), 0),
        encode_add_imm(Reg::X(2), Reg::X(2), 1),
        encode_add_imm(Reg::W(3), Reg::W(3), 0),
    ];
    assert_eq!(peephole.optimize(&kept), kept.to_vec());
    assert_eq!(peephole.optimize(&[1, dead, 2, dead]), vec![1, 2]);
}

#[test]
fn zero_then_add_becomes_a_move() {
    let mut peephole = PeepholeOptimizer::new();
    let code = [
        encode_mov_imm(Reg::X(3), 0),
        encode_add_reg(Reg::X(3), Reg::X(3), Reg::X(5)),
        0xD65F03C0,
    ];
    // mov x3, x5 is orr x3, xzr, x5.
    assert_eq!(peephole.optimize(&code), vec![0xAA0503E3, 0xD65F03C0]);
    let other = [encode_mov_imm(Reg::X(3), 0), encode_add_reg(Reg::X(4), Reg::X(3), Reg::X(5))];
    assert_eq!(peephole.optimize(&other), other.to_vec());
    let mut codegen = CodegenOptimizer::new();
    assert_eq!(codegen.optimize(&code), vec![0xAA0503E3, 0xD65F03C0]);
}

#[test]
fn registers_go_out_in_first_use_order() {
    let mut alloc = LinearScanAllocator::new();
    let names = ["a", "b", "c", "d", "e", "f", "g", "h", "i", "j"];
    let uses: Vec<(usize, String)> = names.iter().enumerate().map(|(i, n)| (i, n.to_string())).collect();
    alloc.compute_liveness(&uses);
    let assignment = alloc.allocate();
    for (i, n) in names.iter().enumerate() {
        let expected = if i < 8 { i as u8 } else { 0 };
        assert_eq!(assignment.get(n), Some(&expected));
    }
    assert_eq!(assignment.len(), 10);
}
