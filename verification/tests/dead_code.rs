use icarus::ir::{IrInstr, IrValue};
use icarus::optimizer::{eliminate_dead_code, OptimizationStats};

fn s(x: &str) -> String {
    x.to_string()
}

fn load(d: &str, n: f64) -> IrInstr {
    IrInstr::LoadConst { dest: s(d), value: IrValue::Number(n.to_bits()) }
}

#[test]
fn unread_results_are_dropped() {
    let mut stats = OptimizationStats::default();
    let code = vec![load("a", 1.0), load("b", 2.0), IrInstr::Print { src: s("a") }];
    let out = eliminate_dead_code(code, &mut stats);
    assert_eq!(out, vec![load("a", 1.0), IrInstr::Print { src: s("a") }]);
    assert_eq!(stats.removed_dead, 1);
}

#[test]
fn a_dropped_instruction_still_counts_as_a_reader() {
    let mut stats = OptimizationStats::default();
    let code = vec![load("a", 1.0), IrInstr::Move { dest: s("b"), src: s("a") }];
    let out = eliminate_dead_code(code, &mut stats);
    assert_eq!(out, vec![load("a", 1.0)]);
    assert_eq!(stats.removed_dead, 1);
}

#[test]
fn side_effects_are_kept() {
    let mut stats = OptimizationStats::default();
    let code = vec![
        IrInstr::Input { dest: s("x"), prompt: s("p") },
        IrInstr::Call { dest: Some(s("y")), func: s("f"), args: vec![] },
    ];
    let out = eliminate_dead_code(code.clone(), &mut stats);
    assert_eq!(out, code);
    assert_eq!(stats.removed_dead, 0);
}

#[test]
fn code_with_jumps_is_left_alone() {
    let mut stats = OptimizationStats::default();
    let code = vec![IrInstr::Label { name: s("top") }, load("dead", 1.0), IrInstr::Jump { label: s("top") }];
    let out = eliminate_dead_code(code.clone(), &mut stats);
    assert_eq!(out, code);
    assert_eq!(stats.removed_dead, 0);
}
