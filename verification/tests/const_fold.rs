use icarus::const_fold::ConstTable;
use icarus::ir::{IrInstr, IrValue};
use icarus::optimizer::OptimizationStats;

fn s(x: &str) -> String {
    x.to_string()
}

fn text(d: &str, t: &str) -> IrInstr {
    IrInstr::LoadConst { dest: s(d), value: IrValue::String(s(t)) }
}

fn truth(d: &str, b: bool) -> IrInstr {
    IrInstr::LoadConst { dest: s(d), value: IrValue::Bool(b) }
}

fn number(d: &str, n: f64) -> IrInstr {
    IrInstr::LoadConst { dest: s(d), value: IrValue::Number(n.to_bits()) }
}

#[test]
fn texts_are_concatenated() {
    let mut t = ConstTable::new();
    let mut stats = OptimizationStats::default();
    assert_eq!(t.fold_step(text("a", "ab"), None, &mut stats), Some(text("a", "ab")));
    assert_eq!(t.fold_step(text("b", "cd"), None, &mut stats), Some(text("b", "cd")));
    let add = IrInstr::Add { dest: s("c"), left: s("a"), right: s("b") };
    assert_eq!(t.number_operands(&add), None);
    assert_eq!(t.fold_step(add, None, &mut stats), Some(text("c", "abcd")));
    assert_eq!(stats.const_folds, 1);
    assert_eq!(t.get("c"), Some(&IrValue::String(s("abcd"))));
}

#[test]
fn number_operations_take_the_computed_value() {
    let mut t = ConstTable::new();
    let mut stats = OptimizationStats::default();
    t.fold_step(number("a", 2.0), None, &mut stats);
    t.fold_step(number("b", 3.0), None, &mut stats);
    let mul = IrInstr::Mul { dest: s("c"), left: s("a"), right: s("b") };
    assert_eq!(t.number_operands(&mul), Some((2.0f64.to_bits(), 3.0f64.to_bits())));
    let out = t.fold_step(mul, Some(IrValue::Number(6.0f64.to_bits())), &mut stats);
    assert_eq!(out, Some(number("c", 6.0)));
    assert_eq!(stats.const_folds, 1);
}

#[test]
fn an_unfolded_operation_forgets_its_slot() {
    let mut t = ConstTable::new();
    let mut stats = OptimizationStats::default();
    t.fold_step(number("a", 1.0), None, &mut stats);
    t.fold_step(number("b", 0.0), None, &mut stats);
    t.fold_step(number("c", 5.0), None, &mut stats);
    let div = IrInstr::Div { dest: s("c"), left: s("a"), right: s("b") };
    assert_eq!(t.fold_step(div.clone(), None, &mut stats), Some(div));
    assert_eq!(t.get("c"), None);
    assert_eq!(stats.const_folds, 0);
}

#[test]
fn equality_of_texts_and_of_different_kinds() {
    let mut t = ConstTable::new();
    let mut stats = OptimizationStats::default();
    t.fold_step(text("a", "x"), None, &mut stats);
    t.fold_step(text("b", "x"), None, &mut stats);
    t.fold_step(truth("c", true), None, &mut stats);
    let eq = IrInstr::Eq { dest: s("d"), left: s("a"), right: s("b") };
    assert_eq!(t.fold_step(eq, None, &mut stats), Some(truth("d", true)));
    let ne = IrInstr::Ne { dest: s("e"), left: s("a"), right: s("c") };
    assert_eq!(t.fold_step(ne, None, &mut stats), Some(truth("e", true)));
    let and = IrInstr::LogicAnd { dest: s("f"), left: s("c"), right: s("d") };
    assert_eq!(t.fold_step(and, None, &mut stats), Some(truth("f", true)));
    let not = IrInstr::LogicNot { dest: s("g"), src: s("f") };
    assert_eq!(t.fold_step(not, None, &mut stats), Some(truth("g", false)));
    assert_eq!(stats.const_folds, 4);
}

#[test]
fn moves_propagate_and_self_moves_vanish() {
    let mut t = ConstTable::new();
    let mut stats = OptimizationStats::default();
    t.fold_step(text("a", "hi"), None, &mut stats);
    let mv = IrInstr::Move { dest: s("b"), src: s("a") };
    assert_eq!(t.fold_step(mv, None, &mut stats), Some(text("b", "hi")));
    let own = IrInstr::Move { dest: s("b"), src: s("b") };
    assert_eq!(t.fold_step(own, None, &mut stats), None);
    let unknown = IrInstr::Move { dest: s("b"), src: s("z") };
    assert_eq!(t.fold_step(unknown.clone(), None, &mut stats), Some(unknown));
    assert_eq!(t.get("b"), None);
    assert_eq!(stats.const_folds, 1);
    assert_eq!(stats.removed_dead, 1);
}

#[test]
fn known_branches_are_simplified_and_forget_constants() {
    let mut t = ConstTable::new();
    let mut stats = OptimizationStats::default();
    t.fold_step(truth("c", true), None, &mut stats);
    let jump_if = IrInstr::JumpIf { cond: s("c"), label: s("end") };
    assert_eq!(t.fold_step(jump_if, None, &mut stats), Some(IrInstr::Jump { label: s("end") }));
    assert_eq!(t.get("c"), None);
    t.fold_step(number("n", 0.0), None, &mut stats);
    let on_number = IrInstr::JumpIf { cond: s("n"), label: s("end") };
    assert_eq!(t.number_operands(&on_number), Some((0, 0)));
    assert_eq!(t.fold_step(on_number, Some(IrValue::Bool(false)), &mut stats), None);
    assert_eq!(stats.simplified_branches, 2);
}

#[test]
fn labels_forget_and_outside_values_overwrite() {
    let mut t = ConstTable::new();
    let mut stats = OptimizationStats::default();
    t.fold_step(text("a", "x"), None, &mut stats);
    t.fold_step(text("b", "y"), None, &mut stats);
    let input = IrInstr::Input { dest: s("a"), prompt: s("?") };
    assert_eq!(t.fold_step(input.clone(), None, &mut stats), Some(input));
    assert_eq!(t.get("a"), None);
    assert_eq!(t.get("b"), Some(&IrValue::String(s("y"))));
    let label = IrInstr::Label { name: s("top") };
    assert_eq!(t.fold_step(label.clone(), None, &mut stats), Some(label));
    assert_eq!(t.get("b"), None);
}
