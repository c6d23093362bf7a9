use icarus::analyzer::{validate_stack_alignment, Analyzer};
use icarus::ir::{IrFunction, IrInstr, IrProgram, IrValue};

fn s(x: &str) -> String {
    x.to_string()
}

fn func(name: &str, params: &[&str], instructions: Vec<IrInstr>) -> IrFunction {
    IrFunction {
        name: s(name),
        params: params.iter().map(|p| s(p)).collect(),
        instructions,
        is_async: false,
        locals: vec![],
    }
}

fn program(fns: Vec<IrFunction>) -> IrProgram {
    let mut p = IrProgram::new();
    for f in fns {
        p.functions.insert(f.name.clone(), f);
    }
    p
}

#[test]
fn code_after_a_return_is_dead() {
    let p = program(vec![func(
        "f",
        &[],
        vec![
            IrInstr::Return { value: None },
            IrInstr::Label { name: s("l") },
            IrInstr::Return { value: None },
        ],
    )]);
    let mut a = Analyzer::new();
    assert!(a.analyze(&p).is_ok());
    assert_eq!(
        a.get_warnings(),
        &[s("Dead code in function 'f' at instruction 1"), s("Dead code in function 'f' at instruction 2")]
    );
}

#[test]
fn conditional_jumps_fall_through() {
    let p = program(vec![func(
        "g",
        &[],
        vec![
            IrInstr::JumpIf { cond: s("c"), label: s("l") },
            IrInstr::Jump { label: s("l") },
            IrInstr::Label { name: s("l") },
        ],
    )]);
    let mut a = Analyzer::new();
    assert!(a.analyze(&p).is_ok());
    assert_eq!(a.get_warnings(), &[s("Dead code in function 'g' at instruction 2")]);
}

#[test]
fn arithmetic_on_strings_is_an_error_except_addition() {
    let p = program(vec![func(
        "h",
        &["n"],
        vec![
            IrInstr::LoadConst { dest: s("a"), value: IrValue::String(s("x")) },
            IrInstr::Move { dest: s("b"), src: s("a") },
            IrInstr::Add { dest: s("c"), left: s("a"), right: s("b") },
            IrInstr::Sub { dest: s("d"), left: s("c"), right: s("b") },
            IrInstr::Mul { dest: s("e"), left: s("n"), right: s("a") },
        ],
    )]);
    let mut a = Analyzer::new();
    let r = a.analyze(&p);
    assert_eq!(r, Err(vec![s("Type error in function 'h': Cannot perform arithmetic on strings")]));
}

#[test]
fn files_open_at_a_return_are_reported() {
    let p = program(vec![func(
        "k",
        &[],
        vec![
            IrInstr::AllocFile { dest: s("f1"), path: s("a.txt") },
            IrInstr::AllocFile { dest: s("f2"), path: s("b.txt") },
            IrInstr::AllocFile { dest: s("f2"), path: s("c.txt") },
            IrInstr::CloseFile { handle: s("f1") },
            IrInstr::Return { value: None },
        ],
    )]);
    let mut a = Analyzer::new();
    assert!(a.analyze(&p).is_ok());
    assert_eq!(a.get_warnings(), &[s("Potential resource leak in function 'k': 1 file(s) not closed")]);
}

#[test]
fn errors_accumulate_over_runs() {
    let bad = program(vec![func(
        "m",
        &[],
        vec![
            IrInstr::LoadConst { dest: s("a"), value: IrValue::String(s("x")) },
            IrInstr::Div { dest: s("d"), left: s("a"), right: s("a") },
        ],
    )]);
    let mut a = Analyzer::new();
    assert!(a.analyze(&bad).is_err());
    let good = program(vec![]);
    assert_eq!(a.analyze(&good).unwrap_err().len(), 1);
}

#[test]
fn calls_are_always_aligned() {
    let is = vec![IrInstr::Call { dest: None, func: s("f"), args: vec![] }];
    assert_eq!(validate_stack_alignment(&is), Ok(()));
}
