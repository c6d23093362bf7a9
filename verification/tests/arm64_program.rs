use icarus::arm64_text::Arm64CodeGen;
use icarus::ir::{IrFunction, IrInstr, IrProgram, IrValue};
use icarus::number::double_to_i64;

fn s(x: &str) -> String {
    x.to_string()
}

fn lines_of(text: &str) -> Vec<String> {
    text.lines().map(|l| l.to_string()).collect()
}

#[test]
fn double_bits_convert_like_as_cast() {
    let samples = [
        0.0f64, -0.0, 1.0, -1.0, 3.7, -3.7, 0.5, -0.999, 42.0, 1e15, -1e15, 9.2e18, 1e19, -1e19, 1e300,
        -1e300, 4503599627370496.5, 9007199254740993.0, f64::MAX, f64::MIN, f64::INFINITY, f64::NEG_INFINITY,
        f64::NAN, f64::MIN_POSITIVE, 1e-310, 9223372036854775807.0, -9223372036854775808.0,
    ];
    for x in samples.iter() {
        assert_eq!(double_to_i64(x.to_bits()), *x as i64, "value {}", x);
    }
}

#[test]
fn arithmetic_instruction_loads_operates_and_stores() {
    let mut g = Arm64CodeGen::new();
    let code = vec![IrInstr::Add { dest: s("c"), left: s("a"), right: s("b") }];
    g.precalculate_stack_offsets(&code, &[s("a"), s("b")]);
    assert!(g.generate_instruction(&code[0]).is_ok());
    assert_eq!(
        lines_of(&g.output()),
        vec!["    ldr x0, [sp, #0]", "    ldr x1, [sp, #8]", "    add x0, x0, x1", "    str x0, [sp, #16]"]
    );
}

#[test]
fn number_constant_is_moved_as_its_integer_value() {
    let mut g = Arm64CodeGen::new();
    let i = IrInstr::LoadConst { dest: s("t0"), value: IrValue::Number(7.9f64.to_bits()) };
    assert!(g.generate_instruction(&i).is_ok());
    assert_eq!(lines_of(&g.output()), vec!["    mov x0, #7", "    str x0, [sp, #0]"]);
}

#[test]
fn call_with_too_many_arguments_is_refused() {
    let mut g = Arm64CodeGen::new();
    let args: Vec<String> = (0..9).map(|i| format!("a{}", i)).collect();
    let i = IrInstr::Call { dest: None, func: s("f"), args };
    assert_eq!(g.generate_instruction(&i), Err(s("ARM64 backend supports up to 8 call arguments (got 9)")));
    assert_eq!(g.output(), "");
}

#[test]
fn call_borrows_arguments_and_names_user_functions() {
    let mut g = Arm64CodeGen::new();
    let i = IrInstr::Call { dest: Some(s("r")), func: s("my-fn"), args: vec![s("a"), s("b")] };
    assert!(g.generate_instruction(&i).is_ok());
    assert_eq!(
        lines_of(&g.output()),
        vec![
            "    // Warning: variable a not found in stack frame",
            "    mov x0, #0",
            "    // Warning: variable b not found in stack frame",
            "    mov x1, #0",
            "    mov x19, x0",
            "    mov x0, x1",
            "    bl _inc_rc",
            "    mov x0, x19",
            "    bl _inc_rc",
            "    bl _user_my_fn",
            "    str x0, [sp, #0]",
        ]
    );
}

#[test]
fn builtin_calls_go_to_the_runtime() {
    let mut g = Arm64CodeGen::new();
    let i = IrInstr::Call { dest: None, func: s("len"), args: vec![] };
    assert!(g.generate_instruction(&i).is_ok());
    assert_eq!(lines_of(&g.output()), vec!["    bl _len", "    bl _dec_rc"]);
}

#[test]
fn data_section_labels_string_literals_in_first_use_order() {
    let mut g = Arm64CodeGen::new();
    let mut p = IrProgram::new();
    p.global_code.push(IrInstr::LoadConst { dest: s("t0"), value: IrValue::String(s("hé")) });
    p.global_code.push(IrInstr::Input { dest: s("t1"), prompt: s("hé") });
    p.global_code.push(IrInstr::LoadConst { dest: s("t2"), value: IrValue::String(s("x")) });
    g.generate_data_section(&p);
    let out = lines_of(&g.output());
    let tail: Vec<String> = out[out.len() - 12..].to_vec();
    assert_eq!(
        tail,
        vec![
            "    .align 3", ".str0:", "    .quad 3", "    .quad -1", "    .quad 3", "    .asciz \"hé\"",
            "    .align 3", ".str1:", "    .quad 3", "    .quad -1", "    .quad 1", "    .asciz \"x\"",
        ]
    );
    assert_eq!(out[0], "    .align 3");
    assert_eq!(out[1], ".newline:");
}

#[test]
fn whole_program_has_main_functions_and_runtime() {
    let mut g = Arm64CodeGen::new();
    let mut p = IrProgram::new();
    p.global_code.push(IrInstr::LoadConst { dest: s("t0"), value: IrValue::Number(2.0f64.to_bits()) });
    p.global_code.push(IrInstr::Print { src: s("t0") });
    p.functions.insert(
        s("id"),
        IrFunction {
            name: s("id"),
            params: vec![s("x")],
            instructions: vec![IrInstr::Return { value: Some(s("x")) }],
            is_async: false,
            locals: vec![],
        },
    );
    let text = g.generate(&p).unwrap();
    let out = lines_of(&text);
    assert_eq!(&out[0..4], &[".global _main", ".align 4", "", ".data"]);
    let main_at = out.iter().position(|l| l == "_main:").unwrap();
    assert_eq!(
        &out[main_at..main_at + 7],
        &[
            "_main:",
            "    stp x29, x30, [sp, #-16]!",
            "    mov x29, sp",
            "    sub sp, sp, #16",
            "    str xzr, [sp, #0]",
            "    str xzr, [sp, #8]",
            "    mov x0, #2",
        ]
    );
    let user_at = out.iter().position(|l| l == "_user_id:").unwrap();
    assert!(user_at > main_at);
    assert_eq!(out[user_at + 4], "    str xzr, [sp, #0]");
    assert_eq!(out[user_at + 5], "    str xzr, [sp, #8]");
    assert_eq!(out[user_at + 6], "    str x0, [sp, #0]");
    assert_eq!(out[user_at + 7], "    ldr x0, [sp, #0]");
    assert_eq!(out[user_at + 8], "    bl _inc_rc");
    assert!(out.iter().any(|l| l == "_print_val:"));
    assert_eq!(out[out.len() - 3], "_close_file:");
    assert_eq!(out[out.len() - 1], "    ret");
}

#[test]
fn empty_program_gets_a_stub_main() {
    let mut g = Arm64CodeGen::new();
    let p = IrProgram::new();
    let out = lines_of(&g.generate(&p).unwrap());
    let main_at = out.iter().position(|l| l == "_main:").unwrap();
    assert_eq!(&out[main_at..main_at + 3], &["_main:", "    mov x0, #0", "    ret"]);
}

#[test]
fn refused_instruction_fails_the_program() {
    let mut g = Arm64CodeGen::new();
    let mut p = IrProgram::new();
    let args: Vec<String> = (0..10).map(|i| format!("a{}", i)).collect();
    p.global_code.push(IrInstr::Call { dest: None, func: s("f"), args });
    assert_eq!(g.generate(&p), Err(s("ARM64 backend supports up to 8 call arguments (got 10)")));
}

#[test]
fn small_programs_fit_the_generator() {
    let g = Arm64CodeGen::new();
    assert!(g.fits(&IrProgram::new()));
    let mut p = IrProgram::new();
    p.global_code.push(IrInstr::AllocList { dest: s("xs"), items: vec![s("a"), s("b")] });
    p.global_code.push(IrInstr::Print { src: s("xs") });
    assert!(g.fits(&p));
}

#[test]
fn program_text_starts_with_the_head_and_names_each_function() {
    let mut g = Arm64CodeGen::new();
    let mut p = IrProgram::new();
    p.functions.insert(
        s("my-fn"),
        IrFunction {
            name: s("my-fn"),
            params: vec![],
            instructions: vec![IrInstr::Return { value: None }],
            is_async: false,
            locals: vec![],
        },
    );
    let text = g.generate(&p).unwrap();
    assert!(text.starts_with(".global _main\n.align 4\n\n.data\n"));
    assert!(text.contains("\n_main:\n    mov x0, #0\n    ret\n"));
    assert!(text.contains("\n_user_my_fn:\n"));
    assert_eq!(text.matches("\n_main:\n").count(), 1);
}
