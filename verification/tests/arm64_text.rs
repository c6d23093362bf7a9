use icarus::arm64_text::Arm64CodeGen;
use icarus::ir::IrInstr;

fn writes(names: &[&str]) -> Vec<IrInstr> {
    names.iter().map(|n| IrInstr::Move { dest: n.to_string(), src: "src".to_string() }).collect()
}

fn strings(v: &[&str]) -> Vec<String> {
    v.iter().map(|s| s.to_string()).collect()
}

#[test]
fn frame_layout_prologue_and_epilogue() {
    let mut g = Arm64CodeGen::new();
    g.precalculate_stack_offsets(&writes(&["t", "x", "t"]), &strings(&["x", "y"]));
    g.begin_function();
    g.generate_function_prologue(&strings(&["x", "y"]));
    g.generate_function_epilogue();
    let expected = [
        "    stp x29, x30, [sp, #-16]!",
        "    mov x29, sp",
        "    sub sp, sp, #32",
        "    str xzr, [sp, #0]",
        "    str xzr, [sp, #8]",
        "    str xzr, [sp, #16]",
        "    str xzr, [sp, #24]",
        "    str x0, [sp, #0]",
        "    str x1, [sp, #8]",
        ".L0:",
        "    sub sp, sp, #16",
        "    str x0, [sp, #0]",
        "    ldr x0, [sp, #16]",
        "    bl _dec_rc",
        "    ldr x0, [sp, #24]",
        "    bl _dec_rc",
        "    ldr x0, [sp, #32]",
        "    bl _dec_rc",
        "    ldr x0, [sp, #0]",
        "    add sp, sp, #16",
        "    add sp, sp, #32",
        "    ldp x29, x30, [sp], #16",
        "    ret",
    ];
    let mut text = expected.join("\n");
    text.push('\n');
    assert_eq!(g.output(), text);
}

#[test]
fn empty_frames_skip_the_stack_adjustment() {
    let mut g = Arm64CodeGen::new();
    g.precalculate_stack_offsets(&[], &[]);
    g.generate_function_prologue(&[]);
    assert_eq!(g.output(), "    stp x29, x30, [sp, #-16]!\n    mov x29, sp\n");
}

#[test]
fn loads_stores_labels_and_names() {
    let mut g = Arm64CodeGen::new();
    g.precalculate_stack_offsets(&writes(&["a", "b"]), &[]);
    g.load_var("x1", "b");
    g.load_var("x2", "zz");
    g.store_var("w", "x3");
    g.store_var("a", "x4");
    assert_eq!(
        g.output(),
        "    ldr x1, [sp, #8]\n    // Warning: variable zz not found in stack frame\n    mov x2, #0\n    str x3, [sp, #16]\n    str x4, [sp, #0]\n"
    );
    assert_eq!(g.fresh_label(), ".L0");
    assert_eq!(g.fresh_label(), ".L1");
    assert_eq!(g.sanitize("my-long-name"), "my_long_name");
    g.emit("    nop");
    assert!(g.output().ends_with("    nop\n"));
}
