use icarus::encoder::{encode_add_imm, encode_ldp_fp_lr, encode_ret, encode_stp_fp_lr, Reg};
use icarus::ir::{IrInstr, IrValue};
use icarus::jit_compile::{compile, Helpers, JitEnv};
use icarus::name_map::NameMap;

fn s(x: &str) -> String {
    x.to_string()
}

fn helpers() -> Helpers {
    Helpers {
        print: 0x1000, release: 0x1008, retain: 0x1010, alloc_string: 0x1018, alloc_list: 0x1020,
        list_push: 0x1028, alloc_map: 0x1030, map_set: 0x1038, map_get: 0x1040, map_keys: 0x1048,
        map_values: 0x1050, index_get: 0x1058, index_set: 0x1060, list_pop: 0x1068, list_len: 0x1070,
        to_str: 0x1078, to_num: 0x1080, range: 0x1088, abs: 0x1090, min: 0x1098, max: 0x10A0,
        sqrt: 0x10A8, pow: 0x10B0, contains: 0x10B8, is_map: 0x10C0, is_list: 0x10C8,
        is_string: 0x10D0, float_add: 0x10D8, float_sub: 0x10E0, float_mul: 0x10E8,
        float_div: 0x10F0, add: 0x10F8, sub: 0x1100, mul: 0x1108, div: 0x1110, eq: 0x1118,
        ne: 0x1120, lt: 0x1128, gt: 0x1130, and: 0x1138, or: 0x1140, not: 0x1148,
        is_truthy: 0x1150, input: 0x1158,
    }
}

fn env(n: usize, ints: Vec<i64>) -> JitEnv {
    JitEnv { helpers: helpers(), strings: vec![(0, 0); n], ints, functions: NameMap::new(), current: None }
}

fn word_at(code: &[u8], i: usize) -> u32 {
    u32::from_le_bytes([code[4 * i], code[4 * i + 1], code[4 * i + 2], code[4 * i + 3]])
}

#[test]
fn a_constant_is_loaded_tagged_and_returned() {
    let code = vec![IrInstr::LoadConst { dest: s("x"), value: IrValue::Number(5.0f64.to_bits()) }];
    let out = compile(&vec![], &code, 0, &env(1, vec![5])).unwrap();
    assert_eq!(out.len() % 4, 0);
    assert_eq!(out.len(), 14 * 4);
    assert_eq!(word_at(&out, 0), encode_stp_fp_lr());
    assert_eq!(word_at(&out, 1), encode_add_imm(Reg::X(29), Reg::SP, 0));
    // MOVZ x9, #11 (5 tagged) after the zeroing of x0
    assert_eq!(word_at(&out, 7), 0xD2800000 | (11 << 5) | 9);
    assert_eq!(word_at(&out, 12), encode_ldp_fp_lr());
    assert_eq!(word_at(&out, 13), encode_ret());
}

#[test]
fn a_name_without_a_location_is_an_error() {
    // the four most mentioned names get locations; `y`, read once and
    // never written, does not
    let mut code = Vec::new();
    for v in ["a", "b", "c", "d"] {
        code.push(IrInstr::Print { src: s(v) });
        code.push(IrInstr::Print { src: s(v) });
    }
    code.push(IrInstr::Print { src: s("y") });
    let n = code.len();
    assert_eq!(compile(&vec![], &code, 0, &env(n, vec![0; n])), Err(s("Undefined var: y")));
    // read alone, a name is among the four most mentioned
    let code = vec![IrInstr::Print { src: s("y") }];
    assert!(compile(&vec![], &code, 0, &env(1, vec![0])).is_ok());
}

#[test]
fn a_jump_to_a_missing_label_is_an_error() {
    let code = vec![IrInstr::Jump { label: s("nowhere") }];
    assert_eq!(compile(&vec![], &code, 0, &env(1, vec![0])), Err(s("Undefined label: nowhere")));
}

#[test]
fn a_backward_jump_is_patched() {
    let code = vec![
        IrInstr::LoadConst { dest: s("x"), value: IrValue::Bool(true) },
        IrInstr::Label { name: s("top") },
        IrInstr::Print { src: s("x") },
        IrInstr::Jump { label: s("top") },
    ];
    let out = compile(&vec![], &code, 0, &env(4, vec![0; 4])).unwrap();
    // prologue 7 words, the load 5: the label is at word 12; the print
    // takes 25 words, so the jump at word 37 goes back 25 words
    let b = word_at(&out, 37);
    assert_eq!(b, 0x14000000 | ((-25i32) as u32 & 0x3FFFFFF));
    assert_eq!(out.len() % 4, 0);
}

#[test]
fn parameters_are_checked() {
    let code = vec![];
    assert_eq!(
        compile(&vec![s("a"), s("a")], &code, 2, &env(0, vec![])),
        Err(s("Parameter a allocated to wrong register 0"))
    );
    let nine: Vec<String> = (0..9).map(|i| format!("p{}", i)).collect();
    assert_eq!(compile(&nine, &code, 9, &env(0, vec![])), Err(s("More than 8 parameters not supported yet")));
}

#[test]
fn calls_name_known_functions() {
    let code = vec![IrInstr::Call { dest: None, func: s("foo"), args: vec![] }];
    assert_eq!(compile(&vec![], &code, 0, &env(1, vec![0])), Err(s("Unknown function: foo")));
    let code = vec![IrInstr::Call { dest: None, func: s("print"), args: vec![] }];
    assert_eq!(compile(&vec![], &code, 0, &env(1, vec![0])), Err(s("print expects 1 argument")));
    let mut functions = NameMap::new();
    functions.insert(s("foo"), 0x4000);
    let e = JitEnv { helpers: helpers(), strings: vec![(0, 0)], ints: vec![0], functions, current: None };
    let code = vec![IrInstr::Call { dest: None, func: s("foo"), args: vec![] }];
    assert!(compile(&vec![], &code, 0, &e).is_ok());
}
