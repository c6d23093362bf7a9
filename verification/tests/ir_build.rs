use icarus::ast::{Expr, FnDef, FnType, ImplBlock, Stmt, StructDef, TopLevel, TraitDef};
use icarus::ir::{IrInstr, IrProgram, IrValue};
use icarus::ir_build::{IrBuilder, ONE_BITS, ZERO_BITS};

fn s(x: &str) -> String {
    x.to_string()
}

fn num(n: f64) -> Expr {
    Expr::Number(n.to_bits())
}

fn id(x: &str) -> Expr {
    Expr::Identifier(s(x))
}

fn bx(e: Expr) -> Box<Expr> {
    Box::new(e)
}

fn func(name: &str, params: &[&str], body: Vec<Stmt>) -> FnDef {
    FnDef {
        name: s(name),
        params: params.iter().map(|p| s(p)).collect(),
        body,
        is_async: false,
        is_unsafe: false,
        fn_type: FnType::Normal,
    }
}

fn lower(items: Vec<TopLevel>) -> (IrProgram, Result<(), String>) {
    let mut b = IrBuilder::new();
    b.begin_build();
    let mut p = IrProgram::new();
    for item in &items {
        if let Err(e) = b.process_item(item, "main.fr", &mut p) {
            return (p, Err(e));
        }
    }
    (p, Ok(()))
}

fn mv(d: &str, src: &str) -> IrInstr {
    IrInstr::Move { dest: s(d), src: s(src) }
}

fn label(n: &str) -> IrInstr {
    IrInstr::Label { name: s(n) }
}

fn jump(n: &str) -> IrInstr {
    IrInstr::Jump { label: s(n) }
}

#[test]
fn var_decl_lowers_operands_then_operator() {
    let e = Expr::Add(bx(num(1.0)), bx(id("x")));
    let (p, r) = lower(vec![TopLevel::Statement(Stmt::VarDecl(s("y"), e))]);
    assert!(r.is_ok());
    assert_eq!(
        p.global_code,
        vec![
            IrInstr::LoadConst { dest: s("t0"), value: IrValue::Number(1.0f64.to_bits()) },
            IrInstr::Add { dest: s("t1"), left: s("t0"), right: s("x") },
            mv("y", "t1"),
        ]
    );
}

#[test]
fn one_and_zero_constants_are_double_bit_patterns() {
    assert_eq!(ONE_BITS, 1.0f64.to_bits());
    assert_eq!(ZERO_BITS, 0.0f64.to_bits());
}

#[test]
fn le_is_negated_gt() {
    let e = Expr::Le(bx(id("a")), bx(id("b")));
    let (p, _) = lower(vec![TopLevel::Statement(Stmt::Expr(e))]);
    assert_eq!(
        p.global_code,
        vec![
            IrInstr::Gt { dest: s("t0"), left: s("a"), right: s("b") },
            IrInstr::LogicNot { dest: s("t1"), src: s("t0") },
        ]
    );
}

#[test]
fn negation_subtracts_from_zero() {
    let (p, _) = lower(vec![TopLevel::Statement(Stmt::Say(Expr::Neg(bx(id("a")))))]);
    assert_eq!(
        p.global_code,
        vec![
            IrInstr::LoadConst { dest: s("t1"), value: IrValue::Number(ZERO_BITS) },
            IrInstr::Sub { dest: s("t0"), left: s("t1"), right: s("a") },
            IrInstr::Print { src: s("t0") },
        ]
    );
}

#[test]
fn if_else_jumps_around_branches() {
    let st = Stmt::If(id("c"), vec![Stmt::Say(id("a"))], Some(vec![Stmt::Say(id("b"))]));
    let (p, _) = lower(vec![TopLevel::Statement(st)]);
    assert_eq!(
        p.global_code,
        vec![
            IrInstr::LogicNot { dest: s("t0"), src: s("c") },
            IrInstr::JumpIf { cond: s("t0"), label: s("L0") },
            IrInstr::Print { src: s("a") },
            jump("L1"),
            label("L0"),
            IrInstr::Print { src: s("b") },
            label("L1"),
        ]
    );
}

#[test]
fn while_loops_back_to_its_test() {
    let st = Stmt::While(id("c"), vec![Stmt::Say(id("a"))]);
    let (p, _) = lower(vec![TopLevel::Statement(st)]);
    assert_eq!(
        p.global_code,
        vec![
            label("L0"),
            IrInstr::LogicNot { dest: s("t0"), src: s("c") },
            IrInstr::JumpIf { cond: s("t0"), label: s("L1") },
            IrInstr::Print { src: s("a") },
            jump("L0"),
            label("L1"),
        ]
    );
}

#[test]
fn for_range_counts_up() {
    let st = Stmt::For(s("i"), Expr::Range(bx(id("a")), bx(id("b"))), vec![Stmt::Say(id("i"))]);
    let (p, _) = lower(vec![TopLevel::Statement(st)]);
    assert_eq!(
        p.global_code,
        vec![
            mv("i", "a"),
            label("L0"),
            IrInstr::Lt { dest: s("t0"), left: s("i"), right: s("b") },
            IrInstr::JumpIf { cond: s("t0"), label: s("L2") },
            jump("L1"),
            label("L2"),
            IrInstr::Print { src: s("i") },
            IrInstr::LoadConst { dest: s("t1"), value: IrValue::Number(ONE_BITS) },
            IrInstr::Add { dest: s("t2"), left: s("i"), right: s("t1") },
            mv("i", "t2"),
            jump("L0"),
            label("L1"),
        ]
    );
}

#[test]
fn for_each_walks_list_or_map_keys() {
    let st = Stmt::For(s("x"), id("xs"), vec![]);
    let (p, _) = lower(vec![TopLevel::Statement(st)]);
    let call = |d: &str, f: &str, a: &str| IrInstr::Call { dest: Some(s(d)), func: s(f), args: vec![s(a)] };
    assert_eq!(
        p.global_code,
        vec![
            call("t1", "is_map", "xs"),
            IrInstr::JumpIf { cond: s("t1"), label: s("L0") },
            mv("t0", "xs"),
            jump("L1"),
            label("L0"),
            call("t2", "keys", "xs"),
            mv("t0", "t2"),
            label("L1"),
            IrInstr::LoadConst { dest: s("t4"), value: IrValue::Number(ZERO_BITS) },
            mv("t3", "t4"),
            label("L2"),
            call("t5", "len", "t0"),
            IrInstr::Lt { dest: s("t6"), left: s("t3"), right: s("t5") },
            IrInstr::JumpIf { cond: s("t6"), label: s("L4") },
            jump("L3"),
            label("L4"),
            IrInstr::GetIndex { dest: s("t7"), src: s("t0"), index: s("t3") },
            mv("x", "t7"),
            IrInstr::LoadConst { dest: s("t8"), value: IrValue::Number(ONE_BITS) },
            IrInstr::Add { dest: s("t9"), left: s("t3"), right: s("t8") },
            mv("t3", "t9"),
            jump("L2"),
            label("L3"),
        ]
    );
}

#[test]
fn try_catch_routes_throw_to_catch_label() {
    let st = Stmt::TryCatch(vec![Stmt::Throw(id("v"))], s("err"), vec![Stmt::Say(id("err"))]);
    let (p, r) = lower(vec![TopLevel::Statement(st)]);
    assert!(r.is_ok());
    assert_eq!(
        p.global_code,
        vec![
            mv("__core_thrown", "v"),
            jump("L0"),
            jump("L1"),
            label("L0"),
            mv("err", "__core_thrown"),
            IrInstr::Print { src: s("err") },
            label("L1"),
        ]
    );
}

#[test]
fn throw_outside_try_is_an_error() {
    let (_, r) = lower(vec![TopLevel::Statement(Stmt::Throw(id("v")))]);
    assert_eq!(r, Err(s("throw used outside of a try/catch block")));
}

#[test]
fn nested_import_is_an_error() {
    let (_, r) = lower(vec![TopLevel::Statement(Stmt::Import(s("lib.fr")))]);
    assert_eq!(r, Err(s("import is only supported at the top level (module scope)")));
}

#[test]
fn assigning_to_a_literal_is_an_error() {
    let (_, r) = lower(vec![TopLevel::Statement(Stmt::Assign(num(1.0), num(2.0)))]);
    assert_eq!(r, Err(s("Invalid assignment target")));
}

#[test]
fn unsafe_block_lowers_its_statements() {
    let (p, _) = lower(vec![TopLevel::Statement(Stmt::Unsafe(vec![Stmt::Say(id("a"))]))]);
    assert_eq!(p.global_code, vec![IrInstr::Print { src: s("a") }]);
}

#[test]
fn functions_are_lowered_and_duplicates_refused() {
    let add = func("add", &["a", "b"], vec![Stmt::Return(Expr::Add(bx(id("a")), bx(id("b"))))]);
    let (p, r) = lower(vec![TopLevel::Function(add)]);
    assert!(r.is_ok());
    let f = p.functions.get("add").unwrap();
    assert_eq!(f.params, vec![s("a"), s("b")]);
    assert_eq!(
        f.instructions,
        vec![
            IrInstr::Add { dest: s("t0"), left: s("a"), right: s("b") },
            IrInstr::Return { value: Some(s("t0")) },
        ]
    );
    let again = vec![TopLevel::Function(func("f", &[], vec![])), TopLevel::Function(func("f", &[], vec![]))];
    let (_, r) = lower(again);
    assert_eq!(r, Err(s("Duplicate function 'f' (imported via main.fr)")));
}

#[test]
fn zero_argument_function_name_is_called() {
    let items = vec![
        TopLevel::Function(func("five", &[], vec![Stmt::Return(num(5.0))])),
        TopLevel::Statement(Stmt::Say(id("five"))),
    ];
    let (p, _) = lower(items);
    assert_eq!(
        p.global_code,
        vec![
            IrInstr::Call { dest: Some(s("t1")), func: s("five"), args: vec![] },
            IrInstr::Print { src: s("t1") },
        ]
    );
}

#[test]
fn impl_methods_are_named_after_the_type_and_struct_calls_resolve() {
    let items = vec![
        TopLevel::Struct(StructDef { name: s("Dog"), fields: vec![] }),
        TopLevel::Trait(TraitDef { name: s("Speak"), methods: vec![s("talk")] }),
        TopLevel::Impl(ImplBlock {
            trait_name: s("Speak"),
            for_type: s("Dog"),
            methods: vec![func("talk", &["self"], vec![])],
        }),
        TopLevel::Statement(Stmt::VarDecl(s("d"), id("Dog"))),
        TopLevel::Statement(Stmt::Expr(Expr::MethodCall(bx(id("d")), s("talk"), vec![num(1.0)]))),
    ];
    let (p, r) = lower(items);
    assert!(r.is_ok());
    assert!(p.functions.contains_key("Dog_talk"));
    assert_eq!(
        p.global_code,
        vec![
            IrInstr::AllocStruct { dest: s("t0"), name: s("Dog") },
            mv("d", "t0"),
            IrInstr::LoadConst { dest: s("t1"), value: IrValue::Number(1.0f64.to_bits()) },
            IrInstr::Call { dest: Some(s("t2")), func: s("Dog_talk"), args: vec![s("d"), s("t1")] },
        ]
    );
}

#[test]
fn impl_missing_a_required_method_is_refused() {
    let items = vec![
        TopLevel::Trait(TraitDef { name: s("Speak"), methods: vec![s("talk"), s("bark")] }),
        TopLevel::Impl(ImplBlock {
            trait_name: s("Speak"),
            for_type: s("Dog"),
            methods: vec![func("talk", &[], vec![])],
        }),
    ];
    let (_, r) = lower(items);
    assert_eq!(r, Err(s("Impl of trait 'Speak' for 'Dog' is missing method 'bark'")));
}

#[test]
fn map_literal_stores_each_entry() {
    let e = Expr::Mapping(vec![(Expr::String(s("k")), id("v"))]);
    let (p, _) = lower(vec![TopLevel::Statement(Stmt::Expr(e))]);
    assert_eq!(
        p.global_code,
        vec![
            IrInstr::AllocMap { dest: s("t0") },
            IrInstr::LoadConst { dest: s("t1"), value: IrValue::String(s("k")) },
            IrInstr::SetMap { map: s("t0"), key: s("t1"), value: s("v") },
        ]
    );
}
