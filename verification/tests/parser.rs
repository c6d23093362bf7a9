use icarus::ast::{Expr, Program, Stmt, TopLevel};
use icarus::ff::SyntaxProfile;
use icarus::lexer::lex;
use icarus::parser::{parse, Parser};

fn parse_source(source: &str) -> Result<Program, String> {
    let tokens = lex(source).map_err(|e| format!("Lexer error: {}", e))?;
    let mut parser = Parser::new(tokens);
    parser.parse()
}

#[test]
fn test_parse_var() {
    let source = "var x: 10 + 2";
    let program = parse_source(source).unwrap();
    assert_eq!(program.items.len(), 1);
}

#[test]
fn test_parse_function() {
    let source = r#"fn area: w, h { return w * h }"#;
    let program = parse_source(source).unwrap();
    assert_eq!(program.items.len(), 1);
}

#[test]
fn test_parse_le_ge() {
    let source = "var a: 1 <= 2\nvar b: 3 >= 4";
    let program = parse_source(source).unwrap();
    assert_eq!(program.items.len(), 2);

    match &program.items[0] {
        TopLevel::Statement(Stmt::VarDecl(_, Expr::Le(_, _))) => {}
        other => panic!("unexpected AST for <=: {:?}", other),
    }
    match &program.items[1] {
        TopLevel::Statement(Stmt::VarDecl(_, Expr::Ge(_, _))) => {}
        other => panic!("unexpected AST for >=: {:?}", other),
    }
}

#[test]
fn test_parse_try_catch_without_var() {
    let source = r#"
try { say: "x" } catch { say: "y" }
"#;
    let program = parse_source(source).unwrap();
    assert_eq!(program.items.len(), 1);
}

#[test]
fn test_parse_throw() {
    let source = r#"
try { throw 123 } catch err { say: err }
"#;
    let program = parse_source(source).unwrap();
    assert_eq!(program.items.len(), 1);
}

#[test]
fn test_parse_trait_impl_and_method_call() {
    let source = r#"
trait Printable { fn print: self; }
class Point { x, y }
impl Printable for Point {
  fn print: self { say: self.x }
}
var p: Point
p.print:
"#;
    let program = parse_source(source).unwrap();
    assert!(program.items.len() >= 4);
}

#[test]
fn operators_group_by_precedence() {
    let program = parse_source("var r: 1 + 2 * 3 - 4").unwrap();
    match &program.items[0] {
        TopLevel::Statement(Stmt::VarDecl(n, Expr::Sub(l, r))) => {
            assert_eq!(n, "r");
            assert!(matches!(**r, Expr::Number(_)));
            match &**l {
                Expr::Add(a, m) => {
                    assert!(matches!(**a, Expr::Number(_)));
                    assert!(matches!(**m, Expr::Mul(_, _)));
                }
                other => panic!("{:?}", other),
            }
        }
        other => panic!("{:?}", other),
    }
}

#[test]
fn not_applies_to_a_whole_comparison() {
    let program = parse_source("var b: not x == y").unwrap();
    assert!(matches!(
        &program.items[0],
        TopLevel::Statement(Stmt::VarDecl(_, Expr::Not(inner))) if matches!(**inner, Expr::Eq(_, _))
    ));
}

#[test]
fn calls_stop_before_a_statement_keyword() {
    let program = parse_source("f: 1, 2\nsay: 3").unwrap();
    assert_eq!(program.items.len(), 2);
    match &program.items[0] {
        TopLevel::Statement(Stmt::Expr(Expr::Call(name, args))) => {
            assert_eq!(name, "f");
            assert_eq!(args.len(), 2);
        }
        other => panic!("{:?}", other),
    }
}

#[test]
fn postfix_index_member_and_method_call() {
    let program = parse_source("xs[0].len.push: 1").unwrap();
    match &program.items[0] {
        TopLevel::Statement(Stmt::Expr(Expr::MethodCall(recv, m, args))) => {
            assert_eq!(m, "push");
            assert_eq!(args.len(), 1);
            assert!(matches!(&**recv, Expr::Member(inner, f) if f == "len" && matches!(**inner, Expr::Index(_, _))));
        }
        other => panic!("{:?}", other),
    }
}

#[test]
fn literals_lists_maps_and_assignment() {
    let program = parse_source("m = { \"a\": [1, 2], \"b\": true }").unwrap();
    match &program.items[0] {
        TopLevel::Statement(Stmt::Assign(Expr::Identifier(n), Expr::Mapping(es))) => {
            assert_eq!(n, "m");
            assert_eq!(es.len(), 2);
            assert!(matches!(&es[0].1, Expr::List(items) if items.len() == 2));
            assert!(matches!(es[1].1, Expr::Bool(true)));
        }
        other => panic!("{:?}", other),
    }
}

#[test]
fn top_level_file_items() {
    let program = parse_source("import \"lib.fr\"\nuse helpers\nupd fast").unwrap();
    assert!(matches!(&program.items[0], TopLevel::Import(p) if p == "lib.fr"));
    assert!(matches!(&program.items[1], TopLevel::Use(p) if p == "helpers.fr"));
    assert!(matches!(&program.items[2], TopLevel::Hardwire(p) if p == "fast.frx"));
}

#[test]
fn function_kinds_and_struct_fields() {
    let program = parse_source("fng g { }\nasync fn h: a { }\nstruct P { x, y }").unwrap();
    match &program.items[0] {
        TopLevel::Function(f) => {
            assert_eq!(f.name, "g");
            assert!(f.params.is_empty());
            assert_eq!(f.fn_type, icarus::ast::FnType::Global);
        }
        other => panic!("{:?}", other),
    }
    match &program.items[1] {
        TopLevel::Function(f) => {
            assert!(f.is_async);
            assert_eq!(f.params, vec!["a".to_string()]);
        }
        other => panic!("{:?}", other),
    }
    match &program.items[2] {
        TopLevel::Struct(d) => assert_eq!(d.fields, vec!["x".to_string(), "y".to_string()]),
        other => panic!("{:?}", other),
    }
}

#[test]
fn errors_name_the_token_and_its_byte() {
    assert_eq!(parse_source("var x 5").unwrap_err(), "Expected Colon, found Number(5.0) at byte 6");
    assert_eq!(
        parse_source("var x: 3.14").unwrap_err(),
        "Unexpected token in expression: Some(Float(3.14)) at byte 7"
    );
    assert_eq!(parse_source("var x:").unwrap_err(), "Unexpected token in expression: None at EOF");
    assert_eq!(parse_source("fn f: a {").unwrap_err(), "Unexpected token in expression: None at EOF");
    assert_eq!(parse_source("var 5: 1").unwrap_err(), "Expected variable name");
    assert_eq!(parse_source("x.5").unwrap_err(), "Expected member name after . at EOF");
    assert_eq!(parse_source("x.5 y").unwrap_err(), "Expected member name after . at byte 4");
    assert_eq!(parse_source("import 5").unwrap_err(), "Expected string literal after import at EOF");
    assert_eq!(
        parse_source("impl T for P { var x: 1 }").unwrap_err(),
        "Only function definitions are allowed inside impl blocks"
    );
    assert_eq!(parse_source("(1").unwrap_err(), "Expected RParen, found EOF");
    assert_eq!(parse_source("trait T { fn m }").unwrap_err(), "Expected Semicolon, found RBrace at byte 15");
}

#[test]
fn parse_preprocesses_then_reads_the_program() {
    let profile = SyntaxProfile::new();
    let program = parse("var x: 1\nsay: x", &profile).unwrap();
    assert_eq!(program.items.len(), 2);
    assert_eq!(parse("var x: @", &profile).unwrap_err(), "Unexpected token at position 7");
}
