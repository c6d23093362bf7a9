use icarus::lexer::{lex, token_debug_text, Token};
use icarus::number::digits_to_double;

fn kinds(src: &str) -> Vec<Token> {
    lex(src).unwrap().into_iter().map(|(t, _)| t).collect()
}

fn digits(s: &str) -> Vec<char> {
    s.chars().collect()
}

#[test]
fn test_lexer_basic() {
    // var x : 10 + 2 => Var, Identifier, Colon, Number, Plus, Number = 6 tokens
    let source = r#"var x: 10 + 2"#;
    let tokens = lex(source).unwrap();
    assert_eq!(tokens.len(), 6);
}

#[test]
fn test_lexer_say() {
    let source = r#"say: "Hello""#;
    let tokens = lex(source).unwrap();
    assert!(matches!(tokens[0].0, Token::Say));
}

#[test]
fn test_lexer_le_ge() {
    let source = "var x: 1 <= 2\nvar y: 3 >= 4";
    let tokens = kinds(source);
    assert!(tokens.contains(&Token::Le));
    assert!(tokens.contains(&Token::Ge));
}

#[test]
fn tokens_carry_byte_spans() {
    let tokens = lex("var x: 10").unwrap();
    let spans: Vec<(usize, usize)> = tokens.iter().map(|(_, r)| (r.start, r.end)).collect();
    assert_eq!(spans, vec![(0, 3), (4, 5), (5, 6), (7, 9)]);
    assert_eq!(tokens[3].0, Token::Number(10.0f64.to_bits()));
}

#[test]
fn keywords_win_only_on_whole_words() {
    assert_eq!(
        kinds("fn fng fnx in init import-x"),
        vec![
            Token::Fn,
            Token::Fng,
            Token::Identifier("fnx".to_string()),
            Token::In,
            Token::Init,
            Token::Identifier("import-x".to_string()),
        ]
    );
}

#[test]
fn longest_operator_wins() {
    assert_eq!(
        kinds("<<= >> == != .. . = <"),
        vec![
            Token::Shl,
            Token::Eq,
            Token::Shr,
            Token::EqEq,
            Token::Ne,
            Token::DotDot,
            Token::Dot,
            Token::Eq,
            Token::Lt,
        ]
    );
}

#[test]
fn comments_are_skipped() {
    assert_eq!(
        kinds("a // note\nb # other\n/* block\n */ c"),
        vec![
            Token::Identifier("a".to_string()),
            Token::Identifier("b".to_string()),
            Token::Identifier("c".to_string()),
        ]
    );
}

#[test]
fn unclosed_block_comment_is_a_slash() {
    assert_eq!(kinds("/* x"), vec![Token::Slash, Token::Star, Token::Identifier("x".to_string())]);
    assert_eq!(kinds("/***/"), vec![Token::Slash, Token::Star, Token::Star, Token::Star, Token::Slash]);
    assert!(kinds("/**/").is_empty());
}

#[test]
fn numbers_and_floats() {
    assert_eq!(
        kinds("1..5 2.50 7."),
        vec![
            Token::Number(1.0f64.to_bits()),
            Token::DotDot,
            Token::Number(5.0f64.to_bits()),
            Token::Float("2.50".to_string()),
            Token::Number(7.0f64.to_bits()),
            Token::Dot,
        ]
    );
}

#[test]
fn string_literals_keep_escapes() {
    assert_eq!(kinds(r#""a\"b""#), vec![Token::StringLit(r#"a\"b"#.to_string())]);
}

#[test]
fn unknown_characters_report_their_byte_position() {
    assert_eq!(lex("var é: 1").unwrap_err(), "Unexpected token at position 4");
    assert_eq!(lex("ab\r\n").unwrap_err(), "Unexpected token at position 2");
    assert_eq!(lex("x: \"open").unwrap_err(), "Unexpected token at position 3");
    assert_eq!(lex("é @").unwrap_err(), "Unexpected token at position 0");
    assert_eq!(lex("\"é\" @").unwrap_err(), "Unexpected token at position 5");
}

#[test]
fn decimal_literals_round_to_nearest_double() {
    for s in [
        "0",
        "007",
        "9007199254740993",
        "9007199254740995",
        "18446744073709551617",
        "123456789012345678901234567890123456789012345678901234567890",
    ] {
        let expected: f64 = s.parse().unwrap();
        assert_eq!(digits_to_double(&digits(s)), expected.to_bits(), "{}", s);
    }
    let huge = "9".repeat(400);
    assert_eq!(digits_to_double(&digits(&huge)), f64::INFINITY.to_bits());
}

#[test]
fn tokens_show_as_debug_does() {
    assert_eq!(token_debug_text(&Token::LBrace), "LBrace");
    assert_eq!(token_debug_text(&Token::Number(10.0f64.to_bits())), "Number(10.0)");
    assert_eq!(token_debug_text(&Token::Float("03.140".to_string())), "Float(3.14)");
    assert_eq!(token_debug_text(&Token::Identifier("x".to_string())), "Identifier(\"x\")");
    assert_eq!(token_debug_text(&Token::StringLit("a\"b\n".to_string())), "StringLit(\"a\\\"b\\n\")");
}

#[test]
fn small_integer_literals_read_back_exactly() {
    for s in ["0", "1", "4096", "9007199254740991"] {
        let bits = digits_to_double(&digits(s));
        assert_eq!(icarus::number::double_to_i64(bits), s.parse::<i64>().unwrap());
    }
}

#[test]
fn token_spans_follow_the_text() {
    let tokens = lex("fn f: a, b { return a /* x */ + b } # end").unwrap();
    for w in tokens.windows(2) {
        assert!(w[0].1.start < w[0].1.end);
        assert!(w[0].1.end <= w[1].1.start);
    }
}
