use icarus::ff::{
    default_syntax_ff, expand_commands, expand_expression_commands_in_line,
    expand_expression_commands_once, find_expression_invocation, is_expression_command,
    lower_low_level, parse_command_invocation, parse_expression_invocation_args,
    parse_use_ff_line, preprocess_source, replace_word, split_top_level_args, use_targets,
    SyntaxProfile,
};

#[test]
fn expands_say_command_from_profile() {
    let profile = SyntaxProfile::parse(
        "fforge-main {\ncommand say(value) {\nll.print \"hello \"\nll.print value\n}\n}",
    )
    .unwrap();
    let source = "say: name";
    let expected = "say: \"hello \"\nsay: name";
    assert_eq!(
        expand_commands(&[source.to_string()], &profile).join("\n"),
        "ll.print \"hello \"\nll.print name"
    );
    assert_eq!(lower_low_level("ll.print \"hello \"\nll.print name"), expected);
}

#[test]
fn expands_generic_commands_with_nested_arguments() {
    let profile = SyntaxProfile::parse(
        "fforge-main {\ncommand pack(left, right) {\nll.print left\nll.print right\n}\n}",
    )
    .unwrap();
    let expanded =
        expand_commands(&["pack: [1, 2], { \"x\": \"a,b\" }".to_string()], &profile);
    assert_eq!(expanded.join("\n"), "ll.print [1, 2]\nll.print { \"x\": \"a,b\" }");
}

#[test]
fn expands_expression_commands_inside_expressions() {
    let profile = SyntaxProfile::parse(
        "fforge-main {\ncommand double(value) {\nll.expr value + value\n}\n}",
    )
    .unwrap();
    let expanded = expand_expression_commands_in_line("var total: 1 + double: values[0]", &profile);
    assert_eq!(expanded, "var total: 1 + (values[0] + values[0])");
}

#[test]
fn expands_ask_command_to_internal_builtin() {
    let profile = SyntaxProfile::parse(&default_syntax_ff()).unwrap();
    let expanded = expand_expression_commands_in_line("var name: ask: \"Name? \"", &profile);
    assert_eq!(expanded, "var name: (__ff_builtin_ask__: \"Name? \")");
}

#[test]
fn default_profile_defines_twenty_commands() {
    let profile = SyntaxProfile::parse(&default_syntax_ff()).unwrap();
    assert_eq!(profile.commands.len(), 20);
    assert!(profile.all_params_named());
    let ask = profile.commands.get("ask").unwrap();
    assert!(is_expression_command(ask));
    let say = profile.commands.get("say").unwrap();
    assert!(!is_expression_command(say));
    assert_eq!(say.params, vec!["value".to_string()]);
    assert_eq!(say.body, vec!["ll.print \"hello \"".to_string(), "ll.print value".to_string()]);
}

#[test]
fn replace_word_keeps_longer_identifiers() {
    assert_eq!(replace_word("value + values + value_2 + value", "value", "x"), "x + values + value_2 + x");
    assert_eq!(replace_word("(value)", "value", "a, b"), "(a, b)");
    assert_eq!(replace_word("", "value", "x"), "");
}

#[test]
fn split_top_level_args_respects_brackets_and_strings() {
    let args = split_top_level_args("a, (b, c), \"d,e\", [f, g], {h: i}, , \"\\\",\"");
    assert_eq!(
        args,
        vec![
            "a".to_string(),
            "(b, c)".to_string(),
            "\"d,e\"".to_string(),
            "[f, g]".to_string(),
            "{h: i}".to_string(),
            "\"\\\",\"".to_string(),
        ]
    );
    assert!(split_top_level_args("").is_empty());
    assert!(split_top_level_args(" , ,").is_empty());
}

#[test]
fn command_invocation_needs_an_identifier_before_the_colon() {
    let (name, args) = parse_command_invocation("  pack : 1, 2 ").unwrap();
    assert_eq!(name, "pack");
    assert_eq!(args, vec!["1".to_string(), "2".to_string()]);
    assert!(parse_command_invocation("no colon here").is_none());
    assert!(parse_command_invocation("a b: 1").is_none());
    assert!(parse_command_invocation(": 1").is_none());
}

#[test]
fn profile_errors_name_the_line() {
    assert_eq!(SyntaxProfile::parse("oops").unwrap_err(), "Invalid syntax.ff line: oops");
    assert_eq!(
        SyntaxProfile::parse("  command f x {  ").unwrap_err(),
        "Expected '(' in command header: command f x {"
    );
    assert_eq!(
        SyntaxProfile::parse("command f(x {").unwrap_err(),
        "Expected ')' in command header: command f(x {"
    );
    assert_eq!(
        SyntaxProfile::parse("command f(x) y").unwrap_err(),
        "Expected '{' in command header: command f(x) y"
    );
}

#[test]
fn profile_skips_comments_and_later_definitions_replace_earlier_ones() {
    let profile = SyntaxProfile::parse(
        "// comment\n# another\n\nfforge-main {\ncommand f(a,b) {\nll.print a\n\n}\ncommand g() {\nll.raw x\n}\ncommand f(c) {\nll.print c\n}\n}",
    )
    .unwrap();
    assert_eq!(profile.commands.len(), 2);
    assert_eq!(profile.commands.name_at(0), "f");
    assert_eq!(profile.commands.name_at(1), "g");
    let f = profile.commands.get("f").unwrap();
    assert_eq!(f.params, vec!["c".to_string()]);
    assert_eq!(f.body, vec!["ll.print c".to_string()]);
    let g = profile.commands.get("g").unwrap();
    assert!(g.params.is_empty());
}

#[test]
fn merge_prefers_the_later_profile() {
    let mut base = SyntaxProfile::parse("command a(x) {\nll.print x\n}\ncommand b(x) {\nll.raw x\n}").unwrap();
    let other = SyntaxProfile::parse("command b(y) {\nll.print y\n}\ncommand c() {\nll.raw c\n}").unwrap();
    base.merge(&other);
    assert_eq!(base.commands.len(), 3);
    assert_eq!(base.commands.get("b").unwrap().params, vec!["y".to_string()]);
    assert!(base.commands.get("a").is_some());
    assert!(base.commands.get("c").is_some());
}

#[test]
fn use_lines_are_recognised() {
    assert_eq!(parse_use_ff_line("use syntax.ff"), Some("syntax.ff".to_string()));
    assert_eq!(parse_use_ff_line("use   \"lib/more.ff\"  "), Some("lib/more.ff".to_string()));
    assert_eq!(parse_use_ff_line("use \"x.ff"), Some("\"x.ff".to_string()));
    assert_eq!(parse_use_ff_line("use std"), None);
    assert_eq!(parse_use_ff_line("say: 1"), None);
    assert_eq!(
        use_targets("use a.ff\nsay: 1\n  use \"b.ff\"\n"),
        vec!["a.ff".to_string(), "b.ff".to_string()]
    );
}

#[test]
fn lowering_covers_each_low_level_form() {
    assert_eq!(lower_low_level("ll.mov x, 1 + 2"), "x: 1 + 2");
    assert_eq!(lower_low_level("  ll.var: y , 2"), "var y: 2");
    assert_eq!(lower_low_level("ll.call f, a, b"), "f: a, b");
    assert_eq!(lower_low_level("ll.raw   hello there "), "hello there");
    assert_eq!(lower_low_level("ll.print:42"), "say: 42");
    assert_eq!(lower_low_level("  ll.mov x"), "  ll.mov x");
    assert_eq!(lower_low_level("plain line\r\nnext\n"), "plain line\nnext");
    assert_eq!(lower_low_level(""), "");
}

#[test]
fn expression_invocations_are_found_outside_strings() {
    assert_eq!(
        find_expression_invocation("x: max: 1, 2", "max", 2),
        Some((3, 12, vec!["1".to_string(), "2".to_string()]))
    );
    assert_eq!(find_expression_invocation("\"max: 1, 2\"", "max", 2), None);
    assert_eq!(find_expression_invocation("maximum: 1, 2", "max", 2), None);
    assert_eq!(find_expression_invocation("max: 1", "max", 2), None);
    assert_eq!(
        find_expression_invocation("f(abs: -3) + 1", "abs", 1),
        Some((2, 9, vec!["-3".to_string()]))
    );
    assert_eq!(
        parse_expression_invocation_args("  (a, b), c", 0, 2),
        Some((11, vec!["(a, b)".to_string(), "c".to_string()]))
    );
    assert_eq!(parse_expression_invocation_args("   ", 0, 0), Some((3, vec![])));
    assert_eq!(parse_expression_invocation_args(", c", 0, 2), None);
}

#[test]
fn expression_expansion_replaces_the_earliest_invocation_first() {
    let profile = SyntaxProfile::parse(&default_syntax_ff()).unwrap();
    assert_eq!(
        expand_expression_commands_once("say: max: len: a, 2", &profile),
        Some("say: (__ff_builtin_max__: len: a, 2)".to_string())
    );
    assert_eq!(
        expand_expression_commands_in_line("say: max: len: a, 2", &profile),
        "say: (__ff_builtin_max__: (__ff_builtin_len__: a), 2)"
    );
    assert_eq!(expand_expression_commands_once("say: 1", &profile), None);
}

#[test]
fn preprocessing_with_the_default_profile() {
    let profile = SyntaxProfile::parse(&default_syntax_ff()).unwrap();
    let out = preprocess_source("use syntax.ff\nsay: \"world\"\ndefine: n, len: xs", &profile);
    assert_eq!(out, "say: \"hello \"\nsay: \"world\"\nvar n: (__ff_builtin_len__: xs)");
}

#[test]
fn without_commands_preprocessing_only_lowers() {
    let source = "ll.print 1\nsay: 2\r\nll.mov x, 3\n";
    let out = preprocess_source(source, &SyntaxProfile::new());
    let joined = source.lines().collect::<Vec<_>>().join("\n");
    assert_eq!(out, lower_low_level(&joined));
    assert_eq!(out, "say: 1\nsay: 2\nx: 3");
}

#[test]
fn plain_text_is_not_lowered() {
    assert_eq!(lower_low_level("say: 1\n  x: ll.print"), "say: 1\n  x: ll.print");
}

#[test]
fn comment_only_profiles_define_nothing() {
    let profile = SyntaxProfile::parse("// one\n# two\n\nfforge-main {\n}\n").unwrap();
    assert_eq!(profile.commands.len(), 0);
}
