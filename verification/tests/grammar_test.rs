use lib_ruby_parser::nodes::{Node, NodeKind};
use lib_ruby_parser::parser::ParseResult;
use lib_ruby_parser::{Loc, Parser, Token, TokenKind};

fn check(rule: fn(&mut Parser) -> ParseResult<Node>, input: &[u8], expected: &str) {
    let mut parser = Parser::new(input);
    let node = rule(&mut parser).expect("the input should parse");
    let printed = String::from_utf8(parser.inspect(&node)).unwrap();
    assert_eq!(printed, expected.trim());
    assert_eq!(parser.current_token().kind, TokenKind::tEOF);
}

#[test]
fn test_alias_name_to_name() {
    check(
        Parser::parse_alias,
        b"alias foo bar",
        r#"
s(:alias,
  s(:sym, "foo"),
  s(:sym, "bar"))
            "#,
    )
}

#[test]
fn test_alias_sym_to_sym() {
    check(
        Parser::parse_alias,
        b"alias :foo :bar",
        r#"
s(:alias,
  s(:sym, "foo"),
  s(:sym, "bar"))
            "#,
    )
}

#[test]
fn test_alias_gvar_to_gvar() {
    check(
        Parser::parse_alias,
        b"alias $foo $bar",
        r#"
s(:alias,
  s(:gvar, "$foo"),
  s(:gvar, "$bar"))
            "#,
    )
}

#[test]
fn arg_test_arg() {
    check(
        Parser::parse_arg,
        b"1 + 2 * 3",
        r#"
s(:send,
  s(:int, "1"), "+",
  s(:send,
    s(:int, "2"), "*",
    s(:int, "3")))
        "#,
    );
}

#[test]
fn test_array_simple() {
    check(
        Parser::parse_array,
        b"[1, 2, 3]",
        r#"
s(:array,
  s(:int, "1"),
  s(:int, "2"),
  s(:int, "3"))
        "#,
    )
}

#[test]
fn test_value_to_value() {
    check(
        Parser::parse_item,
        b"42 => 42",
        r#"
s(:pair,
  s(:int, "42"),
  s(:int, "42"))
        "#,
    )
}

#[test]
fn test_quoted_label_pair() {
    check(
        Parser::parse_item,
        b"\"foo\": 42",
        r#"
s(:pair,
  s(:sym, "foo"),
  s(:int, "42"))
        "#,
    )
}

#[test]
fn test_element() {
    check(Parser::parse_item, b"42", r#"s(:int, "42")"#)
}

#[test]
fn test_splat_element() {
    check(
        Parser::parse_item,
        b"*42",
        r#"
s(:splat,
  s(:int, "42"))
        "#,
    )
}

#[test]
fn test_label_pair() {
    check(
        Parser::parse_item,
        b"foo: 42",
        r#"
s(:pair,
  s(:sym, "foo"),
  s(:int, "42"))
        "#,
    )
}

#[test]
fn test_label_without_value() {
    check(
        Parser::parse_item,
        b"foo:",
        r#"
s(:pair,
  s(:sym, "foo"),
  s(:lvar, "foo"))
        "#,
    )
}

#[test]
fn test_kwsplat_element() {
    check(
        Parser::parse_item,
        b"**42",
        r#"
s(:kwsplat,
  s(:int, "42"))
        "#,
    )
}

#[test]
fn test_cpath_global_const() {
    check(
        Parser::parse_cpath,
        b"::Foo",
        r#"
s(:const,
  s(:cbase), "Foo")
"#,
    )
}

#[test]
fn test_cpath_primary() {
    check(
        Parser::parse_cpath,
        b"Foo::Bar",
        r#"
s(:const,
  s(:const, nil, "Foo"), "Bar")
"#,
    )
}

#[test]
fn test_cpath_simple() {
    check(Parser::parse_cpath, b"Foo", r#"s(:const, nil, "Foo")"#)
}

#[test]
fn class_test_class() {
    check(
        Parser::parse_class,
        b"class Foo; 42; end",
        r#"
s(:class,
  s(:const, nil, "Foo"), nil,
  s(:int, "42"))
            "#,
    )
}

#[test]
fn class_test_sclass() {
    check(
        Parser::parse_class,
        b"class << Foo; 42; end",
        r#"
s(:sclass,
  s(:const, nil, "Foo"),
  s(:int, "42"))
            "#,
    )
}

#[test]
fn def_method_test_instance_method_def() {
    check(
        Parser::parse_method,
        b"def foo; 42; end",
        r#"
s(:def, "foo", nil,
  s(:int, "42"))
            "#,
    )
}

#[test]
fn def_method_test_singleton_method_def() {
    check(
        Parser::parse_method,
        b"def self.foo; 42; end",
        r#"
s(:defs,
  s(:self), "foo", nil,
  s(:int, "42"))
            "#,
    )
}

#[test]
fn def_module_class_test_module() {
    check(
        Parser::parse_module,
        b"module Foo::Bar; 1; end",
        r#"
s(:module,
  s(:const,
    s(:const, nil, "Foo"), "Bar"),
  s(:int, "1"))
            "#,
    )
}

#[test]
fn def_module_class_test_class() {
    check(
        Parser::parse_class,
        b"class Foo < Bar; 1; end",
        r#"
s(:class,
  s(:const, nil, "Foo"),
  s(:const, nil, "Bar"),
  s(:int, "1"))
            "#,
    )
}

#[test]
fn def_module_class_test_sclass() {
    check(
        Parser::parse_class,
        b"class << self; 1; end",
        r#"
s(:sclass,
  s(:self),
  s(:int, "1"))
            "#,
    )
}

#[test]
fn test_defined() {
    check(
        Parser::parse_defined,
        b"defined?(42)",
        r#"
s(:defined?,
  s(:int, "42"))
            "#,
    )
}

#[test]
fn test_for_lhs() {
    check(
        Parser::parse_for_loop,
        b"for a in 1 do; 2; end",
        r#"
s(:for,
  s(:lvar, "a"),
  s(:int, "1"),
  s(:int, "2"))
            "#,
    )
}

#[test]
fn test_for_mlhs() {
    check(
        Parser::parse_for_loop,
        b"for (a, b) in 1 do; 2; end",
        r#"
s(:for,
  s(:begin,
    s(:lvar, "a"),
    s(:lvar, "b")),
  s(:int, "1"),
  s(:int, "2"))
            "#,
    )
}

fn check_program(input: &[u8], kind: NodeKind, loc: Loc, expected: &str) {
    let mut parser = Parser::new(input);
    let node = parser.parse().expect("a program with one statement");
    assert_eq!(node.kind(), Some(kind));
    assert_eq!(node.loc(), loc);
    assert_eq!(String::from_utf8(parser.inspect(&node)).unwrap(), expected);
}

#[test]
fn test_gvar() {
    check_program(b"$foo", NodeKind::Gvar, Loc { start: 0, end: 4 }, r#"s(:gvar, "$foo")"#);
}

#[test]
fn test_back_ref() {
    check_program(b"$+", NodeKind::BackRef, Loc { start: 0, end: 2 }, r#"s(:back_ref, "$+")"#);
}

#[test]
fn test_nth_ref() {
    check_program(b"$1", NodeKind::NthRef, Loc { start: 0, end: 2 }, r#"s(:nth_ref, "$1")"#);
}

#[test]
fn test_hash() {
    check(
        Parser::parse_hash,
        b"{ a: 1, :b => 2, c => 3 }",
        r#"
s(:hash,
  s(:pair,
    s(:sym, "a:"),
    s(:int, "1")),
  s(:pair,
    s(:sym, "b"),
    s(:int, "2")),
  s(:pair,
    s(:lvar, "c"),
    s(:int, "3")))
        "#,
    );
}

#[test]
fn test_if() {
    check(
        Parser::parse_if,
        b"if 1; 2; else; 3; end",
        r#"
s(:if,
  s(:int, "1"),
  s(:int, "2"),
  s(:int, "3"))
            "#,
    )
}

#[test]
fn test_unless() {
    check(
        Parser::parse_unless,
        b"unless 1; 2; else; 3; end",
        r#"
s(:if,
  s(:int, "1"),
  s(:int, "3"),
  s(:int, "2"))
            "#,
    )
}

#[test]
fn keyword_cmd_test_keyword_cmd() {
    check(Parser::parse_keyword_cmd, b"break", "s(:break)");
    check(Parser::parse_keyword_cmd, b"next", "s(:next)");
    check(Parser::parse_keyword_cmd, b"redo", "s(:redo)");
    check(Parser::parse_keyword_cmd, b"retry", "s(:retry)");
    check(Parser::parse_keyword_cmd, b"return", "s(:return)");
}

#[test]
fn primary_test_keyword_cmd() {
    check(Parser::parse_primary, b"break", "s(:break)");
    check(Parser::parse_primary, b"next", "s(:next)");
    check(Parser::parse_primary, b"redo", "s(:redo)");
    check(Parser::parse_primary, b"retry", "s(:retry)");
    check(Parser::parse_primary, b"return", "s(:return)");
}

#[test]
fn test_nil() {
    check(Parser::parse_keyword_variable, b"nil", "s(:nil)");
}

#[test]
fn test_self() {
    check(Parser::parse_keyword_variable, b"self", "s(:self)");
}

#[test]
fn test_true() {
    check(Parser::parse_keyword_variable, b"true", "s(:true)");
}

#[test]
fn test_false() {
    check(Parser::parse_keyword_variable, b"false", "s(:false)");
}

#[test]
#[allow(non_snake_case)]
fn test__file__() {
    check(Parser::parse_keyword_variable, b"__FILE__", "s(:__FILE__)");
}

#[test]
#[allow(non_snake_case)]
fn test__line__() {
    check(Parser::parse_keyword_variable, b"__LINE__", "s(:__LINE__)");
}

#[test]
#[allow(non_snake_case)]
fn test__encoding__() {
    check(Parser::parse_keyword_variable, b"__ENCODING__", "s(:__ENCODING__)");
}

#[test]
fn method_definition_test_instance_method_def() {
    check(
        Parser::parse_method,
        b"def foo; 42; end",
        r#"
s(:def, "foo", nil,
  s(:int, "42"))
            "#,
    )
}

#[test]
fn method_definition_test_singleton_method_def() {
    check(
        Parser::parse_method,
        b"def self.foo; 42; end",
        r#"
s(:defs,
  s(:self), "foo", nil,
  s(:int, "42"))
            "#,
    )
}

#[test]
fn test_singleton_method_def_on_expr() {
    check(
        Parser::parse_method,
        b"def (foo).bar; 42; end",
        r#"
s(:defs,
  s(:lvar, "foo"), "bar", nil,
  s(:int, "42"))
            "#,
    )
}

#[test]
fn test_lhs_user_variable() {
    check(
        Parser::parse_mlhs,
        b"a, b",
        r#"
s(:begin,
  s(:lvar, "a"),
  s(:lvar, "b"))
            "#,
    )
}

#[test]
fn test_lhs_parenthesized() {
    check(
        Parser::parse_mlhs,
        b"((a))",
        r#"
s(:begin,
  s(:begin,
    s(:lvar, "a")))
            "#,
    )
}

#[test]
fn test_mlhs_without_parens() {
    check(
        Parser::parse_mlhs,
        b"a, *b, c",
        r#"
s(:begin,
  s(:lvar, "a"),
  s(:splat,
    s(:lvar, "b")),
  s(:lvar, "c"))
            "#,
    )
}

#[test]
fn test_mlhs_with_parens() {
    check(
        Parser::parse_mlhs,
        b"((*a), @b, $c)",
        r#"
s(:begin,
  s(:begin,
    s(:splat,
      s(:lvar, "a"))),
  s(:ivar, "@b"),
  s(:gvar, "$c"))
            "#,
    );
}

#[test]
fn test_nameless_splat() {
    check(Parser::parse_mlhs, b"*", "s(:splat)");
}

#[test]
fn module_test_module() {
    check(
        Parser::parse_module,
        b"module Foo::Bar; 1; end",
        r#"
s(:module,
  s(:const,
    s(:const, nil, "Foo"), "Bar"),
  s(:int, "1"))
            "#,
    )
}

#[test]
fn test_opt_else() {
    let mut parser = Parser::new(b"else 42 end").debug();
    let (else_t, body) = parser.try_opt_else().unwrap().unwrap();
    assert_eq!(else_t, Token { kind: TokenKind::kELSE, loc: Loc { start: 0, end: 4 }, value: None });
    assert_eq!(body.kind(), Some(NodeKind::Int));
    assert_eq!(body.loc(), Loc { start: 5, end: 7 });
    assert_eq!(String::from_utf8(parser.inspect(&body)).unwrap(), r#"s(:int, "42")"#);
}

#[test]
fn test_opt_ensure() {
    let mut parser = Parser::new(b"ensure 42 end");
    let (ensure_t, body) = parser.try_opt_ensure().unwrap().unwrap();
    assert_eq!(ensure_t, Token { kind: TokenKind::kENSURE, loc: Loc { start: 0, end: 6 }, value: None });
    assert_eq!(body.kind(), Some(NodeKind::Int));
    assert_eq!(body.loc(), Loc { start: 7, end: 9 });
    assert_eq!(String::from_utf8(parser.inspect(&body)).unwrap(), r#"s(:int, "42")"#);
}

#[test]
fn test_opt_rescue1_simple() {
    check(Parser::parse_opt_rescue1, b"rescue", "s(:resbody, nil, nil, nil)");
}

#[test]
fn test_opt_rescue1_full() {
    check(
        Parser::parse_opt_rescue1,
        b"rescue Foo, Bar::Baz => e; 42",
        r#"
s(:resbody,
  s(:array,
    s(:const, nil, "Foo"),
    s(:const,
      s(:const, nil, "Bar"), "Baz")),
  s(:lvar, "e"),
  s(:int, "42"))
            "#,
    );
}

#[test]
fn params_test_arg() {
    check(Parser::parse_param, b"a", "s(:arg, \"a\")")
}

#[test]
fn test_optarg() {
    check(
        Parser::parse_param,
        b"a = 42",
        r#"
s(:optarg, "a",
  s(:int, "42"))
        "#,
    )
}

#[test]
fn test_restarg() {
    check(Parser::parse_param, b"*a", "s(:restarg, \"a\")")
}

#[test]
fn test_kwarg() {
    check(Parser::parse_param, b"a:", "s(:kwarg, \"a\")")
}

#[test]
fn test_kwoptarg() {
    check(
        Parser::parse_param,
        b"a: 42",
        r#"
s(:kwoptarg, "a",
  s(:int, "42"))
        "#,
    )
}

#[test]
fn test_kwrestarg() {
    check(Parser::parse_param, b"**a", "s(:kwrestarg, \"a\")")
}

#[test]
fn test_blockarg() {
    check(Parser::parse_param, b"&a", "s(:blockarg, \"a\")")
}

#[test]
fn test_multi_arg() {
    check(
        Parser::parse_param,
        b"(a, *b, (c, d))",
        r#"
s(:mlhs,
  s(:arg, "a"),
  s(:restarg, "b"),
  s(:mlhs,
    s(:arg, "c"),
    s(:arg, "d")))
        "#,
    )
}

#[test]
fn test_postexe() {
    check(
        Parser::parse_postexe,
        b"END { 42 }",
        r#"
s(:postexe,
  s(:int, "42"))
        "#,
    )
}

#[test]
fn test_postexe_empty() {
    check(Parser::parse_postexe, b"END {}", "s(:postexe)")
}

#[test]
fn test_preexe() {
    check(
        Parser::parse_preexe,
        b"BEGIN { 42 }",
        r#"
s(:preexe,
  s(:int, "42"))
        "#,
    );
}

#[test]
fn test_preexe_empty() {
    check(Parser::parse_preexe, b"BEGIN {}", "s(:preexe)");
}
