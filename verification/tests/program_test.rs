use lib_ruby_parser::nodes::Node;
use lib_ruby_parser::parser::{ParseError, ParseResult};
use lib_ruby_parser::{Loc, Parser, TokenKind};

fn show(input: &[u8]) -> String {
    let mut parser = Parser::new(input);
    let node = parser.parse_program().expect("the program should parse");
    String::from_utf8(parser.inspect(&node)).unwrap()
}

fn check(rule: fn(&mut Parser) -> ParseResult<Node>, input: &[u8], expected: &str) {
    let mut parser = Parser::new(input);
    let node = rule(&mut parser).expect("the input should parse");
    assert_eq!(String::from_utf8(parser.inspect(&node)).unwrap(), expected.trim());
}

#[test]
fn several_statements_make_a_begin() {
    assert_eq!(show(b"1; 2\n3"), "s(:begin,\n  s(:int, \"1\"),\n  s(:int, \"2\"),\n  s(:int, \"3\"))");
}

#[test]
fn empty_program_is_no_tree() {
    let mut parser = Parser::new(b"  ;\n ");
    assert_eq!(parser.parse(), None);
    let mut parser = Parser::new(b"");
    assert!(parser.parse_program().unwrap().is_empty());
}

#[test]
fn assignment_and_operator_assignment() {
    assert_eq!(show(b"a = 1"), "s(:lvasgn, \"a\",\n  s(:int, \"1\"))");
    assert_eq!(show(b"A = 1"), "s(:casgn, nil, \"A\",\n  s(:int, \"1\"))");
    assert_eq!(show(b"@a += 2"), "s(:op_asgn,\n  s(:ivasgn, \"@a\"), \"+\",\n  s(:int, \"2\"))");
    assert_eq!(show(b"a ||= 3"), "s(:or_asgn,\n  s(:lvasgn, \"a\"),\n  s(:int, \"3\"))");
    assert_eq!(show(b"$a &&= 4"), "s(:and_asgn,\n  s(:gvasgn, \"$a\"),\n  s(:int, \"4\"))");
}

#[test]
fn rescue_modifier_in_assignment() {
    assert_eq!(
        show(b"a = b rescue 1"),
        "s(:lvasgn, \"a\",\n  s(:rescue,\n    s(:lvar, \"b\"),\n    s(:resbody, nil, nil,\n      s(:int, \"1\")), nil))"
    );
}

#[test]
fn operators_precedence_and_grouping() {
    assert_eq!(show(b"1 - 2 - 3"), "s(:send,\n  s(:send,\n    s(:int, \"1\"), \"-\",\n    s(:int, \"2\")), \"-\",\n  s(:int, \"3\"))");
    assert_eq!(show(b"2 ** 3 ** 4"), "s(:send,\n  s(:int, \"2\"), \"**\",\n  s(:send,\n    s(:int, \"3\"), \"**\",\n    s(:int, \"4\")))");
    assert_eq!(show(b"a && b || c"), "s(:or,\n  s(:and,\n    s(:lvar, \"a\"),\n    s(:lvar, \"b\")),\n  s(:lvar, \"c\"))");
    assert_eq!(show(b"-a * b"), "s(:send,\n  s(:send,\n    s(:lvar, \"a\"), \"-@\"), \"*\",\n  s(:lvar, \"b\"))");
    assert_eq!(show(b"!a"), "s(:send,\n  s(:lvar, \"a\"), \"!\")");
    assert_eq!(show(b"-2 ** 2"), "s(:send,\n  s(:send,\n    s(:int, \"2\"), \"**\",\n    s(:int, \"2\")), \"-@\")");
}

#[test]
fn ternary_and_ranges() {
    assert_eq!(show(b"a ? 1 : 2"), "s(:if,\n  s(:lvar, \"a\"),\n  s(:int, \"1\"),\n  s(:int, \"2\"))");
    assert_eq!(show(b"1..2"), "s(:irange,\n  s(:int, \"1\"),\n  s(:int, \"2\"))");
    assert_eq!(show(b"1...2"), "s(:erange,\n  s(:int, \"1\"),\n  s(:int, \"2\"))");
    assert_eq!(show(b"1.."), "s(:irange,\n  s(:int, \"1\"), nil)");
    assert_eq!(show(b"..2"), "s(:irange, nil,\n  s(:int, \"2\"))");
}

#[test]
fn not_and_keyword_logic() {
    assert_eq!(show(b"not a"), "s(:send,\n  s(:lvar, \"a\"), \"!\")");
    assert_eq!(show(b"a and b or c"), "s(:and,\n  s(:lvar, \"a\"),\n  s(:or,\n    s(:lvar, \"b\"),\n    s(:lvar, \"c\")))");
}

#[test]
fn calls_indexes_and_constants() {
    assert_eq!(show(b"foo(1, *a)"), "s(:send, nil, \"foo\",\n  s(:int, \"1\"),\n  s(:splat,\n    s(:lvar, \"a\")))");
    assert_eq!(show(b"a.b(1).c"), "s(:send,\n  s(:send,\n    s(:lvar, \"a\"), \"b\",\n    s(:int, \"1\")), \"c\")");
    assert_eq!(show(b"a[1, 2]"), "s(:index,\n  s(:lvar, \"a\"),\n  s(:int, \"1\"),\n  s(:int, \"2\"))");
    assert_eq!(show(b"::A::B"), "s(:const,\n  s(:const,\n    s(:cbase), \"A\"), \"B\")");
    assert_eq!(show(b"foo?"), "s(:send, nil, \"foo?\")");
}

#[test]
fn parentheses_group_statements() {
    assert_eq!(show(b"(1; 2)"), "s(:begin,\n  s(:int, \"1\"),\n  s(:int, \"2\"))");
    assert_eq!(show(b"()"), "s(:begin)");
}

#[test]
fn elsif_chain() {
    assert_eq!(
        show(b"if a then 1 elsif b then 2 end"),
        "s(:if,\n  s(:lvar, \"a\"),\n  s(:int, \"1\"),\n  s(:if,\n    s(:lvar, \"b\"),\n    s(:int, \"2\"), nil))"
    );
}

#[test]
fn yield_forms() {
    check(Parser::parse_keyword_cmd, b"yield", "s(:yield)");
    check(Parser::parse_keyword_cmd, b"yield 1, 2", "s(:yield,\n  s(:int, \"1\"),\n  s(:int, \"2\"))");
    check(Parser::parse_keyword_cmd, b"yield(1)", "s(:yield,\n  s(:int, \"1\"))");
}

#[test]
fn method_with_params_and_endless_method() {
    assert_eq!(
        show(b"def foo(a, b = 1, *c, d:, e: 2, **f, &g); end"),
        "s(:def, \"foo\",\n  s(:args,\n    s(:arg, \"a\"),\n    s(:optarg, \"b\",\n      s(:int, \"1\")),\n    s(:restarg, \"c\"),\n    s(:kwarg, \"d\"),\n    s(:kwoptarg, \"e\",\n      s(:int, \"2\")),\n    s(:kwrestarg, \"f\"),\n    s(:blockarg, \"g\")), nil)"
    );
    assert_eq!(show(b"def foo = 42"), "s(:def, \"foo\", nil,\n  s(:int, \"42\"))");
    assert_eq!(
        show(b"def foo a\n  a\nend"),
        "s(:def, \"foo\",\n  s(:args,\n    s(:arg, \"a\")),\n  s(:lvar, \"a\"))"
    );
}

#[test]
fn body_with_rescue_else_ensure() {
    assert_eq!(
        show(b"def f; 1; rescue A => e; 2; else; 3; ensure; 4; end"),
        "s(:def, \"f\", nil,\n  s(:ensure,\n    s(:rescue,\n      s(:int, \"1\"),\n      s(:resbody,\n        s(:array,\n          s(:const, nil, \"A\")),\n        s(:lvar, \"e\"),\n        s(:int, \"2\")),\n      s(:int, \"3\")),\n    s(:int, \"4\")))"
    );
}

#[test]
fn hash_with_splat_and_quoted_key() {
    check(
        Parser::parse_hash,
        b"{ **a, \"b\": 1 }",
        "s(:hash,\n  s(:kwsplat,\n    s(:lvar, \"a\")),\n  s(:pair,\n    s(:sym, \"b\"),\n    s(:int, \"1\")))",
    );
    check(Parser::parse_hash, b"{}", "s(:hash)");
}

#[test]
fn array_with_trailing_comma() {
    check(Parser::parse_array, b"[1, 2,]", "s(:array,\n  s(:int, \"1\"),\n  s(:int, \"2\"))");
    check(Parser::parse_array, b"[]", "s(:array)");
}

#[test]
fn strings_are_escaped_when_printed() {
    assert_eq!(show(b"'a\"b'"), "s(:str, \"a\\\"b\")");
}

#[test]
fn errors_name_the_token() {
    let mut parser = Parser::new(b"if 1; 2");
    let err = parser.parse_program();
    let head = match err {
        Err(ParseError::OneOfError { name, mut variants }) => {
            assert_eq!(name, "arg lhs");
            assert_eq!(variants.len(), 2);
            match &variants[0] {
                ParseError::OneOfError { name, variants } => {
                    assert_eq!(*name, "arg prefix operator");
                    assert_eq!(variants.len(), 7);
                },
                other => panic!("unexpected {:?}", other),
            }
            variants.pop().unwrap()
        },
        other => panic!("unexpected {:?}", other),
    };
    match head {
        ParseError::OneOfError { name, variants } => {
            assert_eq!(name, "arg head");
            assert_eq!(variants.len(), 13);
            assert_eq!(
                variants[12],
                ParseError::TokenError {
                    lookahead: false,
                    expected: TokenKind::kEND,
                    got: TokenKind::tEOF,
                    loc: Loc { start: 7, end: 7 }
                }
            );
        },
        other => panic!("unexpected {:?}", other),
    }
    let mut parser = Parser::new(b"1 2");
    assert_eq!(
        parser.parse_program(),
        Err(ParseError::TokenError {
            lookahead: false,
            expected: TokenKind::tEOF,
            got: TokenKind::tINTEGER,
            loc: Loc { start: 2, end: 3 }
        })
    );
    let mut parser = Parser::new(b"[1");
    assert_eq!(
        parser.parse_array(),
        Err(ParseError::TokenError {
            lookahead: false,
            expected: TokenKind::tRBRACK,
            got: TokenKind::tEOF,
            loc: Loc { start: 2, end: 2 }
        })
    );
}

#[test]
fn wrong_first_token_is_a_lookahead_error() {
    let mut parser = Parser::new(b"foo");
    assert_eq!(
        parser.parse_class(),
        Err(ParseError::TokenError {
            lookahead: true,
            expected: TokenKind::kCLASS,
            got: TokenKind::tIDENTIFIER,
            loc: Loc { start: 0, end: 3 }
        })
    );
}

#[test]
fn alias_of_back_reference() {
    check(Parser::parse_alias, b"alias $a $&", "s(:alias,\n  s(:gvar, \"$a\"),\n  s(:back_ref, \"$&\"))");
}

#[test]
fn for_loop_without_do() {
    check(
        Parser::parse_for_loop,
        b"for a, *b in c\n  d\nend",
        "s(:for,\n  s(:begin,\n    s(:lvar, \"a\"),\n    s(:splat,\n      s(:lvar, \"b\"))),\n  s(:lvar, \"c\"),\n  s(:lvar, \"d\"))",
    );
}

#[test]
fn character_literals_and_the_ternary_operator() {
    assert_eq!(show(b"x = ?a"), "s(:lvasgn, \"x\",\n  s(:str, \"a\"))");
    assert_eq!(
        show(b"a ? ?b : ?c"),
        "s(:if,\n  s(:lvar, \"a\"),\n  s(:str, \"b\"),\n  s(:str, \"c\"))"
    );
    assert_eq!(show(b"a ?b : c"), "s(:if,\n  s(:lvar, \"a\"),\n  s(:lvar, \"b\"),\n  s(:lvar, \"c\"))");
}

#[test]
fn interpolated_strings_in_programs() {
    assert_eq!(
        show(b"x = \"a#{y}\""),
        "s(:lvasgn, \"x\",\n  s(:dstr,\n    s(:str, \"a\"),\n    s(:begin,\n      s(:lvar, \"y\"))))"
    );
    assert_eq!(
        show(b"{\"a#{1}\": 2}"),
        "s(:hash,\n  s(:pair,\n    s(:dsym,\n      s(:str, \"a\"),\n      s(:begin,\n        s(:int, \"1\"))),\n    s(:int, \"2\")))"
    );
    assert_eq!(
        show(b"\"a\" \"b#{c}\""),
        "s(:dstr,\n  s(:str, \"a\"),\n  s(:dstr,\n    s(:str, \"b\"),\n    s(:begin,\n      s(:lvar, \"c\"))))"
    );
    assert_eq!(show(b"\"#{1}\"; 2"), "s(:begin,\n  s(:dstr,\n    s(:begin,\n      s(:int, \"1\"))),\n  s(:int, \"2\"))");
}

#[test]
fn operator_assignment_to_elements_attributes_and_constants() {
    assert_eq!(
        show(b"a[1] += 2"),
        "s(:op_asgn,\n  s(:indexasgn,\n    s(:lvar, \"a\"),\n    s(:int, \"1\")), \"+\",\n  s(:int, \"2\"))"
    );
    assert_eq!(
        show(b"a.b ||= 1"),
        "s(:or_asgn,\n  s(:send,\n    s(:lvar, \"a\"), \"b\"),\n  s(:int, \"1\"))"
    );
    assert_eq!(
        show(b"A::B *= 3"),
        "s(:op_asgn,\n  s(:casgn,\n    s(:const, nil, \"A\"), \"B\"), \"*\",\n  s(:int, \"3\"))"
    );
    assert_eq!(
        show(b"::C &&= 1"),
        "s(:and_asgn,\n  s(:casgn,\n    s(:cbase), \"C\"),\n  s(:int, \"1\"))"
    );
    let mut parser = Parser::new(b"a.b(1) += 2");
    assert!(parser.parse_program().is_err());
    assert_eq!(
        show(b"a[1] + 2"),
        "s(:send,\n  s(:index,\n    s(:lvar, \"a\"),\n    s(:int, \"1\")), \"+\",\n  s(:int, \"2\"))"
    );
}

#[test]
fn endless_method_with_rescue_modifier() {
    assert_eq!(
        show(b"def foo = 1 rescue 2"),
        "s(:def, \"foo\", nil,\n  s(:rescue,\n    s(:int, \"1\"),\n    s(:resbody, nil, nil,\n      s(:int, \"2\")), nil))"
    );
    assert_eq!(
        show(b"def self.foo(a) = a rescue nil"),
        "s(:defs,\n  s(:self), \"foo\",\n  s(:args,\n    s(:arg, \"a\")),\n  s(:rescue,\n    s(:lvar, \"a\"),\n    s(:resbody, nil, nil,\n      s(:nil)), nil))"
    );
}

#[test]
fn assignment_to_a_top_level_constant() {
    assert_eq!(show(b"::C = 1"), "s(:casgn,\n  s(:cbase), \"C\",\n  s(:int, \"1\"))");
    assert_eq!(show(b"::C == 1"), "s(:send,\n  s(:const,\n    s(:cbase), \"C\"), \"==\",\n  s(:int, \"1\"))");
}

#[test]
fn looser_operator_after_a_tighter_one() {
    assert_eq!(
        show(b"1 * 2 + 3"),
        "s(:send,\n  s(:send,\n    s(:int, \"1\"), \"*\",\n    s(:int, \"2\")), \"+\",\n  s(:int, \"3\"))"
    );
}

#[test]
fn failed_arg_head_lists_each_alternative_and_goes_back() {
    let mut parser = Parser::new(b")");
    let lookahead = |expected: TokenKind| ParseError::TokenError {
        lookahead: true,
        expected,
        got: TokenKind::tRPAREN,
        loc: Loc { start: 0, end: 1 },
    };
    let kinds = [
        TokenKind::tIDENTIFIER,
        TokenKind::tIDENTIFIER,
        TokenKind::tIDENTIFIER,
        TokenKind::tIDENTIFIER,
        TokenKind::tIDENTIFIER,
        TokenKind::tCOLON2,
        TokenKind::tBACK_REF,
        TokenKind::tUMINUS_NUM,
        TokenKind::kDEF,
        TokenKind::kDEF,
        TokenKind::kDEF,
        TokenKind::kDEF,
        TokenKind::tIDENTIFIER,
    ];
    let expected: Vec<ParseError> = kinds.iter().map(|k| lookahead(*k)).collect();
    assert_eq!(
        parser.parse_arg_head(),
        Err(ParseError::OneOfError { name: "arg head", variants: expected })
    );
    assert_eq!(parser.current_token().kind, TokenKind::tRPAREN);

    let mut parser = Parser::new(b"a = )");
    match parser.parse_arg_head() {
        Err(ParseError::OneOfError { name, variants }) => {
            assert_eq!(name, "arg head");
            assert_eq!(variants.len(), 13);
            assert_eq!(variants[1], lookahead_at(TokenKind::tIDENTIFIER, TokenKind::tIDENTIFIER, 0, 1));
        },
        other => panic!("unexpected {:?}", other),
    }
    assert_eq!(parser.current_token().kind, TokenKind::tIDENTIFIER);
}

fn lookahead_at(expected: TokenKind, got: TokenKind, start: usize, end: usize) -> ParseError {
    ParseError::TokenError { lookahead: true, expected, got, loc: Loc { start, end } }
}

#[test]
fn failed_arg_lhs_tries_both_alternatives_and_goes_back() {
    let mut parser = Parser::new(b"!)");
    match parser.parse_arg() {
        Err(ParseError::OneOfError { name, variants }) => {
            assert_eq!(name, "arg lhs");
            assert_eq!(variants.len(), 2);
            assert!(matches!(&variants[1], ParseError::OneOfError { name: "arg head", .. }));
        },
        other => panic!("unexpected {:?}", other),
    }
    assert_eq!(parser.current_token().kind, TokenKind::tBANG);
}

#[test]
fn arg_prefix_operator() {
    let mut parser = Parser::new(b"!a");
    assert_eq!(parser.parse_arg_prefix_operator().map(|t| t.kind), Ok(TokenKind::tBANG));
    assert_eq!(parser.current_token().kind, TokenKind::tIDENTIFIER);
    match parser.parse_arg_prefix_operator() {
        Err(ParseError::OneOfError { name, variants }) => {
            assert_eq!(name, "arg prefix operator");
            assert_eq!(variants.len(), 7);
            assert_eq!(variants[6], lookahead_at(TokenKind::kDEFINED, TokenKind::tIDENTIFIER, 1, 2));
        },
        other => panic!("unexpected {:?}", other),
    }
    assert_eq!(parser.current_token().kind, TokenKind::tIDENTIFIER);
}

#[test]
fn failed_keyword_variable_and_numbers_list_each_alternative() {
    let mut parser = Parser::new(b"foo");
    match parser.parse_keyword_variable() {
        Err(ParseError::OneOfError { name, variants }) => {
            assert_eq!(name, "keyword variable");
            assert_eq!(variants.len(), 7);
            assert_eq!(variants[0], lookahead_at(TokenKind::kNIL, TokenKind::tIDENTIFIER, 0, 3));
            assert_eq!(variants[6], lookahead_at(TokenKind::k__ENCODING__, TokenKind::tIDENTIFIER, 0, 3));
        },
        other => panic!("unexpected {:?}", other),
    }
    assert_eq!(parser.current_token().kind, TokenKind::tIDENTIFIER);

    let mut parser = Parser::new(b"foo");
    match parser.try_numeric() {
        Err(ParseError::OneOfError { name, variants }) => {
            assert_eq!(name, "numeric");
            assert_eq!(variants.len(), 2);
            match &variants[0] {
                ParseError::SeqError { name, steps, error } => {
                    assert_eq!(*name, "-numeric");
                    assert!(steps.items.is_empty());
                    assert_eq!(**error, lookahead_at(TokenKind::tUMINUS_NUM, TokenKind::tIDENTIFIER, 0, 3));
                },
                other => panic!("unexpected {:?}", other),
            }
            assert!(matches!(&variants[1], ParseError::OneOfError { name: "simple numeric", variants } if variants.len() == 4));
        },
        other => panic!("unexpected {:?}", other),
    }
    assert_eq!(parser.current_token().kind, TokenKind::tIDENTIFIER);
}
