use lib_ruby_parser::nodes::Node;
use lib_ruby_parser::parser::ParseResult;
use lib_ruby_parser::Parser;

fn check(rule: fn(&mut Parser) -> ParseResult<Node>, input: &[u8], expected: &str) {
    let mut parser = Parser::new(input);
    let node = rule(&mut parser).expect("the input should parse");
    let printed = String::from_utf8(parser.inspect(&node)).unwrap();
    assert_eq!(printed, expected.trim());
}

#[test]
fn test_integer_numeric() {
    check(Parser::try_numeric, b"42", r#"s(:int, "42")"#);
    check(Parser::try_numeric, b"-42", r#"s(:int, "-42")"#);
}

#[test]
fn test_float_numeric() {
    check(Parser::try_numeric, b"42.5", r#"s(:float, "42.5")"#);
    check(Parser::try_numeric, b"-42.5", r#"s(:float, "-42.5")"#);
}

#[test]
fn test_rational_numeric() {
    check(Parser::try_numeric, b"42r", r#"s(:rational, "42r")"#);
    check(Parser::try_numeric, b"-42r", r#"s(:rational, "-42r")"#);
}

#[test]
fn test_complex_numeric() {
    check(Parser::try_numeric, b"42i", r#"s(:complex, "42i")"#);
    check(Parser::try_numeric, b"-42i", r#"s(:complex, "-42i")"#);
}

#[test]
fn test_integer() {
    check(Parser::try_numeric, b"42", "s(:int, \"42\")");
}

#[test]
fn test_minus_integer() {
    check(Parser::try_numeric, b"-42", "s(:int, \"-42\")");
}

#[test]
fn test_float() {
    check(Parser::try_numeric, b"4.2", "s(:float, \"4.2\")");
}

#[test]
fn test_minus_float() {
    check(Parser::try_numeric, b"-4.2", "s(:float, \"-4.2\")");
}

#[test]
fn test_rational() {
    check(Parser::try_numeric, b"42r", "s(:rational, \"42r\")");
}

#[test]
fn test_minus_rational() {
    check(Parser::try_numeric, b"-42r", "s(:rational, \"-42r\")");
}

#[test]
fn test_complex() {
    check(Parser::try_numeric, b"42i", "s(:complex, \"42i\")");
}

#[test]
fn test_minus_complex() {
    check(Parser::try_numeric, b"-42i", "s(:complex, \"-42i\")");
}

#[test]
fn test_simple_symbol() {
    check(Parser::parse_simple_symbol, b":foo", r#"s(:sym, "foo")"#);
    check(Parser::parse_simple_symbol, b":@foo", r#"s(:sym, "@foo")"#);
    check(Parser::parse_simple_symbol, b":@@foo", r#"s(:sym, "@@foo")"#);
    check(Parser::parse_simple_symbol, b":$foo", r#"s(:sym, "$foo")"#);
}

#[test]
fn test_quoted_symbol() {
    check(Parser::parse_quoted_symbol, b":'foo'", r#"s(:sym, "foo")"#);
    check(Parser::parse_quoted_symbol, b":\"foo\"", r#"s(:sym, "foo")"#);
}

#[test]
fn test_strings() {
    check(
        Parser::parse_strings,
        b"'foo' 'bar'",
        r#"
s(:dstr,
  s(:str, "foo"),
  s(:str, "bar"))
        "#,
    );
}

#[test]
fn test_string1_plain() {
    check(Parser::parse_string1, b"'foo'", r#"s(:str, "foo")"#);
}

#[test]
fn test_string1_interp() {
    check(Parser::parse_string1, b"\"foo\"", r#"s(:str, "foo")"#);
}

#[test]
fn test_xstring() {
    check(
        Parser::parse_xstring,
        b"`foo`",
        r#"
s(:xstr,
  s(:str, "foo"))
        "#,
    );
    check(
        Parser::parse_xstring,
        b"%x{foo}",
        r#"
s(:xstr,
  s(:str, "foo"))
        "#,
    );
}

#[test]
fn test_regexp() {
    check(
        Parser::parse_regexp,
        b"/foo/",
        r#"
s(:regexp,
  s(:str, "foo"),
  s(:regopt))
        "#,
    );
    check(
        Parser::parse_regexp,
        b"/foo/xmi",
        r#"
s(:regexp,
  s(:str, "foo"),
  s(:regopt, "i", "m", "x"))
        "#,
    );
    check(
        Parser::parse_regexp,
        b"%r{foo}",
        r#"
s(:regexp,
  s(:str, "foo"),
  s(:regopt))
        "#,
    );
    check(
        Parser::parse_regexp,
        b"//",
        r#"
s(:regexp,
  s(:regopt))
        "#,
    );
}

#[test]
fn test_words() {
    check(
        Parser::parse_words,
        b"%W[foo bar]",
        r#"
s(:array,
  s(:str, "foo"),
  s(:str, "bar"))
        "#,
    );
    check(Parser::parse_words, b"%W[]", r#"s(:array)"#);
}

#[test]
fn test_symbols() {
    check(
        Parser::parse_symbols,
        b"%I[foo bar]",
        r#"
s(:array,
  s(:sym, "foo"),
  s(:sym, "bar"))
        "#,
    );
    check(Parser::parse_symbols, b"%I[]", r#"s(:array)"#);
}

#[test]
fn test_qwords() {
    check(
        Parser::parse_qwords,
        b"%w[foo bar]",
        r#"
s(:array,
  s(:str, "foo"),
  s(:str, "bar"))
        "#,
    );
    check(Parser::parse_qwords, b"%w[]", r#"s(:array)"#);
}

#[test]
fn test_qsymbols() {
    check(
        Parser::parse_qsymbols,
        b"%i[foo bar]",
        r#"
s(:array,
  s(:sym, "foo"),
  s(:sym, "bar"))
        "#,
    );
    check(Parser::parse_qsymbols, b"%i[]", r#"s(:array)"#);
}

#[test]
fn literal_dispatch() {
    check(Parser::parse_literal, b"'a' \"b\" 'c'", r#"
s(:dstr,
  s(:str, "a"),
  s(:str, "b"),
  s(:str, "c"))
"#);
    check(Parser::parse_literal, b":sym", r#"s(:sym, "sym")"#);
    check(Parser::parse_literal, b"''", r#"s(:str, "")"#);
}

#[test]
fn literal_errors() {
    let mut parser = Parser::new(b"foo");
    assert!(parser.parse_literal().is_err());
    let mut parser = Parser::new(b"'foo");
    assert!(parser.parse_string1().is_err());
}

#[test]
fn test_char_literal() {
    check(Parser::parse_char, b"?a", r#"s(:str, "a")"#);
    check(Parser::parse_literal, b"?+", r#"s(:str, "+")"#);
    let mut parser = Parser::new(b"?ab");
    assert!(parser.parse_char().is_err());
}

#[test]
fn test_interpolated_string() {
    check(
        Parser::parse_string1,
        b"\"a#{1}b\"",
        r#"
s(:dstr,
  s(:str, "a"),
  s(:begin,
    s(:int, "1")),
  s(:str, "b"))
        "#,
    );
    check(Parser::parse_string1, b"\"#{}\"", "s(:dstr,\n  s(:begin))");
    check(
        Parser::parse_string1,
        b"\"#{a; b}\"",
        r#"
s(:dstr,
  s(:begin,
    s(:lvar, "a"),
    s(:lvar, "b")))
        "#,
    );
}

#[test]
fn test_interpolated_variables() {
    check(
        Parser::parse_string1,
        b"\"#@a #$b #@@c\"",
        r#"
s(:dstr,
  s(:ivar, "@a"),
  s(:str, " "),
  s(:gvar, "$b"),
  s(:str, " "),
  s(:cvar, "@@c"))
        "#,
    );
    check(Parser::parse_string1, b"\"#a #@ #$1\"", r##"s(:str, "#a #@ #$1")"##);
}

#[test]
fn test_no_interpolation_in_single_quotes() {
    check(Parser::parse_string1, b"'a#{b}'", r##"s(:str, "a#{b}")"##);
    check(Parser::parse_quoted_symbol, b":'a#{b}'", r##"s(:sym, "a#{b}")"##);
}

#[test]
fn test_nested_interpolation() {
    check(
        Parser::parse_string1,
        b"\"a#{\"b#{c}\"}\"",
        r#"
s(:dstr,
  s(:str, "a"),
  s(:begin,
    s(:dstr,
      s(:str, "b"),
      s(:begin,
        s(:lvar, "c")))))
        "#,
    );
    check(
        Parser::parse_string1,
        b"\"#{ {a: 1} }x\"",
        r#"
s(:dstr,
  s(:begin,
    s(:hash,
      s(:pair,
        s(:sym, "a:"),
        s(:int, "1")))),
  s(:str, "x"))
        "#,
    );
}

#[test]
fn test_interpolated_symbol_command_and_regexp() {
    check(
        Parser::parse_quoted_symbol,
        b":\"a#{b}\"",
        r#"
s(:dsym,
  s(:str, "a"),
  s(:begin,
    s(:lvar, "b")))
        "#,
    );
    check(
        Parser::parse_xstring,
        b"`ls #{d}`",
        r#"
s(:xstr,
  s(:str, "ls "),
  s(:begin,
    s(:lvar, "d")))
        "#,
    );
    check(
        Parser::parse_regexp,
        b"/a#{b}/i",
        r#"
s(:regexp,
  s(:str, "a"),
  s(:begin,
    s(:lvar, "b")),
  s(:regopt, "i"))
        "#,
    );
}

#[test]
fn test_interpolation_errors() {
    let mut parser = Parser::new(b"\"a#{1\"");
    assert!(parser.parse_string1().is_err());
    let mut parser = Parser::new(b"\"a#{1");
    assert!(parser.parse_string1().is_err());
}
