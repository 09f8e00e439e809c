use lib_ruby_parser::parser::combinators::{at_most_one_is_true, ExactToken, Step, TokenRule};
use lib_ruby_parser::parser::{Captured, CapturedItem, ParseError, ParseResult};
use lib_ruby_parser::{Loc, Parser, Token, TokenKind};

fn token(kind: TokenKind, start: usize, end: usize) -> Token {
    Token { kind, loc: Loc { start, end }, value: None }
}

fn captured(tokens: Vec<Token>) -> Captured {
    Captured { items: tokens.into_iter().map(CapturedItem::Token).collect() }
}

#[test]
fn test_all_of() {
    fn parse(input: &[u8]) -> ParseResult<(Token, Token)> {
        let mut parser = Parser::new(input);
        let v = parser.all_of(
            "foo",
            &[
                Step::Required(TokenRule::Try(TokenKind::tLBRACK)),
                Step::Required(TokenRule::Try(TokenKind::tRBRACK)),
            ],
        )?;
        Ok((v[0].unwrap(), v[1].unwrap()))
    }

    assert_eq!(
        parse(b"[ ]"),
        Ok((token(TokenKind::tLBRACK, 0, 1), token(TokenKind::tRBRACK, 2, 3)))
    )
}

fn parse_at_least_once(input: &[u8]) -> (Parser, ParseResult<Vec<Token>>) {
    let mut parser = Parser::new(input);
    let ints = parser.at_least_once("ints", TokenRule::Try(TokenKind::tINTEGER));
    (parser, ints)
}

#[test]
fn at_least_once_test_ok() {
    let (_, result) = parse_at_least_once(b"1 2 3");
    assert_eq!(
        result,
        Ok(vec![
            token(TokenKind::tINTEGER, 0, 1),
            token(TokenKind::tINTEGER, 2, 3),
            token(TokenKind::tINTEGER, 4, 5),
        ])
    );
}

#[test]
fn at_least_once_test_nothing() {
    let (_, result) = parse_at_least_once(b"");
    assert_eq!(
        result,
        Err(ParseError::TokenError {
            lookahead: true,
            expected: TokenKind::tINTEGER,
            got: TokenKind::tEOF,
            loc: Loc { start: 0, end: 0 }
        })
    )
}

#[test]
fn at_least_once_test_stop_other_item() {
    let (parser, result) = parse_at_least_once(b"1 2 foo");
    assert_eq!(
        result,
        Ok(vec![token(TokenKind::tINTEGER, 0, 1), token(TokenKind::tINTEGER, 2, 3)])
    );
    assert_eq!(parser.current_token(), token(TokenKind::tIDENTIFIER, 4, 7))
}

fn parse_maybe(input: &[u8]) -> ParseResult<(Option<Token>, Token)> {
    let mut parser = Parser::new(input);
    let v = parser.all_of(
        "[int] float",
        &[
            Step::Optional(TokenRule::Try(TokenKind::tINTEGER)),
            Step::Required(TokenRule::Try(TokenKind::tFLOAT)),
        ],
    )?;
    Ok((v[0], v[1].unwrap()))
}

#[test]
fn maybe_test_ok() {
    assert_eq!(
        parse_maybe(b"42 42.5"),
        Ok((Some(token(TokenKind::tINTEGER, 0, 2)), token(TokenKind::tFLOAT, 3, 7)))
    );
    assert_eq!(parse_maybe(b"42.5"), Ok((None, token(TokenKind::tFLOAT, 0, 4))));
}

#[test]
fn maybe_test_err() {
    assert_eq!(
        parse_maybe(b"foo"),
        Err(ParseError::seq_error(
            "[int] float",
            captured(vec![]),
            ParseError::TokenError {
                lookahead: true,
                expected: TokenKind::tFLOAT,
                got: TokenKind::tIDENTIFIER,
                loc: Loc { start: 0, end: 3 }
            }
        ))
    );

    assert_eq!(
        parse_maybe(b"42 foo"),
        Err(ParseError::seq_error(
            "[int] float",
            captured(vec![token(TokenKind::tINTEGER, 0, 2)]),
            ParseError::TokenError {
                lookahead: true,
                expected: TokenKind::tFLOAT,
                got: TokenKind::tIDENTIFIER,
                loc: Loc { start: 3, end: 6 }
            }
        ))
    )
}

fn parse_one_of(input: &[u8]) -> ParseResult<Token> {
    let mut parser = Parser::new(input);
    parser.one_of(
        "one_of_parser",
        &[TokenRule::Try(TokenKind::tINTEGER), TokenRule::Expect(TokenKind::tIVAR)],
    )
}

#[test]
fn test_one_of() {
    assert_eq!(parse_one_of(b"42"), Ok(token(TokenKind::tINTEGER, 0, 2)));
    assert_eq!(parse_one_of(b"@foo"), Ok(token(TokenKind::tIVAR, 0, 4)));
}

#[test]
fn one_of_test_err() {
    assert_eq!(
        parse_one_of(b"foo"),
        Err(ParseError::OneOfError {
            name: "one_of_parser",
            variants: vec![
                ParseError::TokenError {
                    lookahead: true,
                    expected: TokenKind::tINTEGER,
                    got: TokenKind::tIDENTIFIER,
                    loc: Loc { start: 0, end: 3 }
                },
                ParseError::TokenError {
                    lookahead: false,
                    expected: TokenKind::tIVAR,
                    got: TokenKind::tIDENTIFIER,
                    loc: Loc { start: 0, end: 3 }
                },
            ]
        })
    )
}

fn parse_repeat2(input: &[u8]) -> ParseResult<Vec<Token>> {
    let mut parser = Parser::new(input);
    let (_commas, ints) = parser.repeat2(
        "[tCOMMA int]*",
        TokenRule::Try(TokenKind::tCOMMA),
        TokenRule::Expect(TokenKind::tINTEGER),
    )?;
    Ok(ints)
}

#[test]
fn repeat2_test_ok() {
    assert_eq!(
        parse_repeat2(b", 1, 2, 3"),
        Ok(vec![
            token(TokenKind::tINTEGER, 2, 3),
            token(TokenKind::tINTEGER, 5, 6),
            token(TokenKind::tINTEGER, 8, 9),
        ])
    );
    assert_eq!(parse_repeat2(b""), Ok(vec![]))
}

#[test]
fn repeat2_test_err() {
    assert_eq!(
        parse_repeat2(b", 1, 2, foo"),
        Err(ParseError::seq_error(
            "[tCOMMA int]*",
            captured(vec![
                token(TokenKind::tCOMMA, 0, 1),
                token(TokenKind::tCOMMA, 3, 4),
                token(TokenKind::tCOMMA, 6, 7),
                token(TokenKind::tINTEGER, 2, 3),
                token(TokenKind::tINTEGER, 5, 6),
            ]),
            ParseError::TokenError {
                lookahead: false,
                expected: TokenKind::tINTEGER,
                got: TokenKind::tIDENTIFIER,
                loc: Loc { start: 8, end: 11 }
            }
        ))
    )
}

fn parse_separated(input: &[u8]) -> (Parser, ParseResult<Vec<Token>>) {
    let mut parser = Parser::new(input);
    let ints = parser
        .separated_by(
            "ints separated by comma",
            TokenRule::Try(TokenKind::tINTEGER),
            TokenRule::Try(TokenKind::tCOMMA),
        )
        .map(|(items, _separators)| items);
    (parser, ints)
}

#[test]
fn separated_by_test_ok() {
    let (_, result) = parse_separated(b"1, 2, 3");
    assert_eq!(
        result,
        Ok(vec![
            token(TokenKind::tINTEGER, 0, 1),
            token(TokenKind::tINTEGER, 3, 4),
            token(TokenKind::tINTEGER, 6, 7),
        ])
    );
}

#[test]
fn separated_by_test_nothing() {
    let (_, result) = parse_separated(b"");
    assert_eq!(
        result,
        Err(ParseError::TokenError {
            lookahead: true,
            expected: TokenKind::tINTEGER,
            got: TokenKind::tEOF,
            loc: Loc { start: 0, end: 0 }
        })
    )
}

#[test]
fn separated_by_test_stop_other_item() {
    let (parser, result) = parse_separated(b"1, 2, foo");
    assert_eq!(
        result,
        Ok(vec![token(TokenKind::tINTEGER, 0, 1), token(TokenKind::tINTEGER, 3, 4)])
    );
    assert_eq!(parser.current_token(), token(TokenKind::tCOMMA, 4, 5))
}

#[test]
fn test_stop_no_sep() {
    let (parser, result) = parse_separated(b"1, 2 + foo");
    assert_eq!(
        result,
        Ok(vec![token(TokenKind::tINTEGER, 0, 1), token(TokenKind::tINTEGER, 3, 4)])
    );
    assert_eq!(parser.current_token(), token(TokenKind::tPLUS, 5, 6))
}

#[test]
fn test_exact_token() {
    let int_token = ExactToken { kind: TokenKind::tINTEGER };
    let mut parser = Parser::new(b"42");
    assert!(int_token.starts_now(&parser));
    assert_eq!(int_token.parse(&mut parser), Ok(token(TokenKind::tINTEGER, 0, 2)));
}

#[test]
fn strip_lookaheads_keeps_real_errors() {
    let lookahead = ParseError::TokenError {
        lookahead: true,
        expected: TokenKind::tINTEGER,
        got: TokenKind::tEOF,
        loc: Loc { start: 0, end: 0 },
    };
    assert_eq!(lookahead.strip_lookaheads(), None);
    let real = ParseError::TokenError {
        lookahead: false,
        expected: TokenKind::tINTEGER,
        got: TokenKind::tEOF,
        loc: Loc { start: 0, end: 0 },
    };
    assert!(real.strip_lookaheads().is_some());
}

#[test]
fn maybe_reads_or_skips() {
    let mut parser = Parser::new(b"42 foo");
    assert_eq!(
        parser.maybe(TokenRule::Try(TokenKind::tINTEGER)),
        Ok(Some(token(TokenKind::tINTEGER, 0, 2)))
    );
    assert_eq!(parser.maybe(TokenRule::Try(TokenKind::tINTEGER)), Ok(None));
    assert!(parser.maybe(TokenRule::Expect(TokenKind::tINTEGER)).is_err());
}

#[test]
fn at_most_one() {
    assert!(!at_most_one_is_true(&[false, false]));
    assert!(at_most_one_is_true(&[false, true, false]));
}

#[test]
fn expect_token_passes_a_token_it_did_not_expect() {
    let mut parser = Parser::new(b"foo 1");
    assert_eq!(
        parser.expect_token(TokenKind::tIVAR),
        Err(ParseError::TokenError {
            lookahead: false,
            expected: TokenKind::tIVAR,
            got: TokenKind::tIDENTIFIER,
            loc: Loc { start: 0, end: 3 },
        })
    );
    assert_eq!(parser.current_token().kind, TokenKind::tINTEGER);
    assert_eq!(parser.expect_token(TokenKind::tINTEGER), Ok(token(TokenKind::tINTEGER, 4, 5)));
}

#[test]
fn try_token_keeps_the_parser_where_it_was() {
    let mut parser = Parser::new(b"foo");
    assert!(parser.try_token(TokenKind::tIVAR).is_err());
    assert_eq!(parser.current_token().kind, TokenKind::tIDENTIFIER);
}

#[test]
fn one_of_goes_back_after_failing() {
    let mut parser = Parser::new(b"foo");
    let r = parser.one_of("one_of_parser", &[TokenRule::Try(TokenKind::tINTEGER), TokenRule::Expect(TokenKind::tIVAR)]);
    assert!(r.is_err());
    assert_eq!(parser.current_token().kind, TokenKind::tIDENTIFIER);
}

#[test]
fn maybe_expect_passes_the_wrong_token() {
    let mut parser = Parser::new(b"foo 1");
    assert!(parser.maybe(TokenRule::Expect(TokenKind::tIVAR)).is_err());
    assert_eq!(parser.current_token().kind, TokenKind::tINTEGER);
}

#[test]
fn separated_by_stops_past_a_wrong_expected_separator() {
    let mut parser = Parser::new(b"1 2");
    let (items, seps) = parser
        .separated_by("ints", TokenRule::Try(TokenKind::tINTEGER), TokenRule::Expect(TokenKind::tCOMMA))
        .unwrap();
    assert_eq!(items, vec![token(TokenKind::tINTEGER, 0, 1)]);
    assert!(seps.is_empty());
    assert_eq!(parser.current_token().kind, TokenKind::tEOF);
}

#[test]
fn binary_or_postfix_operator() {
    let mut parser = Parser::new(b"1 + 2");
    assert!(parser.expect_token(TokenKind::tINTEGER).is_ok());
    assert_eq!(parser.parse_binary_or_postfix_operator(), Ok(token(TokenKind::tPLUS, 2, 3)));
    assert_eq!(parser.current_token().kind, TokenKind::tINTEGER);
    let mut parser = Parser::new(b"1..");
    assert!(parser.expect_token(TokenKind::tINTEGER).is_ok());
    assert_eq!(parser.parse_binary_or_postfix_operator().map(|t| t.kind), Ok(TokenKind::tDOT2));
    let mut parser = Parser::new(b"foo");
    match parser.parse_binary_or_postfix_operator() {
        Err(ParseError::OneOfError { name, variants }) => {
            assert_eq!(name, "infix/binary operator");
            assert_eq!(variants.len(), 26);
            assert_eq!(
                variants[0],
                ParseError::TokenError {
                    lookahead: false,
                    expected: TokenKind::tDOT2,
                    got: TokenKind::tIDENTIFIER,
                    loc: Loc { start: 0, end: 3 },
                }
            );
            assert_eq!(
                variants[25],
                ParseError::TokenError {
                    lookahead: false,
                    expected: TokenKind::tLEQ,
                    got: TokenKind::tIDENTIFIER,
                    loc: Loc { start: 0, end: 3 },
                }
            );
        },
        other => panic!("unexpected {:?}", other),
    }
    assert_eq!(parser.current_token().kind, TokenKind::tIDENTIFIER);
}
