use lib_ruby_parser::lexer::tokenize;
use lib_ruby_parser::TokenKind;

fn kinds(input: &[u8]) -> Vec<TokenKind> {
    tokenize(input).iter().map(|t| t.kind).collect()
}

#[test]
fn tokens_come_in_order_within_the_input() {
    let input: &[u8] = b"x = \"a#{ {b: ?c} }#@d\" + %w[e f] # note\ny";
    let tokens = tokenize(input);
    for t in tokens.iter() {
        assert!(t.loc.start <= t.loc.end && t.loc.end <= input.len());
    }
    for w in tokens.windows(2) {
        assert!(w[0].loc.end <= w[1].loc.start);
    }
    assert_eq!(tokens.last().unwrap().kind, TokenKind::tEOF);
}

#[test]
fn interpolation_tokens() {
    assert_eq!(
        kinds(b"\"a#{b}c\""),
        vec![
            TokenKind::tDSTRING_BEG,
            TokenKind::tSTRING_CONTENT,
            TokenKind::tSTRING_DBEG,
            TokenKind::tIDENTIFIER,
            TokenKind::tSTRING_DEND,
            TokenKind::tSTRING_CONTENT,
            TokenKind::tSTRING_END,
            TokenKind::tEOF,
        ]
    );
    assert_eq!(
        kinds(b"\"#@a\""),
        vec![
            TokenKind::tDSTRING_BEG,
            TokenKind::tSTRING_DVAR,
            TokenKind::tIVAR,
            TokenKind::tSTRING_END,
            TokenKind::tEOF,
        ]
    );
    assert_eq!(
        kinds(b"'#{a}'"),
        vec![TokenKind::tSTRING_BEG, TokenKind::tSTRING_CONTENT, TokenKind::tSTRING_END, TokenKind::tEOF]
    );
}

#[test]
fn braces_inside_interpolation_do_not_end_it() {
    assert_eq!(
        kinds(b"\"#{{}}\""),
        vec![
            TokenKind::tDSTRING_BEG,
            TokenKind::tSTRING_DBEG,
            TokenKind::tLCURLY,
            TokenKind::tRCURLY,
            TokenKind::tSTRING_DEND,
            TokenKind::tSTRING_END,
            TokenKind::tEOF,
        ]
    );
}

#[test]
fn character_literal_or_ternary() {
    assert_eq!(kinds(b"?a"), vec![TokenKind::tCHAR, TokenKind::tEOF]);
    assert_eq!(
        kinds(b"x ?a : b"),
        vec![
            TokenKind::tIDENTIFIER,
            TokenKind::tEH,
            TokenKind::tIDENTIFIER,
            TokenKind::tCOLON,
            TokenKind::tIDENTIFIER,
            TokenKind::tEOF,
        ]
    );
}
