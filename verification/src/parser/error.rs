use vstd::prelude::*;
use crate::loc::Loc;
use crate::nodes::Node;
use crate::token::{Token, TokenKind};

verus! {

/// Something a rule had already read when a later part of it failed.
#[derive(PartialEq, Eq, Debug)]
pub enum CapturedItem {
    Node(Node),
    Token(Token),
}

/// What a sequence of rules had read before one of them failed.
#[derive(PartialEq, Eq, Debug)]
pub struct Captured {
    pub items: Vec<CapturedItem>,
}

/// Why parsing failed.
#[derive(PartialEq, Eq, Debug)]
pub enum ParseError {
    /// The current token is not the one the rule needs. `lookahead` is set when the rule
    /// failed on its very first token, so that nothing of it was read.
    TokenError { lookahead: bool, expected: TokenKind, got: TokenKind, loc: Loc },
    /// None of the alternatives of a rule matched; one error per alternative.
    OneOfError { name: &'static str, variants: Vec<ParseError> },
    /// A rule made of several steps failed after reading `steps`.
    SeqError { name: &'static str, steps: Captured, error: Box<ParseError> },
}

/// The result of a rule.
pub type ParseResult<T> = Result<T, ParseError>;

impl Captured {
    /// Nothing read.
    pub fn new() -> (r: Captured)
        ensures
            r.items@.len() == 0,
    {
        Captured { items: Vec::new() }
    }

    /// Records a token that was read.
    pub fn push_token(&mut self, t: Token)
        ensures
            final(self).items@ == old(self).items@.push(CapturedItem::Token(t)),
    {
        self.items.push(CapturedItem::Token(t));
    }

    /// Records a tree that was read.
    pub fn push_node(&mut self, n: Node)
        ensures
            final(self).items@ == old(self).items@.push(CapturedItem::Node(n)),
    {
        self.items.push(CapturedItem::Node(n));
    }
}

impl ParseError {
    /// Wraps the error of a step of the rule `name` that had read `steps` before it.
    pub fn seq_error(name: &'static str, steps: Captured, error: ParseError) -> (r: ParseError)
        ensures
            r == (ParseError::SeqError { name, steps, error: Box::new(error) }),
    {
        ParseError::SeqError { name, steps, error: Box::new(error) }
    }
}

} // verus!

verus! {

/// An error as a value of specifications: the lists of an error are sequences.
pub enum ErrView {
    Token { lookahead: bool, expected: TokenKind, got: TokenKind, loc: Loc },
    OneOf { name: &'static str, variants: Seq<ErrView> },
    Steps { name: &'static str, steps: Seq<CapturedItem>, error: Box<ErrView> },
}

/// The specification value of an error.
pub open spec fn err_view(e: ParseError) -> ErrView
    decreases e,
{
    match e {
        ParseError::TokenError { lookahead, expected, got, loc } => ErrView::Token { lookahead, expected, got, loc },
        ParseError::OneOfError { name, variants } => ErrView::OneOf {
            name,
            variants: Seq::new(variants@.len(), |i: int| if 0 <= i < variants@.len() { err_view(variants@[i]) } else { ErrView::OneOf { name, variants: seq![] } }),
        },
        ParseError::SeqError { name, steps, error } => ErrView::Steps {
            name,
            steps: steps.items@,
            error: Box::new(err_view(*error)),
        },
    }
}

} // verus!
