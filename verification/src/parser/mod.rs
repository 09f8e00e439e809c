use vstd::prelude::*;
use crate::lexer::rules::spec_tokenize;
use crate::lexer::tokenize;
use crate::loc::Loc;
use crate::nodes::{Item, Node};
use crate::token::{Token, TokenKind};

pub mod error;
pub mod variables;
pub mod literal;
pub mod shared;
pub mod mlhs;
pub mod grammar;
pub mod expr;
pub mod primary;
pub mod control;
pub mod definition;
pub mod stmt;
pub mod combinators;

pub use error::{err_view, Captured, CapturedItem, ErrView, ParseError, ParseResult};

verus! {

/// A recursive-descent parser over the tokens of one input.
pub struct Parser {
    /// The source text.
    pub input: Vec<u8>,
    /// All tokens of `input`, ending with `tEOF`.
    pub tokens: Vec<Token>,
    /// Index of the current token.
    pub pos: usize,
    /// Whether debugging output was asked for.
    pub debug: bool,
}

/// A saved parser position to come back to.
#[derive(Clone, Copy, PartialEq, Eq, Structural, Debug)]
pub struct Checkpoint {
    pub pos: usize,
}

/// The outcome of a rule, as a specification: the trees read and the next position.
pub type PRes = Result<(Seq<Item>, int), ErrView>;

/// The outcome of reading one token, as a specification.
pub type TRes = Result<(Token, int), ParseError>;

/// The token at `p`; past the end, an end-of-input token.
pub open spec fn tok(t: Seq<Token>, p: int) -> Token {
    if 0 <= p < t.len() {
        t[p]
    } else {
        Token { kind: TokenKind::tEOF, loc: Loc { start: 0, end: 0 }, value: None }
    }
}

pub open spec fn kind_at(t: Seq<Token>, p: int) -> TokenKind {
    tok(t, p).kind
}

/// The position after the token at `p` (the end-of-input token is never passed).
pub open spec fn adv(t: Seq<Token>, p: int) -> int {
    if kind_at(t, p) != TokenKind::tEOF {
        p + 1
    } else {
        p
    }
}

/// The error for a token at `p` that is not the `expected` one.
pub open spec fn unexpected(t: Seq<Token>, p: int, expected: TokenKind, lookahead: bool) -> ParseError {
    ParseError::TokenError { lookahead, expected, got: tok(t, p).kind, loc: tok(t, p).loc }
}

/// Reading a token of kind `k` at `p`; `lookahead` tags the error.
pub open spec fn sp_token(t: Seq<Token>, p: int, k: TokenKind, lookahead: bool) -> TRes {
    if kind_at(t, p) == k {
        okt(tok(t, p), adv(t, p))
    } else {
        errt(unexpected(t, p, k, lookahead))
    }
}

/// A successful outcome.
pub open spec fn okp(items: Seq<Item>, p: int) -> PRes {
    Ok((items, p))
}

/// A failed outcome with the error `e`.
pub open spec fn errp(e: ParseError) -> PRes {
    Err(err_view(e))
}

pub open spec fn okt(t: Token, p: int) -> TRes {
    Ok((t, p))
}

pub open spec fn errt(e: ParseError) -> TRes {
    Err(e)
}

/// `r` is the outcome `s` with the parser left at `pos`.
pub open spec fn node_res(r: ParseResult<Node>, pos: usize, s: PRes) -> bool {
    match r {
        Ok(n) => s == okp(n@, pos as int),
        Err(e) => s == errp(e),
    }
}

pub open spec fn token_res(r: ParseResult<Token>, pos: usize, s: TRes) -> bool {
    match r {
        Ok(x) => s == okt(x, pos as int),
        Err(e) => s == errt(e),
    }
}

impl Parser {
    /// The parser stands on a token, and the last token ends the input.
    pub open spec fn wf(&self) -> bool {
        &&& self.tokens@.len() > 0
        &&& self.tokens@.last().kind == TokenKind::tEOF
        &&& self.pos < self.tokens@.len()
    }

    /// Same input, tokens and settings as `other`.
    pub open spec fn same(&self, other: Parser) -> bool {
        &&& self.input@ == other.input@
        &&& self.tokens@ == other.tokens@
        &&& self.debug == other.debug
    }

    /// Tokens left, for termination.
    pub open spec fn rest(&self) -> int {
        self.tokens@.len() - self.pos
    }

    /// After a rule run from `old`: still well formed, same tokens, the outcome is `s`,
    /// and a success did not move backwards. The rules that are choices going back to
    /// their start on failure (`arg lhs`, `arg head`, `numeric`, and the one-token
    /// choices) say so in their own contracts; for the others, where a failure leaves the
    /// parser is not part of the contract: they choose their alternative by the next
    /// tokens, so no rule reads on after a rule it called has failed. A caller that wants
    /// to come back keeps a checkpoint (`new_checkpoint`, `restore`).
    pub open spec fn ran(&self, old: Parser, r: ParseResult<Node>, s: PRes) -> bool {
        &&& self.wf()
        &&& self.same(old)
        &&& node_res(r, self.pos, s)
        &&& (r is Ok ==> self.pos >= old.pos)
    }

    /// A success read at least one token.
    pub open spec fn read_some(&self, old: Parser, r: ParseResult<Node>) -> bool {
        r is Ok ==> self.pos > old.pos
    }

    /// Like `ran`, for a rule that reads one token.
    pub open spec fn ran_token(&self, old: Parser, r: ParseResult<Token>, s: TRes) -> bool {
        &&& self.wf()
        &&& self.same(old)
        &&& token_res(r, self.pos, s)
        &&& (r is Ok ==> self.pos >= old.pos)
    }

    /// A parser at the start of `input`.
    pub fn new(input: &[u8]) -> (r: Parser)
        ensures
            r.wf(),
            r.input@ == input@,
            r.tokens@ == spec_tokenize(input@),
            r.pos == 0,
            !r.debug,
    {
        let tokens = tokenize(input);
        proof {
            crate::lexer::rules::lemma_tokens_end_with_eof(input@);
        }
        let mut buf: Vec<u8> = Vec::new();
        let mut i: usize = 0;
        while i < input.len()
            invariant
                i <= input.len(),
                buf@ == input@.subrange(0, i as int),
            decreases input.len() - i,
        {
            buf.push(input[i]);
            i = i + 1;
            proof {
                assert(input@.subrange(0, i as int) =~= input@.subrange(0, i - 1) + seq![input@[i - 1]]);
            }
        }
        proof {
            assert(input@.subrange(0, i as int) =~= input@);
        }
        Parser { input: buf, tokens, pos: 0, debug: false }
    }

    /// The same parser with debugging asked for.
    pub fn debug(self) -> (r: Parser)
        ensures
            r.input@ == self.input@,
            r.tokens@ == self.tokens@,
            r.pos == self.pos,
            r.debug,
    {
        let mut p = self;
        p.debug = true;
        p
    }

    /// The source text.
    pub fn buffer(&self) -> (r: &[u8])
        ensures
            r@ == self.input@,
    {
        self.input.as_slice()
    }

    /// The printed form of a tree read by this parser.
    pub fn inspect(&self, node: &Node) -> (r: Vec<u8>)
        ensures
            r@ == crate::nodes::spec_inspect(node@, self.input@),
    {
        node.inspect(self.input.as_slice())
    }

    /// The current token.
    pub fn current_token(&self) -> (r: Token)
        requires
            self.wf(),
        ensures
            r == tok(self.tokens@, self.pos as int),
    {
        self.tokens[self.pos]
    }

    /// Whether the current token has kind `k`.
    pub fn at(&self, k: TokenKind) -> (r: bool)
        requires
            self.wf(),
        ensures
            r == (kind_at(self.tokens@, self.pos as int) == k),
    {
        self.tokens[self.pos].kind == k
    }

    /// The kind of the token `k` places after the current one.
    pub fn peek(&self, k: usize) -> (r: TokenKind)
        requires
            self.wf(),
        ensures
            r == kind_at(self.tokens@, self.pos + k),
    {
        if k < self.tokens.len() - self.pos {
            self.tokens[self.pos + k].kind
        } else {
            TokenKind::tEOF
        }
    }

    /// Moves past the current token (never past the end of input).
    pub fn skip_token(&mut self)
        requires
            old(self).wf(),
        ensures
            final(self).wf(),
            final(self).same(*old(self)),
            final(self).pos == adv(old(self).tokens@, old(self).pos as int),
    {
        let n = self.tokens.len();
        if self.tokens[self.pos].kind != TokenKind::tEOF {
            proof {
                assert(self.pos + 1 < n);
            }
            self.pos = self.pos + 1;
        }
    }

    /// The current token, moving past it.
    pub fn take_token(&mut self) -> (r: Token)
        requires
            old(self).wf(),
        ensures
            final(self).wf(),
            final(self).same(*old(self)),
            r == tok(old(self).tokens@, old(self).pos as int),
            final(self).pos == adv(old(self).tokens@, old(self).pos as int),
    {
        let t = self.tokens[self.pos];
        self.skip_token();
        t
    }

    /// Reads a token of kind `k`; when it is not there, fails without reading anything
    /// (a lookahead error).
    pub fn try_token(&mut self, k: TokenKind) -> (r: ParseResult<Token>)
        requires
            old(self).wf(),
        ensures
            final(self).ran_token(*old(self), r, sp_token(old(self).tokens@, old(self).pos as int, k, true)),
            r is Err ==> final(self).pos == old(self).pos,
    {
        let t = self.tokens[self.pos];
        if t.kind == k {
            self.skip_token();
            Ok(t)
        } else {
            Err(ParseError::TokenError { lookahead: true, expected: k, got: t.kind, loc: t.loc })
        }
    }

    /// Reads a token of kind `k`, which the rule requires at this point. The current
    /// token is passed whether or not it has that kind.
    pub fn expect_token(&mut self, k: TokenKind) -> (r: ParseResult<Token>)
        requires
            old(self).wf(),
        ensures
            final(self).ran_token(*old(self), r, sp_token(old(self).tokens@, old(self).pos as int, k, false)),
            final(self).pos == adv(old(self).tokens@, old(self).pos as int),
    {
        let t = self.tokens[self.pos];
        self.skip_token();
        if t.kind == k {
            Ok(t)
        } else {
            Err(ParseError::TokenError { lookahead: false, expected: k, got: t.kind, loc: t.loc })
        }
    }

    /// The current position, to come back to.
    pub fn new_checkpoint(&self) -> (r: Checkpoint)
        ensures
            r.pos == self.pos,
    {
        Checkpoint { pos: self.pos }
    }

    /// Goes back to a saved position.
    pub fn restore(&mut self, c: Checkpoint)
        requires
            old(self).wf(),
            c.pos < old(self).tokens@.len(),
        ensures
            final(self).wf(),
            final(self).same(*old(self)),
            final(self).pos == c.pos,
    {
        self.pos = c.pos;
    }
}

} // verus!
