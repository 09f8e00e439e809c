//! A parser of arithmetic expressions (`22 + 3 ** 4 * (2 + 2) - 1`) by precedence
//! climbing, over the same tokens as the Ruby parser.
use vstd::prelude::*;
use crate::lexer::rules::spec_tokenize;

use crate::node::{fit, Node};
use crate::nodes::text;
use crate::parser::shared::progress;
use crate::parser::{adv, kind_at, tok};
use crate::token::{Token, TokenKind};

verus! {

/// The value of a decimal digit; other bytes count as zero.
pub open spec fn digit_value(b: u8) -> nat {
    if 48 <= b <= 57 {
        (b - 48) as nat
    } else {
        0
    }
}

/// The number written by decimal digits.
pub open spec fn decimal_value(s: Seq<u8>) -> nat
    decreases s.len(),
{
    if s.len() == 0 {
        0
    } else {
        decimal_value(s.drop_last()) * 10 + digit_value(s.last())
    }
}

/// A number's prefixes are worth no more than the number.
pub proof fn lemma_decimal_prefix(s: Seq<u8>, i: int)
    requires
        0 <= i <= s.len(),
    ensures
        decimal_value(s.subrange(0, i)) <= decimal_value(s),
    decreases s.len(),
{
    if i < s.len() {
        lemma_decimal_prefix(s.drop_last(), i);
        assert(s.drop_last().subrange(0, i) =~= s.subrange(0, i));
    } else {
        assert(s.subrange(0, i) =~= s);
    }
}

/// The precedence of a binary operator of arithmetic.
pub open spec fn calc_prec(k: TokenKind) -> Option<u8> {
    if k == TokenKind::tPLUS || k == TokenKind::tMINUS {
        Some(1)
    } else if k == TokenKind::tSTAR || k == TokenKind::tDIVIDE {
        Some(2)
    } else if k == TokenKind::tPOW {
        Some(3)
    } else {
        None
    }
}

/// The tree of the operator `k` applied to `lhs` and `rhs`: `+`, `*` and `**` build
/// their own nodes, and every other operator (`-` and `/`) builds a subtraction.
pub open spec fn calc_node(k: TokenKind, lhs: Node, rhs: Node) -> Node {
    if k == TokenKind::tPLUS {
        Node::Plus(Box::new(lhs), Box::new(rhs))
    } else if k == TokenKind::tSTAR {
        Node::Mult(Box::new(lhs), Box::new(rhs))
    } else if k == TokenKind::tPOW {
        Node::Pow(Box::new(lhs), Box::new(rhs))
    } else {
        Node::Minus(Box::new(lhs), Box::new(rhs))
    }
}

/// A whole expression from `p`: `None` where the input is not one.
pub open spec fn sp_calc_expression(src: Seq<u8>, t: Seq<Token>, p: int) -> Option<(Node, int)>
    decreases t.len() - p, 4nat,
{
    match sp_calc_primary(src, t, p) {
        Some((lhs, q)) => if progress(t, p, q) {
            sp_calc_operators(src, t, q, lhs, 0)
        } else {
            None
        },
        None => None,
    }
}

/// A number or an expression in parentheses.
pub open spec fn sp_calc_primary(src: Seq<u8>, t: Seq<Token>, p: int) -> Option<(Node, int)>
    decreases t.len() - p, 3nat,
{
    let k = kind_at(t, p);
    if k == TokenKind::tLPAREN {
        match sp_calc_expression(src, t, adv(t, p)) {
            Some((inner, q)) => if kind_at(t, q) == TokenKind::tRPAREN {
                Some((Node::Parenthesized(Box::new(inner)), adv(t, q)))
            } else {
                None
            },
            None => None,
        }
    } else if k == TokenKind::tINTEGER {
        match fit(decimal_value(text(src, tok(t, p).loc))) {
            Some(v) => Some((Node::Number(v), adv(t, p))),
            None => None,
        }
    } else {
        None
    }
}

/// The operators after `lhs` whose precedence is at least `min`, each applied to the
/// operand after it and to what binds more tightly there.
pub open spec fn sp_calc_operators(src: Seq<u8>, t: Seq<Token>, p: int, lhs: Node, min: u8) -> Option<(Node, int)>
    decreases t.len() - p, 1nat,
{
    let k = kind_at(t, p);
    match calc_prec(k) {
        Some(prec) => if prec < min {
            Some((lhs, p))
        } else {
            match sp_calc_primary(src, t, adv(t, p)) {
                Some((rhs, q)) => if progress(t, p, q) {
                    match sp_calc_tighter(src, t, q, rhs, k) {
                        Some((rhs2, q2)) => if progress(t, p, q2) {
                            sp_calc_operators(src, t, q2, calc_node(k, lhs, rhs2), min)
                        } else {
                            None
                        },
                        None => None,
                    }
                } else {
                    None
                },
                None => None,
            }
        },
        None => Some((lhs, p)),
    }
}

/// `rhs` of the operator `op`, extended by the operators after it that bind more tightly
/// than `op` (or as tightly, for a right-associative `**`).
pub open spec fn sp_calc_tighter(src: Seq<u8>, t: Seq<Token>, p: int, rhs: Node, op: TokenKind) -> Option<(Node, int)>
    decreases t.len() - p, 2nat,
{
    let k = kind_at(t, p);
    match (calc_prec(k), calc_prec(op)) {
        (Some(la), Some(opp)) => if la > opp || (k == TokenKind::tPOW && la == opp) {
            let m: u8 = if la > opp {
                (opp + 1) as u8
            } else {
                opp
            };
            match sp_calc_operators(src, t, p, rhs, m) {
                Some((rhs2, q)) => if progress(t, p, q) {
                    sp_calc_tighter(src, t, q, rhs2, op)
                } else {
                    None
                },
                None => None,
            }
        } else {
            Some((rhs, p))
        },
        _ => Some((rhs, p)),
    }
}

fn calc_prec_of(k: TokenKind) -> (r: Option<u8>)
    ensures
        r == calc_prec(k),
{
    if k == TokenKind::tPLUS || k == TokenKind::tMINUS {
        Some(1)
    } else if k == TokenKind::tSTAR || k == TokenKind::tDIVIDE {
        Some(2)
    } else if k == TokenKind::tPOW {
        Some(3)
    } else {
        None
    }
}

fn mk_calc_node(k: TokenKind, lhs: Node, rhs: Node) -> (r: Node)
    ensures
        r == calc_node(k, lhs, rhs),
{
    if k == TokenKind::tPLUS {
        Node::Plus(Box::new(lhs), Box::new(rhs))
    } else if k == TokenKind::tSTAR {
        Node::Mult(Box::new(lhs), Box::new(rhs))
    } else if k == TokenKind::tPOW {
        Node::Pow(Box::new(lhs), Box::new(rhs))
    } else {
        Node::Minus(Box::new(lhs), Box::new(rhs))
    }
}

/// The number written by the digits of `src` from `start` to `end`, or `None` when it
/// does not fit in a `u32`.
fn read_decimal(src: &[u8], start: usize, end: usize) -> (r: Option<u32>)
    requires
        start <= end <= src@.len(),
    ensures
        r == fit(decimal_value(src@.subrange(start as int, end as int))),
{
    let ghost s = src@.subrange(start as int, end as int);
    let mut v: u32 = 0;
    let mut i: usize = start;
    while i < end
        invariant
            start <= i <= end <= src@.len(),
            s == src@.subrange(start as int, end as int),
            v == decimal_value(s.subrange(0, i - start)),
        decreases end - i,
    {
        let b = src[i];
        let ghost k = i - start + 1;
        proof {
            lemma_decimal_prefix(s, k);
            assert(s.subrange(0, k).drop_last() =~= s.subrange(0, k - 1));
            assert(s.subrange(0, k).last() == b);
        }
        let d: u32 = if 48 <= b && b <= 57 {
            (b - 48) as u32
        } else {
            0
        };
        let next = match v.checked_mul(10) {
            Some(x) => x.checked_add(d),
            None => None,
        };
        match next {
            Some(x) => {
                v = x;
            },
            None => {
                return None;
            },
        }
        i = i + 1;
    }
    proof {
        assert(s.subrange(0, end - start) =~= s);
    }
    Some(v)
}

/// A parser of arithmetic expressions.
pub struct Parser {
    /// The source text.
    pub input: Vec<u8>,
    /// All tokens of `input`, ending with `tEOF`.
    pub tokens: Vec<Token>,
    /// Index of the current token.
    pub pos: usize,
    /// Whether debugging output was asked for.
    pub debug: bool,
}

impl Parser {
    /// The parser stands on a token, and the last token ends the input.
    pub open spec fn wf(&self) -> bool {
        &&& self.tokens@.len() > 0
        &&& self.tokens@.last().kind == TokenKind::tEOF
        &&& self.pos < self.tokens@.len()
    }

    /// Reading from `self` succeeds with the tree `n`, leaving the parser at `after`.
    pub open spec fn reads(&self, s: Option<(Node, int)>, n: Node, after: Parser) -> bool {
        &&& after.wf()
        &&& after.input@ == self.input@
        &&& after.tokens@ == self.tokens@
        &&& after.debug == self.debug
        &&& s == Some((n, after.pos as int))
    }

    /// A parser at the start of `input`.
    pub fn new(input: &[u8]) -> (r: Parser)
        ensures
            r.wf(),
            r.input@ == input@,
            r.tokens@ == spec_tokenize(input@),
            r.pos == 0,
            !r.debug,
    {
        let base = crate::parser::Parser::new(input);
        Parser { input: base.input, tokens: base.tokens, pos: 0, debug: false }
    }

    /// The same parser with debugging asked for.
    pub fn debug(self) -> (r: Parser)
        ensures
            r.input@ == self.input@,
            r.tokens@ == self.tokens@,
            r.pos == self.pos,
            r.debug,
    {
        let mut p = self;
        p.debug = true;
        p
    }

    /// Reading from `self` gives `r` as the outcome `s` states: the tree, leaving the
    /// parser at the position after it, or `None` where `s` is `None`.
    pub open spec fn gives(&self, s: Option<(Node, int)>, r: Option<Node>, after: Parser) -> bool {
        &&& after.wf()
        &&& after.input@ == self.input@
        &&& after.tokens@ == self.tokens@
        &&& after.debug == self.debug
        &&& match s {
            Some((n, q)) => r == Some(n) && after.pos == q,
            None => r is None,
        }
    }

    /// The whole expression; the input must be one.
    pub fn parse(&mut self) -> (r: Node)
        requires
            old(self).wf(),
            sp_calc_expression(old(self).input@, old(self).tokens@, old(self).pos as int) is Some,
        ensures
            old(self).reads(sp_calc_expression(old(self).input@, old(self).tokens@, old(self).pos as int), r, *final(self)),
    {
        self.parse_expression()
    }

    /// The whole expression, or `None` where the input is not one (such as `(1 + 2`,
    /// whose `)` is missing, or a number too large for a `u32`). `parse` leaves such
    /// inputs out by its `requires` instead.
    pub fn try_parse(&mut self) -> (r: Option<Node>)
        requires
            old(self).wf(),
        ensures
            old(self).gives(sp_calc_expression(old(self).input@, old(self).tokens@, old(self).pos as int), r, *final(self)),
    {
        self.expression()
    }

    /// An expression: a primary and the operators after it; the input must be one.
    pub fn parse_expression(&mut self) -> (r: Node)
        requires
            old(self).wf(),
            sp_calc_expression(old(self).input@, old(self).tokens@, old(self).pos as int) is Some,
        ensures
            old(self).reads(sp_calc_expression(old(self).input@, old(self).tokens@, old(self).pos as int), r, *final(self)),
    {
        match self.expression() {
            Some(n) => n,
            None => Node::Number(0),
        }
    }

    /// An expression: a primary and the operators after it.
    fn expression(&mut self) -> (r: Option<Node>)
        requires
            old(self).wf(),
        ensures
            old(self).gives(sp_calc_expression(old(self).input@, old(self).tokens@, old(self).pos as int), r, *final(self)),
        decreases old(self).tokens@.len() - old(self).pos, 4nat,
    {
        let p = self.pos;
        let lhs = match self.parse_primary() {
            Some(n) => n,
            None => return None,
        };
        if !(p < self.pos) {
            return None;
        }
        self.parse_expression_1(lhs, 0)
    }

    fn skip(&mut self)
        requires
            old(self).wf(),
        ensures
            final(self).wf(),
            final(self).input@ == old(self).input@,
            final(self).tokens@ == old(self).tokens@,
            final(self).debug == old(self).debug,
            final(self).pos == adv(old(self).tokens@, old(self).pos as int),
    {
        let n = self.tokens.len();
        if self.tokens[self.pos].kind != TokenKind::tEOF {
            proof {
                assert(self.pos + 1 < n);
            }
            self.pos = self.pos + 1;
        }
    }

    /// A number or an expression in parentheses; `None` where there is none, as for
    /// `(1 + 2` with its `)` missing (the public `parse` requires input that is an
    /// expression, so it never meets this case).
    fn parse_primary(&mut self) -> (r: Option<Node>)
        requires
            old(self).wf(),
        ensures
            old(self).gives(sp_calc_primary(old(self).input@, old(self).tokens@, old(self).pos as int), r, *final(self)),
        decreases old(self).tokens@.len() - old(self).pos, 3nat,
    {
        let t = self.tokens[self.pos];
        if t.kind == TokenKind::tLPAREN {
            self.skip();
            let inner = match self.expression() {
                Some(n) => n,
                None => return None,
            };
            if self.tokens[self.pos].kind != TokenKind::tRPAREN {
                return None;
            }
            self.skip();
            Some(Node::Parenthesized(Box::new(inner)))
        } else if t.kind == TokenKind::tINTEGER {
            let l = t.loc;
            let v = if l.start <= l.end && l.end <= self.input.len() {
                read_decimal(self.input.as_slice(), l.start, l.end)
            } else {
                Some(0)
            };
            match v {
                Some(v) => {
                    self.skip();
                    Some(Node::Number(v))
                },
                None => None,
            }
        } else {
            None
        }
    }

    /// The operators after `lhs` whose precedence is at least `min_prec`.
    fn parse_expression_1(&mut self, lhs: Node, min_prec: u8) -> (r: Option<Node>)
        requires
            old(self).wf(),
        ensures
            old(self).gives(sp_calc_operators(old(self).input@, old(self).tokens@, old(self).pos as int, lhs, min_prec), r, *final(self)),
        decreases old(self).tokens@.len() - old(self).pos, 1nat,
    {
        let p = self.pos;
        let k = self.tokens[self.pos].kind;
        match calc_prec_of(k) {
            Some(prec) => {
                if prec < min_prec {
                    return Some(lhs);
                }
                self.skip();
                let rhs = match self.parse_primary() {
                    Some(n) => n,
                    None => return None,
                };
                if !(p < self.pos) {
                    return None;
                }
                let rhs2 = match self.parse_tighter(rhs, k) {
                    Some(n) => n,
                    None => return None,
                };
                if !(p < self.pos) {
                    return None;
                }
                self.parse_expression_1(mk_calc_node(k, lhs, rhs2), min_prec)
            },
            None => Some(lhs),
        }
    }

    /// `rhs` extended by the operators after it that bind more tightly than `op`.
    fn parse_tighter(&mut self, rhs: Node, op: TokenKind) -> (r: Option<Node>)
        requires
            old(self).wf(),
        ensures
            old(self).gives(sp_calc_tighter(old(self).input@, old(self).tokens@, old(self).pos as int, rhs, op), r, *final(self)),
        decreases old(self).tokens@.len() - old(self).pos, 2nat,
    {
        let p = self.pos;
        let k = self.tokens[self.pos].kind;
        match (calc_prec_of(k), calc_prec_of(op)) {
            (Some(la), Some(opp)) => {
                if la > opp || (k == TokenKind::tPOW && la == opp) {
                    let m: u8 = if la > opp {
                        opp + 1
                    } else {
                        opp
                    };
                    let rhs2 = match self.parse_expression_1(rhs, m) {
                        Some(n) => n,
                        None => return None,
                    };
                    if !(p < self.pos) {
                        return None;
                    }
                    self.parse_tighter(rhs2, op)
                } else {
                    Some(rhs)
                }
            },
            _ => Some(rhs),
        }
    }
}

/// Asking for debugging output changes nothing that parsing reads: a parser and the
/// same parser with debugging asked for (same input, tokens and position) have the same
/// outcome, so `parse` and `try_parse` give the same tree, or both find no expression.
pub proof fn law_debug_keeps_parse(p: Parser, d: Parser)
    requires
        d.input@ == p.input@,
        d.tokens@ == p.tokens@,
        d.pos == p.pos,
    ensures
        sp_calc_expression(d.input@, d.tokens@, d.pos as int) == sp_calc_expression(
            p.input@,
            p.tokens@,
            p.pos as int,
        ),
{
}

/// The number the `i`th token stands for in `src`, if it fits in a `u32`.
pub open spec fn number_at(src: Seq<u8>, t: Seq<Token>, i: int) -> Option<u32> {
    fit(decimal_value(text(src, tok(t, i).loc)))
}

/// Whether in `a op1 b op2 c` the second operator takes `b` first: it binds more
/// tightly than the first, or both are `**`, which groups to the right.
pub open spec fn groups_right(op1: TokenKind, op2: TokenKind) -> bool {
    calc_prec(op2).unwrap() > calc_prec(op1).unwrap() || (op1 == TokenKind::tPOW && op2
        == TokenKind::tPOW)
}

/// Precedence and grouping: in `a op1 b op2 c` a tighter second operator, or a second
/// `**` after a `**`, takes `b` and `c` first; otherwise the first operator takes `a`
/// and `b` first, so that `-`, `+`, `*` and `/` group to the left and `**` to the right.
pub proof fn law_calc_grouping(src: Seq<u8>, t: Seq<Token>, a: u32, b: u32, c: u32)
    requires
        t.len() == 6,
        t[0].kind == TokenKind::tINTEGER,
        t[2].kind == TokenKind::tINTEGER,
        t[4].kind == TokenKind::tINTEGER,
        t[5].kind == TokenKind::tEOF,
        calc_prec(t[1].kind) is Some,
        calc_prec(t[3].kind) is Some,
        number_at(src, t, 0) == Some(a),
        number_at(src, t, 2) == Some(b),
        number_at(src, t, 4) == Some(c),
    ensures
        sp_calc_expression(src, t, 0) == Some(
            (
                if groups_right(t[1].kind, t[3].kind) {
                    calc_node(
                        t[1].kind,
                        Node::Number(a),
                        calc_node(t[3].kind, Node::Number(b), Node::Number(c)),
                    )
                } else {
                    calc_node(
                        t[3].kind,
                        calc_node(t[1].kind, Node::Number(a), Node::Number(b)),
                        Node::Number(c),
                    )
                },
                5int,
            ),
        ),
{
    let op1 = t[1].kind;
    let op2 = t[3].kind;
    let na = Node::Number(a);
    let nb = Node::Number(b);
    let nc = Node::Number(c);
    assert(sp_calc_primary(src, t, 0) == Some((na, 1int)));
    assert(sp_calc_primary(src, t, 2) == Some((nb, 3int)));
    assert(sp_calc_primary(src, t, 4) == Some((nc, 5int)));
    let p1 = calc_prec(op1).unwrap();
    let p2 = calc_prec(op2).unwrap();
    if groups_right(op1, op2) {
        let m: u8 = if p2 > p1 {
            (p1 + 1) as u8
        } else {
            p1
        };
        let bc = calc_node(op2, nb, nc);
        assert(sp_calc_tighter(src, t, 5, nc, op2) == Some((nc, 5int)));
        assert(sp_calc_operators(src, t, 5, bc, m) == Some((bc, 5int)));
        assert(sp_calc_operators(src, t, 3, nb, m) == Some((bc, 5int)));
        assert(sp_calc_tighter(src, t, 5, bc, op1) == Some((bc, 5int)));
        assert(sp_calc_tighter(src, t, 3, nb, op1) == Some((bc, 5int)));
        let abc = calc_node(op1, na, bc);
        assert(sp_calc_operators(src, t, 5, abc, 0) == Some((abc, 5int)));
        assert(sp_calc_operators(src, t, 1, na, 0) == Some((abc, 5int)));
    } else {
        let ab = calc_node(op1, na, nb);
        assert(sp_calc_tighter(src, t, 3, nb, op1) == Some((nb, 3int)));
        assert(sp_calc_tighter(src, t, 5, nc, op2) == Some((nc, 5int)));
        let abc = calc_node(op2, ab, nc);
        assert(sp_calc_operators(src, t, 5, abc, 0) == Some((abc, 5int)));
        assert(sp_calc_operators(src, t, 3, ab, 0) == Some((abc, 5int)));
        assert(sp_calc_operators(src, t, 1, na, 0) == Some((abc, 5int)));
    }
}

/// Whether `k` is `*` or `/`.
pub open spec fn is_multiplicative(k: TokenKind) -> bool {
    k == TokenKind::tSTAR || k == TokenKind::tDIVIDE
}

/// Whether `k` is `+` or `-`.
pub open spec fn is_additive(k: TokenKind) -> bool {
    k == TokenKind::tPLUS || k == TokenKind::tMINUS
}

/// The precedence of arithmetic: `**` binds most tightly and groups to the right; `*`
/// and `/` bind more tightly than `+` and `-`; operators of one of these two levels group
/// to the left. So `a / b * c` is `(a / b) * c`, `a + b / c` is `a + (b / c)` and
/// `a - b + c` is `(a - b) + c`.
pub proof fn law_calc_precedence(src: Seq<u8>, t: Seq<Token>, a: u32, b: u32, c: u32)
    requires
        t.len() == 6,
        t[0].kind == TokenKind::tINTEGER,
        t[2].kind == TokenKind::tINTEGER,
        t[4].kind == TokenKind::tINTEGER,
        t[5].kind == TokenKind::tEOF,
        is_additive(t[1].kind) || is_multiplicative(t[1].kind) || t[1].kind == TokenKind::tPOW,
        is_additive(t[3].kind) || is_multiplicative(t[3].kind) || t[3].kind == TokenKind::tPOW,
        number_at(src, t, 0) == Some(a),
        number_at(src, t, 2) == Some(b),
        number_at(src, t, 4) == Some(c),
    ensures
        ({
            let op1 = t[1].kind;
            let op2 = t[3].kind;
            let left = calc_node(op2, calc_node(op1, Node::Number(a), Node::Number(b)), Node::Number(c));
            let right = calc_node(op1, Node::Number(a), calc_node(op2, Node::Number(b), Node::Number(c)));
            &&& (is_additive(op1) && is_additive(op2)) ==> sp_calc_expression(src, t, 0) == Some((left, 5int))
            &&& (is_multiplicative(op1) && is_multiplicative(op2)) ==> sp_calc_expression(src, t, 0) == Some((left, 5int))
            &&& (is_multiplicative(op1) && is_additive(op2)) ==> sp_calc_expression(src, t, 0) == Some((left, 5int))
            &&& (op1 == TokenKind::tPOW && op2 != TokenKind::tPOW) ==> sp_calc_expression(src, t, 0) == Some((left, 5int))
            &&& (is_additive(op1) && !is_additive(op2)) ==> sp_calc_expression(src, t, 0) == Some((right, 5int))
            &&& (is_multiplicative(op1) && op2 == TokenKind::tPOW) ==> sp_calc_expression(src, t, 0) == Some((right, 5int))
            &&& (op1 == TokenKind::tPOW && op2 == TokenKind::tPOW) ==> sp_calc_expression(src, t, 0) == Some((right, 5int))
        }),
{
    law_calc_grouping(src, t, a, b, c);
}

} // verus!
