use vstd::prelude::*;
use crate::parser::literal::numeric_kind_of;
use crate::nodes::{concat, mk_item, mk_leaf, mk_named, mk_wrap, Item, Node, NodeKind};
use crate::parser::grammar::{
    arg_alt_kind, arg_head_errors, sp_arg, sp_arg0, sp_arg_head, sp_arg_lhs, sp_item_list, sp_arg_loop, sp_arg_rhs, sp_arg_primary, sp_call_list, sp_expr, sp_primary,
};
use crate::parser::shared::{
    binary_bp_of, concat3, is_op_asgn_kind, mk_op_assign_node, mk_op_assign_tree, mk_assign_node, mk_binary_node, mk_prefix_node, prefix_bp_of,
    range_kind_of, starts_arg_kind,
};
use crate::parser::combinators::{expect_all, lemma_one_of_expect, lemma_one_of_try, try_all, TokenRule};
use crate::parser::shared::{binary_bp, lemma_operator_kinds, lemma_prefix_kinds, operator_errors, operator_kinds, prefix_bp, prefix_errors, prefix_kinds};
use crate::parser::{adv, err_view, kind_at, tok, ErrView, ParseError, ParseResult, Parser};
use crate::token::{Token, TokenKind};

verus! {

/// The kind of token the `i`th alternative of `arg_head` starts with.
fn arg_alt_kind_of(i: usize) -> (r: TokenKind)
    ensures
        r == arg_alt_kind(i as int),
{
    if i == 5 {
        TokenKind::tCOLON2
    } else if i == 6 {
        TokenKind::tBACK_REF
    } else if i == 7 {
        TokenKind::tUMINUS_NUM
    } else if 8 <= i && i <= 11 {
        TokenKind::kDEF
    } else {
        TokenKind::tIDENTIFIER
    }
}

impl Parser {
    /// Whether the two tokens after the current one touch (as `+` and `=` in `+=`).
    fn adjacent_next(&self) -> (r: bool)
        requires
            self.wf(),
        ensures
            kind_at(self.tokens@, self.pos + 1) != TokenKind::tEOF && kind_at(self.tokens@, self.pos + 2)
                != TokenKind::tEOF ==> r == (tok(self.tokens@, self.pos + 1).loc.end == tok(
                self.tokens@,
                self.pos + 2,
            ).loc.start),
    {
        if self.tokens.len() - self.pos > 2 {
            self.tokens[self.pos + 1].loc.end == self.tokens[self.pos + 2].loc.start
        } else {
            false
        }
    }

    /// An expression: `not expr`, or operands joined by `and` and `or`.
    pub fn parse_expr(&mut self) -> (r: ParseResult<Node>)
        requires
            old(self).wf(),
        ensures
            final(self).ran(*old(self), r, sp_expr(old(self).tokens@, old(self).pos as int)),
            final(self).read_some(*old(self), r),
        decreases old(self).rest(), 83nat,
    {
        proof {
            reveal(sp_expr);
            reveal(sp_arg);
        }
        let p = self.pos;
        if self.at(TokenKind::kNOT) {
            let not_t = self.take_token();
            if self.at(TokenKind::tNL) {
                self.skip_token();
            }
            if !(p < self.pos) {
                return Err(self.error_here(TokenKind::tEOF, false));
            }
            match self.parse_expr() {
                Ok(e) => {
                    let l = not_t.loc.join(&e.loc());
                    Ok(mk_wrap(NodeKind::Send, l, concat(e, mk_item(Item::Bang))))
                },
                Err(e) => Err(e),
            }
        } else {
            let l = match self.parse_arg() {
                Ok(n) => n,
                Err(e) => return Err(e),
            };
            let k = self.tokens[self.pos].kind;
            if k == TokenKind::kAND || k == TokenKind::kOR {
                self.skip_token();
                match self.parse_expr() {
                    Ok(r) => {
                        let loc = l.loc().join(&r.loc());
                        let nk = if k == TokenKind::kAND {
                            NodeKind::And
                        } else {
                            NodeKind::Or
                        };
                        Ok(mk_wrap(nk, loc, concat(l, r)))
                    },
                    Err(e) => Err(e),
                }
            } else {
                Ok(l)
            }
        }
    }

    /// An operand with all the binary and postfix operators after it: `1 + 2 * 3`.
    pub fn parse_arg(&mut self) -> (r: ParseResult<Node>)
        requires
            old(self).wf(),
        ensures
            final(self).ran(*old(self), r, sp_arg(old(self).tokens@, old(self).pos as int)),
            final(self).read_some(*old(self), r),
        decreases old(self).rest(), 70nat,
    {
        proof {
            reveal(sp_arg);
            reveal(sp_arg0);
        }
        self.parse_arg0(0)
    }

    /// An operand with the operators after it that bind at least as strongly as `min`.
    fn parse_arg0(&mut self, min: u8) -> (r: ParseResult<Node>)
        requires
            old(self).wf(),
        ensures
            final(self).ran(*old(self), r, sp_arg0(old(self).tokens@, old(self).pos as int, min)),
            final(self).read_some(*old(self), r),
        decreases old(self).rest(), 69nat,
    {
        proof {
            reveal(sp_arg0);
            reveal(sp_arg_lhs);
            reveal(sp_arg_loop);
        }
        let p = self.pos;
        let l = match self.parse_arg_lhs() {
            Ok(n) => n,
            Err(e) => return Err(e),
        };
        if p < self.pos {
            self.parse_arg_loop(l, min)
        } else {
            Err(self.error_here(TokenKind::tEOF, false))
        }
    }

    /// A prefix operator: the current token when it is one, moving past it; otherwise the
    /// error of the rule `arg prefix operator`, with a lookahead error for each prefix
    /// operator kind tried in turn, and the parser where it was.
    pub fn parse_arg_prefix_operator(&mut self) -> (r: ParseResult<Token>)
        requires
            old(self).wf(),
        ensures
            final(self).wf(),
            final(self).same(*old(self)),
            prefix_bp(kind_at(old(self).tokens@, old(self).pos as int)) is Some ==> r == Ok::<
                Token,
                ParseError,
            >(tok(old(self).tokens@, old(self).pos as int)) && final(self).pos == adv(
                old(self).tokens@,
                old(self).pos as int,
            ),
            prefix_bp(kind_at(old(self).tokens@, old(self).pos as int)) is None ==> final(self).pos
                == old(self).pos && (r matches Err(ParseError::OneOfError { name: n, variants })
                && n == "arg prefix operator" && variants@ == prefix_errors(
                old(self).tokens@,
                old(self).pos as int,
            )),
    {
        let rules: Vec<TokenRule> = vec![
            TokenRule::Try(TokenKind::tBDOT2),
            TokenRule::Try(TokenKind::tBDOT3),
            TokenRule::Try(TokenKind::tUPLUS),
            TokenRule::Try(TokenKind::tUMINUS),
            TokenRule::Try(TokenKind::tBANG),
            TokenRule::Try(TokenKind::tTILDE),
            TokenRule::Try(TokenKind::kDEFINED),
        ];
        proof {
            let t = self.tokens@;
            let p = self.pos as int;
            assert(rules@ =~= try_all(prefix_kinds()));
            lemma_one_of_try(t, p, prefix_kinds(), 0);
            lemma_prefix_kinds(kind_at(t, p));
            assert(prefix_kinds().subrange(0, prefix_kinds().len() as int) =~= prefix_kinds());
            assert(prefix_errors(t, p) =~= prefix_kinds().map_values(
                |k: TokenKind| crate::parser::unexpected(t, p, k, true),
            ));
        }
        self.one_of("arg prefix operator", rules.as_slice())
    }

    /// A prefix operator with its operand, or a head: the first of the two that reads.
    /// Where both fail, the parser goes back to where it started and the error names
    /// `arg lhs` and holds the error of each.
    fn parse_arg_lhs(&mut self) -> (r: ParseResult<Node>)
        requires
            old(self).wf(),
        ensures
            final(self).ran(*old(self), r, sp_arg_lhs(old(self).tokens@, old(self).pos as int)),
            final(self).read_some(*old(self), r),
            r is Err ==> final(self).pos == old(self).pos,
        decreases old(self).rest(), 68nat,
    {
        proof {
            reveal(sp_arg_lhs);
            reveal(sp_arg0);
            reveal(sp_arg_head);
        }
        let checkpoint = self.new_checkpoint();
        let ghost t0 = self.tokens@;
        let ghost p0 = self.pos as int;
        let first: ParseResult<Node> = match self.parse_arg_prefix_operator() {
            Ok(op) => {
                let rbp = match prefix_bp_of(op.kind) {
                    Some(r) => r,
                    None => 0,
                };
                match self.parse_arg0(rbp) {
                    Ok(rhs) => Ok(mk_prefix_node(op, rhs)),
                    Err(e) => Err(e),
                }
            },
            Err(e) => {
                proof {
                    assert(err_view(e) is OneOf);
                    assert(err_view(e)->variants =~= prefix_errors(t0, p0).map_values(
                        |x: ParseError| err_view(x),
                    ));
                }
                Err(e)
            },
        };
        match first {
            Ok(n) => Ok(n),
            Err(e1) => {
                self.restore(checkpoint);
                match self.parse_arg_head() {
                    Ok(n) => Ok(n),
                    Err(e2) => {
                        let mut v: Vec<ParseError> = Vec::new();
                        v.push(e1);
                        v.push(e2);
                        let r = ParseError::OneOfError { name: "arg lhs", variants: v };
                        proof {
                            assert(err_view(r) is OneOf);
                            assert(err_view(r)->variants =~= seq![err_view(v@[0]), err_view(v@[1])]);
                        }
                        Err(r)
                    },
                }
            },
        }
    }

    /// The error of `arg_head` at the current position when the `c`th alternative, the
    /// one the tokens lead to, failed with `e`.
    fn arg_head_error(&self, c: usize, e: ParseError) -> (r: ParseError)
        requires
            self.wf(),
            c < 13,
        ensures
            err_view(r) == (ErrView::OneOf {
                name: "arg head",
                variants: arg_head_errors(self.tokens@, self.pos as int, c as int, err_view(e)),
            }),
            r matches ParseError::OneOfError { name, variants } && name == "arg head" && variants@.len() == 13,
    {
        let t = self.tokens[self.pos];
        let ghost expected = arg_head_errors(self.tokens@, self.pos as int, c as int, err_view(e));
        let mut v: Vec<ParseError> = Vec::new();
        let mut i: usize = 0;
        while i < c
            invariant
                i <= c < 13,
                self.wf(),
                t == self.tokens@[self.pos as int],
                expected == arg_head_errors(self.tokens@, self.pos as int, c as int, err_view(e)),
                v@.len() == i,
                forall|j: int| 0 <= j < i ==> err_view(#[trigger] v@[j]) == expected[j],
            decreases c - i,
        {
            v.push(ParseError::TokenError { lookahead: true, expected: arg_alt_kind_of(i), got: t.kind, loc: t.loc });
            i = i + 1;
        }
        v.push(e);
        i = i + 1;
        while i < 13
            invariant
                c < i <= 13,
                self.wf(),
                t == self.tokens@[self.pos as int],
                expected == arg_head_errors(self.tokens@, self.pos as int, c as int, err_view(e)),
                v@.len() == i,
                forall|j: int| 0 <= j < i ==> err_view(#[trigger] v@[j]) == expected[j],
            decreases 13 - i,
        {
            v.push(ParseError::TokenError { lookahead: true, expected: arg_alt_kind_of(i), got: t.kind, loc: t.loc });
            i = i + 1;
        }
        let r = ParseError::OneOfError { name: "arg head", variants: v };
        proof {
            assert(err_view(r) is OneOf);
            assert(err_view(r)->variants =~= expected);
            assert(err_view(r)->OneOf_name == "arg head");
        }
        r
    }

    /// An assignment `var = value` or `var op= value`, `-2 ** x`, or a primary expression.
    /// Where the alternative the tokens lead to fails, the parser goes back to where it
    /// started and the error names `arg head` and lists one error per alternative.
    #[verifier::rlimit(40)]
    pub fn parse_arg_head(&mut self) -> (r: ParseResult<Node>)
        requires
            old(self).wf(),
        ensures
            final(self).ran(*old(self), r, sp_arg_head(old(self).tokens@, old(self).pos as int)),
            final(self).read_some(*old(self), r),
            r is Err ==> final(self).pos == old(self).pos,
            r matches Err(err) ==> (err matches ParseError::OneOfError { name, variants } && name == "arg head" && variants@.len() == 13),
        decreases old(self).rest(), 67nat,
    {
        proof {
            reveal(sp_arg_head);
            reveal(sp_arg);
            reveal(sp_arg_rhs);
            reveal(sp_arg_primary);
        }
        let checkpoint = self.new_checkpoint();
        let t = self.current_token();
        let k = t.kind;
        let assignable = k == TokenKind::tIDENTIFIER || k == TokenKind::tIVAR || k
            == TokenKind::tGVAR || k == TokenKind::tCVAR || k == TokenKind::tCONSTANT;
        let c: usize = if assignable && self.peek(1) == TokenKind::tEQL {
            0
        } else if assignable && is_op_asgn_kind(self.peek(1)) && self.peek(2) == TokenKind::tEQL
            && self.adjacent_next() {
            1
        } else if k == TokenKind::tUMINUS_NUM && numeric_kind_of(self.peek(1)).is_some()
            && self.peek(2) == TokenKind::tPOW {
            7
        } else if k == TokenKind::tCOLON2 && self.peek(1) == TokenKind::tCONSTANT && self.peek(2)
            == TokenKind::tEQL {
            0
        } else {
            12
        };
        let r = if assignable && self.peek(1) == TokenKind::tEQL {
            self.skip_token();
            self.skip_token();
            match self.parse_arg_rhs() {
                Ok(rhs) => Ok(mk_assign_node(t, rhs)),
                Err(e) => Err(e),
            }
        } else if assignable && is_op_asgn_kind(self.peek(1)) && self.peek(2) == TokenKind::tEQL
            && self.adjacent_next() {
            self.skip_token();
            let op = self.take_token();
            self.skip_token();
            match self.parse_arg_rhs() {
                Ok(rhs) => Ok(mk_op_assign_node(t, op, rhs)),
                Err(e) => Err(e),
            }
        } else if k == TokenKind::tUMINUS_NUM && numeric_kind_of(self.peek(1)).is_some()
            && self.peek(2) == TokenKind::tPOW {
            self.skip_token();
            let num_t = self.take_token();
            let pow_t = self.take_token();
            match self.parse_arg() {
                Ok(rhs) => {
                    let nk = match numeric_kind_of(num_t.kind) {
                        Some(nk) => nk,
                        None => NodeKind::Int,
                    };
                    let rl = rhs.loc();
                    let num = mk_named(nk, num_t.loc, num_t.loc);
                    let pow = mk_wrap(
                        NodeKind::Send,
                        num_t.loc.join(&rl),
                        concat3(num, mk_item(Item::Str(pow_t.loc)), rhs),
                    );
                    Ok(
                        mk_wrap(
                            NodeKind::Send,
                            t.loc.join(&rl),
                            concat(pow, mk_item(Item::Suffixed(t.loc))),
                        ),
                    )
                },
                Err(e) => Err(e),
            }
        } else {
            self.parse_arg_primary()
        };
        match r {
            Ok(n) => Ok(n),
            Err(e) => {
                self.restore(checkpoint);
                Err(self.arg_head_error(c, e))
            },
        }
    }

    /// An assignment to a top-level constant (`::C = 1`); a primary expression, or an
    /// operator assignment to it where it is an element, an attribute or a scoped
    /// constant: `a[i] += 1`, `a.b ||= 1`, `A::B += 1`.
    pub fn parse_arg_primary(&mut self) -> (r: ParseResult<Node>)
        requires
            old(self).wf(),
        ensures
            final(self).ran(*old(self), r, sp_arg_primary(old(self).tokens@, old(self).pos as int)),
            final(self).read_some(*old(self), r),
        decreases old(self).rest(), 66nat,
    {
        proof {
            reveal(sp_arg_primary);
            reveal(sp_primary);
            reveal(sp_arg_rhs);
        }
        let c = self.current_token();
        if c.kind == TokenKind::tCOLON2 && self.peek(1) == TokenKind::tCONSTANT && self.peek(2)
            == TokenKind::tEQL {
            self.skip_token();
            let name = self.take_token();
            self.skip_token();
            return match self.parse_arg_rhs() {
                Ok(rhs) => {
                    let l = c.loc.join(&rhs.loc());
                    let inner = concat3(
                        mk_leaf(NodeKind::Cbase, c.loc),
                        mk_item(Item::Str(name.loc)),
                        rhs,
                    );
                    Ok(mk_wrap(NodeKind::Casgn, l, inner))
                },
                Err(e) => Err(e),
            };
        }
        let p = self.pos;
        let n = match self.parse_primary() {
            Ok(n) => n,
            Err(e) => return Err(e),
        };
        let q = self.pos;
        let kind = n.kind();
        let before2 = if q >= 2 {
            self.tokens[q - 2].kind
        } else {
            TokenKind::tEOF
        };
        let before1 = if q >= 1 {
            self.tokens[q - 1].kind
        } else {
            TokenKind::tEOF
        };
        let assignable = match kind {
            Some(NodeKind::Index) => true,
            Some(NodeKind::Const) => true,
            Some(NodeKind::Send) => before2 == TokenKind::tDOT && (before1 == TokenKind::tIDENTIFIER
                || before1 == TokenKind::tCONSTANT),
            _ => false,
        };
        let op = self.current_token();
        if assignable && is_op_asgn_kind(op.kind) && self.peek(1) == TokenKind::tEQL
            && self.adjacent_here() {
            self.skip_token();
            self.skip_token();
            match self.parse_arg_rhs() {
                Ok(rhs) => Ok(mk_op_assign_tree(n, op, rhs)),
                Err(e) => Err(e),
            }
        } else {
            Ok(n)
        }
    }

    /// Whether the current token and the next touch (as `+` and `=` in `+=`).
    fn adjacent_here(&self) -> (r: bool)
        requires
            self.wf(),
        ensures
            kind_at(self.tokens@, self.pos as int) != TokenKind::tEOF && kind_at(self.tokens@, self.pos + 1)
                != TokenKind::tEOF ==> r == (tok(self.tokens@, self.pos as int).loc.end == tok(
                self.tokens@,
                self.pos + 1,
            ).loc.start),
    {
        if self.tokens.len() - self.pos > 1 {
            self.tokens[self.pos].loc.end == self.tokens[self.pos + 1].loc.start
        } else {
            false
        }
    }

    /// The value of an assignment, possibly with a `rescue` modifier.
    pub fn parse_arg_rhs(&mut self) -> (r: ParseResult<Node>)
        requires
            old(self).wf(),
        ensures
            final(self).ran(*old(self), r, sp_arg_rhs(old(self).tokens@, old(self).pos as int)),
            final(self).read_some(*old(self), r),
        decreases old(self).rest(), 71nat,
    {
        proof {
            reveal(sp_arg_rhs);
            reveal(sp_arg);
        }
        let p = self.pos;
        let l = match self.parse_arg() {
            Ok(n) => n,
            Err(e) => return Err(e),
        };
        if self.at(TokenKind::kRESCUE) {
            let rescue_t = self.take_token();
            if !(p < self.pos) {
                return Err(self.error_here(TokenKind::tEOF, false));
            }
            match self.parse_arg() {
                Ok(r) => {
                    let ll = l.loc();
                    let rl = r.loc();
                    let nils = concat(mk_item(Item::Nil), mk_item(Item::Nil));
                    let body = mk_wrap(NodeKind::RescueBody, rescue_t.loc.join(&rl), concat(nils, r));
                    proof {
                        assert(nils@ =~= seq![Item::Nil, Item::Nil]);
                    }
                    Ok(mk_wrap(NodeKind::Rescue, ll.join(&rl), concat3(l, body, mk_item(Item::Nil))))
                },
                Err(e) => Err(e),
            }
        } else {
            Ok(l)
        }
    }

    /// The operators after the operand `lhs` that bind at least as strongly as `min`.
    /// A binary or postfix operator: the current token when it is one, moving past it;
    /// otherwise the error of the rule `infix/binary operator`, with the error of each
    /// operator kind tried in turn, and the parser where it was.
    pub fn parse_binary_or_postfix_operator(&mut self) -> (r: ParseResult<Token>)
        requires
            old(self).wf(),
        ensures
            final(self).wf(),
            final(self).same(*old(self)),
            binary_bp(kind_at(old(self).tokens@, old(self).pos as int)) is Some ==> r == Ok::<
                Token,
                ParseError,
            >(tok(old(self).tokens@, old(self).pos as int)) && final(self).pos == adv(
                old(self).tokens@,
                old(self).pos as int,
            ),
            binary_bp(kind_at(old(self).tokens@, old(self).pos as int)) is None ==> final(self).pos
                == old(self).pos && (r matches Err(ParseError::OneOfError { name: n, variants })
                && n == "infix/binary operator" && variants@ == operator_errors(
                old(self).tokens@,
                old(self).pos as int,
            )),
    {
        let rules: Vec<TokenRule> = vec![
            TokenRule::Expect(TokenKind::tDOT2),
            TokenRule::Expect(TokenKind::tDOT3),
            TokenRule::Expect(TokenKind::tPLUS),
            TokenRule::Expect(TokenKind::tMINUS),
            TokenRule::Expect(TokenKind::tSTAR),
            TokenRule::Expect(TokenKind::tDIVIDE),
            TokenRule::Expect(TokenKind::tPERCENT),
            TokenRule::Expect(TokenKind::tPOW),
            TokenRule::Expect(TokenKind::tPIPE),
            TokenRule::Expect(TokenKind::tCARET),
            TokenRule::Expect(TokenKind::tAMPER),
            TokenRule::Expect(TokenKind::tCMP),
            TokenRule::Expect(TokenKind::tEQ),
            TokenRule::Expect(TokenKind::tEQQ),
            TokenRule::Expect(TokenKind::tNEQ),
            TokenRule::Expect(TokenKind::tMATCH),
            TokenRule::Expect(TokenKind::tNMATCH),
            TokenRule::Expect(TokenKind::tLSHFT),
            TokenRule::Expect(TokenKind::tRSHFT),
            TokenRule::Expect(TokenKind::tANDOP),
            TokenRule::Expect(TokenKind::tOROP),
            TokenRule::Expect(TokenKind::tEH),
            TokenRule::Expect(TokenKind::tGT),
            TokenRule::Expect(TokenKind::tLT),
            TokenRule::Expect(TokenKind::tGEQ),
            TokenRule::Expect(TokenKind::tLEQ),
        ];
        proof {
            let t = self.tokens@;
            let p = self.pos as int;
            assert(rules@ =~= expect_all(operator_kinds()));
            lemma_one_of_expect(t, p, operator_kinds(), 0);
            lemma_operator_kinds(kind_at(t, p));
            assert(operator_kinds().subrange(0, operator_kinds().len() as int) =~= operator_kinds());
            assert(operator_errors(t, p) =~= operator_kinds().map_values(
                |k: TokenKind| crate::parser::unexpected(t, p, k, false),
            ));
        }
        self.one_of("infix/binary operator", rules.as_slice())
    }

    /// The operators after `lhs` that bind at least as strongly as `min`. An operator's
    /// binding power is checked before it is read, so one that binds less strongly is
    /// left for the caller: `1 * 2 + 3` reads as `(1 * 2) + 3`, the whole input.
    fn parse_arg_loop(&mut self, lhs: Node, min: u8) -> (r: ParseResult<Node>)
        requires
            old(self).wf(),
        ensures
            final(self).ran(*old(self), r, sp_arg_loop(old(self).tokens@, old(self).pos as int, lhs@, min)),
        decreases old(self).rest(), 66nat,
    {
        proof {
            reveal(sp_arg_loop);
            reveal(sp_arg0);
        }
        let p = self.pos;
        let op = self.current_token();
        let k = op.kind;
        match binary_bp_of(k) {
            None => Ok(lhs),
            Some((lbp, rbp)) => {
                if lbp < min {
                    return Ok(lhs);
                }
                let op = match self.parse_binary_or_postfix_operator() {
                    Ok(t) => t,
                    Err(e) => return Err(e),
                };
                if k == TokenKind::tEH {
                    let m = match self.parse_arg0(0) {
                        Ok(n) => n,
                        Err(e) => return Err(e),
                    };
                    if !self.at(TokenKind::tCOLON) {
                        return Err(self.error_here(TokenKind::tCOLON, false));
                    }
                    self.skip_token();
                    if !(p < self.pos) {
                        return Err(self.error_here(TokenKind::tEOF, false));
                    }
                    let rhs = match self.parse_arg0(rbp) {
                        Ok(n) => n,
                        Err(e) => return Err(e),
                    };
                    if !(p < self.pos) {
                        return Err(self.error_here(TokenKind::tEOF, false));
                    }
                    let l = lhs.loc().join(&rhs.loc());
                    self.parse_arg_loop(mk_wrap(NodeKind::If, l, concat3(lhs, m, rhs)), min)
                } else {
                    let rk = range_kind_of(k);
                    if rk.is_some() && !starts_arg_kind(self.tokens[self.pos].kind) {
                        let nk = match rk {
                            Some(nk) => nk,
                            None => NodeKind::Irange,
                        };
                        let l = lhs.loc().join(&op.loc);
                        self.parse_arg_loop(mk_wrap(nk, l, concat(lhs, mk_item(Item::Nil))), min)
                    } else {
                        let rhs = match self.parse_arg0(rbp) {
                            Ok(n) => n,
                            Err(e) => return Err(e),
                        };
                        if !(p < self.pos) {
                            return Err(self.error_here(TokenKind::tEOF, false));
                        }
                        self.parse_arg_loop(mk_binary_node(op, lhs, rhs), min)
                    }
                }
            },
        }
    }

    /// The arguments of a call (possibly none), separated by commas.
    pub fn parse_call_list(&mut self) -> (r: ParseResult<Node>)
        requires
            old(self).wf(),
        ensures
            final(self).ran(*old(self), r, sp_call_list(old(self).tokens@, old(self).pos as int)),
        decreases old(self).rest(), 77nat,
    {
        proof {
            reveal(sp_call_list);
            reveal(sp_item_list);
        }
        if crate::parser::shared::starts_item_kind(self.tokens[self.pos].kind) {
            self.parse_item_list(Node::empty())
        } else {
            Ok(Node::empty())
        }
    }
}

} // verus!
