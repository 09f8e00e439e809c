use vstd::prelude::*;
use crate::loc::Loc;
use crate::nodes::{concat, mk_item, mk_or_nil, mk_wrap, Item, Node, NodeKind};
use crate::parser::grammar::{
    sp_mrhs_item, sp_mrhs_list, sp_splat, sp_arg, sp_body_tail, sp_bodystmt, sp_compstmt, sp_ensure_part, sp_exc_list, sp_exe, sp_expr, sp_program, sp_rescue1, sp_rescue_part, sp_rescue_rest, sp_rescues, sp_stmt, sp_stmts, stmts_value,
};
use crate::parser::shared::{concat3, is_term_kind, starts_stmt_kind};
use crate::parser::{errp, kind_at, okp, tok, ParseResult, Parser};
use crate::token::{Token, TokenKind};

verus! {

/// The tree of a list of statements: see `stmts_value`.
fn finish_stmts(acc: Node, n: u8, last: Loc, raw: bool) -> (r: Node)
    ensures
        r@ == stmts_value(acc@, n as nat, last, raw),
{
    if raw || n == 1 {
        acc
    } else if n == 0 {
        Node::empty()
    } else {
        let l = acc.loc().join(&last);
        mk_wrap(NodeKind::Begin, l, acc)
    }
}

impl Parser {
    /// Statements separated by `;` or newlines, after the `n` statements of `acc` (the
    /// last at `last`); with `raw` the list as it is, otherwise grouped as a body.
    pub fn parse_stmts(&mut self, acc: Node, n: u8, last: Loc, raw: bool) -> (r: ParseResult<Node>)
        requires
            old(self).wf(),
            n <= 2,
        ensures
            final(self).ran(*old(self), r, sp_stmts(old(self).tokens@, old(self).pos as int, acc@, n as nat, last, raw)),
        decreases old(self).rest(), 85nat,
    {
        proof {
            reveal(sp_stmts);
            reveal(sp_stmt);
        }
        let p = self.pos;
        self.skip_terms();
        if starts_stmt_kind(self.tokens[self.pos].kind) {
            let s = match self.parse_stmt() {
                Ok(n) => n,
                Err(e) => return Err(e),
            };
            let n2: u8 = if n < 2 {
                n + 1
            } else {
                2
            };
            let l = s.loc();
            let acc2 = concat(acc, s);
            if is_term_kind(self.tokens[self.pos].kind) && p < self.pos {
                self.parse_stmts(acc2, n2, l, raw)
            } else {
                Ok(finish_stmts(acc2, n2, l, raw))
            }
        } else {
            Ok(finish_stmts(acc, n, last, raw))
        }
    }

    /// A list of statements: none (an empty tree), one, or several grouped in a `begin`.
    pub fn parse_compstmt(&mut self) -> (r: ParseResult<Node>)
        requires
            old(self).wf(),
        ensures
            final(self).ran(*old(self), r, sp_compstmt(old(self).tokens@, old(self).pos as int)),
        decreases old(self).rest(), 86nat,
    {
        proof {
            reveal(sp_compstmt);
            reveal(sp_stmts);
        }
        self.parse_stmts(Node::empty(), 0, Loc { start: 0, end: 0 }, false)
    }

    /// One statement.
    pub fn parse_stmt(&mut self) -> (r: ParseResult<Node>)
        requires
            old(self).wf(),
        ensures
            final(self).ran(*old(self), r, sp_stmt(old(self).tokens@, old(self).pos as int)),
            final(self).read_some(*old(self), r),
        decreases old(self).rest(), 84nat,
    {
        proof {
            reveal(sp_stmt);
            reveal(sp_exe);
            reveal(sp_expr);
        }
        let k = self.tokens[self.pos].kind;
        if k == TokenKind::kALIAS {
            self.parse_alias()
        } else if k == TokenKind::klBEGIN {
            self.parse_exe(k, NodeKind::Preexe)
        } else if k == TokenKind::klEND {
            self.parse_exe(k, NodeKind::Postexe)
        } else {
            self.parse_expr()
        }
    }

    fn parse_exe(&mut self, k: TokenKind, nk: NodeKind) -> (r: ParseResult<Node>)
        requires
            old(self).wf(),
        ensures
            final(self).ran(*old(self), r, sp_exe(old(self).tokens@, old(self).pos as int, k, nk)),
            k != TokenKind::tEOF ==> final(self).read_some(*old(self), r),
        decreases old(self).rest(), 50nat,
    {
        proof {
            reveal(sp_exe);
            reveal(sp_compstmt);
        }
        if !self.at(k) {
            return Err(self.error_here(k, true));
        }
        let p = self.pos;
        self.skip_token();
        if !self.at(TokenKind::tLCURLY) {
            return Err(self.error_here(TokenKind::tLCURLY, false));
        }
        self.skip_token();
        let b = match self.parse_compstmt() {
            Ok(n) => n,
            Err(e) => return Err(e),
        };
        if !self.at(TokenKind::tRCURLY) {
            return Err(self.error_here(TokenKind::tRCURLY, false));
        }
        self.skip_token();
        Ok(mk_wrap(nk, self.span_from(p), b))
    }

    /// `BEGIN { ... }`.
    pub fn parse_preexe(&mut self) -> (r: ParseResult<Node>)
        requires
            old(self).wf(),
        ensures
            final(self).ran(*old(self), r, sp_exe(old(self).tokens@, old(self).pos as int, TokenKind::klBEGIN, NodeKind::Preexe)),
            final(self).read_some(*old(self), r),
    {
        proof {
            reveal(sp_exe);
            reveal(sp_compstmt);
        }
        self.parse_exe(TokenKind::klBEGIN, NodeKind::Preexe)
    }

    /// `END { ... }`.
    pub fn parse_postexe(&mut self) -> (r: ParseResult<Node>)
        requires
            old(self).wf(),
        ensures
            final(self).ran(*old(self), r, sp_exe(old(self).tokens@, old(self).pos as int, TokenKind::klEND, NodeKind::Postexe)),
            final(self).read_some(*old(self), r),
    {
        proof {
            reveal(sp_exe);
            reveal(sp_compstmt);
        }
        self.parse_exe(TokenKind::klEND, NodeKind::Postexe)
    }

    /// The body of a class, module or method: statements, `rescue` clauses, `else` and
    /// `ensure`.
    pub fn parse_bodystmt(&mut self) -> (r: ParseResult<Node>)
        requires
            old(self).wf(),
        ensures
            final(self).ran(*old(self), r, sp_bodystmt(old(self).tokens@, old(self).pos as int)),
        decreases old(self).rest(), 90nat,
    {
        proof {
            reveal(sp_bodystmt);
            reveal(sp_body_tail);
            reveal(sp_compstmt);
            reveal(sp_rescues);
        }
        let p = self.pos;
        let b = match self.parse_compstmt() {
            Ok(n) => n,
            Err(e) => return Err(e),
        };
        let rs = match self.parse_rescues(Node::empty()) {
            Ok(n) => n,
            Err(e) => return Err(e),
        };
        self.parse_body_tail(b, rs, p)
    }

    fn parse_body_tail(&mut self, b: Node, rs: Node, s: usize) -> (r: ParseResult<Node>)
        requires
            old(self).wf(),
            s <= old(self).pos,
        ensures
            final(self).ran(*old(self), r, sp_body_tail(old(self).tokens@, old(self).pos as int, b@, rs@, s as int)),
        decreases old(self).rest(), 88nat,
    {
        proof {
            reveal(sp_body_tail);
            reveal(sp_ensure_part);
            reveal(sp_rescue_part);
        }
        let inner = match self.parse_rescue_part(b, rs, s) {
            Ok(n) => n,
            Err(e) => return Err(e),
        };
        self.parse_ensure_part(inner, s)
    }

    fn parse_rescue_part(&mut self, b: Node, rs: Node, s: usize) -> (r: ParseResult<Node>)
        requires
            old(self).wf(),
            s <= old(self).pos,
        ensures
            final(self).ran(*old(self), r, sp_rescue_part(old(self).tokens@, old(self).pos as int, b@, rs@, s as int)),
        decreases old(self).rest(), 87nat,
    {
        proof {
            reveal(sp_rescue_part);
            reveal(sp_compstmt);
        }
        if rs.items.len() > 0 {
            if self.at(TokenKind::kELSE) {
                self.skip_token();
                let e = match self.parse_compstmt() {
                    Ok(n) => n,
                    Err(e) => return Err(e),
                };
                Ok(mk_wrap(NodeKind::Rescue, self.span_from(s), concat3(mk_or_nil(b), rs, mk_or_nil(e))))
            } else {
                Ok(mk_wrap(NodeKind::Rescue, self.span_from(s), concat3(mk_or_nil(b), rs, mk_item(Item::Nil))))
            }
        } else {
            Ok(b)
        }
    }

    fn parse_ensure_part(&mut self, inner: Node, s: usize) -> (r: ParseResult<Node>)
        requires
            old(self).wf(),
            s <= old(self).pos,
        ensures
            final(self).ran(*old(self), r, sp_ensure_part(old(self).tokens@, old(self).pos as int, inner@, s as int)),
        decreases old(self).rest(), 87nat,
    {
        proof {
            reveal(sp_ensure_part);
            reveal(sp_compstmt);
        }
        if self.at(TokenKind::kENSURE) {
            self.skip_token();
            let en = match self.parse_compstmt() {
                Ok(n) => n,
                Err(e) => return Err(e),
            };
            Ok(mk_wrap(NodeKind::Ensure, self.span_from(s), concat(mk_or_nil(inner), mk_or_nil(en))))
        } else {
            Ok(inner)
        }
    }

    /// `rescue` clauses, added to `acc`.
    fn parse_rescues(&mut self, acc: Node) -> (r: ParseResult<Node>)
        requires
            old(self).wf(),
        ensures
            final(self).ran(*old(self), r, sp_rescues(old(self).tokens@, old(self).pos as int, acc@)),
        decreases old(self).rest(), 89nat,
    {
        proof {
            reveal(sp_rescues);
            reveal(sp_rescue1);
        }
        if self.at(TokenKind::kRESCUE) {
            let p = self.pos;
            let r = match self.parse_opt_rescue1() {
                Ok(n) => n,
                Err(e) => return Err(e),
            };
            if p < self.pos {
                self.parse_rescues(concat(acc, r))
            } else {
                Err(self.error_here(TokenKind::tEOF, false))
            }
        } else {
            Ok(acc)
        }
    }

    /// One `rescue` clause: `rescue Foo, Bar => e then ...`.
    pub fn parse_opt_rescue1(&mut self) -> (r: ParseResult<Node>)
        requires
            old(self).wf(),
        ensures
            final(self).ran(*old(self), r, sp_rescue1(old(self).tokens@, old(self).pos as int)),
            final(self).read_some(*old(self), r),
        decreases old(self).rest(), 83nat,
    {
        proof {
            reveal(sp_rescue1);
            reveal(sp_exc_list);
            reveal(sp_rescue_rest);
        }
        if !self.at(TokenKind::kRESCUE) {
            return Err(self.error_here(TokenKind::kRESCUE, true));
        }
        let p = self.pos;
        self.skip_token();
        let ex = match self.parse_exc_list() {
            Ok(n) => n,
            Err(e) => return Err(e),
        };
        if self.at(TokenKind::tASSOC) {
            self.skip_token();
            let v = match self.parse_lhs() {
                Ok(n) => n,
                Err(e) => return Err(e),
            };
            if p < self.pos {
                self.parse_rescue_rest(ex, v, p)
            } else {
                Err(self.error_here(TokenKind::tEOF, false))
            }
        } else if p < self.pos {
            self.parse_rescue_rest(ex, Node::empty(), p)
        } else {
            Err(self.error_here(TokenKind::tEOF, false))
        }
    }

    fn parse_rescue_rest(&mut self, ex: Node, v: Node, s: usize) -> (r: ParseResult<Node>)
        requires
            old(self).wf(),
            s <= old(self).pos,
        ensures
            final(self).ran(*old(self), r, sp_rescue_rest(old(self).tokens@, old(self).pos as int, ex@, v@, s as int)),
        decreases old(self).rest(), 87nat,
    {
        proof {
            reveal(sp_rescue_rest);
            reveal(sp_compstmt);
        }
        match self.parse_then() {
            Ok(_) => {},
            Err(_) => {},
        }
        let b = match self.parse_compstmt() {
            Ok(n) => n,
            Err(e) => return Err(e),
        };
        Ok(mk_wrap(NodeKind::RescueBody, self.span_from(s), concat3(mk_or_nil(ex), mk_or_nil(v), mk_or_nil(b))))
    }

    /// The exception classes of a `rescue` clause, grouped in an `array`.
    fn parse_exc_list(&mut self) -> (r: ParseResult<Node>)
        requires
            old(self).wf(),
        ensures
            final(self).ran(*old(self), r, sp_exc_list(old(self).tokens@, old(self).pos as int)),
        decreases old(self).rest(), 80nat,
    {
        proof {
            reveal(sp_exc_list);
            reveal(sp_mrhs_list);
        }
        let k = self.tokens[self.pos].kind;
        if k == TokenKind::tSTAR || crate::parser::shared::starts_arg_kind(k) {
            let p = self.pos;
            match self.parse_mrhs_list(Node::empty()) {
                Ok(l) => Ok(mk_wrap(NodeKind::Array, self.span_from(p), l)),
                Err(e) => Err(e),
            }
        } else {
            Ok(Node::empty())
        }
    }

    /// Values separated by commas, each possibly `*value`, added to `acc`.
    fn parse_mrhs_list(&mut self, acc: Node) -> (r: ParseResult<Node>)
        requires
            old(self).wf(),
        ensures
            final(self).ran(*old(self), r, sp_mrhs_list(old(self).tokens@, old(self).pos as int, acc@)),
            final(self).read_some(*old(self), r),
        decreases old(self).rest(), 72nat,
    {
        proof {
            reveal(sp_mrhs_list);
            reveal(sp_mrhs_item);
        }
        let p = self.pos;
        let x = match self.parse_mrhs_item() {
            Ok(n) => n,
            Err(e) => return Err(e),
        };
        let acc2 = concat(acc, x);
        let k1 = self.peek(1);
        if self.at(TokenKind::tCOMMA) && (k1 == TokenKind::tSTAR || crate::parser::shared::starts_arg_kind(k1)) {
            self.skip_token();
            if p < self.pos {
                self.parse_mrhs_list(acc2)
            } else {
                Err(self.error_here(TokenKind::tEOF, false))
            }
        } else {
            Ok(acc2)
        }
    }

    /// A value or `*value`.
    fn parse_mrhs_item(&mut self) -> (r: ParseResult<Node>)
        requires
            old(self).wf(),
        ensures
            final(self).ran(*old(self), r, sp_mrhs_item(old(self).tokens@, old(self).pos as int)),
            final(self).read_some(*old(self), r),
        decreases old(self).rest(), 71nat,
    {
        proof {
            reveal(sp_mrhs_item);
            reveal(sp_splat);
            reveal(sp_arg);
        }
        if self.at(TokenKind::tSTAR) {
            self.parse_splat(false)
        } else {
            self.parse_arg()
        }
    }

    /// `else` and the statements after it, if `else` comes now.
    pub fn try_opt_else(&mut self) -> (r: ParseResult<Option<(Token, Node)>>)
        requires
            old(self).wf(),
        ensures
            final(self).wf(),
            final(self).same(*old(self)),
            kind_at(old(self).tokens@, old(self).pos as int) == TokenKind::kELSE ==> match r {
                Ok(Some((t, n))) => t == tok(old(self).tokens@, old(self).pos as int) && sp_compstmt(
                    old(self).tokens@,
                    old(self).pos + 1,
                ) == okp(n@, final(self).pos as int),
                Ok(None) => false,
                Err(e) => sp_compstmt(old(self).tokens@, old(self).pos + 1) == errp(e),
            },
            kind_at(old(self).tokens@, old(self).pos as int) != TokenKind::kELSE ==> (r matches Ok(None)
                && final(self).pos == old(self).pos),
    {
        self.try_keyword_body(TokenKind::kELSE)
    }

    /// `ensure` and the statements after it, if `ensure` comes now.
    pub fn try_opt_ensure(&mut self) -> (r: ParseResult<Option<(Token, Node)>>)
        requires
            old(self).wf(),
        ensures
            final(self).wf(),
            final(self).same(*old(self)),
            kind_at(old(self).tokens@, old(self).pos as int) == TokenKind::kENSURE ==> match r {
                Ok(Some((t, n))) => t == tok(old(self).tokens@, old(self).pos as int) && sp_compstmt(
                    old(self).tokens@,
                    old(self).pos + 1,
                ) == okp(n@, final(self).pos as int),
                Ok(None) => false,
                Err(e) => sp_compstmt(old(self).tokens@, old(self).pos + 1) == errp(e),
            },
            kind_at(old(self).tokens@, old(self).pos as int) != TokenKind::kENSURE ==> (r matches Ok(None)
                && final(self).pos == old(self).pos),
    {
        self.try_keyword_body(TokenKind::kENSURE)
    }

    /// The keyword `k` and the statements after it, if `k` comes now.
    fn try_keyword_body(&mut self, k: TokenKind) -> (r: ParseResult<Option<(Token, Node)>>)
        requires
            old(self).wf(),
            k != TokenKind::tEOF,
        ensures
            final(self).wf(),
            final(self).same(*old(self)),
            kind_at(old(self).tokens@, old(self).pos as int) == k ==> match r {
                Ok(Some((t, n))) => t == tok(old(self).tokens@, old(self).pos as int) && sp_compstmt(
                    old(self).tokens@,
                    old(self).pos + 1,
                ) == okp(n@, final(self).pos as int),
                Ok(None) => false,
                Err(e) => sp_compstmt(old(self).tokens@, old(self).pos + 1) == errp(e),
            },
            kind_at(old(self).tokens@, old(self).pos as int) != k ==> (r matches Ok(None)
                && final(self).pos == old(self).pos),
    {
        if self.at(k) {
            let t = self.take_token();
            match self.parse_compstmt() {
                Ok(n) => Ok(Some((t, n))),
                Err(e) => Err(e),
            }
        } else {
            Ok(None)
        }
    }

    /// A whole program: statements up to the end of input, as one tree (empty when there
    /// are no statements).
    pub fn parse_program(&mut self) -> (r: ParseResult<Node>)
        requires
            old(self).wf(),
        ensures
            final(self).ran(*old(self), r, sp_program(old(self).tokens@, old(self).pos as int)),
            r is Ok ==> final(self).tokens@[final(self).pos as int].kind == TokenKind::tEOF,
    {
        let b = match self.parse_compstmt() {
            Ok(n) => n,
            Err(e) => return Err(e),
        };
        if self.at(TokenKind::tEOF) {
            Ok(b)
        } else {
            Err(self.error_here(TokenKind::tEOF, false))
        }
    }
    /// Parses the whole input: the program's tree, or `None` when it has no statements.
    pub fn parse(&mut self) -> (r: Option<Node>)
        requires
            old(self).wf(),
            sp_program(old(self).tokens@, old(self).pos as int) is Ok,
        ensures
            final(self).wf(),
            match sp_program(old(self).tokens@, old(self).pos as int) {
                Ok((b, _)) => if b.len() == 0 {
                    r is None
                } else {
                    r matches Some(n) && n@ == b
                },
                Err(_) => false,
            },
    {
        match self.parse_program() {
            Ok(n) => if n.is_empty() {
                None
            } else {
                Some(n)
            },
            Err(_) => None,
        }
    }
}

/// Asking for debugging output changes nothing that parsing reads: a parser and the
/// same parser with debugging asked for (same tokens and position) parse a program to
/// the same outcome.
pub proof fn law_debug_keeps_program(p: Parser, d: Parser)
    requires
        d.tokens@ == p.tokens@,
        d.pos == p.pos,
    ensures
        sp_program(d.tokens@, d.pos as int) == sp_program(p.tokens@, p.pos as int),
{
}

} // verus!
