use vstd::prelude::*;
use crate::nodes::{mk_leaf, mk_or_nil, mk_wrap, Node, NodeKind};
use crate::parser::grammar::{
    keyword_leaf_kind, sp_item_list, sp_call_list, sp_compstmt, sp_defined, sp_expr, sp_for, sp_if, sp_if_tail, sp_keyword_cmd, sp_opt_else, sp_unless,
};
use crate::parser::shared::concat3;
use crate::parser::{ParseResult, Parser};
use crate::token::TokenKind;

verus! {

fn keyword_leaf_kind_of(k: TokenKind) -> (r: Option<NodeKind>)
    ensures
        r == keyword_leaf_kind(k),
{
    if k == TokenKind::kBREAK {
        Some(NodeKind::Break)
    } else if k == TokenKind::kNEXT {
        Some(NodeKind::Next)
    } else if k == TokenKind::kREDO {
        Some(NodeKind::Redo)
    } else if k == TokenKind::kRETRY {
        Some(NodeKind::Retry)
    } else if k == TokenKind::kRETURN {
        Some(NodeKind::Return)
    } else {
        None
    }
}

impl Parser {
    /// `if cond then ... elsif ... else ... end`.
    pub fn parse_if(&mut self) -> (r: ParseResult<Node>)
        requires
            old(self).wf(),
        ensures
            final(self).ran(*old(self), r, sp_if(old(self).tokens@, old(self).pos as int)),
            final(self).read_some(*old(self), r),
        decreases old(self).rest(), 50nat,
    {
        proof {
            reveal(sp_if);
            reveal(sp_compstmt);
            reveal(sp_expr);
            reveal(sp_if_tail);
        }
        if !self.at(TokenKind::kIF) {
            return Err(self.error_here(TokenKind::kIF, true));
        }
        let p = self.pos;
        self.skip_token();
        let c = match self.parse_expr() {
            Ok(n) => n,
            Err(e) => return Err(e),
        };
        match self.parse_then() {
            Ok(_) => {},
            Err(e) => return Err(e),
        }
        if !(p < self.pos) {
            return Err(self.error_here(TokenKind::tEOF, false));
        }
        let b = match self.parse_compstmt() {
            Ok(n) => n,
            Err(e) => return Err(e),
        };
        if !(p < self.pos) {
            return Err(self.error_here(TokenKind::tEOF, false));
        }
        let e = match self.parse_if_tail() {
            Ok(n) => n,
            Err(e) => return Err(e),
        };
        if !self.at(TokenKind::kEND) {
            return Err(self.error_here(TokenKind::kEND, false));
        }
        self.skip_token();
        Ok(mk_wrap(NodeKind::If, self.span_from(p), concat3(c, mk_or_nil(b), mk_or_nil(e))))
    }

    /// What follows the statements of an `if`: `elsif ...`, `else ...`, or nothing.
    fn parse_if_tail(&mut self) -> (r: ParseResult<Node>)
        requires
            old(self).wf(),
        ensures
            final(self).ran(*old(self), r, sp_if_tail(old(self).tokens@, old(self).pos as int)),
        decreases old(self).rest(), 52nat,
    {
        proof {
            reveal(sp_if_tail);
            reveal(sp_compstmt);
            reveal(sp_expr);
            reveal(sp_opt_else);
        }
        if self.at(TokenKind::kELSIF) {
            let p = self.pos;
            self.skip_token();
            let c = match self.parse_expr() {
                Ok(n) => n,
                Err(e) => return Err(e),
            };
            match self.parse_then() {
                Ok(_) => {},
                Err(e) => return Err(e),
            }
            if !(p < self.pos) {
                return Err(self.error_here(TokenKind::tEOF, false));
            }
            let b = match self.parse_compstmt() {
                Ok(n) => n,
                Err(e) => return Err(e),
            };
            if !(p < self.pos) {
                return Err(self.error_here(TokenKind::tEOF, false));
            }
            let e = match self.parse_if_tail() {
                Ok(n) => n,
                Err(e) => return Err(e),
            };
            Ok(mk_wrap(NodeKind::If, self.span_from(p), concat3(c, mk_or_nil(b), mk_or_nil(e))))
        } else {
            self.parse_opt_else()
        }
    }

    /// `else ...`, or nothing.
    fn parse_opt_else(&mut self) -> (r: ParseResult<Node>)
        requires
            old(self).wf(),
        ensures
            final(self).ran(*old(self), r, sp_opt_else(old(self).tokens@, old(self).pos as int)),
        decreases old(self).rest(), 50nat,
    {
        proof {
            reveal(sp_opt_else);
            reveal(sp_compstmt);
        }
        if self.at(TokenKind::kELSE) {
            self.skip_token();
            self.parse_compstmt()
        } else {
            Ok(Node::empty())
        }
    }

    /// `unless cond then ... else ... end`, an `if` with its branches swapped.
    pub fn parse_unless(&mut self) -> (r: ParseResult<Node>)
        requires
            old(self).wf(),
        ensures
            final(self).ran(*old(self), r, sp_unless(old(self).tokens@, old(self).pos as int)),
            final(self).read_some(*old(self), r),
        decreases old(self).rest(), 50nat,
    {
        proof {
            reveal(sp_unless);
            reveal(sp_compstmt);
            reveal(sp_expr);
            reveal(sp_opt_else);
        }
        if !self.at(TokenKind::kUNLESS) {
            return Err(self.error_here(TokenKind::kUNLESS, true));
        }
        let p = self.pos;
        self.skip_token();
        let c = match self.parse_expr() {
            Ok(n) => n,
            Err(e) => return Err(e),
        };
        match self.parse_then() {
            Ok(_) => {},
            Err(e) => return Err(e),
        }
        if !(p < self.pos) {
            return Err(self.error_here(TokenKind::tEOF, false));
        }
        let b = match self.parse_compstmt() {
            Ok(n) => n,
            Err(e) => return Err(e),
        };
        if !(p < self.pos) {
            return Err(self.error_here(TokenKind::tEOF, false));
        }
        let e = match self.parse_opt_else() {
            Ok(n) => n,
            Err(e) => return Err(e),
        };
        if !self.at(TokenKind::kEND) {
            return Err(self.error_here(TokenKind::kEND, false));
        }
        self.skip_token();
        Ok(mk_wrap(NodeKind::If, self.span_from(p), concat3(c, mk_or_nil(e), mk_or_nil(b))))
    }

    /// `for targets in expr do ... end`.
    pub fn parse_for_loop(&mut self) -> (r: ParseResult<Node>)
        requires
            old(self).wf(),
        ensures
            final(self).ran(*old(self), r, sp_for(old(self).tokens@, old(self).pos as int)),
            final(self).read_some(*old(self), r),
        decreases old(self).rest(), 50nat,
    {
        proof {
            reveal(sp_for);
            reveal(sp_compstmt);
            reveal(sp_expr);
        }
        if !self.at(TokenKind::kFOR) {
            return Err(self.error_here(TokenKind::kFOR, true));
        }
        let p = self.pos;
        self.skip_token();
        let v = match self.parse_mlhs() {
            Ok(n) => n,
            Err(e) => return Err(e),
        };
        if !self.at(TokenKind::kIN) {
            return Err(self.error_here(TokenKind::kIN, false));
        }
        self.skip_token();
        if !(p < self.pos) {
            return Err(self.error_here(TokenKind::tEOF, false));
        }
        let it = match self.parse_expr() {
            Ok(n) => n,
            Err(e) => return Err(e),
        };
        match self.parse_do() {
            Ok(_) => {},
            Err(e) => return Err(e),
        }
        if !(p < self.pos) {
            return Err(self.error_here(TokenKind::tEOF, false));
        }
        let b = match self.parse_compstmt() {
            Ok(n) => n,
            Err(e) => return Err(e),
        };
        if !self.at(TokenKind::kEND) {
            return Err(self.error_here(TokenKind::kEND, false));
        }
        self.skip_token();
        Ok(mk_wrap(NodeKind::For, self.span_from(p), concat3(v, it, mk_or_nil(b))))
    }

    /// `break`, `next`, `redo`, `retry`, `return`, `yield(args)`, `defined?(expr)`.
    pub fn parse_keyword_cmd(&mut self) -> (r: ParseResult<Node>)
        requires
            old(self).wf(),
        ensures
            final(self).ran(*old(self), r, sp_keyword_cmd(old(self).tokens@, old(self).pos as int)),
            final(self).read_some(*old(self), r),
        decreases old(self).rest(), 51nat,
    {
        proof {
            reveal(sp_keyword_cmd);
            reveal(sp_item_list);
            reveal(sp_call_list);
            reveal(sp_defined);
        }
        let p = self.pos;
        let t = self.current_token();
        match keyword_leaf_kind_of(t.kind) {
            Some(nk) => {
                self.skip_token();
                Ok(mk_leaf(nk, t.loc))
            },
            None => if t.kind == TokenKind::kYIELD {
                self.skip_token();
                if self.at(TokenKind::tLPAREN) {
                    self.skip_token();
                    let args = match self.parse_call_list() {
                        Ok(n) => n,
                        Err(e) => return Err(e),
                    };
                    if !self.at(TokenKind::tRPAREN) {
                        return Err(self.error_here(TokenKind::tRPAREN, false));
                    }
                    self.skip_token();
                    Ok(mk_wrap(NodeKind::Yield, self.span_from(p), args))
                } else if crate::parser::shared::starts_item_kind(self.tokens[self.pos].kind) {
                    match self.parse_item_list(Node::empty()) {
                        Ok(args) => Ok(mk_wrap(NodeKind::Yield, self.span_from(p), args)),
                        Err(e) => Err(e),
                    }
                } else {
                    Ok(mk_leaf(NodeKind::Yield, t.loc))
                }
            } else if t.kind == TokenKind::kDEFINED {
                self.parse_defined()
            } else {
                Err(self.error_here(TokenKind::kBREAK, true))
            },
        }
    }

    /// `defined?(expr)`.
    pub fn parse_defined(&mut self) -> (r: ParseResult<Node>)
        requires
            old(self).wf(),
        ensures
            final(self).ran(*old(self), r, sp_defined(old(self).tokens@, old(self).pos as int)),
            final(self).read_some(*old(self), r),
        decreases old(self).rest(), 50nat,
    {
        proof {
            reveal(sp_defined);
            reveal(sp_expr);
        }
        if !self.at(TokenKind::kDEFINED) {
            return Err(self.error_here(TokenKind::kDEFINED, true));
        }
        let p = self.pos;
        self.skip_token();
        if self.at(TokenKind::tNL) {
            self.skip_token();
        }
        if !self.at(TokenKind::tLPAREN) {
            return Err(self.error_here(TokenKind::tLPAREN, false));
        }
        self.skip_token();
        let e = match self.parse_expr() {
            Ok(n) => n,
            Err(e) => return Err(e),
        };
        if !self.at(TokenKind::tRPAREN) {
            return Err(self.error_here(TokenKind::tRPAREN, false));
        }
        self.skip_token();
        Ok(mk_wrap(NodeKind::Defined, self.span_from(p), e))
    }
}

} // verus!
