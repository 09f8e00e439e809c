use vstd::prelude::*;
use crate::nodes::{concat, mk_item, mk_named, mk_wrap, Item, Node, NodeKind};
use crate::parser::grammar::{
    sp_arg, sp_array, sp_assoc, sp_assoc_list, sp_assocs, sp_call_list, sp_class, sp_def, sp_for, sp_hash, sp_if, sp_item, sp_item_list, sp_items, sp_keyword_cmd, sp_label_pair, sp_method_call, sp_module, sp_pair_value, sp_paren, sp_primary, sp_primary_head, sp_primary_tails, sp_splat, sp_stmts, sp_unless,
};
use crate::parser::literal::starts_literal_kind;
use crate::parser::shared::{
    concat3, is_fname_kind, is_keyword_cmd_kind, is_var_ref_kind, mk_retag, starts_arg_kind,
    starts_item_kind,
};
use crate::parser::{ParseResult, Parser};
use crate::token::TokenKind;

verus! {

impl Parser {
    /// A primary expression with its `::Const`, `[index]` and `.method(args)` tails.
    pub fn parse_primary(&mut self) -> (r: ParseResult<Node>)
        requires
            old(self).wf(),
        ensures
            final(self).ran(*old(self), r, sp_primary(old(self).tokens@, old(self).pos as int)),
            final(self).read_some(*old(self), r),
        decreases old(self).rest(), 65nat,
    {
        proof {
            reveal(sp_primary);
            reveal(sp_primary_head);
            reveal(sp_primary_tails);
        }
        let p = self.pos;
        let h = match self.parse_primary_head() {
            Ok(n) => n,
            Err(e) => return Err(e),
        };
        if p < self.pos {
            self.parse_primary_tails(h)
        } else {
            Err(self.error_here(TokenKind::tEOF, false))
        }
    }

    /// The `::Const`, `[index]` and `.method(args)` tails after `node`.
    fn parse_primary_tails(&mut self, node: Node) -> (r: ParseResult<Node>)
        requires
            old(self).wf(),
        ensures
            final(self).ran(*old(self), r, sp_primary_tails(old(self).tokens@, old(self).pos as int, node@)),
        decreases old(self).rest(), 64nat,
    {
        proof {
            reveal(sp_primary_tails);
            reveal(sp_call_list);
            reveal(sp_items);
        }
        let p = self.pos;
        let k = self.tokens[self.pos].kind;
        let k1 = self.peek(1);
        if k == TokenKind::tCOLON2 && k1 == TokenKind::tCONSTANT {
            self.skip_token();
            let name = self.take_token();
            let l = node.loc().join(&name.loc);
            self.parse_primary_tails(mk_wrap(NodeKind::Const, l, concat(node, mk_item(Item::Str(name.loc)))))
        } else if k == TokenKind::tLBRACK {
            self.skip_token();
            let args = match self.parse_items() {
                Ok(n) => n,
                Err(e) => return Err(e),
            };
            if !self.at(TokenKind::tRBRACK) {
                return Err(self.error_here(TokenKind::tRBRACK, false));
            }
            let rbrack = self.take_token();
            if !(p < self.pos) {
                return Err(self.error_here(TokenKind::tEOF, false));
            }
            let l = node.loc().join(&rbrack.loc);
            self.parse_primary_tails(mk_wrap(NodeKind::Index, l, concat(node, args)))
        } else if k == TokenKind::tDOT && is_fname_kind(k1) {
            self.skip_token();
            let name = self.take_token();
            if self.at(TokenKind::tLPAREN) {
                self.skip_token();
                let args = match self.parse_call_list() {
                    Ok(n) => n,
                    Err(e) => return Err(e),
                };
                if !self.at(TokenKind::tRPAREN) {
                    return Err(self.error_here(TokenKind::tRPAREN, false));
                }
                let rparen = self.take_token();
                if !(p < self.pos) {
                    return Err(self.error_here(TokenKind::tEOF, false));
                }
                let l = node.loc().join(&rparen.loc);
                self.parse_primary_tails(
                    mk_wrap(NodeKind::Send, l, concat3(node, mk_item(Item::Str(name.loc)), args)),
                )
            } else {
                let l = node.loc().join(&name.loc);
                self.parse_primary_tails(mk_wrap(NodeKind::Send, l, concat(node, mk_item(Item::Str(name.loc)))))
            }
        } else {
            Ok(node)
        }
    }

    /// The start of a primary expression, chosen by its first token.
    fn parse_primary_head(&mut self) -> (r: ParseResult<Node>)
        requires
            old(self).wf(),
        ensures
            final(self).ran(*old(self), r, sp_primary_head(old(self).tokens@, old(self).pos as int)),
            final(self).read_some(*old(self), r),
        decreases old(self).rest(), 63nat,
    {
        proof {
            reveal(sp_primary_head);
            reveal(sp_array);
            reveal(sp_class);
            reveal(sp_def);
            reveal(sp_for);
            reveal(sp_hash);
            reveal(sp_if);
            reveal(sp_keyword_cmd);
            reveal(sp_method_call);
            reveal(sp_module);
            reveal(sp_paren);
            reveal(sp_unless);
        }
        let k = self.tokens[self.pos].kind;
        if starts_literal_kind(k) {
            self.parse_literal()
        } else if k == TokenKind::tLBRACK {
            self.parse_array()
        } else if k == TokenKind::tLCURLY {
            self.parse_hash()
        } else if k == TokenKind::tFID || (k == TokenKind::tIDENTIFIER && self.peek(1)
            == TokenKind::tLPAREN) {
            self.parse_method_call()
        } else if is_var_ref_kind(k) {
            self.parse_var_ref()
        } else if k == TokenKind::tBACK_REF {
            self.parse_named_token(k, NodeKind::BackRef)
        } else if k == TokenKind::tNTH_REF {
            self.parse_named_token(k, NodeKind::NthRef)
        } else if k == TokenKind::tLPAREN {
            self.parse_paren()
        } else if k == TokenKind::tCOLON2 {
            self.parse_global_const()
        } else if k == TokenKind::kIF {
            self.parse_if()
        } else if k == TokenKind::kUNLESS {
            self.parse_unless()
        } else if k == TokenKind::kFOR {
            self.parse_for_loop()
        } else if k == TokenKind::kCLASS {
            self.parse_class()
        } else if k == TokenKind::kMODULE {
            self.parse_module()
        } else if k == TokenKind::kDEF {
            self.parse_method()
        } else if is_keyword_cmd_kind(k) {
            self.parse_keyword_cmd()
        } else {
            Err(self.error_here(TokenKind::tIDENTIFIER, true))
        }
    }

    /// A call of a method with no receiver: `foo(args)`, `foo?`.
    pub fn parse_method_call(&mut self) -> (r: ParseResult<Node>)
        requires
            old(self).wf(),
        ensures
            final(self).ran(*old(self), r, sp_method_call(old(self).tokens@, old(self).pos as int)),
            final(self).read_some(*old(self), r),
        decreases old(self).rest(), 50nat,
    {
        proof {
            reveal(sp_method_call);
            reveal(sp_call_list);
        }
        let p = self.pos;
        let name = self.current_token();
        if !(name.kind == TokenKind::tIDENTIFIER || name.kind == TokenKind::tFID) {
            return Err(self.error_here(TokenKind::tIDENTIFIER, true));
        }
        self.skip_token();
        let head = concat(mk_item(Item::Nil), mk_item(Item::Str(name.loc)));
        proof {
            assert(head@ =~= seq![Item::Nil, Item::Str(name.loc)]);
        }
        if self.at(TokenKind::tLPAREN) {
            self.skip_token();
            let args = match self.parse_call_list() {
                Ok(n) => n,
                Err(e) => return Err(e),
            };
            if !self.at(TokenKind::tRPAREN) {
                return Err(self.error_here(TokenKind::tRPAREN, false));
            }
            self.skip_token();
            Ok(mk_wrap(NodeKind::Send, self.span_from(p), concat(head, args)))
        } else {
            Ok(mk_wrap(NodeKind::Send, name.loc, head))
        }
    }

    /// Statements in parentheses, grouped in a `begin`: `(1; 2)`.
    pub fn parse_paren(&mut self) -> (r: ParseResult<Node>)
        requires
            old(self).wf(),
        ensures
            final(self).ran(*old(self), r, sp_paren(old(self).tokens@, old(self).pos as int)),
            final(self).read_some(*old(self), r),
        decreases old(self).rest(), 50nat,
    {
        proof {
            reveal(sp_paren);
            reveal(sp_stmts);
        }
        if !self.at(TokenKind::tLPAREN) {
            return Err(self.error_here(TokenKind::tLPAREN, true));
        }
        let p = self.pos;
        self.skip_token();
        let body = match self.parse_stmts(Node::empty(), 0, crate::loc::Loc { start: 0, end: 0 }, true) {
            Ok(n) => n,
            Err(e) => return Err(e),
        };
        if !self.at(TokenKind::tRPAREN) {
            return Err(self.error_here(TokenKind::tRPAREN, false));
        }
        self.skip_token();
        Ok(mk_wrap(NodeKind::Begin, self.span_from(p), body))
    }

    /// An array literal: `[1, *a, b => c]`.
    pub fn parse_array(&mut self) -> (r: ParseResult<Node>)
        requires
            old(self).wf(),
        ensures
            final(self).ran(*old(self), r, sp_array(old(self).tokens@, old(self).pos as int)),
            final(self).read_some(*old(self), r),
        decreases old(self).rest(), 50nat,
    {
        proof {
            reveal(sp_array);
            reveal(sp_items);
        }
        if !self.at(TokenKind::tLBRACK) {
            return Err(self.error_here(TokenKind::tLBRACK, true));
        }
        let p = self.pos;
        self.skip_token();
        let its = match self.parse_items() {
            Ok(n) => n,
            Err(e) => return Err(e),
        };
        if self.at(TokenKind::tCOMMA) {
            self.skip_token();
        }
        if !self.at(TokenKind::tRBRACK) {
            return Err(self.error_here(TokenKind::tRBRACK, false));
        }
        self.skip_token();
        Ok(mk_wrap(NodeKind::Array, self.span_from(p), its))
    }

    fn parse_items(&mut self) -> (r: ParseResult<Node>)
        requires
            old(self).wf(),
        ensures
            final(self).ran(*old(self), r, sp_items(old(self).tokens@, old(self).pos as int)),
        decreases old(self).rest(), 76nat,
    {
        proof {
            reveal(sp_items);
            reveal(sp_item_list);
        }
        if starts_item_kind(self.tokens[self.pos].kind) {
            self.parse_item_list(Node::empty())
        } else {
            Ok(Node::empty())
        }
    }

    /// Array elements separated by commas, added to `acc`.
    pub fn parse_item_list(&mut self, acc: Node) -> (r: ParseResult<Node>)
        requires
            old(self).wf(),
        ensures
            final(self).ran(*old(self), r, sp_item_list(old(self).tokens@, old(self).pos as int, acc@)),
            final(self).read_some(*old(self), r),
        decreases old(self).rest(), 75nat,
    {
        proof {
            reveal(sp_item_list);
            reveal(sp_item);
        }
        let p = self.pos;
        let x = match self.parse_item() {
            Ok(n) => n,
            Err(e) => return Err(e),
        };
        let acc2 = concat(acc, x);
        if self.at(TokenKind::tCOMMA) && starts_item_kind(self.peek(1)) {
            self.skip_token();
            if p < self.pos {
                self.parse_item_list(acc2)
            } else {
                Err(self.error_here(TokenKind::tEOF, false))
            }
        } else {
            Ok(acc2)
        }
    }

    /// `*value`, or `**value` when `kw`.
    pub fn parse_splat(&mut self, kw: bool) -> (r: ParseResult<Node>)
        requires
            old(self).wf(),
        ensures
            final(self).ran(*old(self), r, sp_splat(old(self).tokens@, old(self).pos as int, kw)),
            final(self).read_some(*old(self), r),
        decreases old(self).rest(), 50nat,
    {
        proof {
            reveal(sp_splat);
            reveal(sp_arg);
        }
        let k = if kw {
            TokenKind::tDSTAR
        } else {
            TokenKind::tSTAR
        };
        let nk = if kw {
            NodeKind::Kwsplat
        } else {
            NodeKind::Splat
        };
        if !self.at(k) {
            return Err(self.error_here(k, true));
        }
        let p = self.pos;
        self.skip_token();
        match self.parse_arg() {
            Ok(v) => Ok(mk_wrap(nk, self.span_from(p), v)),
            Err(e) => Err(e),
        }
    }

    /// The value of a pair whose key `key` was read from `p`, with `=>` (or, when
    /// `quoted`, the `:` after a string key) at the current token.
    fn parse_pair_value(&mut self, p: usize, key: Node, quoted: bool) -> (r: ParseResult<Node>)
        requires
            old(self).wf(),
            p <= old(self).pos,
            quoted ==> key@.len() > 0,
            crate::parser::kind_at(old(self).tokens@, old(self).pos as int) != TokenKind::tEOF,
        ensures
            final(self).ran(*old(self), r, sp_pair_value(old(self).tokens@, p as int, old(self).pos as int, key@, quoted)),
            final(self).read_some(*old(self), r),
        decreases old(self).rest(), 50nat,
    {
        proof {
            reveal(sp_pair_value);
            reveal(sp_arg);
        }
        self.skip_token();
        if !(p < self.pos) {
            return Err(self.error_here(TokenKind::tEOF, false));
        }
        match self.parse_arg() {
            Ok(v) => {
                let l = key.loc().join(&v.loc());
                let k2 = if quoted {
                    let sk = match key.kind() {
                        Some(NodeKind::Dstr) => NodeKind::Dsym,
                        _ => NodeKind::Sym,
                    };
                    mk_retag(key, sk)
                } else {
                    key
                };
                Ok(mk_wrap(NodeKind::Pair, l, concat(k2, v)))
            },
            Err(e) => Err(e),
        }
    }

    /// One array element: `*a`, `**a`, `key: value`, `key => value`, `"key": value`, or a
    /// value.
    pub fn parse_item(&mut self) -> (r: ParseResult<Node>)
        requires
            old(self).wf(),
        ensures
            final(self).ran(*old(self), r, sp_item(old(self).tokens@, old(self).pos as int)),
            final(self).read_some(*old(self), r),
        decreases old(self).rest(), 74nat,
    {
        proof {
            reveal(sp_item);
            reveal(sp_arg);
            reveal(sp_label_pair);
            reveal(sp_pair_value);
            reveal(sp_splat);
        }
        let k = self.tokens[self.pos].kind;
        if k == TokenKind::tSTAR {
            self.parse_splat(false)
        } else if k == TokenKind::tDSTAR {
            self.parse_splat(true)
        } else if k == TokenKind::tLABEL {
            self.parse_label_pair(false)
        } else {
            let p = self.pos;
            let v = match self.parse_arg() {
                Ok(n) => n,
                Err(e) => return Err(e),
            };
            let is_str = match v.kind() {
                Some(NodeKind::Str) => true,
                Some(NodeKind::Dstr) => true,
                _ => false,
            };
            if is_str && self.at(TokenKind::tCOLON) {
                self.parse_pair_value(p, v, true)
            } else if self.at(TokenKind::tASSOC) {
                self.parse_pair_value(p, v, false)
            } else {
                Ok(v)
            }
        }
    }

    /// `key: value`, or `key:` alone, whose value is the variable `key`. With `full`, the
    /// symbol is the label with its colon.
    fn parse_label_pair(&mut self, full: bool) -> (r: ParseResult<Node>)
        requires
            old(self).wf(),
        ensures
            final(self).ran(*old(self), r, sp_label_pair(old(self).tokens@, old(self).pos as int, full)),
            final(self).read_some(*old(self), r),
        decreases old(self).rest(), 73nat,
    {
        proof {
            reveal(sp_label_pair);
            reveal(sp_arg);
        }
        let p = self.pos;
        let lt = self.current_token();
        if lt.kind != TokenKind::tLABEL {
            return Err(self.error_here(TokenKind::tLABEL, true));
        }
        let name = match lt.value {
            Some(l) => l,
            None => lt.loc,
        };
        let key = mk_named(NodeKind::Sym, lt.loc, if full {
            lt.loc
        } else {
            name
        });
        self.skip_token();
        if starts_arg_kind(self.tokens[self.pos].kind) {
            match self.parse_arg() {
                Ok(v) => Ok(mk_wrap(NodeKind::Pair, self.span_from(p), concat(key, v))),
                Err(e) => Err(e),
            }
        } else {
            Ok(mk_wrap(NodeKind::Pair, lt.loc, concat(key, mk_named(NodeKind::Lvar, name, name))))
        }
    }

    /// A hash literal: `{ a: 1, :b => 2, **c }`.
    pub fn parse_hash(&mut self) -> (r: ParseResult<Node>)
        requires
            old(self).wf(),
        ensures
            final(self).ran(*old(self), r, sp_hash(old(self).tokens@, old(self).pos as int)),
            final(self).read_some(*old(self), r),
        decreases old(self).rest(), 50nat,
    {
        proof {
            reveal(sp_hash);
            reveal(sp_assocs);
        }
        if !self.at(TokenKind::tLCURLY) {
            return Err(self.error_here(TokenKind::tLCURLY, true));
        }
        let p = self.pos;
        self.skip_token();
        let its = match self.parse_assocs() {
            Ok(n) => n,
            Err(e) => return Err(e),
        };
        if self.at(TokenKind::tCOMMA) {
            self.skip_token();
        }
        if !self.at(TokenKind::tRCURLY) {
            return Err(self.error_here(TokenKind::tRCURLY, false));
        }
        self.skip_token();
        Ok(mk_wrap(NodeKind::Hash, self.span_from(p), its))
    }

    fn parse_assocs(&mut self) -> (r: ParseResult<Node>)
        requires
            old(self).wf(),
        ensures
            final(self).ran(*old(self), r, sp_assocs(old(self).tokens@, old(self).pos as int)),
        decreases old(self).rest(), 76nat,
    {
        proof {
            reveal(sp_assocs);
            reveal(sp_assoc_list);
        }
        if starts_item_kind(self.tokens[self.pos].kind) {
            self.parse_assoc_list(Node::empty())
        } else {
            Ok(Node::empty())
        }
    }

    fn parse_assoc_list(&mut self, acc: Node) -> (r: ParseResult<Node>)
        requires
            old(self).wf(),
        ensures
            final(self).ran(*old(self), r, sp_assoc_list(old(self).tokens@, old(self).pos as int, acc@)),
            final(self).read_some(*old(self), r),
        decreases old(self).rest(), 75nat,
    {
        proof {
            reveal(sp_assoc_list);
            reveal(sp_assoc);
        }
        let p = self.pos;
        let x = match self.parse_assoc() {
            Ok(n) => n,
            Err(e) => return Err(e),
        };
        let acc2 = concat(acc, x);
        if self.at(TokenKind::tCOMMA) && starts_item_kind(self.peek(1)) {
            self.skip_token();
            if p < self.pos {
                self.parse_assoc_list(acc2)
            } else {
                Err(self.error_here(TokenKind::tEOF, false))
            }
        } else {
            Ok(acc2)
        }
    }

    /// One hash pair: `key: value`, `**a`, `key => value` or `"key": value`.
    pub fn parse_assoc(&mut self) -> (r: ParseResult<Node>)
        requires
            old(self).wf(),
        ensures
            final(self).ran(*old(self), r, sp_assoc(old(self).tokens@, old(self).pos as int)),
            final(self).read_some(*old(self), r),
        decreases old(self).rest(), 74nat,
    {
        proof {
            reveal(sp_assoc);
            reveal(sp_arg);
            reveal(sp_label_pair);
            reveal(sp_pair_value);
            reveal(sp_splat);
        }
        let k = self.tokens[self.pos].kind;
        if k == TokenKind::tLABEL {
            self.parse_label_pair(true)
        } else if k == TokenKind::tDSTAR {
            self.parse_splat(true)
        } else {
            let p = self.pos;
            let v = match self.parse_arg() {
                Ok(n) => n,
                Err(e) => return Err(e),
            };
            let is_str = match v.kind() {
                Some(NodeKind::Str) => true,
                Some(NodeKind::Dstr) => true,
                _ => false,
            };
            if is_str && self.at(TokenKind::tCOLON) {
                self.parse_pair_value(p, v, true)
            } else if self.at(TokenKind::tASSOC) {
                self.parse_pair_value(p, v, false)
            } else {
                Err(self.error_here(TokenKind::tASSOC, false))
            }
        }
    }
}

} // verus!
