use vstd::prelude::*;
use crate::nodes::{concat, mk_item, mk_named, mk_or_nil, mk_wrap, Item, Node, NodeKind};
use crate::parser::grammar::{
    is_singleton_def, sp_arg, sp_arg_rhs, sp_bodystmt, sp_class, sp_def, sp_def_body, sp_def_rest, sp_expr, sp_module, sp_param, sp_param_list, sp_params, sp_primary, sp_primary_head, sp_primary_tails, sp_singleton, sp_superclass,
};
use crate::parser::shared::{concat3, is_fname_kind, is_var_ref_kind, starts_arg_kind, starts_param_kind};
use crate::parser::{ParseResult, Parser};
use crate::token::TokenKind;

verus! {

impl Parser {
    /// The name of a class or module: `Foo`, `Foo::Bar`, `::Foo`.
    pub fn parse_cpath(&mut self) -> (r: ParseResult<Node>)
        requires
            old(self).wf(),
        ensures
            final(self).ran(*old(self), r, sp_primary(old(self).tokens@, old(self).pos as int)),
            final(self).read_some(*old(self), r),
    {
        proof {
            reveal(sp_primary);
            reveal(sp_primary_head);
            reveal(sp_primary_tails);
        }
        self.parse_primary()
    }

    /// `< Superclass` and the `;` or newline after it, or nothing.
    fn parse_superclass(&mut self) -> (r: ParseResult<Node>)
        requires
            old(self).wf(),
        ensures
            final(self).ran(*old(self), r, sp_superclass(old(self).tokens@, old(self).pos as int)),
        decreases old(self).rest(), 50nat,
    {
        proof {
            reveal(sp_superclass);
            reveal(sp_expr);
        }
        if self.at(TokenKind::tLT) {
            self.skip_token();
            let s = match self.parse_expr() {
                Ok(n) => n,
                Err(e) => return Err(e),
            };
            match self.parse_term() {
                Ok(_) => Ok(s),
                Err(e) => Err(e),
            }
        } else {
            Ok(Node::empty())
        }
    }

    /// `class Name < Super ... end` or `class << expr ... end`.
    pub fn parse_class(&mut self) -> (r: ParseResult<Node>)
        requires
            old(self).wf(),
        ensures
            final(self).ran(*old(self), r, sp_class(old(self).tokens@, old(self).pos as int)),
            final(self).read_some(*old(self), r),
        decreases old(self).rest(), 50nat,
    {
        proof {
            reveal(sp_class);
            reveal(sp_bodystmt);
            reveal(sp_expr);
            reveal(sp_primary);
            reveal(sp_superclass);
        }
        if !self.at(TokenKind::kCLASS) {
            return Err(self.error_here(TokenKind::kCLASS, true));
        }
        let p = self.pos;
        self.skip_token();
        if self.at(TokenKind::tLSHFT) {
            self.skip_token();
            let e = match self.parse_expr() {
                Ok(n) => n,
                Err(e) => return Err(e),
            };
            match self.parse_term() {
                Ok(_) => {},
                Err(e) => return Err(e),
            }
            if !(p < self.pos) {
                return Err(self.error_here(TokenKind::tEOF, false));
            }
            let b = match self.parse_bodystmt() {
                Ok(n) => n,
                Err(e) => return Err(e),
            };
            if !self.at(TokenKind::kEND) {
                return Err(self.error_here(TokenKind::kEND, false));
            }
            self.skip_token();
            Ok(mk_wrap(NodeKind::SClass, self.span_from(p), concat(e, mk_or_nil(b))))
        } else {
            let name = match self.parse_primary() {
                Ok(n) => n,
                Err(e) => return Err(e),
            };
            if !(p < self.pos) {
                return Err(self.error_here(TokenKind::tEOF, false));
            }
            let s = match self.parse_superclass() {
                Ok(n) => n,
                Err(e) => return Err(e),
            };
            if !(p < self.pos) {
                return Err(self.error_here(TokenKind::tEOF, false));
            }
            let b = match self.parse_bodystmt() {
                Ok(n) => n,
                Err(e) => return Err(e),
            };
            if !self.at(TokenKind::kEND) {
                return Err(self.error_here(TokenKind::kEND, false));
            }
            self.skip_token();
            Ok(mk_wrap(NodeKind::Class, self.span_from(p), concat3(name, mk_or_nil(s), mk_or_nil(b))))
        }
    }

    /// `module Name ... end`.
    pub fn parse_module(&mut self) -> (r: ParseResult<Node>)
        requires
            old(self).wf(),
        ensures
            final(self).ran(*old(self), r, sp_module(old(self).tokens@, old(self).pos as int)),
            final(self).read_some(*old(self), r),
        decreases old(self).rest(), 50nat,
    {
        proof {
            reveal(sp_module);
            reveal(sp_bodystmt);
            reveal(sp_primary);
        }
        if !self.at(TokenKind::kMODULE) {
            return Err(self.error_here(TokenKind::kMODULE, true));
        }
        let p = self.pos;
        self.skip_token();
        let name = match self.parse_primary() {
            Ok(n) => n,
            Err(e) => return Err(e),
        };
        if !(p < self.pos) {
            return Err(self.error_here(TokenKind::tEOF, false));
        }
        let b = match self.parse_bodystmt() {
            Ok(n) => n,
            Err(e) => return Err(e),
        };
        if !self.at(TokenKind::kEND) {
            return Err(self.error_here(TokenKind::kEND, false));
        }
        self.skip_token();
        Ok(mk_wrap(NodeKind::Module, self.span_from(p), concat(name, mk_or_nil(b))))
    }

    /// A method definition: `def name(params) ... end`, `def recv.name ... end`,
    /// `def name = value`.
    pub fn parse_method(&mut self) -> (r: ParseResult<Node>)
        requires
            old(self).wf(),
        ensures
            final(self).ran(*old(self), r, sp_def(old(self).tokens@, old(self).pos as int)),
            final(self).read_some(*old(self), r),
        decreases old(self).rest(), 50nat,
    {
        proof {
            reveal(sp_def);
            reveal(sp_def_rest);
            reveal(sp_singleton);
        }
        if !self.at(TokenKind::kDEF) {
            return Err(self.error_here(TokenKind::kDEF, true));
        }
        let p = self.pos;
        self.skip_token();
        let k1 = self.tokens[self.pos].kind;
        let k2 = self.peek(1);
        proof {
            assert(is_singleton_def(self.tokens@, self.pos as int) == (k1 == TokenKind::tLPAREN || (
            crate::parser::shared::is_var_ref(k1) && (k2 == TokenKind::tDOT || k2 == TokenKind::tCOLON2))));
        }
        if k1 == TokenKind::tLPAREN || (is_var_ref_kind(k1) && (k2 == TokenKind::tDOT || k2
            == TokenKind::tCOLON2)) {
            let d = match self.parse_singleton() {
                Ok(n) => n,
                Err(e) => return Err(e),
            };
            if !(self.at(TokenKind::tDOT) || self.at(TokenKind::tCOLON2)) {
                return Err(self.error_here(TokenKind::tDOT, false));
            }
            self.skip_token();
            if !is_fname_kind(self.tokens[self.pos].kind) {
                return Err(self.error_here(TokenKind::tIDENTIFIER, false));
            }
            let name = self.take_token();
            if !(p < self.pos) {
                return Err(self.error_here(TokenKind::tEOF, false));
            }
            match self.parse_def_rest() {
                Ok(rest) => Ok(
                    mk_wrap(NodeKind::Defs, self.span_from(p), concat3(d, mk_item(Item::Str(name.loc)), rest)),
                ),
                Err(e) => Err(e),
            }
        } else if is_fname_kind(k1) {
            let name = self.take_token();
            match self.parse_def_rest() {
                Ok(rest) => Ok(mk_wrap(NodeKind::Def, self.span_from(p), concat(mk_item(Item::Str(name.loc)), rest))),
                Err(e) => Err(e),
            }
        } else {
            Err(self.error_here(TokenKind::tIDENTIFIER, false))
        }
    }

    /// The receiver of a singleton method: a variable or `(expr)`.
    fn parse_singleton(&mut self) -> (r: ParseResult<Node>)
        requires
            old(self).wf(),
        ensures
            final(self).ran(*old(self), r, sp_singleton(old(self).tokens@, old(self).pos as int)),
            final(self).read_some(*old(self), r),
        decreases old(self).rest(), 50nat,
    {
        proof {
            reveal(sp_singleton);
            reveal(sp_expr);
        }
        if self.at(TokenKind::tLPAREN) {
            self.skip_token();
            let e = match self.parse_expr() {
                Ok(n) => n,
                Err(e) => return Err(e),
            };
            if !self.at(TokenKind::tRPAREN) {
                return Err(self.error_here(TokenKind::tRPAREN, false));
            }
            self.skip_token();
            Ok(e)
        } else {
            self.parse_var_ref()
        }
    }

    /// The parameters and body of a method.
    fn parse_def_rest(&mut self) -> (r: ParseResult<Node>)
        requires
            old(self).wf(),
        ensures
            final(self).ran(*old(self), r, sp_def_rest(old(self).tokens@, old(self).pos as int)),
            final(self).read_some(*old(self), r),
        decreases old(self).rest(), 95nat,
    {
        proof {
            reveal(sp_def_rest);
            reveal(sp_def_body);
            reveal(sp_params);
        }
        let p = self.pos;
        let k = self.tokens[self.pos].kind;
        if k == TokenKind::tLPAREN {
            self.skip_token();
            let ps = match self.parse_params() {
                Ok(n) => n,
                Err(e) => return Err(e),
            };
            if !self.at(TokenKind::tRPAREN) {
                return Err(self.error_here(TokenKind::tRPAREN, false));
            }
            self.skip_token();
            let args = mk_wrap(NodeKind::Args, self.span_from(p), ps);
            self.parse_def_body(args)
        } else if starts_param_kind(k) {
            let ps = match self.parse_params() {
                Ok(n) => n,
                Err(e) => return Err(e),
            };
            let l = self.span_from(p);
            match self.parse_term() {
                Ok(_) => {},
                Err(e) => return Err(e),
            }
            self.parse_def_body(mk_wrap(NodeKind::Args, l, ps))
        } else {
            self.parse_def_body(mk_item(Item::Nil))
        }
    }

    /// The body of a method after its parameters `args`: `= value`, or statements and
    /// `end`.
    fn parse_def_body(&mut self, args: Node) -> (r: ParseResult<Node>)
        requires
            old(self).wf(),
        ensures
            final(self).ran(*old(self), r, sp_def_body(old(self).tokens@, old(self).pos as int, args@)),
            final(self).read_some(*old(self), r),
        decreases old(self).rest(), 94nat,
    {
        proof {
            reveal(sp_def_body);
            reveal(sp_arg_rhs);
            reveal(sp_bodystmt);
        }
        if self.at(TokenKind::tEQL) {
            self.skip_token();
            match self.parse_arg_rhs() {
                Ok(b) => Ok(concat(args, b)),
                Err(e) => Err(e),
            }
        } else {
            let b = match self.parse_bodystmt() {
                Ok(n) => n,
                Err(e) => return Err(e),
            };
            if !self.at(TokenKind::kEND) {
                return Err(self.error_here(TokenKind::kEND, false));
            }
            self.skip_token();
            Ok(concat(args, mk_or_nil(b)))
        }
    }

    /// Method parameters (possibly none).
    pub fn parse_params(&mut self) -> (r: ParseResult<Node>)
        requires
            old(self).wf(),
        ensures
            final(self).ran(*old(self), r, sp_params(old(self).tokens@, old(self).pos as int)),
        decreases old(self).rest(), 81nat,
    {
        proof {
            reveal(sp_params);
            reveal(sp_param_list);
        }
        if starts_param_kind(self.tokens[self.pos].kind) {
            self.parse_param_list(Node::empty())
        } else {
            Ok(Node::empty())
        }
    }

    fn parse_param_list(&mut self, acc: Node) -> (r: ParseResult<Node>)
        requires
            old(self).wf(),
        ensures
            final(self).ran(*old(self), r, sp_param_list(old(self).tokens@, old(self).pos as int, acc@)),
            final(self).read_some(*old(self), r),
        decreases old(self).rest(), 80nat,
    {
        proof {
            reveal(sp_param_list);
            reveal(sp_param);
        }
        let p = self.pos;
        let x = match self.parse_param() {
            Ok(n) => n,
            Err(e) => return Err(e),
        };
        let acc2 = concat(acc, x);
        if self.at(TokenKind::tCOMMA) && starts_param_kind(self.peek(1)) {
            self.skip_token();
            if p < self.pos {
                self.parse_param_list(acc2)
            } else {
                Err(self.error_here(TokenKind::tEOF, false))
            }
        } else {
            Ok(acc2)
        }
    }

    /// One parameter: `a`, `a = 1`, `*a`, `a:`, `a: 1`, `**a`, `&a`, `(a, b)`.
    pub fn parse_param(&mut self) -> (r: ParseResult<Node>)
        requires
            old(self).wf(),
        ensures
            final(self).ran(*old(self), r, sp_param(old(self).tokens@, old(self).pos as int)),
            final(self).read_some(*old(self), r),
        decreases old(self).rest(), 79nat,
    {
        proof {
            reveal(sp_param);
            reveal(sp_arg);
        }
        let p = self.pos;
        let pt = self.current_token();
        let k = pt.kind;
        if k == TokenKind::tSTAR {
            self.parse_rest_param(k, NodeKind::Restarg)
        } else if k == TokenKind::tDSTAR {
            self.parse_rest_param(k, NodeKind::Kwrestarg)
        } else if k == TokenKind::tAMPER {
            self.parse_blockarg()
        } else if k == TokenKind::tLPAREN {
            self.parse_multi_paren()
        } else if k == TokenKind::tIDENTIFIER {
            self.skip_token();
            if self.at(TokenKind::tEQL) {
                self.skip_token();
                match self.parse_arg() {
                    Ok(v) => Ok(
                        mk_wrap(NodeKind::Optarg, self.span_from(p), concat(mk_item(Item::Str(pt.loc)), v)),
                    ),
                    Err(e) => Err(e),
                }
            } else {
                Ok(mk_named(NodeKind::Arg, pt.loc, pt.loc))
            }
        } else if k == TokenKind::tLABEL {
            let name = match pt.value {
                Some(l) => l,
                None => pt.loc,
            };
            self.skip_token();
            if starts_arg_kind(self.tokens[self.pos].kind) {
                match self.parse_arg() {
                    Ok(v) => Ok(
                        mk_wrap(NodeKind::Kwoptarg, self.span_from(p), concat(mk_item(Item::Str(name)), v)),
                    ),
                    Err(e) => Err(e),
                }
            } else {
                Ok(mk_named(NodeKind::Kwarg, pt.loc, name))
            }
        } else {
            Err(self.error_here(TokenKind::tIDENTIFIER, true))
        }
    }
}

} // verus!
