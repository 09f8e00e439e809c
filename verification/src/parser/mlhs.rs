use vstd::prelude::*;
use crate::nodes::{concat, leaf, mk_leaf, mk_named, mk_wrap, named, wrap, Item, Node, NodeKind};
use crate::parser::shared::{progress, sp_rest_param, span, stall};
use crate::parser::variables::{plain_variable_kind, sp_user_variable};
use crate::parser::{adv, errp, kind_at, okp, tok, unexpected, PRes, ParseResult, Parser};
use crate::token::{Token, TokenKind};

verus! {

// ---------------------------------------------------------------------------
// Targets of a multiple assignment: `a, *b, (c, d)`.
// ---------------------------------------------------------------------------

/// A token that names a single target.
pub open spec fn starts_mlhs_node(k: TokenKind) -> bool {
    plain_variable_kind(k) is Some || k == TokenKind::tCONSTANT
}

/// A token that starts a target.
pub open spec fn starts_mlhs_item(k: TokenKind) -> bool {
    k == TokenKind::tLPAREN || k == TokenKind::tSTAR || starts_mlhs_node(k)
}

/// Targets separated by commas, added to `acc`.
pub open spec fn sp_mlhs_list(t: Seq<Token>, p: int, acc: Seq<Item>) -> PRes
    decreases t.len() - p, 3nat,
{
    match sp_mlhs_item(t, p) {
        Ok((x, q)) => {
            let q1 = adv(t, q);
            if kind_at(t, q) == TokenKind::tCOMMA && starts_mlhs_item(kind_at(t, q1)) {
                if progress(t, p, q1) {
                    sp_mlhs_list(t, q1, acc + x)
                } else {
                    errp(stall(t, q1))
                }
            } else {
                okp(acc + x, q)
            }
        },
        Err(e) => Err(e),
    }
}

/// One target: a variable, `*` with an optional variable, or targets in parentheses.
pub open spec fn sp_mlhs_item(t: Seq<Token>, p: int) -> PRes
    decreases t.len() - p, 2nat,
{
    let k = kind_at(t, p);
    if k == TokenKind::tLPAREN {
        sp_mlhs_paren(t, p)
    } else if k == TokenKind::tSTAR {
        let q = adv(t, p);
        if starts_mlhs_node(kind_at(t, q)) {
            match sp_user_variable(t, q) {
                Ok((n, q2)) => okp(wrap(NodeKind::Splat, span(t, p, q2), n), q2),
                Err(e) => Err(e),
            }
        } else {
            okp(leaf(NodeKind::Splat, tok(t, p).loc), q)
        }
    } else if starts_mlhs_node(k) {
        sp_user_variable(t, p)
    } else {
        errp(unexpected(t, p, TokenKind::tIDENTIFIER, true))
    }
}

/// Targets in parentheses, always grouped in a `begin`.
pub open spec fn sp_mlhs_paren(t: Seq<Token>, p: int) -> PRes
    decreases t.len() - p, 1nat,
{
    if kind_at(t, p) == TokenKind::tLPAREN {
        match sp_mlhs_list(t, adv(t, p), seq![]) {
            Ok((items, q)) => if kind_at(t, q) == TokenKind::tRPAREN {
                let q2 = adv(t, q);
                okp(wrap(NodeKind::Begin, span(t, p, q2), items), q2)
            } else {
                errp(unexpected(t, q, TokenKind::tRPAREN, false))
            },
            Err(e) => Err(e),
        }
    } else {
        errp(unexpected(t, p, TokenKind::tLPAREN, true))
    }
}

/// The targets of a multiple assignment: one target stands alone, several are grouped
/// in a `begin`.
pub open spec fn sp_mlhs(t: Seq<Token>, p: int) -> PRes {
    match sp_mlhs_item(t, p) {
        Ok((x, q)) => {
            let q1 = adv(t, q);
            if kind_at(t, q) == TokenKind::tCOMMA && starts_mlhs_item(kind_at(t, q1)) {
                match sp_mlhs_list(t, q1, x) {
                    Ok((all, q2)) => okp(wrap(NodeKind::Begin, span(t, p, q2), all), q2),
                    Err(e) => Err(e),
                }
            } else {
                okp(x, q)
            }
        },
        Err(e) => Err(e),
    }
}

// ---------------------------------------------------------------------------
// Destructuring parameters: `(a, *b, (c, d))`.
// ---------------------------------------------------------------------------

pub open spec fn starts_multi(k: TokenKind) -> bool {
    k == TokenKind::tIDENTIFIER || k == TokenKind::tSTAR || k == TokenKind::tLPAREN
}

/// Destructured parameters separated by commas, added to `acc`.
pub open spec fn sp_multi_list(t: Seq<Token>, p: int, acc: Seq<Item>) -> PRes
    decreases t.len() - p, 3nat,
{
    match sp_multi_item(t, p) {
        Ok((x, q)) => {
            let q1 = adv(t, q);
            if kind_at(t, q) == TokenKind::tCOMMA && starts_multi(kind_at(t, q1)) {
                if progress(t, p, q1) {
                    sp_multi_list(t, q1, acc + x)
                } else {
                    errp(stall(t, q1))
                }
            } else {
                okp(acc + x, q)
            }
        },
        Err(e) => Err(e),
    }
}

/// One destructured parameter: a name, `*name`, or a parenthesized group.
pub open spec fn sp_multi_item(t: Seq<Token>, p: int) -> PRes
    decreases t.len() - p, 2nat,
{
    let k = kind_at(t, p);
    if k == TokenKind::tIDENTIFIER {
        okp(named(NodeKind::Arg, tok(t, p).loc, tok(t, p).loc), adv(t, p))
    } else if k == TokenKind::tSTAR {
        sp_rest_param(t, p, TokenKind::tSTAR, NodeKind::Restarg)
    } else if k == TokenKind::tLPAREN {
        sp_multi_paren(t, p)
    } else {
        errp(unexpected(t, p, TokenKind::tIDENTIFIER, true))
    }
}

/// A parenthesized group of destructured parameters.
pub open spec fn sp_multi_paren(t: Seq<Token>, p: int) -> PRes
    decreases t.len() - p, 1nat,
{
    if kind_at(t, p) == TokenKind::tLPAREN {
        match sp_multi_list(t, adv(t, p), seq![]) {
            Ok((items, q)) => if kind_at(t, q) == TokenKind::tRPAREN {
                let q2 = adv(t, q);
                okp(wrap(NodeKind::Mlhs, span(t, p, q2), items), q2)
            } else {
                errp(unexpected(t, q, TokenKind::tRPAREN, false))
            },
            Err(e) => Err(e),
        }
    } else {
        errp(unexpected(t, p, TokenKind::tLPAREN, true))
    }
}

fn starts_mlhs_node_kind(k: TokenKind) -> (r: bool)
    ensures
        r == starts_mlhs_node(k),
{
    k == TokenKind::tIDENTIFIER || k == TokenKind::tIVAR || k == TokenKind::tGVAR || k
        == TokenKind::tCVAR || k == TokenKind::tCONSTANT
}

fn starts_mlhs_item_kind(k: TokenKind) -> (r: bool)
    ensures
        r == starts_mlhs_item(k),
{
    k == TokenKind::tLPAREN || k == TokenKind::tSTAR || starts_mlhs_node_kind(k)
}

fn starts_multi_kind(k: TokenKind) -> (r: bool)
    ensures
        r == starts_multi(k),
{
    k == TokenKind::tIDENTIFIER || k == TokenKind::tSTAR || k == TokenKind::tLPAREN
}

impl Parser {
    /// Whether a comma and then another target come now.
    fn comma_then_mlhs(&self) -> (r: bool)
        requires
            self.wf(),
        ensures
            r == (kind_at(self.tokens@, self.pos as int) == TokenKind::tCOMMA && starts_mlhs_item(
                kind_at(self.tokens@, adv(self.tokens@, self.pos as int)),
            )),
    {
        self.at(TokenKind::tCOMMA) && starts_mlhs_item_kind(self.peek(1))
    }

    /// Whether a comma and then another destructured parameter come now.
    fn comma_then_multi(&self) -> (r: bool)
        requires
            self.wf(),
        ensures
            r == (kind_at(self.tokens@, self.pos as int) == TokenKind::tCOMMA && starts_multi(
                kind_at(self.tokens@, adv(self.tokens@, self.pos as int)),
            )),
    {
        self.at(TokenKind::tCOMMA) && starts_multi_kind(self.peek(1))
    }

    fn parse_mlhs_list(&mut self, acc: Node) -> (r: ParseResult<Node>)
        requires
            old(self).wf(),
        ensures
            final(self).ran(*old(self), r, sp_mlhs_list(old(self).tokens@, old(self).pos as int, acc@)),
            final(self).read_some(*old(self), r),
        decreases old(self).rest(), 3nat,
    {
        let p = self.pos;
        let x = match self.parse_mlhs_item() {
            Ok(x) => x,
            Err(e) => return Err(e),
        };
        let acc2 = concat(acc, x);
        if self.comma_then_mlhs() {
            self.skip_token();
            if p < self.pos {
                self.parse_mlhs_list(acc2)
            } else {
                Err(self.error_here(TokenKind::tEOF, false))
            }
        } else {
            Ok(acc2)
        }
    }

    /// One target of a multiple assignment.
    pub fn parse_mlhs_item(&mut self) -> (r: ParseResult<Node>)
        requires
            old(self).wf(),
        ensures
            final(self).ran(*old(self), r, sp_mlhs_item(old(self).tokens@, old(self).pos as int)),
            final(self).read_some(*old(self), r),
        decreases old(self).rest(), 2nat,
    {
        let k = self.tokens[self.pos].kind;
        if k == TokenKind::tLPAREN {
            self.parse_mlhs_paren()
        } else if k == TokenKind::tSTAR {
            let p = self.pos;
            let star = self.take_token();
            if starts_mlhs_node_kind(self.tokens[self.pos].kind) {
                match self.parse_user_variable() {
                    Ok(n) => Ok(mk_wrap(NodeKind::Splat, self.span_from(p), n)),
                    Err(e) => Err(e),
                }
            } else {
                Ok(mk_leaf(NodeKind::Splat, star.loc))
            }
        } else if starts_mlhs_node_kind(k) {
            self.parse_user_variable()
        } else {
            Err(self.error_here(TokenKind::tIDENTIFIER, true))
        }
    }

    fn parse_mlhs_paren(&mut self) -> (r: ParseResult<Node>)
        requires
            old(self).wf(),
        ensures
            final(self).ran(*old(self), r, sp_mlhs_paren(old(self).tokens@, old(self).pos as int)),
            final(self).read_some(*old(self), r),
        decreases old(self).rest(), 1nat,
    {
        if !self.at(TokenKind::tLPAREN) {
            return Err(self.error_here(TokenKind::tLPAREN, true));
        }
        let p = self.pos;
        self.skip_token();
        let items = match self.parse_mlhs_list(Node::empty()) {
            Ok(n) => n,
            Err(e) => return Err(e),
        };
        if self.at(TokenKind::tRPAREN) {
            self.skip_token();
            Ok(mk_wrap(NodeKind::Begin, self.span_from(p), items))
        } else {
            Err(self.error_here(TokenKind::tRPAREN, false))
        }
    }

    /// The targets of a multiple assignment: `a, b`, `(a, *b), c`, `*`.
    pub fn parse_mlhs(&mut self) -> (r: ParseResult<Node>)
        requires
            old(self).wf(),
        ensures
            final(self).ran(*old(self), r, sp_mlhs(old(self).tokens@, old(self).pos as int)),
            final(self).read_some(*old(self), r),
    {
        let p = self.pos;
        let x = match self.parse_mlhs_item() {
            Ok(x) => x,
            Err(e) => return Err(e),
        };
        if self.comma_then_mlhs() {
            self.skip_token();
            match self.parse_mlhs_list(x) {
                Ok(all) => Ok(mk_wrap(NodeKind::Begin, self.span_from(p), all)),
                Err(e) => Err(e),
            }
        } else {
            Ok(x)
        }
    }

    fn parse_multi_list(&mut self, acc: Node) -> (r: ParseResult<Node>)
        requires
            old(self).wf(),
        ensures
            final(self).ran(*old(self), r, sp_multi_list(old(self).tokens@, old(self).pos as int, acc@)),
            final(self).read_some(*old(self), r),
        decreases old(self).rest(), 3nat,
    {
        let p = self.pos;
        let x = match self.parse_multi_item() {
            Ok(x) => x,
            Err(e) => return Err(e),
        };
        let acc2 = concat(acc, x);
        if self.comma_then_multi() {
            self.skip_token();
            if p < self.pos {
                self.parse_multi_list(acc2)
            } else {
                Err(self.error_here(TokenKind::tEOF, false))
            }
        } else {
            Ok(acc2)
        }
    }

    fn parse_multi_item(&mut self) -> (r: ParseResult<Node>)
        requires
            old(self).wf(),
        ensures
            final(self).ran(*old(self), r, sp_multi_item(old(self).tokens@, old(self).pos as int)),
            final(self).read_some(*old(self), r),
        decreases old(self).rest(), 2nat,
    {
        let t = self.current_token();
        if t.kind == TokenKind::tIDENTIFIER {
            self.skip_token();
            Ok(mk_named(NodeKind::Arg, t.loc, t.loc))
        } else if t.kind == TokenKind::tSTAR {
            self.parse_rest_param(TokenKind::tSTAR, NodeKind::Restarg)
        } else if t.kind == TokenKind::tLPAREN {
            self.parse_multi_paren()
        } else {
            Err(self.error_here(TokenKind::tIDENTIFIER, true))
        }
    }

    /// A parenthesized group of destructured parameters: `(a, *b, (c, d))`.
    pub fn parse_multi_paren(&mut self) -> (r: ParseResult<Node>)
        requires
            old(self).wf(),
        ensures
            final(self).ran(*old(self), r, sp_multi_paren(old(self).tokens@, old(self).pos as int)),
            final(self).read_some(*old(self), r),
        decreases old(self).rest(), 1nat,
    {
        if !self.at(TokenKind::tLPAREN) {
            return Err(self.error_here(TokenKind::tLPAREN, true));
        }
        let p = self.pos;
        self.skip_token();
        let items = match self.parse_multi_list(Node::empty()) {
            Ok(n) => n,
            Err(e) => return Err(e),
        };
        if self.at(TokenKind::tRPAREN) {
            self.skip_token();
            Ok(mk_wrap(NodeKind::Mlhs, self.span_from(p), items))
        } else {
            Err(self.error_here(TokenKind::tRPAREN, false))
        }
    }
}

} // verus!
