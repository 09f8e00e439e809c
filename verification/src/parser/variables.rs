use vstd::prelude::*;

use crate::nodes::{leaf, mk_leaf, mk_named, mk_wrap, mk_item, concat, named, wrap, Item, Node, NodeKind};
use crate::parser::{adv, errp, kind_at, okp, tok, unexpected, PRes, ParseError, ParseResult, Parser};
use crate::token::TokenKind;
use crate::parser::shared::lookahead_choice;

verus! {

/// The node kind of a keyword variable token.
pub open spec fn keyword_variable_kind(k: TokenKind) -> Option<NodeKind> {
    if k == TokenKind::kNIL {
        Some(NodeKind::Nil)
    } else if k == TokenKind::kSELF {
        Some(NodeKind::Self_)
    } else if k == TokenKind::kTRUE {
        Some(NodeKind::True)
    } else if k == TokenKind::kFALSE {
        Some(NodeKind::False)
    } else if k == TokenKind::k__FILE__ {
        Some(NodeKind::File)
    } else if k == TokenKind::k__LINE__ {
        Some(NodeKind::Line)
    } else if k == TokenKind::k__ENCODING__ {
        Some(NodeKind::Encoding)
    } else {
        None
    }
}

fn keyword_variable_kind_of(k: TokenKind) -> (r: Option<NodeKind>)
    ensures
        r == keyword_variable_kind(k),
{
    if k == TokenKind::kNIL {
        Some(NodeKind::Nil)
    } else if k == TokenKind::kSELF {
        Some(NodeKind::Self_)
    } else if k == TokenKind::kTRUE {
        Some(NodeKind::True)
    } else if k == TokenKind::kFALSE {
        Some(NodeKind::False)
    } else if k == TokenKind::k__FILE__ {
        Some(NodeKind::File)
    } else if k == TokenKind::k__LINE__ {
        Some(NodeKind::Line)
    } else if k == TokenKind::k__ENCODING__ {
        Some(NodeKind::Encoding)
    } else {
        None
    }
}

/// The node kind of a variable token that names itself (`foo`, `@foo`, `$foo`, `@@foo`).
pub open spec fn plain_variable_kind(k: TokenKind) -> Option<NodeKind> {
    if k == TokenKind::tIDENTIFIER {
        Some(NodeKind::Lvar)
    } else if k == TokenKind::tIVAR {
        Some(NodeKind::Ivar)
    } else if k == TokenKind::tGVAR {
        Some(NodeKind::Gvar)
    } else if k == TokenKind::tCVAR {
        Some(NodeKind::Cvar)
    } else {
        None
    }
}

fn plain_variable_kind_of(k: TokenKind) -> (r: Option<NodeKind>)
    ensures
        r == plain_variable_kind(k),
{
    if k == TokenKind::tIDENTIFIER {
        Some(NodeKind::Lvar)
    } else if k == TokenKind::tIVAR {
        Some(NodeKind::Ivar)
    } else if k == TokenKind::tGVAR {
        Some(NodeKind::Gvar)
    } else if k == TokenKind::tCVAR {
        Some(NodeKind::Cvar)
    } else {
        None
    }
}

/// The keyword variables, in the order the rule tries them.
pub open spec fn keyword_kinds() -> Seq<TokenKind> {
    seq![
        TokenKind::kNIL,
        TokenKind::kSELF,
        TokenKind::kTRUE,
        TokenKind::kFALSE,
        TokenKind::k__FILE__,
        TokenKind::k__LINE__,
        TokenKind::k__ENCODING__,
    ]
}

/// `nil`, `self`, `true`, `false`, `__FILE__`, `__LINE__`, `__ENCODING__`; where none
/// stands at `p`, a choice named `keyword variable` with a lookahead error for each.
pub open spec fn sp_keyword_variable(t: Seq<crate::token::Token>, p: int) -> PRes {
    match keyword_variable_kind(kind_at(t, p)) {
        Some(nk) => okp(leaf(nk, tok(t, p).loc), adv(t, p)),
        None => Err(lookahead_choice("keyword variable", keyword_kinds(), t, p)),
    }
}

/// A constant with no scope: `Foo`.
pub open spec fn const_node(name: crate::loc::Loc) -> Seq<Item> {
    wrap(NodeKind::Const, name, seq![Item::Nil, Item::Str(name)])
}

/// A local, instance, global or class variable, or a constant.
pub open spec fn sp_user_variable(t: Seq<crate::token::Token>, p: int) -> PRes {
    let l = tok(t, p).loc;
    match plain_variable_kind(kind_at(t, p)) {
        Some(nk) => okp(named(nk, l, l), adv(t, p)),
        None => if kind_at(t, p) == TokenKind::tCONSTANT {
            okp(const_node(l), adv(t, p))
        } else {
            errp(unexpected(t, p, TokenKind::tIDENTIFIER, true))
        },
    }
}

/// A variable or a keyword variable.
pub open spec fn sp_var_ref(t: Seq<crate::token::Token>, p: int) -> PRes {
    if keyword_variable_kind(kind_at(t, p)) is Some {
        sp_keyword_variable(t, p)
    } else {
        sp_user_variable(t, p)
    }
}

/// A single token turned into a one-string node of kind `nk`.
pub open spec fn sp_named_token(t: Seq<crate::token::Token>, p: int, k: TokenKind, nk: NodeKind) -> PRes {
    if kind_at(t, p) == k {
        okp(named(nk, tok(t, p).loc, tok(t, p).loc), adv(t, p))
    } else {
        errp(unexpected(t, p, k, true))
    }
}

impl Parser {
    /// `nil`, `self`, `true`, `false`, `__FILE__`, `__LINE__`, `__ENCODING__`.
    pub fn parse_keyword_variable(&mut self) -> (r: ParseResult<Node>)
        requires
            old(self).wf(),
        ensures
            final(self).ran(*old(self), r, sp_keyword_variable(old(self).tokens@, old(self).pos as int)),
            final(self).read_some(*old(self), r),
    {
        let t = self.current_token();
        match keyword_variable_kind_of(t.kind) {
            Some(nk) => {
                self.skip_token();
                Ok(mk_leaf(nk, t.loc))
            },
            None => {
                let kinds: Vec<TokenKind> = vec![
                    TokenKind::kNIL,
                    TokenKind::kSELF,
                    TokenKind::kTRUE,
                    TokenKind::kFALSE,
                    TokenKind::k__FILE__,
                    TokenKind::k__LINE__,
                    TokenKind::k__ENCODING__,
                ];
                proof {
                    assert(kinds@ =~= keyword_kinds());
                }
                Err(self.lookahead_choice_error("keyword variable", kinds.as_slice()))
            },
        }
    }

    /// A local, instance, global or class variable, or a constant.
    pub fn parse_user_variable(&mut self) -> (r: ParseResult<Node>)
        requires
            old(self).wf(),
        ensures
            final(self).ran(*old(self), r, sp_user_variable(old(self).tokens@, old(self).pos as int)),
            final(self).read_some(*old(self), r),
    {
        let t = self.current_token();
        match plain_variable_kind_of(t.kind) {
            Some(nk) => {
                self.skip_token();
                Ok(mk_named(nk, t.loc, t.loc))
            },
            None => if t.kind == TokenKind::tCONSTANT {
                self.skip_token();
                let inner = concat(mk_item(Item::Nil), mk_item(Item::Str(t.loc)));
                proof {
                    assert(inner@ =~= seq![Item::Nil, Item::Str(t.loc)]);
                }
                Ok(mk_wrap(NodeKind::Const, t.loc, inner))
            } else {
                Err(
                    ParseError::TokenError {
                        lookahead: true,
                        expected: TokenKind::tIDENTIFIER,
                        got: t.kind,
                        loc: t.loc,
                    },
                )
            },
        }
    }

    /// A variable or a keyword variable.
    pub fn parse_var_ref(&mut self) -> (r: ParseResult<Node>)
        requires
            old(self).wf(),
        ensures
            final(self).ran(*old(self), r, sp_var_ref(old(self).tokens@, old(self).pos as int)),
            final(self).read_some(*old(self), r),
    {
        let t = self.current_token();
        if keyword_variable_kind_of(t.kind).is_some() {
            self.parse_keyword_variable()
        } else {
            self.parse_user_variable()
        }
    }

    /// A single token of kind `k` turned into a one-string node of kind `nk`.
    pub fn parse_named_token(&mut self, k: TokenKind, nk: NodeKind) -> (r: ParseResult<Node>)
        requires
            old(self).wf(),
        ensures
            final(self).ran(*old(self), r, sp_named_token(old(self).tokens@, old(self).pos as int, k, nk)),
            k != TokenKind::tEOF ==> final(self).read_some(*old(self), r),
    {
        let t = self.current_token();
        if t.kind == k {
            self.skip_token();
            Ok(mk_named(nk, t.loc, t.loc))
        } else {
            Err(ParseError::TokenError { lookahead: true, expected: k, got: t.kind, loc: t.loc })
        }
    }

    /// A global variable: `$foo`.
    pub fn parse_gvar(&mut self) -> (r: ParseResult<Node>)
        requires
            old(self).wf(),
        ensures
            final(self).ran(*old(self), r, sp_named_token(old(self).tokens@, old(self).pos as int, TokenKind::tGVAR, NodeKind::Gvar)),
            final(self).read_some(*old(self), r),
    {
        self.parse_named_token(TokenKind::tGVAR, NodeKind::Gvar)
    }

    /// A back reference: `$&`, `` $` ``, `$'`, `$+`.
    pub fn parse_back_ref(&mut self) -> (r: ParseResult<Node>)
        requires
            old(self).wf(),
        ensures
            final(self).ran(*old(self), r, sp_named_token(old(self).tokens@, old(self).pos as int, TokenKind::tBACK_REF, NodeKind::BackRef)),
            final(self).read_some(*old(self), r),
    {
        self.parse_named_token(TokenKind::tBACK_REF, NodeKind::BackRef)
    }

    /// A numbered reference: `$1`.
    pub fn parse_nth_ref(&mut self) -> (r: ParseResult<Node>)
        requires
            old(self).wf(),
        ensures
            final(self).ran(*old(self), r, sp_named_token(old(self).tokens@, old(self).pos as int, TokenKind::tNTH_REF, NodeKind::NthRef)),
            final(self).read_some(*old(self), r),
    {
        self.parse_named_token(TokenKind::tNTH_REF, NodeKind::NthRef)
    }
}

} // verus!
