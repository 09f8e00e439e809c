use vstd::prelude::*;
use crate::loc::{spec_join, Loc};
use crate::nodes::{concat, mk_item, mk_named, mk_wrap, named, wrap, Item, Node, NodeKind};
use crate::parser::{adv, err_view, errp, kind_at, okp, tok, unexpected, Captured, CapturedItem, ErrView, PRes, ParseError, ParseResult, Parser};
use crate::parser::grammar::sp_stmts;
use crate::parser::shared::{ahead, lookahead_choice, progress, span, stall, token_text};
use crate::token::{Token, TokenKind};

verus! {

/// The node kind of a number token.
pub open spec fn numeric_kind(k: TokenKind) -> Option<NodeKind> {
    if k == TokenKind::tINTEGER {
        Some(NodeKind::Int)
    } else if k == TokenKind::tFLOAT {
        Some(NodeKind::Float)
    } else if k == TokenKind::tRATIONAL {
        Some(NodeKind::Rational)
    } else if k == TokenKind::tIMAGINARY {
        Some(NodeKind::Complex)
    } else {
        None
    }
}

pub fn numeric_kind_of(k: TokenKind) -> (r: Option<NodeKind>)
    ensures
        r == numeric_kind(k),
{
    if k == TokenKind::tINTEGER {
        Some(NodeKind::Int)
    } else if k == TokenKind::tFLOAT {
        Some(NodeKind::Float)
    } else if k == TokenKind::tRATIONAL {
        Some(NodeKind::Rational)
    } else if k == TokenKind::tIMAGINARY {
        Some(NodeKind::Complex)
    } else {
        None
    }
}

/// The number token kinds, in the order the rule tries them.
pub open spec fn numeric_kinds() -> Seq<TokenKind> {
    seq![TokenKind::tINTEGER, TokenKind::tFLOAT, TokenKind::tRATIONAL, TokenKind::tIMAGINARY]
}

/// `42`, `4.2`, `42r`, `42i`; where no number stands at `p`, a choice named `simple
/// numeric` with a lookahead error for each kind of number.
pub open spec fn sp_simple_numeric(t: Seq<Token>, p: int) -> PRes {
    match numeric_kind(kind_at(t, p)) {
        Some(nk) => okp(named(nk, tok(t, p).loc, tok(t, p).loc), adv(t, p)),
        None => Err(lookahead_choice("simple numeric", numeric_kinds(), t, p)),
    }
}

/// The error of the first alternative of a number, `-` and a number, at `p`.
pub open spec fn minus_numeric_error(t: Seq<Token>, p: int) -> ErrView {
    if kind_at(t, p) == TokenKind::tUMINUS_NUM {
        ErrView::Steps {
            name: "-numeric",
            steps: seq![CapturedItem::Token(tok(t, p))],
            error: Box::new(lookahead_choice("simple numeric", numeric_kinds(), t, adv(t, p))),
        }
    } else {
        ErrView::Steps {
            name: "-numeric",
            steps: seq![],
            error: Box::new(err_view(unexpected(t, p, TokenKind::tUMINUS_NUM, true))),
        }
    }
}

/// A number, possibly negative: `-42`. Where neither alternative reads, a choice named
/// `numeric` with the error of each.
pub open spec fn sp_numeric(t: Seq<Token>, p: int) -> PRes {
    let q = adv(t, p);
    if kind_at(t, p) == TokenKind::tUMINUS_NUM && numeric_kind(kind_at(t, q)) is Some {
        let l = spec_join(tok(t, p).loc, tok(t, q).loc);
        okp(named(numeric_kind(kind_at(t, q)).unwrap(), l, l), adv(t, q))
    } else {
        match sp_simple_numeric(t, p) {
            Ok(x) => Ok(x),
            Err(e) => Err(ErrView::OneOf { name: "numeric", variants: seq![minus_numeric_error(t, p), e] }),
        }
    }
}

/// Tokens that can name a symbol after `:`.
pub open spec fn is_sym_name(k: TokenKind) -> bool {
    k == TokenKind::tIDENTIFIER || k == TokenKind::tCONSTANT || k == TokenKind::tFID || k
        == TokenKind::tIVAR || k == TokenKind::tCVAR || k == TokenKind::tGVAR
}

fn sym_name(k: TokenKind) -> (r: bool)
    ensures
        r == is_sym_name(k),
{
    k == TokenKind::tIDENTIFIER || k == TokenKind::tCONSTANT || k == TokenKind::tFID || k
        == TokenKind::tIVAR || k == TokenKind::tCVAR || k == TokenKind::tGVAR
}

/// `:foo`, `:@foo`, `:@@foo`, `:$foo`.
pub open spec fn sp_simple_symbol(t: Seq<Token>, p: int) -> PRes {
    if kind_at(t, p) == TokenKind::tCOLON {
        let q = adv(t, p);
        if is_sym_name(kind_at(t, q)) {
            okp(
                named(NodeKind::Sym, spec_join(tok(t, p).loc, tok(t, q).loc), tok(t, q).loc),
                adv(t, q),
            )
        } else {
            errp(unexpected(t, q, TokenKind::tIDENTIFIER, false))
        }
    } else {
        errp(unexpected(t, p, TokenKind::tCOLON, true))
    }
}

/// Whether a token starts a part of the body of a quoted literal.
pub open spec fn starts_part(k: TokenKind) -> bool {
    k == TokenKind::tSTRING_CONTENT || k == TokenKind::tSTRING_DVAR || k == TokenKind::tSTRING_DBEG
}

/// The node kind of a variable interpolated with `#`.
pub open spec fn dvar_kind(k: TokenKind) -> Option<NodeKind> {
    if k == TokenKind::tIVAR {
        Some(NodeKind::Ivar)
    } else if k == TokenKind::tGVAR {
        Some(NodeKind::Gvar)
    } else if k == TokenKind::tCVAR {
        Some(NodeKind::Cvar)
    } else if k == TokenKind::tBACK_REF {
        Some(NodeKind::BackRef)
    } else {
        None
    }
}

pub fn dvar_kind_of(k: TokenKind) -> (r: Option<NodeKind>)
    ensures
        r == dvar_kind(k),
{
    if k == TokenKind::tIVAR {
        Some(NodeKind::Ivar)
    } else if k == TokenKind::tGVAR {
        Some(NodeKind::Gvar)
    } else if k == TokenKind::tCVAR {
        Some(NodeKind::Cvar)
    } else if k == TokenKind::tBACK_REF {
        Some(NodeKind::BackRef)
    } else {
        None
    }
}

/// One part of the body of a quoted literal: a run of text, an interpolated variable
/// (`#@foo`), or interpolated statements (`#{...}`), which make a `begin`.
#[verifier::opaque]
pub open spec fn sp_string_part(t: Seq<Token>, p: int) -> PRes
    decreases t.len() - p, 56nat,
{
    let k = kind_at(t, p);
    if k == TokenKind::tSTRING_CONTENT {
        okp(named(NodeKind::Str, tok(t, p).loc, tok(t, p).loc), adv(t, p))
    } else if k == TokenKind::tSTRING_DVAR {
        let q = adv(t, p);
        match dvar_kind(kind_at(t, q)) {
            Some(nk) => okp(named(nk, tok(t, q).loc, tok(t, q).loc), adv(t, q)),
            None => errp(unexpected(t, q, TokenKind::tIVAR, false)),
        }
    } else if k == TokenKind::tSTRING_DBEG {
        match sp_stmts(t, adv(t, p), seq![], 0, Loc { start: 0, end: 0 }, true) {
            Ok((body, q)) => if kind_at(t, q) == TokenKind::tSTRING_DEND {
                let q2 = adv(t, q);
                okp(wrap(NodeKind::Begin, span(t, p, q2), body), q2)
            } else {
                errp(unexpected(t, q, TokenKind::tSTRING_DEND, false))
            },
            Err(e) => Err(e),
        }
    } else {
        errp(unexpected(t, p, TokenKind::tSTRING_CONTENT, true))
    }
}

/// The parts of the body of a quoted literal from `p`, after those in `acc`.
#[verifier::opaque]
pub open spec fn sp_string_parts(t: Seq<Token>, p: int, acc: Seq<Item>) -> PRes
    decreases t.len() - p, 57nat,
{
    if starts_part(kind_at(t, p)) {
        match sp_string_part(t, p) {
            Ok((s, q)) => if progress(t, p, q) {
                sp_string_parts(t, q, acc + s)
            } else {
                errp(stall(t, q))
            },
            Err(e) => Err(e),
        }
    } else {
        okp(acc, p)
    }
}

/// The text of a body read from `q` to `q2`, if it is at most one run of text: an
/// empty body stands right after the opening token `begin`.
pub open spec fn plain_text(t: Seq<Token>, q: int, q2: int, begin: Token) -> Option<Loc> {
    if q2 == q {
        Some(Loc { start: begin.loc.end, end: begin.loc.end })
    } else if kind_at(t, q) == TokenKind::tSTRING_CONTENT && q2 == adv(t, q) {
        Some(tok(t, q).loc)
    } else {
        None
    }
}

/// A quoted literal reaching over `l`: one node of kind `nk` for plain text, otherwise
/// a node of kind `nkd` holding the parts.
pub open spec fn compose(nk: NodeKind, nkd: NodeKind, l: Loc, text: Option<Loc>, parts: Seq<Item>) -> Seq<Item> {
    match text {
        Some(x) => named(nk, l, x),
        None => wrap(nkd, l, parts),
    }
}

/// The body and closing token of a quoted literal opened by `begin`, read from `q`: a
/// node of kind `nk` for plain text, otherwise one of kind `nkd` holding the parts.
#[verifier::opaque]
pub open spec fn sp_quoted_body(t: Seq<Token>, q: int, begin: Token, nk: NodeKind, nkd: NodeKind) -> PRes
    decreases t.len() - q, 58nat,
{
    match sp_string_parts(t, q, seq![]) {
        Ok((parts, q2)) => if kind_at(t, q2) == TokenKind::tSTRING_END {
            okp(
                compose(nk, nkd, spec_join(begin.loc, tok(t, q2).loc), plain_text(t, q, q2, begin), parts),
                adv(t, q2),
            )
        } else {
            errp(unexpected(t, q2, TokenKind::tSTRING_END, false))
        },
        Err(e) => Err(e),
    }
}

/// `:'foo'`, `:"foo"`, `:"foo#{bar}"`.
#[verifier::opaque]
pub open spec fn sp_quoted_symbol(t: Seq<Token>, p: int) -> PRes
    decreases t.len() - p, 59nat,
{
    if kind_at(t, p) == TokenKind::tSYMBEG || kind_at(t, p) == TokenKind::tDSYMBEG {
        sp_quoted_body(t, adv(t, p), tok(t, p), NodeKind::Sym, NodeKind::Dsym)
    } else {
        errp(unexpected(t, p, TokenKind::tSYMBEG, true))
    }
}

/// Any symbol literal.
#[verifier::opaque]
pub open spec fn sp_symbol(t: Seq<Token>, p: int) -> PRes
    decreases t.len() - p, 60nat,
{
    if kind_at(t, p) == TokenKind::tCOLON {
        sp_simple_symbol(t, p)
    } else {
        sp_quoted_symbol(t, p)
    }
}

pub open spec fn is_string_beg(k: TokenKind) -> bool {
    k == TokenKind::tSTRING_BEG || k == TokenKind::tDSTRING_BEG
}

/// One quoted string: `'foo'`, `"foo"`, `"foo#{bar}"`.
#[verifier::opaque]
pub open spec fn sp_string1(t: Seq<Token>, p: int) -> PRes
    decreases t.len() - p, 59nat,
{
    if is_string_beg(kind_at(t, p)) {
        sp_quoted_body(t, adv(t, p), tok(t, p), NodeKind::Str, NodeKind::Dstr)
    } else {
        errp(unexpected(t, p, TokenKind::tSTRING_BEG, true))
    }
}

/// More adjacent strings after `acc`, whose last string stands at `last`; `single`
/// when `acc` holds one string only.
#[verifier::opaque]
pub open spec fn sp_strings_rest(t: Seq<Token>, p: int, acc: Seq<Item>, single: bool, last: Loc) -> PRes
    decreases t.len() - p, 60nat,
{
    if is_string_beg(kind_at(t, p)) {
        match sp_string1(t, p) {
            Ok((s, p2)) => if progress(t, p, p2) {
                sp_strings_rest(t, p2, acc + s, false, loc_of_items(s))
            } else {
                errp(unexpected(t, p, TokenKind::tSTRING_BEG, false))
            },
            Err(e) => Err(e),
        }
    } else if single {
        okp(acc, p)
    } else {
        okp(wrap(NodeKind::Dstr, spec_join(loc_of_items(acc), last), acc), p)
    }
}

pub open spec fn loc_of_items(s: Seq<Item>) -> Loc {
    crate::nodes::loc_of(s)
}

/// One or more adjacent strings; several make one `dstr`.
#[verifier::opaque]
pub open spec fn sp_strings(t: Seq<Token>, p: int) -> PRes
    decreases t.len() - p, 61nat,
{
    match sp_string1(t, p) {
        Ok((s, p2)) => if ahead(t, p, p2) {
            sp_strings_rest(t, p2, s, true, loc_of_items(s))
        } else {
            errp(stall(t, p2))
        },
        Err(e) => Err(e),
    }
}

/// `` `foo` ``, `%x{foo}`, `` `foo #{bar}` ``.
#[verifier::opaque]
pub open spec fn sp_xstring(t: Seq<Token>, p: int) -> PRes
    decreases t.len() - p, 59nat,
{
    if kind_at(t, p) == TokenKind::tXSTRING_BEG {
        match sp_string_parts(t, adv(t, p), seq![]) {
            Ok((parts, q2)) => if kind_at(t, q2) == TokenKind::tSTRING_END {
                okp(wrap(NodeKind::Xstr, spec_join(tok(t, p).loc, tok(t, q2).loc), parts), adv(t, q2))
            } else {
                errp(unexpected(t, q2, TokenKind::tSTRING_END, false))
            },
            Err(e) => Err(e),
        }
    } else {
        errp(unexpected(t, p, TokenKind::tXSTRING_BEG, true))
    }
}

/// The options of a regexp whose closing token is `end` (the letters after the delimiter).
pub open spec fn regopt(end: Token) -> Seq<Item> {
    let l = Loc { start: opts_start(end.loc), end: end.loc.end };
    wrap(NodeKind::RegOpt, l, seq![Item::Opts(l)])
}

/// Where the options start: after the closing delimiter.
pub open spec fn opts_start(l: Loc) -> usize {
    if l.start < l.end {
        (l.start + 1) as usize
    } else {
        l.end
    }
}

/// `/foo/xmi`, `%r{foo}`, `/foo#{bar}/`.
#[verifier::opaque]
pub open spec fn sp_regexp(t: Seq<Token>, p: int) -> PRes
    decreases t.len() - p, 59nat,
{
    if kind_at(t, p) == TokenKind::tREGEXP_BEG {
        match sp_string_parts(t, adv(t, p), seq![]) {
            Ok((parts, q2)) => if kind_at(t, q2) == TokenKind::tSTRING_END {
                okp(
                    wrap(
                        NodeKind::Regexp,
                        spec_join(tok(t, p).loc, tok(t, q2).loc),
                        parts + regopt(tok(t, q2)),
                    ),
                    adv(t, q2),
                )
            } else {
                errp(unexpected(t, q2, TokenKind::tSTRING_END, false))
            },
            Err(e) => Err(e),
        }
    } else {
        errp(unexpected(t, p, TokenKind::tREGEXP_BEG, true))
    }
}

/// Words of a `%w`-style list separated by `tSP`, each a one-string node of kind `nk`.
pub open spec fn sp_word_list(t: Seq<Token>, p: int, acc: Seq<Item>, nk: NodeKind) -> (Seq<Item>, int)
    decreases t.len() - p,
{
    if kind_at(t, p) == TokenKind::tSTRING_CONTENT {
        let acc2 = acc + named(nk, tok(t, p).loc, tok(t, p).loc);
        let q = adv(t, p);
        if kind_at(t, q) == TokenKind::tSP {
            sp_word_list(t, adv(t, q), acc2, nk)
        } else {
            (acc2, q)
        }
    } else {
        (acc, p)
    }
}

/// A `%w`-style list opened by a token of kind `k`, whose words are of kind `nk`.
pub open spec fn sp_word_array(t: Seq<Token>, p: int, k: TokenKind, nk: NodeKind) -> PRes {
    if kind_at(t, p) == k {
        let (items, q) = sp_word_list(t, adv(t, p), seq![], nk);
        if kind_at(t, q) == TokenKind::tSTRING_END {
            okp(wrap(NodeKind::Array, spec_join(tok(t, p).loc, tok(t, q).loc), items), adv(t, q))
        } else {
            errp(unexpected(t, q, TokenKind::tSTRING_END, false))
        }
    } else {
        errp(unexpected(t, p, k, true))
    }
}

/// `?a`: the string of one character.
pub open spec fn sp_char(t: Seq<Token>, p: int) -> PRes {
    if kind_at(t, p) == TokenKind::tCHAR {
        okp(named(NodeKind::Str, tok(t, p).loc, token_text(tok(t, p))), adv(t, p))
    } else {
        errp(unexpected(t, p, TokenKind::tCHAR, true))
    }
}

/// Whether a token starts a literal.
pub open spec fn starts_literal(k: TokenKind) -> bool {
    k == TokenKind::tCHAR || k == TokenKind::tUMINUS_NUM || numeric_kind(k) is Some || k == TokenKind::tCOLON || k
        == TokenKind::tSYMBEG || k == TokenKind::tDSYMBEG || is_string_beg(k) || k
        == TokenKind::tXSTRING_BEG || k == TokenKind::tREGEXP_BEG || k == TokenKind::tWORDS_BEG
        || k == TokenKind::tQWORDS_BEG || k == TokenKind::tSYMBOLS_BEG || k
        == TokenKind::tQSYMBOLS_BEG
}

/// Any literal.
#[verifier::opaque]
pub open spec fn sp_literal(t: Seq<Token>, p: int) -> PRes
    decreases t.len() - p, 62nat,
{
    let k = kind_at(t, p);
    if k == TokenKind::tUMINUS_NUM || numeric_kind(k) is Some {
        sp_numeric(t, p)
    } else if k == TokenKind::tCOLON || k == TokenKind::tSYMBEG || k == TokenKind::tDSYMBEG {
        sp_symbol(t, p)
    } else if is_string_beg(k) {
        sp_strings(t, p)
    } else if k == TokenKind::tCHAR {
        sp_char(t, p)
    } else if k == TokenKind::tXSTRING_BEG {
        sp_xstring(t, p)
    } else if k == TokenKind::tREGEXP_BEG {
        sp_regexp(t, p)
    } else if k == TokenKind::tWORDS_BEG {
        sp_word_array(t, p, k, NodeKind::Str)
    } else if k == TokenKind::tQWORDS_BEG {
        sp_word_array(t, p, k, NodeKind::Str)
    } else if k == TokenKind::tSYMBOLS_BEG {
        sp_word_array(t, p, k, NodeKind::Sym)
    } else if k == TokenKind::tQSYMBOLS_BEG {
        sp_word_array(t, p, k, NodeKind::Sym)
    } else {
        errp(unexpected(t, p, TokenKind::tINTEGER, true))
    }
}

pub fn starts_literal_kind(k: TokenKind) -> (r: bool)
    ensures
        r == starts_literal(k),
{
    k == TokenKind::tCHAR || k == TokenKind::tUMINUS_NUM || numeric_kind_of(k).is_some() || k == TokenKind::tCOLON || k
        == TokenKind::tSYMBEG || k == TokenKind::tDSYMBEG || k == TokenKind::tSTRING_BEG || k
        == TokenKind::tDSTRING_BEG || k == TokenKind::tXSTRING_BEG || k == TokenKind::tREGEXP_BEG
        || k == TokenKind::tWORDS_BEG || k == TokenKind::tQWORDS_BEG || k
        == TokenKind::tSYMBOLS_BEG || k == TokenKind::tQSYMBOLS_BEG
}

impl Parser {
    /// `42`, `4.2`, `42r`, `42i`.
    pub fn try_simple_numeric(&mut self) -> (r: ParseResult<Node>)
        requires
            old(self).wf(),
        ensures
            final(self).ran(*old(self), r, sp_simple_numeric(old(self).tokens@, old(self).pos as int)),
            final(self).read_some(*old(self), r),
            r is Err ==> final(self).pos == old(self).pos,
    {
        let t = self.current_token();
        match numeric_kind_of(t.kind) {
            Some(nk) => {
                self.skip_token();
                Ok(mk_named(nk, t.loc, t.loc))
            },
            None => {
                let kinds: Vec<TokenKind> = vec![
                    TokenKind::tINTEGER,
                    TokenKind::tFLOAT,
                    TokenKind::tRATIONAL,
                    TokenKind::tIMAGINARY,
                ];
                proof {
                    assert(kinds@ =~= numeric_kinds());
                }
                Err(self.lookahead_choice_error("simple numeric", kinds.as_slice()))
            },
        }
    }

    /// A number, possibly negative: `-42`.
    pub fn try_numeric(&mut self) -> (r: ParseResult<Node>)
        requires
            old(self).wf(),
        ensures
            final(self).ran(*old(self), r, sp_numeric(old(self).tokens@, old(self).pos as int)),
            final(self).read_some(*old(self), r),
            r is Err ==> final(self).pos == old(self).pos,
    {
        let checkpoint = self.new_checkpoint();
        let minus_t = self.current_token();
        let first: ParseError = if minus_t.kind == TokenKind::tUMINUS_NUM {
            self.skip_token();
            let t = self.current_token();
            match numeric_kind_of(t.kind) {
                Some(nk) => {
                    self.skip_token();
                    let l = minus_t.loc.join(&t.loc);
                    return Ok(mk_named(nk, l, l));
                },
                None => {
                    let inner = match self.try_simple_numeric() {
                        Ok(_) => {
                            return Err(self.error_here(TokenKind::tINTEGER, false));
                        },
                        Err(e) => e,
                    };
                    let mut items: Vec<CapturedItem> = Vec::new();
                    items.push(CapturedItem::Token(minus_t));
                    ParseError::SeqError { name: "-numeric", steps: Captured { items }, error: Box::new(inner) }
                },
            }
        } else {
            ParseError::SeqError {
                name: "-numeric",
                steps: Captured { items: Vec::new() },
                error: Box::new(ParseError::TokenError {
                    lookahead: true,
                    expected: TokenKind::tUMINUS_NUM,
                    got: minus_t.kind,
                    loc: minus_t.loc,
                }),
            }
        };
        self.restore(checkpoint);
        match self.try_simple_numeric() {
            Ok(n) => Ok(n),
            Err(e) => {
                let mut v: Vec<ParseError> = Vec::new();
                v.push(first);
                v.push(e);
                let r = ParseError::OneOfError { name: "numeric", variants: v };
                proof {
                    assert(err_view(r) is OneOf);
                    assert(err_view(r)->variants =~= seq![err_view(v@[0]), err_view(v@[1])]);
                }
                Err(r)
            },
        }
    }

    /// `:foo`, `:@foo`, `:@@foo`, `:$foo`.
    pub fn parse_simple_symbol(&mut self) -> (r: ParseResult<Node>)
        requires
            old(self).wf(),
        ensures
            final(self).ran(*old(self), r, sp_simple_symbol(old(self).tokens@, old(self).pos as int)),
            final(self).read_some(*old(self), r),
    {
        let colon_t = self.current_token();
        if colon_t.kind != TokenKind::tCOLON {
            return Err(
                ParseError::TokenError {
                    lookahead: true,
                    expected: TokenKind::tCOLON,
                    got: colon_t.kind,
                    loc: colon_t.loc,
                },
            );
        }
        self.skip_token();
        let name_t = self.current_token();
        if sym_name(name_t.kind) {
            self.skip_token();
            Ok(mk_named(NodeKind::Sym, colon_t.loc.join(&name_t.loc), name_t.loc))
        } else {
            Err(
                ParseError::TokenError {
                    lookahead: false,
                    expected: TokenKind::tIDENTIFIER,
                    got: name_t.kind,
                    loc: name_t.loc,
                },
            )
        }
    }

    /// One part of the body of a quoted literal: text, `#@var` or `#{...}`.
    fn parse_string_part(&mut self) -> (r: ParseResult<Node>)
        requires
            old(self).wf(),
        ensures
            final(self).ran(*old(self), r, sp_string_part(old(self).tokens@, old(self).pos as int)),
            final(self).read_some(*old(self), r),
        decreases old(self).rest(), 56nat,
    {
        proof {
            reveal(sp_string_part);
            reveal(sp_stmts);
        }
        let t = self.current_token();
        if t.kind == TokenKind::tSTRING_CONTENT {
            self.skip_token();
            Ok(mk_named(NodeKind::Str, t.loc, t.loc))
        } else if t.kind == TokenKind::tSTRING_DVAR {
            self.skip_token();
            let v = self.current_token();
            match dvar_kind_of(v.kind) {
                Some(nk) => {
                    self.skip_token();
                    Ok(mk_named(nk, v.loc, v.loc))
                },
                None => Err(self.error_here(TokenKind::tIVAR, false)),
            }
        } else if t.kind == TokenKind::tSTRING_DBEG {
            let p = self.pos;
            self.skip_token();
            let body = match self.parse_stmts(Node::empty(), 0, Loc { start: 0, end: 0 }, true) {
                Ok(n) => n,
                Err(e) => return Err(e),
            };
            if !self.at(TokenKind::tSTRING_DEND) {
                return Err(self.error_here(TokenKind::tSTRING_DEND, false));
            }
            self.skip_token();
            Ok(mk_wrap(NodeKind::Begin, self.span_from(p), body))
        } else {
            Err(self.error_here(TokenKind::tSTRING_CONTENT, true))
        }
    }

    /// The parts of the body of a quoted literal, after those in `acc`.
    fn parse_string_parts(&mut self, acc: Node) -> (r: ParseResult<Node>)
        requires
            old(self).wf(),
        ensures
            final(self).ran(*old(self), r, sp_string_parts(old(self).tokens@, old(self).pos as int, acc@)),
        decreases old(self).rest(), 57nat,
    {
        proof {
            reveal(sp_string_parts);
            reveal(sp_string_part);
        }
        let k = self.current_token().kind;
        if k == TokenKind::tSTRING_CONTENT || k == TokenKind::tSTRING_DVAR || k
            == TokenKind::tSTRING_DBEG {
            let p = self.pos;
            match self.parse_string_part() {
                Ok(s) => if p < self.pos {
                    self.parse_string_parts(concat(acc, s))
                } else {
                    Err(self.error_here(TokenKind::tEOF, false))
                },
                Err(e) => Err(e),
            }
        } else {
            Ok(acc)
        }
    }

    /// The body and closing token of a quoted literal opened by `begin`: a node of kind
    /// `nk` for plain text, otherwise one of kind `nkd` holding the parts.
    fn parse_quoted_body(&mut self, begin: Token, nk: NodeKind, nkd: NodeKind) -> (r: ParseResult<Node>)
        requires
            old(self).wf(),
        ensures
            final(self).ran(*old(self), r, sp_quoted_body(old(self).tokens@, old(self).pos as int, begin, nk, nkd)),
            final(self).read_some(*old(self), r),
        decreases old(self).rest(), 58nat,
    {
        proof {
            reveal(sp_quoted_body);
            reveal(sp_string_parts);
        }
        let q = self.pos;
        let first = self.current_token();
        let parts = match self.parse_string_parts(Node::empty()) {
            Ok(n) => n,
            Err(e) => return Err(e),
        };
        let end_t = self.current_token();
        if end_t.kind != TokenKind::tSTRING_END {
            return Err(self.error_here(TokenKind::tSTRING_END, false));
        }
        let q2 = self.pos;
        self.skip_token();
        let l = begin.loc.join(&end_t.loc);
        if q2 == q {
            Ok(mk_named(nk, l, Loc { start: begin.loc.end, end: begin.loc.end }))
        } else if first.kind == TokenKind::tSTRING_CONTENT && q2 == q + 1 {
            Ok(mk_named(nk, l, first.loc))
        } else {
            Ok(mk_wrap(nkd, l, parts))
        }
    }

    /// `:'foo'`, `:"foo"`, `:"foo#{bar}"`.
    pub fn parse_quoted_symbol(&mut self) -> (r: ParseResult<Node>)
        requires
            old(self).wf(),
        ensures
            final(self).ran(*old(self), r, sp_quoted_symbol(old(self).tokens@, old(self).pos as int)),
            final(self).read_some(*old(self), r),
        decreases old(self).rest(), 59nat,
    {
        proof {
            reveal(sp_quoted_symbol);
            reveal(sp_quoted_body);
        }
        let begin = self.current_token();
        if begin.kind == TokenKind::tSYMBEG || begin.kind == TokenKind::tDSYMBEG {
            self.skip_token();
            self.parse_quoted_body(begin, NodeKind::Sym, NodeKind::Dsym)
        } else {
            Err(self.error_here(TokenKind::tSYMBEG, true))
        }
    }

    /// Any symbol literal.
    pub fn parse_symbol(&mut self) -> (r: ParseResult<Node>)
        requires
            old(self).wf(),
        ensures
            final(self).ran(*old(self), r, sp_symbol(old(self).tokens@, old(self).pos as int)),
            final(self).read_some(*old(self), r),
        decreases old(self).rest(), 60nat,
    {
        proof {
            reveal(sp_symbol);
            reveal(sp_quoted_symbol);
        }
        if self.at(TokenKind::tCOLON) {
            self.parse_simple_symbol()
        } else {
            self.parse_quoted_symbol()
        }
    }

    /// One quoted string: `'foo'`, `"foo"`, `"foo#{bar}"`.
    pub fn parse_string1(&mut self) -> (r: ParseResult<Node>)
        requires
            old(self).wf(),
        ensures
            final(self).ran(*old(self), r, sp_string1(old(self).tokens@, old(self).pos as int)),
            final(self).read_some(*old(self), r),
        decreases old(self).rest(), 59nat,
    {
        proof {
            reveal(sp_string1);
            reveal(sp_quoted_body);
        }
        let begin = self.current_token();
        if begin.kind == TokenKind::tSTRING_BEG || begin.kind == TokenKind::tDSTRING_BEG {
            self.skip_token();
            self.parse_quoted_body(begin, NodeKind::Str, NodeKind::Dstr)
        } else {
            Err(self.error_here(TokenKind::tSTRING_BEG, true))
        }
    }

    fn parse_strings_rest(&mut self, acc: Node, single: bool, last: Loc) -> (r: ParseResult<Node>)
        requires
            old(self).wf(),
        ensures
            final(self).ran(*old(self), r, sp_strings_rest(old(self).tokens@, old(self).pos as int, acc@, single, last)),
        decreases old(self).rest(), 60nat,
    {
        proof {
            reveal(sp_strings_rest);
            reveal(sp_string1);
        }
        let k = self.current_token().kind;
        if k == TokenKind::tSTRING_BEG || k == TokenKind::tDSTRING_BEG {
            let p = self.pos;
            match self.parse_string1() {
                Ok(s) => {
                    if p < self.pos {
                        let l = s.loc();
                        self.parse_strings_rest(concat(acc, s), false, l)
                    } else {
                        Err(
                            ParseError::TokenError {
                                lookahead: false,
                                expected: TokenKind::tSTRING_BEG,
                                got: k,
                                loc: self.tokens[p].loc,
                            },
                        )
                    }
                },
                Err(e) => Err(e),
            }
        } else if single {
            Ok(acc)
        } else {
            let l = acc.loc().join(&last);
            Ok(mk_wrap(NodeKind::Dstr, l, acc))
        }
    }

    /// One or more adjacent strings; several make one `dstr`.
    pub fn parse_strings(&mut self) -> (r: ParseResult<Node>)
        requires
            old(self).wf(),
        ensures
            final(self).ran(*old(self), r, sp_strings(old(self).tokens@, old(self).pos as int)),
            final(self).read_some(*old(self), r),
        decreases old(self).rest(), 61nat,
    {
        proof {
            reveal(sp_strings);
            reveal(sp_strings_rest);
            reveal(sp_string1);
        }
        match self.parse_string1() {
            Ok(s) => {
                let l = s.loc();
                self.parse_strings_rest(s, true, l)
            },
            Err(e) => Err(e),
        }
    }

    /// `` `foo` ``, `%x{foo}`, `` `foo #{bar}` ``.
    pub fn parse_xstring(&mut self) -> (r: ParseResult<Node>)
        requires
            old(self).wf(),
        ensures
            final(self).ran(*old(self), r, sp_xstring(old(self).tokens@, old(self).pos as int)),
            final(self).read_some(*old(self), r),
        decreases old(self).rest(), 59nat,
    {
        proof {
            reveal(sp_xstring);
            reveal(sp_string_parts);
        }
        let begin = self.current_token();
        if begin.kind != TokenKind::tXSTRING_BEG {
            return Err(self.error_here(TokenKind::tXSTRING_BEG, true));
        }
        self.skip_token();
        let parts = match self.parse_string_parts(Node::empty()) {
            Ok(n) => n,
            Err(e) => return Err(e),
        };
        let end_t = self.current_token();
        if end_t.kind != TokenKind::tSTRING_END {
            return Err(self.error_here(TokenKind::tSTRING_END, false));
        }
        self.skip_token();
        Ok(mk_wrap(NodeKind::Xstr, begin.loc.join(&end_t.loc), parts))
    }

    /// `/foo/xmi`, `%r{foo}`, `/foo#{bar}/`.
    pub fn parse_regexp(&mut self) -> (r: ParseResult<Node>)
        requires
            old(self).wf(),
        ensures
            final(self).ran(*old(self), r, sp_regexp(old(self).tokens@, old(self).pos as int)),
            final(self).read_some(*old(self), r),
        decreases old(self).rest(), 59nat,
    {
        proof {
            reveal(sp_regexp);
            reveal(sp_string_parts);
        }
        let begin = self.current_token();
        if begin.kind != TokenKind::tREGEXP_BEG {
            return Err(self.error_here(TokenKind::tREGEXP_BEG, true));
        }
        self.skip_token();
        let parts = match self.parse_string_parts(Node::empty()) {
            Ok(n) => n,
            Err(e) => return Err(e),
        };
        let end_t = self.current_token();
        if end_t.kind != TokenKind::tSTRING_END {
            return Err(self.error_here(TokenKind::tSTRING_END, false));
        }
        self.skip_token();
        let s = if end_t.loc.start < end_t.loc.end {
            end_t.loc.start + 1
        } else {
            end_t.loc.end
        };
        let l = Loc { start: s, end: end_t.loc.end };
        let opts = mk_wrap(NodeKind::RegOpt, l, mk_item(Item::Opts(l)));
        Ok(mk_wrap(NodeKind::Regexp, begin.loc.join(&end_t.loc), concat(parts, opts)))
    }

    /// The words of a `%w`-style list, each a one-string node of kind `nk`, added to `acc`.
    fn parse_word_list(&mut self, acc: Node, nk: NodeKind) -> (r: Node)
        requires
            old(self).wf(),
        ensures
            final(self).wf(),
            final(self).same(*old(self)),
            (r@, final(self).pos as int) == sp_word_list(old(self).tokens@, old(self).pos as int, acc@, nk),
            final(self).pos >= old(self).pos,
        decreases old(self).rest(),
    {
        let t = self.current_token();
        if t.kind == TokenKind::tSTRING_CONTENT {
            self.skip_token();
            let acc2 = concat(acc, mk_named(nk, t.loc, t.loc));
            if self.at(TokenKind::tSP) {
                self.skip_token();
                self.parse_word_list(acc2, nk)
            } else {
                acc2
            }
        } else {
            acc
        }
    }

    /// A `%w`-style list opened by a token of kind `k`, whose words are of kind `nk`.
    fn parse_word_array(&mut self, k: TokenKind, nk: NodeKind) -> (r: ParseResult<Node>)
        requires
            old(self).wf(),
        ensures
            final(self).ran(*old(self), r, sp_word_array(old(self).tokens@, old(self).pos as int, k, nk)),
            k != TokenKind::tEOF ==> final(self).read_some(*old(self), r),
    {
        let begin = self.current_token();
        if begin.kind != k {
            return Err(
                ParseError::TokenError { lookahead: true, expected: k, got: begin.kind, loc: begin.loc },
            );
        }
        self.skip_token();
        let items = self.parse_word_list(Node::empty(), nk);
        match self.expect_token(TokenKind::tSTRING_END) {
            Ok(end_t) => Ok(mk_wrap(NodeKind::Array, begin.loc.join(&end_t.loc), items)),
            Err(e) => Err(e),
        }
    }

    /// `%W[foo bar]`.
    pub fn parse_words(&mut self) -> (r: ParseResult<Node>)
        requires
            old(self).wf(),
        ensures
            final(self).ran(*old(self), r, sp_word_array(old(self).tokens@, old(self).pos as int, TokenKind::tWORDS_BEG, NodeKind::Str)),
            final(self).read_some(*old(self), r),
    {
        self.parse_word_array(TokenKind::tWORDS_BEG, NodeKind::Str)
    }

    /// `%w[foo bar]`.
    pub fn parse_qwords(&mut self) -> (r: ParseResult<Node>)
        requires
            old(self).wf(),
        ensures
            final(self).ran(*old(self), r, sp_word_array(old(self).tokens@, old(self).pos as int, TokenKind::tQWORDS_BEG, NodeKind::Str)),
            final(self).read_some(*old(self), r),
    {
        self.parse_word_array(TokenKind::tQWORDS_BEG, NodeKind::Str)
    }

    /// `%I[foo bar]`.
    pub fn parse_symbols(&mut self) -> (r: ParseResult<Node>)
        requires
            old(self).wf(),
        ensures
            final(self).ran(*old(self), r, sp_word_array(old(self).tokens@, old(self).pos as int, TokenKind::tSYMBOLS_BEG, NodeKind::Sym)),
            final(self).read_some(*old(self), r),
    {
        self.parse_word_array(TokenKind::tSYMBOLS_BEG, NodeKind::Sym)
    }

    /// `%i[foo bar]`.
    pub fn parse_qsymbols(&mut self) -> (r: ParseResult<Node>)
        requires
            old(self).wf(),
        ensures
            final(self).ran(*old(self), r, sp_word_array(old(self).tokens@, old(self).pos as int, TokenKind::tQSYMBOLS_BEG, NodeKind::Sym)),
            final(self).read_some(*old(self), r),
    {
        self.parse_word_array(TokenKind::tQSYMBOLS_BEG, NodeKind::Sym)
    }

    /// `?a`: the string of one character.
    pub fn parse_char(&mut self) -> (r: ParseResult<Node>)
        requires
            old(self).wf(),
        ensures
            final(self).ran(*old(self), r, sp_char(old(self).tokens@, old(self).pos as int)),
            final(self).read_some(*old(self), r),
    {
        let t = self.current_token();
        if t.kind == TokenKind::tCHAR {
            self.skip_token();
            let text = match t.value {
                Some(l) => l,
                None => t.loc,
            };
            Ok(mk_named(NodeKind::Str, t.loc, text))
        } else {
            Err(ParseError::TokenError { lookahead: true, expected: TokenKind::tCHAR, got: t.kind, loc: t.loc })
        }
    }

    /// Any literal: a number, symbol, string, command string, regexp or word list.
    pub fn parse_literal(&mut self) -> (r: ParseResult<Node>)
        requires
            old(self).wf(),
        ensures
            final(self).ran(*old(self), r, sp_literal(old(self).tokens@, old(self).pos as int)),
            final(self).read_some(*old(self), r),
        decreases old(self).rest(), 62nat,
    {
        proof {
            reveal(sp_literal);
            reveal(sp_symbol);
            reveal(sp_strings);
            reveal(sp_xstring);
            reveal(sp_regexp);
        }
        let t = self.current_token();
        let k = t.kind;
        if k == TokenKind::tUMINUS_NUM || numeric_kind_of(k).is_some() {
            self.try_numeric()
        } else if k == TokenKind::tCOLON || k == TokenKind::tSYMBEG || k == TokenKind::tDSYMBEG {
            self.parse_symbol()
        } else if k == TokenKind::tSTRING_BEG || k == TokenKind::tDSTRING_BEG {
            self.parse_strings()
        } else if k == TokenKind::tCHAR {
            self.parse_char()
        } else if k == TokenKind::tXSTRING_BEG {
            self.parse_xstring()
        } else if k == TokenKind::tREGEXP_BEG {
            self.parse_regexp()
        } else if k == TokenKind::tWORDS_BEG {
            self.parse_words()
        } else if k == TokenKind::tQWORDS_BEG {
            self.parse_qwords()
        } else if k == TokenKind::tSYMBOLS_BEG {
            self.parse_symbols()
        } else if k == TokenKind::tQSYMBOLS_BEG {
            self.parse_qsymbols()
        } else {
            Err(
                ParseError::TokenError {
                    lookahead: true,
                    expected: TokenKind::tINTEGER,
                    got: k,
                    loc: t.loc,
                },
            )
        }
    }
}

} // verus!
