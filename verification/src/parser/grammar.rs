//! The grammar of Ruby statements and expressions, as specifications.
//!
//! Each rule maps the tokens and a start position to the trees it reads and the position
//! after them, or to an error. The rules call each other recursively; each recursive call
//! either starts further on in the tokens or goes to a rule of lower rank (the second
//! number of each `decreases`). Where a rule goes on at a position that a sub-rule
//! returned, it first checks that the position moved (`progress`, `ahead`), and fails
//! with a `stall` error where it did not.
//!
//! Most rules choose among their alternatives by the next tokens rather than by trying
//! them in turn, and a failed rule reports the error of the alternative it chose. The
//! choices `arg lhs` and `arg head` fail as choices do: with an error that names the
//! choice and lists one error per alternative (see `sp_arg_lhs`, `sp_arg_head`).
//!
//! The rules are opaque: a function that follows a rule reveals that rule and the rules
//! it calls.
use vstd::prelude::*;
use crate::loc::{spec_join, Loc};
use crate::nodes::{kind_of, leaf, loc_of, named, or_nil, wrap, Item, NodeKind};
use crate::parser::literal::{numeric_kind, sp_literal, starts_literal};
use crate::parser::mlhs::{sp_mlhs, sp_multi_paren};
use crate::parser::shared::{
    ahead, assign_kind, assign_node, is_op_asgn, op_assign_node, binary_bp, binary_node, is_fname, is_keyword_cmd, is_term,
    is_var_ref, is_string_node, op_assign_tree, prefix_errors, op_assignable, symbol_kind, token_text, opt_then, prefix_bp, prefix_node, progress, range_kind, retag,
    skip_terms, sp_alias, sp_blockarg, sp_do, sp_global_const, sp_lhs, sp_rest_param, sp_term,
    sp_then, span, stall, starts_arg, starts_item, starts_param, starts_stmt,
};
use crate::parser::variables::{sp_named_token, sp_var_ref};
use crate::parser::{adv, err_view, errp, kind_at, okp, tok, unexpected, ErrView, ParseError, PRes};
use crate::token::{Token, TokenKind};

verus! {

// ---------------------------------------------------------------------------
// Statements.
// ---------------------------------------------------------------------------

/// What a list of statements reads as: with `raw`, the list as it is; otherwise no
/// statement is an absent tree, one stands alone, and several (`n` counts up to two)
/// are grouped in a `begin` reaching to `last`.
pub open spec fn stmts_value(acc: Seq<Item>, n: nat, last: Loc, raw: bool) -> Seq<Item> {
    if raw || n == 1 {
        acc
    } else if n == 0 {
        seq![]
    } else {
        wrap(NodeKind::Begin, spec_join(loc_of(acc), last), acc)
    }
}

/// Statements separated by `;` or newlines, after the `n` statements of `acc`.
#[verifier::opaque]
pub open spec fn sp_stmts(t: Seq<Token>, p: int, acc: Seq<Item>, n: nat, last: Loc, raw: bool) -> PRes
    decreases t.len() - p, 85nat,
{
    let q = skip_terms(t, p);
    if ahead(t, p, q) && starts_stmt(kind_at(t, q)) {
        match sp_stmt(t, q) {
            Ok((s, q2)) => {
                let n2: nat = if n < 2 {
                    n + 1
                } else {
                    2
                };
                if is_term(kind_at(t, q2)) && progress(t, p, q2) {
                    sp_stmts(t, q2, acc + s, n2, loc_of(s), raw)
                } else {
                    okp(stmts_value(acc + s, n2, loc_of(s), raw), q2)
                }
            },
            Err(e) => Err(e),
        }
    } else {
        okp(stmts_value(acc, n, last, raw), q)
    }
}

/// A list of statements: none, one, or several grouped in a `begin`.
#[verifier::opaque]
pub open spec fn sp_compstmt(t: Seq<Token>, p: int) -> PRes
    decreases t.len() - p, 86nat,
{
    sp_stmts(t, p, seq![], 0, Loc { start: 0, end: 0 }, false)
}

/// One statement.
#[verifier::opaque]
pub open spec fn sp_stmt(t: Seq<Token>, p: int) -> PRes
    decreases t.len() - p, 84nat,
{
    let k = kind_at(t, p);
    if k == TokenKind::kALIAS {
        sp_alias(t, p)
    } else if k == TokenKind::klBEGIN {
        sp_exe(t, p, k, NodeKind::Preexe)
    } else if k == TokenKind::klEND {
        sp_exe(t, p, k, NodeKind::Postexe)
    } else {
        sp_expr(t, p)
    }
}

/// `BEGIN { ... }` (with `k` the keyword and `nk` the node kind) or `END { ... }`.
#[verifier::opaque]
pub open spec fn sp_exe(t: Seq<Token>, p: int, k: TokenKind, nk: NodeKind) -> PRes
    decreases t.len() - p, 50nat,
{
    if kind_at(t, p) == k {
        let q = adv(t, p);
        if kind_at(t, q) == TokenKind::tLCURLY {
            match sp_compstmt(t, adv(t, q)) {
                Ok((b, q2)) => if kind_at(t, q2) == TokenKind::tRCURLY {
                    let q3 = adv(t, q2);
                    okp(wrap(nk, span(t, p, q3), b), q3)
                } else {
                    errp(unexpected(t, q2, TokenKind::tRCURLY, false))
                },
                Err(e) => Err(e),
            }
        } else {
            errp(unexpected(t, q, TokenKind::tLCURLY, false))
        }
    } else {
        errp(unexpected(t, p, k, true))
    }
}

/// The body of a class, module or method: statements, `rescue` clauses, an `else` after
/// them, and `ensure`.
#[verifier::opaque]
pub open spec fn sp_bodystmt(t: Seq<Token>, p: int) -> PRes
    decreases t.len() - p, 90nat,
{
    match sp_compstmt(t, p) {
        Ok((b, q)) => if ahead(t, p, q) {
            match sp_rescues(t, q, seq![]) {
                Ok((rs, q1)) => if ahead(t, p, q1) {
                    sp_body_tail(t, q1, b, rs, p)
                } else {
                    errp(stall(t, q1))
                },
                Err(e) => Err(e),
            }
        } else {
            errp(stall(t, q))
        },
        Err(e) => Err(e),
    }
}

/// The rest of a body that started at `s`, at `p`: with the statements `b` and the
/// `rescue` clauses `rs` read, an `else` (only after `rescue`) and `ensure`.
#[verifier::opaque]
pub open spec fn sp_body_tail(t: Seq<Token>, p: int, b: Seq<Item>, rs: Seq<Item>, s: int) -> PRes
    decreases t.len() - p, 88nat,
{
    match sp_rescue_part(t, p, b, rs, s) {
        Ok((inner, q)) => if ahead(t, p, q) {
            sp_ensure_part(t, q, inner, s)
        } else {
            errp(stall(t, q))
        },
        Err(e) => Err(e),
    }
}

/// The statements `b` with their `rescue` clauses `rs` and an `else`, if there are any
/// `rescue` clauses; otherwise `b` alone.
#[verifier::opaque]
pub open spec fn sp_rescue_part(t: Seq<Token>, p: int, b: Seq<Item>, rs: Seq<Item>, s: int) -> PRes
    decreases t.len() - p, 87nat,
{
    if rs.len() > 0 {
        if kind_at(t, p) == TokenKind::kELSE {
            match sp_compstmt(t, adv(t, p)) {
                Ok((e, q)) => okp(
                    wrap(NodeKind::Rescue, span(t, s, q), or_nil(b) + rs + or_nil(e)),
                    q,
                ),
                Err(e) => Err(e),
            }
        } else {
            okp(wrap(NodeKind::Rescue, span(t, s, p), or_nil(b) + rs + seq![Item::Nil]), p)
        }
    } else {
        okp(b, p)
    }
}

/// `inner` with an `ensure` clause, if one comes now.
#[verifier::opaque]
pub open spec fn sp_ensure_part(t: Seq<Token>, p: int, inner: Seq<Item>, s: int) -> PRes
    decreases t.len() - p, 87nat,
{
    if kind_at(t, p) == TokenKind::kENSURE {
        match sp_compstmt(t, adv(t, p)) {
            Ok((en, q)) => okp(
                wrap(NodeKind::Ensure, span(t, s, q), or_nil(inner) + or_nil(en)),
                q,
            ),
            Err(e) => Err(e),
        }
    } else {
        okp(inner, p)
    }
}

/// `rescue` clauses, added to `acc`.
#[verifier::opaque]
pub open spec fn sp_rescues(t: Seq<Token>, p: int, acc: Seq<Item>) -> PRes
    decreases t.len() - p, 89nat,
{
    if kind_at(t, p) == TokenKind::kRESCUE {
        match sp_rescue1(t, p) {
            Ok((r, q)) => if progress(t, p, q) {
                sp_rescues(t, q, acc + r)
            } else {
                errp(stall(t, q))
            },
            Err(e) => Err(e),
        }
    } else {
        okp(acc, p)
    }
}

/// One `rescue` clause: `rescue Foo, Bar => e then ...`.
#[verifier::opaque]
pub open spec fn sp_rescue1(t: Seq<Token>, p: int) -> PRes
    decreases t.len() - p, 83nat,
{
    if kind_at(t, p) == TokenKind::kRESCUE {
        match sp_exc_list(t, adv(t, p)) {
            Ok((ex, q)) => if kind_at(t, q) == TokenKind::tASSOC {
                match sp_lhs(t, adv(t, q)) {
                    Ok((v, q2)) => if progress(t, p, q2) {
                        sp_rescue_rest(t, q2, ex, v, p)
                    } else {
                        errp(stall(t, q2))
                    },
                    Err(e) => Err(e),
                }
            } else if progress(t, p, q) {
                sp_rescue_rest(t, q, ex, seq![], p)
            } else {
                errp(stall(t, q))
            },
            Err(e) => Err(e),
        }
    } else {
        errp(unexpected(t, p, TokenKind::kRESCUE, true))
    }
}

/// The end of a `rescue` clause that started at `s`: an optional `then` and the
/// statements.
#[verifier::opaque]
pub open spec fn sp_rescue_rest(t: Seq<Token>, p: int, ex: Seq<Item>, v: Seq<Item>, s: int) -> PRes
    decreases t.len() - p, 87nat,
{
    let q = opt_then(t, p);
    if ahead(t, p, q) {
        match sp_compstmt(t, q) {
            Ok((b, q2)) => okp(
                wrap(NodeKind::RescueBody, span(t, s, q2), or_nil(ex) + or_nil(v) + or_nil(b)),
                q2,
            ),
            Err(e) => Err(e),
        }
    } else {
        errp(stall(t, q))
    }
}

/// The exception classes of a `rescue` clause, grouped in an `array`; none is an absent
/// tree.
#[verifier::opaque]
pub open spec fn sp_exc_list(t: Seq<Token>, p: int) -> PRes
    decreases t.len() - p, 80nat,
{
    if kind_at(t, p) == TokenKind::tSTAR || starts_arg(kind_at(t, p)) {
        match sp_mrhs_list(t, p, seq![]) {
            Ok((l, q)) => okp(wrap(NodeKind::Array, span(t, p, q), l), q),
            Err(e) => Err(e),
        }
    } else {
        okp(seq![], p)
    }
}

/// Values separated by commas, each possibly `*value`, added to `acc`.
#[verifier::opaque]
pub open spec fn sp_mrhs_list(t: Seq<Token>, p: int, acc: Seq<Item>) -> PRes
    decreases t.len() - p, 72nat,
{
    match sp_mrhs_item(t, p) {
        Ok((x, q)) => {
            let q1 = adv(t, q);
            let k1 = kind_at(t, q1);
            if kind_at(t, q) == TokenKind::tCOMMA && (k1 == TokenKind::tSTAR || starts_arg(k1)) {
                if progress(t, p, q1) {
                    sp_mrhs_list(t, q1, acc + x)
                } else {
                    errp(stall(t, q1))
                }
            } else {
                okp(acc + x, q)
            }
        },
        Err(e) => Err(e),
    }
}

/// A value or `*value`.
#[verifier::opaque]
pub open spec fn sp_mrhs_item(t: Seq<Token>, p: int) -> PRes
    decreases t.len() - p, 71nat,
{
    if kind_at(t, p) == TokenKind::tSTAR {
        sp_splat(t, p, false)
    } else {
        sp_arg(t, p)
    }
}

// ---------------------------------------------------------------------------
// Expressions.
// ---------------------------------------------------------------------------

/// An expression: `not expr`, or operands joined by `and` and `or`.
#[verifier::opaque]
pub open spec fn sp_expr(t: Seq<Token>, p: int) -> PRes
    decreases t.len() - p, 83nat,
{
    if kind_at(t, p) == TokenKind::kNOT {
        let q0 = adv(t, p);
        let q = if kind_at(t, q0) == TokenKind::tNL {
            adv(t, q0)
        } else {
            q0
        };
        if progress(t, p, q) {
            match sp_expr(t, q) {
                Ok((e, q2)) => okp(
                    wrap(NodeKind::Send, spec_join(tok(t, p).loc, loc_of(e)), e + seq![Item::Bang]),
                    q2,
                ),
                Err(e) => Err(e),
            }
        } else {
            errp(stall(t, q))
        }
    } else {
        match sp_arg(t, p) {
            Ok((l, q)) => {
                let k = kind_at(t, q);
                if k == TokenKind::kAND || k == TokenKind::kOR {
                    let q1 = adv(t, q);
                    if progress(t, p, q1) {
                        match sp_expr(t, q1) {
                            Ok((r, q2)) => okp(
                                wrap(
                                    if k == TokenKind::kAND {
                                        NodeKind::And
                                    } else {
                                        NodeKind::Or
                                    },
                                    spec_join(loc_of(l), loc_of(r)),
                                    l + r,
                                ),
                                q2,
                            ),
                            Err(e) => Err(e),
                        }
                    } else {
                        errp(stall(t, q1))
                    }
                } else {
                    okp(l, q)
                }
            },
            Err(e) => Err(e),
        }
    }
}

/// An operand of operators, with all operators.
#[verifier::opaque]
pub open spec fn sp_arg(t: Seq<Token>, p: int) -> PRes
    decreases t.len() - p, 70nat,
{
    sp_arg0(t, p, 0)
}

/// An operand followed by the binary and postfix operators that bind at least as
/// strongly as `min`.
#[verifier::opaque]
pub open spec fn sp_arg0(t: Seq<Token>, p: int, min: u8) -> PRes
    decreases t.len() - p, 69nat,
{
    match sp_arg_lhs(t, p) {
        Ok((l, q)) => if progress(t, p, q) {
            sp_arg_loop(t, q, l, min)
        } else {
            errp(stall(t, q))
        },
        Err(e) => Err(e),
    }
}

/// The error of the prefix operator rule at `p` where no prefix operator stands there.
pub open spec fn prefix_error_view(t: Seq<Token>, p: int) -> ErrView {
    ErrView::OneOf {
        name: "arg prefix operator",
        variants: prefix_errors(t, p).map_values(|e: ParseError| err_view(e)),
    }
}

/// A prefix operator and its operand, or a head: the first of the two that reads; where
/// both fail, a choice named `arg lhs` with the error of each, the parser back where it
/// started.
#[verifier::opaque]
pub open spec fn sp_arg_lhs(t: Seq<Token>, p: int) -> PRes
    decreases t.len() - p, 68nat,
{
    let first = match prefix_bp(kind_at(t, p)) {
        Some(r) => match sp_arg0(t, adv(t, p), r) {
            Ok((rhs, q)) => okp(prefix_node(tok(t, p), rhs), q),
            Err(e) => Err(e),
        },
        None => Err(prefix_error_view(t, p)),
    };
    match first {
        Ok(x) => Ok(x),
        Err(e1) => match sp_arg_head(t, p) {
            Ok(x) => Ok(x),
            Err(e2) => Err(ErrView::OneOf { name: "arg lhs", variants: seq![e1, e2] }),
        },
    }
}

/// The alternatives of `arg_head`, in order: `lhs = value`, `var op= value`, an element,
/// an attribute and a constant each with `op= value`, `::C op= value`, a back reference
/// with `op= value`, `-2 ** x`, four endless method definitions (with and without a
/// `rescue` modifier, on `self` or not), and a primary expression: the kind of token
/// each starts with.
pub open spec fn arg_alt_kind(i: int) -> TokenKind {
    if i == 5 {
        TokenKind::tCOLON2
    } else if i == 6 {
        TokenKind::tBACK_REF
    } else if i == 7 {
        TokenKind::tUMINUS_NUM
    } else if 8 <= i <= 11 {
        TokenKind::kDEF
    } else {
        TokenKind::tIDENTIFIER
    }
}

/// How many alternatives `arg_head` has.
pub open spec fn arg_alt_count() -> int {
    13
}

/// Which alternative of `arg_head` the tokens at `p` lead to: assignments read as the
/// first (or, for `::C = value`, also the first), operator assignments to a variable as
/// the second, `-2 ** x` as the eighth, and everything else through a primary expression
/// as the last, which also reads operator assignments to elements, attributes and
/// constants and, within a primary, method definitions.
pub open spec fn arg_head_choice(t: Seq<Token>, p: int) -> int {
    let k = kind_at(t, p);
    let p1 = adv(t, p);
    let p2 = adv(t, p1);
    if assign_kind(k) is Some && kind_at(t, p1) == TokenKind::tEQL {
        0
    } else if assign_kind(k) is Some && is_op_asgn(kind_at(t, p1)) && kind_at(t, p2)
        == TokenKind::tEQL && tok(t, p1).loc.end == tok(t, p2).loc.start {
        1
    } else if k == TokenKind::tUMINUS_NUM && numeric_kind(kind_at(t, p1)) is Some && kind_at(t, p2)
        == TokenKind::tPOW {
        7
    } else if k == TokenKind::tCOLON2 && kind_at(t, p1) == TokenKind::tCONSTANT && kind_at(t, p2)
        == TokenKind::tEQL {
        0
    } else {
        12
    }
}

/// The errors of the alternatives of `arg_head` at `p` when the one the tokens lead to
/// (the `c`th) failed with `e`: every other one fails on the token at `p` with a
/// lookahead error naming the token it starts with.
pub open spec fn arg_head_errors(t: Seq<Token>, p: int, c: int, e: ErrView) -> Seq<ErrView> {
    Seq::new(
        arg_alt_count() as nat,
        |i: int|
            if i == c {
                e
            } else {
                err_view(unexpected(t, p, arg_alt_kind(i), true))
            },
    )
}

/// An assignment `var = value` or `var op= value`, `-2 ** x`, or a primary expression.
/// The tokens lead to one alternative, which alone is read; where it fails, the rule
/// fails as a choice named `arg head` that lists one error per alternative (see
/// `arg_head_errors`), and the parser goes back to where the rule started.
#[verifier::opaque]
pub open spec fn sp_arg_head(t: Seq<Token>, p: int) -> PRes
    decreases t.len() - p, 67nat,
{
    let k = kind_at(t, p);
    let p1 = adv(t, p);
    let p2 = adv(t, p1);
    let r = if assign_kind(k) is Some && kind_at(t, p1) == TokenKind::tEQL {
            match sp_arg_rhs(t, p2) {
                Ok((rhs, q)) => okp(assign_node(tok(t, p), rhs), q),
                Err(e) => Err(e),
            }
        } else if assign_kind(k) is Some && is_op_asgn(kind_at(t, p1)) && kind_at(t, p2)
            == TokenKind::tEQL && tok(t, p1).loc.end == tok(t, p2).loc.start {
            match sp_arg_rhs(t, adv(t, p2)) {
                Ok((rhs, q)) => okp(op_assign_node(tok(t, p), tok(t, p1), rhs), q),
                Err(e) => Err(e),
            }
        } else if k == TokenKind::tUMINUS_NUM && numeric_kind(kind_at(t, p1)) is Some && kind_at(t, p2)
            == TokenKind::tPOW {
            match sp_arg(t, adv(t, p2)) {
                Ok((rhs, q)) => {
                    let num = named(numeric_kind(kind_at(t, p1)).unwrap(), tok(t, p1).loc, tok(t, p1).loc);
                    let pow = wrap(
                        NodeKind::Send,
                        spec_join(tok(t, p1).loc, loc_of(rhs)),
                        num + seq![Item::Str(tok(t, p2).loc)] + rhs,
                    );
                    okp(
                        wrap(
                            NodeKind::Send,
                            spec_join(tok(t, p).loc, loc_of(rhs)),
                            pow + seq![Item::Suffixed(tok(t, p).loc)],
                        ),
                        q,
                    )
                },
                Err(e) => Err(e),
            }
        } else {
            sp_arg_primary(t, p)
        };
    match r {
        Ok(x) => Ok(x),
        Err(e) => Err(
            ErrView::OneOf { name: "arg head", variants: arg_head_errors(t, p, arg_head_choice(t, p), e) },
        ),
    }
}

/// An assignment to a top-level constant (`::C = 1`); a primary expression, or an
/// operator assignment to it where it is an element (`a[i] += 1`), an attribute
/// (`a.b ||= 1`) or a scoped constant (`A::B += 1`).
#[verifier::opaque]
pub open spec fn sp_arg_primary(t: Seq<Token>, p: int) -> PRes
    decreases t.len() - p, 66nat,
{
    let p1 = adv(t, p);
    let p2 = adv(t, p1);
    if kind_at(t, p) == TokenKind::tCOLON2 && kind_at(t, p1) == TokenKind::tCONSTANT && kind_at(t, p2)
        == TokenKind::tEQL {
        match sp_arg_rhs(t, adv(t, p2)) {
            Ok((rhs, q)) => okp(
                wrap(
                    NodeKind::Casgn,
                    spec_join(tok(t, p).loc, loc_of(rhs)),
                    leaf(NodeKind::Cbase, tok(t, p).loc) + seq![Item::Str(tok(t, p1).loc)] + rhs,
                ),
                q,
            ),
            Err(e) => Err(e),
        }
    } else {
        match sp_primary(t, p) {
            Ok((n, q)) => {
                let q1 = adv(t, q);
                let q2 = adv(t, q1);
                if op_assignable(t, q, n) && is_op_asgn(kind_at(t, q)) && kind_at(t, q1)
                    == TokenKind::tEQL && tok(t, q).loc.end == tok(t, q1).loc.start {
                    if progress(t, p, q2) {
                        match sp_arg_rhs(t, q2) {
                            Ok((rhs, q3)) => okp(op_assign_tree(n, tok(t, q), rhs), q3),
                            Err(e) => Err(e),
                        }
                    } else {
                        errp(stall(t, q2))
                    }
                } else {
                    okp(n, q)
                }
            },
            Err(e) => Err(e),
        }
    }
}

/// `lhs rescue rhs` as a modifier.
pub open spec fn rescue_mod(lhs: Seq<Item>, rescue: Token, rhs: Seq<Item>) -> Seq<Item> {
    wrap(
        NodeKind::Rescue,
        spec_join(loc_of(lhs), loc_of(rhs)),
        lhs + wrap(
            NodeKind::RescueBody,
            spec_join(rescue.loc, loc_of(rhs)),
            seq![Item::Nil, Item::Nil] + rhs,
        ) + seq![Item::Nil],
    )
}

/// The value of an assignment, possibly with a `rescue` modifier.
#[verifier::opaque]
pub open spec fn sp_arg_rhs(t: Seq<Token>, p: int) -> PRes
    decreases t.len() - p, 71nat,
{
    match sp_arg(t, p) {
        Ok((l, q)) => if kind_at(t, q) == TokenKind::kRESCUE {
            let q1 = adv(t, q);
            if progress(t, p, q1) {
                match sp_arg(t, q1) {
                    Ok((r, q2)) => okp(rescue_mod(l, tok(t, q), r), q2),
                    Err(e) => Err(e),
                }
            } else {
                errp(stall(t, q1))
            }
        } else {
            okp(l, q)
        },
        Err(e) => Err(e),
    }
}

/// The operators after the operand `lhs` that bind at least as strongly as `min`. The
/// first operator that binds less strongly is not read: the caller, which reads with a
/// lower `min`, goes on from it, so `1 * 2 + 3` reads as `(1 * 2) + 3`.
#[verifier::opaque]
pub open spec fn sp_arg_loop(t: Seq<Token>, p: int, lhs: Seq<Item>, min: u8) -> PRes
    decreases t.len() - p, 66nat,
{
    let k = kind_at(t, p);
    let op = tok(t, p);
    let q = adv(t, p);
    match binary_bp(k) {
        None => okp(lhs, p),
        Some((l, r)) => if l < min {
            okp(lhs, p)
        } else if k == TokenKind::tEH {
            match sp_arg0(t, q, 0) {
                Ok((m, q2)) => if kind_at(t, q2) == TokenKind::tCOLON {
                    let q3 = adv(t, q2);
                    if progress(t, p, q3) {
                        match sp_arg0(t, q3, r) {
                            Ok((rhs, q4)) => if progress(t, p, q4) {
                                sp_arg_loop(
                                    t,
                                    q4,
                                    wrap(
                                        NodeKind::If,
                                        spec_join(loc_of(lhs), loc_of(rhs)),
                                        lhs + m + rhs,
                                    ),
                                    min,
                                )
                            } else {
                                errp(stall(t, q4))
                            },
                            Err(e) => Err(e),
                        }
                    } else {
                        errp(stall(t, q3))
                    }
                } else {
                    errp(unexpected(t, q2, TokenKind::tCOLON, false))
                },
                Err(e) => Err(e),
            }
        } else if range_kind(k) is Some && !starts_arg(kind_at(t, q)) {
            sp_arg_loop(
                t,
                q,
                wrap(range_kind(k).unwrap(), spec_join(loc_of(lhs), op.loc), lhs + seq![Item::Nil]),
                min,
            )
        } else {
            match sp_arg0(t, q, r) {
                Ok((rhs, q2)) => if progress(t, p, q2) {
                    sp_arg_loop(t, q2, binary_node(op, lhs, rhs), min)
                } else {
                    errp(stall(t, q2))
                },
                Err(e) => Err(e),
            }
        },
    }
}

/// The arguments of a call (possibly none): elements as in an array literal, separated
/// by commas.
#[verifier::opaque]
pub open spec fn sp_call_list(t: Seq<Token>, p: int) -> PRes
    decreases t.len() - p, 77nat,
{
    if starts_item(kind_at(t, p)) {
        sp_item_list(t, p, seq![])
    } else {
        okp(seq![], p)
    }
}

// ---------------------------------------------------------------------------
// Primary expressions.
// ---------------------------------------------------------------------------

/// A primary expression with its `::Const`, `[index]` and `.method(args)` tails.
#[verifier::opaque]
pub open spec fn sp_primary(t: Seq<Token>, p: int) -> PRes
    decreases t.len() - p, 65nat,
{
    match sp_primary_head(t, p) {
        Ok((h, q)) => if progress(t, p, q) {
            sp_primary_tails(t, q, h)
        } else {
            errp(stall(t, q))
        },
        Err(e) => Err(e),
    }
}

/// The `::Const`, `[index]` and `.method(args)` tails after `node`.
#[verifier::opaque]
pub open spec fn sp_primary_tails(t: Seq<Token>, p: int, node: Seq<Item>) -> PRes
    decreases t.len() - p, 64nat,
{
    let k = kind_at(t, p);
    let p1 = adv(t, p);
    let name = tok(t, p1);
    let q = adv(t, p1);
    if k == TokenKind::tCOLON2 && name.kind == TokenKind::tCONSTANT {
        sp_primary_tails(
            t,
            q,
            wrap(NodeKind::Const, spec_join(loc_of(node), name.loc), node + seq![Item::Str(name.loc)]),
        )
    } else if k == TokenKind::tLBRACK {
        match sp_items(t, p1) {
            Ok((args, q2)) => if kind_at(t, q2) == TokenKind::tRBRACK {
                let q3 = adv(t, q2);
                if progress(t, p, q3) {
                    sp_primary_tails(
                        t,
                        q3,
                        wrap(NodeKind::Index, spec_join(loc_of(node), tok(t, q2).loc), node + args),
                    )
                } else {
                    errp(stall(t, q3))
                }
            } else {
                errp(unexpected(t, q2, TokenKind::tRBRACK, false))
            },
            Err(e) => Err(e),
        }
    } else if k == TokenKind::tDOT && is_fname(name.kind) {
        if kind_at(t, q) == TokenKind::tLPAREN {
            match sp_call_list(t, adv(t, q)) {
                Ok((args, q2)) => if kind_at(t, q2) == TokenKind::tRPAREN {
                    let q3 = adv(t, q2);
                    if progress(t, p, q3) {
                        sp_primary_tails(
                            t,
                            q3,
                            wrap(
                                NodeKind::Send,
                                spec_join(loc_of(node), tok(t, q2).loc),
                                node + seq![Item::Str(name.loc)] + args,
                            ),
                        )
                    } else {
                        errp(stall(t, q3))
                    }
                } else {
                    errp(unexpected(t, q2, TokenKind::tRPAREN, false))
                },
                Err(e) => Err(e),
            }
        } else {
            sp_primary_tails(
                t,
                q,
                wrap(NodeKind::Send, spec_join(loc_of(node), name.loc), node + seq![Item::Str(name.loc)]),
            )
        }
    } else {
        okp(node, p)
    }
}

/// The start of a primary expression, chosen by its first token.
#[verifier::opaque]
pub open spec fn sp_primary_head(t: Seq<Token>, p: int) -> PRes
    decreases t.len() - p, 63nat,
{
    let k = kind_at(t, p);
    if starts_literal(k) {
        sp_literal(t, p)
    } else if k == TokenKind::tLBRACK {
        sp_array(t, p)
    } else if k == TokenKind::tLCURLY {
        sp_hash(t, p)
    } else if k == TokenKind::tFID || (k == TokenKind::tIDENTIFIER && kind_at(t, adv(t, p))
        == TokenKind::tLPAREN) {
        sp_method_call(t, p)
    } else if is_var_ref(k) {
        sp_var_ref(t, p)
    } else if k == TokenKind::tBACK_REF {
        sp_named_token(t, p, k, NodeKind::BackRef)
    } else if k == TokenKind::tNTH_REF {
        sp_named_token(t, p, k, NodeKind::NthRef)
    } else if k == TokenKind::tLPAREN {
        sp_paren(t, p)
    } else if k == TokenKind::tCOLON2 {
        sp_global_const(t, p)
    } else if k == TokenKind::kIF {
        sp_if(t, p)
    } else if k == TokenKind::kUNLESS {
        sp_unless(t, p)
    } else if k == TokenKind::kFOR {
        sp_for(t, p)
    } else if k == TokenKind::kCLASS {
        sp_class(t, p)
    } else if k == TokenKind::kMODULE {
        sp_module(t, p)
    } else if k == TokenKind::kDEF {
        sp_def(t, p)
    } else if is_keyword_cmd(k) {
        sp_keyword_cmd(t, p)
    } else {
        errp(unexpected(t, p, TokenKind::tIDENTIFIER, true))
    }
}

/// A call of a method with no receiver: `foo(args)`, `foo?`.
#[verifier::opaque]
pub open spec fn sp_method_call(t: Seq<Token>, p: int) -> PRes
    decreases t.len() - p, 50nat,
{
    let name = tok(t, p).loc;
    let q = adv(t, p);
    if !(kind_at(t, p) == TokenKind::tIDENTIFIER || kind_at(t, p) == TokenKind::tFID) {
        errp(unexpected(t, p, TokenKind::tIDENTIFIER, true))
    } else if kind_at(t, q) == TokenKind::tLPAREN {
        match sp_call_list(t, adv(t, q)) {
            Ok((args, q2)) => if kind_at(t, q2) == TokenKind::tRPAREN {
                let q3 = adv(t, q2);
                okp(wrap(NodeKind::Send, span(t, p, q3), seq![Item::Nil, Item::Str(name)] + args), q3)
            } else {
                errp(unexpected(t, q2, TokenKind::tRPAREN, false))
            },
            Err(e) => Err(e),
        }
    } else {
        okp(wrap(NodeKind::Send, name, seq![Item::Nil, Item::Str(name)]), q)
    }
}

/// Statements in parentheses, grouped in a `begin`.
#[verifier::opaque]
pub open spec fn sp_paren(t: Seq<Token>, p: int) -> PRes
    decreases t.len() - p, 50nat,
{
    if kind_at(t, p) == TokenKind::tLPAREN {
        match sp_stmts(t, adv(t, p), seq![], 0, Loc { start: 0, end: 0 }, true) {
            Ok((body, q)) => if kind_at(t, q) == TokenKind::tRPAREN {
                let q2 = adv(t, q);
                okp(wrap(NodeKind::Begin, span(t, p, q2), body), q2)
            } else {
                errp(unexpected(t, q, TokenKind::tRPAREN, false))
            },
            Err(e) => Err(e),
        }
    } else {
        errp(unexpected(t, p, TokenKind::tLPAREN, true))
    }
}

/// An array literal: `[1, *a, b => c]`.
#[verifier::opaque]
pub open spec fn sp_array(t: Seq<Token>, p: int) -> PRes
    decreases t.len() - p, 50nat,
{
    if kind_at(t, p) == TokenKind::tLBRACK {
        match sp_items(t, adv(t, p)) {
            Ok((its, q)) => {
                let q2 = if kind_at(t, q) == TokenKind::tCOMMA {
                    adv(t, q)
                } else {
                    q
                };
                if kind_at(t, q2) == TokenKind::tRBRACK {
                    let q3 = adv(t, q2);
                    okp(wrap(NodeKind::Array, span(t, p, q3), its), q3)
                } else {
                    errp(unexpected(t, q2, TokenKind::tRBRACK, false))
                }
            },
            Err(e) => Err(e),
        }
    } else {
        errp(unexpected(t, p, TokenKind::tLBRACK, true))
    }
}

/// The elements of an array literal (possibly none).
#[verifier::opaque]
pub open spec fn sp_items(t: Seq<Token>, p: int) -> PRes
    decreases t.len() - p, 76nat,
{
    if starts_item(kind_at(t, p)) {
        sp_item_list(t, p, seq![])
    } else {
        okp(seq![], p)
    }
}

/// Array elements separated by commas, added to `acc`.
#[verifier::opaque]
pub open spec fn sp_item_list(t: Seq<Token>, p: int, acc: Seq<Item>) -> PRes
    decreases t.len() - p, 75nat,
{
    match sp_item(t, p) {
        Ok((x, q)) => {
            let q1 = adv(t, q);
            if kind_at(t, q) == TokenKind::tCOMMA && starts_item(kind_at(t, q1)) {
                if progress(t, p, q1) {
                    sp_item_list(t, q1, acc + x)
                } else {
                    errp(stall(t, q1))
                }
            } else {
                okp(acc + x, q)
            }
        },
        Err(e) => Err(e),
    }
}

/// `*value`, or `**value` when `kw`.
#[verifier::opaque]
pub open spec fn sp_splat(t: Seq<Token>, p: int, kw: bool) -> PRes
    decreases t.len() - p, 50nat,
{
    let k = if kw {
        TokenKind::tDSTAR
    } else {
        TokenKind::tSTAR
    };
    let nk = if kw {
        NodeKind::Kwsplat
    } else {
        NodeKind::Splat
    };
    if kind_at(t, p) == k {
        match sp_arg(t, adv(t, p)) {
            Ok((v, q)) => okp(wrap(nk, span(t, p, q), v), q),
            Err(e) => Err(e),
        }
    } else {
        errp(unexpected(t, p, k, true))
    }
}

/// `key => value` after the key `key` read from `p` to `q` (`=>` at `q`), or
/// `"key": value` (`:` at `q`), which makes the string key a symbol.
#[verifier::opaque]
pub open spec fn sp_pair_value(t: Seq<Token>, p: int, q: int, key: Seq<Item>, quoted: bool) -> PRes
    decreases t.len() - p, 50nat,
{
    let q1 = adv(t, q);
    if progress(t, p, q1) {
        match sp_arg(t, q1) {
            Ok((v, q2)) => okp(
                wrap(
                    NodeKind::Pair,
                    spec_join(loc_of(key), loc_of(v)),
                    (if quoted {
                        retag(key, symbol_kind(key))
                    } else {
                        key
                    }) + v,
                ),
                q2,
            ),
            Err(e) => Err(e),
        }
    } else {
        errp(stall(t, q1))
    }
}

/// One array element: `*a`, `**a`, `key: value`, `key => value`, `"key": value`, or a
/// value.
#[verifier::opaque]
pub open spec fn sp_item(t: Seq<Token>, p: int) -> PRes
    decreases t.len() - p, 74nat,
{
    let k = kind_at(t, p);
    if k == TokenKind::tSTAR {
        sp_splat(t, p, false)
    } else if k == TokenKind::tDSTAR {
        sp_splat(t, p, true)
    } else if k == TokenKind::tLABEL {
        sp_label_pair(t, p, false)
    } else {
        match sp_arg(t, p) {
            Ok((v, q)) => if is_string_node(v) && kind_at(t, q) == TokenKind::tCOLON {
                sp_pair_value(t, p, q, v, true)
            } else if kind_at(t, q) == TokenKind::tASSOC {
                sp_pair_value(t, p, q, v, false)
            } else {
                okp(v, q)
            },
            Err(e) => Err(e),
        }
    }
}

/// `key: value`, or `key:` alone, whose value is the variable `key`. With `full`, the
/// symbol is the label with its colon.
#[verifier::opaque]
pub open spec fn sp_label_pair(t: Seq<Token>, p: int, full: bool) -> PRes
    decreases t.len() - p, 73nat,
{
    let lt = tok(t, p);
    let name = token_text(lt);
    let key = named(NodeKind::Sym, lt.loc, if full {
        lt.loc
    } else {
        name
    });
    let q = adv(t, p);
    if lt.kind != TokenKind::tLABEL {
        errp(unexpected(t, p, TokenKind::tLABEL, true))
    } else if starts_arg(kind_at(t, q)) {
        match sp_arg(t, q) {
            Ok((v, q2)) => okp(wrap(NodeKind::Pair, span(t, p, q2), key + v), q2),
            Err(e) => Err(e),
        }
    } else {
        okp(wrap(NodeKind::Pair, lt.loc, key + named(NodeKind::Lvar, name, name)), q)
    }
}

/// A hash literal: `{ a: 1, :b => 2, **c }`.
#[verifier::opaque]
pub open spec fn sp_hash(t: Seq<Token>, p: int) -> PRes
    decreases t.len() - p, 50nat,
{
    if kind_at(t, p) == TokenKind::tLCURLY {
        match sp_assocs(t, adv(t, p)) {
            Ok((its, q)) => {
                let q2 = if kind_at(t, q) == TokenKind::tCOMMA {
                    adv(t, q)
                } else {
                    q
                };
                if kind_at(t, q2) == TokenKind::tRCURLY {
                    let q3 = adv(t, q2);
                    okp(wrap(NodeKind::Hash, span(t, p, q3), its), q3)
                } else {
                    errp(unexpected(t, q2, TokenKind::tRCURLY, false))
                }
            },
            Err(e) => Err(e),
        }
    } else {
        errp(unexpected(t, p, TokenKind::tLCURLY, true))
    }
}

/// The pairs of a hash literal (possibly none).
#[verifier::opaque]
pub open spec fn sp_assocs(t: Seq<Token>, p: int) -> PRes
    decreases t.len() - p, 76nat,
{
    if starts_item(kind_at(t, p)) {
        sp_assoc_list(t, p, seq![])
    } else {
        okp(seq![], p)
    }
}

/// Hash pairs separated by commas, added to `acc`.
#[verifier::opaque]
pub open spec fn sp_assoc_list(t: Seq<Token>, p: int, acc: Seq<Item>) -> PRes
    decreases t.len() - p, 75nat,
{
    match sp_assoc(t, p) {
        Ok((x, q)) => {
            let q1 = adv(t, q);
            if kind_at(t, q) == TokenKind::tCOMMA && starts_item(kind_at(t, q1)) {
                if progress(t, p, q1) {
                    sp_assoc_list(t, q1, acc + x)
                } else {
                    errp(stall(t, q1))
                }
            } else {
                okp(acc + x, q)
            }
        },
        Err(e) => Err(e),
    }
}

/// One hash pair: `key: value`, `**a`, `key => value` or `"key": value`.
#[verifier::opaque]
pub open spec fn sp_assoc(t: Seq<Token>, p: int) -> PRes
    decreases t.len() - p, 74nat,
{
    let k = kind_at(t, p);
    if k == TokenKind::tLABEL {
        sp_label_pair(t, p, true)
    } else if k == TokenKind::tDSTAR {
        sp_splat(t, p, true)
    } else {
        match sp_arg(t, p) {
            Ok((v, q)) => if is_string_node(v) && kind_at(t, q) == TokenKind::tCOLON {
                sp_pair_value(t, p, q, v, true)
            } else if kind_at(t, q) == TokenKind::tASSOC {
                sp_pair_value(t, p, q, v, false)
            } else {
                errp(unexpected(t, q, TokenKind::tASSOC, false))
            },
            Err(e) => Err(e),
        }
    }
}

// ---------------------------------------------------------------------------
// Conditionals and loops.
// ---------------------------------------------------------------------------

/// `if cond then ... elsif ... else ... end`.
#[verifier::opaque]
pub open spec fn sp_if(t: Seq<Token>, p: int) -> PRes
    decreases t.len() - p, 50nat,
{
    if kind_at(t, p) == TokenKind::kIF {
        match sp_expr(t, adv(t, p)) {
            Ok((c, q1)) => match sp_then(t, q1) {
                Ok((_, q2)) => if progress(t, p, q2) {
                    match sp_compstmt(t, q2) {
                        Ok((b, q3)) => if progress(t, p, q3) {
                            match sp_if_tail(t, q3) {
                                Ok((e, q4)) => if kind_at(t, q4) == TokenKind::kEND {
                                    let q5 = adv(t, q4);
                                    okp(wrap(NodeKind::If, span(t, p, q5), c + or_nil(b) + or_nil(e)), q5)
                                } else {
                                    errp(unexpected(t, q4, TokenKind::kEND, false))
                                },
                                Err(e) => Err(e),
                            }
                        } else {
                            errp(stall(t, q3))
                        },
                        Err(e) => Err(e),
                    }
                } else {
                    errp(stall(t, q2))
                },
                Err(e) => Err(e),
            },
            Err(e) => Err(e),
        }
    } else {
        errp(unexpected(t, p, TokenKind::kIF, true))
    }
}

/// What follows the statements of an `if`: `elsif ...` (a nested `if`), `else ...`, or
/// nothing (an absent tree).
#[verifier::opaque]
pub open spec fn sp_if_tail(t: Seq<Token>, p: int) -> PRes
    decreases t.len() - p, 52nat,
{
    let k = kind_at(t, p);
    if k == TokenKind::kELSIF {
        match sp_expr(t, adv(t, p)) {
            Ok((c, q1)) => match sp_then(t, q1) {
                Ok((_, q2)) => if progress(t, p, q2) {
                    match sp_compstmt(t, q2) {
                        Ok((b, q3)) => if progress(t, p, q3) {
                            match sp_if_tail(t, q3) {
                                Ok((e, q4)) => okp(
                                    wrap(NodeKind::If, span(t, p, q4), c + or_nil(b) + or_nil(e)),
                                    q4,
                                ),
                                Err(e) => Err(e),
                            }
                        } else {
                            errp(stall(t, q3))
                        },
                        Err(e) => Err(e),
                    }
                } else {
                    errp(stall(t, q2))
                },
                Err(e) => Err(e),
            },
            Err(e) => Err(e),
        }
    } else {
        sp_opt_else(t, p)
    }
}

/// `else ...`, or nothing (an absent tree).
#[verifier::opaque]
pub open spec fn sp_opt_else(t: Seq<Token>, p: int) -> PRes
    decreases t.len() - p, 50nat,
{
    if kind_at(t, p) == TokenKind::kELSE {
        sp_compstmt(t, adv(t, p))
    } else {
        okp(seq![], p)
    }
}

/// `unless cond then ... else ... end`, an `if` with its branches swapped.
#[verifier::opaque]
pub open spec fn sp_unless(t: Seq<Token>, p: int) -> PRes
    decreases t.len() - p, 50nat,
{
    if kind_at(t, p) == TokenKind::kUNLESS {
        match sp_expr(t, adv(t, p)) {
            Ok((c, q1)) => match sp_then(t, q1) {
                Ok((_, q2)) => if progress(t, p, q2) {
                    match sp_compstmt(t, q2) {
                        Ok((b, q3)) => if progress(t, p, q3) {
                            match sp_opt_else(t, q3) {
                                Ok((e, q4)) => if kind_at(t, q4) == TokenKind::kEND {
                                    let q5 = adv(t, q4);
                                    okp(wrap(NodeKind::If, span(t, p, q5), c + or_nil(e) + or_nil(b)), q5)
                                } else {
                                    errp(unexpected(t, q4, TokenKind::kEND, false))
                                },
                                Err(e) => Err(e),
                            }
                        } else {
                            errp(stall(t, q3))
                        },
                        Err(e) => Err(e),
                    }
                } else {
                    errp(stall(t, q2))
                },
                Err(e) => Err(e),
            },
            Err(e) => Err(e),
        }
    } else {
        errp(unexpected(t, p, TokenKind::kUNLESS, true))
    }
}

/// `for targets in expr do ... end`.
#[verifier::opaque]
pub open spec fn sp_for(t: Seq<Token>, p: int) -> PRes
    decreases t.len() - p, 50nat,
{
    if kind_at(t, p) == TokenKind::kFOR {
        match sp_mlhs(t, adv(t, p)) {
            Ok((v, q1)) => if kind_at(t, q1) == TokenKind::kIN {
                let q2 = adv(t, q1);
                if progress(t, p, q2) {
                    match sp_expr(t, q2) {
                        Ok((it, q3)) => match sp_do(t, q3) {
                            Ok((_, q4)) => if progress(t, p, q4) {
                                match sp_compstmt(t, q4) {
                                    Ok((b, q5)) => if kind_at(t, q5) == TokenKind::kEND {
                                        let q6 = adv(t, q5);
                                        okp(wrap(NodeKind::For, span(t, p, q6), v + it + or_nil(b)), q6)
                                    } else {
                                        errp(unexpected(t, q5, TokenKind::kEND, false))
                                    },
                                    Err(e) => Err(e),
                                }
                            } else {
                                errp(stall(t, q4))
                            },
                            Err(e) => Err(e),
                        },
                        Err(e) => Err(e),
                    }
                } else {
                    errp(stall(t, q2))
                }
            } else {
                errp(unexpected(t, q1, TokenKind::kIN, false))
            },
            Err(e) => Err(e),
        }
    } else {
        errp(unexpected(t, p, TokenKind::kFOR, true))
    }
}

// ---------------------------------------------------------------------------
// Keyword commands.
// ---------------------------------------------------------------------------

/// The node kind of a keyword that stands alone.
pub open spec fn keyword_leaf_kind(k: TokenKind) -> Option<NodeKind> {
    if k == TokenKind::kBREAK {
        Some(NodeKind::Break)
    } else if k == TokenKind::kNEXT {
        Some(NodeKind::Next)
    } else if k == TokenKind::kREDO {
        Some(NodeKind::Redo)
    } else if k == TokenKind::kRETRY {
        Some(NodeKind::Retry)
    } else if k == TokenKind::kRETURN {
        Some(NodeKind::Return)
    } else {
        None
    }
}

/// `break`, `next`, `redo`, `retry`, `return`, `yield(args)`, `defined?(expr)`.
#[verifier::opaque]
pub open spec fn sp_keyword_cmd(t: Seq<Token>, p: int) -> PRes
    decreases t.len() - p, 51nat,
{
    let k = kind_at(t, p);
    let q = adv(t, p);
    match keyword_leaf_kind(k) {
        Some(nk) => okp(leaf(nk, tok(t, p).loc), q),
        None => if k == TokenKind::kYIELD {
            if kind_at(t, q) == TokenKind::tLPAREN {
                match sp_call_list(t, adv(t, q)) {
                    Ok((args, q2)) => if kind_at(t, q2) == TokenKind::tRPAREN {
                        let q3 = adv(t, q2);
                        okp(wrap(NodeKind::Yield, span(t, p, q3), args), q3)
                    } else {
                        errp(unexpected(t, q2, TokenKind::tRPAREN, false))
                    },
                    Err(e) => Err(e),
                }
            } else if starts_item(kind_at(t, q)) {
                match sp_item_list(t, q, seq![]) {
                    Ok((args, q2)) => okp(wrap(NodeKind::Yield, span(t, p, q2), args), q2),
                    Err(e) => Err(e),
                }
            } else {
                okp(leaf(NodeKind::Yield, tok(t, p).loc), q)
            }
        } else if k == TokenKind::kDEFINED {
            sp_defined(t, p)
        } else {
            errp(unexpected(t, p, TokenKind::kBREAK, true))
        },
    }
}

/// `defined?(expr)`.
#[verifier::opaque]
pub open spec fn sp_defined(t: Seq<Token>, p: int) -> PRes
    decreases t.len() - p, 50nat,
{
    if kind_at(t, p) == TokenKind::kDEFINED {
        let q0 = adv(t, p);
        let q = if kind_at(t, q0) == TokenKind::tNL {
            adv(t, q0)
        } else {
            q0
        };
        if kind_at(t, q) == TokenKind::tLPAREN {
            match sp_expr(t, adv(t, q)) {
                Ok((e, q2)) => if kind_at(t, q2) == TokenKind::tRPAREN {
                    let q3 = adv(t, q2);
                    okp(wrap(NodeKind::Defined, span(t, p, q3), e), q3)
                } else {
                    errp(unexpected(t, q2, TokenKind::tRPAREN, false))
                },
                Err(e) => Err(e),
            }
        } else {
            errp(unexpected(t, q, TokenKind::tLPAREN, false))
        }
    } else {
        errp(unexpected(t, p, TokenKind::kDEFINED, true))
    }
}

// ---------------------------------------------------------------------------
// Definitions.
// ---------------------------------------------------------------------------

/// `< Superclass` and the `;` or newline after it, or nothing.
#[verifier::opaque]
pub open spec fn sp_superclass(t: Seq<Token>, p: int) -> PRes
    decreases t.len() - p, 50nat,
{
    if kind_at(t, p) == TokenKind::tLT {
        match sp_expr(t, adv(t, p)) {
            Ok((s, q)) => match sp_term(t, q) {
                Ok((_, q2)) => okp(s, q2),
                Err(e) => Err(e),
            },
            Err(e) => Err(e),
        }
    } else {
        okp(seq![], p)
    }
}

/// `class Name < Super ... end` or `class << expr ... end`.
#[verifier::opaque]
pub open spec fn sp_class(t: Seq<Token>, p: int) -> PRes
    decreases t.len() - p, 50nat,
{
    let q = adv(t, p);
    if kind_at(t, p) != TokenKind::kCLASS {
        errp(unexpected(t, p, TokenKind::kCLASS, true))
    } else if kind_at(t, q) == TokenKind::tLSHFT {
        match sp_expr(t, adv(t, q)) {
            Ok((e, q1)) => match sp_term(t, q1) {
                Ok((_, q2)) => if progress(t, p, q2) {
                    match sp_bodystmt(t, q2) {
                        Ok((b, q3)) => if kind_at(t, q3) == TokenKind::kEND {
                            let q4 = adv(t, q3);
                            okp(wrap(NodeKind::SClass, span(t, p, q4), e + or_nil(b)), q4)
                        } else {
                            errp(unexpected(t, q3, TokenKind::kEND, false))
                        },
                        Err(e) => Err(e),
                    }
                } else {
                    errp(stall(t, q2))
                },
                Err(e) => Err(e),
            },
            Err(e) => Err(e),
        }
    } else {
        match sp_primary(t, q) {
            Ok((name, q1)) => if progress(t, p, q1) {
                match sp_superclass(t, q1) {
                    Ok((s, q2)) => if progress(t, p, q2) {
                        match sp_bodystmt(t, q2) {
                            Ok((b, q3)) => if kind_at(t, q3) == TokenKind::kEND {
                                let q4 = adv(t, q3);
                                okp(
                                    wrap(NodeKind::Class, span(t, p, q4), name + or_nil(s) + or_nil(b)),
                                    q4,
                                )
                            } else {
                                errp(unexpected(t, q3, TokenKind::kEND, false))
                            },
                            Err(e) => Err(e),
                        }
                    } else {
                        errp(stall(t, q2))
                    },
                    Err(e) => Err(e),
                }
            } else {
                errp(stall(t, q1))
            },
            Err(e) => Err(e),
        }
    }
}

/// `module Name ... end`.
#[verifier::opaque]
pub open spec fn sp_module(t: Seq<Token>, p: int) -> PRes
    decreases t.len() - p, 50nat,
{
    if kind_at(t, p) == TokenKind::kMODULE {
        match sp_primary(t, adv(t, p)) {
            Ok((name, q1)) => if progress(t, p, q1) {
                match sp_bodystmt(t, q1) {
                    Ok((b, q2)) => if kind_at(t, q2) == TokenKind::kEND {
                        let q3 = adv(t, q2);
                        okp(wrap(NodeKind::Module, span(t, p, q3), name + or_nil(b)), q3)
                    } else {
                        errp(unexpected(t, q2, TokenKind::kEND, false))
                    },
                    Err(e) => Err(e),
                }
            } else {
                errp(stall(t, q1))
            },
            Err(e) => Err(e),
        }
    } else {
        errp(unexpected(t, p, TokenKind::kMODULE, true))
    }
}

/// Whether a `def` whose name part starts at `q` defines a singleton method.
pub open spec fn is_singleton_def(t: Seq<Token>, q: int) -> bool {
    let k1 = kind_at(t, q);
    let k2 = kind_at(t, adv(t, q));
    k1 == TokenKind::tLPAREN || (is_var_ref(k1) && (k2 == TokenKind::tDOT || k2
        == TokenKind::tCOLON2))
}

/// `def name(params) ... end`, `def recv.name ... end`, `def name = value`.
#[verifier::opaque]
pub open spec fn sp_def(t: Seq<Token>, p: int) -> PRes
    decreases t.len() - p, 50nat,
{
    let q = adv(t, p);
    if kind_at(t, p) != TokenKind::kDEF {
        errp(unexpected(t, p, TokenKind::kDEF, true))
    } else if is_singleton_def(t, q) {
        match sp_singleton(t, q) {
            Ok((d, q1)) => if kind_at(t, q1) == TokenKind::tDOT || kind_at(t, q1) == TokenKind::tCOLON2 {
                let q2 = adv(t, q1);
                let q3 = adv(t, q2);
                if !is_fname(kind_at(t, q2)) {
                    errp(unexpected(t, q2, TokenKind::tIDENTIFIER, false))
                } else if progress(t, p, q3) {
                    match sp_def_rest(t, q3) {
                        Ok((rest, q4)) => okp(
                            wrap(NodeKind::Defs, span(t, p, q4), d + seq![Item::Str(tok(t, q2).loc)] + rest),
                            q4,
                        ),
                        Err(e) => Err(e),
                    }
                } else {
                    errp(stall(t, q3))
                }
            } else {
                errp(unexpected(t, q1, TokenKind::tDOT, false))
            },
            Err(e) => Err(e),
        }
    } else if is_fname(kind_at(t, q)) {
        match sp_def_rest(t, adv(t, q)) {
            Ok((rest, q4)) => okp(
                wrap(NodeKind::Def, span(t, p, q4), seq![Item::Str(tok(t, q).loc)] + rest),
                q4,
            ),
            Err(e) => Err(e),
        }
    } else {
        errp(unexpected(t, q, TokenKind::tIDENTIFIER, false))
    }
}

/// The receiver of a singleton method: a variable or `(expr)`.
#[verifier::opaque]
pub open spec fn sp_singleton(t: Seq<Token>, p: int) -> PRes
    decreases t.len() - p, 50nat,
{
    if kind_at(t, p) == TokenKind::tLPAREN {
        match sp_expr(t, adv(t, p)) {
            Ok((e, q)) => if kind_at(t, q) == TokenKind::tRPAREN {
                okp(e, adv(t, q))
            } else {
                errp(unexpected(t, q, TokenKind::tRPAREN, false))
            },
            Err(e) => Err(e),
        }
    } else {
        sp_var_ref(t, p)
    }
}

/// The parameters and body of a method: `(params)` or bare params and a `;` or
/// newline (an `args` node) or no parameters (`nil`), then the body.
#[verifier::opaque]
pub open spec fn sp_def_rest(t: Seq<Token>, p: int) -> PRes
    decreases t.len() - p, 95nat,
{
    let k = kind_at(t, p);
    if k == TokenKind::tLPAREN {
        match sp_params(t, adv(t, p)) {
            Ok((ps, q)) => if kind_at(t, q) == TokenKind::tRPAREN {
                let q2 = adv(t, q);
                if ahead(t, p, q2) {
                    sp_def_body(t, q2, wrap(NodeKind::Args, span(t, p, q2), ps))
                } else {
                    errp(stall(t, q2))
                }
            } else {
                errp(unexpected(t, q, TokenKind::tRPAREN, false))
            },
            Err(e) => Err(e),
        }
    } else if starts_param(k) {
        match sp_params(t, p) {
            Ok((ps, q)) => match sp_term(t, q) {
                Ok((_, q2)) => if ahead(t, p, q2) {
                    sp_def_body(t, q2, wrap(NodeKind::Args, span(t, p, q), ps))
                } else {
                    errp(stall(t, q2))
                },
                Err(e) => Err(e),
            },
            Err(e) => Err(e),
        }
    } else {
        sp_def_body(t, p, seq![Item::Nil])
    }
}

/// The body of a method after its parameters `args`: `= value`, or statements and `end`.
#[verifier::opaque]
pub open spec fn sp_def_body(t: Seq<Token>, p: int, args: Seq<Item>) -> PRes
    decreases t.len() - p, 94nat,
{
    if kind_at(t, p) == TokenKind::tEQL {
        match sp_arg_rhs(t, adv(t, p)) {
            Ok((b, q)) => okp(args + b, q),
            Err(e) => Err(e),
        }
    } else {
        match sp_bodystmt(t, p) {
            Ok((b, q)) => if kind_at(t, q) == TokenKind::kEND {
                okp(args + or_nil(b), adv(t, q))
            } else {
                errp(unexpected(t, q, TokenKind::kEND, false))
            },
            Err(e) => Err(e),
        }
    }
}

/// Method parameters (possibly none).
#[verifier::opaque]
pub open spec fn sp_params(t: Seq<Token>, p: int) -> PRes
    decreases t.len() - p, 81nat,
{
    if starts_param(kind_at(t, p)) {
        sp_param_list(t, p, seq![])
    } else {
        okp(seq![], p)
    }
}

/// Parameters separated by commas, added to `acc`.
#[verifier::opaque]
pub open spec fn sp_param_list(t: Seq<Token>, p: int, acc: Seq<Item>) -> PRes
    decreases t.len() - p, 80nat,
{
    match sp_param(t, p) {
        Ok((x, q)) => {
            let q1 = adv(t, q);
            if kind_at(t, q) == TokenKind::tCOMMA && starts_param(kind_at(t, q1)) {
                if progress(t, p, q1) {
                    sp_param_list(t, q1, acc + x)
                } else {
                    errp(stall(t, q1))
                }
            } else {
                okp(acc + x, q)
            }
        },
        Err(e) => Err(e),
    }
}

/// One parameter: `a`, `a = 1`, `*a`, `a:`, `a: 1`, `**a`, `&a`, `(a, b)`.
#[verifier::opaque]
pub open spec fn sp_param(t: Seq<Token>, p: int) -> PRes
    decreases t.len() - p, 79nat,
{
    let k = kind_at(t, p);
    let pt = tok(t, p);
    let q = adv(t, p);
    if k == TokenKind::tSTAR {
        sp_rest_param(t, p, k, NodeKind::Restarg)
    } else if k == TokenKind::tDSTAR {
        sp_rest_param(t, p, k, NodeKind::Kwrestarg)
    } else if k == TokenKind::tAMPER {
        sp_blockarg(t, p)
    } else if k == TokenKind::tLPAREN {
        sp_multi_paren(t, p)
    } else if k == TokenKind::tIDENTIFIER {
        if kind_at(t, q) == TokenKind::tEQL {
            match sp_arg(t, adv(t, q)) {
                Ok((v, q2)) => okp(
                    wrap(NodeKind::Optarg, span(t, p, q2), seq![Item::Str(pt.loc)] + v),
                    q2,
                ),
                Err(e) => Err(e),
            }
        } else {
            okp(named(NodeKind::Arg, pt.loc, pt.loc), q)
        }
    } else if k == TokenKind::tLABEL {
        let name = token_text(pt);
        if starts_arg(kind_at(t, q)) {
            match sp_arg(t, q) {
                Ok((v, q2)) => okp(
                    wrap(NodeKind::Kwoptarg, span(t, p, q2), seq![Item::Str(name)] + v),
                    q2,
                ),
                Err(e) => Err(e),
            }
        } else {
            okp(named(NodeKind::Kwarg, pt.loc, name), q)
        }
    } else {
        errp(unexpected(t, p, TokenKind::tIDENTIFIER, true))
    }
}

// ---------------------------------------------------------------------------
// Programs.
// ---------------------------------------------------------------------------

/// A whole program: statements up to the end of input.
pub open spec fn sp_program(t: Seq<Token>, p: int) -> PRes {
    match sp_compstmt(t, p) {
        Ok((b, q)) => if kind_at(t, q) == TokenKind::tEOF {
            okp(b, q)
        } else {
            errp(unexpected(t, q, TokenKind::tEOF, false))
        },
        Err(e) => Err(e),
    }
}

} // verus!

verus! {

/// A local variable operand `x` at `p`, followed by an operator or the end of input: the
/// operand is read as a local variable and the loop over operators goes on after it.
proof fn lemma_variable_primary(t: Seq<Token>, p: int)
    requires
        0 <= p,
        p + 1 < t.len(),
        t[p].kind == TokenKind::tIDENTIFIER,
        crate::parser::shared::operator_level(t[p + 1].kind) is Some || t[p + 1].kind
            == TokenKind::tEOF,
        t[p + 1].kind == TokenKind::tEOF || (p + 2 < t.len() && t[p + 2].kind
            != TokenKind::tEQL),
    ensures
        sp_arg_primary(t, p) == okp(named(NodeKind::Lvar, t[p].loc, t[p].loc), p + 1),
{
    let x = named(NodeKind::Lvar, t[p].loc, t[p].loc);
    assert(kind_at(t, p) == TokenKind::tIDENTIFIER);
    assert(adv(t, p) == p + 1);
    assert(sp_primary_head(t, p) == okp(x, p + 1)) by {
        reveal(sp_primary_head);
    }
    assert(sp_primary_tails(t, p + 1, x) == okp(x, p + 1)) by {
        reveal(sp_primary_tails);
    }
    assert(sp_primary(t, p) == okp(x, p + 1)) by {
        reveal(sp_primary);
    }
    assert(sp_arg_primary(t, p) == okp(x, p + 1)) by {
        reveal(sp_arg_primary);
    }
}

#[verifier::spinoff_prover]
proof fn lemma_variable_head(t: Seq<Token>, p: int)
    requires
        0 <= p,
        p + 1 < t.len(),
        t[p].kind == TokenKind::tIDENTIFIER,
        crate::parser::shared::operator_level(t[p + 1].kind) is Some || t[p + 1].kind
            == TokenKind::tEOF,
        t[p + 1].kind == TokenKind::tEOF || (p + 2 < t.len() && t[p + 2].kind
            != TokenKind::tEQL),
    ensures
        sp_arg_head(t, p) == okp(named(NodeKind::Lvar, t[p].loc, t[p].loc), p + 1),
{
    lemma_variable_primary(t, p);
    assert(kind_at(t, p) == TokenKind::tIDENTIFIER);
    assert(kind_at(t, p + 1) != TokenKind::tEQL);
    reveal(sp_arg_head);
    reveal(sp_arg_primary);
}

/// A local variable operand `x` at `p`, followed by an operator or the end of input: the
/// operand is read as a local variable and the loop over operators goes on after it.
#[verifier::spinoff_prover]
proof fn lemma_variable_operand(t: Seq<Token>, p: int, min: u8)
    requires
        0 <= p,
        p + 1 < t.len(),
        t[p].kind == TokenKind::tIDENTIFIER,
        crate::parser::shared::operator_level(t[p + 1].kind) is Some || t[p + 1].kind
            == TokenKind::tEOF,
        t[p + 1].kind == TokenKind::tEOF || (p + 2 < t.len() && t[p + 2].kind
            != TokenKind::tEQL),
    ensures
        sp_arg0(t, p, min) == sp_arg_loop(t, p + 1, named(NodeKind::Lvar, t[p].loc, t[p].loc), min),
{
    let x = named(NodeKind::Lvar, t[p].loc, t[p].loc);
    lemma_variable_head(t, p);
    assert(kind_at(t, p) == TokenKind::tIDENTIFIER);
    assert(sp_arg_lhs(t, p) == okp(x, p + 1)) by {
        reveal(sp_arg_lhs);
        reveal(sp_arg_head);
    }
    assert(sp_arg0(t, p, min) == sp_arg_loop(t, p + 1, x, min)) by {
        reveal(sp_arg0);
        reveal(sp_arg_lhs);
        reveal(sp_arg_loop);
    }
}

/// The loop over operators stops at the end of input and at an operator that binds
/// less strongly than `min`, keeping what it has read.
proof fn lemma_loop_stop(t: Seq<Token>, p: int, lhs: Seq<Item>, min: u8)
    requires
        0 <= p < t.len(),
        t[p].kind == TokenKind::tEOF || (binary_bp(t[p].kind) is Some && binary_bp(
            t[p].kind,
        ).unwrap().0 < min),
    ensures
        sp_arg_loop(t, p, lhs, min) == okp(lhs, p),
{
    assert(kind_at(t, p) == t[p].kind);
    reveal(sp_arg_loop);
}

/// One binary operator at `p` that binds at least as strongly as `min`, with its right
/// operand read up to `q`: the loop builds the operator's tree and goes on at `q`.
#[verifier::spinoff_prover]
proof fn lemma_loop_step(t: Seq<Token>, p: int, lhs: Seq<Item>, min: u8, rhs: Seq<Item>, q: int)
    requires
        0 <= p,
        p + 1 < t.len(),
        binary_bp(t[p].kind) is Some,
        binary_bp(t[p].kind).unwrap().0 >= min,
        t[p].kind != TokenKind::tEH,
        range_kind(t[p].kind) is None || starts_arg(t[p + 1].kind),
        sp_arg0(t, p + 1, binary_bp(t[p].kind).unwrap().1) == okp(rhs, q),
        p < q <= t.len(),
    ensures
        sp_arg_loop(t, p, lhs, min) == sp_arg_loop(t, q, binary_node(t[p], lhs, rhs), min),
{
    assert(tok(t, p) == t[p]);
    assert(kind_at(t, p) == t[p].kind);
    assert(t[p].kind != TokenKind::tEOF);
    assert(adv(t, p) == p + 1);
    assert(kind_at(t, p + 1) == t[p + 1].kind);
    reveal(sp_arg_loop);
}

/// `a op1 b op2 c` over local variables, for binary operators other than `? :`: the
/// second operator takes `b` first exactly when `takes_from(op1, op2)`, which
/// `law_operator_precedence` settles by Ruby's operator levels. So `a == b && c` is
/// `(a == b) && c` and `a && b == c` is `a && (b == c)`.
pub proof fn law_operator_grouping(t: Seq<Token>)
    requires
        t.len() == 6,
        t[0].kind == TokenKind::tIDENTIFIER,
        t[2].kind == TokenKind::tIDENTIFIER,
        t[4].kind == TokenKind::tIDENTIFIER,
        t[5].kind == TokenKind::tEOF,
        crate::parser::shared::operator_level(t[1].kind) is Some,
        crate::parser::shared::operator_level(t[3].kind) is Some,
        t[1].kind != TokenKind::tEH,
        t[3].kind != TokenKind::tEH,
    ensures
        ({
            let x = named(NodeKind::Lvar, t[0].loc, t[0].loc);
            let y = named(NodeKind::Lvar, t[2].loc, t[2].loc);
            let z = named(NodeKind::Lvar, t[4].loc, t[4].loc);
            sp_arg(t, 0) == okp(
                if crate::parser::shared::takes_from(t[1].kind, t[3].kind) {
                    binary_node(t[1], x, binary_node(t[3], y, z))
                } else {
                    binary_node(t[3], binary_node(t[1], x, y), z)
                },
                5,
            )
        }),
{
    let x = named(NodeKind::Lvar, t[0].loc, t[0].loc);
    let y = named(NodeKind::Lvar, t[2].loc, t[2].loc);
    let z = named(NodeKind::Lvar, t[4].loc, t[4].loc);
    let op1 = t[1];
    let op2 = t[3];
    crate::parser::shared::law_operator_precedence(op1.kind, op2.kind);
    let (l1, r1) = binary_bp(op1.kind).unwrap();
    let (l2, r2) = binary_bp(op2.kind).unwrap();
    assert(starts_arg(t[2].kind));
    assert(starts_arg(t[4].kind));
    assert(sp_arg(t, 0) == sp_arg0(t, 0, 0)) by {
        reveal(sp_arg);
        reveal(sp_arg0);
    }
    lemma_variable_operand(t, 0, 0);
    lemma_variable_operand(t, 2, r1);
    lemma_variable_operand(t, 4, r2);
    lemma_loop_stop(t, 5, z, r2);
    if l2 >= r1 {
        let yz = binary_node(op2, y, z);
        lemma_loop_step(t, 3, y, r1, z, 5);
        lemma_loop_stop(t, 5, yz, r1);
        assert(sp_arg0(t, 2, r1) == okp(yz, 5));
        let all = binary_node(op1, x, yz);
        lemma_loop_step(t, 1, x, 0, yz, 5);
        lemma_loop_stop(t, 5, all, 0);
        assert(sp_arg0(t, 0, 0) == okp(all, 5));
    } else {
        lemma_loop_stop(t, 3, y, r1);
        assert(sp_arg0(t, 2, r1) == okp(y, 3));
        let xy = binary_node(op1, x, y);
        lemma_loop_step(t, 1, x, 0, y, 3);
        lemma_loop_step(t, 3, xy, 0, z, 5);
        let all = binary_node(op2, xy, z);
        lemma_loop_stop(t, 5, all, 0);
        assert(sp_arg0(t, 0, 0) == okp(all, 5));
    }
}

/// Operator assignment to a variable: a local, instance, global or class variable,
/// then an arithmetic, shift or bitwise operator (Ruby's levels from `**` down to `|`
/// and `^`) or `&&` or `||`, written right against `=`, then a value: the head reads
/// `var op= value` as one assignment, so `a -= 1` is `(op_asgn (lvasgn a) - 1)` and
/// `a ||= 1` is `(or_asgn (lvasgn a) 1)`.
#[verifier::spinoff_prover]
pub proof fn law_operator_assignment(t: Seq<Token>, p: int, rhs: Seq<Item>, q: int)
    requires
        0 <= p,
        p + 3 < t.len(),
        t[p].kind == TokenKind::tIDENTIFIER || t[p].kind == TokenKind::tIVAR || t[p].kind
            == TokenKind::tGVAR || t[p].kind == TokenKind::tCVAR,
        crate::parser::shared::operator_level(t[p + 1].kind) is Some,
        crate::parser::shared::operator_level(t[p + 1].kind).unwrap() <= 5
            || t[p + 1].kind == TokenKind::tANDOP || t[p + 1].kind == TokenKind::tOROP,
        t[p + 2].kind == TokenKind::tEQL,
        t[p + 1].loc.end == t[p + 2].loc.start,
        sp_arg_rhs(t, p + 3) == okp(rhs, q),
    ensures
        ({
            let var = t[p].kind;
            let target_kind = if var == TokenKind::tIDENTIFIER {
                NodeKind::Lvasgn
            } else if var == TokenKind::tIVAR {
                NodeKind::Ivasgn
            } else if var == TokenKind::tGVAR {
                NodeKind::Gvasgn
            } else {
                NodeKind::Cvasgn
            };
            let target = named(target_kind, t[p].loc, t[p].loc);
            let l = spec_join(t[p].loc, loc_of(rhs));
            let tree = if t[p + 1].kind == TokenKind::tOROP {
                wrap(NodeKind::OrAsgn, l, target + rhs)
            } else if t[p + 1].kind == TokenKind::tANDOP {
                wrap(NodeKind::AndAsgn, l, target + rhs)
            } else {
                wrap(NodeKind::OpAsgn, l, target + seq![Item::Str(t[p + 1].loc)] + rhs)
            };
            sp_arg_head(t, p) == okp(tree, q)
        }),
{
    assert(tok(t, p) == t[p]);
    assert(tok(t, p + 1) == t[p + 1]);
    assert(tok(t, p + 2) == t[p + 2]);
    assert(adv(t, p) == p + 1);
    assert(adv(t, p + 1) == p + 2);
    assert(adv(t, p + 2) == p + 3);
    assert(kind_at(t, p + 1) != TokenKind::tEQL);
    assert(is_op_asgn(kind_at(t, p + 1)));
    reveal(sp_arg_head);
}

/// Assignment to a variable or a constant: `var = value` is read by the head as one
/// assignment, `a = 1` as `(lvasgn a 1)`, `@a = 1` as `(ivasgn @a 1)` and `A = 1` as
/// `(casgn nil A 1)`.
#[verifier::spinoff_prover]
pub proof fn law_assignment(t: Seq<Token>, p: int, rhs: Seq<Item>, q: int)
    requires
        0 <= p,
        p + 2 < t.len(),
        t[p].kind == TokenKind::tIDENTIFIER || t[p].kind == TokenKind::tIVAR || t[p].kind
            == TokenKind::tGVAR || t[p].kind == TokenKind::tCVAR || t[p].kind
            == TokenKind::tCONSTANT,
        t[p + 1].kind == TokenKind::tEQL,
        sp_arg_rhs(t, p + 2) == okp(rhs, q),
    ensures
        ({
            let var = t[p].kind;
            let l = spec_join(t[p].loc, loc_of(rhs));
            let name = seq![Item::Str(t[p].loc)];
            let tree = if var == TokenKind::tIDENTIFIER {
                wrap(NodeKind::Lvasgn, l, name + rhs)
            } else if var == TokenKind::tIVAR {
                wrap(NodeKind::Ivasgn, l, name + rhs)
            } else if var == TokenKind::tGVAR {
                wrap(NodeKind::Gvasgn, l, name + rhs)
            } else if var == TokenKind::tCVAR {
                wrap(NodeKind::Cvasgn, l, name + rhs)
            } else {
                wrap(NodeKind::Casgn, l, seq![Item::Nil, Item::Str(t[p].loc)] + rhs)
            };
            sp_arg_head(t, p) == okp(tree, q)
        }),
{
    assert(tok(t, p) == t[p]);
    assert(tok(t, p + 1) == t[p + 1]);
    assert(adv(t, p) == p + 1);
    assert(adv(t, p + 1) == p + 2);
    reveal(sp_arg_head);
}

} // verus!
