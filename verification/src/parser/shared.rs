use vstd::prelude::*;
use crate::loc::{spec_join, Loc};
use crate::nodes::{concat, kind_of, leaf, mk_item, mk_leaf, mk_named, mk_wrap, named, wrap, Item, Node, NodeKind};
use crate::parser::literal::{sp_symbol, starts_literal};
use crate::parser::variables::{keyword_variable_kind, plain_variable_kind, sp_keyword_variable, sp_named_token, sp_user_variable};
use crate::parser::{adv, err_view, errp, kind_at, okp, tok, unexpected, ErrView, PRes, ParseError, ParseResult, Parser};
use crate::token::{Token, TokenKind};

verus! {

// ---------------------------------------------------------------------------
// Positions.
// ---------------------------------------------------------------------------

/// The source range from the token at `p` to the last token before `q`.
pub open spec fn span(t: Seq<Token>, p: int, q: int) -> Loc {
    spec_join(tok(t, p).loc, tok(t, q - 1).loc)
}

/// `q` is strictly after `p` and inside the tokens.
pub open spec fn progress(t: Seq<Token>, p: int, q: int) -> bool {
    p < q <= t.len()
}

/// `q` is not before `p` and inside the tokens.
pub open spec fn ahead(t: Seq<Token>, p: int, q: int) -> bool {
    p <= q <= t.len()
}

/// The error of a rule that would go on at `q` without having read anything.
pub open spec fn stall(t: Seq<Token>, q: int) -> ParseError {
    unexpected(t, q, TokenKind::tEOF, false)
}

// ---------------------------------------------------------------------------
// Which tokens start what.
// ---------------------------------------------------------------------------

/// `;` or a newline.
pub open spec fn is_term(k: TokenKind) -> bool {
    k == TokenKind::tSEMI || k == TokenKind::tNL
}

/// A token that names a variable, a constant or a keyword variable.
pub open spec fn is_var_ref(k: TokenKind) -> bool {
    plain_variable_kind(k) is Some || k == TokenKind::tCONSTANT || keyword_variable_kind(k) is Some
}

/// A token that can be a method name after `def`, `.` or `alias`.
pub open spec fn is_fname(k: TokenKind) -> bool {
    k == TokenKind::tIDENTIFIER || k == TokenKind::tCONSTANT || k == TokenKind::tFID
}

/// A keyword that makes a command of its own.
pub open spec fn is_keyword_cmd(k: TokenKind) -> bool {
    k == TokenKind::kBREAK || k == TokenKind::kNEXT || k == TokenKind::kREDO || k
        == TokenKind::kRETRY || k == TokenKind::kRETURN || k == TokenKind::kYIELD || k
        == TokenKind::kDEFINED
}

/// A token that starts a primary expression.
pub open spec fn starts_primary(k: TokenKind) -> bool {
    starts_literal(k) || k == TokenKind::tLBRACK || k == TokenKind::tLCURLY || is_var_ref(k) || k
        == TokenKind::tBACK_REF || k == TokenKind::tNTH_REF || k == TokenKind::tFID || k
        == TokenKind::tLPAREN || k == TokenKind::tCOLON2 || k == TokenKind::kIF || k
        == TokenKind::kUNLESS || k == TokenKind::kFOR || k == TokenKind::kCLASS || k
        == TokenKind::kMODULE || k == TokenKind::kDEF || is_keyword_cmd(k)
}

/// A token that starts an operand of operators.
pub open spec fn starts_arg(k: TokenKind) -> bool {
    prefix_bp(k) is Some || starts_primary(k)
}

/// A token that starts an expression.
pub open spec fn starts_expr(k: TokenKind) -> bool {
    k == TokenKind::kNOT || starts_arg(k)
}

/// A token that starts a statement.
pub open spec fn starts_stmt(k: TokenKind) -> bool {
    k == TokenKind::kALIAS || k == TokenKind::klBEGIN || k == TokenKind::klEND || starts_expr(k)
}

/// A token that starts an element of an array literal.
pub open spec fn starts_item(k: TokenKind) -> bool {
    k == TokenKind::tSTAR || k == TokenKind::tDSTAR || k == TokenKind::tLABEL || starts_arg(k)
}

/// A token that starts a parameter of a method.
pub open spec fn starts_param(k: TokenKind) -> bool {
    k == TokenKind::tSTAR || k == TokenKind::tDSTAR || k == TokenKind::tAMPER || k
        == TokenKind::tLPAREN || k == TokenKind::tIDENTIFIER || k == TokenKind::tLABEL
}

// ---------------------------------------------------------------------------
// Operators.
// ---------------------------------------------------------------------------

/// How strongly a prefix operator binds its operand.
pub open spec fn prefix_bp(k: TokenKind) -> Option<u8> {
    if k == TokenKind::tBDOT2 || k == TokenKind::tBDOT3 {
        Some(4)
    } else if k == TokenKind::tUPLUS || k == TokenKind::tBANG || k == TokenKind::tTILDE {
        Some(27)
    } else if k == TokenKind::tUMINUS {
        Some(23)
    } else if k == TokenKind::kDEFINED {
        Some(1)
    } else {
        None
    }
}

/// How strongly a binary operator binds to its left and to its right operand; an
/// operator whose right power is not above its left one groups to the right.
pub open spec fn binary_bp(k: TokenKind) -> Option<(u8, u8)> {
    if k == TokenKind::tEH {
        Some((1, 1))
    } else if k == TokenKind::tDOT2 || k == TokenKind::tDOT3 {
        Some((3, 4))
    } else if k == TokenKind::tOROP {
        Some((5, 6))
    } else if k == TokenKind::tANDOP {
        Some((7, 8))
    } else if k == TokenKind::tEQ || k == TokenKind::tEQQ || k == TokenKind::tNEQ || k
        == TokenKind::tMATCH || k == TokenKind::tNMATCH || k == TokenKind::tCMP {
        Some((9, 10))
    } else if k == TokenKind::tLT || k == TokenKind::tLEQ || k == TokenKind::tGT || k
        == TokenKind::tGEQ {
        Some((11, 12))
    } else if k == TokenKind::tPIPE || k == TokenKind::tCARET {
        Some((13, 14))
    } else if k == TokenKind::tAMPER {
        Some((15, 16))
    } else if k == TokenKind::tLSHFT || k == TokenKind::tRSHFT {
        Some((17, 18))
    } else if k == TokenKind::tPLUS || k == TokenKind::tMINUS {
        Some((19, 20))
    } else if k == TokenKind::tSTAR || k == TokenKind::tDIVIDE || k == TokenKind::tPERCENT {
        Some((21, 22))
    } else if k == TokenKind::tPOW {
        Some((25, 25))
    } else {
        None
    }
}

/// The error of a choice named `name` among rules that each read one token of the kinds
/// `kinds`, where the token at `p` is none of them: one lookahead error per kind.
pub open spec fn lookahead_choice(name: &'static str, kinds: Seq<TokenKind>, t: Seq<Token>, p: int) -> ErrView {
    ErrView::OneOf {
        name,
        variants: kinds.map_values(|k: TokenKind| err_view(unexpected(t, p, k, true))),
    }
}

/// The kinds of the prefix operators, in the order the prefix operator rule tries them.
pub open spec fn prefix_kinds() -> Seq<TokenKind> {
    seq![
        TokenKind::tBDOT2,
        TokenKind::tBDOT3,
        TokenKind::tUPLUS,
        TokenKind::tUMINUS,
        TokenKind::tBANG,
        TokenKind::tTILDE,
        TokenKind::kDEFINED,
    ]
}

/// The errors of the prefix operator rule when the token at `p` is no prefix operator:
/// one lookahead error for each prefix operator kind, in order.
pub open spec fn prefix_errors(t: Seq<Token>, p: int) -> Seq<ParseError> {
    prefix_kinds().map_values(|k: TokenKind| unexpected(t, p, k, true))
}

/// The prefix operator kinds are exactly those with a binding power.
pub proof fn lemma_prefix_kinds(k: TokenKind)
    ensures
        prefix_kinds().contains(k) <==> prefix_bp(k) is Some,
{
    assert(prefix_kinds().len() == 7);
    assert forall|j: int| 0 <= j < 7 implies prefix_bp(#[trigger] prefix_kinds()[j]) is Some by {
        if j == 0 {
            assert(prefix_kinds()[0] == TokenKind::tBDOT2);
        } else if j == 1 {
            assert(prefix_kinds()[1] == TokenKind::tBDOT3);
        } else if j == 2 {
            assert(prefix_kinds()[2] == TokenKind::tUPLUS);
        } else if j == 3 {
            assert(prefix_kinds()[3] == TokenKind::tUMINUS);
        } else if j == 4 {
            assert(prefix_kinds()[4] == TokenKind::tBANG);
        } else if j == 5 {
            assert(prefix_kinds()[5] == TokenKind::tTILDE);
        } else if j == 6 {
            assert(prefix_kinds()[6] == TokenKind::kDEFINED);
        }
    }
    if k == TokenKind::tBDOT2 {
        assert(prefix_kinds()[0] == k);
    } else if k == TokenKind::tBDOT3 {
        assert(prefix_kinds()[1] == k);
    } else if k == TokenKind::tUPLUS {
        assert(prefix_kinds()[2] == k);
    } else if k == TokenKind::tUMINUS {
        assert(prefix_kinds()[3] == k);
    } else if k == TokenKind::tBANG {
        assert(prefix_kinds()[4] == k);
    } else if k == TokenKind::tTILDE {
        assert(prefix_kinds()[5] == k);
    } else if k == TokenKind::kDEFINED {
        assert(prefix_kinds()[6] == k);
    }
}

/// The kinds of the binary and postfix operators, in the order the operator rule tries
/// them.
pub open spec fn operator_kinds() -> Seq<TokenKind> {
    seq![
        TokenKind::tDOT2,
        TokenKind::tDOT3,
        TokenKind::tPLUS,
        TokenKind::tMINUS,
        TokenKind::tSTAR,
        TokenKind::tDIVIDE,
        TokenKind::tPERCENT,
        TokenKind::tPOW,
        TokenKind::tPIPE,
        TokenKind::tCARET,
        TokenKind::tAMPER,
        TokenKind::tCMP,
        TokenKind::tEQ,
        TokenKind::tEQQ,
        TokenKind::tNEQ,
        TokenKind::tMATCH,
        TokenKind::tNMATCH,
        TokenKind::tLSHFT,
        TokenKind::tRSHFT,
        TokenKind::tANDOP,
        TokenKind::tOROP,
        TokenKind::tEH,
        TokenKind::tGT,
        TokenKind::tLT,
        TokenKind::tGEQ,
        TokenKind::tLEQ,
    ]
}

/// The errors of the operator rule when the token at `p` is no operator: one for each
/// operator kind, in order.
pub open spec fn operator_errors(t: Seq<Token>, p: int) -> Seq<ParseError> {
    operator_kinds().map_values(|k: TokenKind| unexpected(t, p, k, false))
}

/// The operator kinds are exactly those with a binding power.
pub proof fn lemma_operator_kinds(k: TokenKind)
    ensures
        operator_kinds().contains(k) <==> binary_bp(k) is Some,
{
    assert(operator_kinds().len() == 26);
    assert forall|j: int| 0 <= j < 26 implies binary_bp(#[trigger] operator_kinds()[j]) is Some by {
        if j == 0 {
            assert(operator_kinds()[0] == TokenKind::tDOT2);
        } else if j == 1 {
            assert(operator_kinds()[1] == TokenKind::tDOT3);
        } else if j == 2 {
            assert(operator_kinds()[2] == TokenKind::tPLUS);
        } else if j == 3 {
            assert(operator_kinds()[3] == TokenKind::tMINUS);
        } else if j == 4 {
            assert(operator_kinds()[4] == TokenKind::tSTAR);
        } else if j == 5 {
            assert(operator_kinds()[5] == TokenKind::tDIVIDE);
        } else if j == 6 {
            assert(operator_kinds()[6] == TokenKind::tPERCENT);
        } else if j == 7 {
            assert(operator_kinds()[7] == TokenKind::tPOW);
        } else if j == 8 {
            assert(operator_kinds()[8] == TokenKind::tPIPE);
        } else if j == 9 {
            assert(operator_kinds()[9] == TokenKind::tCARET);
        } else if j == 10 {
            assert(operator_kinds()[10] == TokenKind::tAMPER);
        } else if j == 11 {
            assert(operator_kinds()[11] == TokenKind::tCMP);
        } else if j == 12 {
            assert(operator_kinds()[12] == TokenKind::tEQ);
        } else if j == 13 {
            assert(operator_kinds()[13] == TokenKind::tEQQ);
        } else if j == 14 {
            assert(operator_kinds()[14] == TokenKind::tNEQ);
        } else if j == 15 {
            assert(operator_kinds()[15] == TokenKind::tMATCH);
        } else if j == 16 {
            assert(operator_kinds()[16] == TokenKind::tNMATCH);
        } else if j == 17 {
            assert(operator_kinds()[17] == TokenKind::tLSHFT);
        } else if j == 18 {
            assert(operator_kinds()[18] == TokenKind::tRSHFT);
        } else if j == 19 {
            assert(operator_kinds()[19] == TokenKind::tANDOP);
        } else if j == 20 {
            assert(operator_kinds()[20] == TokenKind::tOROP);
        } else if j == 21 {
            assert(operator_kinds()[21] == TokenKind::tEH);
        } else if j == 22 {
            assert(operator_kinds()[22] == TokenKind::tGT);
        } else if j == 23 {
            assert(operator_kinds()[23] == TokenKind::tLT);
        } else if j == 24 {
            assert(operator_kinds()[24] == TokenKind::tGEQ);
        } else if j == 25 {
            assert(operator_kinds()[25] == TokenKind::tLEQ);
        }
    }
    if k == TokenKind::tDOT2 {
        assert(operator_kinds()[0] == k);
    } else if k == TokenKind::tDOT3 {
        assert(operator_kinds()[1] == k);
    } else if k == TokenKind::tPLUS {
        assert(operator_kinds()[2] == k);
    } else if k == TokenKind::tMINUS {
        assert(operator_kinds()[3] == k);
    } else if k == TokenKind::tSTAR {
        assert(operator_kinds()[4] == k);
    } else if k == TokenKind::tDIVIDE {
        assert(operator_kinds()[5] == k);
    } else if k == TokenKind::tPERCENT {
        assert(operator_kinds()[6] == k);
    } else if k == TokenKind::tPOW {
        assert(operator_kinds()[7] == k);
    } else if k == TokenKind::tPIPE {
        assert(operator_kinds()[8] == k);
    } else if k == TokenKind::tCARET {
        assert(operator_kinds()[9] == k);
    } else if k == TokenKind::tAMPER {
        assert(operator_kinds()[10] == k);
    } else if k == TokenKind::tCMP {
        assert(operator_kinds()[11] == k);
    } else if k == TokenKind::tEQ {
        assert(operator_kinds()[12] == k);
    } else if k == TokenKind::tEQQ {
        assert(operator_kinds()[13] == k);
    } else if k == TokenKind::tNEQ {
        assert(operator_kinds()[14] == k);
    } else if k == TokenKind::tMATCH {
        assert(operator_kinds()[15] == k);
    } else if k == TokenKind::tNMATCH {
        assert(operator_kinds()[16] == k);
    } else if k == TokenKind::tLSHFT {
        assert(operator_kinds()[17] == k);
    } else if k == TokenKind::tRSHFT {
        assert(operator_kinds()[18] == k);
    } else if k == TokenKind::tANDOP {
        assert(operator_kinds()[19] == k);
    } else if k == TokenKind::tOROP {
        assert(operator_kinds()[20] == k);
    } else if k == TokenKind::tEH {
        assert(operator_kinds()[21] == k);
    } else if k == TokenKind::tGT {
        assert(operator_kinds()[22] == k);
    } else if k == TokenKind::tLT {
        assert(operator_kinds()[23] == k);
    } else if k == TokenKind::tGEQ {
        assert(operator_kinds()[24] == k);
    } else if k == TokenKind::tLEQ {
        assert(operator_kinds()[25] == k);
    }
}

/// Ruby's levels of binary operators, from the most tightly binding: `**`; `*`, `/`,
/// `%`; `+`, `-`; `<<`, `>>`; `&`; `|`, `^`; `>`, `>=`, `<`, `<=`; `<=>`, `==`, `===`,
/// `!=`, `=~`, `!~`; `&&`; `||`; `..`, `...`; `? :`.
pub open spec fn operator_level(k: TokenKind) -> Option<int> {
    if k == TokenKind::tPOW {
        Some(0)
    } else if k == TokenKind::tSTAR || k == TokenKind::tDIVIDE || k == TokenKind::tPERCENT {
        Some(1)
    } else if k == TokenKind::tPLUS || k == TokenKind::tMINUS {
        Some(2)
    } else if k == TokenKind::tLSHFT || k == TokenKind::tRSHFT {
        Some(3)
    } else if k == TokenKind::tAMPER {
        Some(4)
    } else if k == TokenKind::tPIPE || k == TokenKind::tCARET {
        Some(5)
    } else if k == TokenKind::tGT || k == TokenKind::tGEQ || k == TokenKind::tLT || k
        == TokenKind::tLEQ {
        Some(6)
    } else if k == TokenKind::tCMP || k == TokenKind::tEQ || k == TokenKind::tEQQ || k
        == TokenKind::tNEQ || k == TokenKind::tMATCH || k == TokenKind::tNMATCH {
        Some(7)
    } else if k == TokenKind::tANDOP {
        Some(8)
    } else if k == TokenKind::tOROP {
        Some(9)
    } else if k == TokenKind::tDOT2 || k == TokenKind::tDOT3 {
        Some(10)
    } else if k == TokenKind::tEH {
        Some(11)
    } else {
        None
    }
}

/// Whether in `a op1 b op2 c` the operand `b` goes to `op2`, read as part of the right
/// operand of `op1`: the loop over operators reads `op2` there exactly when its left
/// binding power is at least the right binding power of `op1`.
pub open spec fn takes_from(op1: TokenKind, op2: TokenKind) -> bool {
    binary_bp(op2).unwrap().0 >= binary_bp(op1).unwrap().1
}

/// Ruby's operator precedence. Every operator with a level has a binding power. Of two
/// operators of different levels, the tighter one takes the operand between them
/// (`a == 1 && b == 2` is `(a == 1) && (b == 2)`, `a && b == c` is `a && (b == c)`);
/// operators of one level group to the left, except `**` and `? :`, which group to the
/// right. The unary `!`, `~` and `+` bind more tightly than every binary operator, and the
/// unary `-` more tightly than all but `**` (`-a ** b` is `-(a ** b)`).
pub proof fn law_operator_precedence(op1: TokenKind, op2: TokenKind)
    requires
        operator_level(op1) is Some,
        operator_level(op2) is Some,
    ensures
        binary_bp(op1) is Some,
        binary_bp(op2) is Some,
        operator_level(op2).unwrap() < operator_level(op1).unwrap() ==> takes_from(op1, op2),
        operator_level(op1).unwrap() < operator_level(op2).unwrap() ==> !takes_from(op1, op2),
        operator_level(op1) == operator_level(op2) && operator_level(op1).unwrap() != 0
            && operator_level(op1).unwrap() != 11 ==> !takes_from(op1, op2),
        operator_level(op1) == operator_level(op2) && (operator_level(op1).unwrap() == 0
            || operator_level(op1).unwrap() == 11) ==> takes_from(op1, op2),
        prefix_bp(TokenKind::tBANG).unwrap() > binary_bp(op2).unwrap().0,
        prefix_bp(TokenKind::tTILDE).unwrap() > binary_bp(op2).unwrap().0,
        prefix_bp(TokenKind::tUPLUS).unwrap() > binary_bp(op2).unwrap().0,
        op2 != TokenKind::tPOW ==> prefix_bp(TokenKind::tUMINUS).unwrap() > binary_bp(op2).unwrap().0,
        prefix_bp(TokenKind::tUMINUS).unwrap() <= binary_bp(TokenKind::tPOW).unwrap().0,
{
}

/// `..` and `...`, in either position.
pub open spec fn range_kind(k: TokenKind) -> Option<NodeKind> {
    if k == TokenKind::tDOT2 || k == TokenKind::tBDOT2 {
        Some(NodeKind::Irange)
    } else if k == TokenKind::tDOT3 || k == TokenKind::tBDOT3 {
        Some(NodeKind::Erange)
    } else {
        None
    }
}

/// The tree of a prefix operator `op` applied to `rhs`.
pub open spec fn prefix_node(op: Token, rhs: Seq<Item>) -> Seq<Item> {
    let l = spec_join(op.loc, crate::nodes::loc_of(rhs));
    match range_kind(op.kind) {
        Some(rk) => wrap(rk, l, seq![Item::Nil] + rhs),
        None => if op.kind == TokenKind::tUMINUS || op.kind == TokenKind::tUPLUS {
            wrap(NodeKind::Send, l, rhs + seq![Item::Suffixed(op.loc)])
        } else if op.kind == TokenKind::kDEFINED {
            wrap(NodeKind::Defined, l, rhs)
        } else {
            wrap(NodeKind::Send, l, rhs + seq![Item::Str(op.loc)])
        },
    }
}

/// The tree of a binary operator `op` applied to `lhs` and `rhs`.
pub open spec fn binary_node(op: Token, lhs: Seq<Item>, rhs: Seq<Item>) -> Seq<Item> {
    let l = spec_join(crate::nodes::loc_of(lhs), crate::nodes::loc_of(rhs));
    if op.kind == TokenKind::tANDOP {
        wrap(NodeKind::And, l, lhs + rhs)
    } else if op.kind == TokenKind::tOROP {
        wrap(NodeKind::Or, l, lhs + rhs)
    } else {
        match range_kind(op.kind) {
            Some(rk) => wrap(rk, l, lhs + rhs),
            None => wrap(NodeKind::Send, l, lhs + seq![Item::Str(op.loc)] + rhs),
        }
    }
}

/// The node kind of an assignment to a variable token, if it can be assigned.
pub open spec fn assign_kind(k: TokenKind) -> Option<NodeKind> {
    if k == TokenKind::tIDENTIFIER {
        Some(NodeKind::Lvasgn)
    } else if k == TokenKind::tIVAR {
        Some(NodeKind::Ivasgn)
    } else if k == TokenKind::tGVAR {
        Some(NodeKind::Gvasgn)
    } else if k == TokenKind::tCVAR {
        Some(NodeKind::Cvasgn)
    } else if k == TokenKind::tCONSTANT {
        Some(NodeKind::Casgn)
    } else {
        None
    }
}

/// The tree of `var = rhs`.
pub open spec fn assign_node(var: Token, rhs: Seq<Item>) -> Seq<Item> {
    let l = spec_join(var.loc, crate::nodes::loc_of(rhs));
    if var.kind == TokenKind::tCONSTANT {
        wrap(NodeKind::Casgn, l, seq![Item::Nil, Item::Str(var.loc)] + rhs)
    } else {
        match assign_kind(var.kind) {
            Some(ak) => wrap(ak, l, seq![Item::Str(var.loc)] + rhs),
            None => wrap(NodeKind::Lvasgn, l, seq![Item::Str(var.loc)] + rhs),
        }
    }
}

/// A binary operator that, written right before `=`, makes an operator assignment
/// (`a += 1`, `a ||= 1`).
pub open spec fn is_op_asgn(k: TokenKind) -> bool {
    k == TokenKind::tPLUS || k == TokenKind::tMINUS || k == TokenKind::tSTAR || k
        == TokenKind::tDIVIDE || k == TokenKind::tPERCENT || k == TokenKind::tPOW || k
        == TokenKind::tPIPE || k == TokenKind::tCARET || k == TokenKind::tAMPER || k
        == TokenKind::tLSHFT || k == TokenKind::tRSHFT || k == TokenKind::tOROP || k
        == TokenKind::tANDOP
}

/// The target of an operator assignment to the variable token `var`.
pub open spec fn asgn_target(var: Token) -> Seq<Item> {
    if var.kind == TokenKind::tCONSTANT {
        wrap(NodeKind::Casgn, var.loc, seq![Item::Nil, Item::Str(var.loc)])
    } else {
        match assign_kind(var.kind) {
            Some(ak) => named(ak, var.loc, var.loc),
            None => named(NodeKind::Lvasgn, var.loc, var.loc),
        }
    }
}

/// The tree of `var op= rhs`: `||=` and `&&=` have kinds of their own.
pub open spec fn op_assign_node(var: Token, op: Token, rhs: Seq<Item>) -> Seq<Item> {
    let l = spec_join(var.loc, crate::nodes::loc_of(rhs));
    if op.kind == TokenKind::tOROP {
        wrap(NodeKind::OrAsgn, l, asgn_target(var) + rhs)
    } else if op.kind == TokenKind::tANDOP {
        wrap(NodeKind::AndAsgn, l, asgn_target(var) + rhs)
    } else {
        wrap(NodeKind::OpAsgn, l, asgn_target(var) + seq![Item::Str(op.loc)] + rhs)
    }
}

/// Whether the tree `n`, read up to `q`, can take an operator assignment: an element
/// `a[i]`, an attribute `a.b` or `a.B`, or a scoped constant `A::B` or `::B`.
pub open spec fn op_assignable(t: Seq<Token>, q: int, n: Seq<Item>) -> bool {
    ||| kind_of(n) == Some(NodeKind::Index)
    ||| kind_of(n) == Some(NodeKind::Const)
    ||| kind_of(n) == Some(NodeKind::Send) && kind_at(t, q - 2) == TokenKind::tDOT && (kind_at(t, q - 1)
        == TokenKind::tIDENTIFIER || kind_at(t, q - 1) == TokenKind::tCONSTANT)
}

/// The tree of `n op= rhs` for an assignable tree `n`: an element becomes an
/// `indexasgn` and a constant a `casgn`; `||=` and `&&=` have kinds of their own.
pub open spec fn op_assign_tree(n: Seq<Item>, op: Token, rhs: Seq<Item>) -> Seq<Item> {
    let target = if kind_of(n) == Some(NodeKind::Index) {
        retag(n, NodeKind::IndexAsgn)
    } else if kind_of(n) == Some(NodeKind::Const) {
        retag(n, NodeKind::Casgn)
    } else {
        n
    };
    let l = spec_join(crate::nodes::loc_of(n), crate::nodes::loc_of(rhs));
    if op.kind == TokenKind::tOROP {
        wrap(NodeKind::OrAsgn, l, target + rhs)
    } else if op.kind == TokenKind::tANDOP {
        wrap(NodeKind::AndAsgn, l, target + rhs)
    } else {
        wrap(NodeKind::OpAsgn, l, target + seq![Item::Str(op.loc)] + rhs)
    }
}

/// The text a token stands for: the name of a label without its colon, the character
/// of `?a`; for other tokens, the whole token.
pub open spec fn token_text(t: Token) -> Loc {
    match t.value {
        Some(l) => l,
        None => t.loc,
    }
}

/// Whether `s` starts with a string tree, plain or interpolated.
pub open spec fn is_string_node(s: Seq<Item>) -> bool {
    kind_of(s) == Some(NodeKind::Str) || kind_of(s) == Some(NodeKind::Dstr)
}

/// The kind of the symbol that a string tree `s` stands for as a hash key.
pub open spec fn symbol_kind(s: Seq<Item>) -> NodeKind {
    if kind_of(s) == Some(NodeKind::Dstr) {
        NodeKind::Dsym
    } else {
        NodeKind::Sym
    }
}

/// The first tree of `s` with its kind changed to `k`.
pub open spec fn retag(s: Seq<Item>, k: NodeKind) -> Seq<Item> {
    seq![Item::Open(k, crate::nodes::loc_of(s))] + s.subrange(1, s.len() as int)
}

// ---------------------------------------------------------------------------
// Small rules.
// ---------------------------------------------------------------------------

/// The position after any `;` and newlines at `p`.
pub open spec fn skip_terms(t: Seq<Token>, p: int) -> int
    decreases t.len() - p,
{
    if is_term(kind_at(t, p)) && 0 <= p < t.len() {
        skip_terms(t, p + 1)
    } else {
        p
    }
}

/// `;` or a newline, which must come now.
pub open spec fn sp_term(t: Seq<Token>, p: int) -> PRes {
    if is_term(kind_at(t, p)) {
        okp(seq![], adv(t, p))
    } else {
        errp(unexpected(t, p, TokenKind::tSEMI, false))
    }
}

/// What ends the condition of `if`: a `;` or newline, `then`, or both.
pub open spec fn sp_then(t: Seq<Token>, p: int) -> PRes {
    if is_term(kind_at(t, p)) {
        let q = adv(t, p);
        if kind_at(t, q) == TokenKind::kTHEN {
            okp(seq![], adv(t, q))
        } else {
            okp(seq![], q)
        }
    } else if kind_at(t, p) == TokenKind::kTHEN {
        okp(seq![], adv(t, p))
    } else {
        errp(unexpected(t, p, TokenKind::kTHEN, false))
    }
}

/// Where the position is after an optional `then` (as after `rescue Foo`).
pub open spec fn opt_then(t: Seq<Token>, p: int) -> int {
    match sp_then(t, p) {
        Ok((_, q)) => q,
        Err(_) => p,
    }
}

/// What ends the head of `for`: `do`, or a `;` or newline.
pub open spec fn sp_do(t: Seq<Token>, p: int) -> PRes {
    if kind_at(t, p) == TokenKind::kDO || is_term(kind_at(t, p)) {
        okp(seq![], adv(t, p))
    } else {
        errp(unexpected(t, p, TokenKind::kDO, false))
    }
}

/// `::Foo`.
pub open spec fn sp_global_const(t: Seq<Token>, p: int) -> PRes {
    if kind_at(t, p) == TokenKind::tCOLON2 {
        let q = adv(t, p);
        if kind_at(t, q) == TokenKind::tCONSTANT {
            okp(
                wrap(
                    NodeKind::Const,
                    spec_join(tok(t, p).loc, tok(t, q).loc),
                    leaf(NodeKind::Cbase, tok(t, p).loc) + seq![Item::Str(tok(t, q).loc)],
                ),
                adv(t, q),
            )
        } else {
            errp(unexpected(t, q, TokenKind::tCONSTANT, false))
        }
    } else {
        errp(unexpected(t, p, TokenKind::tCOLON2, true))
    }
}

/// What can be assigned to: a variable, constant, keyword variable, back reference or
/// `::Foo`.
pub open spec fn sp_lhs(t: Seq<Token>, p: int) -> PRes {
    let k = kind_at(t, p);
    if plain_variable_kind(k) is Some || k == TokenKind::tCONSTANT {
        sp_user_variable(t, p)
    } else if keyword_variable_kind(k) is Some {
        sp_keyword_variable(t, p)
    } else if k == TokenKind::tBACK_REF {
        sp_named_token(t, p, TokenKind::tBACK_REF, NodeKind::BackRef)
    } else if k == TokenKind::tCOLON2 {
        sp_global_const(t, p)
    } else {
        errp(unexpected(t, p, TokenKind::tIDENTIFIER, true))
    }
}

/// `*name` or a bare `*` (kind `Restarg`), or the same after `**` (kind `Kwrestarg`).
pub open spec fn sp_rest_param(t: Seq<Token>, p: int, k: TokenKind, nk: NodeKind) -> PRes {
    if kind_at(t, p) == k {
        let q = adv(t, p);
        if kind_at(t, q) == TokenKind::tIDENTIFIER {
            okp(
                wrap(nk, spec_join(tok(t, p).loc, tok(t, q).loc), seq![Item::Str(tok(t, q).loc)]),
                adv(t, q),
            )
        } else {
            okp(leaf(nk, tok(t, p).loc), q)
        }
    } else {
        errp(unexpected(t, p, k, true))
    }
}

/// `&name`.
pub open spec fn sp_blockarg(t: Seq<Token>, p: int) -> PRes {
    if kind_at(t, p) == TokenKind::tAMPER {
        let q = adv(t, p);
        if kind_at(t, q) == TokenKind::tIDENTIFIER {
            okp(
                wrap(
                    NodeKind::Blockarg,
                    spec_join(tok(t, p).loc, tok(t, q).loc),
                    seq![Item::Str(tok(t, q).loc)],
                ),
                adv(t, q),
            )
        } else {
            errp(unexpected(t, q, TokenKind::tIDENTIFIER, false))
        }
    } else {
        errp(unexpected(t, p, TokenKind::tAMPER, true))
    }
}

/// A method name or a symbol, as named by `alias`.
#[verifier::opaque]
pub open spec fn sp_fitem(t: Seq<Token>, p: int) -> PRes
    decreases t.len() - p, 81nat,
{
    let k = kind_at(t, p);
    if is_fname(k) {
        okp(named(NodeKind::Sym, tok(t, p).loc, tok(t, p).loc), adv(t, p))
    } else if k == TokenKind::tCOLON || k == TokenKind::tSYMBEG || k == TokenKind::tDSYMBEG {
        sp_symbol(t, p)
    } else {
        errp(unexpected(t, p, TokenKind::tIDENTIFIER, true))
    }
}

/// What a global variable can be aliased to.
pub open spec fn sp_gvar_target(t: Seq<Token>, p: int) -> PRes {
    let k = kind_at(t, p);
    if k == TokenKind::tGVAR {
        sp_named_token(t, p, k, NodeKind::Gvar)
    } else if k == TokenKind::tBACK_REF {
        sp_named_token(t, p, k, NodeKind::BackRef)
    } else if k == TokenKind::tNTH_REF {
        sp_named_token(t, p, k, NodeKind::NthRef)
    } else {
        errp(unexpected(t, p, TokenKind::tGVAR, false))
    }
}

/// The two names of an `alias`, from `p`.
#[verifier::opaque]
pub open spec fn sp_alias_names(t: Seq<Token>, p: int) -> PRes
    decreases t.len() - p, 82nat,
{
    if kind_at(t, p) == TokenKind::tGVAR {
        match sp_named_token(t, p, TokenKind::tGVAR, NodeKind::Gvar) {
            Ok((lhs, q)) => match sp_gvar_target(t, q) {
                Ok((rhs, q2)) => okp(lhs + rhs, q2),
                Err(e) => Err(e),
            },
            Err(e) => Err(e),
        }
    } else {
        match sp_fitem(t, p) {
            Ok((lhs, q)) => if ahead(t, p, q) {
                match sp_fitem(t, q) {
                    Ok((rhs, q2)) => okp(lhs + rhs, q2),
                    Err(e) => Err(e),
                }
            } else {
                errp(stall(t, q))
            },
            Err(e) => Err(e),
        }
    }
}

/// `alias new old`, `alias :new :old`, `alias $new $old`.
#[verifier::opaque]
pub open spec fn sp_alias(t: Seq<Token>, p: int) -> PRes
    decreases t.len() - p, 83nat,
{
    if kind_at(t, p) == TokenKind::kALIAS {
        match sp_alias_names(t, adv(t, p)) {
            Ok((names, q)) => okp(wrap(NodeKind::Alias, span(t, p, q), names), q),
            Err(e) => Err(e),
        }
    } else {
        errp(unexpected(t, p, TokenKind::kALIAS, true))
    }
}

// ---------------------------------------------------------------------------
// Executable forms of the token classes and tree shapes above.
// ---------------------------------------------------------------------------

pub fn is_term_kind(k: TokenKind) -> (r: bool)
    ensures
        r == is_term(k),
{
    k == TokenKind::tSEMI || k == TokenKind::tNL
}

pub fn is_var_ref_kind(k: TokenKind) -> (r: bool)
    ensures
        r == is_var_ref(k),
{
    k == TokenKind::tIDENTIFIER || k == TokenKind::tIVAR || k == TokenKind::tGVAR || k
        == TokenKind::tCVAR || k == TokenKind::tCONSTANT || k == TokenKind::kNIL || k
        == TokenKind::kSELF || k == TokenKind::kTRUE || k == TokenKind::kFALSE || k
        == TokenKind::k__FILE__ || k == TokenKind::k__LINE__ || k == TokenKind::k__ENCODING__
}

pub fn is_fname_kind(k: TokenKind) -> (r: bool)
    ensures
        r == is_fname(k),
{
    k == TokenKind::tIDENTIFIER || k == TokenKind::tCONSTANT || k == TokenKind::tFID
}

pub fn is_keyword_cmd_kind(k: TokenKind) -> (r: bool)
    ensures
        r == is_keyword_cmd(k),
{
    k == TokenKind::kBREAK || k == TokenKind::kNEXT || k == TokenKind::kREDO || k
        == TokenKind::kRETRY || k == TokenKind::kRETURN || k == TokenKind::kYIELD || k
        == TokenKind::kDEFINED
}

pub fn starts_primary_kind(k: TokenKind) -> (r: bool)
    ensures
        r == starts_primary(k),
{
    crate::parser::literal::starts_literal_kind(k) || k == TokenKind::tLBRACK || k
        == TokenKind::tLCURLY || is_var_ref_kind(k) || k == TokenKind::tBACK_REF || k
        == TokenKind::tNTH_REF || k == TokenKind::tFID || k == TokenKind::tLPAREN || k
        == TokenKind::tCOLON2 || k == TokenKind::kIF || k == TokenKind::kUNLESS || k
        == TokenKind::kFOR || k == TokenKind::kCLASS || k == TokenKind::kMODULE || k
        == TokenKind::kDEF || is_keyword_cmd_kind(k)
}

pub fn starts_arg_kind(k: TokenKind) -> (r: bool)
    ensures
        r == starts_arg(k),
{
    prefix_bp_of(k).is_some() || starts_primary_kind(k)
}

pub fn starts_expr_kind(k: TokenKind) -> (r: bool)
    ensures
        r == starts_expr(k),
{
    k == TokenKind::kNOT || starts_arg_kind(k)
}

pub fn starts_stmt_kind(k: TokenKind) -> (r: bool)
    ensures
        r == starts_stmt(k),
{
    k == TokenKind::kALIAS || k == TokenKind::klBEGIN || k == TokenKind::klEND || starts_expr_kind(
        k,
    )
}

pub fn starts_item_kind(k: TokenKind) -> (r: bool)
    ensures
        r == starts_item(k),
{
    k == TokenKind::tSTAR || k == TokenKind::tDSTAR || k == TokenKind::tLABEL || starts_arg_kind(k)
}

pub fn starts_param_kind(k: TokenKind) -> (r: bool)
    ensures
        r == starts_param(k),
{
    k == TokenKind::tSTAR || k == TokenKind::tDSTAR || k == TokenKind::tAMPER || k
        == TokenKind::tLPAREN || k == TokenKind::tIDENTIFIER || k == TokenKind::tLABEL
}

pub fn prefix_bp_of(k: TokenKind) -> (r: Option<u8>)
    ensures
        r == prefix_bp(k),
{
    if k == TokenKind::tBDOT2 || k == TokenKind::tBDOT3 {
        Some(4)
    } else if k == TokenKind::tUPLUS || k == TokenKind::tBANG || k == TokenKind::tTILDE {
        Some(27)
    } else if k == TokenKind::tUMINUS {
        Some(23)
    } else if k == TokenKind::kDEFINED {
        Some(1)
    } else {
        None
    }
}

pub fn binary_bp_of(k: TokenKind) -> (r: Option<(u8, u8)>)
    ensures
        r == binary_bp(k),
{
    if k == TokenKind::tEH {
        Some((1, 1))
    } else if k == TokenKind::tDOT2 || k == TokenKind::tDOT3 {
        Some((3, 4))
    } else if k == TokenKind::tOROP {
        Some((5, 6))
    } else if k == TokenKind::tANDOP {
        Some((7, 8))
    } else if k == TokenKind::tEQ || k == TokenKind::tEQQ || k == TokenKind::tNEQ || k
        == TokenKind::tMATCH || k == TokenKind::tNMATCH || k == TokenKind::tCMP {
        Some((9, 10))
    } else if k == TokenKind::tLT || k == TokenKind::tLEQ || k == TokenKind::tGT || k
        == TokenKind::tGEQ {
        Some((11, 12))
    } else if k == TokenKind::tPIPE || k == TokenKind::tCARET {
        Some((13, 14))
    } else if k == TokenKind::tAMPER {
        Some((15, 16))
    } else if k == TokenKind::tLSHFT || k == TokenKind::tRSHFT {
        Some((17, 18))
    } else if k == TokenKind::tPLUS || k == TokenKind::tMINUS {
        Some((19, 20))
    } else if k == TokenKind::tSTAR || k == TokenKind::tDIVIDE || k == TokenKind::tPERCENT {
        Some((21, 22))
    } else if k == TokenKind::tPOW {
        Some((25, 25))
    } else {
        None
    }
}

pub fn range_kind_of(k: TokenKind) -> (r: Option<NodeKind>)
    ensures
        r == range_kind(k),
{
    if k == TokenKind::tDOT2 || k == TokenKind::tBDOT2 {
        Some(NodeKind::Irange)
    } else if k == TokenKind::tDOT3 || k == TokenKind::tBDOT3 {
        Some(NodeKind::Erange)
    } else {
        None
    }
}

/// `a` followed by `b` followed by `c`.
pub fn concat3(a: Node, b: Node, c: Node) -> (r: Node)
    ensures
        r@ == a@ + b@ + c@,
{
    concat(concat(a, b), c)
}

pub fn mk_prefix_node(op: Token, rhs: Node) -> (r: Node)
    ensures
        r@ == prefix_node(op, rhs@),
{
    let l = op.loc.join(&rhs.loc());
    match range_kind_of(op.kind) {
        Some(rk) => mk_wrap(rk, l, concat(mk_item(Item::Nil), rhs)),
        None => if op.kind == TokenKind::tUMINUS || op.kind == TokenKind::tUPLUS {
            mk_wrap(NodeKind::Send, l, concat(rhs, mk_item(Item::Suffixed(op.loc))))
        } else if op.kind == TokenKind::kDEFINED {
            mk_wrap(NodeKind::Defined, l, rhs)
        } else {
            mk_wrap(NodeKind::Send, l, concat(rhs, mk_item(Item::Str(op.loc))))
        },
    }
}

pub fn mk_binary_node(op: Token, lhs: Node, rhs: Node) -> (r: Node)
    ensures
        r@ == binary_node(op, lhs@, rhs@),
{
    let l = lhs.loc().join(&rhs.loc());
    if op.kind == TokenKind::tANDOP {
        mk_wrap(NodeKind::And, l, concat(lhs, rhs))
    } else if op.kind == TokenKind::tOROP {
        mk_wrap(NodeKind::Or, l, concat(lhs, rhs))
    } else {
        match range_kind_of(op.kind) {
            Some(rk) => mk_wrap(rk, l, concat(lhs, rhs)),
            None => mk_wrap(NodeKind::Send, l, concat3(lhs, mk_item(Item::Str(op.loc)), rhs)),
        }
    }
}

pub fn mk_assign_node(var: Token, rhs: Node) -> (r: Node)
    ensures
        r@ == assign_node(var, rhs@),
{
    let l = var.loc.join(&rhs.loc());
    if var.kind == TokenKind::tCONSTANT {
        let head = concat(mk_item(Item::Nil), mk_item(Item::Str(var.loc)));
        proof {
            assert(head@ =~= seq![Item::Nil, Item::Str(var.loc)]);
        }
        mk_wrap(NodeKind::Casgn, l, concat(head, rhs))
    } else {
        let ak = if var.kind == TokenKind::tIVAR {
            NodeKind::Ivasgn
        } else if var.kind == TokenKind::tGVAR {
            NodeKind::Gvasgn
        } else if var.kind == TokenKind::tCVAR {
            NodeKind::Cvasgn
        } else {
            NodeKind::Lvasgn
        };
        mk_wrap(ak, l, concat(mk_item(Item::Str(var.loc)), rhs))
    }
}

pub fn is_op_asgn_kind(k: TokenKind) -> (r: bool)
    ensures
        r == is_op_asgn(k),
{
    k == TokenKind::tPLUS || k == TokenKind::tMINUS || k == TokenKind::tSTAR || k
        == TokenKind::tDIVIDE || k == TokenKind::tPERCENT || k == TokenKind::tPOW || k
        == TokenKind::tPIPE || k == TokenKind::tCARET || k == TokenKind::tAMPER || k
        == TokenKind::tLSHFT || k == TokenKind::tRSHFT || k == TokenKind::tOROP || k
        == TokenKind::tANDOP
}

pub fn mk_op_assign_node(var: Token, op: Token, rhs: Node) -> (r: Node)
    ensures
        r@ == op_assign_node(var, op, rhs@),
{
    let l = var.loc.join(&rhs.loc());
    let target = if var.kind == TokenKind::tCONSTANT {
        let inner = concat(mk_item(Item::Nil), mk_item(Item::Str(var.loc)));
        proof {
            assert(inner@ =~= seq![Item::Nil, Item::Str(var.loc)]);
        }
        mk_wrap(NodeKind::Casgn, var.loc, inner)
    } else {
        let ak = if var.kind == TokenKind::tIVAR {
            NodeKind::Ivasgn
        } else if var.kind == TokenKind::tGVAR {
            NodeKind::Gvasgn
        } else if var.kind == TokenKind::tCVAR {
            NodeKind::Cvasgn
        } else {
            NodeKind::Lvasgn
        };
        mk_named(ak, var.loc, var.loc)
    };
    if op.kind == TokenKind::tOROP {
        mk_wrap(NodeKind::OrAsgn, l, concat(target, rhs))
    } else if op.kind == TokenKind::tANDOP {
        mk_wrap(NodeKind::AndAsgn, l, concat(target, rhs))
    } else {
        mk_wrap(NodeKind::OpAsgn, l, concat3(target, mk_item(Item::Str(op.loc)), rhs))
    }
}

/// The tree of `n op= rhs` for an assignable tree `n`.
pub fn mk_op_assign_tree(n: Node, op: Token, rhs: Node) -> (r: Node)
    ensures
        r@ == op_assign_tree(n@, op, rhs@),
{
    let l = n.loc().join(&rhs.loc());
    let target = match n.kind() {
        Some(NodeKind::Index) => mk_retag(n, NodeKind::IndexAsgn),
        Some(NodeKind::Const) => mk_retag(n, NodeKind::Casgn),
        _ => n,
    };
    if op.kind == TokenKind::tOROP {
        mk_wrap(NodeKind::OrAsgn, l, concat(target, rhs))
    } else if op.kind == TokenKind::tANDOP {
        mk_wrap(NodeKind::AndAsgn, l, concat(target, rhs))
    } else {
        mk_wrap(NodeKind::OpAsgn, l, concat3(target, mk_item(Item::Str(op.loc)), rhs))
    }
}

/// The first tree of `n` with its kind changed to `k`.
pub fn mk_retag(n: Node, k: NodeKind) -> (r: Node)
    requires
        n@.len() > 0,
    ensures
        r@ == retag(n@, k),
{
    let ghost orig = n@;
    let l = n.loc();
    let mut n = n;
    n.items.set(0, Item::Open(k, l));
    proof {
        assert(n@.subrange(1, n@.len() as int) =~= orig.subrange(1, orig.len() as int));
        assert(n@ =~= retag(orig, k));
    }
    n
}

impl Parser {
    /// The error of a choice named `name` among rules that each read one token of the
    /// kinds `kinds`, none of which is the current token.
    pub fn lookahead_choice_error(&self, name: &'static str, kinds: &[TokenKind]) -> (r: ParseError)
        requires
            self.wf(),
        ensures
            err_view(r) == lookahead_choice(name, kinds@, self.tokens@, self.pos as int),
            r matches ParseError::OneOfError { name: n, variants } && n == name && variants@.len()
                == kinds@.len(),
    {
        let t = self.tokens[self.pos];
        let ghost expected = lookahead_choice(name, kinds@, self.tokens@, self.pos as int)->variants;
        let mut v: Vec<ParseError> = Vec::new();
        let mut i: usize = 0;
        while i < kinds.len()
            invariant
                i <= kinds@.len(),
                self.wf(),
                t == self.tokens@[self.pos as int],
                expected == lookahead_choice(name, kinds@, self.tokens@, self.pos as int)->variants,
                v@.len() == i,
                forall|j: int| 0 <= j < i ==> err_view(#[trigger] v@[j]) == expected[j],
            decreases kinds.len() - i,
        {
            v.push(ParseError::TokenError { lookahead: true, expected: kinds[i], got: t.kind, loc: t.loc });
            i = i + 1;
        }
        let r = ParseError::OneOfError { name, variants: v };
        proof {
            assert(err_view(r) is OneOf);
            assert(err_view(r)->variants =~= expected);
        }
        r
    }

    /// The error for the current token when `k` was expected.
    pub fn error_here(&self, k: TokenKind, lookahead: bool) -> (r: ParseError)
        requires
            self.wf(),
        ensures
            r == unexpected(self.tokens@, self.pos as int, k, lookahead),
    {
        let t = self.tokens[self.pos];
        ParseError::TokenError { lookahead, expected: k, got: t.kind, loc: t.loc }
    }

    /// The source range from the token at `p` to the last token read.
    pub fn span_from(&self, p: usize) -> (r: Loc)
        requires
            self.wf(),
            p < self.tokens@.len(),
        ensures
            r == span(self.tokens@, p as int, self.pos as int),
    {
        let last = if self.pos > 0 {
            self.tokens[self.pos - 1].loc
        } else {
            Loc { start: 0, end: 0 }
        };
        self.tokens[p].loc.join(&last)
    }

    /// Moves past any `;` and newlines.
    pub fn skip_terms(&mut self)
        requires
            old(self).wf(),
        ensures
            final(self).wf(),
            final(self).same(*old(self)),
            final(self).pos == skip_terms(old(self).tokens@, old(self).pos as int),
            final(self).pos >= old(self).pos,
        decreases old(self).rest(),
    {
        if is_term_kind(self.tokens[self.pos].kind) {
            self.skip_token();
            self.skip_terms();
        }
    }

    /// `;` or a newline, which must come now.
    pub fn parse_term(&mut self) -> (r: ParseResult<Node>)
        requires
            old(self).wf(),
        ensures
            final(self).ran(*old(self), r, sp_term(old(self).tokens@, old(self).pos as int)),
            final(self).read_some(*old(self), r),
    {
        if is_term_kind(self.tokens[self.pos].kind) {
            self.skip_token();
            Ok(Node::empty())
        } else {
            Err(self.error_here(TokenKind::tSEMI, false))
        }
    }

    /// What ends the condition of `if`: a `;` or newline, `then`, or both.
    pub fn parse_then(&mut self) -> (r: ParseResult<Node>)
        requires
            old(self).wf(),
        ensures
            final(self).ran(*old(self), r, sp_then(old(self).tokens@, old(self).pos as int)),
            final(self).read_some(*old(self), r),
            r is Err ==> final(self).pos == old(self).pos,
    {
        if is_term_kind(self.tokens[self.pos].kind) {
            self.skip_token();
            if self.at(TokenKind::kTHEN) {
                self.skip_token();
            }
            Ok(Node::empty())
        } else if self.at(TokenKind::kTHEN) {
            self.skip_token();
            Ok(Node::empty())
        } else {
            Err(self.error_here(TokenKind::kTHEN, false))
        }
    }

    /// What ends the head of `for`: `do`, or a `;` or newline.
    pub fn parse_do(&mut self) -> (r: ParseResult<Node>)
        requires
            old(self).wf(),
        ensures
            final(self).ran(*old(self), r, sp_do(old(self).tokens@, old(self).pos as int)),
            final(self).read_some(*old(self), r),
    {
        let k = self.tokens[self.pos].kind;
        if k == TokenKind::kDO || is_term_kind(k) {
            self.skip_token();
            Ok(Node::empty())
        } else {
            Err(self.error_here(TokenKind::kDO, false))
        }
    }

    /// `::Foo`.
    pub fn parse_global_const(&mut self) -> (r: ParseResult<Node>)
        requires
            old(self).wf(),
        ensures
            final(self).ran(*old(self), r, sp_global_const(old(self).tokens@, old(self).pos as int)),
            final(self).read_some(*old(self), r),
    {
        if !self.at(TokenKind::tCOLON2) {
            return Err(self.error_here(TokenKind::tCOLON2, true));
        }
        let colon = self.take_token();
        if !self.at(TokenKind::tCONSTANT) {
            return Err(self.error_here(TokenKind::tCONSTANT, false));
        }
        let name = self.take_token();
        let inner = concat(mk_leaf(NodeKind::Cbase, colon.loc), mk_item(Item::Str(name.loc)));
        Ok(mk_wrap(NodeKind::Const, colon.loc.join(&name.loc), inner))
    }

    /// What can be assigned to: a variable, constant, keyword variable, back reference or
    /// `::Foo`.
    pub fn parse_lhs(&mut self) -> (r: ParseResult<Node>)
        requires
            old(self).wf(),
        ensures
            final(self).ran(*old(self), r, sp_lhs(old(self).tokens@, old(self).pos as int)),
            final(self).read_some(*old(self), r),
    {
        let k = self.tokens[self.pos].kind;
        if k == TokenKind::tIDENTIFIER || k == TokenKind::tIVAR || k == TokenKind::tGVAR || k
            == TokenKind::tCVAR || k == TokenKind::tCONSTANT {
            self.parse_user_variable()
        } else if k == TokenKind::kNIL || k == TokenKind::kSELF || k == TokenKind::kTRUE || k
            == TokenKind::kFALSE || k == TokenKind::k__FILE__ || k == TokenKind::k__LINE__ || k
            == TokenKind::k__ENCODING__ {
            self.parse_keyword_variable()
        } else if k == TokenKind::tBACK_REF {
            self.parse_back_ref()
        } else if k == TokenKind::tCOLON2 {
            self.parse_global_const()
        } else {
            Err(self.error_here(TokenKind::tIDENTIFIER, true))
        }
    }

    /// `*name` or `*` (with `k` the star and `nk` the node kind), or the same with `**`.
    pub fn parse_rest_param(&mut self, k: TokenKind, nk: NodeKind) -> (r: ParseResult<Node>)
        requires
            old(self).wf(),
        ensures
            final(self).ran(*old(self), r, sp_rest_param(old(self).tokens@, old(self).pos as int, k, nk)),
            k != TokenKind::tEOF ==> final(self).read_some(*old(self), r),
    {
        if !self.at(k) {
            return Err(self.error_here(k, true));
        }
        let star = self.take_token();
        if self.at(TokenKind::tIDENTIFIER) {
            let name = self.take_token();
            Ok(mk_wrap(nk, star.loc.join(&name.loc), mk_item(Item::Str(name.loc))))
        } else {
            Ok(mk_leaf(nk, star.loc))
        }
    }

    /// `&name`.
    pub fn parse_blockarg(&mut self) -> (r: ParseResult<Node>)
        requires
            old(self).wf(),
        ensures
            final(self).ran(*old(self), r, sp_blockarg(old(self).tokens@, old(self).pos as int)),
            final(self).read_some(*old(self), r),
    {
        if !self.at(TokenKind::tAMPER) {
            return Err(self.error_here(TokenKind::tAMPER, true));
        }
        let amper = self.take_token();
        if !self.at(TokenKind::tIDENTIFIER) {
            return Err(self.error_here(TokenKind::tIDENTIFIER, false));
        }
        let name = self.take_token();
        Ok(mk_wrap(NodeKind::Blockarg, amper.loc.join(&name.loc), mk_item(Item::Str(name.loc))))
    }

    /// A method name or a symbol, as named by `alias`.
    pub fn parse_fitem(&mut self) -> (r: ParseResult<Node>)
        requires
            old(self).wf(),
        ensures
            final(self).ran(*old(self), r, sp_fitem(old(self).tokens@, old(self).pos as int)),
            final(self).read_some(*old(self), r),
        decreases old(self).rest(), 81nat,
    {
        proof {
            reveal(sp_fitem);
            reveal(sp_symbol);
        }
        let t = self.current_token();
        if is_fname_kind(t.kind) {
            self.skip_token();
            Ok(mk_named(NodeKind::Sym, t.loc, t.loc))
        } else if t.kind == TokenKind::tCOLON || t.kind == TokenKind::tSYMBEG || t.kind
            == TokenKind::tDSYMBEG {
            self.parse_symbol()
        } else {
            Err(self.error_here(TokenKind::tIDENTIFIER, true))
        }
    }

    fn parse_gvar_target(&mut self) -> (r: ParseResult<Node>)
        requires
            old(self).wf(),
        ensures
            final(self).ran(*old(self), r, sp_gvar_target(old(self).tokens@, old(self).pos as int)),
            final(self).read_some(*old(self), r),
    {
        let k = self.tokens[self.pos].kind;
        if k == TokenKind::tGVAR {
            self.parse_named_token(k, NodeKind::Gvar)
        } else if k == TokenKind::tBACK_REF {
            self.parse_named_token(k, NodeKind::BackRef)
        } else if k == TokenKind::tNTH_REF {
            self.parse_named_token(k, NodeKind::NthRef)
        } else {
            Err(self.error_here(TokenKind::tGVAR, false))
        }
    }

    fn parse_alias_names(&mut self) -> (r: ParseResult<Node>)
        requires
            old(self).wf(),
        ensures
            final(self).ran(*old(self), r, sp_alias_names(old(self).tokens@, old(self).pos as int)),
            final(self).read_some(*old(self), r),
        decreases old(self).rest(), 82nat,
    {
        proof {
            reveal(sp_alias_names);
            reveal(sp_fitem);
        }
        if self.at(TokenKind::tGVAR) {
            let lhs = match self.parse_named_token(TokenKind::tGVAR, NodeKind::Gvar) {
                Ok(n) => n,
                Err(e) => return Err(e),
            };
            match self.parse_gvar_target() {
                Ok(rhs) => Ok(concat(lhs, rhs)),
                Err(e) => Err(e),
            }
        } else {
            let lhs = match self.parse_fitem() {
                Ok(n) => n,
                Err(e) => return Err(e),
            };
            match self.parse_fitem() {
                Ok(rhs) => Ok(concat(lhs, rhs)),
                Err(e) => Err(e),
            }
        }
    }

    /// `alias new old`, `alias :new :old`, `alias $new $old`.
    pub fn parse_alias(&mut self) -> (r: ParseResult<Node>)
        requires
            old(self).wf(),
        ensures
            final(self).ran(*old(self), r, sp_alias(old(self).tokens@, old(self).pos as int)),
            final(self).read_some(*old(self), r),
        decreases old(self).rest(), 83nat,
    {
        proof {
            reveal(sp_alias);
            reveal(sp_alias_names);
        }
        if !self.at(TokenKind::kALIAS) {
            return Err(self.error_here(TokenKind::kALIAS, true));
        }
        let p = self.pos;
        self.skip_token();
        match self.parse_alias_names() {
            Ok(names) => Ok(mk_wrap(NodeKind::Alias, self.span_from(p), names)),
            Err(e) => Err(e),
        }
    }
}

} // verus!
