use vstd::prelude::*;
use crate::loc::Loc;
use crate::token::{plain, Token, TokenKind};

pub mod rules;

use rules::{
    at, blank_end, closing, code_step, digits_end, emit, eof_token, gvar_step, ident_end,
    is_blank, is_delim, is_digit, is_ident_char, is_ident_start, is_lower, is_space,
    is_special_gvar, is_upper, ivar_step, keyword_begins, lex_from, line_end,
    lower_end, number_step, open_literal, percent_kind, percent_step, punct_step, space_end,
    spec_keyword, spec_tokenize, str_end, str_step, word_end, word_step, words_step, LexMode,
    LexState, Step, code_move, str_move, var_move, lex_move, top_of, apply_op, interp_at,
    dvar_at, is_name_start, Frame, StackOp, Move,
};

verus! {

// ---------------------------------------------------------------------------
// Byte access and character classes.
// ---------------------------------------------------------------------------

/// The byte at `i`, or `0` past the end.
pub fn byte_at(src: &[u8], i: usize) -> (r: u8)
    ensures
        r == at(src@, i as int),
{
    if i < src.len() {
        src[i]
    } else {
        0
    }
}

/// The byte at `i + k`, or `0` past the end.
pub fn byte_after(src: &[u8], i: usize, k: usize) -> (r: u8)
    ensures
        r == at(src@, i + k),
{
    if i < src.len() && k < src.len() - i {
        src[i + k]
    } else {
        0
    }
}

pub fn digit(c: u8) -> (r: bool)
    ensures
        r == is_digit(c),
{
    48 <= c && c <= 57
}

pub fn upper(c: u8) -> (r: bool)
    ensures
        r == is_upper(c),
{
    65 <= c && c <= 90
}

pub fn lower(c: u8) -> (r: bool)
    ensures
        r == is_lower(c),
{
    97 <= c && c <= 122
}

pub fn ident_start(c: u8) -> (r: bool)
    ensures
        r == is_ident_start(c),
{
    lower(c) || c == 95 || c >= 128
}

pub fn ident_char(c: u8) -> (r: bool)
    ensures
        r == is_ident_char(c),
{
    ident_start(c) || upper(c) || digit(c)
}

pub fn blank(c: u8) -> (r: bool)
    ensures
        r == is_blank(c),
{
    c == 32 || c == 9 || c == 13 || c == 11 || c == 12
}

pub fn space(c: u8) -> (r: bool)
    ensures
        r == is_space(c),
{
    blank(c) || c == 10
}

pub fn delim(c: u8) -> (r: bool)
    ensures
        r == is_delim(c),
{
    33 <= c && c <= 126 && !ident_char(c) && !upper(c)
}

pub fn closing_of(c: u8) -> (r: u8)
    ensures
        r == closing(c),
{
    if c == 40 {
        41
    } else if c == 91 {
        93
    } else if c == 123 {
        125
    } else if c == 60 {
        62
    } else {
        c
    }
}

/// Whether `src[start..end]` is `lit`.
pub fn slice_is(src: &[u8], start: usize, end: usize, lit: &[u8]) -> (r: bool)
    requires
        start <= end <= src.len(),
    ensures
        r == (src@.subrange(start as int, end as int) == lit@),
{
    if end - start != lit.len() {
        proof {
            assert(src@.subrange(start as int, end as int).len() != lit@.len());
        }
        return false;
    }
    let mut k: usize = 0;
    while k < lit.len()
        invariant
            k <= lit.len(),
            end - start == lit.len(),
            start <= end <= src.len(),
            forall|j: int| 0 <= j < k ==> src@[start + j] == lit@[j],
        decreases lit.len() - k,
    {
        if src[start + k] != lit[k] {
            proof {
                assert(src@.subrange(start as int, end as int)[k as int] != lit@[k as int]);
            }
            return false;
        }
        k = k + 1;
    }
    proof {
        assert(src@.subrange(start as int, end as int) =~= lit@);
    }
    true
}

// ---------------------------------------------------------------------------
// Scanning loops.
// ---------------------------------------------------------------------------

pub fn scan_ident(src: &[u8], i: usize) -> (r: usize)
    requires
        i <= src.len(),
    ensures
        r == ident_end(src@, i as int),
        i <= r <= src.len(),
{
    let mut j = i;
    while j < src.len() && ident_char(src[j])
        invariant
            i <= j <= src.len(),
            ident_end(src@, i as int) == ident_end(src@, j as int),
        decreases src.len() - j,
    {
        j = j + 1;
    }
    j
}

pub fn scan_digits(src: &[u8], i: usize) -> (r: usize)
    requires
        i <= src.len(),
    ensures
        r == digits_end(src@, i as int),
        i <= r <= src.len(),
{
    let mut j = i;
    while j < src.len() && digit(src[j])
        invariant
            i <= j <= src.len(),
            digits_end(src@, i as int) == digits_end(src@, j as int),
        decreases src.len() - j,
    {
        j = j + 1;
    }
    j
}

pub fn scan_lower(src: &[u8], i: usize) -> (r: usize)
    requires
        i <= src.len(),
    ensures
        r == lower_end(src@, i as int),
        i <= r <= src.len(),
{
    let mut j = i;
    while j < src.len() && lower(src[j])
        invariant
            i <= j <= src.len(),
            lower_end(src@, i as int) == lower_end(src@, j as int),
        decreases src.len() - j,
    {
        j = j + 1;
    }
    j
}

pub fn scan_blank(src: &[u8], i: usize) -> (r: usize)
    requires
        i <= src.len(),
    ensures
        r == blank_end(src@, i as int),
        i <= r <= src.len(),
{
    let mut j = i;
    while j < src.len() && blank(src[j])
        invariant
            i <= j <= src.len(),
            blank_end(src@, i as int) == blank_end(src@, j as int),
        decreases src.len() - j,
    {
        j = j + 1;
    }
    j
}

pub fn scan_space(src: &[u8], i: usize) -> (r: usize)
    requires
        i <= src.len(),
    ensures
        r == space_end(src@, i as int),
        i <= r <= src.len(),
{
    let mut j = i;
    while j < src.len() && space(src[j])
        invariant
            i <= j <= src.len(),
            space_end(src@, i as int) == space_end(src@, j as int),
        decreases src.len() - j,
    {
        j = j + 1;
    }
    j
}

pub fn scan_line(src: &[u8], i: usize) -> (r: usize)
    requires
        i <= src.len(),
    ensures
        r == line_end(src@, i as int),
        i <= r <= src.len(),
{
    let mut j = i;
    while j < src.len() && src[j] != 10
        invariant
            i <= j <= src.len(),
            line_end(src@, i as int) == line_end(src@, j as int),
        decreases src.len() - j,
    {
        j = j + 1;
    }
    j
}

/// Whether `c` can start the name of a variable.
pub fn name_start(c: u8) -> (r: bool)
    ensures
        r == is_name_start(c),
{
    ident_start(c) || upper(c)
}

/// Whether an instance, class or global variable name starts at `j`.
pub fn dvar_here(src: &[u8], j: usize) -> (r: bool)
    requires
        j <= src.len(),
    ensures
        r == dvar_at(src@, j as int),
{
    let c = byte_at(src, j);
    let c1 = byte_after(src, j, 1);
    let c2 = byte_after(src, j, 2);
    (c == 64 && (name_start(c1) || (c1 == 64 && name_start(c2)))) || (c == 36 && name_start(c1))
}

/// Whether an interpolation starts at `i`.
pub fn interp_here(src: &[u8], i: usize) -> (r: bool)
    requires
        i < src.len(),
    ensures
        r == interp_at(src@, i as int),
{
    src[i] == 35 && (byte_after(src, i, 1) == 123 || dvar_here(src, i + 1))
}

pub fn scan_str(src: &[u8], i: usize, close: u8, interp: bool) -> (r: usize)
    requires
        i <= src.len(),
    ensures
        r == str_end(src@, i as int, close, interp),
        i <= r <= src.len(),
{
    let mut j = i;
    while j < src.len() && src[j] != close && !(interp && interp_here(src, j))
        invariant
            i <= j <= src.len(),
            str_end(src@, i as int, close, interp) == str_end(src@, j as int, close, interp),
        decreases src.len() - j,
    {
        if src[j] == 92 && j + 1 < src.len() {
            j = j + 2;
        } else {
            j = j + 1;
        }
    }
    j
}

pub fn scan_word(src: &[u8], i: usize, close: u8) -> (r: usize)
    requires
        i <= src.len(),
    ensures
        r == word_end(src@, i as int, close),
        i <= r <= src.len(),
{
    let mut j = i;
    while j < src.len() && !space(src[j]) && src[j] != close
        invariant
            i <= j <= src.len(),
            word_end(src@, i as int, close) == word_end(src@, j as int, close),
        decreases src.len() - j,
    {
        j = j + 1;
    }
    j
}

/// Looks `src[start..end]` up in the keyword table.
pub fn keyword_at(src: &[u8], start: usize, end: usize) -> (r: Option<TokenKind>)
    requires
        start <= end <= src.len(),
    ensures
        r == spec_keyword(src@.subrange(start as int, end as int)),
{
    let ghost w = src@.subrange(start as int, end as int);
    if slice_is(src, start, end, &[97u8, 108u8, 105u8, 97u8, 115u8]) {
        Some(TokenKind::kALIAS)
    } else if slice_is(src, start, end, &[97u8, 110u8, 100u8]) {
        Some(TokenKind::kAND)
    } else if slice_is(src, start, end, &[98u8, 101u8, 103u8, 105u8, 110u8]) {
        Some(TokenKind::kBEGIN)
    } else if slice_is(src, start, end, &[66u8, 69u8, 71u8, 73u8, 78u8]) {
        Some(TokenKind::klBEGIN)
    } else if slice_is(src, start, end, &[98u8, 114u8, 101u8, 97u8, 107u8]) {
        Some(TokenKind::kBREAK)
    } else if slice_is(src, start, end, &[99u8, 97u8, 115u8, 101u8]) {
        Some(TokenKind::kCASE)
    } else if slice_is(src, start, end, &[99u8, 108u8, 97u8, 115u8, 115u8]) {
        Some(TokenKind::kCLASS)
    } else if slice_is(src, start, end, &[100u8, 101u8, 102u8]) {
        Some(TokenKind::kDEF)
    } else if slice_is(src, start, end, &[100u8, 111u8]) {
        Some(TokenKind::kDO)
    } else if slice_is(src, start, end, &[101u8, 108u8, 115u8, 101u8]) {
        Some(TokenKind::kELSE)
    } else if slice_is(src, start, end, &[101u8, 108u8, 115u8, 105u8, 102u8]) {
        Some(TokenKind::kELSIF)
    } else if slice_is(src, start, end, &[101u8, 110u8, 100u8]) {
        Some(TokenKind::kEND)
    } else if slice_is(src, start, end, &[69u8, 78u8, 68u8]) {
        Some(TokenKind::klEND)
    } else if slice_is(src, start, end, &[101u8, 110u8, 115u8, 117u8, 114u8, 101u8]) {
        Some(TokenKind::kENSURE)
    } else if slice_is(src, start, end, &[102u8, 97u8, 108u8, 115u8, 101u8]) {
        Some(TokenKind::kFALSE)
    } else if slice_is(src, start, end, &[102u8, 111u8, 114u8]) {
        Some(TokenKind::kFOR)
    } else if slice_is(src, start, end, &[105u8, 102u8]) {
        Some(TokenKind::kIF)
    } else if slice_is(src, start, end, &[105u8, 110u8]) {
        Some(TokenKind::kIN)
    } else if slice_is(src, start, end, &[109u8, 111u8, 100u8, 117u8, 108u8, 101u8]) {
        Some(TokenKind::kMODULE)
    } else if slice_is(src, start, end, &[110u8, 101u8, 120u8, 116u8]) {
        Some(TokenKind::kNEXT)
    } else if slice_is(src, start, end, &[110u8, 105u8, 108u8]) {
        Some(TokenKind::kNIL)
    } else if slice_is(src, start, end, &[110u8, 111u8, 116u8]) {
        Some(TokenKind::kNOT)
    } else if slice_is(src, start, end, &[111u8, 114u8]) {
        Some(TokenKind::kOR)
    } else if slice_is(src, start, end, &[114u8, 101u8, 100u8, 111u8]) {
        Some(TokenKind::kREDO)
    } else if slice_is(src, start, end, &[114u8, 101u8, 115u8, 99u8, 117u8, 101u8]) {
        Some(TokenKind::kRESCUE)
    } else if slice_is(src, start, end, &[114u8, 101u8, 116u8, 114u8, 121u8]) {
        Some(TokenKind::kRETRY)
    } else if slice_is(src, start, end, &[114u8, 101u8, 116u8, 117u8, 114u8, 110u8]) {
        Some(TokenKind::kRETURN)
    } else if slice_is(src, start, end, &[115u8, 101u8, 108u8, 102u8]) {
        Some(TokenKind::kSELF)
    } else if slice_is(src, start, end, &[115u8, 117u8, 112u8, 101u8, 114u8]) {
        Some(TokenKind::kSUPER)
    } else if slice_is(src, start, end, &[116u8, 104u8, 101u8, 110u8]) {
        Some(TokenKind::kTHEN)
    } else if slice_is(src, start, end, &[116u8, 114u8, 117u8, 101u8]) {
        Some(TokenKind::kTRUE)
    } else if slice_is(src, start, end, &[117u8, 110u8, 100u8, 101u8, 102u8]) {
        Some(TokenKind::kUNDEF)
    } else if slice_is(src, start, end, &[117u8, 110u8, 108u8, 101u8, 115u8, 115u8]) {
        Some(TokenKind::kUNLESS)
    } else if slice_is(src, start, end, &[117u8, 110u8, 116u8, 105u8, 108u8]) {
        Some(TokenKind::kUNTIL)
    } else if slice_is(src, start, end, &[119u8, 104u8, 101u8, 110u8]) {
        Some(TokenKind::kWHEN)
    } else if slice_is(src, start, end, &[119u8, 104u8, 105u8, 108u8, 101u8]) {
        Some(TokenKind::kWHILE)
    } else if slice_is(src, start, end, &[121u8, 105u8, 101u8, 108u8, 100u8]) {
        Some(TokenKind::kYIELD)
    } else if slice_is(src, start, end, &[95u8, 95u8, 70u8, 73u8, 76u8, 69u8, 95u8, 95u8]) {
        Some(TokenKind::k__FILE__)
    } else if slice_is(src, start, end, &[95u8, 95u8, 76u8, 73u8, 78u8, 69u8, 95u8, 95u8]) {
        Some(TokenKind::k__LINE__)
    } else if slice_is(src, start, end, &[95u8, 95u8, 69u8, 78u8, 67u8, 79u8, 68u8, 73u8, 78u8, 71u8, 95u8, 95u8]) {
        Some(TokenKind::k__ENCODING__)
    } else {
        None
    }
}

// ---------------------------------------------------------------------------
// Steps.
// ---------------------------------------------------------------------------

/// What one exec step returns: token, next position, next state.
pub type ExecStep = (Option<Token>, usize, LexState);

pub open spec fn step_is(r: ExecStep, s: Step) -> bool {
    (r.0, r.1 as int, r.2) == s
}

fn mk(kind: TokenKind, start: usize, end: usize) -> (t: Token)
    ensures
        t == plain(kind, start as int, end as int),
{
    Token { kind, loc: Loc { start, end }, value: None }
}

fn emit_exec(kind: TokenKind, start: usize, end: usize, beg: bool) -> (r: ExecStep)
    ensures
        step_is(r, emit(kind, start as int, end as int, beg)),
{
    (Some(mk(kind, start, end)), end, LexState { mode: LexMode::Code, beg })
}

fn open_exec(kind: TokenKind, i: usize, len: usize, mode: LexMode) -> (r: ExecStep)
    requires
        i + len <= usize::MAX,
    ensures
        step_is(r, open_literal(kind, i as int, len as int, mode)),
{
    (Some(mk(kind, i, i + len)), i + len, LexState { mode, beg: false })
}

fn number_exec(src: &[u8], i: usize) -> (r: ExecStep)
    requires
        i < src.len(),
    ensures
        step_is(r, number_step(src@, i as int)),
        r.1 <= src.len(),
{
    let e1 = scan_digits(src, i);
    let is_float = byte_at(src, e1) == 46 && digit(byte_after(src, e1, 1));
    let e2 = if is_float {
        scan_digits(src, e1 + 1)
    } else {
        e1
    };
    let kind = if is_float {
        TokenKind::tFLOAT
    } else {
        TokenKind::tINTEGER
    };
    if byte_at(src, e2) == 114 && byte_after(src, e2, 1) == 105 && !ident_char(
        byte_after(src, e2, 2),
    ) {
        emit_exec(TokenKind::tIMAGINARY, i, e2 + 2, false)
    } else if byte_at(src, e2) == 114 && !ident_char(byte_after(src, e2, 1)) {
        emit_exec(TokenKind::tRATIONAL, i, e2 + 1, false)
    } else if byte_at(src, e2) == 105 && !ident_char(byte_after(src, e2, 1)) {
        emit_exec(TokenKind::tIMAGINARY, i, e2 + 1, false)
    } else {
        emit_exec(kind, i, e2, false)
    }
}

fn keyword_begins_exec(k: TokenKind) -> (r: bool)
    ensures
        r == keyword_begins(k),
{
    !(k == TokenKind::kEND || k == TokenKind::kSELF || k == TokenKind::kNIL || k
        == TokenKind::kTRUE || k == TokenKind::kFALSE || k == TokenKind::k__FILE__ || k
        == TokenKind::k__LINE__ || k == TokenKind::k__ENCODING__ || k == TokenKind::kREDO || k
        == TokenKind::kRETRY || k == TokenKind::kBREAK || k == TokenKind::kNEXT || k
        == TokenKind::kRETURN)
}

fn word_exec(src: &[u8], i: usize) -> (r: ExecStep)
    requires
        i < src.len(),
    ensures
        step_is(r, word_step(src@, i as int)),
        r.1 <= src.len(),
{
    let e = scan_ident(src, i);
    let c = byte_at(src, e);
    if slice_is(src, i, e, &[100u8, 101u8, 102u8, 105u8, 110u8, 101u8, 100u8]) && c == 63 {
        return emit_exec(TokenKind::kDEFINED, i, e + 1, true);
    }
    let fid = (c == 63 || c == 33) && byte_after(src, e, 1) != 61;
    let e2 = if fid {
        e + 1
    } else {
        e
    };
    if byte_at(src, e2) == 58 && byte_after(src, e2, 1) != 58 {
        let t = Token {
            kind: TokenKind::tLABEL,
            loc: Loc { start: i, end: e2 + 1 },
            value: Some(Loc { start: i, end: e2 }),
        };
        (Some(t), e2 + 1, LexState { mode: LexMode::Code, beg: true })
    } else if fid {
        emit_exec(TokenKind::tFID, i, e2, false)
    } else {
        match keyword_at(src, i, e) {
            Some(k) => emit_exec(k, i, e, keyword_begins_exec(k)),
            None => if upper(src[i]) {
                emit_exec(TokenKind::tCONSTANT, i, e, false)
            } else {
                emit_exec(TokenKind::tIDENTIFIER, i, e, false)
            },
        }
    }
}

fn ivar_exec(src: &[u8], i: usize) -> (r: ExecStep)
    requires
        i < src.len(),
    ensures
        step_is(r, ivar_step(src@, i as int)),
        r.1 <= src.len(),
{
    if byte_after(src, i, 1) == 64 {
        let c = byte_after(src, i, 2);
        if ident_start(c) || upper(c) {
            emit_exec(TokenKind::tCVAR, i, scan_ident(src, i + 2), false)
        } else {
            emit_exec(TokenKind::tERROR, i, i + 1, true)
        }
    } else {
        let c = byte_after(src, i, 1);
        if ident_start(c) || upper(c) {
            emit_exec(TokenKind::tIVAR, i, scan_ident(src, i + 1), false)
        } else {
            emit_exec(TokenKind::tERROR, i, i + 1, true)
        }
    }
}

fn special_gvar(c: u8) -> (r: bool)
    ensures
        r == is_special_gvar(c),
{
    c == 33 || c == 64 || c == 126 || c == 61 || c == 47 || c == 92 || c == 44 || c == 59 || c
        == 46 || c == 60 || c == 62 || c == 42 || c == 36 || c == 63 || c == 58 || c == 34
}

fn gvar_exec(src: &[u8], i: usize) -> (r: ExecStep)
    requires
        i < src.len(),
    ensures
        step_is(r, gvar_step(src@, i as int)),
        r.1 <= src.len(),
{
    let c = byte_after(src, i, 1);
    if ident_start(c) || upper(c) {
        emit_exec(TokenKind::tGVAR, i, scan_ident(src, i + 1), false)
    } else if digit(c) {
        emit_exec(TokenKind::tNTH_REF, i, scan_digits(src, i + 1), false)
    } else if c == 38 || c == 96 || c == 39 || c == 43 {
        emit_exec(TokenKind::tBACK_REF, i, i + 2, false)
    } else if special_gvar(c) {
        emit_exec(TokenKind::tGVAR, i, i + 2, false)
    } else {
        emit_exec(TokenKind::tERROR, i, i + 1, true)
    }
}

fn percent_kind_exec(c: u8) -> (r: Option<TokenKind>)
    ensures
        r == percent_kind(c),
{
    if c == 120 {
        Some(TokenKind::tXSTRING_BEG)
    } else if c == 114 {
        Some(TokenKind::tREGEXP_BEG)
    } else if c == 119 {
        Some(TokenKind::tQWORDS_BEG)
    } else if c == 87 {
        Some(TokenKind::tWORDS_BEG)
    } else if c == 105 {
        Some(TokenKind::tQSYMBOLS_BEG)
    } else if c == 73 {
        Some(TokenKind::tSYMBOLS_BEG)
    } else if c == 113 {
        Some(TokenKind::tSTRING_BEG)
    } else if c == 81 {
        Some(TokenKind::tDSTRING_BEG)
    } else {
        None
    }
}

fn percent_exec(src: &[u8], i: usize) -> (r: ExecStep)
    requires
        i < src.len(),
    ensures
        step_is(r, percent_step(src@, i as int)),
        r.1 <= src.len(),
{
    let n1 = byte_after(src, i, 1);
    let n2 = byte_after(src, i, 2);
    match percent_kind_exec(n1) {
        Some(k) if delim(n2) => {
            let is_list = k == TokenKind::tQWORDS_BEG || k == TokenKind::tWORDS_BEG || k
                == TokenKind::tQSYMBOLS_BEG || k == TokenKind::tSYMBOLS_BEG;
            if is_list {
                open_exec(k, i, 3, LexMode::Words { close: closing_of(n2), sep: false })
            } else {
                open_exec(
                    k,
                    i,
                    3,
                    LexMode::Str {
                        close: closing_of(n2),
                        regexp: k == TokenKind::tREGEXP_BEG,
                        interp: k != TokenKind::tSTRING_BEG,
                    },
                )
            }
        },
        _ => if delim(n1) {
            open_exec(
                TokenKind::tDSTRING_BEG,
                i,
                2,
                LexMode::Str { close: closing_of(n1), regexp: false, interp: true },
            )
        } else {
            emit_exec(TokenKind::tPERCENT, i, i + 1, true)
        },
    }
}

fn punct_exec(src: &[u8], i: usize, beg: bool) -> (r: ExecStep)
    requires
        i < src.len(),
    ensures
        step_is(r, punct_step(src@, i as int, beg)),
        r.1 <= src.len(),
{
    let c = src[i];
    let n1 = byte_after(src, i, 1);
    let n2 = byte_after(src, i, 2);
    if c == 40 {
        emit_exec(TokenKind::tLPAREN, i, i + 1, true)
    } else if c == 41 {
        emit_exec(TokenKind::tRPAREN, i, i + 1, false)
    } else if c == 91 {
        emit_exec(TokenKind::tLBRACK, i, i + 1, true)
    } else if c == 93 {
        emit_exec(TokenKind::tRBRACK, i, i + 1, false)
    } else if c == 123 {
        emit_exec(TokenKind::tLCURLY, i, i + 1, true)
    } else if c == 125 {
        emit_exec(TokenKind::tRCURLY, i, i + 1, false)
    } else if c == 44 {
        emit_exec(TokenKind::tCOMMA, i, i + 1, true)
    } else if c == 46 {
        if n1 == 46 && n2 == 46 {
            emit_exec(if beg { TokenKind::tBDOT3 } else { TokenKind::tDOT3 }, i, i + 3, true)
        } else if n1 == 46 {
            emit_exec(if beg { TokenKind::tBDOT2 } else { TokenKind::tDOT2 }, i, i + 2, true)
        } else {
            emit_exec(TokenKind::tDOT, i, i + 1, true)
        }
    } else if c == 58 {
        if n1 == 58 {
            emit_exec(TokenKind::tCOLON2, i, i + 2, true)
        } else if n1 == 34 {
            open_exec(TokenKind::tDSYMBEG, i, 2, LexMode::Str { close: 34, regexp: false, interp: true })
        } else if n1 == 39 {
            open_exec(TokenKind::tSYMBEG, i, 2, LexMode::Str { close: 39, regexp: false, interp: false })
        } else {
            emit_exec(TokenKind::tCOLON, i, i + 1, true)
        }
    } else if c == 61 {
        if n1 == 61 && n2 == 61 {
            emit_exec(TokenKind::tEQQ, i, i + 3, true)
        } else if n1 == 61 {
            emit_exec(TokenKind::tEQ, i, i + 2, true)
        } else if n1 == 126 {
            emit_exec(TokenKind::tMATCH, i, i + 2, true)
        } else if n1 == 62 {
            emit_exec(TokenKind::tASSOC, i, i + 2, true)
        } else {
            emit_exec(TokenKind::tEQL, i, i + 1, true)
        }
    } else if c == 33 {
        if n1 == 61 {
            emit_exec(TokenKind::tNEQ, i, i + 2, true)
        } else if n1 == 126 {
            emit_exec(TokenKind::tNMATCH, i, i + 2, true)
        } else {
            emit_exec(TokenKind::tBANG, i, i + 1, true)
        }
    } else if c == 60 {
        if n1 == 61 && n2 == 62 {
            emit_exec(TokenKind::tCMP, i, i + 3, true)
        } else if n1 == 61 {
            emit_exec(TokenKind::tLEQ, i, i + 2, true)
        } else if n1 == 60 {
            emit_exec(TokenKind::tLSHFT, i, i + 2, true)
        } else {
            emit_exec(TokenKind::tLT, i, i + 1, true)
        }
    } else if c == 62 {
        if n1 == 61 {
            emit_exec(TokenKind::tGEQ, i, i + 2, true)
        } else if n1 == 62 {
            emit_exec(TokenKind::tRSHFT, i, i + 2, true)
        } else {
            emit_exec(TokenKind::tGT, i, i + 1, true)
        }
    } else if c == 43 {
        emit_exec(if beg { TokenKind::tUPLUS } else { TokenKind::tPLUS }, i, i + 1, true)
    } else if c == 45 {
        if n1 == 62 {
            emit_exec(TokenKind::tLAMBDA, i, i + 2, true)
        } else if beg && digit(n1) {
            emit_exec(TokenKind::tUMINUS_NUM, i, i + 1, true)
        } else if beg {
            emit_exec(TokenKind::tUMINUS, i, i + 1, true)
        } else {
            emit_exec(TokenKind::tMINUS, i, i + 1, true)
        }
    } else if c == 42 {
        if n1 == 42 {
            emit_exec(if beg { TokenKind::tDSTAR } else { TokenKind::tPOW }, i, i + 2, true)
        } else {
            emit_exec(TokenKind::tSTAR, i, i + 1, true)
        }
    } else if c == 47 {
        if beg {
            open_exec(TokenKind::tREGEXP_BEG, i, 1, LexMode::Str { close: 47, regexp: true, interp: true })
        } else {
            emit_exec(TokenKind::tDIVIDE, i, i + 1, true)
        }
    } else if c == 37 {
        if beg {
            percent_exec(src, i)
        } else {
            emit_exec(TokenKind::tPERCENT, i, i + 1, true)
        }
    } else if c == 38 {
        if n1 == 38 {
            emit_exec(TokenKind::tANDOP, i, i + 2, true)
        } else {
            emit_exec(TokenKind::tAMPER, i, i + 1, true)
        }
    } else if c == 124 {
        if n1 == 124 {
            emit_exec(TokenKind::tOROP, i, i + 2, true)
        } else {
            emit_exec(TokenKind::tPIPE, i, i + 1, true)
        }
    } else if c == 94 {
        emit_exec(TokenKind::tCARET, i, i + 1, true)
    } else if c == 126 {
        emit_exec(TokenKind::tTILDE, i, i + 1, true)
    } else if c == 63 {
        if beg && 33 <= n1 && n1 <= 126 && n1 != 92 && !(ident_char(n1) && ident_char(n2)) {
            let t = Token {
                kind: TokenKind::tCHAR,
                loc: Loc { start: i, end: i + 2 },
                value: Some(Loc { start: i + 1, end: i + 2 }),
            };
            (Some(t), i + 2, LexState { mode: LexMode::Code, beg: false })
        } else {
            emit_exec(TokenKind::tEH, i, i + 1, true)
        }
    } else {
        emit_exec(TokenKind::tERROR, i, i + 1, true)
    }
}

fn code_exec(src: &[u8], i: usize, beg: bool) -> (r: ExecStep)
    requires
        i < src.len(),
    ensures
        step_is(r, code_step(src@, i as int, beg)),
        r.1 <= src.len(),
{
    let c = src[i];
    if blank(c) {
        (None, scan_blank(src, i), LexState { mode: LexMode::Code, beg })
    } else if c == 10 {
        if beg {
            (None, i + 1, LexState { mode: LexMode::Code, beg: true })
        } else {
            emit_exec(TokenKind::tNL, i, i + 1, true)
        }
    } else if c == 92 && byte_after(src, i, 1) == 10 {
        (None, i + 2, LexState { mode: LexMode::Code, beg })
    } else if c == 35 {
        (None, scan_line(src, i), LexState { mode: LexMode::Code, beg })
    } else if c == 59 {
        emit_exec(TokenKind::tSEMI, i, i + 1, true)
    } else if digit(c) {
        number_exec(src, i)
    } else if ident_start(c) || upper(c) {
        word_exec(src, i)
    } else if c == 64 {
        ivar_exec(src, i)
    } else if c == 36 {
        gvar_exec(src, i)
    } else if c == 39 {
        open_exec(TokenKind::tSTRING_BEG, i, 1, LexMode::Str { close: 39, regexp: false, interp: false })
    } else if c == 34 {
        open_exec(TokenKind::tDSTRING_BEG, i, 1, LexMode::Str { close: 34, regexp: false, interp: true })
    } else if c == 96 {
        open_exec(TokenKind::tXSTRING_BEG, i, 1, LexMode::Str { close: 96, regexp: false, interp: true })
    } else {
        punct_exec(src, i, beg)
    }
}

fn str_exec(src: &[u8], i: usize, close: u8, regexp: bool, interp: bool) -> (r: ExecStep)
    requires
        i < src.len(),
    ensures
        step_is(r, str_step(src@, i as int, close, regexp, interp)),
        r.1 <= src.len(),
{
    if src[i] == close {
        let e = if regexp {
            scan_lower(src, i + 1)
        } else {
            i + 1
        };
        emit_exec(TokenKind::tSTRING_END, i, e, false)
    } else {
        let e = scan_str(src, i, close, interp);
        (Some(mk(TokenKind::tSTRING_CONTENT, i, e)), e, LexState {
            mode: LexMode::Str { close, regexp, interp },
            beg: false,
        })
    }
}

fn words_exec(src: &[u8], i: usize, close: u8, sep: bool) -> (r: ExecStep)
    requires
        i < src.len(),
    ensures
        step_is(r, words_step(src@, i as int, close, sep)),
        r.1 <= src.len(),
{
    let c = src[i];
    if space(c) {
        let e = scan_space(src, i);
        if e < src.len() && src[e] != close && sep {
            (Some(mk(TokenKind::tSP, i, e)), e, LexState {
                mode: LexMode::Words { close, sep: false },
                beg: false,
            })
        } else {
            (None, e, LexState { mode: LexMode::Words { close, sep }, beg: false })
        }
    } else if c == close {
        emit_exec(TokenKind::tSTRING_END, i, i + 1, false)
    } else {
        let e = scan_word(src, i, close);
        (Some(mk(TokenKind::tSTRING_CONTENT, i, e)), e, LexState {
            mode: LexMode::Words { close, sep: true },
            beg: false,
        })
    }
}

/// A move: a step and what it does to the stack of open frames.
pub type ExecMove = (Option<Token>, usize, LexState, StackOp);

pub open spec fn move_is(r: ExecMove, m: Move) -> bool {
    (r.0, r.1 as int, r.2, r.3) == m
}

fn code_move_exec(src: &[u8], i: usize, beg: bool, top: Option<Frame>) -> (r: ExecMove)
    requires
        i < src.len(),
    ensures
        move_is(r, code_move(src@, i as int, beg, top)),
        r.1 <= src.len(),
{
    let c = src[i];
    if c == 125 {
        match top {
            Some(Frame::Interp { close, regexp }) => {
                let st = LexState { mode: LexMode::Str { close, regexp, interp: true }, beg: false };
                (Some(mk(TokenKind::tSTRING_DEND, i, i + 1)), i + 1, st, StackOp::Pop)
            },
            Some(Frame::Brace) => {
                let (t, j, st) = code_exec(src, i, beg);
                (t, j, st, StackOp::Pop)
            },
            None => {
                let (t, j, st) = code_exec(src, i, beg);
                (t, j, st, StackOp::Keep)
            },
        }
    } else {
        let (t, j, st) = code_exec(src, i, beg);
        if c == 123 {
            (t, j, st, StackOp::Push(Frame::Brace))
        } else {
            (t, j, st, StackOp::Keep)
        }
    }
}

fn str_move_exec(src: &[u8], i: usize, close: u8, regexp: bool, interp: bool) -> (r: ExecMove)
    requires
        i < src.len(),
    ensures
        move_is(r, str_move(src@, i as int, close, regexp, interp)),
        r.1 <= src.len(),
{
    let c = src[i];
    if c != close && interp && c == 35 && byte_after(src, i, 1) == 123 {
        (
            Some(mk(TokenKind::tSTRING_DBEG, i, i + 2)),
            i + 2,
            LexState { mode: LexMode::Code, beg: true },
            StackOp::Push(Frame::Interp { close, regexp }),
        )
    } else if c != close && interp && interp_here(src, i) {
        (
            Some(mk(TokenKind::tSTRING_DVAR, i, i + 1)),
            i + 1,
            LexState { mode: LexMode::StrVar { close, regexp }, beg: false },
            StackOp::Keep,
        )
    } else {
        let (t, j, st) = str_exec(src, i, close, regexp, interp);
        (t, j, st, StackOp::Keep)
    }
}

fn var_move_exec(src: &[u8], i: usize, close: u8, regexp: bool) -> (r: ExecMove)
    requires
        i < src.len(),
    ensures
        move_is(r, var_move(src@, i as int, close, regexp)),
        r.1 <= src.len(),
{
    let (t, j, _) = if src[i] == 64 {
        ivar_exec(src, i)
    } else {
        gvar_exec(src, i)
    };
    (t, j, LexState { mode: LexMode::Str { close, regexp, interp: true }, beg: false }, StackOp::Keep)
}

/// One lexer step at `i` in state `st`, with `top` the innermost open frame.
pub fn next_move(src: &[u8], i: usize, st: LexState, top: Option<Frame>) -> (r: ExecMove)
    requires
        i < src.len(),
    ensures
        move_is(r, lex_move(src@, i as int, st, top)),
        r.1 <= src.len(),
{
    match st.mode {
        LexMode::Code => code_move_exec(src, i, st.beg, top),
        LexMode::Str { close, regexp, interp } => str_move_exec(src, i, close, regexp, interp),
        LexMode::Words { close, sep } => {
            let (t, j, st2) = words_exec(src, i, close, sep);
            (t, j, st2, StackOp::Keep)
        },
        LexMode::StrVar { close, regexp } => var_move_exec(src, i, close, regexp),
    }
}

/// Splits `src` into tokens; the last one is always `tEOF`.
pub fn tokenize(src: &[u8]) -> (r: Vec<Token>)
    ensures
        r@ == spec_tokenize(src@),
{
    let mut tokens: Vec<Token> = Vec::new();
    let mut stack: Vec<Frame> = Vec::new();
    let mut i: usize = 0;
    let mut st = LexState { mode: LexMode::Code, beg: true };
    while i < src.len()
        invariant
            i <= src.len(),
            tokens@ + lex_from(src@, i as int, st, stack@) == spec_tokenize(src@),
        decreases src.len() - i,
    {
        let top = if stack.len() > 0 {
            Some(stack[stack.len() - 1])
        } else {
            None
        };
        proof {
            assert(top == top_of(stack@));
        }
        let (t, j, st2, op) = next_move(src, i, st, top);
        let ghost stack2 = apply_op(stack@, op);
        let ghost rest = if i < j <= src.len() {
            lex_from(src@, j as int, st2, stack2)
        } else {
            seq![eof_token(src@)]
        };
        proof {
            assert(lex_from(src@, i as int, st, stack@) == match t {
                Some(tok) => seq![tok] + rest,
                None => rest,
            });
        }
        match t {
            Some(tok) => {
                proof {
                    assert(tokens@.push(tok) + rest =~= tokens@ + (seq![tok] + rest));
                }
                tokens.push(tok);
            },
            None => {},
        }
        if j <= i {
            proof {
                assert(tokens@ + seq![eof_token(src@)] == spec_tokenize(src@));
            }
            tokens.push(Token {
                kind: TokenKind::tEOF,
                loc: Loc { start: src.len(), end: src.len() },
                value: None,
            });
            return tokens;
        }
        match op {
            StackOp::Keep => {},
            StackOp::Push(f) => {
                stack.push(f);
            },
            StackOp::Pop => {
                if stack.len() > 0 {
                    stack.pop();
                }
            },
        }
        proof {
            assert(stack@ =~= stack2);
        }
        i = j;
        st = st2;
    }
    tokens.push(Token {
        kind: TokenKind::tEOF,
        loc: Loc { start: src.len(), end: src.len() },
        value: None,
    });
    proof {
        assert(tokens@ =~= spec_tokenize(src@));
    }
    tokens
}

} // verus!
