use vstd::prelude::*;
use crate::loc::Loc;
use crate::token::{plain, Token, TokenKind};

verus! {

// ---------------------------------------------------------------------------
// Character classes (bytes; `0` stands for "no byte here").
// ---------------------------------------------------------------------------

pub open spec fn is_digit(c: u8) -> bool {
    48 <= c <= 57
}

pub open spec fn is_lower(c: u8) -> bool {
    97 <= c <= 122
}

pub open spec fn is_upper(c: u8) -> bool {
    65 <= c <= 90
}

/// First byte of a local name: `a-z`, `_`, or any non-ASCII byte.
pub open spec fn is_ident_start(c: u8) -> bool {
    is_lower(c) || c == 95 || c >= 128
}

pub open spec fn is_ident_char(c: u8) -> bool {
    is_ident_start(c) || is_upper(c) || is_digit(c)
}

/// Horizontal white space: space, tab, CR, VT, FF.
pub open spec fn is_blank(c: u8) -> bool {
    c == 32 || c == 9 || c == 13 || c == 11 || c == 12
}

pub open spec fn is_space(c: u8) -> bool {
    is_blank(c) || c == 10
}

/// Printable ASCII punctuation, usable as a `%`-literal delimiter.
pub open spec fn is_delim(c: u8) -> bool {
    33 <= c <= 126 && !is_ident_char(c) && !is_upper(c)
}

/// The byte that closes a literal opened by `c`.
pub open spec fn closing(c: u8) -> u8 {
    if c == 40 {
        41
    } else if c == 91 {
        93
    } else if c == 123 {
        125
    } else if c == 60 {
        62
    } else {
        c
    }
}

/// The byte at `i`, or `0` past either end.
pub open spec fn at(src: Seq<u8>, i: int) -> u8 {
    if 0 <= i < src.len() {
        src[i]
    } else {
        0
    }
}

// ---------------------------------------------------------------------------
// Scanning: where a run of some class of bytes ends.
// ---------------------------------------------------------------------------

pub open spec fn ident_end(src: Seq<u8>, i: int) -> int
    decreases src.len() - i,
{
    if 0 <= i < src.len() && is_ident_char(src[i]) {
        ident_end(src, i + 1)
    } else {
        i
    }
}

pub open spec fn digits_end(src: Seq<u8>, i: int) -> int
    decreases src.len() - i,
{
    if 0 <= i < src.len() && is_digit(src[i]) {
        digits_end(src, i + 1)
    } else {
        i
    }
}

pub open spec fn lower_end(src: Seq<u8>, i: int) -> int
    decreases src.len() - i,
{
    if 0 <= i < src.len() && is_lower(src[i]) {
        lower_end(src, i + 1)
    } else {
        i
    }
}

pub open spec fn blank_end(src: Seq<u8>, i: int) -> int
    decreases src.len() - i,
{
    if 0 <= i < src.len() && is_blank(src[i]) {
        blank_end(src, i + 1)
    } else {
        i
    }
}

pub open spec fn space_end(src: Seq<u8>, i: int) -> int
    decreases src.len() - i,
{
    if 0 <= i < src.len() && is_space(src[i]) {
        space_end(src, i + 1)
    } else {
        i
    }
}

/// End of a comment: the next newline (not included) or the end of input.
pub open spec fn line_end(src: Seq<u8>, i: int) -> int
    decreases src.len() - i,
{
    if 0 <= i < src.len() && src[i] != 10 {
        line_end(src, i + 1)
    } else {
        i
    }
}

/// Whether `c` can start the name of a variable.
pub open spec fn is_name_start(c: u8) -> bool {
    is_ident_start(c) || is_upper(c)
}

/// Whether an instance, class or global variable name starts at `j`: `@x`, `@@x`, `$x`.
pub open spec fn dvar_at(src: Seq<u8>, j: int) -> bool {
    (at(src, j) == 64 && (is_name_start(at(src, j + 1)) || (at(src, j + 1) == 64 && is_name_start(
        at(src, j + 2),
    )))) || (at(src, j) == 36 && is_name_start(at(src, j + 1)))
}

/// Whether an interpolation starts at `i`: `#{`, or `#` before a variable name.
pub open spec fn interp_at(src: Seq<u8>, i: int) -> bool {
    at(src, i) == 35 && (at(src, i + 1) == 123 || dvar_at(src, i + 1))
}

/// End of the text of a quoted literal: the next unescaped `close`, the next
/// interpolation when `interp`, or the end of input. A backslash escapes the byte after it.
pub open spec fn str_end(src: Seq<u8>, i: int, close: u8, interp: bool) -> int
    decreases src.len() - i,
{
    if 0 <= i < src.len() && src[i] != close && !(interp && interp_at(src, i)) {
        if src[i] == 92 && i + 1 < src.len() {
            str_end(src, i + 2, close, interp)
        } else {
            str_end(src, i + 1, close, interp)
        }
    } else {
        i
    }
}

/// End of one word of a `%w`-style list: the next white space or `close`.
pub open spec fn word_end(src: Seq<u8>, i: int, close: u8) -> int
    decreases src.len() - i,
{
    if 0 <= i < src.len() && !is_space(src[i]) && src[i] != close {
        word_end(src, i + 1, close)
    } else {
        i
    }
}

// ---------------------------------------------------------------------------
// Lexer state and the step function.
// ---------------------------------------------------------------------------

/// What the lexer is in the middle of.
#[derive(Clone, Copy, PartialEq, Eq, Structural, Debug)]
pub enum LexMode {
    /// Ordinary code.
    Code,
    /// The body of a quoted literal closed by `close`; a regexp takes option letters after
    /// it; `interp` when `#{...}` and `#@var` are read as interpolation.
    Str { close: u8, regexp: bool, interp: bool },
    /// Right after the `#` of an interpolated variable in such a literal: the variable.
    StrVar { close: u8, regexp: bool },
    /// The body of a `%w`-style list closed by `close`; `sep` when a word was just read.
    Words { close: u8, sep: bool },
}

/// Lexer state: the mode, and whether an operand is expected next (`beg`), which
/// decides between e.g. unary and binary minus, or regexp and division.
#[derive(Clone, Copy, PartialEq, Eq, Structural, Debug)]
pub struct LexState {
    pub mode: LexMode,
    pub beg: bool,
}

pub open spec fn code(beg: bool) -> LexState {
    LexState { mode: LexMode::Code, beg }
}

/// One step's outcome: the token emitted (if any), where lexing goes on, and the next state.
pub type Step = (Option<Token>, int, LexState);

pub open spec fn emit(kind: TokenKind, start: int, end: int, beg: bool) -> Step {
    (Some(plain(kind, start, end)), end, code(beg))
}

pub open spec fn open_literal(kind: TokenKind, i: int, len: int, mode: LexMode) -> Step {
    (Some(plain(kind, i, i + len)), i + len, LexState { mode, beg: false })
}

/// Whether a keyword leaves the lexer expecting an operand.
pub open spec fn keyword_begins(k: TokenKind) -> bool {
    !(k == TokenKind::kEND || k == TokenKind::kSELF || k == TokenKind::kNIL || k
        == TokenKind::kTRUE || k == TokenKind::kFALSE || k == TokenKind::k__FILE__ || k
        == TokenKind::k__LINE__ || k == TokenKind::k__ENCODING__ || k == TokenKind::kREDO || k
        == TokenKind::kRETRY || k == TokenKind::kBREAK || k == TokenKind::kNEXT || k
        == TokenKind::kRETURN)
}

/// The keyword spelled by `w`, if any.
pub open spec fn spec_keyword(w: Seq<u8>) -> Option<TokenKind> {
    if w == seq![97u8, 108u8, 105u8, 97u8, 115u8] {
        Some(TokenKind::kALIAS)
    } else if w == seq![97u8, 110u8, 100u8] {
        Some(TokenKind::kAND)
    } else if w == seq![98u8, 101u8, 103u8, 105u8, 110u8] {
        Some(TokenKind::kBEGIN)
    } else if w == seq![66u8, 69u8, 71u8, 73u8, 78u8] {
        Some(TokenKind::klBEGIN)
    } else if w == seq![98u8, 114u8, 101u8, 97u8, 107u8] {
        Some(TokenKind::kBREAK)
    } else if w == seq![99u8, 97u8, 115u8, 101u8] {
        Some(TokenKind::kCASE)
    } else if w == seq![99u8, 108u8, 97u8, 115u8, 115u8] {
        Some(TokenKind::kCLASS)
    } else if w == seq![100u8, 101u8, 102u8] {
        Some(TokenKind::kDEF)
    } else if w == seq![100u8, 111u8] {
        Some(TokenKind::kDO)
    } else if w == seq![101u8, 108u8, 115u8, 101u8] {
        Some(TokenKind::kELSE)
    } else if w == seq![101u8, 108u8, 115u8, 105u8, 102u8] {
        Some(TokenKind::kELSIF)
    } else if w == seq![101u8, 110u8, 100u8] {
        Some(TokenKind::kEND)
    } else if w == seq![69u8, 78u8, 68u8] {
        Some(TokenKind::klEND)
    } else if w == seq![101u8, 110u8, 115u8, 117u8, 114u8, 101u8] {
        Some(TokenKind::kENSURE)
    } else if w == seq![102u8, 97u8, 108u8, 115u8, 101u8] {
        Some(TokenKind::kFALSE)
    } else if w == seq![102u8, 111u8, 114u8] {
        Some(TokenKind::kFOR)
    } else if w == seq![105u8, 102u8] {
        Some(TokenKind::kIF)
    } else if w == seq![105u8, 110u8] {
        Some(TokenKind::kIN)
    } else if w == seq![109u8, 111u8, 100u8, 117u8, 108u8, 101u8] {
        Some(TokenKind::kMODULE)
    } else if w == seq![110u8, 101u8, 120u8, 116u8] {
        Some(TokenKind::kNEXT)
    } else if w == seq![110u8, 105u8, 108u8] {
        Some(TokenKind::kNIL)
    } else if w == seq![110u8, 111u8, 116u8] {
        Some(TokenKind::kNOT)
    } else if w == seq![111u8, 114u8] {
        Some(TokenKind::kOR)
    } else if w == seq![114u8, 101u8, 100u8, 111u8] {
        Some(TokenKind::kREDO)
    } else if w == seq![114u8, 101u8, 115u8, 99u8, 117u8, 101u8] {
        Some(TokenKind::kRESCUE)
    } else if w == seq![114u8, 101u8, 116u8, 114u8, 121u8] {
        Some(TokenKind::kRETRY)
    } else if w == seq![114u8, 101u8, 116u8, 117u8, 114u8, 110u8] {
        Some(TokenKind::kRETURN)
    } else if w == seq![115u8, 101u8, 108u8, 102u8] {
        Some(TokenKind::kSELF)
    } else if w == seq![115u8, 117u8, 112u8, 101u8, 114u8] {
        Some(TokenKind::kSUPER)
    } else if w == seq![116u8, 104u8, 101u8, 110u8] {
        Some(TokenKind::kTHEN)
    } else if w == seq![116u8, 114u8, 117u8, 101u8] {
        Some(TokenKind::kTRUE)
    } else if w == seq![117u8, 110u8, 100u8, 101u8, 102u8] {
        Some(TokenKind::kUNDEF)
    } else if w == seq![117u8, 110u8, 108u8, 101u8, 115u8, 115u8] {
        Some(TokenKind::kUNLESS)
    } else if w == seq![117u8, 110u8, 116u8, 105u8, 108u8] {
        Some(TokenKind::kUNTIL)
    } else if w == seq![119u8, 104u8, 101u8, 110u8] {
        Some(TokenKind::kWHEN)
    } else if w == seq![119u8, 104u8, 105u8, 108u8, 101u8] {
        Some(TokenKind::kWHILE)
    } else if w == seq![121u8, 105u8, 101u8, 108u8, 100u8] {
        Some(TokenKind::kYIELD)
    } else if w == seq![95u8, 95u8, 70u8, 73u8, 76u8, 69u8, 95u8, 95u8] {
        Some(TokenKind::k__FILE__)
    } else if w == seq![95u8, 95u8, 76u8, 73u8, 78u8, 69u8, 95u8, 95u8] {
        Some(TokenKind::k__LINE__)
    } else if w == seq![95u8, 95u8, 69u8, 78u8, 67u8, 79u8, 68u8, 73u8, 78u8, 71u8, 95u8, 95u8] {
        Some(TokenKind::k__ENCODING__)
    } else {
        None
    }
}



/// `defined` spelled out.
pub open spec fn defined_word() -> Seq<u8> {
    seq![100u8, 101u8, 102u8, 105u8, 110u8, 101u8, 100u8]
}

/// A number literal starting at the digit at `i`.
pub open spec fn number_step(src: Seq<u8>, i: int) -> Step {
    let e1 = digits_end(src, i);
    let is_float = at(src, e1) == 46 && is_digit(at(src, e1 + 1));
    let e2 = if is_float {
        digits_end(src, e1 + 1)
    } else {
        e1
    };
    let kind = if is_float {
        TokenKind::tFLOAT
    } else {
        TokenKind::tINTEGER
    };
    if at(src, e2) == 114 && at(src, e2 + 1) == 105 && !is_ident_char(at(src, e2 + 2)) {
        emit(TokenKind::tIMAGINARY, i, e2 + 2, false)
    } else if at(src, e2) == 114 && !is_ident_char(at(src, e2 + 1)) {
        emit(TokenKind::tRATIONAL, i, e2 + 1, false)
    } else if at(src, e2) == 105 && !is_ident_char(at(src, e2 + 1)) {
        emit(TokenKind::tIMAGINARY, i, e2 + 1, false)
    } else {
        emit(kind, i, e2, false)
    }
}

/// A word starting at `i`: keyword, identifier, constant, method name with `?`/`!`, or label.
pub open spec fn word_step(src: Seq<u8>, i: int) -> Step {
    let e = ident_end(src, i);
    let c = at(src, e);
    if src.subrange(i, e) == defined_word() && c == 63 {
        emit(TokenKind::kDEFINED, i, e + 1, true)
    } else {
        let fid = (c == 63 || c == 33) && at(src, e + 1) != 61;
        let e2 = if fid {
            e + 1
        } else {
            e
        };
        if at(src, e2) == 58 && at(src, e2 + 1) != 58 {
            (
                Some(
                    Token {
                        kind: TokenKind::tLABEL,
                        loc: Loc { start: i as usize, end: (e2 + 1) as usize },
                        value: Some(Loc { start: i as usize, end: e2 as usize }),
                    },
                ),
                e2 + 1,
                code(true),
            )
        } else if fid {
            emit(TokenKind::tFID, i, e2, false)
        } else {
            match spec_keyword(src.subrange(i, e)) {
                Some(k) => emit(k, i, e, keyword_begins(k)),
                None => if is_upper(src[i]) {
                    emit(TokenKind::tCONSTANT, i, e, false)
                } else {
                    emit(TokenKind::tIDENTIFIER, i, e, false)
                },
            }
        }
    }
}

/// `@name` or `@@name`.
pub open spec fn ivar_step(src: Seq<u8>, i: int) -> Step {
    if at(src, i + 1) == 64 {
        if is_ident_start(at(src, i + 2)) || is_upper(at(src, i + 2)) {
            emit(TokenKind::tCVAR, i, ident_end(src, i + 2), false)
        } else {
            emit(TokenKind::tERROR, i, i + 1, true)
        }
    } else if is_ident_start(at(src, i + 1)) || is_upper(at(src, i + 1)) {
        emit(TokenKind::tIVAR, i, ident_end(src, i + 1), false)
    } else {
        emit(TokenKind::tERROR, i, i + 1, true)
    }
}

/// Bytes that form a two-byte special global variable after `$`.
pub open spec fn is_special_gvar(c: u8) -> bool {
    c == 33 || c == 64 || c == 126 || c == 61 || c == 47 || c == 92 || c == 44 || c == 59 || c
        == 46 || c == 60 || c == 62 || c == 42 || c == 36 || c == 63 || c == 58 || c == 34
}

/// `$name`, `$1` (nth reference), `$&` and friends (back references), `$!` and friends.
pub open spec fn gvar_step(src: Seq<u8>, i: int) -> Step {
    let c = at(src, i + 1);
    if is_ident_start(c) || is_upper(c) {
        emit(TokenKind::tGVAR, i, ident_end(src, i + 1), false)
    } else if is_digit(c) {
        emit(TokenKind::tNTH_REF, i, digits_end(src, i + 1), false)
    } else if c == 38 || c == 96 || c == 39 || c == 43 {
        emit(TokenKind::tBACK_REF, i, i + 2, false)
    } else if is_special_gvar(c) {
        emit(TokenKind::tGVAR, i, i + 2, false)
    } else {
        emit(TokenKind::tERROR, i, i + 1, true)
    }
}

/// The kind of the `%` literal whose type letter is `c`, if it is one.
pub open spec fn percent_kind(c: u8) -> Option<TokenKind> {
    if c == 120 {
        Some(TokenKind::tXSTRING_BEG)
    } else if c == 114 {
        Some(TokenKind::tREGEXP_BEG)
    } else if c == 119 {
        Some(TokenKind::tQWORDS_BEG)
    } else if c == 87 {
        Some(TokenKind::tWORDS_BEG)
    } else if c == 105 {
        Some(TokenKind::tQSYMBOLS_BEG)
    } else if c == 73 {
        Some(TokenKind::tSYMBOLS_BEG)
    } else if c == 113 {
        Some(TokenKind::tSTRING_BEG)
    } else if c == 81 {
        Some(TokenKind::tDSTRING_BEG)
    } else {
        None
    }
}

pub open spec fn is_list_kind(k: TokenKind) -> bool {
    k == TokenKind::tQWORDS_BEG || k == TokenKind::tWORDS_BEG || k == TokenKind::tQSYMBOLS_BEG
        || k == TokenKind::tSYMBOLS_BEG
}

/// A `%` literal opened at `i` (when an operand is expected).
pub open spec fn percent_step(src: Seq<u8>, i: int) -> Step {
    let n1 = at(src, i + 1);
    let n2 = at(src, i + 2);
    match percent_kind(n1) {
        Some(k) if is_delim(n2) => if is_list_kind(k) {
            open_literal(k, i, 3, LexMode::Words { close: closing(n2), sep: false })
        } else {
            open_literal(
                k,
                i,
                3,
                LexMode::Str {
                    close: closing(n2),
                    regexp: k == TokenKind::tREGEXP_BEG,
                    interp: k != TokenKind::tSTRING_BEG,
                },
            )
        },
        _ => if is_delim(n1) {
            open_literal(
                TokenKind::tDSTRING_BEG,
                i,
                2,
                LexMode::Str { close: closing(n1), regexp: false, interp: true },
            )
        } else {
            emit(TokenKind::tPERCENT, i, i + 1, true)
        },
    }
}

/// Punctuation and operators at `i`.
pub open spec fn punct_step(src: Seq<u8>, i: int, beg: bool) -> Step {
    let c = at(src, i);
    let n1 = at(src, i + 1);
    let n2 = at(src, i + 2);
    if c == 40 {
        emit(TokenKind::tLPAREN, i, i + 1, true)
    } else if c == 41 {
        emit(TokenKind::tRPAREN, i, i + 1, false)
    } else if c == 91 {
        emit(TokenKind::tLBRACK, i, i + 1, true)
    } else if c == 93 {
        emit(TokenKind::tRBRACK, i, i + 1, false)
    } else if c == 123 {
        emit(TokenKind::tLCURLY, i, i + 1, true)
    } else if c == 125 {
        emit(TokenKind::tRCURLY, i, i + 1, false)
    } else if c == 44 {
        emit(TokenKind::tCOMMA, i, i + 1, true)
    } else if c == 46 {
        if n1 == 46 && n2 == 46 {
            emit(if beg { TokenKind::tBDOT3 } else { TokenKind::tDOT3 }, i, i + 3, true)
        } else if n1 == 46 {
            emit(if beg { TokenKind::tBDOT2 } else { TokenKind::tDOT2 }, i, i + 2, true)
        } else {
            emit(TokenKind::tDOT, i, i + 1, true)
        }
    } else if c == 58 {
        if n1 == 58 {
            emit(TokenKind::tCOLON2, i, i + 2, true)
        } else if n1 == 34 {
            open_literal(
                TokenKind::tDSYMBEG,
                i,
                2,
                LexMode::Str { close: 34, regexp: false, interp: true },
            )
        } else if n1 == 39 {
            open_literal(
                TokenKind::tSYMBEG,
                i,
                2,
                LexMode::Str { close: 39, regexp: false, interp: false },
            )
        } else {
            emit(TokenKind::tCOLON, i, i + 1, true)
        }
    } else if c == 61 {
        if n1 == 61 && n2 == 61 {
            emit(TokenKind::tEQQ, i, i + 3, true)
        } else if n1 == 61 {
            emit(TokenKind::tEQ, i, i + 2, true)
        } else if n1 == 126 {
            emit(TokenKind::tMATCH, i, i + 2, true)
        } else if n1 == 62 {
            emit(TokenKind::tASSOC, i, i + 2, true)
        } else {
            emit(TokenKind::tEQL, i, i + 1, true)
        }
    } else if c == 33 {
        if n1 == 61 {
            emit(TokenKind::tNEQ, i, i + 2, true)
        } else if n1 == 126 {
            emit(TokenKind::tNMATCH, i, i + 2, true)
        } else {
            emit(TokenKind::tBANG, i, i + 1, true)
        }
    } else if c == 60 {
        if n1 == 61 && n2 == 62 {
            emit(TokenKind::tCMP, i, i + 3, true)
        } else if n1 == 61 {
            emit(TokenKind::tLEQ, i, i + 2, true)
        } else if n1 == 60 {
            emit(TokenKind::tLSHFT, i, i + 2, true)
        } else {
            emit(TokenKind::tLT, i, i + 1, true)
        }
    } else if c == 62 {
        if n1 == 61 {
            emit(TokenKind::tGEQ, i, i + 2, true)
        } else if n1 == 62 {
            emit(TokenKind::tRSHFT, i, i + 2, true)
        } else {
            emit(TokenKind::tGT, i, i + 1, true)
        }
    } else if c == 43 {
        emit(if beg { TokenKind::tUPLUS } else { TokenKind::tPLUS }, i, i + 1, true)
    } else if c == 45 {
        if n1 == 62 {
            emit(TokenKind::tLAMBDA, i, i + 2, true)
        } else if beg && is_digit(n1) {
            emit(TokenKind::tUMINUS_NUM, i, i + 1, true)
        } else if beg {
            emit(TokenKind::tUMINUS, i, i + 1, true)
        } else {
            emit(TokenKind::tMINUS, i, i + 1, true)
        }
    } else if c == 42 {
        if n1 == 42 {
            emit(if beg { TokenKind::tDSTAR } else { TokenKind::tPOW }, i, i + 2, true)
        } else {
            emit(TokenKind::tSTAR, i, i + 1, true)
        }
    } else if c == 47 {
        if beg {
            open_literal(
                TokenKind::tREGEXP_BEG,
                i,
                1,
                LexMode::Str { close: 47, regexp: true, interp: true },
            )
        } else {
            emit(TokenKind::tDIVIDE, i, i + 1, true)
        }
    } else if c == 37 {
        if beg {
            percent_step(src, i)
        } else {
            emit(TokenKind::tPERCENT, i, i + 1, true)
        }
    } else if c == 38 {
        if n1 == 38 {
            emit(TokenKind::tANDOP, i, i + 2, true)
        } else {
            emit(TokenKind::tAMPER, i, i + 1, true)
        }
    } else if c == 124 {
        if n1 == 124 {
            emit(TokenKind::tOROP, i, i + 2, true)
        } else {
            emit(TokenKind::tPIPE, i, i + 1, true)
        }
    } else if c == 94 {
        emit(TokenKind::tCARET, i, i + 1, true)
    } else if c == 126 {
        emit(TokenKind::tTILDE, i, i + 1, true)
    } else if c == 63 {
        if beg && is_char_literal(n1, n2) {
            (
                Some(
                    Token {
                        kind: TokenKind::tCHAR,
                        loc: Loc { start: i as usize, end: (i + 2) as usize },
                        value: Some(Loc { start: (i + 1) as usize, end: (i + 2) as usize }),
                    },
                ),
                i + 2,
                code(false),
            )
        } else {
            emit(TokenKind::tEH, i, i + 1, true)
        }
    } else {
        emit(TokenKind::tERROR, i, i + 1, true)
    }
}

/// One step in ordinary code at `i`.
pub open spec fn code_step(src: Seq<u8>, i: int, beg: bool) -> Step {
    let c = at(src, i);
    if is_blank(c) {
        (None, blank_end(src, i), code(beg))
    } else if c == 10 {
        if beg {
            (None, i + 1, code(true))
        } else {
            emit(TokenKind::tNL, i, i + 1, true)
        }
    } else if c == 92 && at(src, i + 1) == 10 {
        (None, i + 2, code(beg))
    } else if c == 35 {
        (None, line_end(src, i), code(beg))
    } else if c == 59 {
        emit(TokenKind::tSEMI, i, i + 1, true)
    } else if is_digit(c) {
        number_step(src, i)
    } else if is_ident_start(c) || is_upper(c) {
        word_step(src, i)
    } else if c == 64 {
        ivar_step(src, i)
    } else if c == 36 {
        gvar_step(src, i)
    } else if c == 39 {
        open_literal(
            TokenKind::tSTRING_BEG,
            i,
            1,
            LexMode::Str { close: 39, regexp: false, interp: false },
        )
    } else if c == 34 {
        open_literal(
            TokenKind::tDSTRING_BEG,
            i,
            1,
            LexMode::Str { close: 34, regexp: false, interp: true },
        )
    } else if c == 96 {
        open_literal(
            TokenKind::tXSTRING_BEG,
            i,
            1,
            LexMode::Str { close: 96, regexp: false, interp: true },
        )
    } else {
        punct_step(src, i, beg)
    }
}

/// One step inside a quoted literal at `i`: its end, or a run of text.
pub open spec fn str_step(src: Seq<u8>, i: int, close: u8, regexp: bool, interp: bool) -> Step {
    if at(src, i) == close {
        emit(
            TokenKind::tSTRING_END,
            i,
            if regexp {
                lower_end(src, i + 1)
            } else {
                i + 1
            },
            false,
        )
    } else {
        let e = str_end(src, i, close, interp);
        (
            Some(plain(TokenKind::tSTRING_CONTENT, i, e)),
            e,
            LexState { mode: LexMode::Str { close, regexp, interp }, beg: false },
        )
    }
}

/// One step inside a `%w`-style list at `i`.
pub open spec fn words_step(src: Seq<u8>, i: int, close: u8, sep: bool) -> Step {
    let c = at(src, i);
    if is_space(c) {
        let e = space_end(src, i);
        if e < src.len() && src[e] != close && sep {
            (
                Some(plain(TokenKind::tSP, i, e)),
                e,
                LexState { mode: LexMode::Words { close, sep: false }, beg: false },
            )
        } else {
            (None, e, LexState { mode: LexMode::Words { close, sep }, beg: false })
        }
    } else if c == close {
        emit(TokenKind::tSTRING_END, i, i + 1, false)
    } else {
        let e = word_end(src, i, close);
        (
            Some(plain(TokenKind::tSTRING_CONTENT, i, e)),
            e,
            LexState { mode: LexMode::Words { close, sep: true }, beg: false },
        )
    }
}

/// Whether `?` followed by `c` and then `next` is a character literal such as `?a`: `c`
/// is a printable character other than a backslash, and no name goes on after it.
pub open spec fn is_char_literal(c: u8, next: u8) -> bool {
    33 <= c <= 126 && c != 92 && !(is_ident_char(c) && is_ident_char(next))
}

/// What stays open around the code being read: a `{` of the code itself, or the `#{` of
/// an interpolation in a literal (which goes on, after the matching `}`, in the mode
/// given by `close` and `regexp`).
#[derive(Clone, Copy, PartialEq, Eq, Structural, Debug)]
pub enum Frame {
    Brace,
    Interp { close: u8, regexp: bool },
}

/// What a step does to the stack of open frames.
#[derive(Clone, Copy, PartialEq, Eq, Structural, Debug)]
pub enum StackOp {
    Keep,
    Push(Frame),
    Pop,
}

/// A step together with what it does to the stack of open frames.
pub type Move = (Option<Token>, int, LexState, StackOp);

pub open spec fn keep(s: Step) -> Move {
    (s.0, s.1, s.2, StackOp::Keep)
}

/// The mode in which a literal with interpolation goes on.
pub open spec fn interp_mode(close: u8, regexp: bool) -> LexState {
    LexState { mode: LexMode::Str { close, regexp, interp: true }, beg: false }
}

/// One step in ordinary code at `i`, where `top` is the innermost open frame: a `{`
/// opens a frame, and a `}` closes one, ending the interpolation if it opened one.
pub open spec fn code_move(src: Seq<u8>, i: int, beg: bool, top: Option<Frame>) -> Move {
    let s = code_step(src, i, beg);
    if at(src, i) == 123 {
        (s.0, s.1, s.2, StackOp::Push(Frame::Brace))
    } else if at(src, i) == 125 {
        match top {
            Some(Frame::Interp { close, regexp }) => (
                Some(plain(TokenKind::tSTRING_DEND, i, i + 1)),
                i + 1,
                interp_mode(close, regexp),
                StackOp::Pop,
            ),
            Some(Frame::Brace) => (s.0, s.1, s.2, StackOp::Pop),
            None => keep(s),
        }
    } else {
        keep(s)
    }
}

/// One step inside a quoted literal at `i`: where interpolation is on, `#{` opens
/// code and `#` before a variable name reads that variable next.
pub open spec fn str_move(src: Seq<u8>, i: int, close: u8, regexp: bool, interp: bool) -> Move {
    if at(src, i) != close && interp && at(src, i) == 35 && at(src, i + 1) == 123 {
        (
            Some(plain(TokenKind::tSTRING_DBEG, i, i + 2)),
            i + 2,
            code(true),
            StackOp::Push(Frame::Interp { close, regexp }),
        )
    } else if at(src, i) != close && interp && interp_at(src, i) {
        (
            Some(plain(TokenKind::tSTRING_DVAR, i, i + 1)),
            i + 1,
            LexState { mode: LexMode::StrVar { close, regexp }, beg: false },
            StackOp::Keep,
        )
    } else {
        keep(str_step(src, i, close, regexp, interp))
    }
}

/// The variable of `#@var` or `#$var` at `i`, after which the literal goes on.
pub open spec fn var_move(src: Seq<u8>, i: int, close: u8, regexp: bool) -> Move {
    let s = if at(src, i) == 64 {
        ivar_step(src, i)
    } else {
        gvar_step(src, i)
    };
    (s.0, s.1, interp_mode(close, regexp), StackOp::Keep)
}

/// One lexer step at `i` in state `st`, with `top` the innermost open frame.
pub open spec fn lex_move(src: Seq<u8>, i: int, st: LexState, top: Option<Frame>) -> Move {
    match st.mode {
        LexMode::Code => code_move(src, i, st.beg, top),
        LexMode::Str { close, regexp, interp } => str_move(src, i, close, regexp, interp),
        LexMode::Words { close, sep } => keep(words_step(src, i, close, sep)),
        LexMode::StrVar { close, regexp } => var_move(src, i, close, regexp),
    }
}

/// The innermost open frame.
pub open spec fn top_of(stack: Seq<Frame>) -> Option<Frame> {
    if stack.len() > 0 {
        Some(stack.last())
    } else {
        None
    }
}

/// The stack of open frames after `op`.
pub open spec fn apply_op(stack: Seq<Frame>, op: StackOp) -> Seq<Frame> {
    match op {
        StackOp::Keep => stack,
        StackOp::Push(f) => stack.push(f),
        StackOp::Pop => if stack.len() > 0 {
            stack.drop_last()
        } else {
            stack
        },
    }
}

/// The end-of-input token.
pub open spec fn eof_token(src: Seq<u8>) -> Token {
    plain(TokenKind::tEOF, src.len() as int, src.len() as int)
}

/// The tokens of `src` from `i` on, in state `st` with the open frames `stack`, ending
/// with the end-of-input token.
pub open spec fn lex_from(src: Seq<u8>, i: int, st: LexState, stack: Seq<Frame>) -> Seq<Token>
    decreases src.len() - i,
{
    if i < 0 || i >= src.len() {
        seq![eof_token(src)]
    } else {
        let (t, j, st2, op) = lex_move(src, i, st, top_of(stack));
        let rest = if i < j <= src.len() {
            lex_from(src, j, st2, apply_op(stack, op))
        } else {
            seq![eof_token(src)]
        };
        match t {
            Some(tok) => seq![tok] + rest,
            None => rest,
        }
    }
}

/// The state at the start of input.
pub open spec fn initial_state() -> LexState {
    code(true)
}

/// All tokens of `src`.
pub open spec fn spec_tokenize(src: Seq<u8>) -> Seq<Token> {
    lex_from(src, 0, initial_state(), seq![])
}

} // verus!

verus! {

/// The token list always ends with the end-of-input token.
pub proof fn lemma_lex_from_ends_with_eof(src: Seq<u8>, i: int, st: LexState, stack: Seq<Frame>)
    ensures
        lex_from(src, i, st, stack).len() > 0,
        lex_from(src, i, st, stack).last() == eof_token(src),
    decreases src.len() - i,
{
    if !(i < 0 || i >= src.len()) {
        let (t, j, st2, op) = lex_move(src, i, st, top_of(stack));
        if i < j <= src.len() {
            lemma_lex_from_ends_with_eof(src, j, st2, apply_op(stack, op));
        }
        let rest = if i < j <= src.len() {
            lex_from(src, j, st2, apply_op(stack, op))
        } else {
            seq![eof_token(src)]
        };
        match t {
            Some(tok) => {
                assert((seq![tok] + rest).last() == rest.last());
            },
            None => {},
        }
    }
}

/// The tokens of any input end with `tEOF`.
pub proof fn lemma_tokens_end_with_eof(src: Seq<u8>)
    ensures
        spec_tokenize(src).len() > 0,
        spec_tokenize(src).last().kind == TokenKind::tEOF,
{
    lemma_lex_from_ends_with_eof(src, 0, initial_state(), seq![]);
}

} // verus!

verus! {

/// The token `t` read by a step from `i` that goes on at `j` lies between the two.
pub open spec fn token_within(t: Option<Token>, i: int, j: int) -> bool {
    match t {
        Some(tk) => i <= tk.loc.start <= tk.loc.end <= j,
        None => true,
    }
}

/// A step from `i` goes on no further than `n`, and its token lies between.
pub open spec fn step_within(s: Step, i: int, n: int) -> bool {
    s.1 <= n && token_within(s.0, i, s.1)
}

proof fn lemma_scan_ends(src: Seq<u8>, i: int)
    requires
        0 <= i <= src.len(),
    ensures
        i <= ident_end(src, i) <= src.len(),
        i <= digits_end(src, i) <= src.len(),
        i <= lower_end(src, i) <= src.len(),
        i <= blank_end(src, i) <= src.len(),
        i <= space_end(src, i) <= src.len(),
        i <= line_end(src, i) <= src.len(),
    decreases src.len() - i,
{
    if i < src.len() {
        lemma_scan_ends(src, i + 1);
    }
}

proof fn lemma_str_end(src: Seq<u8>, i: int, close: u8, interp: bool)
    requires
        0 <= i <= src.len(),
    ensures
        i <= str_end(src, i, close, interp) <= src.len(),
    decreases src.len() - i,
{
    if i < src.len() && src[i] != close && !(interp && interp_at(src, i)) {
        if src[i] == 92 && i + 1 < src.len() {
            lemma_str_end(src, i + 2, close, interp);
        } else {
            lemma_str_end(src, i + 1, close, interp);
        }
    }
}

proof fn lemma_word_end(src: Seq<u8>, i: int, close: u8)
    requires
        0 <= i <= src.len(),
    ensures
        i <= word_end(src, i, close) <= src.len(),
    decreases src.len() - i,
{
    if i < src.len() && !is_space(src[i]) && src[i] != close {
        lemma_word_end(src, i + 1, close);
    }
}

proof fn lemma_word_step(src: Seq<u8>, i: int)
    requires
        0 <= i < src.len() <= usize::MAX,
    ensures
        step_within(word_step(src, i), i, src.len() as int),
{
    lemma_scan_ends(src, i);
    lemma_scan_ends(src, ident_end(src, i));
}

proof fn lemma_number_step(src: Seq<u8>, i: int)
    requires
        0 <= i < src.len() <= usize::MAX,
    ensures
        step_within(number_step(src, i), i, src.len() as int),
{
    lemma_scan_ends(src, i);
    let e1 = digits_end(src, i);
    if at(src, e1) == 46 && is_digit(at(src, e1 + 1)) {
        lemma_scan_ends(src, e1 + 1);
    }
}

proof fn lemma_code_step(src: Seq<u8>, i: int, beg: bool)
    requires
        0 <= i < src.len() <= usize::MAX,
    ensures
        step_within(code_step(src, i, beg), i, src.len() as int),
{
    lemma_scan_ends(src, i);
    lemma_scan_ends(src, i + 1);
    let c = at(src, i);
    if is_digit(c) {
        lemma_number_step(src, i);
    } else if is_ident_start(c) || is_upper(c) {
        lemma_word_step(src, i);
    }
    if c == 64 && at(src, i + 1) == 64 {
        lemma_scan_ends(src, i + 2);
    }
}

proof fn lemma_str_step(src: Seq<u8>, i: int, close: u8, regexp: bool, interp: bool)
    requires
        0 <= i < src.len() <= usize::MAX,
    ensures
        step_within(str_step(src, i, close, regexp, interp), i, src.len() as int),
{
    lemma_scan_ends(src, i + 1);
    lemma_str_end(src, i, close, interp);
}

proof fn lemma_words_step(src: Seq<u8>, i: int, close: u8, sep: bool)
    requires
        0 <= i < src.len() <= usize::MAX,
    ensures
        step_within(words_step(src, i, close, sep), i, src.len() as int),
{
    lemma_scan_ends(src, i);
    lemma_word_end(src, i, close);
}

/// One move from `i` goes on no further than the end of input, and its token lies
/// between `i` and where it goes on.
proof fn lemma_move_within(src: Seq<u8>, i: int, st: LexState, top: Option<Frame>)
    requires
        0 <= i < src.len() <= usize::MAX,
    ensures
        lex_move(src, i, st, top).1 <= src.len(),
        token_within(lex_move(src, i, st, top).0, i, lex_move(src, i, st, top).1),
{
    match st.mode {
        LexMode::Code => lemma_code_step(src, i, st.beg),
        LexMode::Str { close, regexp, interp } => lemma_str_step(src, i, close, regexp, interp),
        LexMode::Words { close, sep } => lemma_words_step(src, i, close, sep),
        LexMode::StrVar { close, regexp } => {
            lemma_scan_ends(src, i + 1);
            if i + 2 <= src.len() {
                lemma_scan_ends(src, i + 2);
            }
        },
    }
}

/// The tokens read from `i` on lie between `i` and the end of input, each ending where
/// or before the next one starts.
proof fn lemma_lex_from_ordered(src: Seq<u8>, i: int, st: LexState, stack: Seq<Frame>)
    requires
        0 <= i <= src.len() <= usize::MAX,
    ensures
        forall|k: int|
            0 <= k < lex_from(src, i, st, stack).len() ==> i <= #[trigger] lex_from(
                src,
                i,
                st,
                stack,
            )[k].loc.start <= lex_from(src, i, st, stack)[k].loc.end <= src.len(),
        forall|k: int|
            0 <= k < lex_from(src, i, st, stack).len() - 1 ==> #[trigger] lex_from(
                src,
                i,
                st,
                stack,
            )[k].loc.end <= lex_from(src, i, st, stack)[k + 1].loc.start,
    decreases src.len() - i,
{
    let ts = lex_from(src, i, st, stack);
    if i < src.len() {
        let (t, j, st2, op) = lex_move(src, i, st, top_of(stack));
        lemma_move_within(src, i, st, top_of(stack));
        let rest = if i < j <= src.len() {
            lex_from(src, j, st2, apply_op(stack, op))
        } else {
            seq![eof_token(src)]
        };
        if i < j <= src.len() {
            lemma_lex_from_ordered(src, j, st2, apply_op(stack, op));
        }
        assert(forall|k: int|
            0 <= k < rest.len() ==> j <= #[trigger] rest[k].loc.start <= rest[k].loc.end
                <= src.len() || (rest[k].loc.start == src.len() && rest[k].loc.end == src.len()));
        match t {
            Some(tok) => {
                assert(ts == seq![tok] + rest);
                assert forall|k: int| 0 <= k < ts.len() implies i <= #[trigger] ts[k].loc.start
                    <= ts[k].loc.end <= src.len() by {
                    if k > 0 {
                        assert(ts[k] == rest[k - 1]);
                    }
                }
                assert forall|k: int| 0 <= k < ts.len() - 1 implies #[trigger] ts[k].loc.end
                    <= ts[k + 1].loc.start by {
                    assert(ts[k + 1] == rest[k]);
                    if k > 0 {
                        assert(ts[k] == rest[k - 1]);
                    }
                }
            },
            None => {
                assert(ts == rest);
            },
        }
    }
}

/// Every token of `src` lies within it, and each ends where or before the next one
/// starts: the tokens come in the order of the text and never overlap.
pub proof fn law_tokens_in_order(src: Seq<u8>)
    requires
        src.len() <= usize::MAX,
    ensures
        forall|k: int|
            0 <= k < spec_tokenize(src).len() ==> #[trigger] spec_tokenize(src)[k].loc.start
                <= spec_tokenize(src)[k].loc.end <= src.len(),
        forall|k: int|
            0 <= k < spec_tokenize(src).len() - 1 ==> #[trigger] spec_tokenize(src)[k].loc.end
                <= spec_tokenize(src)[k + 1].loc.start,
{
    lemma_lex_from_ordered(src, 0, initial_state(), seq![]);
}

} // verus!

verus! {

/// How each binary operator is spelled, with `=>` and `->`, and the other punctuation
/// of a fixed spelling but for the braces (which open and close frames) and `:` (which
/// also begins a symbol).
pub open spec fn operator_spelling(k: TokenKind) -> Option<Seq<u8>> {
    if k == TokenKind::tPOW {
        Some(seq![42u8, 42u8])
    } else if k == TokenKind::tSTAR {
        Some(seq![42u8])
    } else if k == TokenKind::tDIVIDE {
        Some(seq![47u8])
    } else if k == TokenKind::tPERCENT {
        Some(seq![37u8])
    } else if k == TokenKind::tPLUS {
        Some(seq![43u8])
    } else if k == TokenKind::tMINUS {
        Some(seq![45u8])
    } else if k == TokenKind::tLSHFT {
        Some(seq![60u8, 60u8])
    } else if k == TokenKind::tRSHFT {
        Some(seq![62u8, 62u8])
    } else if k == TokenKind::tAMPER {
        Some(seq![38u8])
    } else if k == TokenKind::tPIPE {
        Some(seq![124u8])
    } else if k == TokenKind::tCARET {
        Some(seq![94u8])
    } else if k == TokenKind::tGT {
        Some(seq![62u8])
    } else if k == TokenKind::tGEQ {
        Some(seq![62u8, 61u8])
    } else if k == TokenKind::tLT {
        Some(seq![60u8])
    } else if k == TokenKind::tLEQ {
        Some(seq![60u8, 61u8])
    } else if k == TokenKind::tCMP {
        Some(seq![60u8, 61u8, 62u8])
    } else if k == TokenKind::tEQ {
        Some(seq![61u8, 61u8])
    } else if k == TokenKind::tEQQ {
        Some(seq![61u8, 61u8, 61u8])
    } else if k == TokenKind::tNEQ {
        Some(seq![33u8, 61u8])
    } else if k == TokenKind::tMATCH {
        Some(seq![61u8, 126u8])
    } else if k == TokenKind::tNMATCH {
        Some(seq![33u8, 126u8])
    } else if k == TokenKind::tANDOP {
        Some(seq![38u8, 38u8])
    } else if k == TokenKind::tOROP {
        Some(seq![124u8, 124u8])
    } else if k == TokenKind::tDOT2 {
        Some(seq![46u8, 46u8])
    } else if k == TokenKind::tDOT3 {
        Some(seq![46u8, 46u8, 46u8])
    } else if k == TokenKind::tEH {
        Some(seq![63u8])
    } else if k == TokenKind::tASSOC {
        Some(seq![61u8, 62u8])
    } else if k == TokenKind::tLAMBDA {
        Some(seq![45u8, 62u8])
    } else if k == TokenKind::tEQL {
        Some(seq![61u8])
    } else if k == TokenKind::tBANG {
        Some(seq![33u8])
    } else if k == TokenKind::tTILDE {
        Some(seq![126u8])
    } else if k == TokenKind::tDOT {
        Some(seq![46u8])
    } else if k == TokenKind::tCOLON2 {
        Some(seq![58u8, 58u8])
    } else if k == TokenKind::tCOMMA {
        Some(seq![44u8])
    } else if k == TokenKind::tSEMI {
        Some(seq![59u8])
    } else if k == TokenKind::tLPAREN {
        Some(seq![40u8])
    } else if k == TokenKind::tRPAREN {
        Some(seq![41u8])
    } else if k == TokenKind::tLBRACK {
        Some(seq![91u8])
    } else if k == TokenKind::tRBRACK {
        Some(seq![93u8])
    } else {
        None
    }
}

/// Whether an operand is expected after the token `k`: after all punctuation but a
/// closing `)` or `]`.
pub open spec fn operand_expected_after(k: TokenKind) -> bool {
    !(k == TokenKind::tRPAREN || k == TokenKind::tRBRACK)
}

/// The bytes of `src` from `i` on begin with `s`.
pub open spec fn starts_with(src: Seq<u8>, i: int, s: Seq<u8>) -> bool {
    0 <= i && i + s.len() <= src.len() && src.subrange(i, i + s.len()) == s
}

/// The spelling of `k` begins at `i`, and no longer spelling of the table does.
pub open spec fn longest_operator_at(src: Seq<u8>, i: int, k: TokenKind) -> bool {
    &&& operator_spelling(k) is Some
    &&& starts_with(src, i, operator_spelling(k).unwrap())
    &&& forall|k2: TokenKind|
        #[trigger] operator_spelling(k2) is Some && operator_spelling(k2).unwrap().len()
            > operator_spelling(k).unwrap().len() ==> !starts_with(
            src,
            i,
            operator_spelling(k2).unwrap(),
        )
}

/// The kinds of the spelling table that read the same where an operand is expected:
/// all but `+`, `-`, `**`, `/`, `%`, `..`, `...` and `?`, which there begin a unary
/// operator, a splat, a regular expression, a percent literal, a beginless range or a
/// character literal.
pub open spec fn same_before_operand(k: TokenKind) -> bool {
    !(k == TokenKind::tPLUS || k == TokenKind::tMINUS || k == TokenKind::tPOW || k
        == TokenKind::tDIVIDE || k == TokenKind::tPERCENT || k == TokenKind::tDOT2 || k
        == TokenKind::tDOT3 || k == TokenKind::tEH)
}

/// `starts_with` for spellings of one to three bytes, byte by byte.
proof fn lemma_starts_with(src: Seq<u8>, i: int, s: Seq<u8>)
    requires
        0 <= i,
        1 <= s.len() <= 3,
    ensures
        starts_with(src, i, s) <==> (i + s.len() <= src.len() && at(src, i) == s[0] && (s.len()
            >= 2 ==> at(src, i + 1) == s[1]) && (s.len() >= 3 ==> at(src, i + 2) == s[2])),
{
    if i + s.len() <= src.len() {
        let w = src.subrange(i, i + s.len());
        assert(w.len() == s.len());
        assert(w[0] == at(src, i));
        if s.len() >= 2 {
            assert(w[1] == at(src, i + 1));
        }
        if s.len() >= 3 {
            assert(w[2] == at(src, i + 2));
        }
        if at(src, i) == s[0] && (s.len() >= 2 ==> at(src, i + 1) == s[1]) && (s.len() >= 3
            ==> at(src, i + 2) == s[2]) {
            assert(w =~= s);
        }
    }
}

/// Where a spelling of the table is the longest that begins at `i` in code, the lexer
/// reads it whole as one token of its kind: `<=>` is one `tCMP` token over its three
/// bytes, `===` one `tEQQ`, `**` one `tPOW`, `->` one `tLAMBDA`, `::` one `tCOLON2`.
/// An operand is expected after it but after `)` and `]`. This holds after an operand;
/// where an operand is expected it holds of the kinds of `same_before_operand`.
#[verifier::rlimit(40)]
#[verifier::spinoff_prover]
pub proof fn law_operator_longest_match(
    src: Seq<u8>,
    i: int,
    k: TokenKind,
    beg: bool,
    top: Option<Frame>,
)
    requires
        longest_operator_at(src, i, k),
        !beg || same_before_operand(k),
    ensures
        ({
            let n = operator_spelling(k).unwrap().len() as int;
            lex_move(src, i, code(beg), top) == (
                Some(plain(k, i, i + n)),
                i + n,
                code(operand_expected_after(k)),
                StackOp::Keep,
            )
        }),
{
    let s = operator_spelling(k).unwrap();
    lemma_starts_with(src, i, s);
    let longer = |k2: TokenKind|
        operator_spelling(k2) is Some && operator_spelling(k2).unwrap().len() > s.len();
    assert(longer(TokenKind::tPOW) ==> !starts_with(src, i, seq![42u8, 42u8]));
    lemma_starts_with(src, i, seq![42u8, 42u8]);
    assert(longer(TokenKind::tLSHFT) ==> !starts_with(src, i, seq![60u8, 60u8]));
    lemma_starts_with(src, i, seq![60u8, 60u8]);
    assert(longer(TokenKind::tRSHFT) ==> !starts_with(src, i, seq![62u8, 62u8]));
    lemma_starts_with(src, i, seq![62u8, 62u8]);
    assert(longer(TokenKind::tGEQ) ==> !starts_with(src, i, seq![62u8, 61u8]));
    lemma_starts_with(src, i, seq![62u8, 61u8]);
    assert(longer(TokenKind::tLEQ) ==> !starts_with(src, i, seq![60u8, 61u8]));
    lemma_starts_with(src, i, seq![60u8, 61u8]);
    assert(longer(TokenKind::tCMP) ==> !starts_with(src, i, seq![60u8, 61u8, 62u8]));
    lemma_starts_with(src, i, seq![60u8, 61u8, 62u8]);
    assert(longer(TokenKind::tEQ) ==> !starts_with(src, i, seq![61u8, 61u8]));
    lemma_starts_with(src, i, seq![61u8, 61u8]);
    assert(longer(TokenKind::tEQQ) ==> !starts_with(src, i, seq![61u8, 61u8, 61u8]));
    lemma_starts_with(src, i, seq![61u8, 61u8, 61u8]);
    assert(longer(TokenKind::tNEQ) ==> !starts_with(src, i, seq![33u8, 61u8]));
    lemma_starts_with(src, i, seq![33u8, 61u8]);
    assert(longer(TokenKind::tMATCH) ==> !starts_with(src, i, seq![61u8, 126u8]));
    lemma_starts_with(src, i, seq![61u8, 126u8]);
    assert(longer(TokenKind::tNMATCH) ==> !starts_with(src, i, seq![33u8, 126u8]));
    lemma_starts_with(src, i, seq![33u8, 126u8]);
    assert(longer(TokenKind::tANDOP) ==> !starts_with(src, i, seq![38u8, 38u8]));
    lemma_starts_with(src, i, seq![38u8, 38u8]);
    assert(longer(TokenKind::tOROP) ==> !starts_with(src, i, seq![124u8, 124u8]));
    lemma_starts_with(src, i, seq![124u8, 124u8]);
    assert(longer(TokenKind::tDOT2) ==> !starts_with(src, i, seq![46u8, 46u8]));
    lemma_starts_with(src, i, seq![46u8, 46u8]);
    assert(longer(TokenKind::tDOT3) ==> !starts_with(src, i, seq![46u8, 46u8, 46u8]));
    lemma_starts_with(src, i, seq![46u8, 46u8, 46u8]);
    assert(longer(TokenKind::tASSOC) ==> !starts_with(src, i, seq![61u8, 62u8]));
    lemma_starts_with(src, i, seq![61u8, 62u8]);
    assert(longer(TokenKind::tLAMBDA) ==> !starts_with(src, i, seq![45u8, 62u8]));
    lemma_starts_with(src, i, seq![45u8, 62u8]);
    assert(longer(TokenKind::tCOLON2) ==> !starts_with(src, i, seq![58u8, 58u8]));
    lemma_starts_with(src, i, seq![58u8, 58u8]);
}

} // verus!
