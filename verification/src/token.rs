use vstd::prelude::*;
use crate::loc::Loc;

verus! {

/// Kinds of tokens produced by the lexer. `t...` are punctuation and literals,
/// `k...` are keywords (`kl...` the upper-case `BEGIN`/`END` ones).
#[allow(non_camel_case_types)]
#[derive(Clone, Copy, PartialEq, Eq, Structural, Debug)]
pub enum TokenKind {
    tINTEGER,
    tFLOAT,
    tRATIONAL,
    tIMAGINARY,
    tUMINUS_NUM,
    tIDENTIFIER,
    tFID,
    tCONSTANT,
    tIVAR,
    tCVAR,
    tGVAR,
    tBACK_REF,
    tNTH_REF,
    tLABEL,
    tCHAR,
    tSTRING_DBEG,
    tSTRING_DEND,
    tSTRING_DVAR,
    kALIAS,
    kAND,
    kBEGIN,
    klBEGIN,
    kBREAK,
    kCASE,
    kCLASS,
    kDEF,
    kDEFINED,
    kDO,
    kELSE,
    kELSIF,
    kEND,
    klEND,
    kENSURE,
    kFALSE,
    kFOR,
    kIF,
    kIN,
    kMODULE,
    kNEXT,
    kNIL,
    kNOT,
    kOR,
    kREDO,
    kRESCUE,
    kRETRY,
    kRETURN,
    kSELF,
    kSUPER,
    kTHEN,
    kTRUE,
    kUNDEF,
    kUNLESS,
    kUNTIL,
    kWHEN,
    kWHILE,
    kYIELD,
    k__FILE__,
    k__LINE__,
    k__ENCODING__,
    tSTRING_BEG,
    tDSTRING_BEG,
    tXSTRING_BEG,
    tREGEXP_BEG,
    tSYMBEG,
    tDSYMBEG,
    tWORDS_BEG,
    tQWORDS_BEG,
    tSYMBOLS_BEG,
    tQSYMBOLS_BEG,
    tSTRING_CONTENT,
    tSTRING_END,
    tSP,
    tLPAREN,
    tRPAREN,
    tLBRACK,
    tRBRACK,
    tLCURLY,
    tRCURLY,
    tCOMMA,
    tSEMI,
    tNL,
    tDOT,
    tDOT2,
    tDOT3,
    tBDOT2,
    tBDOT3,
    tCOLON,
    tCOLON2,
    tASSOC,
    tEQL,
    tEQ,
    tEQQ,
    tNEQ,
    tMATCH,
    tNMATCH,
    tCMP,
    tLT,
    tLEQ,
    tGT,
    tGEQ,
    tLSHFT,
    tRSHFT,
    tPLUS,
    tMINUS,
    tUPLUS,
    tUMINUS,
    tSTAR,
    tDSTAR,
    tPOW,
    tDIVIDE,
    tPERCENT,
    tAMPER,
    tANDOP,
    tPIPE,
    tOROP,
    tCARET,
    tTILDE,
    tBANG,
    tEH,
    tLAMBDA,
    tERROR,
    tEOF,
}

/// A token: its kind and where it stands in the source. `value` is the location of
/// the bare name of a `tLABEL` (the label without its trailing `:`), and `None` for
/// every other kind.
#[derive(Clone, Copy, PartialEq, Eq, Structural, Debug)]
pub struct Token {
    pub kind: TokenKind,
    pub loc: Loc,
    pub value: Option<Loc>,
}

impl Token {
    /// Whether this token has the given kind.
    pub fn is(&self, kind: TokenKind) -> (r: bool)
        ensures
            r == (self.kind == kind),
    {
        self.kind == kind
    }
}

/// A token without a value.
pub open spec fn plain(kind: TokenKind, start: int, end: int) -> Token {
    Token { kind, loc: Loc { start: start as usize, end: end as usize }, value: None }
}

} // verus!
