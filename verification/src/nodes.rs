use vstd::prelude::*;
use crate::loc::Loc;

verus! {

/// The kinds of syntax tree nodes.
#[derive(Clone, Copy, PartialEq, Eq, Structural, Debug)]
pub enum NodeKind {
    Int,
    Float,
    Rational,
    Complex,
    Sym,
    Str,
    Dstr,
    Dsym,
    Xstr,
    Regexp,
    RegOpt,
    Array,
    Pair,
    Splat,
    Kwsplat,
    Hash,
    Lvar,
    Ivar,
    Gvar,
    Cvar,
    BackRef,
    NthRef,
    Const,
    Cbase,
    Class,
    SClass,
    Module,
    Def,
    Defs,
    Args,
    Arg,
    Optarg,
    Restarg,
    Kwarg,
    Kwoptarg,
    Kwrestarg,
    Blockarg,
    Mlhs,
    Begin,
    Alias,
    Defined,
    For,
    If,
    Break,
    Next,
    Redo,
    Retry,
    Return,
    Nil,
    Self_,
    True,
    False,
    File,
    Line,
    Encoding,
    RescueBody,
    Rescue,
    Ensure,
    Postexe,
    Preexe,
    Send,
    And,
    Or,
    Irange,
    Erange,
    Lvasgn,
    Ivasgn,
    Gvasgn,
    Cvasgn,
    Casgn,
    Yield,
    OpAsgn,
    OrAsgn,
    AndAsgn,
    Index,
    IndexAsgn,
}

/// The name a node kind is printed with.
pub open spec fn kind_name(k: NodeKind) -> Seq<u8> {
    match k {
        NodeKind::Int => seq![105u8, 110u8, 116u8],
        NodeKind::Float => seq![102u8, 108u8, 111u8, 97u8, 116u8],
        NodeKind::Rational => seq![114u8, 97u8, 116u8, 105u8, 111u8, 110u8, 97u8, 108u8],
        NodeKind::Complex => seq![99u8, 111u8, 109u8, 112u8, 108u8, 101u8, 120u8],
        NodeKind::Sym => seq![115u8, 121u8, 109u8],
        NodeKind::Str => seq![115u8, 116u8, 114u8],
        NodeKind::Dstr => seq![100u8, 115u8, 116u8, 114u8],
        NodeKind::Dsym => seq![100u8, 115u8, 121u8, 109u8],
        NodeKind::Xstr => seq![120u8, 115u8, 116u8, 114u8],
        NodeKind::Regexp => seq![114u8, 101u8, 103u8, 101u8, 120u8, 112u8],
        NodeKind::RegOpt => seq![114u8, 101u8, 103u8, 111u8, 112u8, 116u8],
        NodeKind::Array => seq![97u8, 114u8, 114u8, 97u8, 121u8],
        NodeKind::Pair => seq![112u8, 97u8, 105u8, 114u8],
        NodeKind::Splat => seq![115u8, 112u8, 108u8, 97u8, 116u8],
        NodeKind::Kwsplat => seq![107u8, 119u8, 115u8, 112u8, 108u8, 97u8, 116u8],
        NodeKind::Hash => seq![104u8, 97u8, 115u8, 104u8],
        NodeKind::Lvar => seq![108u8, 118u8, 97u8, 114u8],
        NodeKind::Ivar => seq![105u8, 118u8, 97u8, 114u8],
        NodeKind::Gvar => seq![103u8, 118u8, 97u8, 114u8],
        NodeKind::Cvar => seq![99u8, 118u8, 97u8, 114u8],
        NodeKind::BackRef => seq![98u8, 97u8, 99u8, 107u8, 95u8, 114u8, 101u8, 102u8],
        NodeKind::NthRef => seq![110u8, 116u8, 104u8, 95u8, 114u8, 101u8, 102u8],
        NodeKind::Const => seq![99u8, 111u8, 110u8, 115u8, 116u8],
        NodeKind::Cbase => seq![99u8, 98u8, 97u8, 115u8, 101u8],
        NodeKind::Class => seq![99u8, 108u8, 97u8, 115u8, 115u8],
        NodeKind::SClass => seq![115u8, 99u8, 108u8, 97u8, 115u8, 115u8],
        NodeKind::Module => seq![109u8, 111u8, 100u8, 117u8, 108u8, 101u8],
        NodeKind::Def => seq![100u8, 101u8, 102u8],
        NodeKind::Defs => seq![100u8, 101u8, 102u8, 115u8],
        NodeKind::Args => seq![97u8, 114u8, 103u8, 115u8],
        NodeKind::Arg => seq![97u8, 114u8, 103u8],
        NodeKind::Optarg => seq![111u8, 112u8, 116u8, 97u8, 114u8, 103u8],
        NodeKind::Restarg => seq![114u8, 101u8, 115u8, 116u8, 97u8, 114u8, 103u8],
        NodeKind::Kwarg => seq![107u8, 119u8, 97u8, 114u8, 103u8],
        NodeKind::Kwoptarg => seq![107u8, 119u8, 111u8, 112u8, 116u8, 97u8, 114u8, 103u8],
        NodeKind::Kwrestarg => seq![107u8, 119u8, 114u8, 101u8, 115u8, 116u8, 97u8, 114u8, 103u8],
        NodeKind::Blockarg => seq![98u8, 108u8, 111u8, 99u8, 107u8, 97u8, 114u8, 103u8],
        NodeKind::Mlhs => seq![109u8, 108u8, 104u8, 115u8],
        NodeKind::Begin => seq![98u8, 101u8, 103u8, 105u8, 110u8],
        NodeKind::Alias => seq![97u8, 108u8, 105u8, 97u8, 115u8],
        NodeKind::Defined => seq![100u8, 101u8, 102u8, 105u8, 110u8, 101u8, 100u8, 63u8],
        NodeKind::For => seq![102u8, 111u8, 114u8],
        NodeKind::If => seq![105u8, 102u8],
        NodeKind::Break => seq![98u8, 114u8, 101u8, 97u8, 107u8],
        NodeKind::Next => seq![110u8, 101u8, 120u8, 116u8],
        NodeKind::Redo => seq![114u8, 101u8, 100u8, 111u8],
        NodeKind::Retry => seq![114u8, 101u8, 116u8, 114u8, 121u8],
        NodeKind::Return => seq![114u8, 101u8, 116u8, 117u8, 114u8, 110u8],
        NodeKind::Nil => seq![110u8, 105u8, 108u8],
        NodeKind::Self_ => seq![115u8, 101u8, 108u8, 102u8],
        NodeKind::True => seq![116u8, 114u8, 117u8, 101u8],
        NodeKind::False => seq![102u8, 97u8, 108u8, 115u8, 101u8],
        NodeKind::File => seq![95u8, 95u8, 70u8, 73u8, 76u8, 69u8, 95u8, 95u8],
        NodeKind::Line => seq![95u8, 95u8, 76u8, 73u8, 78u8, 69u8, 95u8, 95u8],
        NodeKind::Encoding => seq![95u8, 95u8, 69u8, 78u8, 67u8, 79u8, 68u8, 73u8, 78u8, 71u8, 95u8, 95u8],
        NodeKind::RescueBody => seq![114u8, 101u8, 115u8, 98u8, 111u8, 100u8, 121u8],
        NodeKind::Rescue => seq![114u8, 101u8, 115u8, 99u8, 117u8, 101u8],
        NodeKind::Ensure => seq![101u8, 110u8, 115u8, 117u8, 114u8, 101u8],
        NodeKind::Postexe => seq![112u8, 111u8, 115u8, 116u8, 101u8, 120u8, 101u8],
        NodeKind::Preexe => seq![112u8, 114u8, 101u8, 101u8, 120u8, 101u8],
        NodeKind::Send => seq![115u8, 101u8, 110u8, 100u8],
        NodeKind::And => seq![97u8, 110u8, 100u8],
        NodeKind::Or => seq![111u8, 114u8],
        NodeKind::Irange => seq![105u8, 114u8, 97u8, 110u8, 103u8, 101u8],
        NodeKind::Erange => seq![101u8, 114u8, 97u8, 110u8, 103u8, 101u8],
        NodeKind::Lvasgn => seq![108u8, 118u8, 97u8, 115u8, 103u8, 110u8],
        NodeKind::Ivasgn => seq![105u8, 118u8, 97u8, 115u8, 103u8, 110u8],
        NodeKind::Gvasgn => seq![103u8, 118u8, 97u8, 115u8, 103u8, 110u8],
        NodeKind::Cvasgn => seq![99u8, 118u8, 97u8, 115u8, 103u8, 110u8],
        NodeKind::Casgn => seq![99u8, 97u8, 115u8, 103u8, 110u8],
        NodeKind::Yield => seq![121u8, 105u8, 101u8, 108u8, 100u8],
        NodeKind::OpAsgn => seq![111u8, 112u8, 95u8, 97u8, 115u8, 103u8, 110u8],
        NodeKind::OrAsgn => seq![111u8, 114u8, 95u8, 97u8, 115u8, 103u8, 110u8],
        NodeKind::AndAsgn => seq![97u8, 110u8, 100u8, 95u8, 97u8, 115u8, 103u8, 110u8],
        NodeKind::Index => seq![105u8, 110u8, 100u8, 101u8, 120u8],
        NodeKind::IndexAsgn => seq![105u8, 110u8, 100u8, 101u8, 120u8, 97u8, 115u8, 103u8, 110u8],
    }
}

/// The name a node kind is printed with.
pub fn kind_name_bytes(k: NodeKind) -> (r: &'static [u8])
    ensures
        r@ == kind_name(k),
{
    match k {
        NodeKind::Int => &[105u8, 110u8, 116u8],
        NodeKind::Float => &[102u8, 108u8, 111u8, 97u8, 116u8],
        NodeKind::Rational => &[114u8, 97u8, 116u8, 105u8, 111u8, 110u8, 97u8, 108u8],
        NodeKind::Complex => &[99u8, 111u8, 109u8, 112u8, 108u8, 101u8, 120u8],
        NodeKind::Sym => &[115u8, 121u8, 109u8],
        NodeKind::Str => &[115u8, 116u8, 114u8],
        NodeKind::Dstr => &[100u8, 115u8, 116u8, 114u8],
        NodeKind::Dsym => &[100u8, 115u8, 121u8, 109u8],
        NodeKind::Xstr => &[120u8, 115u8, 116u8, 114u8],
        NodeKind::Regexp => &[114u8, 101u8, 103u8, 101u8, 120u8, 112u8],
        NodeKind::RegOpt => &[114u8, 101u8, 103u8, 111u8, 112u8, 116u8],
        NodeKind::Array => &[97u8, 114u8, 114u8, 97u8, 121u8],
        NodeKind::Pair => &[112u8, 97u8, 105u8, 114u8],
        NodeKind::Splat => &[115u8, 112u8, 108u8, 97u8, 116u8],
        NodeKind::Kwsplat => &[107u8, 119u8, 115u8, 112u8, 108u8, 97u8, 116u8],
        NodeKind::Hash => &[104u8, 97u8, 115u8, 104u8],
        NodeKind::Lvar => &[108u8, 118u8, 97u8, 114u8],
        NodeKind::Ivar => &[105u8, 118u8, 97u8, 114u8],
        NodeKind::Gvar => &[103u8, 118u8, 97u8, 114u8],
        NodeKind::Cvar => &[99u8, 118u8, 97u8, 114u8],
        NodeKind::BackRef => &[98u8, 97u8, 99u8, 107u8, 95u8, 114u8, 101u8, 102u8],
        NodeKind::NthRef => &[110u8, 116u8, 104u8, 95u8, 114u8, 101u8, 102u8],
        NodeKind::Const => &[99u8, 111u8, 110u8, 115u8, 116u8],
        NodeKind::Cbase => &[99u8, 98u8, 97u8, 115u8, 101u8],
        NodeKind::Class => &[99u8, 108u8, 97u8, 115u8, 115u8],
        NodeKind::SClass => &[115u8, 99u8, 108u8, 97u8, 115u8, 115u8],
        NodeKind::Module => &[109u8, 111u8, 100u8, 117u8, 108u8, 101u8],
        NodeKind::Def => &[100u8, 101u8, 102u8],
        NodeKind::Defs => &[100u8, 101u8, 102u8, 115u8],
        NodeKind::Args => &[97u8, 114u8, 103u8, 115u8],
        NodeKind::Arg => &[97u8, 114u8, 103u8],
        NodeKind::Optarg => &[111u8, 112u8, 116u8, 97u8, 114u8, 103u8],
        NodeKind::Restarg => &[114u8, 101u8, 115u8, 116u8, 97u8, 114u8, 103u8],
        NodeKind::Kwarg => &[107u8, 119u8, 97u8, 114u8, 103u8],
        NodeKind::Kwoptarg => &[107u8, 119u8, 111u8, 112u8, 116u8, 97u8, 114u8, 103u8],
        NodeKind::Kwrestarg => &[107u8, 119u8, 114u8, 101u8, 115u8, 116u8, 97u8, 114u8, 103u8],
        NodeKind::Blockarg => &[98u8, 108u8, 111u8, 99u8, 107u8, 97u8, 114u8, 103u8],
        NodeKind::Mlhs => &[109u8, 108u8, 104u8, 115u8],
        NodeKind::Begin => &[98u8, 101u8, 103u8, 105u8, 110u8],
        NodeKind::Alias => &[97u8, 108u8, 105u8, 97u8, 115u8],
        NodeKind::Defined => &[100u8, 101u8, 102u8, 105u8, 110u8, 101u8, 100u8, 63u8],
        NodeKind::For => &[102u8, 111u8, 114u8],
        NodeKind::If => &[105u8, 102u8],
        NodeKind::Break => &[98u8, 114u8, 101u8, 97u8, 107u8],
        NodeKind::Next => &[110u8, 101u8, 120u8, 116u8],
        NodeKind::Redo => &[114u8, 101u8, 100u8, 111u8],
        NodeKind::Retry => &[114u8, 101u8, 116u8, 114u8, 121u8],
        NodeKind::Return => &[114u8, 101u8, 116u8, 117u8, 114u8, 110u8],
        NodeKind::Nil => &[110u8, 105u8, 108u8],
        NodeKind::Self_ => &[115u8, 101u8, 108u8, 102u8],
        NodeKind::True => &[116u8, 114u8, 117u8, 101u8],
        NodeKind::False => &[102u8, 97u8, 108u8, 115u8, 101u8],
        NodeKind::File => &[95u8, 95u8, 70u8, 73u8, 76u8, 69u8, 95u8, 95u8],
        NodeKind::Line => &[95u8, 95u8, 76u8, 73u8, 78u8, 69u8, 95u8, 95u8],
        NodeKind::Encoding => &[95u8, 95u8, 69u8, 78u8, 67u8, 79u8, 68u8, 73u8, 78u8, 71u8, 95u8, 95u8],
        NodeKind::RescueBody => &[114u8, 101u8, 115u8, 98u8, 111u8, 100u8, 121u8],
        NodeKind::Rescue => &[114u8, 101u8, 115u8, 99u8, 117u8, 101u8],
        NodeKind::Ensure => &[101u8, 110u8, 115u8, 117u8, 114u8, 101u8],
        NodeKind::Postexe => &[112u8, 111u8, 115u8, 116u8, 101u8, 120u8, 101u8],
        NodeKind::Preexe => &[112u8, 114u8, 101u8, 101u8, 120u8, 101u8],
        NodeKind::Send => &[115u8, 101u8, 110u8, 100u8],
        NodeKind::And => &[97u8, 110u8, 100u8],
        NodeKind::Or => &[111u8, 114u8],
        NodeKind::Irange => &[105u8, 114u8, 97u8, 110u8, 103u8, 101u8],
        NodeKind::Erange => &[101u8, 114u8, 97u8, 110u8, 103u8, 101u8],
        NodeKind::Lvasgn => &[108u8, 118u8, 97u8, 115u8, 103u8, 110u8],
        NodeKind::Ivasgn => &[105u8, 118u8, 97u8, 115u8, 103u8, 110u8],
        NodeKind::Gvasgn => &[103u8, 118u8, 97u8, 115u8, 103u8, 110u8],
        NodeKind::Cvasgn => &[99u8, 118u8, 97u8, 115u8, 103u8, 110u8],
        NodeKind::Casgn => &[99u8, 97u8, 115u8, 103u8, 110u8],
        NodeKind::Yield => &[121u8, 105u8, 101u8, 108u8, 100u8],
        NodeKind::OpAsgn => &[111u8, 112u8, 95u8, 97u8, 115u8, 103u8, 110u8],
        NodeKind::OrAsgn => &[111u8, 114u8, 95u8, 97u8, 115u8, 103u8, 110u8],
        NodeKind::AndAsgn => &[97u8, 110u8, 100u8, 95u8, 97u8, 115u8, 103u8, 110u8],
        NodeKind::Index => &[105u8, 110u8, 100u8, 101u8, 120u8],
        NodeKind::IndexAsgn => &[105u8, 110u8, 100u8, 101u8, 120u8, 97u8, 115u8, 103u8, 110u8],
    }
}

/// One element of a node's flat, prefix-order encoding: a node opens, lists its
/// strings, `nil`s and child nodes, then closes. Strings are source slices.
#[derive(Clone, Copy, PartialEq, Eq, Structural, Debug)]
pub enum Item {
    /// Start of a node of this kind covering this source range.
    Open(NodeKind, Loc),
    /// A string field: the source text at this range.
    Str(Loc),
    /// A unary operator's method name: the source text at this range followed by `@`.
    Suffixed(Loc),
    /// Regexp options: one string per distinct letter of the source text at this
    /// range, in alphabetical order.
    Opts(Loc),
    /// The method name `!` of a `not` expression, which has no `!` in the source.
    Bang,
    /// An absent optional field.
    Nil,
    /// End of the innermost open node.
    Close,
}

/// A sequence of syntax trees in flat encoding. A parse result holds exactly one tree;
/// the empty sequence stands for an absent tree.
#[derive(Clone, PartialEq, Eq, Debug)]
pub struct Node {
    pub items: Vec<Item>,
}

impl View for Node {
    type V = Seq<Item>;

    open spec fn view(&self) -> Seq<Item> {
        self.items@
    }
}

// ---------------------------------------------------------------------------
// Shapes of trees.
// ---------------------------------------------------------------------------

/// A node with no fields.
pub open spec fn leaf(k: NodeKind, l: Loc) -> Seq<Item> {
    seq![Item::Open(k, l), Item::Close]
}

/// A node whose fields are `inner`.
pub open spec fn wrap(k: NodeKind, l: Loc, inner: Seq<Item>) -> Seq<Item> {
    seq![Item::Open(k, l)] + inner + seq![Item::Close]
}

/// A node with one string field.
pub open spec fn named(k: NodeKind, l: Loc, name: Loc) -> Seq<Item> {
    wrap(k, l, seq![Item::Str(name)])
}

/// An optional field: the tree, or `nil` when absent.
pub open spec fn or_nil(s: Seq<Item>) -> Seq<Item> {
    if s.len() == 0 {
        seq![Item::Nil]
    } else {
        s
    }
}

/// The source range of the first tree of a sequence.
pub open spec fn loc_of(s: Seq<Item>) -> Loc {
    if s.len() > 0 {
        match s[0] {
            Item::Open(_, l) => l,
            _ => Loc { start: 0, end: 0 },
        }
    } else {
        Loc { start: 0, end: 0 }
    }
}

/// The kind of the first tree of a sequence, if it starts with one.
pub open spec fn kind_of(s: Seq<Item>) -> Option<NodeKind> {
    if s.len() > 0 {
        match s[0] {
            Item::Open(k, _) => Some(k),
            _ => None,
        }
    } else {
        None
    }
}

// ---------------------------------------------------------------------------
// Printing.
// ---------------------------------------------------------------------------

/// The source text at `l` (empty when `l` is out of range).
pub open spec fn text(src: Seq<u8>, l: Loc) -> Seq<u8> {
    if l.start <= l.end <= src.len() {
        src.subrange(l.start as int, l.end as int)
    } else {
        seq![]
    }
}

/// How a byte is written inside a quoted string.
pub open spec fn escape_byte(b: u8) -> Seq<u8> {
    if b == 34 {
        seq![92u8, 34u8]
    } else if b == 92 {
        seq![92u8, 92u8]
    } else if b == 10 {
        seq![92u8, 110u8]
    } else if b == 9 {
        seq![92u8, 116u8]
    } else if b == 13 {
        seq![92u8, 114u8]
    } else {
        seq![b]
    }
}

pub open spec fn escape(s: Seq<u8>) -> Seq<u8>
    decreases s.len(),
{
    if s.len() == 0 {
        seq![]
    } else {
        escape(s.drop_last()) + escape_byte(s.last())
    }
}

/// Two spaces per level.
pub open spec fn indent(d: int) -> Seq<u8>
    decreases d,
{
    if d <= 0 {
        seq![]
    } else {
        indent(d - 1) + seq![32u8, 32u8]
    }
}

/// The distinct letters from `c` to `z` that occur in `s`, each printed as a string field.
pub open spec fn opts_from(s: Seq<u8>, c: int) -> Seq<u8>
    decreases 123 - c,
{
    if 97 <= c <= 122 {
        (if s.contains(c as u8) {
            seq![44u8, 32u8, 34u8, c as u8, 34u8]
        } else {
            seq![]
        }) + opts_from(s, c + 1)
    } else {
        seq![]
    }
}

/// How one item prints when `depth` nodes are open around it.
pub open spec fn item_text(it: Item, depth: int, src: Seq<u8>) -> Seq<u8> {
    match it {
        Item::Open(k, _) => if depth <= 0 {
            seq![115u8, 40u8, 58u8] + kind_name(k)
        } else {
            seq![44u8, 10u8] + indent(depth) + seq![115u8, 40u8, 58u8] + kind_name(k)
        },
        Item::Str(l) => seq![44u8, 32u8, 34u8] + escape(text(src, l)) + seq![34u8],
        Item::Suffixed(l) => seq![44u8, 32u8, 34u8] + escape(text(src, l)) + seq![64u8, 34u8],
        Item::Opts(l) => opts_from(text(src, l), 97),
        Item::Bang => seq![44u8, 32u8, 34u8, 33u8, 34u8],
        Item::Nil => seq![44u8, 32u8, 110u8, 105u8, 108u8],
        Item::Close => seq![41u8],
    }
}

pub open spec fn next_depth(it: Item, depth: int) -> int {
    match it {
        Item::Open(_, _) => depth + 1,
        Item::Close => if depth > 0 {
            depth - 1
        } else {
            0
        },
        _ => depth,
    }
}

pub open spec fn render_from(items: Seq<Item>, src: Seq<u8>, i: int, depth: int) -> Seq<u8>
    decreases items.len() - i,
{
    if 0 <= i < items.len() {
        item_text(items[i], depth, src) + render_from(items, src, i + 1, next_depth(items[i], depth))
    } else {
        seq![]
    }
}

/// The printed form of a tree, e.g. `s(:send,\n  s(:int, "1"), "+",\n  s(:int, "2"))`.
pub open spec fn spec_inspect(items: Seq<Item>, src: Seq<u8>) -> Seq<u8> {
    render_from(items, src, 0, 0)
}

fn push_all(out: &mut Vec<u8>, s: &[u8])
    ensures
        final(out)@ == old(out)@ + s@,
{
    let mut i: usize = 0;
    while i < s.len()
        invariant
            i <= s.len(),
            out@ == old(out)@ + s@.subrange(0, i as int),
        decreases s.len() - i,
    {
        out.push(s[i]);
        i = i + 1;
        proof {
            assert(s@.subrange(0, i as int) =~= s@.subrange(0, i - 1) + seq![s@[i - 1]]);
        }
    }
    proof {
        assert(s@.subrange(0, i as int) =~= s@);
    }
}

fn push_escaped_byte(out: &mut Vec<u8>, b: u8)
    ensures
        final(out)@ == old(out)@ + escape_byte(b),
{
    if b == 34 {
        push_all(out, &[92u8, 34u8]);
    } else if b == 92 {
        push_all(out, &[92u8, 92u8]);
    } else if b == 10 {
        push_all(out, &[92u8, 110u8]);
    } else if b == 9 {
        push_all(out, &[92u8, 116u8]);
    } else if b == 13 {
        push_all(out, &[92u8, 114u8]);
    } else {
        out.push(b);
        proof {
            assert(old(out)@.push(b) =~= old(out)@ + seq![b]);
        }
    }
}

/// Appends the escaped source text at `l`.
fn push_text(out: &mut Vec<u8>, src: &[u8], l: Loc)
    ensures
        final(out)@ == old(out)@ + escape(text(src@, l)),
{
    if !(l.start <= l.end && l.end <= src.len()) {
        proof {
            assert(escape(text(src@, l)) =~= seq![]);
        }
        return;
    }
    let mut i = l.start;
    proof {
        assert(src@.subrange(l.start as int, i as int) =~= seq![]);
    }
    while i < l.end
        invariant
            l.start <= i <= l.end <= src.len(),
            out@ == old(out)@ + escape(src@.subrange(l.start as int, i as int)),
        decreases l.end - i,
    {
        let ghost before = src@.subrange(l.start as int, i as int);
        push_escaped_byte(out, src[i]);
        i = i + 1;
        proof {
            let now = src@.subrange(l.start as int, i as int);
            assert(now.drop_last() =~= before);
            assert(now.last() == src@[i - 1]);
        }
    }
}

/// Whether byte `c` occurs in the source text at `l`.
fn text_contains(src: &[u8], l: Loc, c: u8) -> (r: bool)
    ensures
        r == text(src@, l).contains(c),
{
    if !(l.start <= l.end && l.end <= src.len()) {
        return false;
    }
    let ghost s = text(src@, l);
    let mut i = l.start;
    while i < l.end
        invariant
            l.start <= i <= l.end <= src.len(),
            s == src@.subrange(l.start as int, l.end as int),
            forall|j: int| 0 <= j < i - l.start ==> s[j] != c,
        decreases l.end - i,
    {
        if src[i] == c {
            proof {
                assert(s[i - l.start] == c);
            }
            return true;
        }
        i = i + 1;
    }
    false
}

fn push_opts(out: &mut Vec<u8>, src: &[u8], l: Loc)
    ensures
        final(out)@ == old(out)@ + opts_from(text(src@, l), 97),
{
    let mut c: u8 = 97;
    while c <= 122
        invariant
            97 <= c <= 123,
            out@ + opts_from(text(src@, l), c as int) == old(out)@ + opts_from(text(src@, l), 97),
        decreases 123 - c,
    {
        let ghost before = out@;
        if text_contains(src, l, c) {
            push_all(out, &[44u8, 32u8, 34u8, c, 34u8]);
        }
        proof {
            assert(opts_from(text(src@, l), c as int) == (if text(src@, l).contains(c) {
                seq![44u8, 32u8, 34u8, c, 34u8]
            } else {
                seq![]
            }) + opts_from(text(src@, l), c + 1));
            assert(out@ + opts_from(text(src@, l), c + 1) =~= before + opts_from(text(src@, l), c as int));
        }
        c = c + 1;
    }
}

fn push_indent(out: &mut Vec<u8>, d: usize)
    ensures
        final(out)@ == old(out)@ + indent(d as int),
{
    let mut k: usize = 0;
    while k < d
        invariant
            k <= d,
            out@ == old(out)@ + indent(k as int),
        decreases d - k,
    {
        out.push(32u8);
        out.push(32u8);
        k = k + 1;
        proof {
            assert(indent(k as int) == indent(k - 1) + seq![32u8, 32u8]);
        }
    }
}

fn push_item(out: &mut Vec<u8>, it: Item, depth: usize, src: &[u8])
    ensures
        final(out)@ == old(out)@ + item_text(it, depth as int, src@),
{
    match it {
        Item::Open(k, _) => {
            if depth > 0 {
                push_all(out, &[44u8, 10u8]);
                push_indent(out, depth);
            }
            push_all(out, &[115u8, 40u8, 58u8]);
            push_all(out, kind_name_bytes(k));
            proof {
                if depth > 0 {
                    assert(out@ =~= old(out)@ + (seq![44u8, 10u8] + indent(depth as int) + seq![
                        115u8,
                        40u8,
                        58u8,
                    ] + kind_name(k)));
                } else {
                    assert(out@ =~= old(out)@ + (seq![115u8, 40u8, 58u8] + kind_name(k)));
                }
            }
        },
        Item::Str(l) => {
            push_all(out, &[44u8, 32u8, 34u8]);
            push_text(out, src, l);
            push_all(out, &[34u8]);
            proof {
                assert(out@ =~= old(out)@ + (seq![44u8, 32u8, 34u8] + escape(text(src@, l))
                    + seq![34u8]));
            }
        },
        Item::Suffixed(l) => {
            push_all(out, &[44u8, 32u8, 34u8]);
            push_text(out, src, l);
            push_all(out, &[64u8, 34u8]);
            proof {
                assert(out@ =~= old(out)@ + (seq![44u8, 32u8, 34u8] + escape(text(src@, l))
                    + seq![64u8, 34u8]));
            }
        },
        Item::Opts(l) => {
            push_opts(out, src, l);
        },
        Item::Bang => {
            push_all(out, &[44u8, 32u8, 34u8, 33u8, 34u8]);
        },
        Item::Nil => {
            push_all(out, &[44u8, 32u8, 110u8, 105u8, 108u8]);
        },
        Item::Close => {
            push_all(out, &[41u8]);
        },
    }
}

impl Node {
    /// No tree.
    pub fn empty() -> (r: Node)
        ensures
            r@ == Seq::<Item>::empty(),
    {
        Node { items: Vec::new() }
    }

    /// Whether there is no tree.
    pub fn is_empty(&self) -> (r: bool)
        ensures
            r == (self@.len() == 0),
    {
        self.items.len() == 0
    }

    /// The source range of the (first) tree.
    pub fn loc(&self) -> (r: Loc)
        ensures
            r == loc_of(self@),
    {
        if self.items.len() > 0 {
            match self.items[0] {
                Item::Open(_, l) => l,
                _ => Loc { start: 0, end: 0 },
            }
        } else {
            Loc { start: 0, end: 0 }
        }
    }

    /// The kind of the (first) tree.
    pub fn kind(&self) -> (r: Option<NodeKind>)
        ensures
            r == kind_of(self@),
    {
        if self.items.len() > 0 {
            match self.items[0] {
                Item::Open(k, _) => Some(k),
                _ => None,
            }
        } else {
            None
        }
    }

    /// The printed form of the tree, with strings taken from `src`.
    pub fn inspect(&self, src: &[u8]) -> (r: Vec<u8>)
        ensures
            r@ == spec_inspect(self@, src@),
    {
        let mut out: Vec<u8> = Vec::new();
        let mut i: usize = 0;
        let mut depth: usize = 0;
        while i < self.items.len()
            invariant
                i <= self.items.len(),
                depth <= i,
                out@ + render_from(self@, src@, i as int, depth as int) == spec_inspect(
                    self@,
                    src@,
                ),
            decreases self.items.len() - i,
        {
            let it = self.items[i];
            let ghost before = out@;
            push_item(&mut out, it, depth, src);
            proof {
                assert(render_from(self@, src@, i as int, depth as int) == item_text(
                    it,
                    depth as int,
                    src@,
                ) + render_from(self@, src@, i + 1, next_depth(it, depth as int)));
                assert(out@ + render_from(self@, src@, i + 1, next_depth(it, depth as int))
                    =~= before + render_from(self@, src@, i as int, depth as int));
            }
            depth = match it {
                Item::Open(_, _) => depth + 1,
                Item::Close => if depth > 0 {
                    depth - 1
                } else {
                    0
                },
                _ => depth,
            };
            i = i + 1;
        }
        proof {
            assert(out@ =~= spec_inspect(self@, src@));
        }
        out
    }
}

// ---------------------------------------------------------------------------
// Building trees.
// ---------------------------------------------------------------------------

/// `a` followed by `b`.
pub fn concat(a: Node, b: Node) -> (r: Node)
    ensures
        r@ == a@ + b@,
{
    let mut a = a;
    let mut b = b;
    a.items.append(&mut b.items);
    a
}

/// A node with no fields.
pub fn mk_leaf(k: NodeKind, l: Loc) -> (r: Node)
    ensures
        r@ == leaf(k, l),
{
    let r = Node { items: vec![Item::Open(k, l), Item::Close] };
    proof {
        assert(r@ =~= leaf(k, l));
    }
    r
}

/// A node whose fields are `inner`.
pub fn mk_wrap(k: NodeKind, l: Loc, inner: Node) -> (r: Node)
    ensures
        r@ == wrap(k, l, inner@),
{
    let ghost orig = inner@;
    let mut items: Vec<Item> = vec![Item::Open(k, l)];
    let mut inner = inner;
    items.append(&mut inner.items);
    items.push(Item::Close);
    let r = Node { items };
    proof {
        assert(r@ =~= wrap(k, l, orig));
    }
    r
}

/// A node with one string field.
pub fn mk_named(k: NodeKind, l: Loc, name: Loc) -> (r: Node)
    ensures
        r@ == named(k, l, name),
{
    let r = Node { items: vec![Item::Open(k, l), Item::Str(name), Item::Close] };
    proof {
        assert(r@ =~= named(k, l, name));
    }
    r
}

/// A single item.
pub fn mk_item(it: Item) -> (r: Node)
    ensures
        r@ == seq![it],
{
    let r = Node { items: vec![it] };
    proof {
        assert(r@ =~= seq![it]);
    }
    r
}

/// The tree, or `nil` when absent.
pub fn mk_or_nil(n: Node) -> (r: Node)
    ensures
        r@ == or_nil(n@),
{
    if n.items.len() == 0 {
        mk_item(Item::Nil)
    } else {
        n
    }
}

// ---------------------------------------------------------------------------
// How trees print.
// ---------------------------------------------------------------------------

/// A node with no fields prints as `s(:kind)`.
pub proof fn law_inspect_leaf(k: NodeKind, l: Loc, src: Seq<u8>)
    ensures
        spec_inspect(leaf(k, l), src) == seq![115u8, 40u8, 58u8] + kind_name(k) + seq![41u8],
{
    let s = leaf(k, l);
    assert(render_from(s, src, 2, 0) == Seq::<u8>::empty());
    assert(render_from(s, src, 1, 1) == seq![41u8] + render_from(s, src, 2, 0));
    assert(render_from(s, src, 0, 0) == seq![115u8, 40u8, 58u8] + kind_name(k) + render_from(s, src, 1, 1));
    assert(spec_inspect(s, src) =~= seq![115u8, 40u8, 58u8] + kind_name(k) + seq![41u8]);
}

/// A node with one string field prints as `s(:kind, "text")`, with the text escaped.
pub proof fn law_inspect_named(k: NodeKind, l: Loc, name: Loc, src: Seq<u8>)
    ensures
        spec_inspect(named(k, l, name), src) == seq![115u8, 40u8, 58u8] + kind_name(k) + seq![
            44u8,
            32u8,
            34u8,
        ] + escape(text(src, name)) + seq![34u8, 41u8],
{
    let s = named(k, l, name);
    assert(s =~= seq![Item::Open(k, l), Item::Str(name), Item::Close]);
    assert(render_from(s, src, 3, 0) == Seq::<u8>::empty());
    assert(render_from(s, src, 2, 1) == seq![41u8] + render_from(s, src, 3, 0));
    assert(render_from(s, src, 1, 1) == seq![44u8, 32u8, 34u8] + escape(text(src, name)) + seq![34u8]
        + render_from(s, src, 2, 1));
    assert(render_from(s, src, 0, 0) == seq![115u8, 40u8, 58u8] + kind_name(k) + render_from(s, src, 1, 1));
    assert(spec_inspect(s, src) =~= seq![115u8, 40u8, 58u8] + kind_name(k) + seq![44u8, 32u8, 34u8]
        + escape(text(src, name)) + seq![34u8, 41u8]);
}

} // verus!
