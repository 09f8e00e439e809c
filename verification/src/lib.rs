use vstd::prelude::*;

pub mod loc;
pub mod token;
pub mod lexer;
pub mod nodes;
pub mod parser;
pub mod node;
pub mod calc;

pub use loc::Loc;
pub use token::{Token, TokenKind};
pub use parser::Parser;

verus! {
} // verus!
