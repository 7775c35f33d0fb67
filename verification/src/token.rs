use vstd::prelude::*;
use std::ops::Range;

verus! {

/// What a token is.
#[derive(Clone, Copy, Debug, PartialEq, Eq, Structural)]
pub enum TokenKind {
    /// A decimal digit, by its value.
    Integer(i64),
    /// One of the operator characters.
    Symbol(u8),
    /// A byte that starts no token.
    Unknown(u8),
    /// The input is exhausted.
    End,
}

/// A token and the half-open byte range that it covers.
#[derive(Debug)]
pub struct Token {
    pub kind: TokenKind,
    pub pos: Range<usize>,
}

} // verus!
