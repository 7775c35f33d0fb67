use vstd::prelude::*;
use super::pos::Pos;

verus! {

/// The text of an error.
#[derive(Debug)]
pub struct Msg(pub String);

/// An error of a lexer: a message and the range that it is about.
#[derive(Debug)]
pub struct LexError {
    pub msg: Msg,
    pub pos: Pos,
}

} // verus!
