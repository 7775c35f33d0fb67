use vstd::prelude::*;
use super::input::Input;
use super::pos::Pos;

verus! {

/// What a lexer matched: the value, the input after it, and its range.
pub struct Lexem<'a, T> {
    pub t: T,
    pub i: Input<'a>,
    pub p: Pos,
}

impl<'a, T> Lexem<'a, T> {
    pub fn new(t: T, i: Input<'a>, p: Pos) -> (lexem: Self)
        ensures
            lexem == (Lexem { t, i, p }),
    {
        Self { t, i, p }
    }
}

} // verus!
