use vstd::prelude::*;
use crate::token::{Token, TokenKind};

verus! {

/// A stream of tokens that shows its current token and moves on by one; it
/// cannot go back.
pub trait TokenStream {
    /// The stream is in order.
    spec fn inv(&self) -> bool;

    /// The tokens that the stream has yet to hand out, the current one
    /// first.
    spec fn pending(&self) -> Seq<Token>;

    /// The stream closes with an `End` token, which it never runs out of.
    proof fn lemma_pending(&self)
        requires
            self.inv(),
        ensures
            self.pending().len() > 0,
            self.pending().last().kind is End,
    ;

    /// The current token.
    fn current(&self) -> (token: &Token)
        requires
            self.inv(),
        ensures
            *token == self.pending()[0],
    ;

    /// Hands out the current token and moves to the next.
    fn next(&mut self) -> (token: Token)
        requires
            old(self).inv(),
        ensures
            final(self).inv(),
            token == old(self).pending()[0],
            final(self).pending() == advance(old(self).pending()),
    ;
}

/// What is left of `tokens` when the first is handed out. The last one stays.
pub open spec fn advance(tokens: Seq<Token>) -> Seq<Token> {
    if tokens.len() > 1 {
        tokens.skip(1)
    } else {
        tokens
    }
}

} // verus!
