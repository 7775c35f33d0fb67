use vstd::prelude::*;
use crate::lexer::{blanks, first_token, first_width, lemma_blanks, lex, Reader};
use crate::parser::stream::advance;
use crate::parser::TokenStream;
use crate::token::{Token, TokenKind};

verus! {

/// The tokens of `bytes`, which start at the position `offset`, up to the
/// `End` token and with it.
pub open spec fn tokens(bytes: Seq<u8>, offset: nat) -> Seq<Token>
    decreases bytes.len(),
{
    if blanks(bytes) < bytes.len() {
        seq![first_token(bytes, offset)] + tokens(
            bytes.skip(first_width(bytes) as int),
            offset + first_width(bytes),
        )
    } else {
        seq![first_token(bytes, offset)]
    }
}

/// The tokens of any input end with `End`, and `End` comes nowhere before.
pub proof fn lemma_tokens(bytes: Seq<u8>, offset: nat)
    ensures
        tokens(bytes, offset).len() > 0,
        tokens(bytes, offset).last().kind is End,
        forall|i: int|
            0 <= i < tokens(bytes, offset).len() - 1 ==> !(#[trigger] tokens(
                bytes,
                offset,
            )[i].kind is End),
    decreases bytes.len(),
{
    lemma_blanks(bytes);
    if blanks(bytes) < bytes.len() {
        let rest = tokens(bytes.skip(first_width(bytes) as int), offset + first_width(bytes));
        lemma_tokens(bytes.skip(first_width(bytes) as int), offset + first_width(bytes));
        assert(tokens(bytes, offset).last() == rest.last());
        assert forall|i: int| 0 <= i < tokens(bytes, offset).len() - 1 implies !(#[trigger] tokens(
            bytes,
            offset,
        )[i].kind is End) by {
            if i > 0 {
                assert(tokens(bytes, offset)[i] == rest[i - 1]);
            }
        }
    }
}

/// A token stream over a reader: it holds the current token, and lexes the
/// next when that is handed out.
pub struct Tokenizer<R> {
    pub reader: R,
    pub token: Token,
}

impl<R: Reader> Tokenizer<R> {
    /// A stream of the tokens of `reader`.
    pub fn new(reader: R) -> (stream: Self)
        requires
            reader.inv(),
            reader.offset() + reader.rest().len() < usize::MAX,
        ensures
            stream.inv(),
            stream.pending() == tokens(reader.rest(), reader.offset()),
    {
        let mut left = reader;
        proof {
            lemma_blanks(reader.rest());
        }
        let token = lex(&mut left);
        let stream = Self { token, reader: left };
        proof {
            assert(stream.pending() =~= tokens(reader.rest(), reader.offset()));
        }
        stream
    }
}

/// A stream that has come to `End` stays there: `End` is all that it has
/// left, before it is handed out and after.
pub proof fn lemma_stream_end<R: Reader>(stream: Tokenizer<R>)
    requires
        stream.inv(),
        stream.pending()[0].kind is End,
    ensures
        stream.pending() == seq![stream.token],
        advance(stream.pending()) == stream.pending(),
{
}

impl<R: Reader> TokenStream for Tokenizer<R> {
    open spec fn inv(&self) -> bool {
        &&& self.reader.inv()
        &&& self.reader.offset() + self.reader.rest().len() < usize::MAX
        &&& self.token.kind is End ==> self.reader.rest().len() == 0 && self.token == first_token(
            self.reader.rest(),
            self.reader.offset(),
        )
    }

    open spec fn pending(&self) -> Seq<Token> {
        if self.token.kind is End {
            seq![self.token]
        } else {
            seq![self.token] + tokens(self.reader.rest(), self.reader.offset())
        }
    }

    proof fn lemma_pending(&self) {
        lemma_tokens(self.reader.rest(), self.reader.offset());
    }

    fn current(&self) -> (token: &Token) {
        &self.token
    }

    fn next(&mut self) -> (token: Token) {
        proof {
            lemma_blanks(self.reader.rest());
            lemma_tokens(self.reader.rest(), self.reader.offset());
        }
        let mut token = lex(&mut self.reader);
        std::mem::swap(&mut self.token, &mut token);
        proof {
            assert(self.pending() =~= advance(old(self).pending()));
        }
        token
    }
}

} // verus!
