use vstd::prelude::*;
use std::ops::Range;
use crate::token::{Token, TokenKind};

pub mod chars;
pub mod combs;
pub mod err;
pub mod input;
pub mod lexem;
pub mod pos;
pub mod reader;
pub mod res;

pub use err::{LexError, Msg};
pub use input::Input;
pub use lexem::Lexem;
pub use pos::Pos;
pub use reader::Reader;
pub use res::Res;

verus! {

pub const SPACE: u8 = 0x20;

pub const TAB: u8 = 0x09;

pub const CR: u8 = 0x0d;

pub const LF: u8 = 0x0a;

/// The digit `0`; the other digits follow it.
pub const ZERO: u8 = 0x30;

/// The digit `9`.
pub const NINE: u8 = 0x39;

pub const PLUS: u8 = 0x2b;

pub const MINUS: u8 = 0x2d;

/// Space, tab, carriage return and line feed.
pub open spec fn blank(c: u8) -> bool {
    c == SPACE || c == TAB || c == CR || c == LF
}

/// The number of whitespace bytes at the front of `bytes`.
pub open spec fn blanks(bytes: Seq<u8>) -> nat
    decreases bytes.len(),
{
    if bytes.len() > 0 && blank(bytes[0]) {
        1 + blanks(bytes.skip(1))
    } else {
        0
    }
}

/// The kind of the token that the byte `c` is.
pub open spec fn kind_of(c: u8) -> TokenKind {
    if ZERO <= c <= NINE {
        TokenKind::Integer((c - ZERO) as i64)
    } else if c == PLUS || c == MINUS {
        TokenKind::Symbol(c)
    } else {
        TokenKind::Unknown(c)
    }
}

/// The first token of `bytes`, which start at the position `offset`: the first
/// byte after the whitespace, or `End` where none is left. Either covers
/// one byte.
pub open spec fn first_token(bytes: Seq<u8>, offset: nat) -> Token {
    let at = offset + blanks(bytes);
    Token {
        kind: if blanks(bytes) < bytes.len() {
            kind_of(bytes[blanks(bytes) as int])
        } else {
            TokenKind::End
        },
        pos: Range { start: at as usize, end: (at + 1) as usize },
    }
}

/// The number of bytes of `bytes` that its first token and the whitespace
/// before it take.
pub open spec fn first_width(bytes: Seq<u8>) -> nat {
    if blanks(bytes) < bytes.len() {
        blanks(bytes) + 1
    } else {
        blanks(bytes)
    }
}

/// The whitespace at the front is within the bytes.
pub proof fn lemma_blanks(bytes: Seq<u8>)
    ensures
        blanks(bytes) <= bytes.len(),
        forall|i: int| 0 <= i < blanks(bytes) ==> blank(#[trigger] bytes[i]),
        blanks(bytes) < bytes.len() ==> !blank(bytes[blanks(bytes) as int]),
    decreases bytes.len(),
{
    if bytes.len() > 0 && blank(bytes[0]) {
        lemma_blanks(bytes.skip(1));
        assert forall|i: int| 0 <= i < blanks(bytes) implies blank(#[trigger] bytes[i]) by {
            if i > 0 {
                assert(bytes[i] == bytes.skip(1)[i - 1]);
            }
        }
        if blanks(bytes) < bytes.len() {
            assert(bytes[blanks(bytes) as int] == bytes.skip(1)[blanks(bytes.skip(1)) as int]);
        }
    }
}

/// A reader that was exhausted stays so: where the first token of an input is
/// `End`, taking it leaves no byte, and the token after it is the same `End`
/// on the same byte.
pub proof fn lemma_end_repeats(bytes: Seq<u8>, offset: nat)
    requires
        first_token(bytes, offset).kind is End,
    ensures
        bytes.skip(first_width(bytes) as int).len() == 0,
        first_token(bytes.skip(first_width(bytes) as int), offset + first_width(bytes))
            == first_token(bytes, offset),
{
    lemma_blanks(bytes);
    let rest = bytes.skip(first_width(bytes) as int);
    assert(blanks(rest) == 0);
}

fn is_whitespace(c: u8) -> (b: bool)
    ensures
        b == blank(c),
{
    c == SPACE || c == TAB || c == CR || c == LF
}

/// Takes the whitespace at the front of the reader.
fn skip_whitespaces<R: Reader>(reader: &mut R)
    requires
        old(reader).inv(),
    ensures
        final(reader).inv(),
        final(reader).rest() == old(reader).rest().skip(blanks(old(reader).rest()) as int),
        final(reader).offset() == old(reader).offset() + blanks(old(reader).rest()),
{
    let ghost mut done: nat = 0;
    proof {
        assert(old(reader).rest().skip(0) =~= old(reader).rest());
    }
    loop
        invariant
            reader.inv(),
            done <= old(reader).rest().len(),
            reader.rest() == old(reader).rest().skip(done as int),
            reader.offset() == old(reader).offset() + done,
            blanks(old(reader).rest()) == done + blanks(reader.rest()),
        ensures
            blanks(reader.rest()) == 0,
        decreases reader.rest().len(),
    {
        match reader.current() {
            Some(c) => {
                if is_whitespace(c) {
                    let _ = reader.next();
                    proof {
                        assert(old(reader).rest().skip(done as int).skip(1) =~= old(reader).rest().skip(
                            done as int + 1,
                        ));
                        done = done + 1;
                    }
                } else {
                    assert(blanks(reader.rest()) == 0);
                    break ;
                }
            },
            None => {
                assert(blanks(reader.rest()) == 0);
                break ;
            },
        }
    }
}

/// Takes the next token from the reader: skips whitespace, then takes one
/// byte. A digit is an `Integer` with its value, `+` and `-` are a `Symbol`,
/// any other byte is `Unknown`. At the end of the input the token is `End`,
/// on the one byte past the last.
pub fn lex<R: Reader>(reader: &mut R) -> (token: Token)
    requires
        old(reader).inv(),
        old(reader).offset() + old(reader).rest().len() < usize::MAX,
    ensures
        final(reader).inv(),
        token == first_token(old(reader).rest(), old(reader).offset()),
        final(reader).rest() == old(reader).rest().skip(first_width(old(reader).rest()) as int),
        final(reader).offset() == old(reader).offset() + first_width(old(reader).rest()),
{
    proof {
        lemma_blanks(old(reader).rest());
    }
    skip_whitespaces(reader);

    let start = reader.pos();

    let c = match reader.next() {
        Some(c) => c,
        None => {
            return Token { kind: TokenKind::End, pos: start..(start + 1) };
        },
    };
    proof {
        assert(old(reader).rest().skip(blanks(old(reader).rest()) as int).skip(1) =~= old(
            reader,
        ).rest().skip(first_width(old(reader).rest()) as int));
    }

    let kind = if c >= ZERO && c <= NINE {
        TokenKind::Integer((c - ZERO) as i64)
    } else if c == PLUS || c == MINUS {
        TokenKind::Symbol(c)
    } else {
        TokenKind::Unknown(c)
    };

    let end = reader.pos();

    Token { kind, pos: start..end }
}

} // verus!
