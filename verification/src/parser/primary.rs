use vstd::prelude::*;
use vstd::string::StringExecFns;
use crate::ast::Expr;
use crate::token::TokenKind;
use crate::utils::string::push_char;
use super::error::Error;
use super::grammar::{parsed, primary, unknown_character};
use super::stream::{advance, TokenStream};

verus! {

/// Takes one token, which has to be an integer: the operand.
pub fn parse<S: TokenStream>(stream: &mut S) -> (r: Result<Expr, Error>)
    requires
        old(stream).inv(),
    ensures
        final(stream).inv(),
        final(stream).pending() == advance(old(stream).pending()),
        parsed(r) == primary(old(stream).pending()[0]),
{
    proof {
        stream.lemma_pending();
    }
    let token = stream.next();
    match token.kind {
        TokenKind::Integer(v) => Ok(Expr::Integer(v)),
        TokenKind::Unknown(c) => {
            let mut msg = String::from_str("Unknown character '");
            push_char(&mut msg, c as char);
            msg.append("'.");
            proof {
                assert(msg@ =~= unknown_character(c));
            }
            Err(Error { msg, pos: token.pos })
        },
        TokenKind::End => Err(
            Error {
                msg: String::from_str("Expected primary value but reached end of code."),
                pos: token.pos,
            },
        ),
        _ => Err(Error { msg: String::from_str("Unexpected token."), pos: token.pos }),
    }
}

} // verus!
