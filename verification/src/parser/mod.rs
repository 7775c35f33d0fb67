use vstd::prelude::*;
use vstd::string::StringExecFns;
use crate::ast::Expr;
use crate::token::TokenKind;

pub mod binary;
pub mod error;
pub mod grammar;
pub mod primary;
pub mod stream;

pub use error::{Error, Failure};
pub use stream::TokenStream;

use grammar::{parsed, program};

verus! {

/// Parses a program: a term, after which the input has to end. The first
/// token that does not fit stops the parser, with a message and the token's
/// byte range.
pub fn parse<S: TokenStream>(stream: &mut S) -> (r: Result<Expr, Error>)
    requires
        old(stream).inv(),
    ensures
        final(stream).inv(),
        parsed(r) == program(old(stream).pending()).0,
        final(stream).pending() == program(old(stream).pending()).1,
{
    let expr = match binary::parse(stream) {
        Ok(expr) => expr,
        Err(e) => {
            return Err(e);
        },
    };
    let token = stream.next();
    match token.kind {
        TokenKind::End => Ok(expr),
        _ => Err(Error { msg: String::from_str("Expected end of code."), pos: token.pos }),
    }
}

} // verus!
