use vstd::prelude::*;
use crate::ast::expr::operands;
use crate::ast::{Binary, Expr, Operator, Tree};
use crate::lexer::{MINUS, PLUS};
use crate::token::TokenKind;
use super::error::{Error, Failure};
use super::grammar;
use super::grammar::{operator, parsed, tail};
use super::primary;
use super::stream::{advance, TokenStream};

verus! {

/// The operator that the current token of `stream` is, if it is one.
fn current_operator<S: TokenStream>(stream: &S) -> (o: Option<Operator>)
    requires
        stream.inv(),
    ensures
        o == operator(stream.pending()[0]),
{
    let token = stream.current();
    match token.kind {
        TokenKind::Symbol(c) => {
            if c == PLUS {
                Some(Operator::Add)
            } else if c == MINUS {
                Some(Operator::Subtract)
            } else {
                None
            }
        },
        _ => None,
    }
}

fn term<S: TokenStream>(stream: &mut S) -> (r: Result<Expr, Error>)
    requires
        old(stream).inv(),
    ensures
        final(stream).inv(),
        parsed(r) == grammar::term(old(stream).pending()).0,
        final(stream).pending() == grammar::term(old(stream).pending()).1,
{
    let first = match primary::parse(stream) {
        Ok(first) => first,
        Err(e) => {
            return Err(e);
        },
    };
    let mut others: Vec<(Operator, Expr)> = Vec::new();
    proof {
        assert(operands(others@) =~= Seq::empty());
    }
    loop
        invariant
            stream.inv(),
            grammar::primary(old(stream).pending()[0]) == Ok::<Tree, Failure>(first@),
            tail(stream.pending(), operands(others@)) == tail(
                advance(old(stream).pending()),
                Seq::empty(),
            ),
        ensures
            stream.inv(),
            tail(advance(old(stream).pending()), Seq::empty()) == (
                Ok::<Seq<(Operator, Tree)>, Failure>(operands(others@)),
                stream.pending(),
            ),
        decreases stream.pending().len(),
    {
        proof {
            stream.lemma_pending();
        }
        let ghost before = stream.pending();
        let ghost found = operands(others@);
        match current_operator(stream) {
            Some(o) => {
                proof {
                    assert(before.len() > 1);
                    assert(before.skip(1)[0] == before[1]);
                }
                let _token = stream.next();
                let other = match primary::parse(stream) {
                    Ok(other) => other,
                    Err(e) => {
                        return Err(e);
                    },
                };
                others.push((o, other));
                proof {
                    assert(operands(others@) =~= found.push((o, other@)));
                }
            },
            None => {
                break ;
            },
        }
    }
    if others.is_empty() {
        Ok(first)
    } else {
        Ok(Binary::new(first, others))
    }
}

/// Parses a term: an operand, and as many operators with their right operands
/// as follow it. It stops before the first token that is no operator.
pub fn parse<S: TokenStream>(stream: &mut S) -> (r: Result<Expr, Error>)
    requires
        old(stream).inv(),
    ensures
        final(stream).inv(),
        parsed(r) == grammar::term(old(stream).pending()).0,
        final(stream).pending() == grammar::term(old(stream).pending()).1,
{
    term(stream)
}

} // verus!
