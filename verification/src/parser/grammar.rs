use vstd::prelude::*;
use crate::ast::model::{is_chain, literals};
use crate::ast::{Expr, Operator, Tree};
use crate::lexer::{MINUS, PLUS};
use crate::token::{Token, TokenKind};
use super::error::{Error, Failure};
use super::stream::advance;

verus! {

/// The message for a byte that starts no token.
pub open spec fn unknown_character(c: u8) -> Seq<char> {
    "Unknown character '"@ + seq![c as char] + "'."@
}

/// The message for an operand that is missing at the end of the input.
pub open spec fn missing_value() -> Seq<char> {
    "Expected primary value but reached end of code."@
}

/// The message for a token that cannot start an operand.
pub open spec fn unexpected_token() -> Seq<char> {
    "Unexpected token."@
}

/// The message for a token that follows a complete expression.
pub open spec fn expected_end() -> Seq<char> {
    "Expected end of code."@
}

/// A parser's result with the expression as a tree and the error by its view.
pub open spec fn parsed(r: Result<Expr, Error>) -> Result<Tree, Failure> {
    match r {
        Ok(e) => Ok(e@),
        Err(e) => Err(e@),
    }
}

/// The operand that the one token `token` is.
pub open spec fn primary(token: Token) -> Result<Tree, Failure> {
    match token.kind {
        TokenKind::Integer(v) => Ok(Tree::Integer(v)),
        TokenKind::Unknown(c) => Err(Failure { msg: unknown_character(c), pos: token.pos }),
        TokenKind::End => Err(Failure { msg: missing_value(), pos: token.pos }),
        TokenKind::Symbol(_) => Err(Failure { msg: unexpected_token(), pos: token.pos }),
    }
}

/// The operator that `token` is, if it is one.
pub open spec fn operator(token: Token) -> Option<Operator> {
    if token.kind == TokenKind::Symbol(PLUS) {
        Some(Operator::Add)
    } else if token.kind == TokenKind::Symbol(MINUS) {
        Some(Operator::Subtract)
    } else {
        None
    }
}

/// The operators with their right operands at the front of `tokens`, after
/// those of `found`; and the tokens that are left. It goes on as long as
/// the current token is an operator, and fails where no operand follows one.
pub open spec fn tail(tokens: Seq<Token>, found: Seq<(Operator, Tree)>) -> (
    Result<Seq<(Operator, Tree)>, Failure>,
    Seq<Token>,
)
    decreases tokens.len(),
{
    if tokens.len() > 1 && operator(tokens[0]) is Some {
        match primary(tokens[1]) {
            Ok(operand) => tail(
                advance(tokens.skip(1)),
                found.push((operator(tokens[0])->0, operand)),
            ),
            Err(failure) => (Err(failure), advance(tokens.skip(1))),
        }
    } else {
        (Ok(found), tokens)
    }
}

/// The term at the front of `tokens`, and the tokens that are left: an
/// operand, and the operators that follow it with theirs. An operand alone
/// is the term; with operators it is the first of a `Binary`.
pub open spec fn term(tokens: Seq<Token>) -> (Result<Tree, Failure>, Seq<Token>) {
    match primary(tokens[0]) {
        Ok(first) => match tail(advance(tokens), Seq::empty()) {
            (Ok(others), rest) => (
                Ok(
                    if others.len() == 0 {
                        first
                    } else {
                        Tree::Binary { first: Box::new(first), others }
                    },
                ),
                rest,
            ),
            (Err(failure), rest) => (Err(failure), rest),
        },
        Err(failure) => (Err(failure), advance(tokens)),
    }
}

/// The program that `tokens` are, and the tokens that are left: a term, and
/// then the `End` token.
pub open spec fn program(tokens: Seq<Token>) -> (Result<Tree, Failure>, Seq<Token>) {
    match term(tokens) {
        (Ok(tree), rest) => if rest[0].kind is End {
            (Ok(tree), advance(rest))
        } else {
            (Err(Failure { msg: expected_end(), pos: rest[0].pos }), advance(rest))
        },
        (Err(failure), rest) => (Err(failure), rest),
    }
}

/// Operators found after literals have literals for their operands.
pub proof fn lemma_tail_chain(tokens: Seq<Token>, found: Seq<(Operator, Tree)>)
    requires
        literals(found),
    ensures
        tail(tokens, found).0 matches Ok(others) ==> literals(others) && others.len()
            >= found.len(),
    decreases tokens.len(),
{
    if tokens.len() > 1 && operator(tokens[0]) is Some {
        match primary(tokens[1]) {
            Ok(operand) => {
                let next = found.push((operator(tokens[0])->0, operand));
                assert forall|i: int| 0 <= i < next.len() implies (#[trigger] next[i]).1 is Integer by {
                    if i < found.len() {
                        assert(next[i] == found[i]);
                    }
                }
                lemma_tail_chain(advance(tokens.skip(1)), next);
            },
            Err(_) => {},
        }
    }
}

/// What the parser accepts is a chain: a literal, or literals with operators
/// between them under one `Binary` node, which is never without an operator.
pub proof fn lemma_program_chain(tokens: Seq<Token>)
    ensures
        term(tokens).0 matches Ok(tree) ==> is_chain(tree),
        program(tokens).0 matches Ok(tree) ==> is_chain(tree),
{
    lemma_tail_chain(advance(tokens), Seq::empty());
}

} // verus!
