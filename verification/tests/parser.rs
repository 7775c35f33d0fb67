use tlang::ast::{Expr, Operator};
use tlang::parser;
use tlang::parser::TokenStream;
use tlang::stream_from_iter;
use tlang::token::TokenKind;

fn literal(expr: &Expr) -> i64 {
    match expr {
        Expr::Integer(v) => *v,
        Expr::Binary(_) => panic!("a literal was expected"),
    }
}

#[test]
fn parse_single_digit_is_a_bare_integer() {
    let mut stream = stream_from_iter(b"5");
    let expr = parser::parse(&mut stream).unwrap();
    assert!(matches!(expr, Expr::Integer(5)));
}

#[test]
fn parse_chain_is_one_binary_node() {
    let mut stream = stream_from_iter(b"2+2-1+8-9+4");
    let expr = parser::parse(&mut stream).unwrap();
    match expr {
        Expr::Binary(binary) => {
            assert_eq!(literal(&binary.first), 2);
            let expected = [
                (Operator::Add, 2),
                (Operator::Subtract, 1),
                (Operator::Add, 8),
                (Operator::Subtract, 9),
                (Operator::Add, 4),
            ];
            assert_eq!(binary.others.len(), expected.len());
            for (found, wanted) in binary.others.iter().zip(expected.iter()) {
                assert_eq!(found.0, wanted.0);
                assert_eq!(literal(&found.1), wanted.1);
            }
        }
        Expr::Integer(_) => panic!("a binary node was expected"),
    }
}

#[test]
fn parse_with_whitespace_between_tokens() {
    let mut stream = stream_from_iter(b" 1 +\t2\n");
    let expr = parser::parse(&mut stream).unwrap();
    match expr {
        Expr::Binary(binary) => {
            assert_eq!(literal(&binary.first), 1);
            assert_eq!(binary.others.len(), 1);
            assert_eq!(binary.others[0].0, Operator::Add);
            assert_eq!(literal(&binary.others[0].1), 2);
        }
        Expr::Integer(_) => panic!("a binary node was expected"),
    }
}

#[test]
fn parse_empty_input_expects_a_value() {
    let mut stream = stream_from_iter(b"");
    let error = parser::parse(&mut stream).unwrap_err();
    assert_eq!(error.msg, "Expected primary value but reached end of code.");
    assert_eq!(error.pos, 0..1);
}

#[test]
fn parse_unknown_character_is_named_with_its_range() {
    let mut stream = stream_from_iter(b"2+x");
    let error = parser::parse(&mut stream).unwrap_err();
    assert_eq!(error.msg, "Unknown character 'x'.");
    assert_eq!(error.pos, 2..3);
}

#[test]
fn parse_operator_without_operand_expects_a_value() {
    let mut stream = stream_from_iter(b"2+");
    let error = parser::parse(&mut stream).unwrap_err();
    assert_eq!(error.msg, "Expected primary value but reached end of code.");
    assert_eq!(error.pos, 2..3);
}

#[test]
fn parse_operator_in_place_of_operand_is_unexpected() {
    let mut stream = stream_from_iter(b"+1");
    let error = parser::parse(&mut stream).unwrap_err();
    assert_eq!(error.msg, "Unexpected token.");
    assert_eq!(error.pos, 0..1);
    let mut stream = stream_from_iter(b"1+-2");
    let error = parser::parse(&mut stream).unwrap_err();
    assert_eq!(error.msg, "Unexpected token.");
    assert_eq!(error.pos, 2..3);
}

#[test]
fn parse_trailing_content_expects_the_end() {
    let mut stream = stream_from_iter(b"1 2");
    let error = parser::parse(&mut stream).unwrap_err();
    assert_eq!(error.msg, "Expected end of code.");
    assert_eq!(error.pos, 2..3);
    let mut stream = stream_from_iter(b"12");
    let error = parser::parse(&mut stream).unwrap_err();
    assert_eq!(error.msg, "Expected end of code.");
    assert_eq!(error.pos, 1..2);
    let mut stream = stream_from_iter(b"1?");
    let error = parser::parse(&mut stream).unwrap_err();
    assert_eq!(error.msg, "Expected end of code.");
    assert_eq!(error.pos, 1..2);
}

#[test]
fn parse_primary_takes_one_token() {
    let mut stream = stream_from_iter(b"7+1");
    let expr = parser::primary::parse(&mut stream).unwrap();
    assert!(matches!(expr, Expr::Integer(7)));
    assert_eq!(stream.current().kind, TokenKind::Symbol(b'+'));
}

#[test]
fn parse_term_stops_before_what_is_no_operator() {
    let mut stream = stream_from_iter(b"7-1 4");
    let expr = parser::binary::parse(&mut stream).unwrap();
    assert!(matches!(expr, Expr::Binary(_)));
    assert_eq!(stream.current().kind, TokenKind::Integer(4));
    assert_eq!(stream.current().pos, 4..5);
}

#[test]
fn parse_stops_at_the_first_error() {
    let mut stream = stream_from_iter(b"1+?+!");
    let error = parser::parse(&mut stream).unwrap_err();
    assert_eq!(error.msg, "Unknown character '?'.");
    assert_eq!(error.pos, 2..3);
}
