use tlang::lexer::{lex, Reader};
use tlang::parser::TokenStream;
use tlang::stream_from_iter;
use tlang::token::TokenKind;
use tlang::utils::IterToReader;

#[test]
fn lex_digit_symbol_unknown() {
    let mut reader = IterToReader::new(b"2+x");
    let a = lex(&mut reader);
    assert_eq!(a.kind, TokenKind::Integer(2));
    assert_eq!(a.pos, 0..1);
    let b = lex(&mut reader);
    assert_eq!(b.kind, TokenKind::Symbol(b'+'));
    assert_eq!(b.pos, 1..2);
    let c = lex(&mut reader);
    assert_eq!(c.kind, TokenKind::Unknown(b'x'));
    assert_eq!(c.pos, 2..3);
    let d = lex(&mut reader);
    assert_eq!(d.kind, TokenKind::End);
    assert_eq!(d.pos, 3..4);
}

#[test]
fn lex_every_digit_has_its_value() {
    let mut reader = IterToReader::new(b"0123456789");
    let mut expected: i64 = 0;
    while expected < 10 {
        let token = lex(&mut reader);
        assert_eq!(token.kind, TokenKind::Integer(expected));
        assert_eq!(token.pos, (expected as usize)..(expected as usize + 1));
        expected += 1;
    }
    assert_eq!(lex(&mut reader).kind, TokenKind::End);
}

#[test]
fn lex_minus_is_a_symbol() {
    let mut reader = IterToReader::new(b"-");
    let token = lex(&mut reader);
    assert_eq!(token.kind, TokenKind::Symbol(b'-'));
    assert_eq!(token.pos, 0..1);
}

#[test]
fn lex_skips_whitespace_before_a_token() {
    let mut reader = IterToReader::new(b" \t\r\n7 ");
    let token = lex(&mut reader);
    assert_eq!(token.kind, TokenKind::Integer(7));
    assert_eq!(token.pos, 4..5);
    assert_eq!(reader.pos(), 5);
    let end = lex(&mut reader);
    assert_eq!(end.kind, TokenKind::End);
    assert_eq!(end.pos, 6..7);
}

#[test]
fn lex_empty_input_is_end_at_zero() {
    let mut reader = IterToReader::new(b"");
    let token = lex(&mut reader);
    assert_eq!(token.kind, TokenKind::End);
    assert_eq!(token.pos, 0..1);
}

#[test]
fn lex_end_repeats() {
    let mut reader = IterToReader::new(b"1 ");
    assert_eq!(lex(&mut reader).kind, TokenKind::Integer(1));
    let first = lex(&mut reader);
    assert_eq!(first.kind, TokenKind::End);
    assert_eq!(first.pos, 2..3);
    let mut again = 0;
    while again < 5 {
        let next = lex(&mut reader);
        assert_eq!(next.kind, TokenKind::End);
        assert_eq!(next.pos, 2..3);
        again += 1;
    }
}

#[test]
fn lex_unknown_byte_is_consumed() {
    let mut reader = IterToReader::new(b"?1");
    let token = lex(&mut reader);
    assert_eq!(token.kind, TokenKind::Unknown(b'?'));
    assert_eq!(reader.pos(), 1);
    assert_eq!(lex(&mut reader).kind, TokenKind::Integer(1));
}

#[test]
fn reader_current_does_not_move() {
    let mut reader = IterToReader::new(b"ab");
    assert_eq!(reader.current(), Some(b'a'));
    assert_eq!(reader.current(), Some(b'a'));
    assert_eq!(reader.pos(), 0);
    assert_eq!(reader.next(), Some(b'a'));
    assert_eq!(reader.pos(), 1);
    assert_eq!(reader.next(), Some(b'b'));
    assert_eq!(reader.pos(), 2);
    assert_eq!(reader.current(), None);
    assert_eq!(reader.next(), None);
    assert_eq!(reader.pos(), 2);
}

#[test]
fn reader_clone_reads_the_same() {
    let mut reader = IterToReader::new(b"xyz");
    reader.next();
    let mut copy = reader.clone();
    assert_eq!(copy.pos(), 1);
    assert_eq!(copy.next(), Some(b'y'));
    assert_eq!(reader.next(), Some(b'y'));
}

#[test]
fn stream_shows_current_and_moves_on() {
    let mut stream = stream_from_iter(b"1+");
    assert_eq!(stream.current().kind, TokenKind::Integer(1));
    assert_eq!(stream.current().kind, TokenKind::Integer(1));
    let a = stream.next();
    assert_eq!(a.kind, TokenKind::Integer(1));
    assert_eq!(a.pos, 0..1);
    assert_eq!(stream.current().kind, TokenKind::Symbol(b'+'));
    let b = stream.next();
    assert_eq!(b.pos, 1..2);
    assert_eq!(stream.current().kind, TokenKind::End);
    let c = stream.next();
    assert_eq!(c.kind, TokenKind::End);
    assert_eq!(c.pos, 2..3);
    let d = stream.next();
    assert_eq!(d.kind, TokenKind::End);
    assert_eq!(d.pos, 2..3);
    assert_eq!(stream.current().kind, TokenKind::End);
}
