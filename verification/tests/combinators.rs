use tlang::ast::parse::binary;
use tlang::ast::{Expr, Operator};
use tlang::lexer::chars::{any, digit, sym};
use tlang::lexer::combs::{and, filter, fold, or};
use tlang::lexer::{Input, Lexem, LexError, Msg, Pos, Res};

fn matched<'a, T>(res: Res<'a, T>) -> Lexem<'a, T> {
    match res.lexem() {
        Ok(Some(l)) => l,
        _ => panic!("a match was expected"),
    }
}

fn literal(expr: &Expr) -> i64 {
    match expr {
        Expr::Integer(v) => *v,
        Expr::Binary(_) => panic!("a literal was expected"),
    }
}

#[test]
fn pos_constructors_and_merge() {
    let a = Pos::new(2, 5);
    assert_eq!(a.start(), 2);
    assert_eq!(a.end(), 5);
    let b = Pos::new_one(7);
    assert_eq!(b.start(), 7);
    assert_eq!(b.end(), 8);
    let c = Pos::merge(a, b);
    assert_eq!(c.start(), 2);
    assert_eq!(c.end(), 8);
}

#[test]
fn input_next_gives_the_character_and_moves_on() {
    let input = Input::new("ab");
    let first = matched(input.next());
    assert_eq!(first.t, 'a');
    assert_eq!(first.p.start(), 0);
    assert_eq!(first.p.end(), 1);
    assert_eq!(first.i.at, 1);
    let second = matched(first.i.next());
    assert_eq!(second.t, 'b');
    assert_eq!(second.p.start(), 1);
    assert_eq!(second.p.end(), 2);
    assert!(matches!(second.i.next(), Res::NoMatch));
    let again = matched(input.next());
    assert_eq!(again.t, 'a');
}

#[test]
fn input_counts_characters_not_bytes() {
    let input = Input::new("é1");
    let first = matched(input.next());
    assert_eq!(first.t, 'é');
    let second = matched(first.i.next());
    assert_eq!(second.t, '1');
    assert_eq!(second.p.start(), 1);
    assert!(matches!(second.i.next(), Res::NoMatch));
}

#[test]
fn res_and_goes_on_only_after_a_match() {
    let input = Input::new("x");
    let hit: Res<char> = Res::new_lexem(Lexem::new('x', input, Pos::new(0, 1)));
    let out = hit.and(|l| Res::new_lexem(Lexem::new(l.t as u32, l.i, l.p)));
    assert_eq!(matched(out).t, 120);
    let miss: Res<char> = Res::new_empty();
    let out: Res<u32> = miss.and(|_l| panic!("nothing matched"));
    assert!(matches!(out, Res::NoMatch));
    let fail: Res<char> =
        Res::new_err(LexError { msg: Msg(String::from("bad")), pos: Pos::new(3, 4) });
    let out: Res<u32> = fail.and(|_l| panic!("nothing matched"));
    match out.lexem() {
        Err(e) => {
            assert_eq!(e.msg.0, "bad");
            assert_eq!(e.pos.start(), 3);
        }
        _ => panic!("an error was expected"),
    }
}

#[test]
fn res_or_tries_again_only_after_no_match() {
    let input = Input::new("x");
    let hit: Res<char> = Res::new_lexem(Lexem::new('x', input, Pos::new(0, 1)));
    let out = hit.or(|| panic!("it matched"));
    assert_eq!(matched(out).t, 'x');
    let miss: Res<char> = Res::new_empty();
    let out = miss.or(|| Res::new_lexem(Lexem::new('y', input, Pos::new(0, 1))));
    assert_eq!(matched(out).t, 'y');
    let fail: Res<char> =
        Res::new_err(LexError { msg: Msg(String::from("bad")), pos: Pos::new(0, 0) });
    let out = fail.or(|| panic!("it failed"));
    assert!(matches!(out, Res::Error(_)));
}

#[test]
fn res_lexem_is_the_nested_form() {
    let miss: Res<char> = Res::new_empty();
    assert!(matches!(miss.lexem(), Ok(None)));
    let fail: Res<char> =
        Res::new_err(LexError { msg: Msg(String::from("bad")), pos: Pos::new(0, 0) });
    assert!(matches!(fail.lexem(), Err(_)));
}

#[test]
fn filter_keeps_what_the_test_accepts() {
    let vowel = filter(any(), |c: &char| *c == 'a' || *c == 'e');
    let hit = matched(vowel(Input::new("ex")));
    assert_eq!(hit.t, 'e');
    assert_eq!(hit.i.at, 1);
    assert!(matches!(vowel(Input::new("x")), Res::NoMatch));
    assert!(matches!(vowel(Input::new("")), Res::NoMatch));
}

#[test]
fn map_changes_the_value_only() {
    let code = tlang::lexer::combs::map(any(), |c: char| c as u32);
    let hit = matched(code(Input::new("A")));
    assert_eq!(hit.t, 65);
    assert_eq!(hit.i.at, 1);
    assert_eq!(hit.p.start(), 0);
    assert_eq!(hit.p.end(), 1);
    assert!(matches!(code(Input::new("")), Res::NoMatch));
}

#[test]
fn and_matches_one_after_the_other() {
    let both = and(sym('a'), digit());
    let hit = matched(both(Input::new("a7z")));
    assert_eq!(hit.t, ('a', 7));
    assert_eq!(hit.i.at, 2);
    assert_eq!(hit.p.start(), 0);
    assert_eq!(hit.p.end(), 2);
    assert!(matches!(both(Input::new("ab")), Res::NoMatch));
    assert!(matches!(both(Input::new("7a")), Res::NoMatch));
    assert!(matches!(both(Input::new("a")), Res::NoMatch));
}

#[test]
fn or_takes_the_first_that_matches() {
    let any_sign = or(sym('+'), sym('-'));
    assert_eq!(matched(any_sign(Input::new("+"))).t, '+');
    assert_eq!(matched(any_sign(Input::new("-1"))).t, '-');
    assert!(matches!(any_sign(Input::new("*")), Res::NoMatch));
}

#[test]
fn fold_collects_every_match() {
    let sum = fold(digit(), || 0u32, |acc: u32, d: u8| acc * 10 + d as u32);
    let hit = matched(sum(Input::new("407x")));
    assert_eq!(hit.t, 407);
    assert_eq!(hit.i.at, 3);
    assert_eq!(hit.p.start(), 0);
    assert_eq!(hit.p.end(), 3);
}

#[test]
fn fold_of_nothing_matches_with_an_empty_range() {
    let sum = fold(digit(), || 0u32, |acc: u32, d: u8| acc * 10 + d as u32);
    let hit = matched(sum(Input::new("x1")));
    assert_eq!(hit.t, 0);
    assert_eq!(hit.i.at, 0);
    assert_eq!(hit.p.start(), 0);
    assert_eq!(hit.p.end(), 0);
}

#[test]
fn digit_gives_the_value() {
    let d = digit();
    let texts = ["0", "1", "2", "3", "4", "5", "6", "7", "8", "9"];
    let mut value = 0;
    while value < 10 {
        let hit = matched(d(Input::new(texts[value])));
        assert_eq!(hit.t as usize, value);
        value += 1;
    }
    assert!(matches!(d(Input::new("a")), Res::NoMatch));
    assert!(matches!(d(Input::new("/")), Res::NoMatch));
    assert!(matches!(d(Input::new(":")), Res::NoMatch));
}

#[test]
fn binary_lexer_of_one_digit_is_a_literal() {
    let chain = binary();
    let hit = matched(chain(Input::new("5")));
    assert_eq!(literal(&hit.t), 5);
    assert_eq!(hit.i.at, 1);
    assert_eq!(hit.p.start(), 0);
    assert_eq!(hit.p.end(), 0);
}

#[test]
fn binary_lexer_of_a_chain_is_one_node() {
    let chain = binary();
    let hit = matched(chain(Input::new("9-3+2?")));
    match &hit.t {
        Expr::Binary(node) => {
            assert_eq!(literal(&node.first), 9);
            assert_eq!(node.others.len(), 2);
            assert_eq!(node.others[0].0, Operator::Subtract);
            assert_eq!(literal(&node.others[0].1), 3);
            assert_eq!(node.others[1].0, Operator::Add);
            assert_eq!(literal(&node.others[1].1), 2);
        }
        Expr::Integer(_) => panic!("a binary node was expected"),
    }
    assert_eq!(hit.i.at, 5);
    assert_eq!(hit.p.start(), 0);
    assert_eq!(hit.p.end(), 5);
}

#[test]
fn binary_lexer_stops_before_an_operator_without_digit() {
    let chain = binary();
    let hit = matched(chain(Input::new("1+2-")));
    assert_eq!(hit.i.at, 3);
    let hit = matched(chain(Input::new("1+")));
    assert_eq!(literal(&hit.t), 1);
    assert_eq!(hit.i.at, 1);
}

#[test]
fn binary_lexer_needs_a_digit_first() {
    let chain = binary();
    assert!(matches!(chain(Input::new("+1")), Res::NoMatch));
    assert!(matches!(chain(Input::new("")), Res::NoMatch));
    assert!(matches!(chain(Input::new(" 1")), Res::NoMatch));
}
