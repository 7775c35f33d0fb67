use vstd::prelude::*;
use super::combs::{filter, filtered, kept, mapped, total};
use super::input::Input;
use super::lexem::Lexem;
use super::pos::Pos;
use super::res::Res;

verus! {

/// The input `n` characters after `i`.
pub open spec fn step<'a>(i: Input<'a>, n: nat) -> Input<'a> {
    Input { text: i.text, at: (i.at + n) as usize, len: i.len }
}

/// The match of the one character at `i`.
pub open spec fn one<'a, T>(i: Input<'a>, t: T) -> Res<'a, T> {
    Res::Matched(Lexem { t, i: step(i, 1), p: Pos(i.at..(i.at + 1) as usize) })
}

/// `c` is a decimal digit.
pub open spec fn is_digit(c: char) -> bool {
    '0' <= c <= '9'
}

/// The value of the decimal digit `c`.
pub open spec fn digit_value(c: char) -> u8 {
    (c as u32 - '0' as u32) as u8
}

/// What `any` gives on `i`: the character there, or no match at the end.
pub open spec fn any_at<'a>(i: Input<'a>, out: Res<'a, char>) -> bool {
    if i.at < i.text@.len() {
        out == one(i, i.text@[i.at as int])
    } else {
        out is NoMatch
    }
}

/// What `sym` gives on `i` for the character `c`: `c` where it stands there.
pub open spec fn sym_at<'a>(c: char, i: Input<'a>, out: Res<'a, char>) -> bool {
    if i.at < i.text@.len() && i.text@[i.at as int] == c {
        out == one(i, c)
    } else {
        out is NoMatch
    }
}

/// What `digit` gives on `i`: the value of the digit that stands there.
pub open spec fn digit_at<'a>(i: Input<'a>, out: Res<'a, u8>) -> bool {
    if i.at < i.text@.len() && is_digit(i.text@[i.at as int]) {
        out == one(i, digit_value(i.text@[i.at as int]))
    } else {
        out is NoMatch
    }
}

/// The lexer of any one character.
pub fn any<'a>() -> (r: impl Fn(Input<'a>) -> Res<'a, char>)
    ensures
        total(r),
        forall|i: Input<'a>, out: Res<'a, char>|
            i.wf() && #[trigger] r.ensures((i,), out) ==> any_at(i, out),
{
    |i: Input<'a>| -> (out: Res<'a, char>)
        requires
            i.wf(),
        ensures
            any_at(i, out),
        { i.next() }
}

/// The lexer of the character `c`.
pub fn sym<'a>(c: char) -> (r: impl Fn(Input<'a>) -> Res<'a, char>)
    ensures
        total(r),
        forall|i: Input<'a>, out: Res<'a, char>|
            i.wf() && #[trigger] r.ensures((i,), out) ==> sym_at(c, i, out),
{
    let p = any();
    let f = move |x: &char| -> (b: bool)
        ensures
            b == (*x == c),
        { *x == c };
    let r = filter(p, f);
    proof {
        assert forall|i: Input<'a>, out: Res<'a, char>|
            i.wf() && #[trigger] r.ensures((i,), out) implies sym_at(c, i, out) by {
            assert(filtered(p, f, i, out));
            let mid = choose|mid: Res<'a, char>| #[trigger]
                p.ensures((i,), mid) && match mid {
                    Res::Matched(l) => kept(f, l, out),
                    Res::NoMatch => out is NoMatch,
                    Res::Error(e) => out == Res::<'a, char>::Error(e),
                };
            assert(any_at(i, mid));
        }
    }
    r
}

/// The lexer of one decimal digit, whose match is the digit's value.
pub fn digit<'a>() -> (r: impl Fn(Input<'a>) -> Res<'a, u8>)
    ensures
        total(r),
        forall|i: Input<'a>, out: Res<'a, u8>|
            i.wf() && #[trigger] r.ensures((i,), out) ==> digit_at(i, out),
{
    let p = any();
    let f = |x: &char| -> (b: bool)
        ensures
            b == is_digit(*x),
        { *x >= '0' && *x <= '9' };
    let q = filter(p, f);
    let g = |x: char| -> (d: u8)
        ensures
            is_digit(x) ==> d == digit_value(x),
        {
            if x >= '0' && x <= '9' {
                (x as u32 - '0' as u32) as u8
            } else {
                0
            }
        };
    let r = crate::lexer::combs::map(q, g);
    proof {
        assert forall|i: Input<'a>, out: Res<'a, u8>|
            i.wf() && #[trigger] r.ensures((i,), out) implies digit_at(i, out) by {
            assert(mapped(q, g, i, out));
            let mid = choose|mid: Res<'a, char>| #[trigger]
                q.ensures((i,), mid) && match mid {
                    Res::Matched(l) => out matches Res::Matched(m) && g.ensures((l.t,), m.t) && m.i
                        == l.i && m.p == l.p,
                    Res::NoMatch => out is NoMatch,
                    Res::Error(e) => out == Res::<'a, u8>::Error(e),
                };
            assert(filtered(p, f, i, mid));
            let first = choose|first: Res<'a, char>| #[trigger]
                p.ensures((i,), first) && match first {
                    Res::Matched(l) => kept(f, l, mid),
                    Res::NoMatch => mid is NoMatch,
                    Res::Error(e) => mid == Res::<'a, char>::Error(e),
                };
            assert(any_at(i, first));
        }
    }
    r
}

} // verus!
