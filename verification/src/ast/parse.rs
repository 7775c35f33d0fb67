use vstd::prelude::*;
use crate::lexer::chars::{digit, digit_at, digit_value, is_digit, one, step, sym, sym_at};
use crate::lexer::combs::{
    advancing,
    and,
    bounded,
    either,
    fold,
    folded,
    folding,
    followed,
    joined,
    mapped,
    or,
    spanned,
    total,
};
use crate::lexer::{Input, Lexem, Pos, Res};
use super::binary::Binary;
use super::expr::{operands, Expr, Tree};
use super::oper::Operator;

verus! {

/// The operator that the character `c` is, if it is one.
pub open spec fn sign(c: char) -> Option<Operator> {
    if c == '+' {
        Some(Operator::Add)
    } else if c == '-' {
        Some(Operator::Subtract)
    } else {
        None
    }
}

/// A digit stands at `i`.
pub open spec fn digit_here<'a>(i: Input<'a>) -> bool {
    i.at < i.text@.len() && is_digit(i.text@[i.at as int])
}

/// The literal of the digit that stands at `i`.
pub open spec fn literal_here<'a>(i: Input<'a>) -> Expr {
    Expr::Integer(digit_value(i.text@[i.at as int]) as i64)
}

/// An operator stands at `i`, and a digit behind it.
pub open spec fn pair_here<'a>(i: Input<'a>) -> bool {
    i.at < i.text@.len() && sign(i.text@[i.at as int]) is Some && digit_here(step(i, 1))
}

/// What `expr_digit` gives on `i`: the literal of the digit there.
pub open spec fn literal_at<'a>(i: Input<'a>, out: Res<'a, Expr>) -> bool {
    if digit_here(i) {
        out == one(i, literal_here(i))
    } else {
        out is NoMatch
    }
}

/// What `operator` gives on `i`: the operator there.
pub open spec fn operator_at<'a>(i: Input<'a>, out: Res<'a, Operator>) -> bool {
    if i.at < i.text@.len() && sign(i.text@[i.at as int]) is Some {
        out == one(i, sign(i.text@[i.at as int])->0)
    } else {
        out is NoMatch
    }
}

/// The match of an operator and a digit at `i`.
pub open spec fn pair_at<'a>(i: Input<'a>, out: Res<'a, (Operator, Expr)>) -> bool {
    if pair_here(i) {
        out == Res::Matched(
            Lexem {
                t: (sign(i.text@[i.at as int])->0, literal_here(step(i, 1))),
                i: step(i, 2),
                p: Pos(i.at..(i.at + 2) as usize),
            },
        )
    } else {
        out is NoMatch
    }
}

/// The number of operators with a digit behind them that stand one after the
/// other at `i`.
pub open spec fn pairs<'a>(i: Input<'a>) -> nat
    decreases i.text@.len() - i.at,
{
    if i.wf() && pair_here(i) {
        1 + pairs(step(i, 2))
    } else {
        0
    }
}

/// The first `n` operators at `i`, each with the literal of its digit.
pub open spec fn pairs_seq<'a>(i: Input<'a>, n: nat) -> Seq<(Operator, Expr)> {
    Seq::new(
        n,
        |k: int| (sign(i.text@[i.at + 2 * k])->0, literal_here(step(i, (2 * k + 1) as nat))),
    )
}

/// What `binary` gives on `i`. Where a digit stands there it matches the
/// chain of that digit and of the operators with digits that follow it: the
/// literal alone where none follows, else one `Binary` node. The range ends
/// behind the last digit, but at 0 where there is no operator. Where no
/// digit stands there it does not match.
pub open spec fn chain_at<'a>(i: Input<'a>, out: Res<'a, Expr>) -> bool {
    if digit_here(i) {
        let n = pairs(step(i, 1));
        &&& out matches Res::Matched(l)
        &&& l.t@ == if n == 0 {
            literal_here(i)@
        } else {
            Tree::Binary {
                first: Box::new(literal_here(i)@),
                others: operands(pairs_seq(step(i, 1), n)),
            }
        }
        &&& l.i == step(i, 1 + 2 * n)
        &&& l.p == Pos(
            i.at..(if n == 0 {
                0
            } else {
                (i.at + 1 + 2 * n) as usize
            }),
        )
    } else {
        out is NoMatch
    }
}

/// The pairs at `i` lie within the text.
pub proof fn lemma_pairs<'a>(i: Input<'a>)
    requires
        i.wf(),
    ensures
        i.at + 2 * pairs(i) <= i.text@.len(),
    decreases i.text@.len() - i.at,
{
    if pair_here(i) {
        lemma_pairs(step(i, 2));
    }
}

/// What folding pairs into a vector gives: the vector at the start and then
/// all the pairs at `i`, with the input behind them.
pub proof fn lemma_folding_pairs<
    'a,
    P: Fn(Input<'a>) -> Res<'a, (Operator, Expr)>,
    F: Fn(Vec<(Operator, Expr)>, (Operator, Expr)) -> Vec<(Operator, Expr)>,
>(
    p: P,
    f: F,
    i: Input<'a>,
    e: Vec<(Operator, Expr)>,
    start: Option<usize>,
    end: Option<usize>,
    out: Res<'a, Vec<(Operator, Expr)>>,
    n: nat,
)
    requires
        i.wf(),
        forall|j: Input<'a>, o: Res<'a, (Operator, Expr)>|
            j.wf() && #[trigger] p.ensures((j,), o) ==> pair_at(j, o),
        forall|v: Vec<(Operator, Expr)>, x: (Operator, Expr), w: Vec<(Operator, Expr)>| #[trigger]
            f.ensures((v, x), w) ==> w@ == v@.push(x),
        folding(p, f, i, e, start, end, out, n),
    ensures
        out matches Res::Matched(l) && l.t@ == e@ + pairs_seq(i, pairs(i)) && l.i == step(
            i,
            2 * pairs(i),
        ) && l.p == spanned(
            if start is Some || pairs(i) == 0 {
                start
            } else {
                Some(i.at)
            },
            if pairs(i) == 0 {
                end
            } else {
                Some((i.at + 2 * pairs(i)) as usize)
            },
        ),
    decreases n,
{
    let mid = choose|mid: Res<'a, (Operator, Expr)>| #[trigger]
        p.ensures((i,), mid) && match mid {
            Res::Matched(l) => n > 0 && exists|next: Vec<(Operator, Expr)>| #[trigger]
                f.ensures((e, l.t), next) && folding(
                    p,
                    f,
                    l.i,
                    next,
                    if start is Some {
                        start
                    } else {
                        Some(l.p.0.start)
                    },
                    Some(l.p.0.end),
                    out,
                    (n - 1) as nat,
                ),
            Res::NoMatch => out == Res::Matched(Lexem { t: e, i, p: spanned(start, end) }),
            Res::Error(x) => out == Res::<'a, Vec<(Operator, Expr)>>::Error(x),
        };
    assert(pair_at(i, mid));
    lemma_pairs(i);
    if pair_here(i) {
        let l = mid->Matched_0;
        let from = if start is Some {
            start
        } else {
            Some(l.p.0.start)
        };
        let next = choose|next: Vec<(Operator, Expr)>| #[trigger]
            f.ensures((e, l.t), next) && folding(
                p,
                f,
                l.i,
                next,
                from,
                Some(l.p.0.end),
                out,
                (n - 1) as nat,
            );
        lemma_pairs(l.i);
        lemma_folding_pairs(p, f, l.i, next, from, Some(l.p.0.end), out, (n - 1) as nat);
        let rest = pairs(l.i);
        let got = out->Matched_0;
        assert(step(l.i, 2 * rest) == step(i, 2 * pairs(i)));
        assert(got.t@ =~= e@ + pairs_seq(i, pairs(i))) by {
            let a = next@ + pairs_seq(l.i, rest);
            let b = e@ + pairs_seq(i, pairs(i));
            assert(a.len() == b.len());
            assert forall|k: int| 0 <= k < a.len() implies a[k] == b[k] by {
                if k > e@.len() {
                    let m = k - e@.len() - 1;
                    assert(a[k] == pairs_seq(l.i, rest)[m]);
                    assert(b[k] == pairs_seq(i, pairs(i))[m + 1]);
                    assert(step(l.i, (2 * m + 1) as nat) == step(i, (2 * (m + 1) + 1) as nat));
                } else if k == e@.len() {
                    assert(b[k] == pairs_seq(i, pairs(i))[0]);
                    assert(step(i, (2 * 0 + 1) as nat) == step(i, 1));
                }
            }
        }
    } else {
        assert(pairs_seq(i, 0) =~= Seq::<(Operator, Expr)>::empty());
        assert(e@ + pairs_seq(i, 0) =~= e@);
        assert(step(i, 0) == i);
    }
}

/// The lexer of one digit as a literal.
fn expr_digit<'a>() -> (r: impl Fn(Input<'a>) -> Res<'a, Expr>)
    ensures
        total(r),
        forall|i: Input<'a>, out: Res<'a, Expr>|
            i.wf() && #[trigger] r.ensures((i,), out) ==> literal_at(i, out),
{
    let p = digit();
    let f = |d: u8| -> (e: Expr)
        ensures
            e == Expr::Integer(d as i64),
        { Expr::Integer(d as i64) };
    let r = crate::lexer::combs::map(p, f);
    proof {
        assert forall|i: Input<'a>, out: Res<'a, Expr>|
            i.wf() && #[trigger] r.ensures((i,), out) implies literal_at(i, out) by {
            assert(mapped(p, f, i, out));
            let mid = choose|mid: Res<'a, u8>| #[trigger]
                p.ensures((i,), mid) && match mid {
                    Res::Matched(l) => out matches Res::Matched(m) && f.ensures((l.t,), m.t) && m.i
                        == l.i && m.p == l.p,
                    Res::NoMatch => out is NoMatch,
                    Res::Error(e) => out == Res::<'a, Expr>::Error(e),
                };
            assert(digit_at(i, mid));
        }
    }
    r
}

/// The lexer of one operator.
fn operator<'a>() -> (r: impl Fn(Input<'a>) -> Res<'a, Operator>)
    ensures
        total(r),
        forall|i: Input<'a>, out: Res<'a, Operator>|
            i.wf() && #[trigger] r.ensures((i,), out) ==> operator_at(i, out),
{
    let plus = sym('+');
    let minus = sym('-');
    let p = or(plus, minus);
    let f = |c: char| -> (o: Operator)
        ensures
            sign(c) is Some ==> o == sign(c)->0,
        {
            if c == '+' {
                Operator::Add
            } else {
                Operator::Subtract
            }
        };
    let r = crate::lexer::combs::map(p, f);
    proof {
        assert forall|i: Input<'a>, out: Res<'a, Operator>|
            i.wf() && #[trigger] r.ensures((i,), out) implies operator_at(i, out) by {
            assert(mapped(p, f, i, out));
            let mid = choose|mid: Res<'a, char>| #[trigger]
                p.ensures((i,), mid) && match mid {
                    Res::Matched(l) => out matches Res::Matched(m) && f.ensures((l.t,), m.t) && m.i
                        == l.i && m.p == l.p,
                    Res::NoMatch => out is NoMatch,
                    Res::Error(e) => out == Res::<'a, Operator>::Error(e),
                };
            assert(either(plus, minus, i, mid));
            let a = choose|a: Res<'a, char>| #[trigger]
                plus.ensures((i,), a) && match a {
                    Res::Matched(x) => mid == a,
                    Res::NoMatch => minus.ensures((i,), mid),
                    Res::Error(e) => mid == a,
                };
            assert(sym_at('+', i, a));
            if a is NoMatch {
                assert(sym_at('-', i, mid));
            }
        }
    }
    r
}

/// The lexer of a chain: a digit, and the operators with a digit that follow
/// it.
pub fn binary<'a>() -> (r: impl Fn(Input<'a>) -> Res<'a, Expr>)
    ensures
        total(r),
        forall|i: Input<'a>, out: Res<'a, Expr>|
            i.wf() && #[trigger] r.ensures((i,), out) ==> chain_at(
                i,
                out,
            ),
{
    let sign_of = operator();
    let operand = expr_digit();
    proof {
        assert(bounded(sign_of)) by {
            assert forall|i: Input<'a>, l: Lexem<'a, Operator>|
                i.wf() && #[trigger] sign_of.ensures((i,), Res::Matched(l)) implies l.i.wf() by {
                assert(operator_at(i, Res::Matched(l)));
            }
        }
    }
    let other = and(sign_of, operand);
    proof {
        assert forall|i: Input<'a>, o: Res<'a, (Operator, Expr)>|
            i.wf() && #[trigger] other.ensures((i,), o) implies pair_at(i, o) by {
            assert(joined(sign_of, operand, i, o));
            let a = choose|a: Res<'a, Operator>| #[trigger]
                sign_of.ensures((i,), a) && match a {
                    Res::Matched(x) => followed(operand, x, o),
                    Res::NoMatch => o is NoMatch,
                    Res::Error(e) => o == Res::<'a, (Operator, Expr)>::Error(e),
                };
            assert(operator_at(i, a));
            if a is Matched {
                let x = a->Matched_0;
                let b = choose|b: Res<'a, Expr>| #[trigger]
                    operand.ensures((x.i,), b) && match b {
                        Res::Matched(y) => o == Res::Matched(
                            Lexem { t: (x.t, y.t), i: y.i, p: Pos(x.p.0.start..y.p.0.end) },
                        ),
                        Res::NoMatch => o is NoMatch,
                        Res::Error(e) => o == Res::<'a, (Operator, Expr)>::Error(e),
                    };
                assert(literal_at(x.i, b));
                assert(step(step(i, 1), 1) == step(i, 2));
            }
        }
        assert(advancing(other)) by {
            assert forall|i: Input<'a>, l: Lexem<'a, (Operator, Expr)>|
                i.wf() && #[trigger] other.ensures((i,), Res::Matched(l)) implies l.i.wf()
                && l.i.rest().len() < i.rest().len() by {
                assert(pair_at(i, Res::Matched(l)));
            }
        }
    }
    let empty = || -> (v: Vec<(Operator, Expr)>)
        ensures
            v@.len() == 0,
        { Vec::new() };
    let push = |v: Vec<(Operator, Expr)>, e: (Operator, Expr)| -> (w: Vec<(Operator, Expr)>)
        ensures
            w@ == v@.push(e),
        {
            let mut v = v;
            v.push(e);
            v
        };
    let others = fold(other, empty, push);
    let first = expr_digit();
    proof {
        assert(bounded(first)) by {
            assert forall|i: Input<'a>, l: Lexem<'a, Expr>|
                i.wf() && #[trigger] first.ensures((i,), Res::Matched(l)) implies l.i.wf() by {
                assert(literal_at(i, Res::Matched(l)));
            }
        }
    }
    let whole = and(first, others);
    let build = |pair: (Expr, Vec<(Operator, Expr)>)| -> (e: Expr)
        ensures
            e@ == if pair.1@.len() == 0 {
                pair.0@
            } else {
                Tree::Binary { first: Box::new(pair.0@), others: operands(pair.1@) }
            },
        {
            let (first, others) = pair;
            if others.is_empty() {
                first
            } else {
                Binary::new(first, others)
            }
        };
    let r = crate::lexer::combs::map(whole, build);
    proof {
        assert forall|i: Input<'a>, out: Res<'a, Expr>|
            i.wf() && #[trigger] r.ensures((i,), out) implies chain_at(
            i,
            out,
        ) by {
            assert(mapped(whole, build, i, out));
            let mid = choose|mid: Res<'a, (Expr, Vec<(Operator, Expr)>)>| #[trigger]
                whole.ensures((i,), mid) && match mid {
                    Res::Matched(l) => out matches Res::Matched(m) && build.ensures((l.t,), m.t)
                        && m.i == l.i && m.p == l.p,
                    Res::NoMatch => out is NoMatch,
                    Res::Error(e) => out == Res::<'a, Expr>::Error(e),
                };
            assert(joined(first, others, i, mid));
            let a = choose|a: Res<'a, Expr>| #[trigger]
                first.ensures((i,), a) && match a {
                    Res::Matched(x) => followed(others, x, mid),
                    Res::NoMatch => mid is NoMatch,
                    Res::Error(e) => mid == Res::<'a, (Expr, Vec<(Operator, Expr)>)>::Error(e),
                };
            assert(literal_at(i, a));
            if a is Matched {
                let x = a->Matched_0;
                let b = choose|b: Res<'a, Vec<(Operator, Expr)>>| #[trigger]
                    others.ensures((x.i,), b) && match b {
                        Res::Matched(y) => mid == Res::Matched(
                            Lexem { t: (x.t, y.t), i: y.i, p: Pos(x.p.0.start..y.p.0.end) },
                        ),
                        Res::NoMatch => mid is NoMatch,
                        Res::Error(e) => mid == Res::<'a, (Expr, Vec<(Operator, Expr)>)>::Error(e),
                    };
                assert(folded(other, empty, push, x.i, b));
                let (e, n) = choose|e: Vec<(Operator, Expr)>, n: nat| #[trigger]
                    empty.ensures((), e) && #[trigger] folding(other, push, x.i, e, None, None, b, n);
                lemma_folding_pairs(other, push, x.i, e, None, None, b, n);
                lemma_pairs(x.i);
                assert(e@ + pairs_seq(x.i, pairs(x.i)) =~= pairs_seq(x.i, pairs(x.i)));
                assert(step(step(i, 1), 2 * pairs(x.i)) == step(i, 1 + 2 * pairs(x.i)));
            }
        }
    }
    r
}

} // verus!
