use vstd::prelude::*;
use super::err::LexError;
use super::input::Input;
use super::lexem::Lexem;
use super::pos::Pos;
use super::res::Res;

verus! {

/// `p` may be called on every input that is in order.
pub open spec fn total<'a, T, P: Fn(Input<'a>) -> Res<'a, T>>(p: P) -> bool {
    forall|i: Input<'a>| i.wf() ==> p.requires((i,))
}

/// What `p` matches ends within the text.
pub open spec fn bounded<'a, T, P: Fn(Input<'a>) -> Res<'a, T>>(p: P) -> bool {
    forall|i: Input<'a>, l: Lexem<'a, T>|
        i.wf() && #[trigger] p.ensures((i,), Res::Matched(l)) ==> l.i.wf()
}

/// What `filter` makes of the match `l`: it stays where `f` accepts the
/// value, and is no match where `f` refuses it.
pub open spec fn kept<'a, T, F: Fn(&T) -> bool>(f: F, l: Lexem<'a, T>, out: Res<'a, T>) -> bool {
    ||| f.ensures((&l.t,), true) && out == Res::Matched(l)
    ||| f.ensures((&l.t,), false) && out is NoMatch
}

/// What `filter` gives on `i`, for its arguments `p` and `f`: what `p` gives,
/// but no match where `f` refuses the value.
pub open spec fn filtered<'a, T, P: Fn(Input<'a>) -> Res<'a, T>, F: Fn(&T) -> bool>(
    p: P,
    f: F,
    i: Input<'a>,
    out: Res<'a, T>,
) -> bool {
    exists|mid: Res<'a, T>| #[trigger]
        p.ensures((i,), mid) && match mid {
            Res::Matched(l) => kept(f, l, out),
            Res::NoMatch => out is NoMatch,
            Res::Error(e) => out == Res::<'a, T>::Error(e),
        }
}

/// The lexer that matches what `p` matches where `f` accepts the value.
pub fn filter<'a, T, P, F>(p: P, f: F) -> (r: impl Fn(Input<'a>) -> Res<'a, T>) where
    P: Fn(Input<'a>) -> Res<'a, T>,
    F: Fn(&T) -> bool,

    requires
        total(p),
        forall|t: &T| f.requires((t,)),
    ensures
        total(r),
        forall|i: Input<'a>, out: Res<'a, T>|
            i.wf() && #[trigger] r.ensures((i,), out) ==> filtered(p, f, i, out),
{
    move |i: Input<'a>| -> (out: Res<'a, T>)
        requires
            i.wf(),
        ensures
            filtered(p, f, i, out),
        {
            let keep = |l: Lexem<'a, T>| -> (out: Res<'a, T>)
                ensures
                    kept(f, l, out),
                {
                    if f(&l.t) {
                        Res::new_lexem(l)
                    } else {
                        Res::new_empty()
                    }
                };
            p(i).and(keep)
        }
}

/// What `map` gives on `i`, for its arguments `p` and `f`: the match of `p`
/// with the value that `f` makes of its value.
pub open spec fn mapped<'a, T, E, P: Fn(Input<'a>) -> Res<'a, T>, F: Fn(T) -> E>(
    p: P,
    f: F,
    i: Input<'a>,
    out: Res<'a, E>,
) -> bool {
    exists|mid: Res<'a, T>| #[trigger]
        p.ensures((i,), mid) && match mid {
            Res::Matched(l) => out matches Res::Matched(m) && f.ensures((l.t,), m.t) && m.i == l.i
                && m.p == l.p,
            Res::NoMatch => out is NoMatch,
            Res::Error(e) => out == Res::<'a, E>::Error(e),
        }
}

/// The lexer that matches what `p` matches, with the value changed by `f`.
pub fn map<'a, T, E, P, F>(p: P, f: F) -> (r: impl Fn(Input<'a>) -> Res<'a, E>) where
    P: Fn(Input<'a>) -> Res<'a, T>,
    F: Fn(T) -> E,

    requires
        total(p),
        forall|t: T| f.requires((t,)),
    ensures
        total(r),
        forall|i: Input<'a>, out: Res<'a, E>|
            i.wf() && #[trigger] r.ensures((i,), out) ==> mapped(p, f, i, out),
{
    move |i: Input<'a>| -> (out: Res<'a, E>)
        requires
            i.wf(),
        ensures
            mapped(p, f, i, out),
        {
            let change = |l: Lexem<'a, T>| -> (out: Res<'a, E>)
                ensures
                    out matches Res::Matched(m) && f.ensures((l.t,), m.t) && m.i == l.i && m.p
                        == l.p,
                { Res::new_lexem(Lexem::new(f(l.t), l.i, l.p)) };
            p(i).and(change)
        }
}

/// What `and` gives on `i`, for its arguments `l` and `r`: the match of `l`
/// and, behind it, that of `r`, as one match of the pair.
pub open spec fn joined<
    'a,
    T,
    E,
    L: Fn(Input<'a>) -> Res<'a, T>,
    R: Fn(Input<'a>) -> Res<'a, E>,
>(l: L, r: R, i: Input<'a>, out: Res<'a, (T, E)>) -> bool {
    exists|a: Res<'a, T>| #[trigger]
        l.ensures((i,), a) && match a {
            Res::Matched(x) => followed(r, x, out),
            Res::NoMatch => out is NoMatch,
            Res::Error(e) => out == Res::<'a, (T, E)>::Error(e),
        }
}

/// What `and` gives where its first lexer matched `x`.
pub open spec fn followed<'a, T, E, R: Fn(Input<'a>) -> Res<'a, E>>(
    r: R,
    x: Lexem<'a, T>,
    out: Res<'a, (T, E)>,
) -> bool {
    exists|b: Res<'a, E>| #[trigger]
        r.ensures((x.i,), b) && match b {
            Res::Matched(y) => out == Res::Matched(
                Lexem { t: (x.t, y.t), i: y.i, p: Pos(x.p.0.start..y.p.0.end) },
            ),
            Res::NoMatch => out is NoMatch,
            Res::Error(e) => out == Res::<'a, (T, E)>::Error(e),
        }
}

/// The lexer that matches `l` and then `r`.
pub fn and<'a, T, E, L, R>(l: L, r: R) -> (both: impl Fn(Input<'a>) -> Res<'a, (T, E)>) where
    L: Fn(Input<'a>) -> Res<'a, T>,
    R: Fn(Input<'a>) -> Res<'a, E>,

    requires
        total(l),
        bounded(l),
        total(r),
    ensures
        total(both),
        forall|i: Input<'a>, out: Res<'a, (T, E)>|
            i.wf() && #[trigger] both.ensures((i,), out) ==> joined(l, r, i, out),
{
    move |i: Input<'a>| -> (out: Res<'a, (T, E)>)
        requires
            i.wf(),
        ensures
            joined(l, r, i, out),
        {
            let first = |left: Lexem<'a, T>| -> (out: Res<'a, (T, E)>)
                requires
                    left.i.wf(),
                ensures
                    followed(r, left, out),
                {
                    let at = left.i;
                    let second = |right: Lexem<'a, E>| -> (out: Res<'a, (T, E)>)
                        ensures
                            out == Res::Matched(
                                Lexem {
                                    t: (left.t, right.t),
                                    i: right.i,
                                    p: Pos(left.p.0.start..right.p.0.end),
                                },
                            ),
                        {
                            Res::new_lexem(
                                Lexem::new((left.t, right.t), right.i, Pos::merge(left.p, right.p)),
                            )
                        };
                    r(at).and(second)
                };
            l(i).and(first)
        }
}

/// What `or` gives on `i`, for its arguments `l` and `r`: what `l` gives, or
/// what `r` gives where `l` does not match.
pub open spec fn either<
    'a,
    T,
    L: Fn(Input<'a>) -> Res<'a, T>,
    R: Fn(Input<'a>) -> Res<'a, T>,
>(l: L, r: R, i: Input<'a>, out: Res<'a, T>) -> bool {
    exists|a: Res<'a, T>| #[trigger]
        l.ensures((i,), a) && match a {
            Res::Matched(x) => out == a,
            Res::NoMatch => r.ensures((i,), out),
            Res::Error(e) => out == a,
        }
}

/// The lexer that matches `l`, or else `r`. An error of `l` stays an error.
pub fn or<'a, T, L, R>(l: L, r: R) -> (any: impl Fn(Input<'a>) -> Res<'a, T>) where
    L: Fn(Input<'a>) -> Res<'a, T>,
    R: Fn(Input<'a>) -> Res<'a, T>,

    requires
        total(l),
        total(r),
    ensures
        total(any),
        forall|i: Input<'a>, out: Res<'a, T>|
            i.wf() && #[trigger] any.ensures((i,), out) ==> either(l, r, i, out),
{
    move |i: Input<'a>| -> (out: Res<'a, T>)
        requires
            i.wf(),
        ensures
            either(l, r, i, out),
        {
            let second = || -> (out: Res<'a, T>)
                ensures
                    r.ensures((i,), out),
                { r(i) };
            l(i.clone()).or(second)
        }
}

/// What `p` matches ends within the text, and is not empty.
pub open spec fn advancing<'a, T, P: Fn(Input<'a>) -> Res<'a, T>>(p: P) -> bool {
    forall|i: Input<'a>, l: Lexem<'a, T>|
        i.wf() && #[trigger] p.ensures((i,), Res::Matched(l)) ==> l.i.wf() && l.i.rest().len()
            < i.rest().len()
}

/// The range that `fold` gives to what it matched: from the start of the
/// first match to the end of the last, and from 0 to 0 where there was none.
pub open spec fn spanned(start: Option<usize>, end: Option<usize>) -> Pos {
    Pos(
        (if start is Some {
            start->0
        } else {
            0
        })..(if end is Some {
            end->0
        } else {
            0
        }),
    )
}

/// What `fold` gives in `n` more matches of `p`, from the input `i`, the value
/// `e` and the range between `start` and `end`. Each match of `p` hands its
/// value to `f`; where `p` matches no more, the value is the match; an error
/// of `p` is the result.
pub open spec fn folding<'a, T, E, P: Fn(Input<'a>) -> Res<'a, T>, F: Fn(E, T) -> E>(
    p: P,
    f: F,
    i: Input<'a>,
    e: E,
    start: Option<usize>,
    end: Option<usize>,
    out: Res<'a, E>,
    n: nat,
) -> bool
    decreases n,
{
    exists|mid: Res<'a, T>| #[trigger]
        p.ensures((i,), mid) && match mid {
            Res::Matched(l) => n > 0 && exists|next: E| #[trigger]
                f.ensures((e, l.t), next) && folding(
                    p,
                    f,
                    l.i,
                    next,
                    if start is Some {
                        start
                    } else {
                        Some(l.p.0.start)
                    },
                    Some(l.p.0.end),
                    out,
                    (n - 1) as nat,
                ),
            Res::NoMatch => out == Res::Matched(Lexem { t: e, i, p: spanned(start, end) }),
            Res::Error(x) => out == Res::<'a, E>::Error(x),
        }
}

/// What `fold` gives on `i`, for its arguments `p`, `c` and `f`.
pub open spec fn folded<
    'a,
    T,
    E,
    P: Fn(Input<'a>) -> Res<'a, T>,
    C: Fn() -> E,
    F: Fn(E, T) -> E,
>(p: P, c: C, f: F, i: Input<'a>, out: Res<'a, E>) -> bool {
    exists|e: E, n: nat| #[trigger] c.ensures((), e) && #[trigger] folding(p, f, i, e, None, None, out, n)
}

/// The lexer that matches `p` as often as it matches, and folds the values
/// with `f` from the value that `c` makes. It matches where `p` never does.
pub fn fold<'a, T, E, P, C, F>(p: P, c: C, f: F) -> (r: impl Fn(Input<'a>) -> Res<'a, E>) where
    P: Fn(Input<'a>) -> Res<'a, T>,
    C: Fn() -> E,
    F: Fn(E, T) -> E,

    requires
        total(p),
        advancing(p),
        c.requires(()),
        forall|e: E, t: T| f.requires((e, t)),
    ensures
        total(r),
        forall|i: Input<'a>, out: Res<'a, E>|
            i.wf() && #[trigger] r.ensures((i,), out) ==> folded(p, c, f, i, out),
{
    move |i: Input<'a>| -> (out: Res<'a, E>)
        requires
            i.wf(),
        ensures
            folded(p, c, f, i, out),
        {
            let mut cur = i;
            let mut e = c();
            let ghost first = e;
            let mut start: Option<usize> = None;
            let mut end: Option<usize> = None;
            let mut error: Option<LexError> = None;
            let ghost mut steps: nat = 0;
            loop
                invariant_except_break
                    error is None,
                invariant
                    cur.wf(),
                    total(p),
                    advancing(p),
                    forall|e: E, t: T| f.requires((e, t)),
                    forall|o: Res<'a, E>, k: nat| #[trigger]
                        folding(p, f, cur, e, start, end, o, k) ==> folding(
                            p,
                            f,
                            i,
                            first,
                            None,
                            None,
                            o,
                            k + steps,
                        ),
                ensures
                    error matches Some(x) ==> folding(
                        p,
                        f,
                        cur,
                        e,
                        start,
                        end,
                        Res::<'a, E>::Error(x),
                        0,
                    ),
                    error is None ==> folding(
                        p,
                        f,
                        cur,
                        e,
                        start,
                        end,
                        Res::Matched(Lexem { t: e, i: cur, p: spanned(start, end) }),
                        0,
                    ),
                decreases cur.rest().len(),
            {
                let ghost before = cur;
                let ghost value = e;
                let ghost from = start;
                let ghost to = end;
                match p(cur.clone()).lexem() {
                    Ok(o) => match o {
                        Some(l) => {
                            let ghost matched = l;
                            cur = l.i;
                            if start.is_none() {
                                start = Some(l.p.start());
                            }
                            end = Some(l.p.end());
                            e = f(e, l.t);
                            proof {
                                assert forall|o: Res<'a, E>, k: nat| #[trigger]
                                    folding(p, f, cur, e, start, end, o, k) implies folding(
                                    p,
                                    f,
                                    i,
                                    first,
                                    None,
                                    None,
                                    o,
                                    k + steps + 1,
                                ) by {
                                    assert(p.ensures((before,), Res::Matched(matched)));
                                    assert(f.ensures((value, matched.t), e));
                                    assert(folding(p, f, before, value, from, to, o, k + 1));
                                }
                                steps = steps + 1;
                            }
                        },
                        None => {
                            assert(p.ensures((cur,), Res::<'a, T>::NoMatch));
                            break ;
                        },
                    },
                    Result::Err(x) => {
                        assert(p.ensures((cur,), Res::<'a, T>::Error(x)));
                        error = Some(x);
                        break ;
                    },
                }
            }
            match error {
                Some(x) => Res::new_err(x),
                None => {
                    let out = Res::new_lexem(
                        Lexem::new(
                            e,
                            cur,
                            Pos::new(
                                match start {
                                    Some(s) => s,
                                    None => 0,
                                },
                                match end {
                                    Some(s) => s,
                                    None => 0,
                                },
                            ),
                        ),
                    );
                    out
                },
            }
        }
}

} // verus!
