use vstd::prelude::*;
use super::compiler::Emit;
use super::expr::Tree;
use super::oper::Operator;
use crate::vm::model::wrap;

verus! {

/// The calls that the nodes of `t` give, depth first.
pub open spec fn events(t: Tree) -> Seq<Emit>
    decreases t,
{
    match t {
        Tree::Integer(v) => seq![Emit::Integer(v)],
        Tree::Binary { first, others } => events(*first) + steps(others),
    }
}

/// The calls that a run of operators with their right operands gives: for
/// each, the marker, then the operand, then the operator.
pub open spec fn steps(others: Seq<(Operator, Tree)>) -> Seq<Emit>
    decreases others,
{
    if others.len() == 0 {
        Seq::empty()
    } else {
        steps(others.drop_last()) + seq![Emit::Binary] + events(others.last().1) + seq![
            Emit::Operator(others.last().0),
        ]
    }
}

/// `o` applied to two integers, wrapping.
pub open spec fn apply(o: Operator, left: i64, right: i64) -> i64 {
    match o {
        Operator::Add => wrap(left + right),
        Operator::Subtract => wrap(left - right),
    }
}

/// The value of `t`: operators apply from the left, and each result wraps.
pub open spec fn value(t: Tree) -> i64
    decreases t,
{
    match t {
        Tree::Integer(v) => v,
        Tree::Binary { first, others } => chain(value(*first), others),
    }
}

/// The value of a run of operators with their right operands, after the value
/// `left`.
pub open spec fn chain(left: i64, others: Seq<(Operator, Tree)>) -> i64
    decreases others,
{
    if others.len() == 0 {
        left
    } else {
        apply(others.last().0, chain(left, others.drop_last()), value(others.last().1))
    }
}

/// The number of stack slots that evaluating `t` takes.
pub open spec fn depth(t: Tree) -> nat
    decreases t,
{
    match t {
        Tree::Integer(_) => 0,
        Tree::Binary { first, others } => {
            let a = depth(*first);
            let b = deepest(others);
            if a >= b {
                a
            } else {
                b
            }
        },
    }
}

/// The number of stack slots that the right operands of `others` take, the
/// slot of the left operand included; 0 where there is none.
pub open spec fn deepest(others: Seq<(Operator, Tree)>) -> nat
    decreases others,
{
    if others.len() == 0 {
        0
    } else {
        let a = deepest(others.drop_last());
        let b = 1 + depth(others.last().1);
        if a >= b {
            a
        } else {
            b
        }
    }
}

/// Every `Binary` node of `t` has an operator.
pub open spec fn well_formed(t: Tree) -> bool
    decreases t,
{
    match t {
        Tree::Integer(_) => true,
        Tree::Binary { first, others } => others.len() > 0 && well_formed(*first) && forall|
            i: int,
        |
            0 <= i < others.len() ==> well_formed(#[trigger] others[i].1),
    }
}

/// Every right operand of `others` is a literal.
pub open spec fn literals(others: Seq<(Operator, Tree)>) -> bool {
    forall|i: int| 0 <= i < others.len() ==> (#[trigger] others[i]).1 is Integer
}

/// `t` is a chain: a literal, or literals with operators between them.
pub open spec fn is_chain(t: Tree) -> bool {
    match t {
        Tree::Integer(_) => true,
        Tree::Binary { first, others } => *first is Integer && others.len() > 0 && literals(
            others,
        ),
    }
}

/// The number of operators of the chain `t`.
pub open spec fn links(t: Tree) -> nat {
    match t {
        Tree::Integer(_) => 0,
        Tree::Binary { first, others } => others.len(),
    }
}

/// The number of operators in `t`, at every level.
pub open spec fn operators(t: Tree) -> nat
    decreases t,
{
    match t {
        Tree::Integer(_) => 0,
        Tree::Binary { first, others } => operators(*first) + operators_of(others),
    }
}

/// The number of operators in `others`: its own, and those in its operands.
pub open spec fn operators_of(others: Seq<(Operator, Tree)>) -> nat
    decreases others,
{
    if others.len() == 0 {
        0
    } else {
        operators_of(others.drop_last()) + 1 + operators(others.last().1)
    }
}

/// Right operands that are literals take the one slot of their left operand.
pub proof fn lemma_literals(others: Seq<(Operator, Tree)>)
    requires
        literals(others),
    ensures
        deepest(others) == if others.len() == 0 { 0nat } else { 1nat },
        operators_of(others) == others.len(),
    decreases others.len(),
{
    if others.len() > 0 {
        let init = others.drop_last();
        assert forall|i: int| 0 <= i < init.len() implies (#[trigger] init[i]).1 is Integer by {
            assert(init[i] == others[i]);
        }
        lemma_literals(init);
        assert(others.last() == others[others.len() - 1]);
        assert(others.last().1 is Integer);
        assert(depth(others.last().1) == 0);
        assert(operators(others.last().1) == 0);
    }
}

/// A chain is well formed, takes one stack slot where it has an operator and
/// none where it has none, and has its operators at the top.
pub proof fn lemma_chain(t: Tree)
    requires
        is_chain(t),
    ensures
        well_formed(t),
        depth(t) == if t is Binary { 1nat } else { 0nat },
        operators(t) == links(t),
{
    match t {
        Tree::Integer(_) => {},
        Tree::Binary { first, others } => {
            lemma_literals(others);
            assert(depth(*first) == 0);
            assert(operators(*first) == 0);
            assert(well_formed(*first));
            assert forall|i: int| 0 <= i < others.len() implies well_formed(
                #[trigger] others[i].1,
            ) by {
                assert(others[i].1 is Integer);
            }
        },
    }
}

} // verus!
