use vstd::prelude::*;
use crate::ast::model::{
    deepest,
    depth,
    events,
    is_chain,
    lemma_chain,
    links,
    operators,
    operators_of,
    steps,
    value,
};
use crate::ast::{Emit, Operator, Tree};
use super::agreement::{
    lemma_bytecode_concat,
    lemma_bytecode_one,
    lemma_compile_run,
    lemma_load,
    lemma_steps_bytecode,
};
use super::compiler::{bytecode, instruction};
use super::inst::PSH;
use super::model::{effect, execution, Effect};
use super::{Fault, Machine, Value};

verus! {

/// The number of `binary` calls among `calls`: each is one `PSH`.
pub open spec fn pushes(calls: Seq<Emit>) -> nat
    decreases calls.len(),
{
    if calls.len() == 0 {
        0
    } else {
        pushes(calls.drop_last()) + if calls.last() is Binary {
            1nat
        } else {
            0nat
        }
    }
}

/// The number of `operator` calls among `calls`: each is one `ADD` or `SUB`.
pub open spec fn operations(calls: Seq<Emit>) -> nat
    decreases calls.len(),
{
    if calls.len() == 0 {
        0
    } else {
        operations(calls.drop_last()) + if calls.last() is Operator {
            1nat
        } else {
            0nat
        }
    }
}

/// Both counts add up over calls one after the other.
pub proof fn lemma_counts_concat(a: Seq<Emit>, b: Seq<Emit>)
    ensures
        pushes(a + b) == pushes(a) + pushes(b),
        operations(a + b) == operations(a) + operations(b),
    decreases b.len(),
{
    if b.len() == 0 {
        assert(a + b =~= a);
    } else {
        lemma_counts_concat(a, b.drop_last());
        assert((a + b).drop_last() =~= a + b.drop_last());
        assert((a + b).last() == b.last());
    }
}

/// Both counts of one call.
pub proof fn lemma_counts_one(e: Emit)
    ensures
        pushes(seq![e]) == if e is Binary { 1nat } else { 0nat },
        operations(seq![e]) == if e is Operator { 1nat } else { 0nat },
{
    assert(seq![e].drop_last() =~= Seq::<Emit>::empty());
    assert(pushes(seq![e].drop_last()) == 0);
    assert(operations(seq![e].drop_last()) == 0);
}

/// A tree is compiled to one `PSH` and one `ADD` or `SUB` for each of its
/// operators.
pub proof fn lemma_counts(t: Tree)
    ensures
        pushes(events(t)) == operators(t),
        operations(events(t)) == operators(t),
    decreases t,
{
    match t {
        Tree::Integer(v) => {
            lemma_counts_one(Emit::Integer(v));
        },
        Tree::Binary { first, others } => {
            lemma_counts(*first);
            lemma_counts_steps(others);
            lemma_counts_concat(events(*first), steps(others));
        },
    }
}

/// Operators with their right operands are compiled to one `PSH` and one
/// `ADD` or `SUB` for each operator among them.
pub proof fn lemma_counts_steps(others: Seq<(Operator, Tree)>)
    ensures
        pushes(steps(others)) == operators_of(others),
        operations(steps(others)) == operators_of(others),
    decreases others,
{
    if others.len() > 0 {
        let init = others.drop_last();
        let (o, e) = others.last();
        lemma_counts_steps(init);
        lemma_counts(e);
        let a = steps(init) + seq![Emit::Binary];
        let b = a + events(e);
        assert(steps(others) == b + seq![Emit::Operator(o)]);
        lemma_counts_concat(b, seq![Emit::Operator(o)]);
        lemma_counts_concat(a, events(e));
        lemma_counts_concat(steps(init), seq![Emit::Binary]);
        lemma_counts_one(Emit::Binary);
        lemma_counts_one(Emit::Operator(o));
    }
}

/// A chain of N operators is compiled to exactly N `PSH` and N `ADD` or `SUB`
/// instructions, and the closing `END` adds none.
pub proof fn lemma_chain_counts(t: Tree)
    requires
        is_chain(t),
    ensures
        pushes(events(t).push(Emit::End)) == links(t),
        operations(events(t).push(Emit::End)) == links(t),
{
    lemma_chain(t);
    lemma_counts(t);
    assert(events(t).push(Emit::End) =~= events(t) + seq![Emit::End]);
    lemma_counts_concat(events(t), seq![Emit::End]);
    lemma_counts_one(Emit::End);
}

/// A chain runs in one stack slot: whatever its length, the run never has
/// more than one value of its own on the stack, so a stack with room for one
/// lets it finish with the value of the chain.
pub proof fn lemma_chain_one_slot(t: Tree, m: Machine)
    requires
        is_chain(t),
        m.stack.len() + 1 <= m.limit,
    ensures
        execution(bytecode(events(t).push(Emit::End)), m) == (
            Ok::<Value, Fault>(Value::Integer(value(t))),
            Machine { accumulator: Value::Integer(value(t)), ..m },
        ),
{
    lemma_chain(t);
    lemma_compile_run(t, m);
}

/// The bytecode of operators with their right operands starts with `PSH`.
pub proof fn lemma_steps_start(others: Seq<(Operator, Tree)>, rest: Seq<u8>)
    requires
        others.len() > 0,
    ensures
        (bytecode(steps(others)) + rest).len() > 0,
        (bytecode(steps(others)) + rest)[0] == PSH,
    decreases others.len(),
{
    lemma_steps_bytecode(others, rest);
    let init = others.drop_last();
    let after = instruction(Emit::Binary) + (bytecode(events(others.last().1)) + (instruction(
        Emit::Operator(others.last().0),
    ) + rest));
    if init.len() == 0 {
        assert(bytecode(steps(init)) + after =~= after);
    } else {
        lemma_steps_start(init, after);
    }
}

/// With no free stack slot a chain that has an operator cannot run: its
/// first `PSH` overflows.
pub proof fn lemma_chain_no_slot(t: Tree, m: Machine)
    requires
        is_chain(t),
        t is Binary,
        m.stack.len() >= m.limit,
    ensures
        execution(bytecode(events(t).push(Emit::End)), m).0 == Err::<Value, Fault>(
            Fault::StackOverflow,
        ),
{
    let first = *t->first;
    let others = t->others;
    assert(events(t).push(Emit::End) =~= events(first) + (steps(others) + seq![Emit::End]));
    lemma_bytecode_concat(events(first), steps(others) + seq![Emit::End]);
    lemma_bytecode_concat(steps(others), seq![Emit::End]);
    let rest = bytecode(seq![Emit::End]);
    let code = bytecode(steps(others)) + rest;
    lemma_bytecode_one(Emit::Integer(value(first)));
    lemma_load(value(first), code, m);
    lemma_steps_start(others, rest);
    let loaded = Machine { accumulator: Value::Integer(value(first)), ..m };
    assert(effect(code, loaded) == Effect::Fail(Fault::StackOverflow, loaded));
}

} // verus!
