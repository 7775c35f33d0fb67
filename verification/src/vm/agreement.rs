use vstd::prelude::*;
use crate::ast::model::{apply, chain, deepest, depth, events, steps, value};
use crate::ast::{Emit, Operator, Tree};
use super::compiler::{bytecode, instruction};
use super::inst::{ADD, END, LDI, PSH, SUB};
use super::model::{be_bytes, effect, execution, lemma_be_round_trip, Effect};
use super::{Fault, Machine, Value};

verus! {

/// The bytecode of calls one after the other is their bytecodes one after the
/// other.
pub proof fn lemma_bytecode_concat(a: Seq<Emit>, b: Seq<Emit>)
    ensures
        bytecode(a + b) == bytecode(a) + bytecode(b),
    decreases b.len(),
{
    if b.len() == 0 {
        assert(a + b =~= a);
        assert(bytecode(a) + bytecode(b) =~= bytecode(a));
    } else {
        lemma_bytecode_concat(a, b.drop_last());
        assert((a + b).drop_last() =~= a + b.drop_last());
        assert((a + b).last() == b.last());
        assert(bytecode(a + b) =~= bytecode(a) + bytecode(b));
    }
}

/// The bytecode of one call is its instruction.
pub proof fn lemma_bytecode_one(e: Emit)
    ensures
        bytecode(seq![e]) == instruction(e),
{
    assert(seq![e].drop_last() =~= Seq::<Emit>::empty());
    assert(bytecode(seq![e].drop_last()) =~= Seq::<u8>::empty());
    assert(bytecode(seq![e]) =~= instruction(e));
}

/// `LDI` sets the accumulator, and the run goes on behind its operand.
pub proof fn lemma_load(v: i64, rest: Seq<u8>, m: Machine)
    ensures
        execution(instruction(Emit::Integer(v)) + rest, m) == execution(
            rest,
            Machine { accumulator: Value::Integer(v), ..m },
        ),
{
    let code = instruction(Emit::Integer(v)) + rest;
    lemma_be_round_trip(v);
    assert(code[0] == LDI);
    assert(code.skip(1).take(8) =~= be_bytes(v));
    assert(code.skip(1).skip(8) =~= rest);
}

/// `PSH` puts the accumulator on a stack that has room.
pub proof fn lemma_push(rest: Seq<u8>, m: Machine)
    requires
        m.stack.len() < m.limit,
    ensures
        execution(instruction(Emit::Binary) + rest, m) == execution(
            rest,
            Machine { stack: m.stack.push(m.accumulator), ..m },
        ),
{
    let code = instruction(Emit::Binary) + rest;
    assert(code[0] == PSH);
    assert(code.skip(1) =~= rest);
}

/// `ADD` and `SUB` combine the top of the stack with the accumulator.
pub proof fn lemma_operate(o: Operator, left: i64, right: i64, rest: Seq<u8>, m: Machine)
    requires
        m.stack.len() > 0,
        m.stack.last() == Value::Integer(left),
        m.accumulator == Value::Integer(right),
    ensures
        execution(instruction(Emit::Operator(o)) + rest, m) == execution(
            rest,
            Machine {
                stack: m.stack.drop_last(),
                accumulator: Value::Integer(apply(o, left, right)),
                ..m
            },
        ),
{
    let code = instruction(Emit::Operator(o)) + rest;
    assert(code[0] == if o == Operator::Add { ADD } else { SUB });
    assert(code.skip(1) =~= rest);
}

/// `END` stops the run with the accumulator.
pub proof fn lemma_halt(rest: Seq<u8>, m: Machine)
    ensures
        execution(instruction(Emit::End) + rest, m) == (
            Ok::<Value, Fault>(m.accumulator),
            m,
        ),
{
    let code = instruction(Emit::End) + rest;
    assert(code[0] == END);
}

/// The instructions of a tree leave its value in the accumulator and the
/// stack as it was, where the stack has room for `depth` values more; the
/// run goes on with what follows them.
pub proof fn lemma_events(t: Tree, rest: Seq<u8>, m: Machine)
    requires
        m.stack.len() + depth(t) <= m.limit,
    ensures
        execution(bytecode(events(t)) + rest, m) == execution(
            rest,
            Machine { accumulator: Value::Integer(value(t)), ..m },
        ),
    decreases t,
{
    match t {
        Tree::Integer(v) => {
            lemma_bytecode_one(Emit::Integer(v));
            lemma_load(v, rest, m);
        },
        Tree::Binary { first, others } => {
            lemma_bytecode_concat(events(*first), steps(others));
            assert(bytecode(events(t)) + rest =~= bytecode(events(*first)) + (bytecode(
                steps(others),
            ) + rest));
            lemma_events(*first, bytecode(steps(others)) + rest, m);
            lemma_steps(
                others,
                value(*first),
                rest,
                Machine { accumulator: Value::Integer(value(*first)), ..m },
            );
        },
    }
}

/// The bytecode of operators with their right operands ends with that of the
/// last: `PSH`, the operand, and `ADD` or `SUB`.
pub proof fn lemma_steps_bytecode(others: Seq<(Operator, Tree)>, rest: Seq<u8>)
    requires
        others.len() > 0,
    ensures
        bytecode(steps(others)) + rest == bytecode(steps(others.drop_last())) + (instruction(
            Emit::Binary,
        ) + (bytecode(events(others.last().1)) + (instruction(Emit::Operator(others.last().0))
            + rest))),
{
    let init = others.drop_last();
    let (o, e) = others.last();
    let a = steps(init) + seq![Emit::Binary];
    let b = a + events(e);
    assert(steps(others) == b + seq![Emit::Operator(o)]);
    lemma_bytecode_concat(b, seq![Emit::Operator(o)]);
    lemma_bytecode_concat(a, events(e));
    lemma_bytecode_concat(steps(init), seq![Emit::Binary]);
    lemma_bytecode_one(Emit::Binary);
    lemma_bytecode_one(Emit::Operator(o));
    let x = bytecode(steps(init));
    let y = instruction(Emit::Binary);
    let z = bytecode(events(e));
    let w = instruction(Emit::Operator(o));
    assert(bytecode(steps(others)) == ((x + y) + z) + w);
    assert((((x + y) + z) + w) + rest =~= x + (y + (z + (w + rest))));
}

/// The instructions of operators with their right operands, run with the left
/// value in the accumulator, leave the value of the chain there.
pub proof fn lemma_steps(others: Seq<(Operator, Tree)>, left: i64, rest: Seq<u8>, m: Machine)
    requires
        m.accumulator == Value::Integer(left),
        m.stack.len() + deepest(others) <= m.limit,
    ensures
        execution(bytecode(steps(others)) + rest, m) == execution(
            rest,
            Machine { accumulator: Value::Integer(chain(left, others)), ..m },
        ),
    decreases others,
{
    if others.len() == 0 {
        assert(bytecode(steps(others)) + rest =~= rest);
    } else {
        let init = others.drop_last();
        let (o, e) = others.last();
        let mid = chain(left, init);
        let tail3 = instruction(Emit::Operator(o)) + rest;
        let tail2 = bytecode(events(e)) + tail3;
        let tail1 = instruction(Emit::Binary) + tail2;
        lemma_steps_bytecode(others, rest);
        lemma_steps(init, left, tail1, m);
        let m1 = Machine { accumulator: Value::Integer(mid), ..m };
        lemma_push(tail2, m1);
        let m2 = Machine { stack: m.stack.push(Value::Integer(mid)), ..m1 };
        lemma_events(e, tail3, m2);
        let m3 = Machine { accumulator: Value::Integer(value(e)), ..m2 };
        assert(m3.stack.drop_last() =~= m.stack);
        lemma_operate(o, mid, value(e), rest, m3);
    }
}

/// Compiling a tree and running the bytecode gives the value of the tree,
/// for every tree and on every stack that has room for `depth` values
/// more: operators apply from the left, and each result wraps to 64 bits.
/// The run leaves the stack as it found it.
pub proof fn lemma_compile_run(t: Tree, m: Machine)
    requires
        m.stack.len() + depth(t) <= m.limit,
    ensures
        execution(bytecode(events(t).push(Emit::End)), m) == (
            Ok::<Value, Fault>(Value::Integer(value(t))),
            Machine { accumulator: Value::Integer(value(t)), ..m },
        ),
{
    assert(events(t).push(Emit::End) =~= events(t) + seq![Emit::End]);
    lemma_bytecode_concat(events(t), seq![Emit::End]);
    lemma_bytecode_one(Emit::End);
    lemma_events(t, instruction(Emit::End), m);
    let after = Machine { accumulator: Value::Integer(value(t)), ..m };
    lemma_halt(Seq::empty(), after);
    assert(instruction(Emit::End) + Seq::<u8>::empty() =~= instruction(Emit::End));
}

} // verus!
