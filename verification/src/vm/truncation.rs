use vstd::prelude::*;
use crate::ast::model::{chain, deepest, depth, events, steps, value};
use crate::ast::{Emit, Operator, Tree};
use super::agreement::{
    lemma_bytecode_concat,
    lemma_bytecode_one,
    lemma_events,
    lemma_push,
    lemma_steps,
    lemma_steps_bytecode,
};
use super::compiler::{bytecode, instruction};
use super::inst::LDI;
use super::model::{be_bytes, effect, execution, Effect};
use super::{Fault, Machine, Value};

verus! {

/// A run of no bytes fails for want of an instruction.
pub proof fn lemma_cut_empty(m: Machine)
    ensures
        execution(Seq::<u8>::empty(), m).0 == Err::<Value, Fault>(Fault::IOError),
{
}

/// A cut `LDI` fails for want of its operand, or of itself.
pub proof fn lemma_cut_load(v: i64, k: nat, m: Machine)
    requires
        k < instruction(Emit::Integer(v)).len(),
    ensures
        execution(instruction(Emit::Integer(v)).take(k as int), m).0 == Err::<Value, Fault>(
            Fault::IOError,
        ),
{
    let cut = instruction(Emit::Integer(v)).take(k as int);
    if k > 0 {
        assert(cut[0] == LDI);
        assert(cut.skip(1).len() < 8);
    }
}

/// The bytecode of a tree, cut short, fails with `IOError`.
pub proof fn lemma_cut_events(t: Tree, k: nat, m: Machine)
    requires
        m.stack.len() + depth(t) <= m.limit,
        k < bytecode(events(t)).len(),
    ensures
        execution(bytecode(events(t)).take(k as int), m).0 == Err::<Value, Fault>(Fault::IOError),
    decreases t,
{
    match t {
        Tree::Integer(v) => {
            lemma_bytecode_one(Emit::Integer(v));
            lemma_cut_load(v, k, m);
        },
        Tree::Binary { first, others } => {
            let a = bytecode(events(*first));
            let b = bytecode(steps(others));
            lemma_bytecode_concat(events(*first), steps(others));
            if k < a.len() {
                assert((a + b).take(k as int) =~= a.take(k as int));
                lemma_cut_events(*first, k, m);
            } else {
                let j = (k - a.len()) as nat;
                assert((a + b).take(k as int) =~= a + b.take(j as int));
                lemma_events(*first, b.take(j as int), m);
                lemma_cut_steps(
                    others,
                    value(*first),
                    j,
                    Machine { accumulator: Value::Integer(value(*first)), ..m },
                );
            }
        },
    }
}

/// The bytecode of operators with their right operands, cut short, fails
/// with `IOError`.
pub proof fn lemma_cut_steps(others: Seq<(Operator, Tree)>, left: i64, k: nat, m: Machine)
    requires
        m.accumulator == Value::Integer(left),
        m.stack.len() + deepest(others) <= m.limit,
        k < bytecode(steps(others)).len(),
    ensures
        execution(bytecode(steps(others)).take(k as int), m).0 == Err::<Value, Fault>(
            Fault::IOError,
        ),
    decreases others,
{
    if others.len() == 0 {
        assert(bytecode(steps(others)).len() == 0);
    } else {
        let init = others.drop_last();
        let (o, e) = others.last();
        let x = bytecode(steps(init));
        let y = instruction(Emit::Binary);
        let z = bytecode(events(e));
        let w = instruction(Emit::Operator(o));
        lemma_steps_bytecode(others, Seq::empty());
        let code = bytecode(steps(others));
        assert(code =~= code + Seq::<u8>::empty());
        assert(w + Seq::<u8>::empty() =~= w);
        assert(code == x + (y + (z + w)));
        if k < x.len() {
            assert(code.take(k as int) =~= x.take(k as int));
            lemma_cut_steps(init, left, k, m);
        } else {
            let j = (k - x.len()) as nat;
            let t1 = (y + (z + w)).take(j as int);
            assert(code.take(k as int) =~= x + t1);
            lemma_steps(init, left, t1, m);
            let m1 = Machine { accumulator: Value::Integer(chain(left, init)), ..m };
            if j == 0 {
                assert(t1 =~= Seq::<u8>::empty());
                lemma_cut_empty(m1);
            } else {
                let i = (j - 1) as nat;
                let t2 = (z + w).take(i as int);
                assert(t1 =~= y + t2);
                lemma_push(t2, m1);
                let m2 = Machine { stack: m1.stack.push(m1.accumulator), ..m1 };
                if i < z.len() {
                    assert(t2 =~= z.take(i as int));
                    lemma_cut_events(e, i, m2);
                } else {
                    assert(t2 =~= z + Seq::<u8>::empty());
                    lemma_events(e, Seq::empty(), m2);
                    lemma_cut_empty(Machine { accumulator: Value::Integer(value(e)), ..m2 });
                }
            }
        }
    }
}

/// Bytecode that was cut short fails with `IOError`: for every tree, the
/// run of any proper prefix of its bytecode, whether it ends within an
/// instruction or only lacks the closing `END`, gives this error and no
/// value.
pub proof fn lemma_truncated(t: Tree, k: nat, m: Machine)
    requires
        m.stack.len() + depth(t) <= m.limit,
        k < bytecode(events(t).push(Emit::End)).len(),
    ensures
        execution(bytecode(events(t).push(Emit::End)).take(k as int), m).0 == Err::<Value, Fault>(
            Fault::IOError,
        ),
{
    let a = bytecode(events(t));
    let b = instruction(Emit::End);
    assert(events(t).push(Emit::End) =~= events(t) + seq![Emit::End]);
    lemma_bytecode_concat(events(t), seq![Emit::End]);
    lemma_bytecode_one(Emit::End);
    if k < a.len() {
        assert((a + b).take(k as int) =~= a.take(k as int));
        lemma_cut_events(t, k, m);
    } else {
        assert((a + b).take(k as int) =~= a + Seq::<u8>::empty());
        lemma_events(t, Seq::empty(), m);
        lemma_cut_empty(Machine { accumulator: Value::Integer(value(t)), ..m });
    }
}

} // verus!
