use vstd::prelude::*;
use super::model::operate;
use super::text::{refusal_text, MINUS, PLUS};
use super::{outcome, Error, Fault, Machine, Pop, Push, Res, Value};

verus! {

/// The machine's state: a stack and the accumulator.
pub struct State<S> {
    pub stack: S,
    pub accumulator: Value,
}

impl<S: Push + Pop> View for State<S> {
    type V = Machine;

    open spec fn view(&self) -> Machine {
        Machine {
            stack: self.stack.items(),
            limit: self.stack.capacity(),
            accumulator: self.accumulator,
        }
    }
}

impl<S: Push + Pop> State<S> {
    /// The stack is in order.
    pub open spec fn wf(&self) -> bool {
        self.stack.wf()
    }

    /// A state on `stack`, with nothing in the accumulator.
    pub fn new(stack: S) -> (state: Self)
        ensures
            state.stack == stack,
            state.accumulator == Value::Void,
    {
        Self { stack, accumulator: Value::Void }
    }

    /// Sets the accumulator to `v`.
    pub fn load(&mut self, v: Value) -> (r: Res<()>)
        ensures
            r is Ok,
            final(self).stack == old(self).stack,
            final(self).accumulator == v,
    {
        self.accumulator = v;
        Ok(())
    }

    /// Sets the accumulator to the integer `i`.
    pub fn integer(&mut self, i: i64) -> (r: Res<()>)
        ensures
            r is Ok,
            final(self).stack == old(self).stack,
            final(self).accumulator == Value::Integer(i),
    {
        self.load(Value::Integer(i))
    }

    /// Pushes the accumulator, or fails with `StackOverflow`.
    pub fn push(&mut self) -> (r: Res<()>)
        requires
            old(self).wf(),
        ensures
            final(self).wf(),
            old(self)@.stack.len() < old(self)@.limit ==> r is Ok && final(self)@ == (Machine {
                stack: old(self)@.stack.push(old(self)@.accumulator),
                ..old(self)@
            }),
            old(self)@.stack.len() >= old(self)@.limit ==> outcome(r) == Err::<(), Fault>(
                Fault::StackOverflow,
            ) && final(self)@ == old(self)@,
    {
        self.stack.push(self.accumulator)
    }

    /// Pops the top of the stack into the accumulator, or fails with
    /// `StackUnderflow`.
    pub fn pop(&mut self) -> (r: Res<()>)
        requires
            old(self).wf(),
        ensures
            final(self).wf(),
            old(self)@.stack.len() > 0 ==> r is Ok && final(self)@ == (Machine {
                stack: old(self)@.stack.drop_last(),
                accumulator: old(self)@.stack.last(),
                ..old(self)@
            }),
            old(self)@.stack.len() == 0 ==> outcome(r) == Err::<(), Fault>(
                Fault::StackUnderflow,
            ) && final(self)@ == old(self)@,
    {
        match self.stack.pop() {
            Ok(v) => {
                self.accumulator = v;
                Ok(())
            },
            Err(e) => Err(e),
        }
    }

    /// Pops the left operand and adds the accumulator to it, wrapping; the sum
    /// becomes the accumulator. Fails with `StackUnderflow` on an empty stack,
    /// and with a message where either operand is no integer.
    pub fn addict(&mut self) -> (r: Res<()>)
        requires
            old(self).wf(),
        ensures
            final(self).wf(),
            match operate(PLUS, old(self)@) {
                Ok(next) => r is Ok && final(self)@ == next,
                Err((fault, left)) => outcome(r) == Err::<(), Fault>(fault) && final(self)@ == left,
            },
    {
        let l = match self.stack.pop() {
            Ok(l) => l,
            Err(e) => {
                return Err(e);
            },
        };
        self.accumulator =
        match (l, self.accumulator) {
            (Value::Integer(l), Value::Integer(r)) => Value::Integer(l.wrapping_add(r)),
            _ => {
                return Err(Error::Custom(refusal_text(PLUS, l, self.accumulator)));
            },
        };
        Ok(())
    }

    /// Pops the left operand and subtracts the accumulator from it, wrapping;
    /// the difference becomes the accumulator. Fails as `addict` does.
    pub fn subtract(&mut self) -> (r: Res<()>)
        requires
            old(self).wf(),
        ensures
            final(self).wf(),
            match operate(MINUS, old(self)@) {
                Ok(next) => r is Ok && final(self)@ == next,
                Err((fault, left)) => outcome(r) == Err::<(), Fault>(fault) && final(self)@ == left,
            },
    {
        let l = match self.stack.pop() {
            Ok(l) => l,
            Err(e) => {
                return Err(e);
            },
        };
        self.accumulator =
        match (l, self.accumulator) {
            (Value::Integer(l), Value::Integer(r)) => Value::Integer(l.wrapping_sub(r)),
            _ => {
                return Err(Error::Custom(refusal_text(MINUS, l, self.accumulator)));
            },
        };
        Ok(())
    }
}

} // verus!
