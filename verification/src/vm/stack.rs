use vstd::prelude::*;
use super::{outcome, Error, Fault, Res, Value};

verus! {

/// Indexable storage of a fixed number of values.
pub trait Slots {
    /// The values in the storage, by index.
    spec fn slots(&self) -> Seq<Value>;
}

pub trait Fetch: Slots {
    /// The value at `index`.
    fn get(&self, index: usize) -> (v: Value)
        requires
            index < self.slots().len(),
        ensures
            v == self.slots()[index as int],
    ;
}

pub trait Store: Slots {
    /// Puts `value` at `index`.
    fn set(&mut self, index: usize, value: Value)
        requires
            index < old(self).slots().len(),
        ensures
            final(self).slots() == old(self).slots().update(index as int, value),
    ;
}

pub trait Extent: Slots {
    /// The number of values that the storage holds.
    fn len(&self) -> (n: usize)
        ensures
            n == self.slots().len(),
    ;
}

/// Storage of exactly `COUNT` values.
pub struct Fixed<const COUNT: usize>(pub [Value; COUNT]);

impl<const COUNT: usize> Fixed<COUNT> {
    /// Storage in which every value is `Void`.
    pub fn new() -> (fixed: Self)
        ensures
            fixed.slots() == Seq::new(COUNT as nat, |i: int| Value::Void),
    {
        let fixed = Self([Value::Void;COUNT]);
        assert(fixed.slots() =~= Seq::new(COUNT as nat, |i: int| Value::Void));
        fixed
    }
}

impl<const COUNT: usize> Slots for Fixed<COUNT> {
    open spec fn slots(&self) -> Seq<Value> {
        self.0@
    }
}

impl<const COUNT: usize> Fetch for Fixed<COUNT> {
    fn get(&self, index: usize) -> (v: Value) {
        self.0[index]
    }
}

impl<const COUNT: usize> Store for Fixed<COUNT> {
    fn set(&mut self, index: usize, value: Value) {
        self.0[index] = value;
    }
}

impl<const COUNT: usize> Extent for Fixed<COUNT> {
    fn len(&self) -> (n: usize) {
        COUNT
    }
}

/// What a stack holds, whatever stores it.
pub trait Bounded {
    /// The values on the stack, the bottom first.
    spec fn items(&self) -> Seq<Value>;

    /// The number of values that the stack has room for.
    spec fn capacity(&self) -> nat;

    /// The stack is in order.
    spec fn wf(&self) -> bool;
}

pub trait Push: Bounded {
    /// Puts `v` on top, or fails with `StackOverflow` where the stack is full.
    fn push(&mut self, v: Value) -> (r: Res<()>)
        requires
            old(self).wf(),
        ensures
            final(self).wf(),
            final(self).capacity() == old(self).capacity(),
            old(self).items().len() < old(self).capacity() ==> r is Ok && final(self).items()
                == old(self).items().push(v),
            old(self).items().len() >= old(self).capacity() ==> outcome(r) == Err::<(), Fault>(
                Fault::StackOverflow,
            ) && final(self).items() == old(self).items(),
    ;
}

pub trait Pop: Bounded {
    /// Takes the top value off, or fails with `StackUnderflow` where the stack is empty.
    fn pop(&mut self) -> (r: Res<Value>)
        requires
            old(self).wf(),
        ensures
            final(self).wf(),
            final(self).capacity() == old(self).capacity(),
            old(self).items().len() > 0 ==> r == Ok::<Value, Error>(old(self).items().last())
                && final(self).items() == old(self).items().drop_last(),
            old(self).items().len() == 0 ==> outcome(r) == Err::<Value, Fault>(
                Fault::StackUnderflow,
            ) && final(self).items() == old(self).items(),
    ;
}

/// A stack in storage `D`: the first `current` slots are in use.
pub struct Stack<D> {
    pub data: D,
    pub current: usize,
}

impl<D> Stack<D> {
    /// An empty stack in the storage `data`.
    pub fn new(data: D) -> (stack: Self)
        ensures
            stack.data == data,
            stack.current == 0,
    {
        Self { data, current: 0 }
    }
}

impl<D: Slots> Bounded for Stack<D> {
    open spec fn items(&self) -> Seq<Value> {
        self.data.slots().take(self.current as int)
    }

    open spec fn capacity(&self) -> nat {
        self.data.slots().len()
    }

    open spec fn wf(&self) -> bool {
        self.current <= self.data.slots().len()
    }
}

impl<D: Store + Extent> Push for Stack<D> {
    fn push(&mut self, v: Value) -> (r: Res<()>) {
        if self.current < self.data.len() {
            self.current += 1;
            self.data.set(self.current - 1, v);
            assert(self.items() =~= old(self).items().push(v));
            Ok(())
        } else {
            Err(Error::StackOverflow)
        }
    }
}

impl<D: Fetch> Pop for Stack<D> {
    fn pop(&mut self) -> (r: Res<Value>) {
        if self.current != 0 {
            self.current -= 1;
            assert(self.items() =~= old(self).items().drop_last());
            Ok(self.data.get(self.current))
        } else {
            Err(Error::StackUnderflow)
        }
    }
}

} // verus!
