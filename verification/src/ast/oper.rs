use vstd::prelude::*;

verus! {

/// The operators of the language.
#[derive(Clone, Copy, Debug, PartialEq, Eq, Structural)]
pub enum Operator {
    Add,
    Subtract,
}

} // verus!
