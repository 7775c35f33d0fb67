use vstd::prelude::*;
use std::ops::Range;

verus! {

/// Why parsing stopped: a message, and the byte range of the token that it
/// stopped at.
#[derive(Debug)]
pub struct Error {
    pub msg: String,
    pub pos: Range<usize>,
}

/// A parser's error with the text of its message as a sequence of characters.
pub struct Failure {
    pub msg: Seq<char>,
    pub pos: Range<usize>,
}

impl View for Error {
    type V = Failure;

    open spec fn view(&self) -> Failure {
        Failure { msg: self.msg@, pos: self.pos }
    }
}

} // verus!
