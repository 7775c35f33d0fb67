use vstd::prelude::*;
use vstd::string::StrSliceExecFns;
use super::lexem::Lexem;
use super::pos::Pos;
use super::res::Res;

verus! {

/// A place in a text. It is a value: to read on is to make another, and the
/// one before stays good for a second try.
#[derive(Clone, Copy)]
pub struct Input<'a> {
    pub text: &'a str,
    /// The number of characters before this place.
    pub at: usize,
    /// The number of characters of the text.
    pub len: usize,
}

impl<'a> Input<'a> {
    /// The place is within the text.
    pub open spec fn wf(&self) -> bool {
        self.len == self.text@.len() && self.at <= self.len
    }

    /// The characters from this place on.
    pub open spec fn rest(&self) -> Seq<char> {
        self.text@.skip(self.at as int)
    }

    /// The start of `text`.
    pub fn new(text: &'a str) -> (input: Self)
        ensures
            input.wf(),
            input.text == text,
            input.at == 0,
    {
        Self { text, at: 0, len: text.unicode_len() }
    }

    /// The character at this place, with the place after it and the range of
    /// the one position; nothing at the end of the text.
    pub fn next(self) -> (r: Res<'a, char>)
        requires
            self.wf(),
        ensures
            self.at < self.text@.len() ==> r == Res::Matched(
                Lexem {
                    t: self.text@[self.at as int],
                    i: Input { text: self.text, at: (self.at + 1) as usize, len: self.len },
                    p: Pos(self.at..(self.at + 1) as usize),
                },
            ),
            self.at >= self.text@.len() ==> r == Res::<'a, char>::NoMatch,
    {
        if self.at < self.len {
            let c = self.text.get_char(self.at);
            let p = self.at;
            Res::new_lexem(
                Lexem::new(c, Self { text: self.text, at: p + 1, len: self.len }, Pos::new_one(p)),
            )
        } else {
            Res::new_empty()
        }
    }
}

} // verus!
