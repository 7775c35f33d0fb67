use vstd::prelude::*;
use super::err::LexError;
use super::lexem::Lexem;

verus! {

/// What a lexer says of an input: it matched, and the rest follows; it did
/// not match, and another may try; or it failed, and nothing may.
pub enum Res<'a, T> {
    Matched(Lexem<'a, T>),
    NoMatch,
    Error(LexError),
}

impl<'a, T> Res<'a, T> {
    pub fn new_lexem(l: Lexem<'a, T>) -> (r: Self)
        ensures
            r == Res::Matched(l),
    {
        Res::Matched(l)
    }

    pub fn new_empty() -> (r: Self)
        ensures
            r == Res::<'a, T>::NoMatch,
    {
        Res::NoMatch
    }

    pub fn new_err(e: LexError) -> (r: Self)
        ensures
            r == Res::<'a, T>::Error(e),
    {
        Res::Error(e)
    }

    /// Goes on with `f` on what matched; no match and an error stay.
    pub fn and<E, F>(self, f: F) -> (r: Res<'a, E>) where F: FnOnce(Lexem<'a, T>) -> Res<'a, E>
        requires
            self matches Res::Matched(l) ==> f.requires((l,)),
        ensures
            match self {
                Res::Matched(l) => f.ensures((l,), r),
                Res::NoMatch => r == Res::<'a, E>::NoMatch,
                Res::Error(e) => r == Res::<'a, E>::Error(e),
            },
    {
        match self {
            Res::Matched(l) => f(l),
            Res::NoMatch => Res::new_empty(),
            Res::Error(e) => Res::new_err(e),
        }
    }

    /// Tries `f` where nothing matched; a match and an error stay.
    pub fn or<F>(self, f: F) -> (r: Res<'a, T>) where F: FnOnce() -> Res<'a, T>
        requires
            self is NoMatch ==> f.requires(()),
        ensures
            match self {
                Res::Matched(l) => r == Res::Matched(l),
                Res::NoMatch => f.ensures((), r),
                Res::Error(e) => r == Res::<'a, T>::Error(e),
            },
    {
        match self {
            Res::Matched(l) => Res::new_lexem(l),
            Res::NoMatch => f(),
            Res::Error(e) => Res::new_err(e),
        }
    }

    /// The same as nested results: the error outside, the match inside.
    pub fn lexem(self) -> (r: Result<Option<Lexem<'a, T>>, LexError>)
        ensures
            r == match self {
                Res::Matched(l) => Ok::<Option<Lexem<'a, T>>, LexError>(Some(l)),
                Res::NoMatch => Ok::<Option<Lexem<'a, T>>, LexError>(None),
                Res::Error(e) => Err::<Option<Lexem<'a, T>>, LexError>(e),
            },
    {
        match self {
            Res::Matched(l) => Ok(Some(l)),
            Res::NoMatch => Ok(None),
            Res::Error(e) => Result::Err(e),
        }
    }
}

} // verus!
