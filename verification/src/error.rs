//! What an operation reports when it cannot be done.

use crate::text::join;
use vstd::prelude::*;

verus! {

/// Why an operation on the state failed, in words.
#[derive(Debug, Clone)]
pub struct StateError {
    pub message: String,
}

impl View for StateError {
    type V = Seq<char>;

    open spec fn view(&self) -> Seq<char> {
        self.message@
    }
}

impl StateError {
    /// An error with these words.
    pub fn saying(message: &str) -> (r: StateError)
        ensures
            r@ == message@,
    {
        StateError { message: message.to_string() }
    }

    /// An error that says what could not be done, and then why.
    pub fn because(what: &str, why: &str) -> (r: StateError)
        ensures
            r@ == what@ + why@,
    {
        StateError { message: join(what, why) }
    }
}

/// The outcome of an operation, over the views.
pub open spec fn outcome<T: View>(r: Result<T, StateError>) -> Result<T::V, Seq<char>> {
    match r {
        Ok(v) => Ok(v@),
        Err(e) => Err(e@),
    }
}

/// The outcome of an operation that gives a plain value.
pub open spec fn plain_outcome<T>(r: Result<T, StateError>) -> Result<T, Seq<char>> {
    match r {
        Ok(v) => Ok(v),
        Err(e) => Err(e@),
    }
}

} // verus!
