//! Small helpers shared across the library.
use vstd::prelude::*;

verus! {

/// An error that carries a message.
#[derive(Clone, Debug)]
pub struct CustomError(pub String);

impl CustomError {
    /// An error with message `msg`.
    pub fn new(msg: String) -> (r: CustomError)
        ensures
            r.0@ == msg@,
    {
        CustomError(msg)
    }

    /// The message.
    pub fn to_string(&self) -> (r: String)
        ensures
            r@ == self.0@,
    {
        self.0.clone()
    }
}

} // verus!
