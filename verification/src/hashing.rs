//! The wire protocol of the external password-hashing worker: the request
//! it accepts, and the answer shape it sends back.  Hashing itself is a
//! delegated collaborator; nothing of it is computed here.

use vstd::prelude::*;

verus! {

/// A request to the hashing worker: hash a password, or verify one
/// against a stored hash.
#[derive(Clone, Debug)]
pub enum Request {
    Hash(String),
    Verify(String, String),
}

/// The worker's answer: a payload, or its error text.
#[derive(Clone, Debug)]
pub enum HashResponse<T, E> {
    Success(T),
    Failure(E),
}

impl<T, E> HashResponse<T, E> {
    /// The answer as an ordinary result.
    pub fn into_result(self) -> (r: Result<T, E>)
        ensures
            self matches HashResponse::Success(t) ==> r == Ok::<T, E>(t),
            self matches HashResponse::Failure(e) ==> r == Err::<T, E>(e),
    {
        match self {
            HashResponse::Success(value) => Ok(value),
            HashResponse::Failure(err) => Err(err),
        }
    }
}

} // verus!
