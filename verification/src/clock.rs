//! The wall clock, an external collaborator: every time-dependent rule in
//! the library takes the current time as an argument and is verified for
//! every value of it.

use vstd::prelude::*;

verus! {

/// Relies on `chrono::Utc::now`: the current wall-clock time as Unix
/// seconds.  Nothing is assumed of the returned value.
#[verifier::external_body]
pub(crate) fn now_seconds() -> i64 {
    chrono::Utc::now().timestamp()
}

} // verus!
