//! Credential-trust core: signing-key lifecycle with grace-period rotation,
//! a bearer-token codec with previous-key fallback, and a dynamic value
//! model convertible to and from a generic attribute-store encoding.

pub mod attr;
pub mod clock;
pub mod decimal;
pub mod error;
pub mod hashing;
pub mod hex;
pub mod json;
pub mod keys;
pub mod number;
pub mod paseto;
pub mod store;
pub mod token;
pub mod user;
pub mod value;
pub mod verification;

use vstd::prelude::*;

verus! {

} // verus!
