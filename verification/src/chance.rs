//! The random numbers of the picks.

use vstd::prelude::*;

verus! {

/// Calls `rand::random::<usize>()`, a number from the thread-local
/// generator. Nothing is claimed of it: any `usize` may come back.
#[verifier::external_body]
pub(crate) fn random_index() -> usize {
    rand::random::<usize>()
}

/// Calls `rand::random::<[u8; 16]>()`, sixteen bytes from the thread-local
/// generator. Nothing is claimed of them.
#[verifier::external_body]
pub(crate) fn random_key_bytes() -> [u8; 16] {
    rand::random::<[u8; 16]>()
}

} // verus!
