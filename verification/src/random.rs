//! Randomness, read where the original reads it. Nothing is promised of the
//! values: what uses them is stated for every value.

use vstd::prelude::*;

verus! {

/// A random 32-bit number (`rand::random`). Nothing is stated of its value.
#[verifier::external_body]
pub(crate) fn random_u32() -> (r: u32) {
    rand::random::<u32>()
}

/// A fresh random UUID in its hyphenated text form (`uuid::Uuid::new_v4`).
/// Nothing is stated of it: it is random.
#[verifier::external_body]
pub(crate) fn new_uuid() -> (r: String) {
    uuid::Uuid::new_v4().to_string()
}

} // verus!
