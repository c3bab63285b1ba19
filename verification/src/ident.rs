//! Where transaction identifiers come from.

use vstd::prelude::*;

verus! {

/// `rand::random::<u16>()`: a 16-bit value drawn from the thread's random
/// number generator. Nothing is claimed of the value.
#[verifier::external_body]
pub(crate) fn random_id() -> (id: u16) {
    rand::random::<u16>()
}

} // verus!
