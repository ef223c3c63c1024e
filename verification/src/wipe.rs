//! Clearing secrets from memory.

use vstd::prelude::*;
use zeroize::Zeroize;

verus! {

/// Calls `<[u8; 32] as Zeroize>::zeroize`: every byte is zero afterwards. That the write is
/// not optimised away is not stated.
#[verifier::external_body]
pub(crate) fn wipe_array(bytes: &mut [u8; 32])
    ensures
        final(bytes)@ == Seq::new(32, |i: int| 0u8),
    opens_invariants none
    no_unwind
{
    bytes.zeroize();
}

/// Calls `<Vec<u8> as Zeroize>::zeroize`: the bytes are overwritten with zeros and the vector
/// is empty afterwards. Of the memory behind it nothing is stated.
#[verifier::external_body]
pub(crate) fn wipe_vec(bytes: &mut Vec<u8>)
    ensures
        final(bytes)@ == Seq::<u8>::empty(),
    opens_invariants none
    no_unwind
{
    bytes.zeroize();
}

} // verus!
