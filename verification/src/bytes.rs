//! Comparison, copy and erasure of byte strings.

use vstd::prelude::*;
use zeroize::Zeroize;

verus! {

/// Compares two byte strings.
pub fn bytes_eq(a: &[u8], b: &[u8]) -> (r: bool)
    ensures
        r == (a@ == b@),
{
    if a.len() != b.len() {
        return false;
    }
    let mut i: usize = 0;
    while i < a.len()
        invariant
            i <= a@.len(),
            a@.len() == b@.len(),
            forall|j: int| 0 <= j < i ==> a@[j] == b@[j],
        decreases a@.len() - i,
    {
        if a[i] != b[i] {
            return false;
        }
        i += 1;
    }
    assert(a@ =~= b@);
    true
}

/// `constant_time_eq::constant_time_eq`: whether the two byte strings are
/// equal. For two strings of one length the time taken does not depend on
/// their content; the contract speaks of the result only.
#[verifier::external_body]
pub(crate) fn constant_time_eq(a: &[u8], b: &[u8]) -> (r: bool)
    ensures
        r == (a@ == b@),
{
    constant_time_eq::constant_time_eq(a, b)
}

/// `zeroize::Zeroize::zeroize` on a `Vec<u8>`: overwrites the buffer with zeros
/// and empties it.
#[verifier::external_body]
pub(crate) fn wipe_bytes(buffer: &mut Vec<u8>)
    ensures
        final(buffer)@ == Seq::<u8>::empty(),
{
    buffer.zeroize();
}

/// `zeroize::Zeroize::zeroize` on a `String`: overwrites the buffer with zeros
/// and empties it.
#[verifier::external_body]
pub(crate) fn wipe_text(buffer: &mut String)
    ensures
        final(buffer)@ == Seq::<char>::empty(),
{
    buffer.zeroize();
}

} // verus!
