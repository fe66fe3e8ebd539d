//! Counts that are kept in 32 bits.

use vstd::prelude::*;

verus! {

/// A count as 32 bits hold it: the count itself where it fits, and its
/// remainder by 2^32 where it does not.
pub open spec fn wrapped(n: nat) -> u32 {
    (n % 0x1_0000_0000) as u32
}

/// Puts a count in 32 bits.
pub fn wrap(n: usize) -> (w: u32)
    ensures
        w == wrapped(n as nat),
        n <= u32::MAX ==> w == n,
{
    ((n as u64) % 0x1_0000_0000) as u32
}

} // verus!
