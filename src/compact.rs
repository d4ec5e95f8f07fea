use vstd::prelude::*;

verus! {

/// Number of bytes that the compact-length encoding of the count `n` occupies:
/// seven bits of the value in each byte, the high bit marking a continuation.
pub open spec fn compact_len_width(n: nat) -> nat {
    if n < 0x80 {
        1
    } else if n < 0x4000 {
        2
    } else {
        3
    }
}

/// Width in bytes of the compact-length prefix that encodes the count `n`.
pub fn compact_len_size(n: usize) -> (r: usize)
    ensures
        r as nat == compact_len_width(n as nat),
        1 <= r <= 3,
{
    if n < 0x80 {
        1
    } else if n < 0x4000 {
        2
    } else {
        3
    }
}

} // verus!
