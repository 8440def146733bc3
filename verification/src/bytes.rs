//! Big-endian byte strings as unsigned integers.

use vstd::prelude::*;

verus! {

/// Number of zero bytes at the front of `bytes`.
pub open spec fn leading_zeros(bytes: Seq<u8>) -> nat
    decreases bytes.len(),
{
    if bytes.len() == 0 || bytes[0] != 0 {
        0
    } else {
        1 + leading_zeros(bytes.drop_first())
    }
}

/// Length of `bytes` once its leading zero bytes are dropped: the number of
/// bytes that the big-endian integer needs.
pub open spec fn significant_len(bytes: Seq<u8>) -> nat {
    (bytes.len() - leading_zeros(bytes)) as nat
}

/// The unsigned integer that `bytes` spells in big-endian order.
pub open spec fn be_value(bytes: Seq<u8>) -> nat
    decreases bytes.len(),
{
    if bytes.len() == 0 {
        0
    } else {
        be_value(bytes.drop_last()) * 256 + bytes.last() as nat
    }
}

/// Leading zeros counted from the front agree with a scan that stops at the
/// first non-zero byte.
pub proof fn lemma_leading_zeros_scan(bytes: Seq<u8>, k: int)
    requires
        0 <= k <= bytes.len(),
        forall|j: int| 0 <= j < k ==> bytes[j] == 0,
        k == bytes.len() || bytes[k] != 0,
    ensures
        leading_zeros(bytes) == k,
    decreases k,
{
    if k > 0 {
        let rest = bytes.drop_first();
        assert forall|j: int| 0 <= j < k - 1 implies rest[j] == 0 by {
        }
        lemma_leading_zeros_scan(rest, k - 1);
    }
}

/// Counts the bytes of `bytes` behind its leading zeros.
pub fn significant_length(bytes: &Vec<u8>) -> (n: usize)
    ensures
        n == significant_len(bytes@),
{
    let mut k: usize = 0;
    while k < bytes.len() && bytes[k] == 0
        invariant
            k <= bytes.len(),
            forall|j: int| 0 <= j < k ==> bytes@[j] == 0,
        decreases bytes.len() - k,
    {
        k += 1;
    }
    proof {
        lemma_leading_zeros_scan(bytes@, k as int);
    }
    bytes.len() - k
}

} // verus!
