//! Runs of bytes, and where two of them part.

use vstd::prelude::*;

verus! {

/// The first `n` bytes of `s`.
pub open spec fn head(s: Seq<u8>, n: usize) -> Seq<u8> {
    s.take(n as int)
}

/// What follows the first `n` bytes of `s`.
pub open spec fn tail(s: Seq<u8>, n: usize) -> Seq<u8> {
    s.skip(n as int)
}

/// A run of bytes is its head and its tail; the tail starts with the byte at
/// the index where the head ends.
pub proof fn lemma_head_tail(s: Seq<u8>, n: usize)
    requires
        n <= s.len(),
    ensures
        s == head(s, n) + tail(s, n),
        tail(s, n).len() == s.len() - n,
        n < s.len() ==> tail(s, n)[0] == s[n as int],
{
    assert(s =~= head(s, n) + tail(s, n));
}

/// The number of bytes that `a` and `b` share at their start: they agree
/// before that index, and at it they differ or one of them ends.
pub fn common_prefix_len(a: &[u8], b: &[u8]) -> (n: usize)
    ensures
        n <= a@.len(),
        n <= b@.len(),
        head(a@, n) == head(b@, n),
        n < a@.len() && n < b@.len() ==> a@[n as int] != b@[n as int],
{
    let mut n: usize = 0;
    while n < a.len() && n < b.len() && a[n] == b[n]
        invariant
            n <= a@.len(),
            n <= b@.len(),
            head(a@, n) =~= head(b@, n),
        decreases a@.len() - n,
    {
        n = n + 1;
    }
    n
}

} // verus!
