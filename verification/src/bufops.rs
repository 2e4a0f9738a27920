//! Small verified helpers that write byte ranges into buffers.

use vstd::prelude::*;

verus! {

/// `n` zero bytes.
pub open spec fn zeros(n: nat) -> Seq<u8> {
    Seq::new(n, |i: int| 0u8)
}

/// `s` with the bytes from `at` on replaced by `src`.
pub open spec fn splice(s: Seq<u8>, at: int, src: Seq<u8>) -> Seq<u8> {
    s.take(at) + src + s.skip(at + src.len())
}

/// Copy `src` into `out` starting at `at`.
pub fn write_bytes(out: &mut [u8], at: usize, src: &[u8])
    requires
        at + src@.len() <= old(out)@.len(),
    ensures
        final(out)@ == splice(old(out)@, at as int, src@),
{
    let ghost old_out = out@;
    let n = src.len();
    let mut k: usize = 0;
    while k < n
        invariant
            k <= n,
            n == src@.len(),
            at + n <= old_out.len(),
            out@.len() == old_out.len(),
            at + n <= out.len(),
            forall|j: int| 0 <= j < at ==> out@[j] == old_out[j],
            forall|j: int| 0 <= j < k ==> out@[at + j] == src@[j],
            forall|j: int| at + k <= j < out@.len() ==> out@[j] == old_out[j],
        decreases n - k,
    {
        out[at + k] = src[k];
        k = k + 1;
    }
    assert(out@ =~= splice(old_out, at as int, src@));
}

/// Set the bytes of `out` in `from..to` to zero.
pub fn zero_range(out: &mut [u8], from: usize, to: usize)
    requires
        from <= to <= old(out)@.len(),
    ensures
        final(out)@ == splice(old(out)@, from as int, zeros((to - from) as nat)),
{
    let ghost old_out = out@;
    let mut k: usize = from;
    while k < to
        invariant
            from <= k <= to,
            to <= old_out.len(),
            out@.len() == old_out.len(),
            forall|j: int| 0 <= j < from ==> out@[j] == old_out[j],
            forall|j: int| from <= j < k ==> out@[j] == 0u8,
            forall|j: int| k <= j < out@.len() ==> out@[j] == old_out[j],
        decreases to - k,
    {
        out[k] = 0;
        k = k + 1;
    }
    assert(out@ =~= splice(old_out, from as int, zeros((to - from) as nat)));
}

/// The smaller of two lengths.
pub fn min_usize(a: usize, b: usize) -> (r: usize)
    ensures
        r == if a < b {
            a
        } else {
            b
        },
{
    if a < b {
        a
    } else {
        b
    }
}

} // verus!
