//! Small verified helpers over byte slices.

use vstd::prelude::*;
use vstd::slice::{slice_subrange, slice_to_vec};

verus! {

/// True when every byte of `a` equals the byte of `b` at the same position.
pub fn bytes_eq(a: &[u8], b: &[u8]) -> (r: bool)
    ensures
        r <==> a@ == b@,
{
    if a.len() != b.len() {
        assert(a@.len() != b@.len());
        return false;
    }
    let n = a.len();
    let mut i: usize = 0;
    while i < n
        invariant
            n == a@.len() == b@.len(),
            i <= n,
            forall|k: int| 0 <= k < i ==> a@[k] == b@[k],
        decreases n - i,
    {
        if a[i] != b[i] {
            return false;
        }
        i += 1;
    }
    proof {
        assert(a@ =~= b@);
    }
    true
}

/// True when `kw` occurs in `s` starting at position `i`.
pub open spec fn spec_match_at(s: Seq<u8>, i: int, kw: Seq<u8>) -> bool {
    0 <= i && i + kw.len() <= s.len() && s.subrange(i, i + kw.len()) == kw
}

/// Decides whether `kw` occurs in `s` at position `i`.
pub fn match_at(s: &[u8], i: usize, kw: &[u8]) -> (r: bool)
    ensures
        r <==> spec_match_at(s@, i as int, kw@),
{
    if s.len() < kw.len() || i > s.len() - kw.len() {
        assert(!(i + kw@.len() <= s@.len()));
        return false;
    }
    let sub = slice_subrange(s, i, i + kw.len());
    bytes_eq(sub, kw)
}

/// Copies `s[i..j]` into a fresh vector.
pub fn copy_range(s: &[u8], i: usize, j: usize) -> (r: Vec<u8>)
    requires
        0 <= i <= j <= s@.len(),
    ensures
        r@ == s@.subrange(i as int, j as int),
{
    slice_to_vec(slice_subrange(s, i, j))
}

/// True when all of `s[i..j]` is zero.
pub open spec fn spec_all_zero(s: Seq<u8>, i: int, j: int) -> bool {
    forall|k: int| i <= k < j ==> s[k] == 0
}

/// Decides whether every byte of `s[i..j]` is zero.
pub fn all_zero(s: &[u8], i: usize, j: usize) -> (r: bool)
    requires
        i <= j <= s@.len(),
    ensures
        r <==> spec_all_zero(s@, i as int, j as int),
{
    let mut k: usize = i;
    while k < j
        invariant
            i <= k <= j <= s@.len(),
            forall|m: int| i <= m < k ==> s@[m] == 0,
        decreases j - k,
    {
        if s[k] != 0 {
            return false;
        }
        k += 1;
    }
    true
}

/// The big-endian value of the four bytes of `s` starting at `i`.
pub open spec fn spec_be_u32(s: Seq<u8>, i: int) -> int {
    s[i] * 0x100_0000 + s[i + 1] * 0x1_0000 + s[i + 2] * 0x100 + s[i + 3]
}

/// Reads a big-endian 32-bit value from `s` at position `i`.
pub fn be_u32_at(s: &[u8], i: usize) -> (r: u32)
    requires
        i + 4 <= s@.len(),
    ensures
        r == spec_be_u32(s@, i as int),
{
    let b0 = s[i] as u32;
    let b1 = s[i + 1] as u32;
    let b2 = s[i + 2] as u32;
    let b3 = s[i + 3] as u32;
    b0 * 0x100_0000 + b1 * 0x1_0000 + b2 * 0x100 + b3
}

} // verus!
