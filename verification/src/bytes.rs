//! Little-endian integers in a byte sequence.

use vstd::prelude::*;

verus! {

/// The 16-bit number that the two bytes at `at` spell, low byte first.
pub open spec fn le_u16(bytes: Seq<u8>, at: int) -> u16 {
    (bytes[at] as int + 256 * (bytes[at + 1] as int)) as u16
}

/// The 32-bit number that the four bytes at `at` spell, low byte first.
pub open spec fn le_u32(bytes: Seq<u8>, at: int) -> u32 {
    (bytes[at] as int + 256 * (bytes[at + 1] as int) + 65536 * (bytes[at + 2] as int) + 16777216
        * (bytes[at + 3] as int)) as u32
}

/// Reads the 16-bit number at `at`.
pub fn read_u16(bytes: &[u8], at: usize) -> (r: u16)
    requires
        at + 2 <= bytes@.len(),
    ensures
        r == le_u16(bytes@, at as int),
{
    let low: u16 = bytes[at] as u16;
    let high: u16 = bytes[at + 1] as u16;
    low + 256 * high
}

/// Reads the 32-bit number at `at`.
pub fn read_u32(bytes: &[u8], at: usize) -> (r: u32)
    requires
        at + 4 <= bytes@.len(),
    ensures
        r == le_u32(bytes@, at as int),
{
    let b0: u32 = bytes[at] as u32;
    let b1: u32 = bytes[at + 1] as u32;
    let b2: u32 = bytes[at + 2] as u32;
    let b3: u32 = bytes[at + 3] as u32;
    b0 + 256 * b1 + 65536 * b2 + 16777216 * b3
}

/// Copies `N` bytes of `bytes` from the place `at` on into `out`, which
/// the caller hands in filled with anything.
pub fn bytes_at<const N: usize>(bytes: &[u8], at: usize, out: [u8; N]) -> (r: [u8; N])
    requires
        at + N <= bytes@.len(),
    ensures
        r@ == bytes@.subrange(at as int, at + N),
{
    let len: usize = bytes.len();
    let mut out: [u8; N] = out;
    let mut k: usize = 0;
    while k < N
        invariant
            k <= N,
            len == bytes@.len(),
            at + N <= bytes@.len(),
            forall|j: int| 0 <= j < k ==> out@[j] == bytes@[at + j],
        decreases N - k,
    {
        out[k] = bytes[at + k];
        k += 1;
    }
    assert(out@ =~= bytes@.subrange(at as int, at + N));
    out
}

} // verus!
