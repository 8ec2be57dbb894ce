//! Little-endian encoding of 32-bit values into byte payloads.

use vstd::prelude::*;

verus! {

/// The four little-endian bytes of a 32-bit value.
pub open spec fn u32_le(x: u32) -> Seq<u8> {
    seq![
        (x & 0xff) as u8,
        ((x >> 8) & 0xff) as u8,
        ((x >> 16) & 0xff) as u8,
        ((x >> 24) & 0xff) as u8,
    ]
}

/// The 32-bit value read from the four little-endian bytes of `s`
/// starting at position `4 * k`.
pub open spec fn le32_at(s: Seq<u8>, k: int) -> u32 {
    (s[4 * k] as u32) | ((s[4 * k + 1] as u32) << 8) | ((s[4 * k + 2] as u32) << 16) | ((s[4 * k
        + 3] as u32) << 24)
}

/// Appends the little-endian bytes of `x` to `out`.
pub fn push_u32_le(out: &mut Vec<u8>, x: u32)
    ensures
        final(out)@ == old(out)@ + u32_le(x),
{
    out.push((x & 0xff) as u8);
    out.push(((x >> 8) & 0xff) as u8);
    out.push(((x >> 16) & 0xff) as u8);
    out.push(((x >> 24) & 0xff) as u8);
    proof {
        assert(out@ =~= old(out)@ + u32_le(x));
    }
}

/// Reads the 32-bit value stored little-endian at position `4 * k` of `data`.
pub fn read_u32_le(data: &Vec<u8>, k: usize) -> (x: u32)
    requires
        4 * k + 4 <= data@.len(),
    ensures
        x == le32_at(data@, k as int),
{
    let n = data.len();
    assert(4 * k + 4 <= n);
    let b0 = data[4 * k];
    let b1 = data[4 * k + 1];
    let b2 = data[4 * k + 2];
    let b3 = data[4 * k + 3];
    (b0 as u32) | ((b1 as u32) << 8) | ((b2 as u32) << 16) | ((b3 as u32) << 24)
}

/// A fresh copy of one byte vector.
pub fn copy_bytes(v: &Vec<u8>) -> (r: Vec<u8>)
    ensures
        r@ == v@,
{
    let mut out: Vec<u8> = Vec::new();
    out.extend_from_slice(v.as_slice());
    proof {
        assert(out@ =~= v@);
    }
    out
}

} // verus!
