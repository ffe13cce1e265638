//! Little-endian byte streams.
//!
//! Serialization builds a `Vec<u8>` by appending fixed-width
//! little-endian integers and raw byte runs; each helper's contract says
//! exactly which bytes it appends, in terms of the `vstd::bytes`
//! little-endian specification functions.

use vstd::bytes::*;
use vstd::prelude::*;

verus! {

/// A sequence of `n` zero bytes.
pub open spec fn zero_bytes(n: nat) -> Seq<u8> {
    Seq::new(n, |i: int| 0u8)
}

pub fn push_u16_le(out: &mut Vec<u8>, x: u16)
    ensures
        final(out)@ == old(out)@ + spec_u16_to_le_bytes(x),
{
    let mut b = u16_to_le_bytes(x);
    out.append(&mut b);
}

pub fn push_u32_le(out: &mut Vec<u8>, x: u32)
    ensures
        final(out)@ == old(out)@ + spec_u32_to_le_bytes(x),
{
    let mut b = u32_to_le_bytes(x);
    out.append(&mut b);
}

pub fn push_u64_le(out: &mut Vec<u8>, x: u64)
    ensures
        final(out)@ == old(out)@ + spec_u64_to_le_bytes(x),
{
    let mut b = u64_to_le_bytes(x);
    out.append(&mut b);
}

pub fn push_slice(out: &mut Vec<u8>, s: &[u8])
    ensures
        final(out)@ == old(out)@ + s@,
{
    out.extend_from_slice(s);
}

pub fn push_zeros(out: &mut Vec<u8>, n: usize)
    ensures
        final(out)@ == old(out)@ + zero_bytes(n as nat),
{
    let mut i: usize = 0;
    while i < n
        invariant
            i <= n,
            out@ == old(out)@ + zero_bytes(i as nat),
        decreases n - i,
    {
        out.push(0u8);
        proof {
            assert(out@ =~= old(out)@ + zero_bytes((i + 1) as nat));
        }
        i = i + 1;
    }
}

} // verus!
