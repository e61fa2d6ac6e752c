//! Big-endian encoding of the 32-bit integers that make up a frame header.

use vstd::prelude::*;

verus! {

/// The 32-bit integer that four bytes spell in network (big-endian) order.
#[verifier::opaque]
pub open spec fn be_u32(b: Seq<u8>) -> u32
    recommends
        b.len() == 4,
{
    (b[0] as int * 0x100_0000 + b[1] as int * 0x1_0000 + b[2] as int * 0x100 + b[3] as int) as u32
}

/// The four bytes of `x`, most significant first.
#[verifier::opaque]
pub open spec fn u32_be_bytes(x: u32) -> Seq<u8> {
    seq![
        (x / 0x100_0000) as u8,
        ((x / 0x1_0000) % 0x100) as u8,
        ((x / 0x100) % 0x100) as u8,
        (x % 0x100) as u8,
    ]
}

/// Decoding undoes encoding.
pub proof fn lemma_be_u32_of_bytes(x: u32)
    ensures
        u32_be_bytes(x).len() == 4,
        be_u32(u32_be_bytes(x)) == x,
{
    reveal(be_u32);
    reveal(u32_be_bytes);
}

/// Reads the big-endian integer stored at `data[at..at + 4]`.
pub fn read_be_u32(data: &[u8], at: usize) -> (x: u32)
    requires
        at + 4 <= data@.len(),
    ensures
        x == be_u32(data@.subrange(at as int, at + 4)),
{
    proof {
        reveal(be_u32);
    }
    let b0: u32 = data[at] as u32;
    let b1: u32 = data[at + 1] as u32;
    let b2: u32 = data[at + 2] as u32;
    let b3: u32 = data[at + 3] as u32;
    b0 * 0x100_0000 + b1 * 0x1_0000 + b2 * 0x100 + b3
}

/// Appends the big-endian encoding of `x` to `out`.
pub fn push_be_u32(out: &mut Vec<u8>, x: u32)
    ensures
        final(out)@ == old(out)@ + u32_be_bytes(x),
{
    proof {
        reveal(u32_be_bytes);
    }
    out.push((x / 0x100_0000) as u8);
    out.push(((x / 0x1_0000) % 0x100) as u8);
    out.push(((x / 0x100) % 0x100) as u8);
    out.push((x % 0x100) as u8);
    assert(out@ =~= old(out)@ + u32_be_bytes(x));
}

} // verus!
