//! The CRC-32 checksum that guards every frame.
//!
//! The checksum is the one of IEEE 802.3 (also used by zlib): the reflected
//! polynomial `0xEDB88320`, a register that starts at all ones, and a final
//! complement. It is defined here bit by bit; the executable code takes it
//! from the `crc32fast` crate.

use vstd::prelude::*;

verus! {

/// One step of the reflected shift register: the register moves right by one
/// bit and is reduced by the polynomial when a one falls out.
pub open spec fn crc32_shift(reg: u32) -> u32 {
    if reg & 1 == 1 {
        (reg >> 1) ^ 0xEDB8_8320
    } else {
        reg >> 1
    }
}

/// The register after it has taken in one byte: the byte is folded into the
/// low eight bits, which are then shifted out.
pub open spec fn crc32_absorb(reg: u32, byte: u8) -> u32 {
    let r0 = reg ^ (byte as u32);
    let r1 = crc32_shift(r0);
    let r2 = crc32_shift(r1);
    let r3 = crc32_shift(r2);
    let r4 = crc32_shift(r3);
    let r5 = crc32_shift(r4);
    let r6 = crc32_shift(r5);
    let r7 = crc32_shift(r6);
    crc32_shift(r7)
}

/// The register after it has taken in all of `data`, starting from all ones.
pub open spec fn crc32_register(data: Seq<u8>) -> u32
    decreases data.len(),
{
    if data.len() == 0 {
        0xFFFF_FFFF
    } else {
        crc32_absorb(crc32_register(data.drop_last()), data.last())
    }
}

/// The CRC-32 checksum of `data`.
pub open spec fn crc32(data: Seq<u8>) -> u32 {
    crc32_register(data) ^ 0xFFFF_FFFF
}

/// Computes the checksum of `data` with `crc32fast::hash`.
///
/// Trusted: `crc32fast` documents itself as an implementation of the IEEE
/// CRC-32. Its portable code path keeps the complemented register and, for
/// each byte, replaces it by `TABLE[(reg ^ byte) & 0xFF] ^ (reg >> 8)`, where
/// `TABLE[i]` is `i` after eight shift steps; that is `crc32_absorb`.
#[verifier::external_body]
pub(crate) fn checksum(data: &[u8]) -> (sum: u32)
    ensures
        sum == crc32(data@),
{
    crc32fast::hash(data)
}

proof fn lemma_shift_injective(a: u32, b: u32)
    requires
        crc32_shift(a) == crc32_shift(b),
    ensures
        a == b,
{
    assert(crc32_shift(a) == crc32_shift(b) ==> a == b) by (bit_vector);
}

proof fn lemma_absorb_injective_in_register(a: u32, b: u32, byte: u8)
    requires
        crc32_absorb(a, byte) == crc32_absorb(b, byte),
    ensures
        a == b,
{
    let x = byte as u32;
    let (a0, b0) = (a ^ x, b ^ x);
    let (a1, b1) = (crc32_shift(a0), crc32_shift(b0));
    let (a2, b2) = (crc32_shift(a1), crc32_shift(b1));
    let (a3, b3) = (crc32_shift(a2), crc32_shift(b2));
    let (a4, b4) = (crc32_shift(a3), crc32_shift(b3));
    let (a5, b5) = (crc32_shift(a4), crc32_shift(b4));
    let (a6, b6) = (crc32_shift(a5), crc32_shift(b5));
    let (a7, b7) = (crc32_shift(a6), crc32_shift(b6));
    lemma_shift_injective(a7, b7);
    lemma_shift_injective(a6, b6);
    lemma_shift_injective(a5, b5);
    lemma_shift_injective(a4, b4);
    lemma_shift_injective(a3, b3);
    lemma_shift_injective(a2, b2);
    lemma_shift_injective(a1, b1);
    lemma_shift_injective(a0, b0);
    assert((a ^ x) == (b ^ x) ==> a == b) by (bit_vector);
}

proof fn lemma_absorb_injective_in_byte(reg: u32, x: u8, y: u8)
    requires
        crc32_absorb(reg, x) == crc32_absorb(reg, y),
    ensures
        x == y,
{
    let (xw, yw) = (x as u32, y as u32);
    assert((reg ^ xw) == (reg ^ yw) ==> xw == yw) by (bit_vector);
    if xw != yw {
        // The two registers differ before the eight shifts, so they differ after.
        let (a0, b0) = (reg ^ xw, reg ^ yw);
        let (a1, b1) = (crc32_shift(a0), crc32_shift(b0));
        let (a2, b2) = (crc32_shift(a1), crc32_shift(b1));
        let (a3, b3) = (crc32_shift(a2), crc32_shift(b2));
        let (a4, b4) = (crc32_shift(a3), crc32_shift(b3));
        let (a5, b5) = (crc32_shift(a4), crc32_shift(b4));
        let (a6, b6) = (crc32_shift(a5), crc32_shift(b5));
        let (a7, b7) = (crc32_shift(a6), crc32_shift(b6));
        lemma_shift_injective(a7, b7);
        lemma_shift_injective(a6, b6);
        lemma_shift_injective(a5, b5);
        lemma_shift_injective(a4, b4);
        lemma_shift_injective(a3, b3);
        lemma_shift_injective(a2, b2);
        lemma_shift_injective(a1, b1);
        lemma_shift_injective(a0, b0);
    }
}

proof fn lemma_register_detects_single_byte_change(a: Seq<u8>, b: Seq<u8>, at: int)
    requires
        a.len() == b.len(),
        0 <= at < a.len(),
        a[at] != b[at],
        forall|j: int| 0 <= j < a.len() && j != at ==> a[j] == b[j],
    ensures
        crc32_register(a) != crc32_register(b),
    decreases a.len(),
{
    let (a_init, b_init) = (a.drop_last(), b.drop_last());
    if at == a.len() - 1 {
        assert(a_init =~= b_init);
        if crc32_register(a) == crc32_register(b) {
            lemma_absorb_injective_in_byte(crc32_register(a_init), a.last(), b.last());
        }
    } else {
        lemma_register_detects_single_byte_change(a_init, b_init, at);
        if crc32_register(a) == crc32_register(b) {
            lemma_absorb_injective_in_register(
                crc32_register(a_init),
                crc32_register(b_init),
                a.last(),
            );
        }
    }
}

/// Two byte strings of one length that differ in exactly one byte never have
/// the same checksum.
pub proof fn lemma_crc32_detects_single_byte_change(a: Seq<u8>, b: Seq<u8>, at: int)
    requires
        a.len() == b.len(),
        0 <= at < a.len(),
        a[at] != b[at],
        forall|j: int| 0 <= j < a.len() && j != at ==> a[j] == b[j],
    ensures
        crc32(a) != crc32(b),
{
    lemma_register_detects_single_byte_change(a, b, at);
    let (ra, rb) = (crc32_register(a), crc32_register(b));
    assert((ra ^ 0xFFFF_FFFF) == (rb ^ 0xFFFF_FFFF) ==> ra == rb) by (bit_vector);
}

} // verus!
