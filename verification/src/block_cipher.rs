//! AES-128 in electronic-codebook mode with PKCS#7 padding.
//!
//! The block cipher itself comes from the `aes` crate and is known to the
//! proofs only by name. Chaining the blocks and padding the last one are
//! defined and proved here.

use aes::cipher::{BlockDecrypt, BlockEncrypt, KeyInit};
use vstd::prelude::*;
use vstd::slice::slice_subrange;

verus! {

/// Bytes in one cipher block, and in a key.
pub const BLOCK_SIZE: usize = 16;

/// The block that AES-128 makes of `block` under `key`.
pub uninterp spec fn aes128_encrypt_block(key: Seq<u8>, block: Seq<u8>) -> [u8; 16];

/// The block that AES-128 recovers from `block` under `key`.
pub uninterp spec fn aes128_decrypt_block(key: Seq<u8>, block: Seq<u8>) -> [u8; 16];

/// Encrypts one block with `aes::Aes128`.
///
/// Trusted: the result depends on the key and the block alone.
#[verifier::external_body]
fn encrypt_block(key: &[u8; 16], block: &[u8]) -> (out: [u8; 16])
    requires
        block@.len() == 16,
    ensures
        out == aes128_encrypt_block(key@, block@),
{
    let mut buf = aes::Block::clone_from_slice(block);
    aes::Aes128::new(key.into()).encrypt_block(&mut buf);
    buf.into()
}

/// Decrypts one block with `aes::Aes128`.
///
/// Trusted: the result depends on the key and the block alone, and under
/// one key decryption and encryption undo each other: a block that is the
/// encryption of `p` decrypts to `p`, and what a block decrypts to encrypts
/// back to the block. The second follows from the first, since both map the
/// finitely many blocks to blocks.
#[verifier::external_body]
fn decrypt_block(key: &[u8; 16], block: &[u8]) -> (out: [u8; 16])
    requires
        block@.len() == 16,
    ensures
        out == aes128_decrypt_block(key@, block@),
        forall|p: Seq<u8>|
            p.len() == 16 && (#[trigger] aes128_encrypt_block(key@, p))@ == block@ ==> out@ == p,
        aes128_encrypt_block(key@, out@)@ == block@,
{
    let mut buf = aes::Block::clone_from_slice(block);
    aes::Aes128::new(key.into()).decrypt_block(&mut buf);
    buf.into()
}

/// The `n`-th 16-byte block of `data`.
pub open spec fn block_at(data: Seq<u8>, n: int) -> Seq<u8> {
    data.subrange(16 * n, 16 * n + 16)
}

/// Electronic-codebook encryption: every block of `data` is encrypted on its
/// own, under the same key and with no chaining.
pub open spec fn ecb_encrypt(key: Seq<u8>, data: Seq<u8>) -> Seq<u8>
    recommends
        data.len() % 16 == 0,
{
    Seq::new(data.len(), |i: int| aes128_encrypt_block(key, block_at(data, i / 16))[i % 16])
}

/// Electronic-codebook decryption: every block of `data` is decrypted on its
/// own.
pub open spec fn ecb_decrypt(key: Seq<u8>, data: Seq<u8>) -> Seq<u8>
    recommends
        data.len() % 16 == 0,
{
    Seq::new(data.len(), |i: int| aes128_decrypt_block(key, block_at(data, i / 16))[i % 16])
}

/// Number of padding bytes that a message of `len` bytes receives: between 1
/// and 16, so that a message that already fills its last block gets a whole
/// block of padding.
pub open spec fn pad_len(len: nat) -> nat {
    (16 - len % 16) as nat
}

/// PKCS#7 padding: `pad_len` bytes, each holding the number of bytes added.
pub open spec fn pkcs7_pad(msg: Seq<u8>) -> Seq<u8> {
    msg + Seq::new(pad_len(msg.len()), |i: int| pad_len(msg.len()) as u8)
}

/// Whether `data` ends in well-formed PKCS#7 padding: the last byte `n` is
/// between 1 and 16 and the `n` last bytes all hold `n`.
pub open spec fn pkcs7_padded(data: Seq<u8>) -> bool {
    &&& data.len() >= 16
    &&& 1 <= data.last() <= 16
    &&& forall|i: int| data.len() - data.last() <= i < data.len() ==> data[i] == data.last()
}

/// The message inside padded `data`.
pub open spec fn pkcs7_unpad(data: Seq<u8>) -> Seq<u8>
    recommends
        pkcs7_padded(data),
{
    data.subrange(0, data.len() - data.last())
}

/// Whatever ends in well-formed padding is the padding of what it holds.
pub proof fn lemma_pad_of_unpad(data: Seq<u8>)
    requires
        data.len() % 16 == 0,
        pkcs7_padded(data),
    ensures
        pkcs7_pad(pkcs7_unpad(data)) == data,
{
    let msg = pkcs7_unpad(data);
    let fill = data.last() as nat;
    assert(msg.len() == data.len() - fill);
    assert(pad_len(msg.len()) == fill);
    assert(pkcs7_pad(msg) =~= data);
}

/// Padding is unambiguous: what was padded can be told from the result.
pub proof fn lemma_unpad_of_pad(msg: Seq<u8>)
    ensures
        pkcs7_pad(msg).len() == msg.len() + pad_len(msg.len()),
        pkcs7_pad(msg).len() % 16 == 0,
        pkcs7_padded(pkcs7_pad(msg)),
        pkcs7_unpad(pkcs7_pad(msg)) == msg,
{
    let padded = pkcs7_pad(msg);
    assert(padded.last() == pad_len(msg.len()) as u8);
    assert(pkcs7_unpad(padded) =~= msg);
}

/// Appends `src` to `out`.
pub(crate) fn append_bytes(out: &mut Vec<u8>, src: &[u8])
    ensures
        final(out)@ == old(out)@ + src@,
{
    out.extend_from_slice(src);
    assert(out@ =~= old(out)@ + src@);
}

/// Pads `msg` to a whole number of blocks.
pub(crate) fn pad_message(msg: &[u8]) -> (padded: Vec<u8>)
    ensures
        padded@ == pkcs7_pad(msg@),
{
    let fill: usize = BLOCK_SIZE - msg.len() % BLOCK_SIZE;
    let mut padded: Vec<u8> = Vec::new();
    append_bytes(&mut padded, msg);
    let mut added: usize = 0;
    while added < fill
        invariant
            added <= fill,
            fill == pad_len(msg@.len()),
            padded@ == msg@ + Seq::new(added as nat, |i: int| fill as u8),
        decreases fill - added,
    {
        padded.push(fill as u8);
        added += 1;
        assert(padded@ =~= msg@ + Seq::new(added as nat, |i: int| fill as u8));
    }
    padded
}

/// Encrypts `data`, a whole number of blocks, block by block.
pub(crate) fn encrypt_blocks(key: &[u8; 16], data: &[u8]) -> (out: Vec<u8>)
    requires
        data@.len() % 16 == 0,
    ensures
        out@ == ecb_encrypt(key@, data@),
{
    let blocks: usize = data.len() / BLOCK_SIZE;
    let mut out: Vec<u8> = Vec::with_capacity(data.len());
    let mut n: usize = 0;
    while n < blocks
        invariant
            n <= blocks,
            blocks * 16 == data@.len() <= usize::MAX,
            out@ == ecb_encrypt(key@, data@).subrange(0, 16 * n),
        decreases blocks - n,
    {
        let block = encrypt_block(key, slice_subrange(data, 16 * n, 16 * n + 16));
        append_bytes(&mut out, block.as_slice());
        n += 1;
        assert(out@ =~= ecb_encrypt(key@, data@).subrange(0, 16 * n));
    }
    assert(out@ =~= ecb_encrypt(key@, data@));
    out
}

/// Decrypts `data`, a whole number of blocks, block by block.
///
/// The other clauses make decryption the inverse of encryption: if `data` is
/// the encryption of some `plain` under `key`, `plain` comes back; and what
/// comes back encrypts to `data`.
pub(crate) fn decrypt_blocks(key: &[u8; 16], data: &[u8]) -> (out: Vec<u8>)
    requires
        data@.len() % 16 == 0,
    ensures
        out@ == ecb_decrypt(key@, data@),
        forall|plain: Seq<u8>|
            plain.len() % 16 == 0 && #[trigger] ecb_encrypt(key@, plain) == data@ ==> out@ == plain,
        ecb_encrypt(key@, out@) == data@,
{
    let blocks: usize = data.len() / BLOCK_SIZE;
    let mut out: Vec<u8> = Vec::with_capacity(data.len());
    let mut n: usize = 0;
    while n < blocks
        invariant
            n <= blocks,
            blocks * 16 == data@.len() <= usize::MAX,
            out@ == ecb_decrypt(key@, data@).subrange(0, 16 * n),
            forall|plain: Seq<u8>|
                plain.len() % 16 == 0 && #[trigger] ecb_encrypt(key@, plain) == data@
                    ==> out@ == plain.subrange(0, 16 * n),
            forall|m: int|
                0 <= m < n ==> (#[trigger] aes128_encrypt_block(key@, block_at(out@, m)))@
                    == block_at(data@, m),
        decreases blocks - n,
    {
        let ghost before = out@;
        let block = decrypt_block(key, slice_subrange(data, 16 * n, 16 * n + 16));
        append_bytes(&mut out, block.as_slice());
        proof {
            assert(out@ =~= ecb_decrypt(key@, data@).subrange(0, 16 * (n + 1)));
            assert forall|m: int| 0 <= m < n + 1 implies (#[trigger] aes128_encrypt_block(
                key@,
                block_at(out@, m),
            ))@ == block_at(data@, m) by {
                if m < n {
                    assert(block_at(out@, m) =~= block_at(before, m));
                } else {
                    assert(block_at(out@, m) =~= block@);
                }
            }
            assert forall|plain: Seq<u8>|
                plain.len() % 16 == 0 && #[trigger] ecb_encrypt(key@, plain) == data@ implies out@
                == plain.subrange(0, 16 * (n + 1)) by {
                let p = block_at(plain, n as int);
                assert(aes128_encrypt_block(key@, p)@ =~= block_at(data@, n as int)) by {
                    assert forall|k: int| 0 <= k < 16 implies aes128_encrypt_block(key@, p)@[k]
                        == block_at(data@, n as int)[k] by {
                        let i = 16 * n + k;
                        assert(i / 16 == n && i % 16 == k);
                        assert(ecb_encrypt(key@, plain)[i] == aes128_encrypt_block(
                            key@,
                            block_at(plain, i / 16),
                        )[i % 16]);
                    }
                }
                assert(block@ == p);
                assert(out@ =~= plain.subrange(0, 16 * (n + 1)));
            }
        }
        n += 1;
    }
    proof {
        assert(out@ =~= ecb_decrypt(key@, data@));
        assert forall|i: int| 0 <= i < data@.len() implies ecb_encrypt(key@, out@)[i]
            == data@[i] by {
            let m = i / 16;
            assert(0 <= m < n);
            assert(aes128_encrypt_block(key@, block_at(out@, m))@ == block_at(data@, m));
            assert(block_at(data@, m)[i % 16] == data@[16 * m + i % 16]);
        }
        assert(ecb_encrypt(key@, out@) =~= data@);
        assert forall|plain: Seq<u8>|
            plain.len() % 16 == 0 && #[trigger] ecb_encrypt(key@, plain) == data@ implies out@
            == plain by {
            assert(plain.subrange(0, 16 * n) =~= plain);
        }
    }
    out
}

} // verus!
