//! Single DES-ECB, as the cable speaks it. The key is the first 8 bytes of
//! the handshake challenge, used as-is: parity bits are not corrected on
//! either end.

use vstd::prelude::*;

use des::cipher::generic_array::GenericArray;
use des::cipher::{BlockDecrypt, BlockEncrypt, KeyInit};
use des::Des;

verus! {

/// The DES encryption of an 8-byte block under an 8-byte key.
pub uninterp spec fn des_encrypt(key: Seq<u8>, block: Seq<u8>) -> Seq<u8>;

/// The DES decryption of an 8-byte block under an 8-byte key.
pub uninterp spec fn des_decrypt(key: Seq<u8>, block: Seq<u8>) -> Seq<u8>;

/// `BlockEncrypt::encrypt_block` of `des::Des`, keyed by `KeyInit::new`: the
/// result is the block's DES encryption under the key, and decrypting it under
/// the same key gives the block back (the rounds of a Feistel cipher undo
/// themselves when the subkeys run backwards, for every key).
#[verifier::external_body]
fn encrypt_block(key: &[u8; 8], block: &[u8; 8]) -> (r: [u8; 8])
    ensures
        r@ == des_encrypt(key@, block@),
        des_decrypt(key@, r@) == block@,
{
    let mut b = GenericArray::clone_from_slice(block);
    Des::new(GenericArray::from_slice(key)).encrypt_block(&mut b);
    b.into()
}

/// `BlockDecrypt::decrypt_block` of `des::Des`, keyed by `KeyInit::new`: the
/// result is the block's DES decryption under the key, and encrypting it under
/// the same key gives the block back.
#[verifier::external_body]
fn decrypt_block(key: &[u8; 8], block: &[u8; 8]) -> (r: [u8; 8])
    ensures
        r@ == des_decrypt(key@, block@),
        des_encrypt(key@, r@) == block@,
{
    let mut b = GenericArray::clone_from_slice(block);
    Des::new(GenericArray::from_slice(key)).decrypt_block(&mut b);
    b.into()
}

/// Block `k` of a buffer.
pub open spec fn block_at(s: Seq<u8>, k: int) -> Seq<u8> {
    s.subrange(8 * k, 8 * k + 8)
}

/// A buffer with each 8-byte block encrypted on its own.
pub open spec fn encrypted(key: Seq<u8>, s: Seq<u8>) -> Seq<u8> {
    Seq::new(s.len(), |i: int| des_encrypt(key, block_at(s, i / 8))[i % 8])
}

/// A buffer with each 8-byte block decrypted on its own.
pub open spec fn decrypted(key: Seq<u8>, s: Seq<u8>) -> Seq<u8> {
    Seq::new(s.len(), |i: int| des_decrypt(key, block_at(s, i / 8))[i % 8])
}

fn load_block(buf: &[u8], at: usize) -> (b: [u8; 8])
    requires
        at + 8 <= buf.len(),
    ensures
        b@ == buf@.subrange(at as int, at + 8),
{
    let b = [
        buf[at],
        buf[at + 1],
        buf[at + 2],
        buf[at + 3],
        buf[at + 4],
        buf[at + 5],
        buf[at + 6],
        buf[at + 7],
    ];
    assert(b@ =~= buf@.subrange(at as int, at + 8));
    b
}

fn store_block(buf: &mut [u8], at: usize, b: &[u8; 8])
    requires
        at + 8 <= old(buf).len(),
    ensures
        final(buf)@ == old(buf)@.take(at as int) + b@ + old(buf)@.skip(at + 8),
{
    let mut i: usize = 0;
    while i < 8
        invariant
            i <= 8,
            buf.len() == old(buf).len(),
            at + 8 <= buf.len(),
            forall|j: int| 0 <= j < buf.len() ==> #[trigger] buf@[j] == if at <= j < at + i {
                b@[j - at]
            } else {
                old(buf)@[j]
            },
        decreases 8 - i,
    {
        buf[at + i] = b[i];
        i = i + 1;
    }
    assert(buf@ =~= old(buf)@.take(at as int) + b@ + old(buf)@.skip(at + 8));
}

/// Encrypt `buf` in place. `buf.len()` must be a multiple of 8.
pub fn encrypt_in_place(key: &[u8; 8], buf: &mut [u8])
    requires
        old(buf).len() % 8 == 0,
    ensures
        final(buf)@ == encrypted(key@, old(buf)@),
        decrypted(key@, final(buf)@) == old(buf)@,
{
    let n: usize = buf.len() / 8;
    let mut k: usize = 0;
    while k < n
        invariant
            k <= n,
            buf.len() == old(buf).len(),
            buf.len() == 8 * n,
            forall|j: int|
                0 <= j < k ==> #[trigger] block_at(buf@, j) == des_encrypt(
                    key@,
                    block_at(old(buf)@, j),
                ) && des_decrypt(key@, block_at(buf@, j)) == block_at(old(buf)@, j),
            forall|j: int| k <= j < n ==> #[trigger] block_at(buf@, j) == block_at(old(buf)@, j),
        decreases n - k,
    {
        let ghost before = buf@;
        assert(block_at(buf@, k as int) == block_at(old(buf)@, k as int));
        let plain = load_block(buf, 8 * k);
        let cipher = encrypt_block(key, &plain);
        store_block(buf, 8 * k, &cipher);
        assert forall|j: int| 0 <= j < n && j != k implies #[trigger] block_at(buf@, j)
            == block_at(before, j) by {
            assert(block_at(buf@, j) =~= block_at(before, j));
        }
        assert(block_at(buf@, k as int) =~= cipher@);
        k = k + 1;
    }
    proof {
        lemma_blockwise(key@, old(buf)@, buf@);
    }
}

/// Decrypt `buf` in place. `buf.len()` must be a multiple of 8.
pub fn decrypt_in_place(key: &[u8; 8], buf: &mut [u8])
    requires
        old(buf).len() % 8 == 0,
    ensures
        final(buf)@ == decrypted(key@, old(buf)@),
        encrypted(key@, final(buf)@) == old(buf)@,
{
    let n: usize = buf.len() / 8;
    let mut k: usize = 0;
    while k < n
        invariant
            k <= n,
            buf.len() == old(buf).len(),
            buf.len() == 8 * n,
            forall|j: int|
                0 <= j < k ==> #[trigger] block_at(buf@, j) == des_decrypt(
                    key@,
                    block_at(old(buf)@, j),
                ) && des_encrypt(key@, block_at(buf@, j)) == block_at(old(buf)@, j),
            forall|j: int| k <= j < n ==> #[trigger] block_at(buf@, j) == block_at(old(buf)@, j),
        decreases n - k,
    {
        let ghost before = buf@;
        assert(block_at(buf@, k as int) == block_at(old(buf)@, k as int));
        let cipher = load_block(buf, 8 * k);
        let plain = decrypt_block(key, &cipher);
        store_block(buf, 8 * k, &plain);
        assert forall|j: int| 0 <= j < n && j != k implies #[trigger] block_at(buf@, j)
            == block_at(before, j) by {
            assert(block_at(buf@, j) =~= block_at(before, j));
        }
        assert(block_at(buf@, k as int) =~= plain@);
        k = k + 1;
    }
    proof {
        lemma_blockwise(key@, buf@, old(buf)@);
    }
}

/// Two buffers whose blocks are each other's images under DES are each other's
/// images as a whole.
proof fn lemma_blockwise(key: Seq<u8>, plain: Seq<u8>, cipher: Seq<u8>)
    requires
        plain.len() == cipher.len(),
        plain.len() % 8 == 0,
        forall|j: int|
            0 <= j < plain.len() / 8 ==> {
                &&& #[trigger] block_at(cipher, j) == des_encrypt(key, block_at(plain, j))
                &&& des_decrypt(key, block_at(cipher, j)) == block_at(plain, j)
            },
    ensures
        cipher == encrypted(key, plain),
        plain == decrypted(key, cipher),
{
    assert forall|i: int| 0 <= i < plain.len() implies cipher[i] == encrypted(key, plain)[i]
        && plain[i] == decrypted(key, cipher)[i] by {
        let j = i / 8;
        assert(block_at(cipher, j)[i % 8] == cipher[i]);
        assert(block_at(plain, j)[i % 8] == plain[i]);
    }
    assert(cipher =~= encrypted(key, plain));
    assert(plain =~= decrypted(key, cipher));
}

} // verus!
