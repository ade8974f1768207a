//! Outer wire frame: `[LEN u16 LE][PAYLOAD][XORSUM]`.
//!
//! `LEN` is the total frame length including itself and the checksum, and is
//! genuinely 16-bit: short messages just leave the high byte zero. `XORSUM` is
//! the XOR of every byte before it.
//!
//! Payload is plaintext for the pre-key handshake frames; afterwards it is
//! `DES-ECB(key, inner)` with the inner zero-padded to a multiple of 8.

use vstd::prelude::*;

use super::crypto::{decrypt_in_place, decrypted, encrypt_in_place, encrypted};
use crate::bytes::{
    copy_all, copy_range, from_le16, le16, lemma_le16_round_trip, push_all, push_le16,
    push_repeated, rd_u16, repeated,
};
use crate::error::{seen, CodecError};

verus! {

/// The XOR of all bytes.
pub open spec fn xor_of(s: Seq<u8>) -> u8
    decreases s.len(),
{
    if s.len() == 0 {
        0
    } else {
        xor_of(s.drop_last()) ^ s.last()
    }
}

/// The length field, the payload and the checksum.
pub open spec fn framed(payload: Seq<u8>) -> Seq<u8> {
    let body = le16(payload.len() + 3) + payload;
    body.push(xor_of(body))
}

/// `n` rounded up to whole DES blocks.
pub open spec fn whole_blocks(n: nat) -> nat {
    (n + 7) / 8 * 8
}

/// An inner command zero-padded to whole DES blocks.
pub open spec fn zero_padded(inner: Seq<u8>) -> Seq<u8> {
    inner + repeated(0, (whole_blocks(inner.len()) - inner.len()) as nat)
}

/// A length that may not fit a `usize`, stopping there.
pub open spec fn capped_len(n: nat) -> usize {
    if n <= usize::MAX {
        n as usize
    } else {
        usize::MAX
    }
}

/// The plaintext frame that carries `payload`, if the length field can tell
/// how long it is.
pub open spec fn plain_frame(payload: Seq<u8>) -> Result<Seq<u8>, CodecError> {
    if payload.len() + 3 > 0xffff {
        Err(CodecError::TooLong(capped_len(payload.len() + 3)))
    } else {
        Ok(framed(payload))
    }
}

/// The encrypted frame that carries `inner`, if the length field can tell how
/// long it is.
pub open spec fn encrypted_frame(key: Seq<u8>, inner: Seq<u8>) -> Result<Seq<u8>, CodecError> {
    if whole_blocks(inner.len()) + 3 > 0xffff {
        Err(CodecError::TooLong(capped_len(whole_blocks(inner.len()) + 3)))
    } else {
        Ok(framed(encrypted(key, zero_padded(inner))))
    }
}

/// The payload of a plaintext frame, or what is wrong with it.
pub open spec fn plain_payload(frame: Seq<u8>) -> Result<Seq<u8>, CodecError> {
    let body = frame.drop_last();
    if frame.len() < 3 {
        Err(CodecError::TooShort(frame.len() as usize))
    } else if from_le16(frame) != frame.len() {
        Err(
            CodecError::LengthMismatch {
                field: from_le16(frame) as usize,
                actual: frame.len() as usize,
            },
        )
    } else if xor_of(body) != frame.last() {
        Err(CodecError::BadChecksum { wire: frame.last(), computed: xor_of(body) })
    } else {
        Ok(frame.subrange(2, frame.len() - 1))
    }
}

/// The checksum over an encrypted frame's length field and decrypted payload.
pub open spec fn plain_sum(key: Seq<u8>, frame: Seq<u8>) -> u8 {
    frame[0] ^ frame[1] ^ xor_of(decrypted(key, frame.subrange(2, frame.len() - 1)))
}

/// The padded inner command of an encrypted frame, or what is wrong with it.
/// A checksum over the ciphertext and one over the plaintext are both good.
pub open spec fn encrypted_payload(key: Seq<u8>, frame: Seq<u8>) -> Result<Seq<u8>, CodecError> {
    let cipher_sum = xor_of(frame.drop_last());
    if frame.len() < 3 {
        Err(CodecError::TooShort(frame.len() as usize))
    } else if from_le16(frame) != frame.len() {
        Err(
            CodecError::LengthMismatch {
                field: from_le16(frame) as usize,
                actual: frame.len() as usize,
            },
        )
    } else if frame.len() == 3 || (frame.len() - 3) % 8 != 0 {
        Err(CodecError::BadCipherLength((frame.len() - 3) as usize))
    } else if frame.last() != cipher_sum && frame.last() != plain_sum(key, frame) {
        Err(
            CodecError::BadEncryptedChecksum {
                wire: frame.last(),
                cipher: cipher_sum,
                plain: plain_sum(key, frame),
            },
        )
    } else {
        Ok(decrypted(key, frame.subrange(2, frame.len() - 1)))
    }
}

pub fn xorsum(bytes: &[u8]) -> (r: u8)
    ensures
        r == xor_of(bytes@),
{
    let mut c: u8 = 0;
    let mut i: usize = 0;
    while i < bytes.len()
        invariant
            i <= bytes.len(),
            c == xor_of(bytes@.take(i as int)),
        decreases bytes.len() - i,
    {
        c = c ^ bytes[i];
        assert(bytes@.take(i + 1).drop_last() =~= bytes@.take(i as int));
        i = i + 1;
    }
    assert(bytes@.take(i as int) =~= bytes@);
    c
}

fn finish(payload: &[u8]) -> (out: Vec<u8>)
    requires
        payload.len() + 3 <= 0xffff,
    ensures
        out@ == framed(payload@),
{
    let mut out: Vec<u8> = Vec::new();
    push_le16(&mut out, payload.len() + 3);
    push_all(&mut out, payload);
    assert(out@ =~= le16((payload.len() + 3) as nat) + payload@);
    let sum: u8 = xorsum(out.as_slice());
    out.push(sum);
    out
}

/// Build a plaintext frame (handshake only).
pub fn encode_plain(payload: &[u8]) -> (r: Result<Vec<u8>, CodecError>)
    ensures
        seen(r) == plain_frame(payload@),
{
    let total: usize = payload.len().saturating_add(3);
    if total > 0xffff {
        return Err(CodecError::TooLong(total));
    }
    Ok(finish(payload))
}

/// Encrypt an inner command into a wire frame. Decoding the frame under the
/// same key gives the zero-padded command back.
pub fn encode_encrypted(key: &[u8; 8], inner: &[u8]) -> (r: Result<Vec<u8>, CodecError>)
    ensures
        seen(r) == encrypted_frame(key@, inner@),
        r is Ok && inner.len() > 0 ==> encrypted_payload(key@, r->Ok_0@) == Ok::<
            Seq<u8>,
            CodecError,
        >(zero_padded(inner@)),
{
    let blocks: usize = inner.len() / 8 + if inner.len() % 8 == 0 {
        0
    } else {
        1
    };
    if blocks > (usize::MAX - 3) / 8 {
        assert(usize::MAX >= 0xffff_ffff);
        return Err(CodecError::TooLong(usize::MAX));
    }
    let clen: usize = blocks * 8;
    assert(clen == whole_blocks(inner@.len()));
    let total: usize = clen + 3;
    if total > 0xffff {
        return Err(CodecError::TooLong(total));
    }
    let mut body: Vec<u8> = copy_all(inner);
    push_repeated(&mut body, 0, clen - inner.len());
    assert(body@ =~= zero_padded(inner@));
    encrypt_in_place(key, body.as_mut_slice());
    let out = finish(body.as_slice());
    proof {
        let cipher = body@;
        lemma_framed(cipher);
        if inner.len() > 0 {
            assert(out@.subrange(2, out@.len() - 1) =~= cipher);
        }
    }
    Ok(out)
}

/// Validate a plaintext frame and return its payload.
pub fn decode_plain(frame: &[u8]) -> (r: Result<&[u8], CodecError>)
    ensures
        seen(r) == plain_payload(frame@),
{
    if frame.len() < 3 {
        return Err(CodecError::TooShort(frame.len()));
    }
    let field: usize = rd_u16(frame);
    if field != frame.len() {
        return Err(CodecError::LengthMismatch { field, actual: frame.len() });
    }
    let wire: u8 = frame[frame.len() - 1];
    let computed: u8 = xorsum(&frame[0..frame.len() - 1]);
    assert(frame@.subrange(0, frame.len() - 1) =~= frame@.drop_last());
    if computed != wire {
        return Err(CodecError::BadChecksum { wire, computed });
    }
    Ok(&frame[2..frame.len() - 1])
}

/// Validate and decrypt an encrypted frame, returning the padded inner.
///
/// The device uses two checksum conventions: status replies checksum over the
/// ciphertext, message replies over the plaintext. Both are accepted.
pub fn decode_encrypted(key: &[u8; 8], frame: &[u8]) -> (r: Result<Vec<u8>, CodecError>)
    ensures
        seen(r) == encrypted_payload(key@, frame@),
{
    if frame.len() < 3 {
        return Err(CodecError::TooShort(frame.len()));
    }
    let field: usize = rd_u16(frame);
    if field != frame.len() {
        return Err(CodecError::LengthMismatch { field, actual: frame.len() });
    }
    let plen: usize = frame.len() - 3;
    if plen == 0 || plen % 8 != 0 {
        return Err(CodecError::BadCipherLength(plen));
    }
    let wire: u8 = frame[frame.len() - 1];
    let cipher_sum: u8 = xorsum(&frame[0..frame.len() - 1]);
    assert(frame@.subrange(0, frame.len() - 1) =~= frame@.drop_last());

    let mut inner: Vec<u8> = copy_range(frame, 2, frame.len() - 1);
    decrypt_in_place(key, inner.as_mut_slice());

    let plain: u8 = frame[0] ^ frame[1] ^ xorsum(inner.as_slice());
    if wire != cipher_sum && wire != plain {
        return Err(CodecError::BadEncryptedChecksum { wire, cipher: cipher_sum, plain });
    }
    Ok(inner)
}

/// A frame's length field and checksum are those of its payload.
pub proof fn lemma_framed(payload: Seq<u8>)
    requires
        payload.len() + 3 <= 0xffff,
    ensures
        framed(payload).len() == payload.len() + 3,
        from_le16(framed(payload)) == payload.len() + 3,
        xor_of(framed(payload).drop_last()) == framed(payload).last(),
        framed(payload).subrange(2, framed(payload).len() - 1) == payload,
{
    let f = framed(payload);
    let body = le16(payload.len() + 3) + payload;
    lemma_le16_round_trip(payload.len() + 3, payload);
    assert(f.drop_last() =~= body);
    assert(f[0] == body[0] && f[1] == body[1]);
    assert(f.subrange(2, f.len() - 1) =~= payload);
}

/// Decoding an encoded plaintext frame gives the payload back.
pub proof fn lemma_plain_round_trip(payload: Seq<u8>)
    requires
        payload.len() + 3 <= 0xffff,
    ensures
        plain_payload(framed(payload)) == Ok::<Seq<u8>, CodecError>(payload),
{
    lemma_framed(payload);
}

/// Of the frames that differ only in the checksum, those that carry the sum
/// over the ciphertext or the sum over the plaintext decode, to the same inner
/// command, and every other is refused.
pub proof fn lemma_two_checksums(key: Seq<u8>, frame: Seq<u8>, sum: u8)
    requires
        frame.len() > 3,
        from_le16(frame) == frame.len(),
        (frame.len() - 3) % 8 == 0,
    ensures
        ({
            let other = frame.update(frame.len() - 1, sum);
            let cipher = frame.subrange(2, frame.len() - 1);
            if sum == xor_of(frame.drop_last()) || sum == plain_sum(key, frame) {
                encrypted_payload(key, other) == Ok::<Seq<u8>, CodecError>(decrypted(key, cipher))
            } else {
                encrypted_payload(key, other) is Err
            }
        }),
{
    let other = frame.update(frame.len() - 1, sum);
    assert(other.drop_last() =~= frame.drop_last());
    assert(other.subrange(2, other.len() - 1) =~= frame.subrange(2, frame.len() - 1));
}

} // verus!
