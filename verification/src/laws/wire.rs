//! Numbers, commands and frames, byte by byte.

use vstd::prelude::*;

use crate::bytes::{be16, be32, from_be32, from_le16, from_le32, le16, le32};
use crate::codec::crypto::{des_decrypt, des_encrypt};
use crate::codec::frame::{
    encrypted_frame, encrypted_payload, framed, plain_payload, xor_of, zero_padded,
};
use crate::codec::inner::command;
use crate::error::CodecError;
use crate::types::{Cmd, ProtocolId};

verus! {

/// `v` in `n` bytes, the lowest first.
pub open spec fn low_first(v: nat, n: nat) -> Seq<u8>
    decreases n,
{
    if n == 0 {
        Seq::empty()
    } else {
        seq![(v % 256) as u8] + low_first(v / 256, (n - 1) as nat)
    }
}

/// `v` in `n` bytes, the highest first.
pub open spec fn high_first(v: nat, n: nat) -> Seq<u8>
    decreases n,
{
    if n == 0 {
        Seq::empty()
    } else {
        high_first(v / 256, (n - 1) as nat).push((v % 256) as u8)
    }
}

/// Words and pairs of bytes are what their names say.
pub proof fn lemma_byte_orders(n: nat, w: u32, h: u16)
    ensures
        le16(n) == low_first(n, 2),
        le32(w) == low_first(w as nat, 4),
        be32(w) == high_first(w as nat, 4),
        be16(h) == high_first(h as nat, 2),
{
    reveal_with_fuel(low_first, 5);
    reveal_with_fuel(high_first, 5);
    assert(w / 256 / 256 == w / 65536);
    assert(w / 256 / 256 / 256 == w / 16777216);
    assert(le16(n) =~= low_first(n, 2));
    assert(le32(w) =~= low_first(w as nat, 4));
    assert(be32(w) =~= high_first(w as nat, 4));
    assert(be16(h) =~= high_first(h as nat, 2));
}

/// A number is read back from the bytes that spell it.
pub proof fn lemma_bytes_read_back(s: Seq<u8>, n: nat, w: u32, at: int)
    requires
        0 <= at,
    ensures
        s.len() >= 2 && s.take(2) == low_first(n, 2) && n <= 0xffff ==> from_le16(s) == n,
        at + 4 <= s.len() && s.subrange(at, at + 4) == low_first(w as nat, 4) ==> from_le32(s, at)
            == w,
        s.len() >= 4 && s.take(4) == high_first(w as nat, 4) ==> from_be32(s) == w,
{
    lemma_byte_orders(n, w, 0);
    if s.len() >= 2 && s.take(2) == low_first(n, 2) {
        assert(s.take(2)[0] == s[0] && s.take(2)[1] == s[1]);
    }
    if at + 4 <= s.len() && s.subrange(at, at + 4) == low_first(w as nat, 4) {
        let t = s.subrange(at, at + 4);
        assert(t[0] == s[at] && t[1] == s[at + 1] && t[2] == s[at + 2] && t[3] == s[at + 3]);
    }
    if s.len() >= 4 && s.take(4) == high_first(w as nat, 4) {
        let t = s.take(4);
        assert(t[0] == s[0] && t[1] == s[1] && t[2] == s[2] && t[3] == s[3]);
    }
}

/// The number a protocol goes by on the wire.
pub open spec fn number(p: ProtocolId) -> nat {
    match p {
        ProtocolId::J1850Vpw => 1,
        ProtocolId::J1850Pwm => 2,
        ProtocolId::Iso9141 => 3,
        ProtocolId::Iso14230 => 4,
        ProtocolId::Can => 5,
        ProtocolId::Iso15765 => 6,
    }
}

/// The four bytes that open the arguments of every command on a channel.
pub open spec fn channel_word(p: ProtocolId) -> Seq<u8> {
    low_first(number(p), 4)
}

/// An inner command: its length in two bytes, counting the opcode, then the
/// opcode, then the arguments.
pub open spec fn ordered(op: u8, args: Seq<u8>) -> Seq<u8> {
    low_first(1 + args.len(), 2) + seq![op] + args
}

pub proof fn lemma_ordered(cmd: Cmd, args: Seq<u8>, p: ProtocolId)
    ensures
        command(cmd, args) == ordered(opcode(cmd), args),
        le32(p.id()) == channel_word(p),
        number(p) == p.id(),
{
    lemma_byte_orders(1 + args.len(), p.id(), 0);
}

/// The opcode of each command.
pub open spec fn opcode(cmd: Cmd) -> u8 {
    match cmd {
        Cmd::Open => 0x01,
        Cmd::CloseSession => 0x02,
        Cmd::ReadVersion => 0x03,
        Cmd::Connect => 0x07,
        Cmd::Disconnect => 0x08,
        Cmd::ReadMsg => 0x09,
        Cmd::WriteMsg => 0x0a,
        Cmd::StartMsgFilter => 0x0b,
        Cmd::StopMsgFilter => 0x0c,
        Cmd::SetProgrammingVoltage => 0x0d,
        Cmd::Ioctl => 0x0e,
        Cmd::StartPeriodicMsg => 0x0f,
        Cmd::StopPeriodicMsg => 0x10,
    }
}

/// All bytes joined by exclusive or, from the front.
pub open spec fn parity(s: Seq<u8>) -> u8
    decreases s.len(),
{
    if s.len() == 0 {
        0
    } else {
        s[0] ^ parity(s.skip(1))
    }
}

proof fn lemma_parity_push(s: Seq<u8>, b: u8)
    ensures
        parity(s.push(b)) == parity(s) ^ b,
    decreases s.len(),
{
    let t = s.push(b);
    if s.len() == 0 {
        assert(t.skip(1) =~= Seq::empty());
        reveal_with_fuel(parity, 2);
        assert(b ^ 0u8 == 0u8 ^ b) by (bit_vector);
    } else {
        assert(t.skip(1) =~= s.skip(1).push(b));
        lemma_parity_push(s.skip(1), b);
        let x = s[0];
        let y = parity(s.skip(1));
        assert(x ^ (y ^ b) == (x ^ y) ^ b) by (bit_vector);
    }
}

/// The checksum is the exclusive or of all bytes.
pub proof fn lemma_parity(s: Seq<u8>)
    ensures
        xor_of(s) == parity(s),
    decreases s.len(),
{
    if s.len() > 0 {
        lemma_parity(s.drop_last());
        lemma_parity_push(s.drop_last(), s.last());
        assert(s.drop_last().push(s.last()) =~= s);
    }
}

/// A frame in the clear: its whole length in two bytes, the payload, and the
/// parity of everything before.
pub open spec fn in_clear(payload: Seq<u8>) -> Seq<u8> {
    let body = low_first(payload.len() + 3, 2) + payload;
    body.push(parity(body))
}

pub proof fn lemma_in_clear(payload: Seq<u8>)
    ensures
        framed(payload) == in_clear(payload),
{
    lemma_byte_orders(payload.len() + 3, 0, 0);
    lemma_parity(low_first(payload.len() + 3, 2) + payload);
}

/// A command filled up with zeros to whole blocks of eight.
pub open spec fn filled_up(inner: Seq<u8>) -> Seq<u8> {
    Seq::new(
        if inner.len() % 8 == 0 {
            inner.len()
        } else {
            (inner.len() + 8 - inner.len() % 8) as nat
        },
        |i: int|
            if i < inner.len() {
                inner[i]
            } else {
                0u8
            },
    )
}

/// Eight bytes at a time, each block encrypted on its own.
pub open spec fn in_cipher(key: Seq<u8>, s: Seq<u8>) -> Seq<u8> {
    Seq::new(
        s.len(),
        |i: int| des_encrypt(key, s.subrange(i - i % 8, i - i % 8 + 8))[i % 8],
    )
}

/// Eight bytes at a time, each block decrypted on its own.
pub open spec fn out_of_cipher(key: Seq<u8>, s: Seq<u8>) -> Seq<u8> {
    Seq::new(
        s.len(),
        |i: int| des_decrypt(key, s.subrange(i - i % 8, i - i % 8 + 8))[i % 8],
    )
}

/// The frame that carries a command under a key.
pub open spec fn sealed(key: Seq<u8>, inner: Seq<u8>) -> Seq<u8> {
    in_clear(in_cipher(key, filled_up(inner)))
}

/// A command goes out filled up, encrypted and framed; one too long for the
/// length field does not go out.
pub proof fn lemma_sealed(key: Seq<u8>, inner: Seq<u8>)
    ensures
        filled_up(inner).len() <= 0xfffc <==> encrypted_frame(key, inner) is Ok,
        filled_up(inner).len() <= 0xfffc ==> encrypted_frame(key, inner) == Ok::<
            Seq<u8>,
            CodecError,
        >(sealed(key, inner)),
        encrypted_frame(key, inner) matches Err(e) ==> e is TooLong,
{
    assert(zero_padded(inner) =~= filled_up(inner));
    let s = filled_up(inner);
    let a = crate::codec::crypto::encrypted(key, s);
    assert forall|i: int| 0 <= i < s.len() implies a[i] == in_cipher(key, s)[i] by {
        assert(8 * (i / 8) == i - i % 8);
    }
    assert(a =~= in_cipher(key, s));
    lemma_in_clear(a);
}

/// What is in a sealed frame is taken out block by block; the parity may be
/// that of the frame as it is or that of the frame in the clear.
pub proof fn lemma_unsealed(key: Seq<u8>, frame: Seq<u8>)
    requires
        frame.len() > 3,
        frame.take(2) == low_first(frame.len(), 2),
        frame.len() <= 0xffff,
        frame.len() % 8 == 3,
    ensures
        ({
            let cipher = frame.subrange(2, frame.len() - 1);
            let plain = out_of_cipher(key, cipher);
            let good = frame.last() == parity(frame.drop_last()) || frame.last() == parity(
                frame.take(2) + plain,
            );
            if good {
                encrypted_payload(key, frame) == Ok::<Seq<u8>, CodecError>(plain)
            } else {
                encrypted_payload(key, frame) is Err
            }
        }),
{
    let cipher = frame.subrange(2, frame.len() - 1);
    let plain = out_of_cipher(key, cipher);
    let d = crate::codec::crypto::decrypted(key, cipher);
    assert forall|i: int| 0 <= i < cipher.len() implies d[i] == plain[i] by {
        assert(8 * (i / 8) == i - i % 8);
    }
    assert(d =~= plain);
    lemma_bytes_read_back(frame, frame.len(), 0, 0);
    lemma_parity(frame.drop_last());
    lemma_parity(plain);
    let t = frame.take(2) + plain;
    assert(t.skip(1).skip(1) =~= plain);
    reveal_with_fuel(parity, 3);
    let x = frame[0];
    let y = frame[1];
    let z = parity(plain);
    assert(t[0] == x && t.skip(1)[0] == y);
    assert(x ^ (y ^ z) == x ^ y ^ z) by (bit_vector);
}

/// A frame in the clear is accepted exactly when its length field and its
/// parity are right, and gives its payload.
pub proof fn lemma_opened(frame: Seq<u8>)
    requires
        frame.len() <= 0xffff,
    ensures
        plain_payload(frame) is Ok <==> {
            &&& frame.len() >= 3
            &&& frame[0] + 256 * frame[1] == frame.len()
            &&& frame.last() == parity(frame.drop_last())
        },
        plain_payload(frame) matches Ok(p) ==> p == frame.subrange(2, frame.len() - 1),
{
    lemma_parity(frame.drop_last());
}

} // verus!
