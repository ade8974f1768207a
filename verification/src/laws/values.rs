//! The codec's calls, by the bytes they take and give, and the calls on the
//! values it is made of.

use vstd::prelude::*;

use super::codec::{
    lemma_filter_command, lemma_ioctl_commands, lemma_key_bytes, lemma_message_commands,
    lemma_plain_commands, lemma_read_bytes, lemma_verdict_bytes, lemma_word_bytes,
};
use super::wire::{
    channel_word, filled_up, high_first, in_clear, in_cipher, lemma_byte_orders, lemma_in_clear,
    lemma_parity, lemma_sealed, lemma_unsealed, low_first, number, opcode, ordered, out_of_cipher,
    parity, sealed,
};
use crate::bytes::{
    copy_all, copy_range, push_all, push_be16, push_be32, push_le16, push_le32, push_repeated,
    rd_u16, rd_u32, same_bytes,
};
use crate::codec::crypto::{decrypt_in_place, encrypt_in_place};
use crate::codec::deframe::Deframer;
use crate::codec::frame::{decode_encrypted, decode_plain, encode_encrypted, encode_plain, xorsum};
use crate::codec::inner::{
    clear_periodic, connect, disconnect, fast_init, five_baud_init, get_config, identify,
    parse_challenge, parse_get_config, parse_read_reply, parse_vbatt, read_poll, read_vbatt,
    read_version, session_close, set_config, set_programming_voltage, start_filter, start_periodic,
    status_of, stop_filter, stop_periodic, write_msg, ReadReply,
};
use crate::error::{CodecError, InvalidProtocolId};
use crate::session::raw::parse_init_reply;
use crate::types::{Cmd, DeviceStatus, FilterType, ProtocolId, RxMsg, RxStatus, TxFlags};

verus! {

/// The commands without a message, as they are built.
pub proof fn lemma_plain_built(
    p: ProtocolId,
    flags: u32,
    baud: u32,
    pin: u32,
    mv: u32,
    v: Vec<u8>,
)
    ensures
        call_ensures(identify, (), v) ==> v@ == seq![
            7u8,
            0,
            0x01,
            0x4d,
            0x56,
            0x43,
            0x49,
            0x2d,
            0x54,
        ],
        call_ensures(read_version, (), v) ==> v@ == seq![1u8, 0, 0x03],
        call_ensures(session_close, (), v) ==> v@ == seq![1u8, 0, 0x02, 0, 0, 0, 0, 0],
        call_ensures(connect, (p, flags, baud), v) ==> v@ == seq![13u8, 0, 0x07] + channel_word(p)
            + low_first(flags as nat, 4) + low_first(baud as nat, 4),
        call_ensures(disconnect, (p,), v) ==> v@ == seq![5u8, 0, 0x08] + channel_word(p)
            + seq![0u8],
        call_ensures(read_poll, (p,), v) ==> v@ == seq![5u8, 0, 0x09] + channel_word(p)
            + seq![0u8],
        call_ensures(set_programming_voltage, (pin, mv), v) ==> v@ == seq![9u8, 0, 0x0d]
            + low_first(pin as nat, 4) + low_first(mv as nat, 4),
{
    lemma_plain_commands(p, flags, baud, pin, mv);
}

/// The commands with a message or an id, as they are built.
pub proof fn lemma_messages_built(
    p: ProtocolId,
    flags: u32,
    msg: &[u8],
    id: u32,
    interval: u32,
    v: Vec<u8>,
    r: Result<Vec<u8>, CodecError>,
)
    ensures
        call_ensures(write_msg, (p, flags, msg), r) ==> if msg@.len() > 4100 {
            r == Err::<Vec<u8>, CodecError>(CodecError::MsgTooLong(msg@.len() as usize))
        } else {
            r is Ok && r->Ok_0@ == ordered(
                0x0a,
                channel_word(p) + low_first(flags as nat, 4) + msg@,
            )
        },
        call_ensures(start_periodic, (p, id, flags, interval, msg), r) ==> if msg@.len() >= 13 {
            r == Err::<Vec<u8>, CodecError>(CodecError::MsgTooLong(msg@.len() as usize))
        } else {
            r is Ok && r->Ok_0@ == ordered(
                0x0f,
                channel_word(p) + low_first(id as nat, 4) + low_first(flags as nat, 4)
                    + low_first(interval as nat, 4) + msg@,
            )
        },
        call_ensures(stop_periodic, (p, id), v) ==> v@ == ordered(
            0x10,
            channel_word(p) + low_first(id as nat, 4) + seq![0u8, 0, 0, 0],
        ),
        call_ensures(stop_filter, (p, id), v) ==> v@ == ordered(
            0x0c,
            channel_word(p) + low_first(id as nat, 4) + seq![0u8, 0, 0, 0],
        ),
{
    lemma_message_commands(p, flags, msg@, id, interval);
}

/// The IOCTLs, as they are built.
pub proof fn lemma_ioctls_built(p: ProtocolId, param: u32, value: u32, init: &[u8], v: Vec<u8>)
    ensures
        call_ensures(get_config, (p, param), v) ==> v@ == ordered(
            0x0e,
            seq![0x01u8] + channel_word(p) + low_first(param as nat, 4),
        ),
        call_ensures(set_config, (p, param, value), v) ==> v@ == ordered(
            0x0e,
            seq![0x02u8] + channel_word(p) + low_first(param as nat, 4) + low_first(
                value as nat,
                4,
            ),
        ),
        call_ensures(read_vbatt, (p,), v) ==> v@ == ordered(0x0e, seq![0x03u8] + channel_word(p)),
        call_ensures(five_baud_init, (p, init), v) ==> v@ == ordered(
            0x0e,
            seq![0x04u8] + channel_word(p) + init@,
        ),
        call_ensures(fast_init, (p, init), v) ==> v@ == ordered(
            0x0e,
            seq![0x05u8] + channel_word(p) + init@,
        ),
        call_ensures(clear_periodic, (p,), v) ==> v@ == ordered(
            0x0e,
            seq![0x09u8] + channel_word(p),
        ),
{
    lemma_ioctl_commands(p, param, value, init@);
}

/// The filter command, as it is built, where every field has the width.
pub proof fn lemma_filter_built(
    p: ProtocolId,
    id: u32,
    ftype: u32,
    mask: &[u8],
    pattern: &[u8],
    flow: Option<&[u8]>,
    width: usize,
    r: Result<Vec<u8>, CodecError>,
)
    ensures
        call_ensures(start_filter, (p, id, ftype, mask, pattern, flow, width), r) ==> {
            let can = p == ProtocolId::Can || p == ProtocolId::Iso15765;
            let n = width as int;
            let all = channel_word(p) + low_first(id as nat, 4) + low_first(ftype as nat, 4)
                + mask@.take(n) + pattern@.take(n);
            if !(width == 4 || width == 5 || (width == 1 && !can)) {
                r == Err::<Vec<u8>, CodecError>(CodecError::BadIdLen { proto: p, idlen: width })
            } else if mask@.len() < n || pattern@.len() < n || (flow is Some && flow->0@.len()
                < n) {
                r is Err && r->Err_0 is FilterFieldTooShort && r->Err_0->need == width
            } else {
                &&& r is Ok
                &&& flow is Some ==> r->Ok_0@ == ordered(0x0b, all + flow->0@.take(n))
                &&& flow is None ==> r->Ok_0@ == ordered(
                    0x0b,
                    all + Seq::new(width as nat, |i: int| 0u8),
                )
            }
        },
{
    let f = match flow {
        Some(f) => Some(f@),
        None => None,
    };
    lemma_filter_command(p, id, ftype, mask@, pattern@, f, width);
}

/// The replies, as they are read.
pub proof fn lemma_replies_read(
    reply: &[u8],
    cmd: Cmd,
    status: Result<DeviceStatus, CodecError>,
    word: Result<u32, CodecError>,
    key: Result<[u8; 8], CodecError>,
    msg: Result<ReadReply<'_>, CodecError>,
)
    ensures
        ({
            let b = reply@;
            let told = b[0] + 256 * b[1];
            let w = b[3] + 256 * b[4] + 65536 * b[5] + 16777216 * b[6];
            &&& call_ensures(status_of, (reply, cmd), status) ==> {
                let sound = b.len() >= 4 && b[0] == 2 && b[1] == 0 && b[2] == opcode(cmd);
                &&& status is Ok <==> sound
                &&& status is Ok ==> status->Ok_0.byte() == b[3]
                &&& status is Err ==> status->Err_0 is MalformedReply
            }
            &&& call_ensures(parse_get_config, (reply,), word) || call_ensures(
                parse_vbatt,
                (reply,),
                word,
            ) ==> {
                &&& word is Ok <==> b.len() >= 7 && b[2] == 0x0e
                &&& word is Ok ==> word->Ok_0 == w
                &&& word is Err ==> word->Err_0 is MalformedReply
            }
            &&& call_ensures(parse_challenge, (reply,), key) ==> {
                &&& key is Ok <==> b.len() >= 11 && b[0] == 9
                &&& key is Ok ==> key->Ok_0@ =~= b.subrange(3, 11)
                &&& key is Err ==> key->Err_0 is MalformedReply
            }
            &&& call_ensures(parse_read_reply, (reply,), msg) ==> {
                &&& msg is Ok <==> b.len() >= 4 && b[2] == 0x09 && (told <= 9 || told + 2
                    <= b.len())
                &&& msg is Ok && told <= 9 ==> msg->Ok_0.msg@.len() == 0
                &&& msg is Ok && told > 9 ==> msg->Ok_0.msg@ =~= b.subrange(11, told + 2)
                &&& msg is Ok && b.len() >= 7 ==> msg->Ok_0.rx_status.word == w
                &&& msg is Err ==> msg->Err_0 is MalformedReply
            }
        }),
{
    lemma_verdict_bytes(reply@, cmd);
    lemma_word_bytes(reply@, "not a GET_CONFIG reply");
    lemma_word_bytes(reply@, "not a READ_VBATT reply");
    lemma_key_bytes(reply@);
    lemma_read_bytes(reply@);
}

/// The key bytes of a K-line init follow the opcode: one fewer than the length
/// field says, or what is there.
pub proof fn lemma_init_read(reply: &[u8], r: Result<Vec<u8>, crate::error::Error>)
    ensures
        call_ensures(parse_init_reply, (reply,), r) ==> {
            let b = reply@;
            let told = b[0] + 256 * b[1];
            &&& r is Ok <==> b.len() >= 3 && b[2] == 0x0e
            &&& r is Ok && told == 0 ==> r->Ok_0@.len() == 0
            &&& r is Ok && told > 0 && told + 2 <= b.len() ==> r->Ok_0@ =~= b.subrange(
                3,
                told + 2,
            )
            &&& r is Ok && told > 0 && told + 2 > b.len() ==> r->Ok_0@ =~= b.skip(3)
            &&& r is Err ==> r->Err_0 is Codec
        },
{
}

/// Frames, as they are made: the length field, the payload and the parity, in
/// the clear or sealed; one that the length field cannot tell is not made.
pub proof fn lemma_frames_made(
    key: &[u8; 8],
    bytes: &[u8],
    r: Result<Vec<u8>, CodecError>,
    x: u8,
)
    requires
        bytes@.len() <= 0x7fff_ffff,
    ensures
        call_ensures(xorsum, (bytes,), x) ==> x == parity(bytes@),
        call_ensures(encode_plain, (bytes,), r) ==> if bytes@.len() + 3 <= 0xffff {
            r is Ok && r->Ok_0@ == in_clear(bytes@)
        } else {
            r == Err::<Vec<u8>, CodecError>(CodecError::TooLong((bytes@.len() + 3) as usize))
        },
        call_ensures(encode_encrypted, (key, bytes), r) ==> if filled_up(bytes@).len() + 3
            <= 0xffff {
            r is Ok && r->Ok_0@ == sealed(key@, bytes@)
        } else {
            r == Err::<Vec<u8>, CodecError>(
                CodecError::TooLong((filled_up(bytes@).len() + 3) as usize),
            )
        },
{
    let b = bytes@;
    lemma_parity(b);
    lemma_in_clear(b);
    lemma_sealed(key@, b);
    assert(crate::codec::frame::whole_blocks(b.len()) == filled_up(b).len());
}

/// A frame in the clear, as it is opened, and the error for each thing that is
/// wrong with it.
pub proof fn lemma_plain_opened(bytes: &[u8], opened: Result<&[u8], CodecError>)
    ensures
        call_ensures(decode_plain, (bytes,), opened) ==> {
            let b = bytes@;
            let n = b.len();
            let told = b[0] + 256 * b[1];
            if n < 3 {
                opened is Err && opened->Err_0 == CodecError::TooShort(n as usize)
            } else if told != n {
                opened is Err && opened->Err_0 == (CodecError::LengthMismatch {
                    field: told as usize,
                    actual: n as usize,
                })
            } else if b.last() != parity(b.drop_last()) {
                opened is Err && opened->Err_0 == (CodecError::BadChecksum {
                    wire: b.last(),
                    computed: parity(b.drop_last()),
                })
            } else {
                opened is Ok && opened->Ok_0@ == b.subrange(2, n - 1)
            }
        },
{
    if bytes@.len() >= 3 {
        lemma_parity(bytes@.drop_last());
    }
}

/// A sealed frame, as it is opened: either parity will do, of the frame as it is
/// or in the clear.
pub proof fn lemma_sealed_opened(key: &[u8; 8], bytes: &[u8], r: Result<Vec<u8>, CodecError>)
    ensures
        call_ensures(decode_encrypted, (key, bytes), r) ==> {
            let b = bytes@;
            let n = b.len();
            let told = b[0] + 256 * b[1];
            let plain = out_of_cipher(key@, b.subrange(2, n - 1));
            if n < 3 {
                r is Err && r->Err_0 == CodecError::TooShort(n as usize)
            } else if told != n {
                r is Err && r->Err_0 == (CodecError::LengthMismatch {
                    field: told as usize,
                    actual: n as usize,
                })
            } else if n == 3 || n % 8 != 3 {
                r is Err && r->Err_0 == CodecError::BadCipherLength((n - 3) as usize)
            } else if b.last() == parity(b.drop_last()) || b.last() == parity(
                b.take(2) + plain,
            ) {
                r is Ok && r->Ok_0@ == plain
            } else {
                r is Err && r->Err_0 is BadEncryptedChecksum
            }
        },
{
    let b = bytes@;
    let n = b.len();
    let told = b[0] + 256 * b[1];
    if n > 3 && told == n && n % 8 == 3 {
        lemma_byte_orders(n, 0, 0);
        assert(b.take(2) =~= low_first(n, 2));
        lemma_unsealed(key@, b);
    }
}

/// The cipher works block by block, and each way undoes the other.
pub proof fn lemma_cipher_calls(key: &[u8; 8])
    ensures
        forall|buf: &mut [u8]| #[trigger]
            call_ensures(encrypt_in_place, (key, buf), ()) ==> {
                &&& (*final(buf))@ =~= in_cipher(key@, (*buf)@)
                &&& out_of_cipher(key@, (*final(buf))@) =~= (*buf)@
            },
        forall|buf: &mut [u8]| #[trigger]
            call_ensures(decrypt_in_place, (key, buf), ()) ==> {
                &&& (*final(buf))@ =~= out_of_cipher(key@, (*buf)@)
                &&& in_cipher(key@, (*final(buf))@) =~= (*buf)@
            },
{
    assert forall|s: Seq<u8>|
        {
            &&& #[trigger] crate::codec::crypto::encrypted(key@, s) == in_cipher(key@, s)
            &&& crate::codec::crypto::decrypted(key@, s) == out_of_cipher(key@, s)
        } by {
        let a = crate::codec::crypto::encrypted(key@, s);
        let d = crate::codec::crypto::decrypted(key@, s);
        assert forall|i: int| 0 <= i < s.len() implies a[i] == in_cipher(key@, s)[i] && d[i]
            == out_of_cipher(key@, s)[i] by {
            assert(8 * (i / 8) == i - i % 8);
        }
        assert(a =~= in_cipher(key@, s));
        assert(d =~= out_of_cipher(key@, s));
    }
    assert forall|s: Seq<u8>| #[trigger]
        crate::codec::crypto::decrypted(key@, s) == out_of_cipher(key@, s) by {
        assert(crate::codec::crypto::encrypted(key@, s) == in_cipher(key@, s));
    }
}

/// A deframer gives out whole frames, as long as their first two bytes say, and
/// keeps the rest; a length below 3 or above 4115 is an error and changes
/// nothing.
pub proof fn lemma_deframer_calls(
    bytes: &[u8],
    fresh: Deframer,
    n: usize,
    r: Result<Option<Vec<u8>>, CodecError>,
)
    ensures
        call_ensures(Deframer::new, (), fresh) ==> fresh@.len() == 0,
        call_ensures(Deframer::pending, (&fresh,), n) ==> n == fresh@.len(),
        forall|d: &mut Deframer| #[trigger]
            call_ensures(Deframer::push, (d, bytes), ()) ==> (*final(d))@ == (*d)@ + bytes@,
        forall|d: &mut Deframer| #[trigger]
            call_ensures(Deframer::clear, (d,), ()) ==> (*final(d))@.len() == 0,
        forall|d: &mut Deframer| #[trigger]
            call_ensures(Deframer::next_frame, (d,), r) ==> {
                let s = (*d)@;
                let told = s[0] + 256 * s[1];
                if s.len() < 2 || (3 <= told <= 4115 && s.len() < told) {
                    r is Ok && r->Ok_0 is None && (*final(d))@ == s
                } else if told < 3 {
                    r == Err::<Option<Vec<u8>>, CodecError>(CodecError::TooShort(told as usize))
                        && (*final(d))@ == s
                } else if told > 4115 {
                    r == Err::<Option<Vec<u8>>, CodecError>(CodecError::TooLong(told as usize))
                        && (*final(d))@ == s
                } else {
                    &&& r is Ok && r->Ok_0 is Some
                    &&& r->Ok_0->0@ == s.take(told)
                    &&& (*final(d))@ == s.skip(told)
                }
            },
{
}

/// Numbers go in and out of bytes in the order said; copies are copies.
pub proof fn lemma_byte_calls(
    v: u32,
    u: u16,
    n: usize,
    b: u8,
    s: &[u8],
    t: &[u8],
    from: usize,
    to: usize,
    out: Vec<u8>,
    same: bool,
    read: usize,
    word: u32,
)
    ensures
        forall|o: &mut Vec<u8>| #[trigger]
            call_ensures(push_le16, (o, n), ()) ==> (*final(o))@ == (*o)@ + low_first(n as nat, 2),
        forall|o: &mut Vec<u8>| #[trigger]
            call_ensures(push_le32, (o, v), ()) ==> (*final(o))@ == (*o)@ + low_first(v as nat, 4),
        forall|o: &mut Vec<u8>| #[trigger]
            call_ensures(push_be32, (o, v), ()) ==> (*final(o))@ == (*o)@ + high_first(
                v as nat,
                4,
            ),
        forall|o: &mut Vec<u8>| #[trigger]
            call_ensures(push_be16, (o, u), ()) ==> (*final(o))@ == (*o)@ + high_first(
                u as nat,
                2,
            ),
        forall|o: &mut Vec<u8>| #[trigger]
            call_ensures(push_all, (o, s), ()) ==> (*final(o))@ == (*o)@ + s@,
        forall|o: &mut Vec<u8>| #[trigger]
            call_ensures(push_repeated, (o, b, n), ()) ==> (*final(o))@ =~= (*o)@ + Seq::new(
                n as nat,
                |i: int| b,
            ),
        call_ensures(copy_range, (s, from, to), out) ==> out@ == s@.subrange(
            from as int,
            to as int,
        ),
        call_ensures(copy_all, (s,), out) ==> out@ == s@,
        call_ensures(same_bytes, (s, t), same) ==> same == (s@ == t@),
        call_ensures(rd_u16, (s,), read) ==> read == s@[0] + 256 * s@[1],
        call_ensures(rd_u32, (s, from), word) ==> word == s@[from as int] + 256 * s@[from + 1]
            + 65536 * s@[from + 2] + 16777216 * s@[from + 3],
{
    lemma_byte_orders(n as nat, v, u);
}

/// Protocols, opcodes, statuses and filter types have the numbers that the wire
/// knows them by.
pub proof fn lemma_numbers_called(
    v: u32,
    p: ProtocolId,
    made: Result<ProtocolId, InvalidProtocolId>,
    n: u32,
    can: bool,
    cmd: Cmd,
    op: u8,
    st: DeviceStatus,
    f: FilterType,
)
    ensures
        call_ensures(ProtocolId::from_id, (v,), made) ==> {
            &&& made is Ok <==> 1 <= v <= 6 || v == 0x1000_0001
            &&& made is Ok ==> number(made->Ok_0) == if v == 0x1000_0001 {
                6
            } else {
                v as nat
            }
            &&& made is Err ==> made->Err_0 == InvalidProtocolId(v)
        },
        call_ensures(ProtocolId::wire, (p,), n) ==> n == number(p),
        call_ensures(ProtocolId::is_can, (p,), can) ==> can == (number(p) >= 5),
        call_ensures(Cmd::code, (cmd,), op) ==> op == opcode(cmd),
        call_ensures(DeviceStatus::from_byte, (op,), st) ==> st.byte() == op && (st is Unknown
            ==> op != 0),
        call_ensures(DeviceStatus::code, (st,), op) ==> op == st.byte(),
        call_ensures(DeviceStatus::is_ok, (st,), can) ==> can == (st == DeviceStatus::NoError),
        call_ensures(FilterType::wire, (f,), n) ==> n == match f {
            FilterType::Pass => 1u32,
            FilterType::Block => 2,
            FilterType::FlowControl => 3,
        },
{
}

/// Flags are kept bit by bit. A message is no data exactly when bit 1 of its
/// status is set.
pub proof fn lemma_flags_called(
    v: u32,
    w: u32,
    s: RxStatus,
    t: TxFlags,
    u: TxFlags,
    has: bool,
    m: RxMsg,
    bit: u32,
)
    requires
        bit < 32,
    ensures
        call_ensures(RxStatus::from_bits_retain, (v,), s) ==> s.word == v,
        call_ensures(RxStatus::empty, (), s) ==> s.word == 0,
        call_ensures(RxStatus::bits, (s,), w) ==> w == s.word,
        call_ensures(RxStatus::contains, (s, 1u32 << bit), has) ==> has == (s.word & (1u32 << bit)
            != 0),
        call_ensures(TxFlags::from_bits_retain, (v,), t) ==> t.word == v,
        call_ensures(TxFlags::bits, (t,), w) ==> w == t.word,
        call_ensures(TxFlags::default, (), t) ==> t.word == 0,
        call_ensures(TxFlags::with, (t, v), u) ==> (u.word & (1u32 << bit) != 0) == (t.word & (1u32
            << bit) != 0 || v & (1u32 << bit) != 0),
        call_ensures(RxMsg::is_indication, (&m,), has) ==> has == (m.rx_status.word & 2 != 0),
{
    let a = s.word;
    assert(a & (1u32 << bit) == 1u32 << bit || a & (1u32 << bit) == 0) by (bit_vector)
        requires
            bit < 32,
    ;
    assert(1u32 << bit != 0) by (bit_vector)
        requires
            bit < 32,
    ;
    let x = t.word;
    assert(((x | v) & (1u32 << bit) != 0) == (x & (1u32 << bit) != 0 || v & (1u32 << bit) != 0))
        by (bit_vector)
        requires
            bit < 32,
    ;
    let y = m.rx_status.word;
    assert(y & 2 == 2 || y & 2 == 0) by (bit_vector);
}

} // verus!
