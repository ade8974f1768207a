//! The commands and the replies, byte by byte.

use vstd::prelude::*;

use super::wire::{channel_word, lemma_byte_orders, lemma_ordered, low_first, number, ordered};
use crate::bytes::{le32, repeated};
use crate::codec::deframe::{after_frame, leading_frame};
use crate::codec::inner::{
    challenge_key, clear_periodic_cmd, command, connect_cmd, disconnect_cmd, fast_init_cmd,
    five_baud_init_cmd, get_config_cmd, identify_cmd, ioctl_word, read_poll_cmd, read_reply,
    read_vbatt_cmd, read_version_cmd, reply_status, session_close_cmd, set_config_cmd,
    set_programming_voltage_cmd, start_filter_cmd, start_periodic_cmd, stop_filter_cmd,
    stop_periodic_cmd, write_msg_cmd,
};
use crate::error::CodecError;
use crate::types::{protocol_of, status_from, Cmd, ProtocolId};

verus! {

/// The commands that carry no message, byte by byte.
pub proof fn lemma_plain_commands(p: ProtocolId, flags: u32, baud: u32, pin: u32, mv: u32)
    ensures
        identify_cmd() == seq![7u8, 0, 0x01, 0x4d, 0x56, 0x43, 0x49, 0x2d, 0x54],
        read_version_cmd() == seq![1u8, 0, 0x03],
        session_close_cmd() == seq![1u8, 0, 0x02, 0, 0, 0, 0, 0],
        connect_cmd(p, flags, baud) == seq![13u8, 0, 0x07] + channel_word(p) + low_first(
            flags as nat,
            4,
        ) + low_first(baud as nat, 4),
        disconnect_cmd(p) == seq![5u8, 0, 0x08] + channel_word(p) + seq![0u8],
        read_poll_cmd(p) == seq![5u8, 0, 0x09] + channel_word(p) + seq![0u8],
        set_programming_voltage_cmd(pin, mv) == seq![9u8, 0, 0x0d] + low_first(pin as nat, 4)
            + low_first(mv as nat, 4),
{
    lemma_ordered(Cmd::Connect, Seq::empty(), p);
    lemma_byte_orders(0, flags, 0);
    lemma_byte_orders(0, baud, 0);
    lemma_byte_orders(0, pin, 0);
    lemma_byte_orders(0, mv, 0);
    assert(identify_cmd() =~= seq![7u8, 0, 0x01, 0x4d, 0x56, 0x43, 0x49, 0x2d, 0x54]);
    assert(read_version_cmd() =~= seq![1u8, 0, 0x03]);
    assert(session_close_cmd() =~= seq![1u8, 0, 0x02, 0, 0, 0, 0, 0]);
    assert(connect_cmd(p, flags, baud) =~= seq![13u8, 0, 0x07] + channel_word(p) + low_first(
        flags as nat,
        4,
    ) + low_first(baud as nat, 4));
    assert(disconnect_cmd(p) =~= seq![5u8, 0, 0x08] + channel_word(p) + seq![0u8]);
    assert(read_poll_cmd(p) =~= seq![5u8, 0, 0x09] + channel_word(p) + seq![0u8]);
    assert(set_programming_voltage_cmd(pin, mv) =~= seq![9u8, 0, 0x0d] + low_first(pin as nat, 4)
        + low_first(mv as nat, 4));
}

/// The commands about messages and filters, byte by byte.
pub proof fn lemma_message_commands(
    p: ProtocolId,
    flags: u32,
    msg: Seq<u8>,
    id: u32,
    interval: u32,
)
    ensures
        write_msg_cmd(p, flags, msg) == ordered(
            0x0a,
            channel_word(p) + low_first(flags as nat, 4) + msg,
        ),
        start_periodic_cmd(p, id, flags, interval, msg) == ordered(
            0x0f,
            channel_word(p) + low_first(id as nat, 4) + low_first(flags as nat, 4) + low_first(
                interval as nat,
                4,
            ) + msg,
        ),
        stop_periodic_cmd(p, id) == ordered(
            0x10,
            channel_word(p) + low_first(id as nat, 4) + seq![0u8, 0, 0, 0],
        ),
        stop_filter_cmd(p, id) == ordered(
            0x0c,
            channel_word(p) + low_first(id as nat, 4) + seq![0u8, 0, 0, 0],
        ),
{
    lemma_byte_orders(0, flags, 0);
    lemma_byte_orders(0, id, 0);
    lemma_byte_orders(0, interval, 0);
    lemma_ordered(Cmd::WriteMsg, channel_word(p) + low_first(flags as nat, 4) + msg, p);
    lemma_ordered(
        Cmd::StartPeriodicMsg,
        channel_word(p) + low_first(id as nat, 4) + low_first(flags as nat, 4) + low_first(
            interval as nat,
            4,
        ) + msg,
        p,
    );
    let stop = channel_word(p) + low_first(id as nat, 4) + seq![0u8, 0, 0, 0];
    assert(le32(0) =~= seq![0u8, 0, 0, 0]);
    lemma_ordered(Cmd::StopPeriodicMsg, stop, p);
    lemma_ordered(Cmd::StopMsgFilter, stop, p);
}

/// The IOCTLs, byte by byte: the sub-function follows the opcode.
pub proof fn lemma_ioctl_commands(p: ProtocolId, param: u32, value: u32, init: Seq<u8>)
    ensures
        get_config_cmd(p, param) == ordered(
            0x0e,
            seq![0x01u8] + channel_word(p) + low_first(param as nat, 4),
        ),
        set_config_cmd(p, param, value) == ordered(
            0x0e,
            seq![0x02u8] + channel_word(p) + low_first(param as nat, 4) + low_first(
                value as nat,
                4,
            ),
        ),
        read_vbatt_cmd(p) == ordered(0x0e, seq![0x03u8] + channel_word(p)),
        five_baud_init_cmd(p, init) == ordered(0x0e, seq![0x04u8] + channel_word(p) + init),
        fast_init_cmd(p, init) == ordered(0x0e, seq![0x05u8] + channel_word(p) + init),
        clear_periodic_cmd(p) == ordered(0x0e, seq![0x09u8] + channel_word(p)),
{
    lemma_byte_orders(0, param, 0);
    lemma_byte_orders(0, value, 0);
    let none = Seq::<u8>::empty();
    let w = channel_word(p);
    assert(seq![0x03u8] + w + none =~= seq![0x03u8] + w);
    assert(seq![0x09u8] + w + none =~= seq![0x09u8] + w);
    let both = low_first(param as nat, 4) + low_first(value as nat, 4);
    assert(seq![0x02u8] + w + both =~= seq![0x02u8] + w + low_first(param as nat, 4) + low_first(
        value as nat,
        4,
    ));
    lemma_ordered(Cmd::Ioctl, seq![0x01u8] + w + low_first(param as nat, 4), p);
    lemma_ordered(Cmd::Ioctl, seq![0x02u8] + w + both, p);
    lemma_ordered(Cmd::Ioctl, seq![0x03u8] + w, p);
    lemma_ordered(Cmd::Ioctl, seq![0x04u8] + w + init, p);
    lemma_ordered(Cmd::Ioctl, seq![0x05u8] + w + init, p);
    lemma_ordered(Cmd::Ioctl, seq![0x09u8] + w, p);
}

/// A filter command holds the filter's id and type, and then the mask, the
/// pattern and the flow-control identifier, each cut to the same width, the last
/// zero where there is none. It is refused exactly when the width is none of 1,
/// 4 and 5, or 1 on CAN, or a field is shorter than the width.
pub proof fn lemma_filter_command(
    p: ProtocolId,
    id: u32,
    ftype: u32,
    mask: Seq<u8>,
    pattern: Seq<u8>,
    flow: Option<Seq<u8>>,
    width: usize,
)
    ensures
        ({
            let can = p == ProtocolId::Can || p == ProtocolId::Iso15765;
            let wide = width == 4 || width == 5 || (width == 1 && !can);
            let n = width as int;
            let all = channel_word(p) + low_first(id as nat, 4) + low_first(ftype as nat, 4)
                + mask.take(n) + pattern.take(n);
            let r = start_filter_cmd(p, id, ftype, mask, pattern, flow, width);
            if !wide {
                r == Err::<Seq<u8>, CodecError>(CodecError::BadIdLen { proto: p, idlen: width })
            } else if mask.len() < n || pattern.len() < n || (flow is Some && flow->0.len() < n) {
                r matches Err(e) && e is FilterFieldTooShort
            } else {
                &&& flow matches Some(f) ==> r == Ok::<Seq<u8>, CodecError>(
                    ordered(0x0b, all + f.take(n)),
                )
                &&& flow is None ==> r == Ok::<Seq<u8>, CodecError>(
                    ordered(0x0b, all + Seq::new(width as nat, |i: int| 0u8)),
                )
            }
        }),
{
    let n = width as int;
    let all = channel_word(p) + low_first(id as nat, 4) + low_first(ftype as nat, 4)
        + mask.take(n) + pattern.take(n);
    lemma_byte_orders(0, id, 0);
    lemma_byte_orders(0, ftype, 0);
    lemma_ordered(Cmd::StartMsgFilter, all + repeated(0, width as nat), p);
    assert(repeated(0, width as nat) =~= Seq::new(width as nat, |i: int| 0u8));
    if let Some(f) = flow {
        lemma_ordered(Cmd::StartMsgFilter, all + f.take(n), p);
    }
}

/// The ProtocolIDs, the vendor's alias included; nothing else is one.
pub proof fn lemma_protocol_numbers(v: u32, p: ProtocolId)
    ensures
        protocol_of(v) is Ok <==> 1 <= v <= 6 || v == 0x1000_0001,
        protocol_of(v) matches Ok(q) ==> number(q) == if v == 0x1000_0001 {
            6
        } else {
            v as nat
        },
        protocol_of(p.id()) == Ok::<ProtocolId, crate::error::InvalidProtocolId>(p),
        p.id() == number(p),
        p.can_framed() <==> p == ProtocolId::Can || p == ProtocolId::Iso15765,
{
}

/// A reply tells how a command ended by its fourth byte, zero for success, if it
/// is two long and names the command.
pub proof fn lemma_verdict_bytes(reply: Seq<u8>, cmd: Cmd)
    ensures
        ({
            let sound = reply.len() >= 4 && reply[0] == 2 && reply[1] == 0 && reply[2]
                == super::wire::opcode(cmd);
            match reply_status(reply, cmd) {
                Ok(status) => {
                    &&& sound
                    &&& status.byte() == reply[3]
                    &&& status is NoError <==> reply[3] == 0
                },
                Err(e) => !sound && e is MalformedReply,
            }
        }),
{
}

/// A status is known by the byte it came in.
pub proof fn lemma_status_bytes(b: u8, c: u8)
    ensures
        status_from(b) == status_from(c) ==> b == c,
        status_from(b) is NoError <==> b == 0x00,
        status_from(b) is NotSupported <==> b == 0x01,
        status_from(b) is InvalidChannelId <==> b == 0x02,
        status_from(b) is NullParameter <==> b == 0x04,
        status_from(b) is Failed <==> b == 0x07,
        status_from(b) is DeviceNotConnected <==> b == 0x08,
        status_from(b) is Timeout <==> b == 0x09,
        status_from(b) is InvalidMsg <==> b == 0x0a,
        status_from(b) is InvalidMsgId <==> b == 0x0d,
        status_from(b) is BufferEmpty <==> b == 0x10,
        status_from(b) is BufferFull <==> b == 0x11,
        status_from(b) is ChannelInUse <==> b == 0x14,
        status_from(b) is InvalidFilterId <==> b == 0x16,
        status_from(b) is InvalidDeviceId <==> b == 0x1a,
{
}

/// A read reply holds a message where its length field says more than nine: the
/// status word from byte 3, the message from byte 11, as long as the field says
/// less nine.
pub proof fn lemma_read_bytes(reply: Seq<u8>)
    ensures
        ({
            let told = reply[0] + 256 * reply[1];
            let word = reply[3] + 256 * reply[4] + 65536 * reply[5] + 16777216 * reply[6];
            let sound = reply.len() >= 4 && reply[2] == 0x09;
            let fits = told <= 9 || told + 2 <= reply.len();
            match read_reply(reply) {
                Ok((status, msg)) => {
                    &&& sound && fits
                    &&& status.word == if reply.len() >= 7 {
                        word
                    } else {
                        reply[3] as int
                    }
                    &&& msg.len() == if told <= 9 {
                        0
                    } else {
                        told - 9
                    }
                    &&& forall|i: int| 0 <= i < msg.len() ==> #[trigger] msg[i] == reply[11 + i]
                },
                Err(e) => !(sound && fits) && e is MalformedReply,
            }
        }),
{
}

/// A word that an IOCTL answers with stands in bytes 3 to 6, the lowest first,
/// after the opcode.
pub proof fn lemma_word_bytes(reply: Seq<u8>, complaint: &'static str)
    ensures
        ({
            let sound = reply.len() >= 7 && reply[2] == 0x0e;
            match ioctl_word(reply, complaint) {
                Ok(v) => sound && v == reply[3] + 256 * reply[4] + 65536 * reply[5] + 16777216
                    * reply[6],
                Err(e) => !sound && e == CodecError::MalformedReply(complaint),
            }
        }),
{
}

/// The key is the eight bytes from the fourth on, of a challenge that begins
/// with nine.
pub proof fn lemma_key_bytes(payload: Seq<u8>)
    ensures
        ({
            let sound = payload.len() >= 11 && payload[0] == 9;
            match challenge_key(payload) {
                Ok(key) => sound && key.len() == 8 && forall|i: int|
                    0 <= i < 8 ==> #[trigger] key[i] == payload[3 + i],
                Err(e) => !sound && e is MalformedReply,
            }
        }),
{
}

/// A stream gives its first frame up as soon as it is whole, and keeps every
/// byte until then; a length below 3 or above 4115 is an error.
pub proof fn lemma_stream_bytes(s: Seq<u8>)
    ensures
        ({
            let told = s[0] + 256 * s[1];
            if s.len() < 2 {
                leading_frame(s) == Ok::<Option<Seq<u8>>, CodecError>(None) && after_frame(s) == s
            } else if told < 3 || told > 4115 {
                leading_frame(s) is Err && after_frame(s) == s
            } else if s.len() < told {
                leading_frame(s) == Ok::<Option<Seq<u8>>, CodecError>(None) && after_frame(s) == s
            } else {
                &&& leading_frame(s) == Ok::<Option<Seq<u8>>, CodecError>(Some(s.take(told)))
                &&& after_frame(s) == s.skip(told)
            }
        }),
{
}

} // verus!
