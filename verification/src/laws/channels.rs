//! What the operations on a device and its channels ask of the adapter, command
//! by command, and what they make of the answers.

use vstd::prelude::*;

use super::codec::{
    lemma_filter_command, lemma_ioctl_commands, lemma_message_commands, lemma_plain_commands,
    lemma_read_bytes, lemma_verdict_bytes, lemma_word_bytes,
};
use super::exchange::{lemma_exchange_on_wire, ms};
use super::wire::{
    channel_word, high_first, lemma_byte_orders, low_first, number, opcode, ordered, sealed,
};
use crate::error::{CodecError, Error, IsoTpError};
use crate::session::actor::Session;
use crate::session::channel::{Channel, TypedState};
use crate::session::device::Device;
use crate::session::laws::writes_of;
use crate::session::link::handshake;
use crate::session::protocol::{
    Can, CanConfig, CanFilter, CanFramed, CanId, ChannelConfig, FilterFields, FilterSpec,
    FlowControlFilter, Iso14230, Iso15765, Iso9141, KLine, KLineConfig, KLineFilter, Protocol,
};
use crate::session::raw::RawChannel;
use crate::time::Duration;
use crate::transport::Transport;
use crate::types::{Cmd, FilterType, ProtocolId, RxMsg, RxMsgView, TxFlags};

verus! {

/// How a command ends that the adapter answers with a status: as the exchange
/// if that fails, refused if the answer is no status of that command, and
/// otherwise well exactly when the status byte is zero.
pub open spec fn ends_as(r: Result<(), Error>, answer: Result<Seq<u8>, Error>, op: u8) -> bool {
    match answer {
        Err(e) => r == Err::<(), Error>(e),
        Ok(reply) => if reply.len() >= 4 && reply[0] == 2 && reply[1] == 0 && reply[2] == op {
            if reply[3] == 0 {
                r is Ok
            } else {
                &&& r is Err && r->Err_0 is Rejected
                &&& opcode(r->Err_0->Rejected_cmd) == op
                &&& r->Err_0->Rejected_status.byte() == reply[3]
            }
        } else {
            r is Err && r->Err_0 is Codec
        },
    }
}

/// Whether `s1` and `r` are what comes of one exchange of the command `inner`,
/// with `wait` milliseconds for the answer.
pub open spec fn asked(
    s: Session,
    s1: Session,
    r: Result<(), Error>,
    inner: Seq<u8>,
    wait: nat,
    op: u8,
) -> bool {
    let (answer, after) = s.on_transact(inner, ms(wait));
    s1 == after && ends_as(r, answer, op)
}

pub proof fn lemma_status_exchange(s: Session, inner: Seq<u8>, cmd: Cmd, wait: nat)
    ensures
        ({
            let (r, s1) = s.on_status(inner, cmd, ms(wait));
            asked(s, s1, r, inner, wait, opcode(cmd))
        }),
{
    if let (Ok(reply), _) = s.on_transact(inner, ms(wait)) {
        lemma_verdict_bytes(reply, cmd);
    }
}

/// The arguments of a WriteMsg command: the channel, the flags, the message.
pub open spec fn write_order(p: ProtocolId, flags: u32, msg: Seq<u8>) -> Seq<u8> {
    ordered(0x0a, channel_word(p) + low_first(flags as nat, 4) + msg)
}

/// A write asks for exactly the message and the flags that it was given. A
/// message that the protocol cannot take, or that the firmware could not
/// announce, is refused and nothing is asked.
pub proof fn lemma_write_asks(s: Session, p: ProtocolId, flags: u32, msg: Seq<u8>)
    ensures
        ({
            let (r, s1) = s.write(p, flags, msg);
            let least = match p {
                ProtocolId::Can | ProtocolId::Iso15765 => 4int,
                _ => 1int,
            };
            let most = match p {
                ProtocolId::J1850Vpw => 12int,
                ProtocolId::J1850Pwm => 11,
                ProtocolId::Iso9141 => 64,
                ProtocolId::Iso14230 => 64,
                ProtocolId::Can => 12,
                ProtocolId::Iso15765 => 4100,
            };
            if msg.len() < least || msg.len() > most {
                s1 == s && r == Err::<(), Error>(
                    Error::Codec(CodecError::MsgTooLong(msg.len() as usize)),
                )
            } else if p == ProtocolId::Iso15765 && msg.len() > 259 {
                s1 == s && r == Err::<(), Error>(
                    Error::IsoTp(IsoTpError::FirmwareFfDlLimit((msg.len() - 4) as usize)),
                )
            } else {
                asked(s, s1, r, write_order(p, flags, msg), 1000, 0x0a)
            }
        }),
{
    lemma_message_commands(p, flags, msg, 0, 0);
    lemma_status_exchange(s, write_order(p, flags, msg), Cmd::WriteMsg, 1000);
}

/// Every write on a channel asks that on the channel's own protocol.
pub proof fn lemma_writes<T: Transport>(flags: u32, msg: &[u8], r: Result<(), Error>)
    ensures
        forall|c: &mut RawChannel, dev: &mut Device<T>| #[trigger]
            call_ensures(RawChannel::write::<T>, (c, dev, flags, msg), r) ==> {
                &&& (*final(c))@ == (*c)@
                &&& (*final(dev)).setup() == (*dev).setup()
                &&& (r, (*final(dev))@) == (*dev)@.write((*c)@.proto, flags, msg@)
            },
{
}

/// Filters, configuration, periodic messages, as a raw channel asks for them.
pub proof fn lemma_raw_orders<T: Transport>(
    id: u32,
    ftype: u32,
    mask: &[u8],
    pattern: &[u8],
    flow: Option<&[u8]>,
    width: usize,
    param: u32,
    value: u32,
    flags: u32,
    interval: u32,
    msg: &[u8],
    r: Result<(), Error>,
)
    ensures
        forall|c: &mut RawChannel, dev: &mut Device<T>| #[trigger]
            call_ensures(
                RawChannel::start_filter::<T>,
                (c, dev, id, ftype, mask, pattern, flow, width),
                r,
            ) ==> {
                let f = match flow {
                    Some(f) => Some(f@),
                    None => None,
                };
                &&& (r, (*final(dev))@) == (*dev)@.start_filter(
                    (*c)@.proto,
                    id,
                    ftype,
                    mask@,
                    pattern@,
                    f,
                    width,
                )
                &&& (*final(c))@.proto == (*c)@.proto
                &&& r is Err ==> (*final(c))@.nfilters == (*c)@.nfilters
                &&& r is Ok && (*c)@.nfilters < usize::MAX ==> (*final(c))@.nfilters
                    == (*c)@.nfilters + 1
            },
        forall|c: &mut RawChannel, dev: &mut Device<T>| #[trigger]
            call_ensures(RawChannel::stop_filter::<T>, (c, dev, id), r) ==> {
                &&& (*final(c))@.proto == (*c)@.proto
                &&& r is Err ==> (*final(c))@.nfilters == (*c)@.nfilters
                &&& r is Ok && (*c)@.nfilters > 0 ==> (*final(c))@.nfilters == (*c)@.nfilters - 1
                &&& asked(
                    (*dev)@,
                    (*final(dev))@,
                    r,
                    ordered(
                        0x0c,
                        channel_word((*c)@.proto) + low_first(id as nat, 4) + seq![0u8, 0, 0, 0],
                    ),
                    2000,
                    0x0c,
                )
            },
        forall|c: &mut RawChannel, dev: &mut Device<T>| #[trigger]
            call_ensures(RawChannel::set_config::<T>, (c, dev, param, value), r) ==> asked(
                (*dev)@,
                (*final(dev))@,
                r,
                ordered(
                    0x0e,
                    seq![0x02u8] + channel_word((*c)@.proto) + low_first(param as nat, 4)
                        + low_first(value as nat, 4),
                ),
                2000,
                0x0e,
            ),
        forall|c: &mut RawChannel, dev: &mut Device<T>| #[trigger]
            call_ensures(RawChannel::stop_periodic::<T>, (c, dev, id), r) ==> asked(
                (*dev)@,
                (*final(dev))@,
                r,
                ordered(
                    0x10,
                    channel_word((*c)@.proto) + low_first(id as nat, 4) + seq![0u8, 0, 0, 0],
                ),
                2000,
                0x10,
            ),
        forall|c: &mut RawChannel, dev: &mut Device<T>| #[trigger]
            call_ensures(RawChannel::clear_periodic::<T>, (c, dev), r) ==> asked(
                (*dev)@,
                (*final(dev))@,
                r,
                ordered(0x0e, seq![0x09u8] + channel_word((*c)@.proto)),
                1000,
                0x0e,
            ),
        forall|c: &mut RawChannel, dev: &mut Device<T>| #[trigger]
            call_ensures(
                RawChannel::start_periodic::<T>,
                (c, dev, id, flags, interval, msg),
                r,
            ) ==> if msg@.len() >= 13 {
                (*final(dev))@ == (*dev)@ && r == Err::<(), Error>(
                    Error::Codec(CodecError::MsgTooLong(msg@.len() as usize)),
                )
            } else {
                asked(
                    (*dev)@,
                    (*final(dev))@,
                    r,
                    ordered(
                        0x0f,
                        channel_word((*c)@.proto) + low_first(id as nat, 4) + low_first(
                            flags as nat,
                            4,
                        ) + low_first(interval as nat, 4) + msg@,
                    ),
                    2000,
                    0x0f,
                )
            },
{
    assert forall|c: &mut RawChannel, dev: &mut Device<T>| #[trigger]
        call_ensures(RawChannel::stop_filter::<T>, (c, dev, id), r) implies asked(
        (*dev)@,
        (*final(dev))@,
        r,
        ordered(
            0x0c,
            channel_word((*c)@.proto) + low_first(id as nat, 4) + seq![0u8, 0, 0, 0],
        ),
        2000,
        0x0c,
    ) by {
        let p = (*c)@.proto;
        lemma_message_commands(p, flags, msg@, id, interval);
        lemma_status_exchange(
            (*dev)@,
            crate::codec::inner::stop_filter_cmd(p, id),
            Cmd::StopMsgFilter,
            2000,
        );
    }
    assert forall|c: &mut RawChannel, dev: &mut Device<T>| #[trigger]
        call_ensures(RawChannel::set_config::<T>, (c, dev, param, value), r) implies asked(
        (*dev)@,
        (*final(dev))@,
        r,
        ordered(
            0x0e,
            seq![0x02u8] + channel_word((*c)@.proto) + low_first(param as nat, 4) + low_first(
                value as nat,
                4,
            ),
        ),
        2000,
        0x0e,
    ) by {
        let p = (*c)@.proto;
        lemma_ioctl_commands(p, param, value, msg@);
        lemma_status_exchange(
            (*dev)@,
            crate::codec::inner::set_config_cmd(p, param, value),
            Cmd::Ioctl,
            2000,
        );
    }
    assert forall|c: &mut RawChannel, dev: &mut Device<T>| #[trigger]
        call_ensures(RawChannel::stop_periodic::<T>, (c, dev, id), r) implies asked(
        (*dev)@,
        (*final(dev))@,
        r,
        ordered(
            0x10,
            channel_word((*c)@.proto) + low_first(id as nat, 4) + seq![0u8, 0, 0, 0],
        ),
        2000,
        0x10,
    ) by {
        let p = (*c)@.proto;
        lemma_message_commands(p, flags, msg@, id, interval);
        lemma_status_exchange(
            (*dev)@,
            crate::codec::inner::stop_periodic_cmd(p, id),
            Cmd::StopPeriodicMsg,
            2000,
        );
    }
    assert forall|c: &mut RawChannel, dev: &mut Device<T>| #[trigger]
        call_ensures(RawChannel::clear_periodic::<T>, (c, dev), r) implies asked(
        (*dev)@,
        (*final(dev))@,
        r,
        ordered(0x0e, seq![0x09u8] + channel_word((*c)@.proto)),
        1000,
        0x0e,
    ) by {
        let p = (*c)@.proto;
        lemma_ioctl_commands(p, param, value, msg@);
        lemma_status_exchange(
            (*dev)@,
            crate::codec::inner::clear_periodic_cmd(p),
            Cmd::Ioctl,
            1000,
        );
    }
    assert forall|c: &mut RawChannel, dev: &mut Device<T>| #[trigger]
        call_ensures(
            RawChannel::start_periodic::<T>,
            (c, dev, id, flags, interval, msg),
            r,
        ) && msg@.len() < 13 implies asked(
        (*dev)@,
        (*final(dev))@,
        r,
        ordered(
            0x0f,
            channel_word((*c)@.proto) + low_first(id as nat, 4) + low_first(flags as nat, 4)
                + low_first(interval as nat, 4) + msg@,
        ),
        2000,
        0x0f,
    ) by {
        let p = (*c)@.proto;
        lemma_message_commands(p, flags, msg@, id, interval);
        lemma_status_exchange(
            (*dev)@,
            crate::codec::inner::start_periodic_cmd(p, id, flags, interval, msg@),
            Cmd::StartPeriodicMsg,
            2000,
        );
    }
}

/// What a filter asks for: the fields cut to the width.
pub proof fn lemma_filter_asks(
    s: Session,
    p: ProtocolId,
    id: u32,
    ftype: u32,
    mask: Seq<u8>,
    pattern: Seq<u8>,
    flow: Option<Seq<u8>>,
    width: usize,
)
    requires
        width == 4 || width == 5 || (width == 1 && p != ProtocolId::Can && p
            != ProtocolId::Iso15765),
        mask.len() >= width,
        pattern.len() >= width,
        flow is Some ==> flow->0.len() >= width,
    ensures
        ({
            let (r, s1) = s.start_filter(p, id, ftype, mask, pattern, flow, width);
            let n = width as int;
            let last = match flow {
                Some(f) => f.take(n),
                None => Seq::new(width as nat, |i: int| 0u8),
            };
            asked(
                s,
                s1,
                r,
                ordered(
                    0x0b,
                    channel_word(p) + low_first(id as nat, 4) + low_first(ftype as nat, 4)
                        + mask.take(n) + pattern.take(n) + last,
                ),
                2000,
                0x0b,
            )
        }),
{
    lemma_filter_command(p, id, ftype, mask, pattern, flow, width);
    let cmd = crate::codec::inner::start_filter_cmd(p, id, ftype, mask, pattern, flow, width);
    lemma_status_exchange(s, cmd->Ok_0, Cmd::StartMsgFilter, 2000);
}

/// The words that a channel reads back, and the key bytes of an init: what the
/// adapter is asked for, and where in the answer they stand.
pub proof fn lemma_raw_questions<T: Transport>(
    param: u32,
    word: Result<u32, Error>,
    init: &[u8],
    keys: Result<Vec<u8>, Error>,
)
    ensures
        forall|c: &mut RawChannel, dev: &mut Device<T>| #[trigger]
            call_ensures(RawChannel::get_config::<T>, (c, dev, param), word) ==> word_asked(
                (*dev)@,
                (*final(dev))@,
                word,
                ordered(
                    0x0e,
                    seq![0x01u8] + channel_word((*c)@.proto) + low_first(param as nat, 4),
                ),
                2000,
            ),
        forall|c: &mut RawChannel, dev: &mut Device<T>| #[trigger]
            call_ensures(RawChannel::read_vbatt::<T>, (c, dev), word) ==> word_asked(
                (*dev)@,
                (*final(dev))@,
                word,
                ordered(0x0e, seq![0x03u8] + channel_word((*c)@.proto)),
                1000,
            ),
        forall|c: &mut RawChannel, dev: &mut Device<T>| #[trigger]
            call_ensures(RawChannel::fast_init::<T>, (c, dev, init), keys) ==> keys_asked(
                (*dev)@,
                (*final(dev))@,
                crate::error::seen(keys),
                ordered(0x0e, seq![0x05u8] + channel_word((*c)@.proto) + init@),
            ),
        forall|c: &mut RawChannel, dev: &mut Device<T>| #[trigger]
            call_ensures(RawChannel::five_baud_init::<T>, (c, dev, init), keys) ==> keys_asked(
                (*dev)@,
                (*final(dev))@,
                crate::error::seen(keys),
                ordered(0x0e, seq![0x04u8] + channel_word((*c)@.proto) + init@),
            ),
{
    assert forall|c: &mut RawChannel, dev: &mut Device<T>| #[trigger]
        call_ensures(RawChannel::get_config::<T>, (c, dev, param), word) implies word_asked(
        (*dev)@,
        (*final(dev))@,
        word,
        ordered(0x0e, seq![0x01u8] + channel_word((*c)@.proto) + low_first(param as nat, 4)),
        2000,
    ) by {
        lemma_ioctl_commands((*c)@.proto, param, 0, init@);
        lemma_words((*dev)@, (*c)@.proto, param);
    }
    assert forall|c: &mut RawChannel, dev: &mut Device<T>| #[trigger]
        call_ensures(RawChannel::read_vbatt::<T>, (c, dev), word) implies word_asked(
        (*dev)@,
        (*final(dev))@,
        word,
        ordered(0x0e, seq![0x03u8] + channel_word((*c)@.proto)),
        1000,
    ) by {
        lemma_ioctl_commands((*c)@.proto, param, 0, init@);
        lemma_words((*dev)@, (*c)@.proto, param);
    }
    assert forall|c: &mut RawChannel, dev: &mut Device<T>| #[trigger]
        call_ensures(RawChannel::fast_init::<T>, (c, dev, init), keys) implies keys_asked(
        (*dev)@,
        (*final(dev))@,
        crate::error::seen(keys),
        ordered(0x0e, seq![0x05u8] + channel_word((*c)@.proto) + init@),
    ) by {
        lemma_ioctl_commands((*c)@.proto, param, 0, init@);
        lemma_keys((*dev)@, crate::codec::inner::fast_init_cmd((*c)@.proto, init@));
    }
    assert forall|c: &mut RawChannel, dev: &mut Device<T>| #[trigger]
        call_ensures(RawChannel::five_baud_init::<T>, (c, dev, init), keys) implies keys_asked(
        (*dev)@,
        (*final(dev))@,
        crate::error::seen(keys),
        ordered(0x0e, seq![0x04u8] + channel_word((*c)@.proto) + init@),
    ) by {
        lemma_ioctl_commands((*c)@.proto, param, 0, init@);
        lemma_keys((*dev)@, crate::codec::inner::five_baud_init_cmd((*c)@.proto, init@));
    }
}

/// One exchange that is answered with a word: bytes 3 to 6 of the answer, the
/// lowest first.
pub open spec fn word_asked(
    s: Session,
    s1: Session,
    r: Result<u32, Error>,
    inner: Seq<u8>,
    wait: nat,
) -> bool {
    let (answer, after) = s.on_transact(inner, ms(wait));
    &&& s1 == after
    &&& match answer {
        Err(e) => r == Err::<u32, Error>(e),
        Ok(reply) => if reply.len() >= 7 && reply[2] == 0x0e {
            r is Ok && r->Ok_0 == reply[3] + 256 * reply[4] + 65536 * reply[5] + 16777216 * reply[6]
        } else {
            r is Err && r->Err_0 is Codec
        },
    }
}

proof fn lemma_words(s: Session, p: ProtocolId, param: u32)
    ensures
        ({
            let cmd = crate::codec::inner::get_config_cmd(p, param);
            let (r, s1) = s.ask_word(cmd, ms(2000), "not a get-config reply");
            word_asked(s, s1, r, cmd, 2000)
        }),
        ({
            let cmd = crate::codec::inner::read_vbatt_cmd(p);
            let (r, s1) = s.ask_word(cmd, ms(1000), "not a read-vbatt reply");
            word_asked(s, s1, r, cmd, 1000)
        }),
{
    let a = crate::codec::inner::get_config_cmd(p, param);
    if let Ok(reply) = s.on_transact(a, ms(2000)).0 {
        lemma_word_bytes(reply, "not a get-config reply");
    }
    let b = crate::codec::inner::read_vbatt_cmd(p);
    if let Ok(reply) = s.on_transact(b, ms(1000)).0 {
        lemma_word_bytes(reply, "not a read-vbatt reply");
    }
}

/// One exchange that is answered with key bytes: what follows the opcode, as
/// long as the answer's length field says less one, or as there is.
pub open spec fn keys_asked(
    s: Session,
    s1: Session,
    r: Result<Seq<u8>, Error>,
    inner: Seq<u8>,
) -> bool {
    let (answer, after) = s.on_transact(inner, ms(3000));
    &&& s1 == after
    &&& match answer {
        Err(e) => r == Err::<Seq<u8>, Error>(e),
        Ok(reply) => if reply.len() >= 3 && reply[2] == 0x0e {
            let told = reply[0] + 256 * reply[1];
            &&& r is Ok
            &&& forall|i: int| 0 <= i < r->Ok_0.len() ==> #[trigger] r->Ok_0[i] == reply[3 + i]
            &&& r->Ok_0.len() == if told == 0 {
                0
            } else if told + 2 <= reply.len() {
                told - 1
            } else {
                reply.len() - 3
            }
        } else {
            r is Err && r->Err_0 is Codec
        },
    }
}

pub proof fn lemma_keys(s: Session, cmd: Seq<u8>)
    ensures
        keys_asked(s, s.kline_init(cmd).1, s.kline_init(cmd).0, cmd),
{
}

/// A poll hands out what was drained before, the earliest first and without
/// traffic; and otherwise asks the adapter for one message of the protocol, whose
/// status word stands in bytes 3 to 6 of the answer and whose bytes follow from
/// byte 11 on.
pub proof fn lemma_poll_asks(s: Session, p: ProtocolId, timeout: Duration)
    requires
        s.valid(),
        !s.wedged,
    ensures
        ({
            let (r, s1) = s.on_poll(p, timeout);
            let at = number(p) - 1;
            let queue = s.queues[at];
            let (answer, after) = s.on_transact(
                seq![5u8, 0, 0x09] + channel_word(p) + seq![0u8],
                timeout,
            );
            if queue.len() > 0 {
                &&& r == Ok::<Option<RxMsgView>, Error>(Some(queue[0]))
                &&& s1.world == s.world
                &&& s1.queues == s.queues.update(at, queue.skip(1))
            } else {
                &&& s1 == after
                &&& message_from(r, answer)
            }
        }),
{
    lemma_plain_commands(p, 0, 0, 0, 0);
    let cmd = crate::codec::inner::read_poll_cmd(p);
    if let Ok(reply) = s.on_transact(cmd, timeout).0 {
        lemma_read_bytes(reply);
    }
}

/// Whether `r` is the message in an answer to a poll.
pub open spec fn message_from(
    r: Result<Option<RxMsgView>, Error>,
    answer: Result<Seq<u8>, Error>,
) -> bool {
    match answer {
        Err(e) => r == Err::<Option<RxMsgView>, Error>(e),
        Ok(reply) => {
            let told = reply[0] + 256 * reply[1];
            if reply.len() < 4 || reply[2] != 0x09 || (told > 9 && told + 2 > reply.len()) {
                r is Err && r->Err_0 is Codec
            } else if told <= 9 {
                r == Ok::<Option<RxMsgView>, Error>(None)
            } else {
                &&& r matches Ok(Some(m))
                &&& m.data == reply.subrange(11, told + 2)
                &&& m.status.word == reply[3] + 256 * reply[4] + 65536 * reply[5] + 16777216
                    * reply[6]
            }
        },
    }
}

/// Every connect, disconnect and poll, at any level, is one of the session.
pub proof fn lemma_device_calls<T: Transport>(
    p: ProtocolId,
    flags: u32,
    baud: u32,
    timeout: Duration,
    r: Result<(), Error>,
    polled: Result<Option<RxMsg>, Error>,
    raw: Result<RawChannel, Error>,
    pin: u32,
    mv: u32,
)
    ensures
        forall|dev: &mut Device<T>| #[trigger]
            call_ensures(Device::<T>::connect_proto, (dev, p, flags, baud), r) ==> (
                r,
                (*final(dev))@,
            ) == (*dev)@.on_connect(p, flags, baud),
        forall|dev: &mut Device<T>| #[trigger]
            call_ensures(Device::<T>::disconnect_proto, (dev, p), r) ==> (r, (*final(dev))@)
                == (*dev)@.on_disconnect(p),
        forall|dev: &mut Device<T>| #[trigger]
            call_ensures(Device::<T>::poll_proto, (dev, p, timeout), polled) ==> {
                let (owed, s1) = (*dev)@.on_poll(p, timeout);
                &&& (*final(dev))@ == s1
                &&& polled matches Ok(Some(m)) ==> owed == Ok::<Option<RxMsgView>, Error>(
                    Some(RxMsgView { status: m.rx_status, data: m.data@ }),
                )
                &&& polled matches Ok(None) ==> owed == Ok::<Option<RxMsgView>, Error>(None)
                &&& polled matches Err(e) ==> owed == Err::<Option<RxMsgView>, Error>(e)
            },
        forall|dev: &mut Device<T>| #[trigger]
            call_ensures(Device::<T>::connect_raw, (dev, p, flags, baud), raw) ==> {
                let (owed, s1) = (*dev)@.on_connect(p, flags, baud);
                &&& (*final(dev))@ == s1
                &&& raw is Ok <==> owed is Ok
                &&& raw matches Ok(c) ==> c@.proto == p && c@.nfilters == 0
                &&& raw matches Err(e) ==> owed == Err::<(), Error>(e)
            },
        forall|dev: &mut Device<T>| #[trigger]
            call_ensures(Device::<T>::set_programming_voltage, (dev, pin, mv), r) ==> asked(
                (*dev)@,
                (*final(dev))@,
                r,
                seq![9u8, 0, 0x0d] + low_first(pin as nat, 4) + low_first(mv as nat, 4),
                2000,
                0x0d,
            ),
{
    assert forall|dev: &mut Device<T>| #[trigger]
        call_ensures(Device::<T>::set_programming_voltage, (dev, pin, mv), r) implies asked(
        (*dev)@,
        (*final(dev))@,
        r,
        seq![9u8, 0, 0x0d] + low_first(pin as nat, 4) + low_first(mv as nat, 4),
        2000,
        0x0d,
    ) by {
        lemma_plain_commands(p, flags, baud, pin, mv);
        lemma_status_exchange(
            (*dev)@,
            crate::codec::inner::set_programming_voltage_cmd(pin, mv),
            Cmd::SetProgrammingVoltage,
            2000,
        );
    }
}

/// A connect asks once, and once more under a fresh key if the first did not go
/// well; a disconnect asks once.
pub proof fn lemma_connect_asks(s: Session, p: ProtocolId, flags: u32, baud: u32)
    requires
        !s.wedged,
    ensures
        ({
            let (r, s1) = s.on_connect(p, flags, baud);
            let cmd = seq![13u8, 0, 0x07] + channel_word(p) + low_first(flags as nat, 4)
                + low_first(baud as nat, 4);
            let (answer, after) = s.on_transact(cmd, ms(2000));
            if answer is Ok && ends_as(Ok(()), answer, 0x07) {
                &&& r is Ok
                &&& s1 == (Session { connected: s1.connected, ..after })
            } else {
                match handshake(after.world) {
                    (Err(e), w) => r == Err::<(), Error>(e) && s1 == after.in_world(w),
                    (Ok(key), w) => {
                        let fresh = Session { world: w, key, ..after };
                        let (again, end) = fresh.transact(cmd, ms(2000));
                        &&& ends_as(r, again, 0x07)
                        &&& s1 == (Session { connected: s1.connected, ..end })
                    },
                }
            }
        }),
        ({
            let (r, s1) = s.on_disconnect(p);
            let (answer, after) = s.on_transact(
                seq![5u8, 0, 0x08] + channel_word(p) + seq![0u8],
                ms(1000),
            );
            ends_as(r, answer, 0x08) && s1 == (Session { connected: s1.connected, ..after })
        }),
{
    lemma_plain_commands(p, flags, baud, 0, 0);
    let cmd = crate::codec::inner::connect_cmd(p, flags, baud);
    let (answer, after) = s.on_transact(cmd, ms(2000));
    if let Ok(reply) = answer {
        lemma_verdict_bytes(reply, Cmd::Connect);
    }
    if let (Ok(key), w) = handshake(after.world) {
        let fresh = Session { world: w, key, ..after };
        if let Ok(reply) = fresh.transact(cmd, ms(2000)).0 {
            lemma_verdict_bytes(reply, Cmd::Connect);
        }
    }
    let gone = crate::codec::inner::disconnect_cmd(p);
    if let Ok(reply) = s.on_transact(gone, ms(1000)).0 {
        lemma_verdict_bytes(reply, Cmd::Disconnect);
    }
}

/// The four bytes of an identifier: eleven bits of a short one and twenty-nine
/// of a long one, the highest first.
pub open spec fn id_bytes(id: CanId) -> Seq<u8> {
    match id {
        CanId::Std(v) => high_first(v as nat % 0x800, 4),
        CanId::Ext(v) => high_first(v as nat % 0x2000_0000, 4),
    }
}

pub proof fn lemma_id_bytes(id: CanId, wire: [u8; 4], long: bool, back: CanId)
    ensures
        id.bytes() == id_bytes(id),
        id_bytes(id).len() == 4,
        call_ensures(CanId::to_wire, (id,), wire) ==> wire@ == id_bytes(id),
        call_ensures(CanId::from_wire, (wire, long), back) ==> {
            let v = wire[3] + 256 * wire[2] + 65536 * wire[1] + 16777216 * wire[0];
            if long {
                back == CanId::Ext((v % 0x2000_0000) as u32)
            } else {
                back == CanId::Std((v % 0x800) as u16)
            }
        },
{
    lemma_byte_orders(0, id.number(), 0);
}

/// The flags word for a message to an identifier: bit 8 is set for a long one,
/// and everything else is the caller's.
pub proof fn lemma_flag_bits(flags: u32)
    ensures
        (flags | 0x100) & 0x100 == 0x100,
        (flags | 0x100) & !0x100u32 == flags & !0x100u32,
{
    assert((flags | 0x100) & 0x100 == 0x100) by (bit_vector);
    assert((flags | 0x100) & !0x100u32 == flags & !0x100u32) by (bit_vector);
}

/// Every message sent to an identifier is a write of the identifier's four bytes
/// and the payload. For a long identifier bit 0x100 of the flags word is set; for
/// a short one it is as the caller gave it; all other bits are the caller's. The
/// word goes to the adapter as it is.
pub proof fn lemma_sends<P: CanFramed, T: Transport>(
    id: CanId,
    payload: &[u8],
    flags: TxFlags,
    r: Result<(), Error>,
)
    ensures
        forall|c: &mut Channel<P>, dev: &mut Device<T>| #[trigger]
            call_ensures(Channel::<P>::send_flags::<T>, (c, dev, id, payload, flags), r) ==> {
                let word = if id is Ext {
                    flags.word | 0x100
                } else {
                    flags.word
                };
                (r, (*final(dev))@) == (*dev)@.write(
                    (*c)@.raw.proto,
                    word,
                    id_bytes(id) + payload@,
                )
            },
        forall|c: &mut Channel<P>, dev: &mut Device<T>| #[trigger]
            call_ensures(Channel::<P>::send::<T>, (c, dev, id, payload), r) ==> {
                let word = if id is Ext {
                    0x100u32
                } else {
                    0u32
                };
                (r, (*final(dev))@) == (*dev)@.write(
                    (*c)@.raw.proto,
                    word,
                    id_bytes(id) + payload@,
                )
            },
{
    lemma_id_bytes(id, [0, 0, 0, 0], false, id);
    assert(0u32 | 0x100u32 == 0x100u32) by (bit_vector);
}

/// A message that went out to an identifier is, on the wire, one frame: the
/// sealed write command with the flags word and the identifier.
pub proof fn lemma_sent_on_wire(s: Session, p: ProtocolId, id: CanId, payload: Seq<u8>, flags: TxFlags)
    requires
        s.send_flags(p, id, payload, flags).0 is Ok,
    ensures
        ({
            let s1 = s.send_flags(p, id, payload, flags).1;
            let word = if id is Ext {
                flags.word | 0x100
            } else {
                flags.word
            };
            writes_of(s1.world.hist) == writes_of(s.world.hist).push(
                sealed(s.key, write_order(p, word, id_bytes(id) + payload)),
            )
        }),
{
    lemma_id_bytes(id, [0, 0, 0, 0], false, id);
    let word = if id is Ext {
        flags.word | 0x100
    } else {
        flags.word
    };
    lemma_write_asks(s, p, word, id_bytes(id) + payload);
    lemma_written_on_wire(s, p, word, id_bytes(id) + payload);
}

/// A write that went well put exactly one frame on the wire: the sealed write
/// command with its flags and its message.
pub proof fn lemma_written_on_wire(s: Session, p: ProtocolId, flags: u32, msg: Seq<u8>)
    requires
        s.write(p, flags, msg).0 is Ok,
    ensures
        ({
            let s1 = s.write(p, flags, msg).1;
            &&& writes_of(s1.world.hist) == writes_of(s.world.hist).push(
                sealed(s.key, write_order(p, flags, msg)),
            )
            &&& s1.key == s.key
        }),
{
    lemma_write_asks(s, p, flags, msg);
    lemma_exchange_on_wire(s, write_order(p, flags, msg), ms(1000));
}

/// A filter for a typed channel, field by field.
pub proof fn lemma_filter_fields(k: KLineFilter, c: CanFilter, f: FlowControlFilter)
    ensures
        k.fields() == (FilterFields {
            ftype: FilterType::Pass,
            mask: seq![k.mask],
            pattern: seq![k.pattern],
            flow: None,
            idlen: 1,
        }),
        c.fields() == (FilterFields {
            ftype: FilterType::Pass,
            mask: high_first(c.mask as nat, 4),
            pattern: id_bytes(c.pattern),
            flow: None,
            idlen: 4,
        }),
        f.ext_addr is None ==> f.fields() == (FilterFields {
            ftype: FilterType::FlowControl,
            mask: high_first(f.mask as nat, 4),
            pattern: id_bytes(f.rx),
            flow: Some(id_bytes(f.tx)),
            idlen: 4,
        }),
        f.ext_addr matches Some(a) ==> f.fields() == (FilterFields {
            ftype: FilterType::FlowControl,
            mask: high_first(f.mask as nat, 4).push(0xff),
            pattern: id_bytes(f.rx).push(a),
            flow: Some(id_bytes(f.tx).push(a)),
            idlen: 5,
        }),
        FilterType::Pass.id() == 1,
        FilterType::Block.id() == 2,
        FilterType::FlowControl.id() == 3,
{
    lemma_byte_orders(0, c.mask, 0);
    lemma_byte_orders(0, f.mask, 0);
    lemma_id_bytes(c.pattern, [0, 0, 0, 0], false, c.pattern);
    lemma_id_bytes(f.rx, [0, 0, 0, 0], false, f.rx);
    lemma_id_bytes(f.tx, [0, 0, 0, 0], false, f.tx);
}

/// The protocols behind the typed channels, and what a connect to each asks for.
pub proof fn lemma_typed_protocols(k: KLineConfig, c: CanConfig, dk: KLineConfig, dc: CanConfig)
    ensures
        number(Iso9141::spec_id()) == 3,
        number(Iso14230::spec_id()) == 4,
        number(Can::spec_id()) == 5,
        number(Iso15765::spec_id()) == 6,
        k.spec_wire() == (k.flags, k.baud),
        c.spec_wire() == (c.flags, c.bitrate),
        call_ensures(KLineConfig::default, (), dk) ==> dk.baud == 10400 && dk.flags == 0x1000,
        call_ensures(CanConfig::default, (), dc) ==> dc.bitrate == 500_000 && dc.flags == 0,
{
}

/// Setting a filter takes the previous one off first, by its id, and puts the
/// new one on under the next; taking a filter off is one stop.
pub proof fn lemma_set_filter_asks(c: TypedState, s: Session, f: FilterFields)
    ensures
        ({
            let (r, c1, s1) = c.set_filter(s, f);
            let between = match c.current {
                Some(old) => s.stop_filter(c.raw.proto, old).1,
                None => s,
            };
            &&& (r, s1) == between.start_filter(
                c.raw.proto,
                c.next_id,
                f.ftype.id(),
                f.mask,
                f.pattern,
                f.flow,
                f.idlen,
            )
            &&& c1.current == if r is Ok {
                Some(c.next_id)
            } else {
                None
            }
            &&& c.next_id < u32::MAX ==> c1.next_id == c.next_id + 1
            &&& c1.raw.proto == c.raw.proto
        }),
        ({
            let (r, c1, s1) = c.clear_filter(s);
            match c.current {
                Some(old) => (r, s1) == s.stop_filter(c.raw.proto, old) && c1.current is None,
                None => r is Ok && s1 == s && c1 == c,
            }
        }),
        TypedState::fresh(c.raw.proto).next_id == 0x000e_7a00,
        TypedState::fresh(c.raw.proto).current is None,
{
}

/// Every operation on a typed channel is that of the raw one underneath.
pub proof fn lemma_typed_calls<P: KLine, T: Transport>(
    f: P::Filter,
    cfg: P::Config,
    param: u32,
    value: u32,
    timeout: Duration,
    bytes: &[u8],
    r: Result<(), Error>,
    m: Result<RxMsg, Error>,
    keys: Result<Vec<u8>, Error>,
    opened: Result<Channel<P>, Error>,
)
    ensures
        forall|c: &mut Channel<P>, dev: &mut Device<T>| #[trigger]
            call_ensures(Channel::<P>::set_filter::<T>, (c, dev, f), r) ==> (
                r,
                (*final(c))@,
                (*final(dev))@,
            ) == (*c)@.set_filter((*dev)@, f.fields()),
        forall|c: &mut Channel<P>, dev: &mut Device<T>| #[trigger]
            call_ensures(Channel::<P>::clear_filter::<T>, (c, dev), r) ==> (
                r,
                (*final(c))@,
                (*final(dev))@,
            ) == (*c)@.clear_filter((*dev)@),
        forall|c: &mut Channel<P>, dev: &mut Device<T>| #[trigger]
            call_ensures(Channel::<P>::read::<T>, (c, dev, timeout), m) ==> (
                crate::error::seen(m),
                (*final(dev))@,
            ) == (*dev)@.read((*c)@.raw, timeout),
        forall|c: &mut Channel<P>, dev: &mut Device<T>| #[trigger]
            call_ensures(Channel::<P>::write::<T>, (c, dev, bytes), r) ==> (r, (*final(dev))@)
                == (*dev)@.write((*c)@.raw.proto, 0, bytes@),
        forall|c: &mut Channel<P>, dev: &mut Device<T>| #[trigger]
            call_ensures(Channel::<P>::set_config::<T>, (c, dev, param, value), r) ==> asked(
                (*dev)@,
                (*final(dev))@,
                r,
                ordered(
                    0x0e,
                    seq![0x02u8] + channel_word((*c)@.raw.proto) + low_first(param as nat, 4)
                        + low_first(value as nat, 4),
                ),
                2000,
                0x0e,
            ),
        forall|c: &mut Channel<P>, dev: &mut Device<T>| #[trigger]
            call_ensures(Channel::<P>::fast_init::<T>, (c, dev, bytes), keys) ==> keys_asked(
                (*dev)@,
                (*final(dev))@,
                crate::error::seen(keys),
                ordered(0x0e, seq![0x05u8] + channel_word((*c)@.raw.proto) + bytes@),
            ),
        forall|c: &mut Channel<P>, dev: &mut Device<T>| #[trigger]
            call_ensures(Channel::<P>::five_baud_init::<T>, (c, dev, bytes), keys) ==> keys_asked(
                (*dev)@,
                (*final(dev))@,
                crate::error::seen(keys),
                ordered(0x0e, seq![0x04u8] + channel_word((*c)@.raw.proto) + bytes@),
            ),
        forall|dev: &mut Device<T>| #[trigger]
            call_ensures(Device::<T>::connect::<P>, (dev, cfg), opened) ==> {
                let (owed, s1) = (*dev)@.on_connect(
                    P::spec_id(),
                    cfg.spec_wire().0,
                    cfg.spec_wire().1,
                );
                &&& (*final(dev))@ == s1
                &&& opened is Ok <==> owed is Ok
                &&& opened matches Ok(c) ==> c@ == TypedState::fresh(P::spec_id())
            },
{
    assert forall|c: &mut Channel<P>, dev: &mut Device<T>| #[trigger]
        call_ensures(Channel::<P>::set_config::<T>, (c, dev, param, value), r) implies asked(
        (*dev)@,
        (*final(dev))@,
        r,
        ordered(
            0x0e,
            seq![0x02u8] + channel_word((*c)@.raw.proto) + low_first(param as nat, 4) + low_first(
                value as nat,
                4,
            ),
        ),
        2000,
        0x0e,
    ) by {
        let p = (*c)@.raw.proto;
        lemma_ioctl_commands(p, param, value, bytes@);
        lemma_status_exchange(
            (*dev)@,
            crate::codec::inner::set_config_cmd(p, param, value),
            Cmd::Ioctl,
            2000,
        );
    }
    assert forall|c: &mut Channel<P>, dev: &mut Device<T>| #[trigger]
        call_ensures(Channel::<P>::fast_init::<T>, (c, dev, bytes), keys) implies keys_asked(
        (*dev)@,
        (*final(dev))@,
        crate::error::seen(keys),
        ordered(0x0e, seq![0x05u8] + channel_word((*c)@.raw.proto) + bytes@),
    ) by {
        lemma_ioctl_commands((*c)@.raw.proto, param, value, bytes@);
        lemma_keys((*dev)@, crate::codec::inner::fast_init_cmd((*c)@.raw.proto, bytes@));
    }
    assert forall|c: &mut Channel<P>, dev: &mut Device<T>| #[trigger]
        call_ensures(Channel::<P>::five_baud_init::<T>, (c, dev, bytes), keys) implies keys_asked(
        (*dev)@,
        (*final(dev))@,
        crate::error::seen(keys),
        ordered(0x0e, seq![0x04u8] + channel_word((*c)@.raw.proto) + bytes@),
    ) by {
        lemma_ioctl_commands((*c)@.raw.proto, param, value, bytes@);
        lemma_keys((*dev)@, crate::codec::inner::five_baud_init_cmd((*c)@.raw.proto, bytes@));
    }
}

} // verus!
