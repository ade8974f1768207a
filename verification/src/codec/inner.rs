//! Inner command builders and reply parsers.
//!
//! Inner command: `[ILEN u16 LE][CMD][ARGS...]`, `ILEN = 1 + len(ARGS)`.
//! Every channel-scoped command opens its ARGS with the ProtocolID: there is
//! no separate channel handle, the ProtocolID *is* the channel.
//!
//! Some builders emit a trailing pad byte beyond ILEN, as the vendor driver
//! does.

use vstd::prelude::*;

use crate::bytes::{
    from_le16, from_le32, le16, le32, lemma_le16_round_trip, lemma_le32_round_trip,
    push_all, push_le16, push_le32, push_repeated, rd_u16, rd_u32, repeated,
};
use crate::error::{seen, CodecError};
use crate::types::{status_from, Cmd, DeviceStatus, ProtocolId, RxStatus, MAX_MSG};

verus! {

/// The inner command `cmd` with its arguments.
pub open spec fn command(cmd: Cmd, args: Seq<u8>) -> Seq<u8> {
    le16(1 + args.len()) + seq![cmd.op()] + args
}

/// The arguments of an IOCTL: the sub-function, the channel, and the rest.
pub open spec fn ioctl(sub: u8, proto: ProtocolId, rest: Seq<u8>) -> Seq<u8> {
    command(Cmd::Ioctl, seq![sub] + le32(proto.id()) + rest)
}

/// The signature that the identify command carries.
pub open spec fn signature() -> Seq<u8> {
    seq![0x4du8, 0x56u8, 0x43u8, 0x49u8, 0x2du8, 0x54u8]
}

pub open spec fn identify_cmd() -> Seq<u8> {
    command(Cmd::Open, signature())
}

pub open spec fn read_version_cmd() -> Seq<u8> {
    command(Cmd::ReadVersion, seq![])
}

pub open spec fn connect_cmd(proto: ProtocolId, flags: u32, baud: u32) -> Seq<u8> {
    command(Cmd::Connect, le32(proto.id()) + le32(flags) + le32(baud))
}

pub open spec fn disconnect_cmd(proto: ProtocolId) -> Seq<u8> {
    command(Cmd::Disconnect, le32(proto.id())).push(0)
}

pub open spec fn session_close_cmd() -> Seq<u8> {
    command(Cmd::CloseSession, seq![]) + repeated(0, 5)
}

pub open spec fn read_poll_cmd(proto: ProtocolId) -> Seq<u8> {
    command(Cmd::ReadMsg, le32(proto.id())).push(0)
}

pub open spec fn write_msg_cmd(proto: ProtocolId, txflags: u32, msg: Seq<u8>) -> Seq<u8> {
    command(Cmd::WriteMsg, le32(proto.id()) + le32(txflags) + msg)
}

pub open spec fn set_programming_voltage_cmd(pin: u32, millivolts: u32) -> Seq<u8> {
    command(Cmd::SetProgrammingVoltage, le32(pin) + le32(millivolts))
}

pub open spec fn stop_filter_cmd(proto: ProtocolId, filter_id: u32) -> Seq<u8> {
    command(Cmd::StopMsgFilter, le32(proto.id()) + le32(filter_id) + le32(0))
}

pub open spec fn start_periodic_cmd(
    proto: ProtocolId,
    msg_id: u32,
    txflags: u32,
    interval_ms: u32,
    msg: Seq<u8>,
) -> Seq<u8> {
    command(
        Cmd::StartPeriodicMsg,
        le32(proto.id()) + le32(msg_id) + le32(txflags) + le32(interval_ms) + msg,
    )
}

pub open spec fn stop_periodic_cmd(proto: ProtocolId, msg_id: u32) -> Seq<u8> {
    command(Cmd::StopPeriodicMsg, le32(proto.id()) + le32(msg_id) + le32(0))
}

pub open spec fn set_config_cmd(proto: ProtocolId, param: u32, value: u32) -> Seq<u8> {
    ioctl(0x02, proto, le32(param) + le32(value))
}

pub open spec fn get_config_cmd(proto: ProtocolId, param: u32) -> Seq<u8> {
    ioctl(0x01, proto, le32(param))
}

pub open spec fn read_vbatt_cmd(proto: ProtocolId) -> Seq<u8> {
    ioctl(0x03, proto, seq![])
}

pub open spec fn five_baud_init_cmd(proto: ProtocolId, init: Seq<u8>) -> Seq<u8> {
    ioctl(0x04, proto, init)
}

pub open spec fn fast_init_cmd(proto: ProtocolId, init: Seq<u8>) -> Seq<u8> {
    ioctl(0x05, proto, init)
}

pub open spec fn clear_periodic_cmd(proto: ProtocolId) -> Seq<u8> {
    ioctl(0x09, proto, seq![])
}

/// The field a filter carries for an absent flow-control identifier: zeros.
pub open spec fn flow_field(flow: Option<Seq<u8>>, idlen: nat) -> Seq<u8> {
    match flow {
        Some(f) => f.take(idlen as int),
        None => repeated(0, idlen),
    }
}

/// The StartMsgFilter command, or what is wrong with its arguments.
pub open spec fn start_filter_cmd(
    proto: ProtocolId,
    filter_id: u32,
    ftype: u32,
    mask: Seq<u8>,
    pattern: Seq<u8>,
    flow: Option<Seq<u8>>,
    idlen: usize,
) -> Result<Seq<u8>, CodecError> {
    if !(idlen == 1 || idlen == 4 || idlen == 5) || (proto.can_framed() && idlen == 1) {
        Err(CodecError::BadIdLen { proto, idlen })
    } else if mask.len() < idlen {
        Err(CodecError::FilterFieldTooShort { have: mask.len() as usize, need: idlen })
    } else if pattern.len() < idlen {
        Err(CodecError::FilterFieldTooShort { have: pattern.len() as usize, need: idlen })
    } else if flow is Some && flow->0.len() < idlen {
        Err(CodecError::FilterFieldTooShort { have: flow->0.len() as usize, need: idlen })
    } else {
        Ok(
            command(
                Cmd::StartMsgFilter,
                le32(proto.id()) + le32(filter_id) + le32(ftype) + mask.take(idlen as int)
                    + pattern.take(idlen as int) + flow_field(flow, idlen as nat),
            ),
        )
    }
}

/// Start a command whose arguments will take `args` bytes.
fn start(cmd: Cmd, args: usize) -> (v: Vec<u8>)
    ensures
        v@ == le16((1 + args) as nat) + seq![cmd.op()],
{
    let mut v: Vec<u8> = Vec::new();
    push_le16(&mut v, 1 + args % 65536);
    assert(le16((1 + args % 65536) as nat) =~= le16((1 + args) as nat));
    v.push(cmd.code());
    v
}

/// A command whose arguments are `args`.
fn with_args(cmd: Cmd, args: &[u8]) -> (v: Vec<u8>)
    ensures
        v@ == command(cmd, args@),
{
    let mut v = start(cmd, args.len());
    push_all(&mut v, args);
    v
}

fn ioctl_with(sub: u8, proto: ProtocolId, rest: &[u8]) -> (v: Vec<u8>)
    ensures
        v@ == ioctl(sub, proto, rest@),
{
    let mut args: Vec<u8> = Vec::new();
    args.push(sub);
    push_le32(&mut args, proto.wire());
    push_all(&mut args, rest);
    assert(args@ =~= seq![sub] + le32(proto.id()) + rest@);
    with_args(Cmd::Ioctl, args.as_slice())
}

/// Handshake identify payload, itself an inner command (`[ILEN=7][OPEN]"MVCI-T"`)
/// sent in plaintext. OPEN toggles encryption; it must be sent exactly once
/// per session, which the session layer's link type-state enforces.
pub fn identify() -> (v: Vec<u8>)
    ensures
        v@ == identify_cmd(),
{
    let sig: [u8; 6] = [0x4d, 0x56, 0x43, 0x49, 0x2d, 0x54];
    assert(sig@ =~= signature());
    with_args(Cmd::Open, sig.as_slice())
}

pub fn read_version() -> (v: Vec<u8>)
    ensures
        v@ == read_version_cmd(),
{
    let none: Vec<u8> = Vec::new();
    with_args(Cmd::ReadVersion, none.as_slice())
}

pub fn connect(proto: ProtocolId, flags: u32, baud: u32) -> (v: Vec<u8>)
    ensures
        v@ == connect_cmd(proto, flags, baud),
{
    let mut args: Vec<u8> = Vec::new();
    push_le32(&mut args, proto.wire());
    push_le32(&mut args, flags);
    push_le32(&mut args, baud);
    assert(args@ =~= le32(proto.id()) + le32(flags) + le32(baud));
    with_args(Cmd::Connect, args.as_slice())
}

pub fn disconnect(proto: ProtocolId) -> (v: Vec<u8>)
    ensures
        v@ == disconnect_cmd(proto),
{
    let mut args: Vec<u8> = Vec::new();
    push_le32(&mut args, proto.wire());
    assert(args@ =~= le32(proto.id()));
    let mut v = with_args(Cmd::Disconnect, args.as_slice());
    v.push(0x00);
    v
}

pub fn session_close() -> (v: Vec<u8>)
    ensures
        v@ == session_close_cmd(),
{
    let none: Vec<u8> = Vec::new();
    let mut v = with_args(Cmd::CloseSession, none.as_slice());
    push_repeated(&mut v, 0, 5);
    v
}

/// ReadMsgs poll. Byte 3 is not a sub-function: it is the low byte of the
/// ProtocolID, so a poll only returns messages for that protocol.
pub fn read_poll(proto: ProtocolId) -> (v: Vec<u8>)
    ensures
        v@ == read_poll_cmd(proto),
{
    let mut args: Vec<u8> = Vec::new();
    push_le32(&mut args, proto.wire());
    assert(args@ =~= le32(proto.id()));
    let mut v = with_args(Cmd::ReadMsg, args.as_slice());
    v.push(0x00);
    v
}

pub fn write_msg(proto: ProtocolId, txflags: u32, msg: &[u8]) -> (r: Result<Vec<u8>, CodecError>)
    ensures
        msg.len() <= MAX_MSG ==> (r matches Ok(v) && v@ == write_msg_cmd(proto, txflags, msg@)),
        msg.len() > MAX_MSG ==> r == Err::<Vec<u8>, _>(CodecError::MsgTooLong(msg.len())),
{
    if msg.len() > MAX_MSG {
        return Err(CodecError::MsgTooLong(msg.len()));
    }
    let mut args: Vec<u8> = Vec::new();
    push_le32(&mut args, proto.wire());
    push_le32(&mut args, txflags);
    push_all(&mut args, msg);
    assert(args@ =~= le32(proto.id()) + le32(txflags) + msg@);
    Ok(with_args(Cmd::WriteMsg, args.as_slice()))
}

/// StartMsgFilter. `mask`/`pattern`/`flow` are `idlen` bytes each, copied
/// verbatim in wire order: for CAN that is the identifier MSB-first, exactly
/// as J2534 stores it in `PASSTHRU_MSG.Data`. The flow field is always
/// emitted (zero-filled when absent) because the adapter derives the field
/// width from the total length: `N = (len(ARGS) - 12) / 3`.
///
/// `idlen` is 1 for K-line, 4 for CAN/ISO15765, 5 for extended addressing.
pub fn start_filter(
    proto: ProtocolId,
    filter_id: u32,
    ftype: u32,
    mask: &[u8],
    pattern: &[u8],
    flow: Option<&[u8]>,
    idlen: usize,
) -> (r: Result<Vec<u8>, CodecError>)
    ensures
        ({
            let flow_bytes = match flow {
                Some(f) => Some(f@),
                None => None,
            };
            let owed = start_filter_cmd(
                proto,
                filter_id,
                ftype,
                mask@,
                pattern@,
                flow_bytes,
                idlen,
            );
            seen(r) == owed
        }),
{
    if !(idlen == 1 || idlen == 4 || idlen == 5) || (proto.is_can() && idlen == 1) {
        return Err(CodecError::BadIdLen { proto, idlen });
    }
    if mask.len() < idlen {
        return Err(CodecError::FilterFieldTooShort { have: mask.len(), need: idlen });
    }
    if pattern.len() < idlen {
        return Err(CodecError::FilterFieldTooShort { have: pattern.len(), need: idlen });
    }
    if let Some(f) = flow {
        if f.len() < idlen {
            return Err(CodecError::FilterFieldTooShort { have: f.len(), need: idlen });
        }
    }
    let mut args: Vec<u8> = Vec::new();
    push_le32(&mut args, proto.wire());
    push_le32(&mut args, filter_id);
    push_le32(&mut args, ftype);
    push_all(&mut args, &mask[0..idlen]);
    push_all(&mut args, &pattern[0..idlen]);
    assert(args@ =~= le32(proto.id()) + le32(filter_id) + le32(ftype) + mask@.take(idlen as int)
        + pattern@.take(idlen as int));
    match flow {
        Some(f) => {
            push_all(&mut args, &f[0..idlen]);
            assert(f@.subrange(0, idlen as int) =~= f@.take(idlen as int));
        },
        None => push_repeated(&mut args, 0, idlen),
    }
    Ok(with_args(Cmd::StartMsgFilter, args.as_slice()))
}

/// SET_PROGRAMMING_VOLTAGE (0x0D). Device-scoped (no ProtocolID): ARGS are the
/// J2534 pin number then the voltage in mV.
///
/// On the Mini-VCI the firmware stores the value and drives no pin (a no-op
/// that reports success); cables whose firmware implements the opcode act on
/// it. `PIN_OFF`-style sentinels (`0xffffffff` / `0`) are passed through
/// unchanged.
pub fn set_programming_voltage(pin: u32, millivolts: u32) -> (v: Vec<u8>)
    ensures
        v@ == set_programming_voltage_cmd(pin, millivolts),
{
    let mut args: Vec<u8> = Vec::new();
    push_le32(&mut args, pin);
    push_le32(&mut args, millivolts);
    assert(args@ =~= le32(pin) + le32(millivolts));
    with_args(Cmd::SetProgrammingVoltage, args.as_slice())
}

fn three_words(cmd: Cmd, a: u32, b: u32, c: u32) -> (v: Vec<u8>)
    ensures
        v@ == command(cmd, le32(a) + le32(b) + le32(c)),
{
    let mut args: Vec<u8> = Vec::new();
    push_le32(&mut args, a);
    push_le32(&mut args, b);
    push_le32(&mut args, c);
    assert(args@ =~= le32(a) + le32(b) + le32(c));
    with_args(cmd, args.as_slice())
}

pub fn stop_filter(proto: ProtocolId, filter_id: u32) -> (v: Vec<u8>)
    ensures
        v@ == stop_filter_cmd(proto, filter_id),
{
    three_words(Cmd::StopMsgFilter, proto.wire(), filter_id, 0)
}

/// START_PERIODIC_MSG (0x0F). `msg_id` is **host-assigned** (like a filter
/// handle): the caller picks it, the firmware echoes it back and matches it on
/// STOP_PERIODIC_MSG. `msg` must be under 13 bytes (the firmware's `N < 13`
/// limit), which fits a CAN periodic (4-byte id + up to 8 data bytes) but
/// leaves no room for an extended-addressing byte on top of a full frame.
pub fn start_periodic(
    proto: ProtocolId,
    msg_id: u32,
    txflags: u32,
    interval_ms: u32,
    msg: &[u8],
) -> (r: Result<Vec<u8>, CodecError>)
    ensures
        msg.len() < 13 ==> (r matches Ok(v) && v@ == start_periodic_cmd(
            proto,
            msg_id,
            txflags,
            interval_ms,
            msg@,
        )),
        msg.len() >= 13 ==> r == Err::<Vec<u8>, _>(CodecError::MsgTooLong(msg.len())),
{
    if msg.len() >= 13 {
        return Err(CodecError::MsgTooLong(msg.len()));
    }
    let mut args: Vec<u8> = Vec::new();
    push_le32(&mut args, proto.wire());
    push_le32(&mut args, msg_id);
    push_le32(&mut args, txflags);
    push_le32(&mut args, interval_ms);
    push_all(&mut args, msg);
    assert(args@ =~= le32(proto.id()) + le32(msg_id) + le32(txflags) + le32(interval_ms) + msg@);
    Ok(with_args(Cmd::StartPeriodicMsg, args.as_slice()))
}

/// STOP_PERIODIC_MSG (0x10). Mirrors `stop_filter`: proto, the host-assigned
/// MsgID, and an unused trailing word.
pub fn stop_periodic(proto: ProtocolId, msg_id: u32) -> (v: Vec<u8>)
    ensures
        v@ == stop_periodic_cmd(proto, msg_id),
{
    three_words(Cmd::StopPeriodicMsg, proto.wire(), msg_id, 0)
}

/// IOCTL sub 0x02 = SET_CONFIG. One parameter per call: the firmware does
/// not take an SCONFIG_LIST. Unknown parameters return success and are
/// silently discarded by the firmware, so a clean status proves nothing.
pub fn set_config(proto: ProtocolId, param: u32, value: u32) -> (v: Vec<u8>)
    ensures
        v@ == set_config_cmd(proto, param, value),
{
    let mut rest: Vec<u8> = Vec::new();
    push_le32(&mut rest, param);
    push_le32(&mut rest, value);
    assert(rest@ =~= le32(param) + le32(value));
    ioctl_with(0x02, proto, rest.as_slice())
}

/// IOCTL sub 0x01 = GET_CONFIG. One parameter per call, mirroring SET_CONFIG.
pub fn get_config(proto: ProtocolId, param: u32) -> (v: Vec<u8>)
    ensures
        v@ == get_config_cmd(proto, param),
{
    let mut rest: Vec<u8> = Vec::new();
    push_le32(&mut rest, param);
    assert(rest@ =~= le32(param));
    ioctl_with(0x01, proto, rest.as_slice())
}

/// The word that trails the command echo of an IOCTL reply, or `complaint`.
pub open spec fn ioctl_word(inner: Seq<u8>, complaint: &'static str) -> Result<u32, CodecError> {
    if inner.len() < 7 || inner[2] != Cmd::Ioctl.op() {
        Err(CodecError::MalformedReply(complaint))
    } else {
        Ok(from_le32(inner, 3))
    }
}

/// Parse a GET_CONFIG reply into the config value.
///
/// **Wire layout unverified.** The getter exists and takes one parameter per
/// call, but its reply framing is not pinned. This assumes the value trails
/// the IOCTL command echo (`[ILEN][00][0x0e][value u32 LE]`, analogous to the
/// K-line init reply's length-driven tail). Confirm against the live cable
/// (read back DATA_RATE (0x01) and compare) before trusting it.
pub fn parse_get_config(inner: &[u8]) -> (r: Result<u32, CodecError>)
    ensures
        r == ioctl_word(inner@, "not a get-config reply"),
{
    if inner.len() < 7 || inner[2] != Cmd::Ioctl.code() {
        return Err(CodecError::MalformedReply("not a get-config reply"));
    }
    Ok(rd_u32(inner, 3))
}

/// IOCTL sub 0x03 = READ_VBATT. Same shape as CLEAR_PERIODIC_MSGS.
pub fn read_vbatt(proto: ProtocolId) -> (v: Vec<u8>)
    ensures
        v@ == read_vbatt_cmd(proto),
{
    let none: Vec<u8> = Vec::new();
    ioctl_with(0x03, proto, none.as_slice())
}

/// Parse a READ_VBATT reply into millivolts.
///
/// **Wire layout unverified**, same assumption as [`parse_get_config`]: the
/// value trails the IOCTL command echo. On the Mini-VCI the firmware answers a
/// hardcoded 12000 mV (no ADC); other cables return a real measurement. Confirm
/// the layout against the live cable before trusting it.
pub fn parse_vbatt(inner: &[u8]) -> (r: Result<u32, CodecError>)
    ensures
        r == ioctl_word(inner@, "not a read-vbatt reply"),
{
    if inner.len() < 7 || inner[2] != Cmd::Ioctl.code() {
        return Err(CodecError::MalformedReply("not a read-vbatt reply"));
    }
    Ok(rd_u32(inner, 3))
}

/// IOCTL sub 0x04 = FIVE_BAUD_INIT (K-line slow init). Same shape as
/// [`fast_init`], different sub-function.
pub fn five_baud_init(proto: ProtocolId, init: &[u8]) -> (v: Vec<u8>)
    ensures
        v@ == five_baud_init_cmd(proto, init@),
{
    ioctl_with(0x04, proto, init)
}

/// IOCTL sub 0x09 = CLEAR_PERIODIC_MSGS.
pub fn clear_periodic(proto: ProtocolId) -> (v: Vec<u8>)
    ensures
        v@ == clear_periodic_cmd(proto),
{
    let none: Vec<u8> = Vec::new();
    ioctl_with(0x09, proto, none.as_slice())
}

/// IOCTL sub 0x05 = FAST_INIT (K-line).
pub fn fast_init(proto: ProtocolId, init: &[u8]) -> (v: Vec<u8>)
    ensures
        v@ == fast_init_cmd(proto, init@),
{
    ioctl_with(0x05, proto, init)
}

/// The DES key a challenge payload carries, or what is wrong with it.
pub open spec fn challenge_key(payload: Seq<u8>) -> Result<Seq<u8>, CodecError> {
    if payload.len() < 11 {
        Err(CodecError::MalformedReply("challenge payload too short"))
    } else if payload[0] != 0x09 {
        Err(CodecError::MalformedReply("challenge is not a key reply"))
    } else {
        Ok(payload.subrange(3, 11))
    }
}

/// Extract the DES key from the plaintext handshake challenge payload
/// (`09 00 01 <K0..K7>`).
pub fn parse_challenge(payload: &[u8]) -> (r: Result<[u8; 8], CodecError>)
    ensures
        seen(r) == challenge_key(payload@),
{
    if payload.len() < 11 {
        return Err(CodecError::MalformedReply("challenge payload too short"));
    }
    if payload[0] != 0x09 {
        return Err(CodecError::MalformedReply("challenge is not a key reply"));
    }
    let key = [
        payload[3],
        payload[4],
        payload[5],
        payload[6],
        payload[7],
        payload[8],
        payload[9],
        payload[10],
    ];
    assert(key@ =~= payload@.subrange(3, 11));
    Ok(key)
}

/// The status a status reply to `cmd` reports, or what is wrong with it.
pub open spec fn reply_status(inner: Seq<u8>, cmd: Cmd) -> Result<DeviceStatus, CodecError> {
    if inner.len() < 4 {
        Err(CodecError::MalformedReply("status reply too short"))
    } else if from_le16(inner) != 2 {
        Err(CodecError::MalformedReply("status reply has wrong ILEN"))
    } else if inner[2] != cmd.op() {
        Err(CodecError::MalformedReply("status reply echoes a different command"))
    } else {
        Ok(status_from(inner[3]))
    }
}

/// Validate a status reply (`[ILEN=2][00][CMD][status]`) and return the
/// device status. The bytes after the status byte are the adapter's
/// uninitialised stack and must never be parsed.
pub fn status_of(inner: &[u8], cmd: Cmd) -> (r: Result<DeviceStatus, CodecError>)
    ensures
        r == reply_status(inner@, cmd),
{
    if inner.len() < 4 {
        return Err(CodecError::MalformedReply("status reply too short"));
    }
    if rd_u16(inner) != 2 {
        return Err(CodecError::MalformedReply("status reply has wrong ILEN"));
    }
    if inner[2] != cmd.code() {
        return Err(CodecError::MalformedReply("status reply echoes a different command"));
    }
    Ok(DeviceStatus::from_byte(inner[3]))
}

/// A parsed ReadMsgs reply:
/// `[ILEN u16 LE][0x09][RxStatus u32 LE][reserved u32][msg @ offset 11]`,
/// message length `ILEN - 9`.
#[derive(Debug, PartialEq, Eq)]
pub struct ReadReply<'a> {
    pub rx_status: RxStatus,
    /// Empty for a status-only reply (nothing queued).
    pub msg: &'a [u8],
}

/// What a ReadMsgs reply holds: the status word and the message.
pub open spec fn read_reply(inner: Seq<u8>) -> Result<(RxStatus, Seq<u8>), CodecError> {
    let status = if inner.len() >= 7 {
        RxStatus { word: from_le32(inner, 3) }
    } else {
        RxStatus { word: inner[3] as u32 }
    };
    let len = from_le16(inner) - 9;
    if inner.len() < 4 || inner[2] != Cmd::ReadMsg.op() {
        Err(CodecError::MalformedReply("not a read reply"))
    } else if len <= 0 {
        Ok((status, Seq::empty()))
    } else if 11 + len > inner.len() {
        Err(CodecError::MalformedReply("read reply message overruns the inner"))
    } else {
        Ok((status, inner.subrange(11, 11 + len)))
    }
}

pub fn parse_read_reply(inner: &[u8]) -> (r: Result<ReadReply<'_>, CodecError>)
    ensures
        match r {
            Ok(reply) => read_reply(inner@) == Ok::<(RxStatus, Seq<u8>), CodecError>(
                (reply.rx_status, reply.msg@),
            ),
            Err(e) => read_reply(inner@) == Err::<(RxStatus, Seq<u8>), CodecError>(e),
        },
{
    if inner.len() < 4 || inner[2] != Cmd::ReadMsg.code() {
        return Err(CodecError::MalformedReply("not a read reply"));
    }
    let rx_status = if inner.len() >= 7 {
        RxStatus::from_bits_retain(rd_u32(inner, 3))
    } else {
        RxStatus::from_bits_retain(inner[3] as u32)
    };
    let mlen: usize = rd_u16(inner).saturating_sub(9);
    if mlen == 0 {
        let msg = &inner[0..0];
        assert(msg@ =~= Seq::empty());
        return Ok(ReadReply { rx_status, msg });
    }
    if 11 + mlen > inner.len() {
        return Err(CodecError::MalformedReply("read reply message overruns the inner"));
    }
    Ok(ReadReply { rx_status, msg: &inner[11..11 + mlen] })
}

/// A ReadMsgs reply to a message, as the adapter builds it.
pub open spec fn built_read_reply(status: u32, reserved: Seq<u8>, msg: Seq<u8>) -> Seq<u8> {
    command(Cmd::ReadMsg, le32(status) + reserved + msg)
}

/// A reply carries its message and all 32 status bits through, at any length
/// the length field can express, and trailing padding changes nothing.
pub proof fn lemma_read_reply_round_trip(
    status: u32,
    reserved: Seq<u8>,
    msg: Seq<u8>,
    padding: Seq<u8>,
)
    requires
        reserved.len() == 4,
        1 <= msg.len() <= 0xffff - 9,
    ensures
        read_reply(built_read_reply(status, reserved, msg) + padding) == Ok::<
            (RxStatus, Seq<u8>),
            CodecError,
        >((RxStatus { word: status }, msg)),
{
    let args = le32(status) + reserved + msg;
    let built = built_read_reply(status, reserved, msg);
    let s = built + padding;
    let pre = le16(1 + args.len()) + seq![Cmd::ReadMsg.op()];
    assert(s =~= pre + le32(status) + (reserved + msg + padding));
    lemma_le32_round_trip(status, pre, reserved + msg + padding);
    lemma_le16_round_trip(1 + args.len(), seq![Cmd::ReadMsg.op()] + args + padding);
    assert(s =~= le16(1 + args.len()) + (seq![Cmd::ReadMsg.op()] + args + padding));
    assert(s.subrange(11, (11 + msg.len()) as int) =~= msg);
}

/// A status reply yields exactly its status byte whatever follows it, and is
/// refused as the answer to any other command.
pub proof fn lemma_status_reply(cmd: Cmd, other: Cmd, status: u8, garbage: Seq<u8>)
    ensures
        reply_status(command(cmd, seq![status]) + garbage, cmd) == Ok::<DeviceStatus, CodecError>(
            status_from(status),
        ),
        other.op() != cmd.op() ==> reply_status(
            command(cmd, seq![status]) + garbage,
            other,
        ) is Err,
{
    let s = command(cmd, seq![status]) + garbage;
    assert(s[0] == 2 && s[1] == 0 && s[2] == cmd.op() && s[3] == status);
}

/// A write command is eleven bytes longer than its message, carries the length
/// as a full 16-bit field, and holds the flags and the message verbatim.
pub proof fn lemma_write_msg_layout(proto: ProtocolId, txflags: u32, msg: Seq<u8>)
    requires
        msg.len() <= MAX_MSG,
    ensures
        ({
            let s = write_msg_cmd(proto, txflags, msg);
            &&& s.len() == 11 + msg.len()
            &&& from_le16(s) == 9 + msg.len()
            &&& s[2] == Cmd::WriteMsg.op()
            &&& from_le32(s, 3) == proto.id()
            &&& from_le32(s, 7) == txflags
            &&& s.skip(11) == msg
        }),
{
    let s = write_msg_cmd(proto, txflags, msg);
    let args = le32(proto.id()) + le32(txflags) + msg;
    let pre = le16(1 + args.len()) + seq![Cmd::WriteMsg.op()];
    lemma_le16_round_trip(1 + args.len(), seq![Cmd::WriteMsg.op()] + args);
    assert(s =~= le16(1 + args.len()) + (seq![Cmd::WriteMsg.op()] + args));
    assert(s =~= pre + le32(proto.id()) + (le32(txflags) + msg));
    lemma_le32_round_trip(proto.id(), pre, le32(txflags) + msg);
    assert(s =~= (pre + le32(proto.id())) + le32(txflags) + msg);
    lemma_le32_round_trip(txflags, pre + le32(proto.id()), msg);
    assert(s.skip(11) =~= msg);
}

} // verus!
