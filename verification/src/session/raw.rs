//! `RawChannel`: the dynamically-typed channel the J2534 shim consumes.
//! `Channel<P>` is a typed veneer over this; there is exactly one
//! implementation of every operation.

use vstd::prelude::*;

use crate::bytes::{copy_range, from_le16, rd_u16};
use crate::codec::inner::{
    clear_periodic, clear_periodic_cmd, fast_init, fast_init_cmd, five_baud_init,
    five_baud_init_cmd, get_config, get_config_cmd, ioctl_word, parse_get_config, parse_vbatt,
    read_vbatt, read_vbatt_cmd, set_config, set_config_cmd, start_filter, start_filter_cmd,
    start_periodic, start_periodic_cmd, stop_filter, stop_filter_cmd, stop_periodic,
    stop_periodic_cmd, write_msg, write_msg_cmd,
};
use crate::error::{codec, seen, CodecError, Error, IsoTpError};
use crate::session::actor::{seen_msg, Session};
use crate::session::device::Device;
use crate::time::{millis, Duration, Instant};
use crate::transport::Transport;
use crate::types::{Cmd, ProtocolId, RxMsg, RxMsgView, MAX_MSG};

verus! {

/// The polls after which a wait is given up even if the clock stands still.
pub const MAX_POLLS: u64 = u64::MAX;

/// The shortest and the longest message a protocol takes: a raw CAN frame is a
/// 4-byte id plus at most 8 data bytes; ISO15765 segments up to `MAX_MSG`;
/// K-line has a 64-byte bound; J1850 VPW/PWM use the SAE frame ceilings.
pub open spec fn size_limits(proto: ProtocolId) -> (nat, nat) {
    match proto {
        ProtocolId::Can => (4, 12),
        ProtocolId::Iso15765 => (4, MAX_MSG as nat),
        ProtocolId::J1850Vpw => (1, 12),
        ProtocolId::J1850Pwm => (1, 11),
        ProtocolId::Iso9141 => (1, 64),
        ProtocolId::Iso14230 => (1, 64),
    }
}

/// A channel as its owner keeps it.
pub struct ChannelState {
    pub proto: ProtocolId,
    /// Filters installed through it.
    pub nfilters: usize,
}

impl ChannelState {
    /// The channel with one more filter.
    pub open spec fn one_more(self) -> ChannelState {
        ChannelState {
            nfilters: if self.nfilters == usize::MAX {
                usize::MAX
            } else {
                (self.nfilters + 1) as usize
            },
            ..self
        }
    }

    /// The channel with one filter fewer.
    pub open spec fn one_fewer(self) -> ChannelState {
        ChannelState {
            nfilters: if self.nfilters == 0 {
                0
            } else {
                (self.nfilters - 1) as usize
            },
            ..self
        }
    }

    /// The error a read ends in that heard nothing in time.
    pub open spec fn nothing_heard(self, timeout: Duration) -> Error {
        if self.nfilters == 0 {
            Error::NoFilterInstalled { proto: self.proto }
        } else {
            Error::Timeout(timeout)
        }
    }
}

/// What a K-line init reply carries after the command echo: the ECU key bytes.
pub open spec fn init_reply(resp: Seq<u8>) -> Result<Seq<u8>, Error> {
    if resp.len() < 3 || resp[2] != Cmd::Ioctl.op() {
        Err(Error::Codec(CodecError::MalformedReply("not a K-line init reply")))
    } else {
        let told = from_le16(resp) - 1;
        let there = resp.len() - 3;
        let n = if told < 0 {
            0
        } else if told <= there {
            told
        } else {
            there
        };
        Ok(resp.subrange(3, 3 + n))
    }
}

impl Session {
    pub open spec fn start_filter(
        self,
        proto: ProtocolId,
        filter_id: u32,
        ftype: u32,
        mask: Seq<u8>,
        pattern: Seq<u8>,
        flow: Option<Seq<u8>>,
        idlen: usize,
    ) -> (Result<(), Error>, Session) {
        match start_filter_cmd(proto, filter_id, ftype, mask, pattern, flow, idlen) {
            Err(e) => (Err(Error::Codec(e)), self),
            Ok(cmd) => self.on_status(cmd, Cmd::StartMsgFilter, millis(2000)),
        }
    }

    pub open spec fn stop_filter(self, proto: ProtocolId, filter_id: u32) -> (
        Result<(), Error>,
        Session,
    ) {
        self.on_status(stop_filter_cmd(proto, filter_id), Cmd::StopMsgFilter, millis(2000))
    }

    /// A write: what the adapter cannot take is refused before any traffic.
    pub open spec fn write(self, proto: ProtocolId, txflags: u32, msg: Seq<u8>) -> (
        Result<(), Error>,
        Session,
    ) {
        let (lo, hi) = size_limits(proto);
        if msg.len() < lo || msg.len() > hi {
            (Err(Error::Codec(CodecError::MsgTooLong(msg.len() as usize))), self)
        } else if proto is Iso15765 && msg.len() - 4 > 255 {
            (Err(Error::IsoTp(IsoTpError::FirmwareFfDlLimit((msg.len() - 4) as usize))), self)
        } else {
            self.on_status(write_msg_cmd(proto, txflags, msg), Cmd::WriteMsg, millis(1000))
        }
    }

    /// Poll until a data message arrives or `deadline` passes, at most
    /// `rounds` times.
    pub open spec fn await_data(
        self,
        chan: ChannelState,
        deadline: Instant,
        timeout: Duration,
        rounds: nat,
    ) -> (Result<RxMsgView, Error>, Session)
        decreases rounds,
    {
        let (now, w1) = self.world.clock();
        let remaining = now.spec_until(deadline);
        if rounds == 0 || remaining.nanos == 0 {
            (Err(chan.nothing_heard(timeout)), self.in_world(w1))
        } else {
            let (polled, s2) = self.in_world(w1).on_poll(
                chan.proto,
                remaining.shorter(millis(500)),
            );
            match polled {
                Err(e) => (Err(e), s2),
                Ok(m) => if m is Some && !m->0.indication() {
                    (Ok(m->0), s2)
                } else {
                    s2.in_world(s2.world.slept(millis(2))).await_data(
                        chan,
                        deadline,
                        timeout,
                        (rounds - 1) as nat,
                    )
                },
            }
        }
    }

    /// Wait up to `timeout` for a data message.
    pub open spec fn read(self, chan: ChannelState, timeout: Duration) -> (
        Result<RxMsgView, Error>,
        Session,
    ) {
        let (now, w1) = self.world.clock();
        self.in_world(w1).await_data(
            chan,
            now.spec_plus(timeout),
            timeout,
            MAX_POLLS as nat,
        )
    }

    pub open spec fn start_periodic(
        self,
        proto: ProtocolId,
        msg_id: u32,
        txflags: u32,
        interval_ms: u32,
        msg: Seq<u8>,
    ) -> (Result<(), Error>, Session) {
        if msg.len() >= 13 {
            (Err(Error::Codec(CodecError::MsgTooLong(msg.len() as usize))), self)
        } else {
            self.on_status(
                start_periodic_cmd(proto, msg_id, txflags, interval_ms, msg),
                Cmd::StartPeriodicMsg,
                millis(2000),
            )
        }
    }

    /// An exchange whose reply carries K-line key bytes.
    pub open spec fn kline_init(self, cmd: Seq<u8>) -> (Result<Seq<u8>, Error>, Session) {
        match self.on_transact(cmd, millis(3000)) {
            (Err(e), s) => (Err(e), s),
            (Ok(resp), s) => (init_reply(resp), s),
        }
    }

    /// An exchange whose reply carries one word.
    pub open spec fn ask_word(self, cmd: Seq<u8>, timeout: Duration, complaint: &'static str) -> (
        Result<u32, Error>,
        Session,
    ) {
        match self.on_transact(cmd, timeout) {
            (Err(e), s) => (Err(e), s),
            (Ok(resp), s) => (
                match ioctl_word(resp, complaint) {
                    Err(e) => Err(Error::Codec(e)),
                    Ok(v) => Ok(v),
                },
                s,
            ),
        }
    }
}

/// One call on a channel, as far as its filters go.
pub enum FilterCall {
    Start {
        filter_id: u32,
        ftype: u32,
        mask: Seq<u8>,
        pattern: Seq<u8>,
        flow: Option<Seq<u8>>,
        idlen: usize,
    },
    Stop { filter_id: u32 },
    /// Any other operation.
    Other,
}

impl FilterCall {
    /// Whether it is a start that the session `s` carries out.
    pub open spec fn starts(self, proto: ProtocolId, s: Session) -> bool {
        self matches FilterCall::Start { filter_id, ftype, mask, pattern, flow, idlen }
            && s.start_filter(proto, filter_id, ftype, mask, pattern, flow, idlen).0 is Ok
    }

    /// Whether it is a stop that the session `s` carries out.
    pub open spec fn stops(self, proto: ProtocolId, s: Session) -> bool {
        self matches FilterCall::Stop { filter_id } && s.stop_filter(proto, filter_id).0 is Ok
    }
}

impl ChannelState {
    /// The channel after a call made on the session `s`.
    pub open spec fn after_call(self, s: Session, call: FilterCall) -> ChannelState {
        if call.starts(self.proto, s) {
            self.one_more()
        } else if call.stops(self.proto, s) {
            self.one_fewer()
        } else {
            self
        }
    }

    /// The channel after a series of calls, each made on the session as it then
    /// is.
    pub open spec fn after_calls(self, calls: Seq<(Session, FilterCall)>) -> ChannelState
        decreases calls.len(),
    {
        if calls.len() == 0 {
            self
        } else {
            self.after_calls(calls.drop_last()).after_call(calls.last().0, calls.last().1)
        }
    }
}

/// How many starts of a series succeed.
pub open spec fn starts_in(proto: ProtocolId, calls: Seq<(Session, FilterCall)>) -> nat
    decreases calls.len(),
{
    if calls.len() == 0 {
        0
    } else {
        starts_in(proto, calls.drop_last()) + if calls.last().1.starts(proto, calls.last().0) {
            1nat
        } else {
            0nat
        }
    }
}

/// How many stops of a series succeed.
pub open spec fn stops_in(proto: ProtocolId, calls: Seq<(Session, FilterCall)>) -> nat
    decreases calls.len(),
{
    if calls.len() == 0 {
        0
    } else {
        stops_in(proto, calls.drop_last()) + if calls.last().1.stops(proto, calls.last().0) {
            1nat
        } else {
            0nat
        }
    }
}

/// The count of filters is that of the starts that succeeded less that of the
/// stops that succeeded, after any series of calls on a channel fresh from its
/// connect in which the stops never outnumber the starts.
pub proof fn lemma_filters_counted(c: ChannelState, calls: Seq<(Session, FilterCall)>)
    requires
        c.nfilters == 0,
        forall|k: int|
            0 <= k <= calls.len() ==> #[trigger] stops_in(c.proto, calls.take(k)) <= starts_in(
                c.proto,
                calls.take(k),
            ),
        starts_in(c.proto, calls) <= usize::MAX,
    ensures
        c.after_calls(calls).nfilters == starts_in(c.proto, calls) - stops_in(c.proto, calls),
        c.after_calls(calls).proto == c.proto,
    decreases calls.len(),
{
    assert(calls.take(calls.len() as int) =~= calls);
    assert(stops_in(c.proto, calls.take(calls.len() as int)) <= starts_in(c.proto, calls));
    if calls.len() > 0 {
        let before = calls.drop_last();
        assert forall|k: int| 0 <= k <= before.len() implies #[trigger] stops_in(
            c.proto,
            before.take(k),
        ) <= starts_in(c.proto, before.take(k)) by {
            assert(before.take(k) =~= calls.take(k));
            assert(stops_in(c.proto, calls.take(k)) <= starts_in(c.proto, calls.take(k)));
        }
        lemma_filters_counted(c, before);
    }
}

/// One connected protocol. Every operation goes through the device that the
/// channel was connected on.
pub struct RawChannel {
    proto: ProtocolId,
    nfilters: usize,
}

impl View for RawChannel {
    type V = ChannelState;

    closed spec fn view(&self) -> ChannelState {
        ChannelState { proto: self.proto, nfilters: self.nfilters }
    }
}

/// What a K-line init reply carries after the command echo: the ECU key bytes.
pub fn parse_init_reply(resp: &[u8]) -> (r: Result<Vec<u8>, Error>)
    ensures
        seen(r) == init_reply(resp@),
{
    if resp.len() < 3 || resp[2] != Cmd::Ioctl.code() {
        return Err(Error::Codec(CodecError::MalformedReply("not a K-line init reply")));
    }
    let mut mlen: usize = rd_u16(resp).saturating_sub(1);
    if mlen > resp.len() - 3 {
        mlen = resp.len() - 3;
    }
    Ok(copy_range(resp, 3, 3 + mlen))
}

impl RawChannel {
    /// Connect a protocol on the device.
    pub fn connect<T: Transport>(
        dev: &mut Device<T>,
        proto: ProtocolId,
        flags: u32,
        baud: u32,
    ) -> (r: Result<RawChannel, Error>)
        requires
            old(dev)@.valid(),
        ensures
            final(dev)@ == old(dev)@.on_connect(proto, flags, baud).1,
            final(dev)@.valid(),
            final(dev).kept(old(dev)),
            match old(dev)@.on_connect(proto, flags, baud).0 {
                Ok(()) => r matches Ok(c) && c@ == (ChannelState { proto, nfilters: 0 }),
                Err(e) => r == Err::<RawChannel, Error>(e),
            },
    {
        dev.connect_proto(proto, flags, baud)?;
        Ok(RawChannel { proto, nfilters: 0 })
    }

    /// Disconnect the channel, best effort. The session itself stays up.
    pub fn release<T: Transport>(self, dev: &mut Device<T>)
        requires
            old(dev)@.valid(),
        ensures
            final(dev)@ == old(dev)@.on_disconnect(self@.proto).1,
            final(dev)@.valid(),
            final(dev).kept(old(dev)),
    {
        let _ = dev.disconnect_proto(self.proto);
    }

    pub fn proto(&self) -> (r: ProtocolId)
        ensures
            r == self@.proto,
    {
        self.proto
    }

    /// Filters currently installed via this channel. Zero means the channel
    /// receives *nothing*: the adapter's acceptance filter starts enabled
    /// and empty.
    pub fn filters_installed(&self) -> (n: usize)
        ensures
            n == self@.nfilters,
    {
        self.nfilters
    }

    pub fn start_filter<T: Transport>(
        &mut self,
        dev: &mut Device<T>,
        filter_id: u32,
        ftype: u32,
        mask: &[u8],
        pattern: &[u8],
        flow: Option<&[u8]>,
        idlen: usize,
    ) -> (r: Result<(), Error>)
        requires
            old(dev)@.valid(),
        ensures
            ({
                let flow_bytes = match flow {
                    Some(f) => Some(f@),
                    None => None,
                };
                let call = FilterCall::Start {
                    filter_id,
                    ftype,
                    mask: mask@,
                    pattern: pattern@,
                    flow: flow_bytes,
                    idlen,
                };
                &&& (r, final(dev)@) == old(dev)@.start_filter(
                    old(self)@.proto,
                    filter_id,
                    ftype,
                    mask@,
                    pattern@,
                    flow_bytes,
                    idlen,
                )
                &&& final(self)@ == old(self)@.after_call(old(dev)@, call)
            }),
            final(dev)@.valid(),
            final(dev).kept(old(dev)),
            final(self)@ == if r is Ok {
                old(self)@.one_more()
            } else {
                old(self)@
            },
    {
        let cmd = codec(
            start_filter(self.proto, filter_id, ftype, mask, pattern, flow, idlen),
        )?;
        dev.transact_status(cmd.as_slice(), Cmd::StartMsgFilter, Duration::from_millis(2000))?;
        self.nfilters = self.nfilters.saturating_add(1);
        Ok(())
    }

    pub fn stop_filter<T: Transport>(&mut self, dev: &mut Device<T>, filter_id: u32) -> (r: Result<
        (),
        Error,
    >)
        requires
            old(dev)@.valid(),
        ensures
            (r, final(dev)@) == old(dev)@.stop_filter(old(self)@.proto, filter_id),
            final(self)@ == old(self)@.after_call(old(dev)@, (FilterCall::Stop { filter_id })),
            final(dev)@.valid(),
            final(dev).kept(old(dev)),
            final(self)@ == if r is Ok {
                old(self)@.one_fewer()
            } else {
                old(self)@
            },
    {
        let cmd = stop_filter(self.proto, filter_id);
        dev.transact_status(cmd.as_slice(), Cmd::StopMsgFilter, Duration::from_millis(2000))?;
        self.nfilters = self.nfilters.saturating_sub(1);
        Ok(())
    }

    /// Send one message. For CAN/ISO15765 the first 4 bytes of `msg` are the
    /// big-endian CAN identifier.
    ///
    /// The firmware writes the ISO-TP First Frame length as `len & 0xFF` under
    /// a literal 0x10 high nibble, so a payload above 255 bytes would go out as
    /// a malformed First Frame. It is refused here rather than corrupted
    /// silently; the host-side `IsoTp` path over raw CAN handles transfers this
    /// large.
    pub fn write<T: Transport>(&mut self, dev: &mut Device<T>, txflags: u32, msg: &[u8]) -> (r:
        Result<(), Error>)
        requires
            old(dev)@.valid(),
        ensures
            (r, final(dev)@) == old(dev)@.write(old(self)@.proto, txflags, msg@),
            final(dev)@.valid(),
            final(dev).kept(old(dev)),
            final(self)@ == old(self)@,
    {
        let (lo, hi): (usize, usize) = match self.proto {
            ProtocolId::Can => (4, 12),
            ProtocolId::Iso15765 => (4, MAX_MSG),
            ProtocolId::J1850Vpw => (1, 12),
            ProtocolId::J1850Pwm => (1, 11),
            ProtocolId::Iso9141 => (1, 64),
            ProtocolId::Iso14230 => (1, 64),
        };
        if msg.len() < lo || msg.len() > hi {
            return Err(Error::Codec(CodecError::MsgTooLong(msg.len())));
        }
        if self.proto == ProtocolId::Iso15765 && msg.len() - 4 > 255 {
            return Err(Error::IsoTp(IsoTpError::FirmwareFfDlLimit(msg.len() - 4)));
        }
        let cmd = codec(write_msg(self.proto, txflags, msg))?;
        dev.transact_status(cmd.as_slice(), Cmd::WriteMsg, Duration::from_millis(1000))
    }

    /// One READ_MSG poll: `Ok(None)` when nothing is queued.
    pub fn poll<T: Transport>(&mut self, dev: &mut Device<T>, timeout: Duration) -> (r: Result<
        Option<RxMsg>,
        Error,
    >)
        requires
            old(dev)@.valid(),
        ensures
            (seen_msg(r), final(dev)@) == old(dev)@.on_poll(old(self)@.proto, timeout),
            final(dev)@.valid(),
            final(dev).kept(old(dev)),
            final(self)@ == old(self)@,
    {
        dev.poll_proto(self.proto, timeout)
    }

    /// Poll until a *data* message arrives (transmit echoes and ISO15765
    /// start-of-message indications are skipped), or the deadline passes.
    ///
    /// On timeout with no filter installed this returns
    /// [`Error::NoFilterInstalled`]: the adapter's most confusing failure
    /// mode, silence that looks exactly like a dead bus.
    pub fn read<T: Transport>(&mut self, dev: &mut Device<T>, timeout: Duration) -> (r: Result<
        RxMsg,
        Error,
    >)
        requires
            old(dev)@.valid(),
        ensures
            (seen(r), final(dev)@) == old(dev)@.read(old(self)@, timeout),
            final(dev)@.valid(),
            final(dev).kept(old(dev)),
            final(self)@ == old(self)@,
    {
        let deadline = dev.now().plus(timeout);
        let mut rounds: u64 = MAX_POLLS;
        loop
            invariant
                dev@.valid(),
                dev.kept(old(dev)),
                self@ == old(self)@,
                dev@.await_data(self@, deadline, timeout, rounds as nat) == old(dev)@.read(
                    old(self)@,
                    timeout,
                ),
            decreases rounds,
        {
            let remaining = dev.now().until(deadline);
            if rounds == 0 || remaining.is_zero() {
                return Err(
                    if self.nfilters == 0 {
                        Error::NoFilterInstalled { proto: self.proto }
                    } else {
                        Error::Timeout(timeout)
                    },
                );
            }
            if let Some(m) = self.poll(dev, remaining.min(Duration::from_millis(500)))? {
                if !m.is_indication() {
                    return Ok(m);
                }
            }
            dev.sleep(Duration::from_millis(2));
            rounds = rounds - 1;
        }
    }

    /// SET_CONFIG. The firmware silently discards unknown parameters while
    /// returning success, so `Ok` proves delivery, not effect.
    pub fn set_config<T: Transport>(&mut self, dev: &mut Device<T>, param: u32, value: u32) -> (r:
        Result<(), Error>)
        requires
            old(dev)@.valid(),
        ensures
            (r, final(dev)@) == old(dev)@.on_status(
                set_config_cmd(old(self)@.proto, param, value),
                Cmd::Ioctl,
                millis(2000),
            ),
            final(dev)@.valid(),
            final(dev).kept(old(dev)),
            final(self)@ == old(self)@,
    {
        let cmd = set_config(self.proto, param, value);
        dev.transact_status(cmd.as_slice(), Cmd::Ioctl, Duration::from_millis(2000))
    }

    /// START_PERIODIC_MSG. `msg_id` is chosen by the caller (host-assigned,
    /// like a filter handle) and echoed by the firmware; pass the same value
    /// to [`RawChannel::stop_periodic`]. `msg` is capped at 12 bytes by the
    /// firmware (a 4-byte CAN id plus up to 8 data bytes).
    pub fn start_periodic<T: Transport>(
        &mut self,
        dev: &mut Device<T>,
        msg_id: u32,
        txflags: u32,
        interval_ms: u32,
        msg: &[u8],
    ) -> (r: Result<(), Error>)
        requires
            old(dev)@.valid(),
        ensures
            (r, final(dev)@) == old(dev)@.start_periodic(
                old(self)@.proto,
                msg_id,
                txflags,
                interval_ms,
                msg@,
            ),
            final(dev)@.valid(),
            final(dev).kept(old(dev)),
            final(self)@ == old(self)@,
    {
        let cmd = codec(start_periodic(self.proto, msg_id, txflags, interval_ms, msg))?;
        dev.transact_status(cmd.as_slice(), Cmd::StartPeriodicMsg, Duration::from_millis(2000))
    }

    /// STOP_PERIODIC_MSG. `msg_id` is the handle given to
    /// [`RawChannel::start_periodic`]; an unknown id is rejected
    /// ([`Error::Rejected`] with [`crate::types::DeviceStatus::InvalidMsgId`]).
    pub fn stop_periodic<T: Transport>(&mut self, dev: &mut Device<T>, msg_id: u32) -> (r: Result<
        (),
        Error,
    >)
        requires
            old(dev)@.valid(),
        ensures
            (r, final(dev)@) == old(dev)@.on_status(
                stop_periodic_cmd(old(self)@.proto, msg_id),
                Cmd::StopPeriodicMsg,
                millis(2000),
            ),
            final(dev)@.valid(),
            final(dev).kept(old(dev)),
            final(self)@ == old(self)@,
    {
        let cmd = stop_periodic(self.proto, msg_id);
        dev.transact_status(cmd.as_slice(), Cmd::StopPeriodicMsg, Duration::from_millis(2000))
    }

    pub fn clear_periodic<T: Transport>(&mut self, dev: &mut Device<T>) -> (r: Result<(), Error>)
        requires
            old(dev)@.valid(),
        ensures
            (r, final(dev)@) == old(dev)@.on_status(
                clear_periodic_cmd(old(self)@.proto),
                Cmd::Ioctl,
                millis(1000),
            ),
            final(dev)@.valid(),
            final(dev).kept(old(dev)),
            final(self)@ == old(self)@,
    {
        let cmd = clear_periodic(self.proto);
        dev.transact_status(cmd.as_slice(), Cmd::Ioctl, Duration::from_millis(1000))
    }

    /// K-line FAST_INIT; returns the ECU key bytes.
    pub fn fast_init<T: Transport>(&mut self, dev: &mut Device<T>, init: &[u8]) -> (r: Result<
        Vec<u8>,
        Error,
    >)
        requires
            old(dev)@.valid(),
        ensures
            (seen(r), final(dev)@) == old(dev)@.kline_init(
                fast_init_cmd(old(self)@.proto, init@),
            ),
            final(dev)@.valid(),
            final(dev).kept(old(dev)),
            final(self)@ == old(self)@,
    {
        let cmd = fast_init(self.proto, init);
        let resp = dev.transact(cmd.as_slice(), Duration::from_millis(3000))?;
        parse_init_reply(resp.as_slice())
    }

    /// K-line FIVE_BAUD_INIT (slow init); returns the ECU key bytes, like
    /// [`RawChannel::fast_init`]. Used by ISO9141 and older KWP sessions.
    pub fn five_baud_init<T: Transport>(&mut self, dev: &mut Device<T>, init: &[u8]) -> (r: Result<
        Vec<u8>,
        Error,
    >)
        requires
            old(dev)@.valid(),
        ensures
            (seen(r), final(dev)@) == old(dev)@.kline_init(
                five_baud_init_cmd(old(self)@.proto, init@),
            ),
            final(dev)@.valid(),
            final(dev).kept(old(dev)),
            final(self)@ == old(self)@,
    {
        let cmd = five_baud_init(self.proto, init);
        let resp = dev.transact(cmd.as_slice(), Duration::from_millis(3000))?;
        parse_init_reply(resp.as_slice())
    }

    /// IOCTL GET_CONFIG: read one config parameter back from the adapter. The
    /// reply layout is not yet hardware-confirmed; see
    /// [`crate::codec::inner::parse_get_config`].
    pub fn get_config<T: Transport>(&mut self, dev: &mut Device<T>, param: u32) -> (r: Result<
        u32,
        Error,
    >)
        requires
            old(dev)@.valid(),
        ensures
            (r, final(dev)@) == old(dev)@.ask_word(
                get_config_cmd(old(self)@.proto, param),
                millis(2000),
                "not a get-config reply",
            ),
            final(dev)@.valid(),
            final(dev).kept(old(dev)),
            final(self)@ == old(self)@,
    {
        let cmd = get_config(self.proto, param);
        let resp = dev.transact(cmd.as_slice(), Duration::from_millis(2000))?;
        codec(parse_get_config(resp.as_slice()))
    }

    /// IOCTL READ_VBATT: battery voltage in millivolts, as the adapter
    /// reports it. On the Mini-VCI this is a hardcoded 12000 (no ADC); other
    /// cables return a real reading. The reply layout is not yet
    /// hardware-confirmed; see [`crate::codec::inner::parse_vbatt`].
    pub fn read_vbatt<T: Transport>(&mut self, dev: &mut Device<T>) -> (r: Result<u32, Error>)
        requires
            old(dev)@.valid(),
        ensures
            (r, final(dev)@) == old(dev)@.ask_word(
                read_vbatt_cmd(old(self)@.proto),
                millis(1000),
                "not a read-vbatt reply",
            ),
            final(dev)@.valid(),
            final(dev).kept(old(dev)),
            final(self)@ == old(self)@,
    {
        let cmd = read_vbatt(self.proto);
        let resp = dev.transact(cmd.as_slice(), Duration::from_millis(1000))?;
        codec(parse_vbatt(resp.as_slice()))
    }
}

} // verus!
