//! One device slot: a session and the channel that is open on it.

use vstd::prelude::*;

use super::consts::{
    CAN_29BIT_ID, ERR_BUFFER_EMPTY, ERR_FAILED, ERR_INVALID_FILTER_ID, ERR_INVALID_MSG,
    ERR_NULL_PARAMETER, FLOW_CONTROL_FILTER, ISO15765_ADDR_TYPE, PASSTHRU_MSG_DATA_SIZE,
    RMVCI_HOST_ISOTP,
};
use super::msg::{
    code_for, code_of, fail, fail_with, failure, fault, fault_of, faulted, introduced, stamp_at,
    timestamp_micros, Failure, Fault, PassMsg, PassthruMsg, SConfig,
};
use crate::bytes::{copy_all, push_all};
use crate::codec::inner::{
    clear_periodic_cmd, fast_init_cmd, five_baud_init_cmd, get_config_cmd, read_vbatt_cmd,
    set_config_cmd, set_programming_voltage_cmd, stop_periodic_cmd,
};
use crate::error::Error;
use crate::isotp::client::{IsoTp, IsoTpConfig, IsoTpPath, TpState, MAX_ROUNDS};
use crate::session::actor::Session;
use crate::session::device::{Device, Setup};
use crate::session::protocol::{Can, CanConfig, CanId, Protocol};
use crate::session::raw::{ChannelState, RawChannel};
use crate::text::{decimal, push_decimal, push_text};
use crate::time::{millis, Duration, Instant};
use crate::transport::Transport;
use crate::types::{Cmd, ProtocolId};

verus! {

/// The handle of the one filter a host-path channel has.
pub const HOST_FILTER_ID: u32 = 0x000e_7c00;

/// Where the handles of filters and of periodic messages start.
pub const FILTER_BASE: u32 = 0x000e_7a00;

pub const PERIODIC_BASE: u32 = 0x000e_7b00;

/// A slot as the shim keeps it.
pub struct SlotState {
    pub session: Session,
    /// What the device was opened with.
    pub setup: Setup,
    pub chan: Option<ChannelState>,
    pub host: Option<TpState>,
    /// Numbers the handles given out.
    pub next_id: u32,
}

/// The handle number after `id`.
pub open spec fn bumped(id: u32) -> u32 {
    if id == u32::MAX {
        0
    } else {
        (id + 1) as u32
    }
}

/// The identifier width of a filter: 1 byte on K-line, a 4-byte CAN id
/// otherwise, 5 when the flow-control message asks for extended addressing.
pub open spec fn filter_width(proto: ProtocolId, flow: Option<PassMsg>) -> nat {
    if !proto.can_framed() {
        1
    } else if flow is Some && flow->0.tx_flags & ISO15765_ADDR_TYPE != 0 {
        5
    } else {
        4
    }
}

/// How a rejected write ends.
pub open spec fn write_fault(intro: &'static str, e: Error, host: bool) -> Fault {
    introduced(
        if e is Codec || (host && e is IsoTp) {
            ERR_INVALID_MSG
        } else {
            code_for(e)
        },
        intro,
        e,
    )
}

/// How a failed config call ends.
pub open spec fn config_fault(call: &'static str, param: u32, e: Error) -> Fault {
    Fault { code: code_for(e), text: call@ + decimal(param as nat) + ") failed: "@ + e.text() }
}

impl SlotState {
    /// The session is in order, and there is at most one channel.
    pub open spec fn valid(self) -> bool {
        &&& self.session.valid()
        &&& self.chan is None || self.host is None
    }

    /// The slot of a device just opened.
    pub open spec fn fresh(session: Session, setup: Setup) -> SlotState {
        SlotState { session, setup, chan: None, host: None, next_id: 1 }
    }

    pub open spec fn on(self, session: Session) -> SlotState {
        SlotState { session, ..self }
    }

    /// The slot with whatever channel it had disconnected.
    pub open spec fn release(self) -> SlotState {
        let s1 = match self.chan {
            Some(c) => self.session.on_disconnect(c.proto).1,
            None => self.session,
        };
        let s2 = match self.host {
            Some(tp) => s1.on_disconnect(tp.chan.raw.proto).1,
            None => s1,
        };
        SlotState { session: s2, chan: None, host: None, ..self }
    }

    /// The ISO-TP configuration of a host-path channel whose endpoints are not
    /// known yet.
    pub open spec fn host_config(flags: u32, baud: u32) -> IsoTpConfig {
        IsoTpConfig {
            can: CanConfig { bitrate: baud, flags },
            ..IsoTpConfig::plain(CanId::Std(0), CanId::Std(0))
        }
    }

    /// A channel opened in place of the previous one.
    pub open spec fn connect(self, proto: ProtocolId, flags: u32, baud: u32) -> (
        Result<(), Fault>,
        SlotState,
    ) {
        let clean = self.release();
        let wire_flags = flags % RMVCI_HOST_ISOTP;
        if flags >= RMVCI_HOST_ISOTP && proto is Iso15765 {
            let (r, s) = clean.session.on_connect(Can::spec_id(), wire_flags, baud);
            match r {
                Ok(()) => (
                    Ok(()),
                    SlotState {
                        session: s,
                        host: Some(
                            IsoTp::fresh(
                                IsoTpPath::Host,
                                SlotState::host_config(wire_flags, baud),
                            ),
                        ),
                        ..clean
                    },
                ),
                Err(e) => (Err(fault_of(e)), clean.on(s)),
            }
        } else {
            let (r, s) = clean.session.on_connect(proto, wire_flags, baud);
            match r {
                Ok(()) => (
                    Ok(()),
                    SlotState {
                        session: s,
                        chan: Some(ChannelState { proto, nfilters: 0 }),
                        ..clean
                    },
                ),
                Err(e) => (Err(fault_of(e)), clean.on(s)),
            }
        }
    }

    /// The extended-addressing byte a flow-control message asks for.
    pub open spec fn asked_addr(flow: PassMsg) -> Option<u8> {
        if flow.tx_flags & ISO15765_ADDR_TYPE != 0 && flow.data_size >= 5 {
            Some(flow.data[4])
        } else {
            None
        }
    }

    /// A flow-control filter on a host-path channel: it carries the endpoints.
    pub open spec fn host_filter(self, ftype: u32, pattern: PassMsg, flow: Option<PassMsg>) -> (
        Result<u32, Fault>,
        SlotState,
    ) {
        let tp = self.host->0;
        if ftype != FLOW_CONTROL_FILTER || flow is None {
            (
                Err(fault(ERR_INVALID_MSG, "host-path ISO15765 needs a FLOW_CONTROL filter")),
                self,
            )
        } else if pattern.data_size < 4 || flow->0.data_size < 4 {
            (Err(fault(ERR_INVALID_MSG, "filter identifier shorter than 4 bytes")), self)
        } else {
            let ext29 = flow->0.tx_flags & CAN_29BIT_ID != 0;
            let (r, tp1, s) = (TpState {
                cfg: IsoTpConfig {
                    tx_id: CanId::of_bytes(flow->0.data.take(4), ext29),
                    rx_id: CanId::of_bytes(pattern.data.take(4), ext29),
                    ext_addr: SlotState::asked_addr(flow->0),
                    ..tp.cfg
                },
                ..tp
            }).install(self.session);
            (
                match r {
                    Ok(()) => Ok(HOST_FILTER_ID),
                    Err(e) => Err(fault_of(e)),
                },
                SlotState { session: s, host: Some(tp1), ..self },
            )
        }
    }

    /// A filter on an ordinary channel. The handle given out is the wire id.
    pub open spec fn chan_filter(
        self,
        ftype: u32,
        mask: PassMsg,
        pattern: PassMsg,
        flow: Option<PassMsg>,
    ) -> (Result<u32, Fault>, SlotState) {
        let c = self.chan->0;
        let width = filter_width(c.proto, flow);
        if mask.data_size < width || pattern.data_size < width || (flow is Some
            && flow->0.data_size < width) {
            (
                Err(fault(ERR_INVALID_MSG, "filter message shorter than the identifier width")),
                self,
            )
        } else {
            let id = (FILTER_BASE + self.next_id % 256) as u32;
            let flow_bytes = match flow {
                Some(f) => Some(f.data.take(width as int)),
                None => None,
            };
            let (r, s) = self.session.start_filter(
                c.proto,
                id,
                ftype,
                mask.data.take(width as int),
                pattern.data.take(width as int),
                flow_bytes,
                width as usize,
            );
            match r {
                Ok(()) => (
                    Ok(id),
                    SlotState {
                        session: s,
                        chan: Some(c.one_more()),
                        next_id: bumped(self.next_id),
                        ..self
                    },
                ),
                Err(e) => (
                    Err(introduced(code_for(e), "start filter rejected: ", e)),
                    SlotState { session: s, next_id: bumped(self.next_id), ..self },
                ),
            }
        }
    }

    /// A filter taken off an ordinary channel.
    pub open spec fn chan_stop_filter(self, filter_id: u32) -> (Result<(), Fault>, SlotState) {
        let c = self.chan->0;
        let (r, s) = self.session.stop_filter(c.proto, filter_id);
        match r {
            Ok(()) => (Ok(()), SlotState { session: s, chan: Some(c.one_fewer()), ..self }),
            Err(e) => (
                Err(introduced(ERR_INVALID_FILTER_ID, "no such filter: ", e)),
                self.on(s),
            ),
        }
    }

    /// Messages `sent..` written on a host-path channel, each a 4-byte
    /// identifier and an ISO-TP payload; and how many of all went out.
    pub open spec fn host_write(self, msgs: Seq<PassMsg>, sent: nat) -> (
        Result<(), Fault>,
        nat,
        SlotState,
    )
        decreases msgs.len() - sent,
    {
        if sent >= msgs.len() {
            (Ok(()), sent, self)
        } else {
            let m = msgs[sent as int];
            if m.used() < 4 {
                (
                    Err(fault(ERR_INVALID_MSG, "ISO15765 message shorter than a 4-byte id")),
                    sent,
                    self,
                )
            } else {
                let (r, s) = self.host->0.send(
                    self.session,
                    m.data.subrange(4, m.used() as int),
                );
                match r {
                    Err(e) => (Err(write_fault("host write rejected: ", e, true)), sent, self.on(s)),
                    Ok(()) => self.on(s).host_write(msgs, sent + 1),
                }
            }
        }
    }

    /// Messages `sent..` written on an ordinary channel; and how many of all
    /// went out.
    pub open spec fn chan_write(self, msgs: Seq<PassMsg>, sent: nat) -> (
        Result<(), Fault>,
        nat,
        SlotState,
    )
        decreases msgs.len() - sent,
    {
        if sent >= msgs.len() {
            (Ok(()), sent, self)
        } else {
            let m = msgs[sent as int];
            if m.data_size > PASSTHRU_MSG_DATA_SIZE {
                (
                    Err(fault(ERR_INVALID_MSG, "DataSize exceeds the message buffer")),
                    sent,
                    self,
                )
            } else {
                let (r, s) = self.session.write(
                    self.chan->0.proto,
                    m.tx_flags,
                    m.data.take(m.data_size as int),
                );
                match r {
                    Err(e) => (Err(write_fault("write rejected: ", e, false)), sent, self.on(s)),
                    Ok(()) => self.on(s).chan_write(msgs, sent + 1),
                }
            }
        }
    }

    /// Whole messages reassembled on a host-path channel until `want` have come
    /// or `deadline` has passed, after those in `got`.
    pub open spec fn host_read(
        self,
        epoch: Instant,
        deadline: Instant,
        want: nat,
        got: Seq<PassMsg>,
    ) -> (Result<(), Fault>, Seq<PassMsg>, SlotState)
        decreases want - got.len(),
    {
        let tp = self.host->0;
        if got.len() >= want {
            (SlotState::heard(got, "no message"), got, self)
        } else {
            let (now, w1) = self.session.world.clock();
            match tp.recv(self.session.in_world(w1), now.spec_until(deadline)) {
                (Ok(payload), s2) => {
                    let (at, w3) = s2.world.clock();
                    let m = PassMsg::received(
                        ProtocolId::Iso15765.id(),
                        0,
                        stamp_at(epoch, at),
                        tp.cfg.rx_id.bytes() + payload,
                    );
                    self.on(s2.in_world(w3)).host_read(epoch, deadline, want, got.push(m))
                },
                (Err(Error::Timeout(_)), s2) => (
                    SlotState::heard(got, "no message"),
                    got,
                    self.on(s2),
                ),
                (Err(e), s2) => (Err(fault_of(e)), got, self.on(s2)),
            }
        }
    }

    /// How a read ends that has run its course.
    pub open spec fn heard(got: Seq<PassMsg>, otherwise: &'static str) -> Result<(), Fault> {
        if got.len() == 0 {
            Err(fault(ERR_BUFFER_EMPTY, otherwise))
        } else {
            Ok(())
        }
    }

    /// What to say when nothing was heard. The adapter's acceptance filter
    /// starts empty and enabled: a channel with no filter installed receives
    /// nothing at all, which looks exactly like an unresponsive vehicle.
    pub open spec fn silence(c: ChannelState) -> &'static str {
        if c.nfilters == 0 {
            "no message (no filter installed; this adapter receives nothing until PassThruStartMsgFilter is called)"
        } else {
            "no message"
        }
    }

    /// Messages polled on an ordinary channel until `want` have come or
    /// `deadline` has passed, after those in `got`, giving up after `rounds`
    /// polls that found nothing.
    pub open spec fn chan_read(
        self,
        epoch: Instant,
        deadline: Instant,
        want: nat,
        got: Seq<PassMsg>,
        rounds: nat,
    ) -> (Result<(), Fault>, Seq<PassMsg>, SlotState)
        decreases want - got.len(), rounds,
    {
        let c = self.chan->0;
        let over = SlotState::heard(got, SlotState::silence(c));
        if got.len() >= want {
            (over, got, self)
        } else {
            match self.session.on_poll(c.proto, millis(200)) {
                (Err(e), s1) => (Err(fault_of(e)), got, self.on(s1)),
                (Ok(Some(m)), s1) => {
                    let (at, w2) = s1.world.clock();
                    let out = PassMsg::received(
                        c.proto.id(),
                        m.status.word,
                        stamp_at(epoch, at),
                        m.data,
                    );
                    self.on(s1.in_world(w2)).chan_read(
                        epoch,
                        deadline,
                        want,
                        got.push(out),
                        rounds,
                    )
                },
                (Ok(None), s1) => {
                    let (now, w2) = s1.world.clock();
                    if now.nanos >= deadline.nanos || rounds == 0 {
                        (over, got, self.on(s1.in_world(w2)))
                    } else {
                        self.on(s1.in_world(w2.slept(millis(5)))).chan_read(
                            epoch,
                            deadline,
                            want,
                            got,
                            (rounds - 1) as nat,
                        )
                    }
                },
            }
        }
    }

    /// Parameters `done..` set, one wire call each.
    pub open spec fn set_configs(self, params: Seq<SConfig>, done: nat) -> (
        Result<(), Fault>,
        SlotState,
    )
        decreases params.len() - done,
    {
        if done >= params.len() {
            (Ok(()), self)
        } else {
            let p = params[done as int];
            let (r, s) = self.session.on_status(
                set_config_cmd(self.chan->0.proto, p.parameter, p.value),
                Cmd::Ioctl,
                millis(2000),
            );
            match r {
                Err(e) => (Err(config_fault("set_config(", p.parameter, e)), self.on(s)),
                Ok(()) => self.on(s).set_configs(params, done + 1),
            }
        }
    }

    /// Parameters `done..` read, one wire call each: the list with the values
    /// filled in as far as the reads succeeded.
    pub open spec fn get_configs(self, params: Seq<SConfig>, done: nat) -> (
        Result<(), Fault>,
        Seq<SConfig>,
        SlotState,
    )
        decreases params.len() - done,
    {
        if done >= params.len() {
            (Ok(()), params, self)
        } else {
            let p = params[done as int];
            let (r, s) = self.session.ask_word(
                get_config_cmd(self.chan->0.proto, p.parameter),
                millis(2000),
                "not a get-config reply",
            );
            match r {
                Err(e) => (Err(config_fault("get_config(", p.parameter, e)), params, self.on(s)),
                Ok(v) => self.on(s).get_configs(
                    params.update(done as int, SConfig { parameter: p.parameter, value: v }),
                    done + 1,
                ),
            }
        }
    }

    /// The battery voltage.
    pub open spec fn read_vbatt(self) -> (Result<u32, Fault>, SlotState) {
        let (r, s) = self.session.ask_word(
            read_vbatt_cmd(self.chan->0.proto),
            millis(1000),
            "not a read-vbatt reply",
        );
        match r {
            Err(e) => (Err(fault_of(e)), self.on(s)),
            Ok(v) => (Ok(v), self.on(s)),
        }
    }

    /// Periodic messages cleared.
    pub open spec fn clear_periodic(self) -> (Result<(), Fault>, SlotState) {
        let (r, s) = self.session.on_status(
            clear_periodic_cmd(self.chan->0.proto),
            Cmd::Ioctl,
            millis(1000),
        );
        match r {
            Err(e) => (Err(fault_of(e)), self.on(s)),
            Ok(()) => (Ok(()), self.on(s)),
        }
    }

    /// A K-line init: the init message in, the ECU key bytes out.
    pub open spec fn kline_init(self, input: Option<PassMsg>, slow: bool) -> (
        Result<PassMsg, Fault>,
        SlotState,
    ) {
        let proto = self.chan->0.proto;
        if input is None || input->0.data_size == 0 {
            (Err(fault(ERR_NULL_PARAMETER, "NULL/empty init message")), self)
        } else {
            let init = input->0.data.take(input->0.used() as int);
            let (r, s) = self.session.kline_init(
                if slow {
                    five_baud_init_cmd(proto, init)
                } else {
                    fast_init_cmd(proto, init)
                },
            );
            match r {
                Err(e) => (Err(introduced(ERR_FAILED, "init failed: ", e)), self.on(s)),
                Ok(reply) => (Ok(PassMsg::received(proto.id(), 0, 0, reply)), self.on(s)),
            }
        }
    }

    /// A periodic message started; the handle given out is the wire id.
    pub open spec fn start_periodic(self, m: PassMsg, interval: u32) -> (
        Result<u32, Fault>,
        SlotState,
    ) {
        let id = (PERIODIC_BASE + self.next_id % 256) as u32;
        let (r, s) = self.session.start_periodic(
            self.chan->0.proto,
            id,
            m.tx_flags,
            interval,
            m.data.take(m.used() as int),
        );
        let after = SlotState { session: s, next_id: bumped(self.next_id), ..self };
        match r {
            Err(e) => (Err(fault_of(e)), after),
            Ok(()) => (Ok(id), after),
        }
    }

    /// The programming voltage of a pin, passed through.
    pub open spec fn set_voltage(self, pin: u32, millivolts: u32) -> (
        Result<(), Fault>,
        SlotState,
    ) {
        let (r, s) = self.session.on_status(
            set_programming_voltage_cmd(pin, millivolts),
            Cmd::SetProgrammingVoltage,
            millis(2000),
        );
        match r {
            Err(e) => (Err(fault_of(e)), self.on(s)),
            Ok(()) => (Ok(()), self.on(s)),
        }
    }

    /// When a read that may take `timeout` milliseconds, and at least one, is to
    /// end.
    pub open spec fn deadline_in(self, timeout: u64) -> (Instant, SlotState) {
        let (now, w) = self.session.world.clock();
        let ms = if timeout == 0 {
            1
        } else {
            timeout
        };
        (now.spec_plus(millis(ms as nat)), self.on(self.session.in_world(w)))
    }

    pub open spec fn stop_periodic(self, msg_id: u32) -> (Result<(), Fault>, SlotState) {
        let (r, s) = self.session.on_status(
            stop_periodic_cmd(self.chan->0.proto, msg_id),
            Cmd::StopPeriodicMsg,
            millis(2000),
        );
        match r {
            Err(e) => (
                Err(introduced(code_for(e), "no such periodic msg: ", e)),
                self.on(s),
            ),
            Ok(()) => (Ok(()), self.on(s)),
        }
    }
}

pub struct Slot<T: Transport> {
    device: Device<T>,
    chan: Option<RawChannel>,
    /// Set instead of `chan` when the channel was opened with
    /// `RMVCI_HOST_ISOTP`: ISO15765 done host-side over raw CAN (protocol 5).
    host: Option<IsoTp>,
    next_id: u32,
}

impl<T: Transport> View for Slot<T> {
    type V = SlotState;

    closed spec fn view(&self) -> SlotState {
        SlotState {
            session: self.device@,
            setup: self.device.setup(),
            chan: match self.chan {
                Some(c) => Some(c@),
                None => None,
            },
            host: match self.host {
                Some(tp) => Some(tp@),
                None => None,
            },
            next_id: self.next_id,
        }
    }
}

/// The messages of a list.
pub open spec fn pass_msgs(msgs: Seq<PassthruMsg>) -> Seq<PassMsg> {
    msgs.map_values(|m: PassthruMsg| m@)
}

fn four(bytes: &Vec<u8>) -> (r: [u8; 4])
    requires
        bytes.len() >= 4,
    ensures
        r@ == bytes@.take(4),
{
    let r = [bytes[0], bytes[1], bytes[2], bytes[3]];
    assert(r@ =~= bytes@.take(4));
    r
}

impl<T: Transport> Slot<T> {
    /// A slot for a device just opened.
    pub fn new(device: Device<T>) -> (r: Slot<T>)
        ensures
            r@ == SlotState::fresh(device@, device.setup()),
    {
        Slot { device, chan: None, host: None, next_id: 1 }
    }

    pub fn has_chan(&self) -> (r: bool)
        ensures
            r == (self@.chan is Some),
    {
        self.chan.is_some()
    }

    pub fn has_host(&self) -> (r: bool)
        ensures
            r == (self@.host is Some),
    {
        self.host.is_some()
    }

    /// Disconnect whatever channel there is.
    pub fn release(&mut self)
        requires
            old(self)@.valid(),
        ensures
            final(self)@ == old(self)@.release(),
            final(self)@.valid(),
    {
        if let Some(c) = self.chan.take() {
            c.release(&mut self.device);
        }
        if let Some(tp) = self.host.take() {
            tp.release(&mut self.device);
        }
    }

    /// Disconnect the channel, close the session, and give the port up.
    pub fn close(self) -> (io: T)
        requires
            self@.valid(),
        ensures
            io.world() == self@.release().session.teardown().world,
    {
        let mut slot = self;
        slot.release();
        slot.device.close()
    }

    pub fn connect(&mut self, proto: ProtocolId, flags: u32, baud: u32) -> (r: Result<(), Failure>)
        requires
            old(self)@.valid(),
        ensures
            (faulted(r), final(self)@) == old(self)@.connect(proto, flags, baud),
            final(self)@.valid(),
    {
        // One channel per device slot: any existing channel is dropped first.
        self.release();
        let wire_flags: u32 = flags % RMVCI_HOST_ISOTP;
        if flags >= RMVCI_HOST_ISOTP && proto == ProtocolId::Iso15765 {
            let can = CanConfig { bitrate: baud, flags: wire_flags };
            // Endpoints arrive later via the flow-control filter.
            let cfg = IsoTpConfig::new(CanId::Std(0), CanId::Std(0)).with_can(can);
            return match IsoTp::connect_deferred(&mut self.device, cfg) {
                Ok(tp) => {
                    self.host = Some(tp);
                    Ok(())
                },
                Err(e) => Err(fail(&e)),
            };
        }
        match self.device.connect_raw(proto, wire_flags, baud) {
            Ok(chan) => {
                self.chan = Some(chan);
                Ok(())
            },
            Err(e) => Err(fail(&e)),
        }
    }

    pub fn host_filter(&mut self, ftype: u32, pattern: &PassthruMsg, flow: Option<&PassthruMsg>) -> (r:
        Result<u32, Failure>)
        requires
            old(self)@.valid(),
            old(self)@.host is Some,
            pattern@.whole(),
            flow is Some ==> flow->0@.whole(),
        ensures
            ({
                let f = match flow {
                    Some(m) => Some(m@),
                    None => None,
                };
                (faulted(r), final(self)@) == old(self)@.host_filter(ftype, pattern@, f)
            }),
            final(self)@.valid(),
    {
        if let Some(flow) = flow {
            if ftype == FLOW_CONTROL_FILTER {
                if pattern.data_size < 4 || flow.data_size < 4 {
                    return Err(
                        failure(ERR_INVALID_MSG, "filter identifier shorter than 4 bytes"),
                    );
                }
                let ext29: bool = flow.tx_flags & CAN_29BIT_ID != 0;
                let rx = CanId::from_wire(four(&pattern.data), ext29);
                let tx = CanId::from_wire(four(&flow.data), ext29);
                let ext_addr: Option<u8> = if flow.tx_flags & ISO15765_ADDR_TYPE != 0
                    && flow.data_size >= 5 {
                    Some(flow.data[4])
                } else {
                    None
                };
                if let Some(tp) = &mut self.host {
                    return match tp.set_endpoints(&mut self.device, tx, rx, ext_addr) {
                        // One filter per host channel; a fixed handle is enough.
                        Ok(()) => Ok(HOST_FILTER_ID),
                        Err(e) => Err(fail(&e)),
                    };
                }
            }
        }
        Err(failure(ERR_INVALID_MSG, "host-path ISO15765 needs a FLOW_CONTROL filter"))
    }

    pub fn chan_filter(
        &mut self,
        ftype: u32,
        mask: &PassthruMsg,
        pattern: &PassthruMsg,
        flow: Option<&PassthruMsg>,
    ) -> (r: Result<u32, Failure>)
        requires
            old(self)@.valid(),
            old(self)@.chan is Some,
            mask@.whole(),
            pattern@.whole(),
            flow is Some ==> flow->0@.whole(),
        ensures
            ({
                let f = match flow {
                    Some(m) => Some(m@),
                    None => None,
                };
                (faulted(r), final(self)@) == old(self)@.chan_filter(ftype, mask@, pattern@, f)
            }),
            final(self)@.valid(),
    {
        let id: u32 = FILTER_BASE + self.next_id % 256;
        let next: u32 = self.next_id.wrapping_add(1);
        match &mut self.chan {
            Some(chan) => {
                let width: usize = if !chan.proto().is_can() {
                    1
                } else {
                    match flow {
                        Some(f) => if f.tx_flags & ISO15765_ADDR_TYPE != 0 {
                            5
                        } else {
                            4
                        },
                        None => 4,
                    }
                };
                let flow_short: bool = match flow {
                    Some(f) => (f.data_size as usize) < width,
                    None => false,
                };
                if (mask.data_size as usize) < width || (pattern.data_size as usize) < width
                    || flow_short {
                    return Err(
                        failure(
                            ERR_INVALID_MSG,
                            "filter message shorter than the identifier width",
                        ),
                    );
                }
                let flow_bytes = match flow {
                    Some(f) => Some(&f.data.as_slice()[0..width]),
                    None => None,
                };
                let mask_bytes = &mask.data.as_slice()[0..width];
                let pattern_bytes = &pattern.data.as_slice()[0..width];
                proof {
                    assert(mask_bytes@ =~= mask.data@.take(width as int));
                    assert(pattern_bytes@ =~= pattern.data@.take(width as int));
                    if flow is Some {
                        assert(flow_bytes->0@ =~= flow->0.data@.take(width as int));
                    }
                }
                let r = chan.start_filter(
                    &mut self.device,
                    id,
                    ftype,
                    mask_bytes,
                    pattern_bytes,
                    flow_bytes,
                    width,
                );
                self.next_id = next;
                match r {
                    Ok(()) => Ok(id),
                    Err(e) => Err(fail_with(code_of(&e), "start filter rejected: ", &e)),
                }
            },
            None => Err(failure(ERR_INVALID_MSG, "")),
        }
    }

    pub fn chan_stop_filter(&mut self, filter_id: u32) -> (r: Result<(), Failure>)
        requires
            old(self)@.valid(),
            old(self)@.chan is Some,
        ensures
            (faulted(r), final(self)@) == old(self)@.chan_stop_filter(filter_id),
            final(self)@.valid(),
    {
        match &mut self.chan {
            Some(chan) => match chan.stop_filter(&mut self.device, filter_id) {
                Ok(()) => Ok(()),
                Err(e) => Err(fail_with(ERR_INVALID_FILTER_ID, "no such filter: ", &e)),
            },
            None => Ok(()),
        }
    }

    /// The host-path write: how it ended, and how many messages went out.
    pub fn host_write(&mut self, msgs: &[PassthruMsg]) -> (r: (Result<(), Failure>, usize))
        requires
            old(self)@.valid(),
            old(self)@.host is Some,
            forall|i: int| 0 <= i < msgs@.len() ==> (#[trigger] msgs@[i])@.whole(),
        ensures
            (faulted(r.0), r.1 as nat, final(self)@) == old(self)@.host_write(
                pass_msgs(msgs@),
                0,
            ),
            final(self)@.valid(),
            final(self)@.host is Some,
    {
        let mut sent: usize = 0;
        while sent < msgs.len()
            invariant
                sent <= msgs.len(),
                self@.valid(),
                self@.host is Some,
                forall|i: int| 0 <= i < msgs@.len() ==> (#[trigger] msgs@[i])@.whole(),
                self@.host_write(pass_msgs(msgs@), sent as nat) == old(self)@.host_write(
                    pass_msgs(msgs@),
                    0,
                ),
            decreases msgs.len() - sent,
        {
            let m = &msgs[sent];
            assert(pass_msgs(msgs@)[sent as int] == m@);
            let size: usize = m.used();
            if size < 4 {
                return (
                    Err(failure(ERR_INVALID_MSG, "ISO15765 message shorter than a 4-byte id")),
                    sent,
                );
            }
            if let Some(tp) = &mut self.host {
                if let Err(e) = tp.send(&mut self.device, &m.data.as_slice()[4..size]) {
                    let code: i32 = match &e {
                        Error::Codec(_) => ERR_INVALID_MSG,
                        Error::IsoTp(_) => ERR_INVALID_MSG,
                        other => code_of(other),
                    };
                    return (Err(fail_with(code, "host write rejected: ", &e)), sent);
                }
            }
            sent = sent + 1;
        }
        (Ok(()), sent)
    }

    /// The ordinary write: how it ended, and how many messages went out.
    pub fn chan_write(&mut self, msgs: &[PassthruMsg]) -> (r: (Result<(), Failure>, usize))
        requires
            old(self)@.valid(),
            old(self)@.chan is Some,
            forall|i: int| 0 <= i < msgs@.len() ==> (#[trigger] msgs@[i])@.whole(),
        ensures
            (faulted(r.0), r.1 as nat, final(self)@) == old(self)@.chan_write(
                pass_msgs(msgs@),
                0,
            ),
            final(self)@.valid(),
    {
        let mut sent: usize = 0;
        while sent < msgs.len()
            invariant
                sent <= msgs.len(),
                self@.valid(),
                self@.chan is Some,
                forall|i: int| 0 <= i < msgs@.len() ==> (#[trigger] msgs@[i])@.whole(),
                self@.chan_write(pass_msgs(msgs@), sent as nat) == old(self)@.chan_write(
                    pass_msgs(msgs@),
                    0,
                ),
            decreases msgs.len() - sent,
        {
            let m = &msgs[sent];
            assert(pass_msgs(msgs@)[sent as int] == m@);
            let size: usize = m.data_size as usize;
            if size > PASSTHRU_MSG_DATA_SIZE {
                return (
                    Err(failure(ERR_INVALID_MSG, "DataSize exceeds the message buffer")),
                    sent,
                );
            }
            let bytes = &m.data.as_slice()[0..size];
            assert(bytes@ =~= m.data@.take(size as int));
            if let Some(chan) = &mut self.chan {
                // TxFlags reaches the adapter: 29-bit ids, frame padding and
                // extended addressing are selected per message.
                if let Err(e) = chan.write(&mut self.device, m.tx_flags, bytes) {
                    let code: i32 = match &e {
                        Error::Codec(_) => ERR_INVALID_MSG,
                        other => code_of(other),
                    };
                    return (Err(fail_with(code, "write rejected: ", &e)), sent);
                }
            }
            sent = sent + 1;
        }
        (Ok(()), sent)
    }

    /// The host-path read: how it ended, and the messages that came.
    pub fn host_read(&mut self, epoch: Instant, deadline: Instant, want: u64) -> (r: (
        Result<(), Failure>,
        Vec<PassthruMsg>,
    ))
        requires
            old(self)@.valid(),
            old(self)@.host is Some,
        ensures
            (faulted(r.0), pass_msgs(r.1@), final(self)@) == old(self)@.host_read(
                epoch,
                deadline,
                want as nat,
                Seq::empty(),
            ),
            r.1@.len() <= want,
            final(self)@.valid(),
    {
        let mut got: Vec<PassthruMsg> = Vec::new();
        let mut count: u64 = 0;
        assert(pass_msgs(got@) =~= Seq::empty());
        while count < want
            invariant_except_break
                self@.valid(),
                self@.host is Some,
                count == got@.len() <= want,
                self@.host_read(epoch, deadline, want as nat, pass_msgs(got@)) == old(
                    self,
                )@.host_read(epoch, deadline, want as nat, Seq::empty()),
            ensures
                self@.valid(),
                count == got@.len() <= want,
                (
                    SlotState::heard(pass_msgs(got@), "no message"),
                    pass_msgs(got@),
                    self@,
                ) == old(self)@.host_read(epoch, deadline, want as nat, Seq::empty()),
            decreases want - count,
        {
            let remaining = self.device.now().until(deadline);
            if let Some(tp) = &mut self.host {
                match tp.recv(&mut self.device, remaining) {
                    Ok(payload) => {
                        let at = self.device.now();
                        let mut bytes: Vec<u8> = copy_all(tp.rx_id().to_wire().as_slice());
                        push_all(&mut bytes, payload.as_slice());
                        let m = PassthruMsg::received(
                            ProtocolId::Iso15765.wire(),
                            0,
                            timestamp_micros(epoch, at),
                            bytes.as_slice(),
                        );
                        assert(pass_msgs(got@.push(m)) =~= pass_msgs(got@).push(m@));
                        got.push(m);
                        count = count + 1;
                    },
                    Err(Error::Timeout(_)) => {
                        break;
                    },
                    Err(e) => {
                        return (Err(fail(&e)), got);
                    },
                }
            }
        }
        if count == 0 {
            return (Err(failure(ERR_BUFFER_EMPTY, "no message")), got);
        }
        (Ok(()), got)
    }

    /// The ordinary read: how it ended, and the messages that came.
    pub fn chan_read(&mut self, epoch: Instant, deadline: Instant, want: u64) -> (r: (
        Result<(), Failure>,
        Vec<PassthruMsg>,
    ))
        requires
            old(self)@.valid(),
            old(self)@.chan is Some,
        ensures
            (faulted(r.0), pass_msgs(r.1@), final(self)@) == old(self)@.chan_read(
                epoch,
                deadline,
                want as nat,
                Seq::empty(),
                MAX_ROUNDS as nat,
            ),
            r.1@.len() <= want,
            final(self)@.valid(),
    {
        let mut got: Vec<PassthruMsg> = Vec::new();
        let mut count: u64 = 0;
        let mut rounds: u64 = MAX_ROUNDS;
        let silent: &'static str = match &self.chan {
            Some(c) => if c.filters_installed() == 0 {
                "no message (no filter installed; this adapter receives nothing until PassThruStartMsgFilter is called)"
            } else {
                "no message"
            },
            None => "no message",
        };
        assert(pass_msgs(got@) =~= Seq::empty());
        while count < want
            invariant_except_break
                self@.valid(),
                self@.chan == old(self)@.chan,
                self@.chan is Some,
                count == got@.len() <= want,
                silent == SlotState::silence(self@.chan->0),
                self@.chan_read(epoch, deadline, want as nat, pass_msgs(got@), rounds as nat)
                    == old(self)@.chan_read(
                    epoch,
                    deadline,
                    want as nat,
                    Seq::empty(),
                    MAX_ROUNDS as nat,
                ),
            ensures
                self@.valid(),
                count == got@.len() <= want,
                (SlotState::heard(pass_msgs(got@), silent), pass_msgs(got@), self@) == old(
                    self,
                )@.chan_read(epoch, deadline, want as nat, Seq::empty(), MAX_ROUNDS as nat),
            decreases want - count, rounds,
        {
            if let Some(chan) = &mut self.chan {
                match chan.poll(&mut self.device, Duration::from_millis(200)) {
                    Ok(Some(m)) => {
                        let at = self.device.now();
                        let out = PassthruMsg::received(
                            chan.proto().wire(),
                            m.rx_status.bits(),
                            timestamp_micros(epoch, at),
                            m.data.as_slice(),
                        );
                        assert(pass_msgs(got@.push(out)) =~= pass_msgs(got@).push(out@));
                        got.push(out);
                        count = count + 1;
                    },
                    Ok(None) => {
                        let now = self.device.now();
                        if now.nanos >= deadline.nanos || rounds == 0 {
                            break;
                        }
                        self.device.sleep(Duration::from_millis(5));
                        rounds = rounds - 1;
                    },
                    Err(e) => {
                        return (Err(fail(&e)), got);
                    },
                }
            }
        }
        if count == 0 {
            return (Err(failure(ERR_BUFFER_EMPTY, silent)), got);
        }
        (Ok(()), got)
    }

    /// Set each parameter of a list. The firmware takes one parameter per
    /// SET_CONFIG command, so the list is fanned out into individual wire calls.
    pub fn set_configs(&mut self, params: &Vec<SConfig>) -> (r: Result<(), Failure>)
        requires
            old(self)@.valid(),
            old(self)@.chan is Some,
        ensures
            (faulted(r), final(self)@) == old(self)@.set_configs(params@, 0),
            final(self)@.valid(),
    {
        let mut done: usize = 0;
        while done < params.len()
            invariant
                done <= params.len(),
                self@.valid(),
                self@.chan is Some,
                self@.set_configs(params@, done as nat) == old(self)@.set_configs(params@, 0),
            decreases params.len() - done,
        {
            let p = params[done];
            if let Some(chan) = &mut self.chan {
                if let Err(e) = chan.set_config(&mut self.device, p.parameter, p.value) {
                    return Err(config_failure("set_config(", p.parameter, &e));
                }
            }
            done = done + 1;
        }
        Ok(())
    }

    /// Read each parameter of a list, filling in the values in place.
    pub fn get_configs(&mut self, params: &mut Vec<SConfig>) -> (r: Result<(), Failure>)
        requires
            old(self)@.valid(),
            old(self)@.chan is Some,
        ensures
            (faulted(r), final(params)@, final(self)@) == old(self)@.get_configs(
                old(params)@,
                0,
            ),
            final(self)@.valid(),
    {
        let mut done: usize = 0;
        while done < params.len()
            invariant
                done <= params.len(),
                self@.valid(),
                self@.chan is Some,
                self@.get_configs(params@, done as nat) == old(self)@.get_configs(
                    old(params)@,
                    0,
                ),
            decreases params.len() - done,
        {
            let p = params[done];
            if let Some(chan) = &mut self.chan {
                match chan.get_config(&mut self.device, p.parameter) {
                    Ok(v) => {
                        params[done] = SConfig { parameter: p.parameter, value: v };
                    },
                    Err(e) => {
                        return Err(config_failure("get_config(", p.parameter, &e));
                    },
                }
            }
            done = done + 1;
        }
        Ok(())
    }

    pub fn read_vbatt(&mut self) -> (r: Result<u32, Failure>)
        requires
            old(self)@.valid(),
            old(self)@.chan is Some,
        ensures
            (faulted(r), final(self)@) == old(self)@.read_vbatt(),
            final(self)@.valid(),
    {
        match &mut self.chan {
            Some(chan) => match chan.read_vbatt(&mut self.device) {
                Ok(v) => Ok(v),
                Err(e) => Err(fail(&e)),
            },
            None => Ok(0),
        }
    }

    pub fn clear_periodic(&mut self) -> (r: Result<(), Failure>)
        requires
            old(self)@.valid(),
            old(self)@.chan is Some,
        ensures
            (faulted(r), final(self)@) == old(self)@.clear_periodic(),
            final(self)@.valid(),
    {
        match &mut self.chan {
            Some(chan) => match chan.clear_periodic(&mut self.device) {
                Ok(()) => Ok(()),
                Err(e) => Err(fail(&e)),
            },
            None => Ok(()),
        }
    }

    /// Shared body of the K-line init IOCTLs (FAST_INIT / FIVE_BAUD_INIT): the
    /// init message goes in, the ECU key bytes come out as a message.
    pub fn kline_init(&mut self, input: Option<&PassthruMsg>, slow: bool) -> (r: Result<
        PassthruMsg,
        Failure,
    >)
        requires
            old(self)@.valid(),
            old(self)@.chan is Some,
            input is Some ==> input->0@.whole(),
        ensures
            ({
                let owed = old(self)@.kline_init(
                    match input {
                        Some(m) => Some(m@),
                        None => None,
                    },
                    slow,
                );
                &&& final(self)@ == owed.1
                &&& match r {
                    Ok(m) => owed.0 == Ok::<PassMsg, Fault>(m@),
                    Err(f) => owed.0 == Err::<PassMsg, Fault>(f@),
                }
            }),
            final(self)@.valid(),
    {
        if let Some(inp) = input {
            if inp.data_size != 0 {
                let n: usize = inp.used();
                let init = &inp.data.as_slice()[0..n];
                assert(init@ =~= inp.data@.take(n as int));
                if let Some(chan) = &mut self.chan {
                    let run = if slow {
                        chan.five_baud_init(&mut self.device, init)
                    } else {
                        chan.fast_init(&mut self.device, init)
                    };
                    return match run {
                        Ok(reply) => Ok(
                            PassthruMsg::received(chan.proto().wire(), 0, 0, reply.as_slice()),
                        ),
                        Err(e) => Err(fail_with(ERR_FAILED, "init failed: ", &e)),
                    };
                }
            }
        }
        Err(failure(ERR_NULL_PARAMETER, "NULL/empty init message"))
    }

    /// Start a periodic message. The MsgID is host-assigned, like a filter
    /// handle; a distinct base keeps periodic handles from colliding visually
    /// with filter handles. StopPeriodicMsg passes it straight back.
    pub fn start_periodic(&mut self, m: &PassthruMsg, interval: u32) -> (r: Result<u32, Failure>)
        requires
            old(self)@.valid(),
            old(self)@.chan is Some,
            m@.whole(),
        ensures
            (faulted(r), final(self)@) == old(self)@.start_periodic(m@, interval),
            final(self)@.valid(),
    {
        let id: u32 = PERIODIC_BASE + self.next_id % 256;
        self.next_id = self.next_id.wrapping_add(1);
        let bytes = &m.data.as_slice()[0..m.used()];
        assert(bytes@ =~= m.data@.take(m@.used() as int));
        match &mut self.chan {
            Some(chan) => match chan.start_periodic(
                &mut self.device,
                id,
                m.tx_flags,
                interval,
                bytes,
            ) {
                Ok(()) => Ok(id),
                Err(e) => Err(fail(&e)),
            },
            None => Ok(id),
        }
    }

    pub fn stop_periodic(&mut self, msg_id: u32) -> (r: Result<(), Failure>)
        requires
            old(self)@.valid(),
            old(self)@.chan is Some,
        ensures
            (faulted(r), final(self)@) == old(self)@.stop_periodic(msg_id),
            final(self)@.valid(),
    {
        match &mut self.chan {
            Some(chan) => match chan.stop_periodic(&mut self.device, msg_id) {
                Ok(()) => Ok(()),
                Err(e) => Err(fail_with(code_of(&e), "no such periodic msg: ", &e)),
            },
            None => Ok(()),
        }
    }

    /// SET_PROGRAMMING_VOLTAGE, passed through to the firmware.
    pub fn set_programming_voltage(&mut self, pin: u32, millivolts: u32) -> (r: Result<
        (),
        Failure,
    >)
        requires
            old(self)@.valid(),
        ensures
            (faulted(r), final(self)@) == old(self)@.set_voltage(pin, millivolts),
            final(self)@.valid(),
    {
        match self.device.set_programming_voltage(pin, millivolts) {
            Ok(()) => Ok(()),
            Err(e) => Err(fail(&e)),
        }
    }

    /// When a read that may take `timeout` milliseconds is to end.
    pub fn deadline_in(&mut self, timeout: u64) -> (t: Instant)
        requires
            old(self)@.valid(),
        ensures
            (t, final(self)@) == old(self)@.deadline_in(timeout),
            final(self)@.valid(),
    {
        let ms: u64 = if timeout == 0 {
            1
        } else {
            timeout
        };
        self.device.now().plus(Duration::from_millis(ms))
    }
}

fn config_failure(call: &'static str, param: u32, e: &Error) -> (f: Failure)
    ensures
        f@ == config_fault(call, param, *e),
{
    let mut text = call.to_owned();
    push_decimal(&mut text, param as u64);
    push_text(&mut text, ") failed: ");
    push_text(&mut text, e.message().as_str());
    Failure { code: code_of(e), text }
}

} // verus!
