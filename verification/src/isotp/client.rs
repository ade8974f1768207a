//! ISO-TP over the cable.

use vstd::prelude::*;

use super::machine::{
    head, RxEvent, RxMachine, RxModel, RxPhase, RxStep, TxAction, TxMachine, TxModel, TxStep,
    MAX_PAYLOAD,
};
use super::pending::{drain_pending, drained, Receive, UdsTransport, MAX_RESPONSE_PENDING};
use crate::bytes::{copy_range, push_all, same_bytes};
use crate::error::{isotp, seen, Error, IsoTpError};
use crate::session::actor::{seen_msg, Session};
use crate::session::channel::{Channel, TypedState};
use crate::session::device::{Device, Setup};
use crate::session::protocol::{
    Can, CanConfig, CanFilter, CanId, ChannelConfig, FilterFields, FilterSpec, FlowControlFilter,
    Iso15765, Protocol,
};
use crate::time::{millis, Duration, Instant};
use crate::transport::Transport;
use crate::types::{RxMsg, RxMsgView, TxFlags, RX_ADDR_TYPE, TX_ISO15765_ADDR_TYPE};

verus! {

/// The rounds after which a transfer is given up even if the clock stands
/// still.
pub const MAX_ROUNDS: u64 = u64::MAX;

/// Which side of the cable runs ISO 15765-2.
///
/// The cable has a single global receive owner, so one [`IsoTp`] exists per
/// device at a time, on one path or the other, never both.
#[derive(Debug, Clone, Copy, PartialEq, Eq, Structural)]
pub enum IsoTpPath {
    /// The cable firmware segments and reassembles (protocol 6). One serial
    /// exchange per request: the fast path, and the default. Two firmware
    /// limits apply: transmit above 255 bytes is malformed (so [`IsoTp::send`]
    /// refuses it) and the ECU's flow-control BS/STmin are ignored.
    Firmware,
    /// This crate segments and reassembles over a raw CAN channel (protocol 5):
    /// full 12-bit FF_DL to 4095 bytes, BS and STmin honoured, FS=WAIT/OVFLW
    /// handled. Correct but slow: every CAN frame is a serial round trip.
    Host,
}

impl Default for IsoTpPath {
    fn default() -> (r: IsoTpPath)
        ensures
            r is Firmware,
    {
        IsoTpPath::Firmware
    }
}

/// Endpoints and timing for an [`IsoTp`] channel.
#[derive(Debug, Clone, Copy)]
pub struct IsoTpConfig {
    /// Identifier we transmit on.
    pub tx_id: CanId,
    /// Identifier the ECU answers (and sends flow control) on.
    pub rx_id: CanId,
    /// Bus bitrate and connect flags (default 500 kbit/s).
    pub can: CanConfig,
    /// Block size we advertise when receiving (0 = unlimited). The adapter's
    /// RX ring holds ~1500 bytes (~100 frames); advertise 16 for very long
    /// responses if polling can't keep up. Host path only.
    pub rx_bs: u8,
    /// STmin byte we advertise when receiving. Host path only.
    pub rx_stmin: u8,
    /// Frame padding byte; Toyota expects padded frames. `None` sends
    /// unpadded. Host path only: the firmware pads its own transmissions
    /// regardless.
    pub padding: Option<u8>,
    /// How long to wait for the ECU's flow control after a First Frame.
    /// Host path only.
    pub n_bs: Duration,
    /// Max gap between the ECU's consecutive frames. Host path only.
    pub n_cr: Duration,
    /// How many FS=WAIT frames to tolerate before giving up. Host path only.
    pub wft_max: u8,
    /// Extended/mixed addressing byte. When set, every frame carries it ahead
    /// of the PCI (usable data per frame drops by one) and the receive filter
    /// additionally matches on it.
    pub ext_addr: Option<u8>,
}

impl IsoTpConfig {
    /// Defaults: 500 kbit/s, `0x00` padding, unlimited receive block size,
    /// 1 s N_Bs / N_Cr, normal addressing.
    pub fn new(tx_id: CanId, rx_id: CanId) -> (r: IsoTpConfig)
        ensures
            r == IsoTpConfig::plain(tx_id, rx_id),
    {
        IsoTpConfig {
            tx_id,
            rx_id,
            can: CanConfig::default(),
            rx_bs: 0,
            rx_stmin: 0,
            padding: Some(0x00),
            n_bs: Duration::from_secs(1),
            n_cr: Duration::from_secs(1),
            wft_max: 8,
            ext_addr: None,
        }
    }

    /// The default configuration for a pair of identifiers.
    pub open spec fn plain(tx_id: CanId, rx_id: CanId) -> IsoTpConfig {
        IsoTpConfig {
            tx_id,
            rx_id,
            can: CanConfig { bitrate: 500_000, flags: 0 },
            rx_bs: 0,
            rx_stmin: 0,
            padding: Some(0x00),
            n_bs: millis(1000),
            n_cr: millis(1000),
            wft_max: 8,
            ext_addr: None,
        }
    }

    /// Enable extended/mixed addressing with the given address byte.
    pub fn with_ext_addr(self, addr: u8) -> (r: IsoTpConfig)
        ensures
            r == (IsoTpConfig { ext_addr: Some(addr), ..self }),
    {
        let mut r = self;
        r.ext_addr = Some(addr);
        r
    }

    /// Bus bitrate / connect flags other than the 500 kbit/s default.
    pub fn with_can(self, can: CanConfig) -> (r: IsoTpConfig)
        ensures
            r == (IsoTpConfig { can, ..self }),
    {
        let mut r = self;
        r.can = can;
        r
    }
}

/// An ISO-TP channel as its owner keeps it.
pub struct TpState {
    pub path: IsoTpPath,
    pub chan: TypedState,
    pub cfg: IsoTpConfig,
}

/// Whether a message comes from `id`, with something after the identifier.
pub open spec fn comes_from(m: RxMsgView, id: CanId) -> bool {
    m.data.len() > 4 && m.data.take(4) == id.bytes()
}

impl TpState {
    /// The receive filter for the endpoints: on the host path one PASS filter
    /// on `rx_id` covers both data and flow control; on the firmware path it is
    /// the firmware's flow-control filter.
    pub open spec fn filter(self) -> FilterFields {
        match self.path {
            IsoTpPath::Host => (CanFilter {
                mask: 0xffff_ffff,
                pattern: self.cfg.rx_id,
            }).fields(),
            IsoTpPath::Firmware => (FlowControlFilter {
                rx: self.cfg.rx_id,
                tx: self.cfg.tx_id,
                mask: 0xffff_ffff,
                ext_addr: self.cfg.ext_addr,
            }).fields(),
        }
    }

    /// The filter installed.
    pub open spec fn install(self, s: Session) -> (Result<(), Error>, TpState, Session) {
        let (r, chan, s1) = self.chan.set_filter(s, self.filter());
        (r, TpState { chan, ..self }, s1)
    }

    /// A frame or a message to the ECU.
    pub open spec fn put(self, s: Session, bytes: Seq<u8>, flags: u32) -> (
        Result<(), Error>,
        Session,
    ) {
        s.send_flags(self.chan.raw.proto, self.cfg.tx_id, bytes, TxFlags { word: flags })
    }

    /// Whether a polled message is a CAN frame from the ECU.
    pub open spec fn is_ours(self, m: RxMsgView) -> bool {
        &&& !m.indication()
        &&& comes_from(m, self.cfg.rx_id)
        &&& self.cfg.ext_addr is Some ==> m.data[4] == self.cfg.ext_addr->0
    }

    /// One poll for a CAN frame from the ECU.
    pub open spec fn poll_frame(self, s: Session, budget: Duration) -> (
        Result<Option<Seq<u8>>, Error>,
        Session,
    ) {
        match s.on_poll(self.chan.raw.proto, budget) {
            (Err(e), s1) => (Err(e), s1),
            (Ok(m), s1) => (
                Ok(
                    if m is Some && self.is_ours(m->0) {
                        Some(m->0.data.skip(4))
                    } else {
                        None
                    },
                ),
                s1,
            ),
        }
    }

    /// The rest of a host-side transmission, in at most `rounds` rounds.
    pub open spec fn drive_tx(self, s: Session, tx: TxModel, rounds: nat) -> (
        Result<(), Error>,
        Session,
    )
        decreases rounds,
    {
        let (now, w1) = s.world.clock();
        let s1 = s.in_world(w1);
        if rounds == 0 {
            (Err(Error::IsoTp(IsoTpError::FcTimeout)), s)
        } else {
            let left = (rounds - 1) as nat;
            match tx.advance(now) {
                (Err(e), _) => (Err(Error::IsoTp(e)), s1),
                (Ok(TxStep::Done), _) => (Ok(()), s1),
                (Ok(TxStep::Send(frame)), tx1) => match self.put(s1, frame, 0) {
                    (Err(e), s2) => (Err(e), s2),
                    (Ok(()), s2) => self.drive_tx(s2, tx1, left),
                },
                (Ok(TxStep::WaitUntil(t)), tx1) => {
                    let (now2, w2) = s1.world.clock();
                    let w3 = if t.nanos > now2.nanos {
                        w2.slept(now2.spec_until(t))
                    } else {
                        w2
                    };
                    self.drive_tx(s1.in_world(w3), tx1, left)
                },
                (Ok(TxStep::WaitFc(deadline)), tx1) => {
                    let (now2, w2) = s1.world.clock();
                    let s2 = s1.in_world(w2);
                    if now2.nanos >= deadline.nanos {
                        self.drive_tx(s2, tx1, left)
                    } else {
                        match self.poll_frame(
                            s2,
                            now2.spec_until(deadline).shorter(millis(100)),
                        ) {
                            (Err(e), s3) => (Err(e), s3),
                            (Ok(None), s3) => self.drive_tx(s3, tx1, left),
                            (Ok(Some(frame)), s3) => {
                                let (now3, w4) = s3.world.clock();
                                let s4 = s3.in_world(w4);
                                match tx1.receive(frame, now3) {
                                    (Err(e), _) => (Err(Error::IsoTp(e)), s4),
                                    (Ok(_), tx2) => self.drive_tx(s4, tx2, left),
                                }
                            },
                        }
                    }
                },
            }
        }
    }

    /// Send one payload, segmented here.
    pub open spec fn host_send(self, s: Session, payload: Seq<u8>) -> (Result<(), Error>, Session) {
        if payload.len() == 0 {
            (Err(Error::IsoTp(IsoTpError::Malformed("empty payload"))), s)
        } else if payload.len() > MAX_PAYLOAD {
            (Err(Error::IsoTp(IsoTpError::PayloadTooLong(payload.len() as usize))), s)
        } else {
            self.drive_tx(
                s,
                TxModel::start(
                    payload,
                    self.cfg.padding,
                    self.cfg.n_bs,
                    self.cfg.wft_max,
                    self.cfg.ext_addr,
                ),
                MAX_ROUNDS as nat,
            )
        }
    }

    /// Send one payload for the firmware to segment. With extended addressing
    /// the address byte goes at the head of the payload.
    pub open spec fn firmware_send(self, s: Session, payload: Seq<u8>) -> (
        Result<(), Error>,
        Session,
    ) {
        let bytes = head(self.cfg.ext_addr) + payload;
        let flags = if self.cfg.ext_addr is Some {
            TX_ISO15765_ADDR_TYPE
        } else {
            0
        };
        if bytes.len() > 255 {
            (Err(Error::IsoTp(IsoTpError::FirmwareFfDlLimit(bytes.len() as usize))), s)
        } else {
            self.put(s, bytes, flags)
        }
    }

    pub open spec fn send(self, s: Session, payload: Seq<u8>) -> (Result<(), Error>, Session) {
        match self.path {
            IsoTpPath::Host => self.host_send(s, payload),
            IsoTpPath::Firmware => self.firmware_send(s, payload),
        }
    }

    /// The rest of a host-side reception, in at most `rounds` rounds.
    pub open spec fn drive_rx(
        self,
        s: Session,
        rx: RxModel,
        deadline: Instant,
        timeout: Duration,
        rounds: nat,
    ) -> (Result<Seq<u8>, Error>, Session)
        decreases rounds,
    {
        let (now, w1) = s.world.clock();
        let s1 = s.in_world(w1);
        if rx.phase matches RxPhase::Receiving { deadline: due, .. } && now.nanos > due.nanos {
            (Err(Error::IsoTp(IsoTpError::CfTimeout)), s1)
        } else if rounds == 0 || now.nanos >= deadline.nanos {
            (Err(Error::Timeout(timeout)), s1)
        } else {
            let left = (rounds - 1) as nat;
            match self.poll_frame(s1, now.spec_until(deadline).shorter(millis(200))) {
                (Err(e), s2) => (Err(e), s2),
                (Ok(None), s2) => self.drive_rx(s2, rx, deadline, timeout, left),
                (Ok(Some(frame)), s2) => {
                    let (now2, w3) = s2.world.clock();
                    let s3 = s2.in_world(w3);
                    match rx.receive(frame, now2) {
                        (Err(e), _) => (Err(Error::IsoTp(e)), s3),
                        (Ok(RxStep::Done(payload)), _) => (Ok(payload), s3),
                        (Ok(RxStep::Continue), rx1) => self.drive_rx(
                            s3,
                            rx1,
                            deadline,
                            timeout,
                            left,
                        ),
                        (Ok(RxStep::SendFc(fc)), rx1) => match self.put(s3, fc, 0) {
                            (Err(e), s4) => (Err(e), s4),
                            (Ok(()), s4) => self.drive_rx(s4, rx1, deadline, timeout, left),
                        },
                    }
                },
            }
        }
    }

    /// Receive one payload, reassembled here.
    pub open spec fn host_recv(self, s: Session, timeout: Duration) -> (
        Result<Seq<u8>, Error>,
        Session,
    ) {
        let (now, w1) = s.world.clock();
        self.drive_rx(
            s.in_world(w1),
            RxModel::start(
                self.cfg.rx_bs,
                self.cfg.rx_stmin,
                self.cfg.padding,
                self.cfg.n_cr,
                self.cfg.ext_addr,
            ),
            now.spec_plus(timeout),
            timeout,
            MAX_ROUNDS as nat,
        )
    }

    /// The payload of a message that the firmware reassembled: with extended
    /// addressing, and if the message is flagged so, the address byte at its
    /// head is stripped.
    pub open spec fn firmware_payload(self, m: RxMsgView) -> Seq<u8> {
        if self.cfg.ext_addr is Some && m.status.has(RX_ADDR_TYPE) {
            m.data.skip(5)
        } else {
            m.data.skip(4)
        }
    }

    /// Receive one payload that the firmware reassembled, passing over at most
    /// `rounds` messages from elsewhere.
    pub open spec fn firmware_recv(self, s: Session, timeout: Duration, rounds: nat) -> (
        Result<Seq<u8>, Error>,
        Session,
    )
        decreases rounds,
    {
        match s.read(self.chan.raw, timeout) {
            (Err(e), s1) => (Err(e), s1),
            (Ok(m), s1) => if comes_from(m, self.cfg.rx_id) {
                (Ok(self.firmware_payload(m)), s1)
            } else if rounds == 0 {
                (Err(Error::Timeout(timeout)), s1)
            } else {
                self.firmware_recv(s1, timeout, (rounds - 1) as nat)
            },
        }
    }

    pub open spec fn recv(self, s: Session, timeout: Duration) -> (Result<Seq<u8>, Error>, Session) {
        match self.path {
            IsoTpPath::Host => self.host_recv(s, timeout),
            IsoTpPath::Firmware => self.firmware_recv(s, timeout, MAX_ROUNDS as nat),
        }
    }
}

/// A payload addressed to one ECU and its answer.
pub open spec fn tp_request<T: Transport>(
    s: Session,
    setup: Setup,
    tp: TpState,
    req: Seq<u8>,
    timeout: Duration,
) -> (Result<Seq<u8>, Error>, Session) {
    match tp.send(s, req) {
        (Err(e), s1) => (Err(e), s1),
        (Ok(()), s1) => {
            let (r, after) = drained::<Device<T>, IsoTp>(
                (s1, setup, tp),
                timeout,
                MAX_RESPONSE_PENDING as nat,
            );
            (r, after.0)
        },
    }
}

/// ISO 15765-2 over the cable, on either [`IsoTpPath`].
pub struct IsoTp {
    chan: PathChannel,
    cfg: IsoTpConfig,
}

enum PathChannel {
    Firmware(Channel<Iso15765>),
    Host(Channel<Can>),
}

impl View for IsoTp {
    type V = TpState;

    closed spec fn view(&self) -> TpState {
        match self.chan {
            PathChannel::Firmware(c) => TpState {
                path: IsoTpPath::Firmware,
                chan: c@,
                cfg: self.cfg,
            },
            PathChannel::Host(c) => TpState { path: IsoTpPath::Host, chan: c@, cfg: self.cfg },
        }
    }
}

impl IsoTp {
    /// The channel as it is right after a connect.
    pub open spec fn fresh(path: IsoTpPath, cfg: IsoTpConfig) -> TpState {
        TpState {
            path,
            chan: TypedState::fresh(
                match path {
                    IsoTpPath::Firmware => Iso15765::spec_id(),
                    IsoTpPath::Host => Can::spec_id(),
                },
            ),
            cfg,
        }
    }

    /// Connect the bus for the host path and install the exact receive filter
    /// for `cfg.rx_id`.
    pub fn new<T: Transport>(dev: &mut Device<T>, cfg: IsoTpConfig) -> (r: Result<IsoTp, Error>)
        requires
            old(dev)@.valid(),
        ensures
            (seen(r), final(dev)@) == IsoTp::opening(old(dev)@, cfg, IsoTpPath::Host),
            final(dev)@.valid(),
            final(dev).kept(old(dev)),
    {
        IsoTp::with_path(dev, cfg, IsoTpPath::Host)
    }

    /// How opening a channel ends: the bus is connected, then the filter is
    /// installed; if that fails, the bus is disconnected again.
    pub open spec fn opening(s: Session, cfg: IsoTpConfig, path: IsoTpPath) -> (
        Result<TpState, Error>,
        Session,
    ) {
        let fresh = IsoTp::fresh(path, cfg);
        match s.on_connect(fresh.chan.raw.proto, cfg.can.flags, cfg.can.bitrate) {
            (Err(e), s1) => (Err(e), s1),
            (Ok(()), s1) => match fresh.install(s1) {
                (Err(e), tp, s2) => (Err(e), s2.on_disconnect(tp.chan.raw.proto).1),
                (Ok(()), tp, s2) => (Ok(tp), s2),
            },
        }
    }

    /// Connect the bus and install the exact receive filter for `cfg.rx_id`.
    ///
    /// On the host path one PASS filter on `rx_id` covers both data and flow
    /// control (they arrive on the same identifier); on the firmware path it
    /// is the firmware's flow-control filter, with the address byte when
    /// `ext_addr` is set.
    pub fn with_path<T: Transport>(dev: &mut Device<T>, cfg: IsoTpConfig, path: IsoTpPath) -> (r:
        Result<IsoTp, Error>)
        requires
            old(dev)@.valid(),
        ensures
            (seen(r), final(dev)@) == IsoTp::opening(old(dev)@, cfg, path),
            final(dev)@.valid(),
            final(dev).kept(old(dev)),
    {
        let mut tp = match path {
            IsoTpPath::Firmware => IsoTp {
                chan: PathChannel::Firmware(dev.connect::<Iso15765>(cfg.can)?),
                cfg,
            },
            IsoTpPath::Host => IsoTp::connect_deferred(dev, cfg)?,
        };
        match tp.install_filter(dev) {
            Ok(()) => Ok(tp),
            Err(e) => {
                tp.release(dev);
                Err(e)
            },
        }
    }

    /// Disconnect the bus, best effort.
    pub fn release<T: Transport>(self, dev: &mut Device<T>)
        requires
            old(dev)@.valid(),
        ensures
            final(dev)@ == old(dev)@.on_disconnect(self@.chan.raw.proto).1,
            final(dev)@.valid(),
            final(dev).kept(old(dev)),
    {
        let _ = match self.chan {
            PathChannel::Host(chan) => chan.disconnect(dev),
            PathChannel::Firmware(chan) => chan.disconnect(dev),
        };
    }

    /// Connect a **host-path** channel without installing a filter yet, for
    /// callers whose endpoints arrive after the connect (the J2534 shim, which
    /// learns `rx`/`tx` from a later flow-control filter). Call
    /// [`IsoTp::set_endpoints`] before `send`/`recv`.
    pub fn connect_deferred<T: Transport>(dev: &mut Device<T>, cfg: IsoTpConfig) -> (r: Result<
        IsoTp,
        Error,
    >)
        requires
            old(dev)@.valid(),
        ensures
            ({
                let (owed, s) = old(dev)@.on_connect(
                    Can::spec_id(),
                    cfg.can.flags,
                    cfg.can.bitrate,
                );
                &&& final(dev)@ == s
                &&& match owed {
                    Ok(()) => r matches Ok(c) && c@ == IsoTp::fresh(IsoTpPath::Host, cfg),
                    Err(e) => r == Err::<IsoTp, Error>(e),
                }
            }),
            final(dev)@.valid(),
            final(dev).kept(old(dev)),
    {
        Ok(IsoTp { chan: PathChannel::Host(dev.connect::<Can>(cfg.can)?), cfg })
    }

    /// Set (or change) the endpoints and reinstall the receive filter. This is
    /// how a deferred-connect channel becomes usable, and how a channel is
    /// repointed at a different ECU.
    pub fn set_endpoints<T: Transport>(
        &mut self,
        dev: &mut Device<T>,
        tx_id: CanId,
        rx_id: CanId,
        ext_addr: Option<u8>,
    ) -> (r: Result<(), Error>)
        requires
            old(dev)@.valid(),
        ensures
            (r, final(self)@, final(dev)@) == (TpState {
                cfg: IsoTpConfig { tx_id, rx_id, ext_addr, ..old(self)@.cfg },
                ..old(self)@
            }).install(old(dev)@),
            final(dev)@.valid(),
            final(dev).kept(old(dev)),
    {
        self.cfg.tx_id = tx_id;
        self.cfg.rx_id = rx_id;
        self.cfg.ext_addr = ext_addr;
        self.install_filter(dev)
    }

    fn install_filter<T: Transport>(&mut self, dev: &mut Device<T>) -> (r: Result<(), Error>)
        requires
            old(dev)@.valid(),
        ensures
            (r, final(self)@, final(dev)@) == old(self)@.install(old(dev)@),
            final(dev)@.valid(),
            final(dev).kept(old(dev)),
    {
        match &mut self.chan {
            PathChannel::Host(chan) => chan.set_filter(dev, CanFilter::exact(self.cfg.rx_id)),
            PathChannel::Firmware(chan) => {
                let filter = FlowControlFilter::exact(self.cfg.rx_id, self.cfg.tx_id);
                let filter = match self.cfg.ext_addr {
                    Some(a) => filter.with_ext_addr(a),
                    None => filter,
                };
                chan.set_filter(dev, filter)
            },
        }
    }

    /// Which side is running ISO-TP.
    pub fn path(&self) -> (r: IsoTpPath)
        ensures
            r == self@.path,
    {
        match self.chan {
            PathChannel::Firmware(_) => IsoTpPath::Firmware,
            PathChannel::Host(_) => IsoTpPath::Host,
        }
    }

    /// The response identifier this client reassembles from (for the shim to
    /// prefix onto a J2534 read message).
    pub fn rx_id(&self) -> (r: CanId)
        ensures
            r == self@.cfg.rx_id,
    {
        self.cfg.rx_id
    }

    /// Send one ISO-TP message, segmented as the path allows.
    ///
    /// On the firmware path payloads above 255 bytes are refused with
    /// [`IsoTpError::FirmwareFfDlLimit`]: the firmware writes the First Frame
    /// length as `len & 0xFF` with a literal `0x10` high nibble, so they would
    /// go out malformed. Use [`IsoTpPath::Host`] for those.
    pub fn send<T: Transport>(&mut self, dev: &mut Device<T>, payload: &[u8]) -> (r: Result<
        (),
        Error,
    >)
        requires
            old(dev)@.valid(),
        ensures
            (r, final(dev)@) == old(self)@.send(old(dev)@, payload@),
            final(dev)@.valid(),
            final(dev).kept(old(dev)),
            final(self)@ == old(self)@,
    {
        match self.path() {
            IsoTpPath::Host => self.host_send(dev, payload),
            IsoTpPath::Firmware => {
                let mut buf: Vec<u8> = Vec::new();
                let mut flags = TxFlags::default();
                if let Some(a) = self.cfg.ext_addr {
                    buf.push(a);
                    flags = TxFlags::from_bits_retain(TX_ISO15765_ADDR_TYPE);
                }
                assert(buf@ =~= head(self.cfg.ext_addr));
                push_all(&mut buf, payload);
                if buf.len() > 255 {
                    return Err(Error::IsoTp(IsoTpError::FirmwareFfDlLimit(buf.len())));
                }
                self.put(dev, buf.as_slice(), flags)
            },
        }
    }

    fn put<T: Transport>(&mut self, dev: &mut Device<T>, bytes: &[u8], flags: TxFlags) -> (r:
        Result<(), Error>)
        requires
            old(dev)@.valid(),
        ensures
            (r, final(dev)@) == old(self)@.put(old(dev)@, bytes@, flags.word),
            final(dev)@.valid(),
            final(dev).kept(old(dev)),
            final(self)@ == old(self)@,
    {
        match &mut self.chan {
            PathChannel::Host(chan) => chan.send_flags(dev, self.cfg.tx_id, bytes, flags),
            PathChannel::Firmware(chan) => chan.send_flags(dev, self.cfg.tx_id, bytes, flags),
        }
    }

    fn poll<T: Transport>(&mut self, dev: &mut Device<T>, budget: Duration) -> (r: Result<
        Option<RxMsg>,
        Error,
    >)
        requires
            old(dev)@.valid(),
        ensures
            (seen_msg(r), final(dev)@) == old(dev)@.on_poll(old(self)@.chan.raw.proto, budget),
            final(dev)@.valid(),
            final(dev).kept(old(dev)),
            final(self)@ == old(self)@,
    {
        match &mut self.chan {
            PathChannel::Host(chan) => chan.poll(dev, budget),
            PathChannel::Firmware(chan) => chan.poll(dev, budget),
        }
    }

    fn read<T: Transport>(&mut self, dev: &mut Device<T>, timeout: Duration) -> (r: Result<
        RxMsg,
        Error,
    >)
        requires
            old(dev)@.valid(),
        ensures
            (seen(r), final(dev)@) == old(dev)@.read(old(self)@.chan.raw, timeout),
            final(dev)@.valid(),
            final(dev).kept(old(dev)),
            final(self)@ == old(self)@,
    {
        match &mut self.chan {
            PathChannel::Host(chan) => chan.read(dev, timeout),
            PathChannel::Firmware(chan) => chan.read(dev, timeout),
        }
    }

    /// Whether a message comes from the response identifier.
    fn from_ecu(&self, m: &RxMsg) -> (r: bool)
        ensures
            r == comes_from(m@, self@.cfg.rx_id),
    {
        if m.data.len() <= 4 {
            return false;
        }
        let id = self.cfg.rx_id.to_wire();
        assert(m.data@.subrange(0, 4) =~= m.data@.take(4));
        same_bytes(&m.data.as_slice()[0..4], id.as_slice())
    }

    /// Receive one reassembled ISO-TP message from `rx_id`.
    pub fn recv<T: Transport>(&mut self, dev: &mut Device<T>, timeout: Duration) -> (r: Result<
        Vec<u8>,
        Error,
    >)
        requires
            old(dev)@.valid(),
        ensures
            (seen(r), final(dev)@) == old(self)@.recv(old(dev)@, timeout),
            final(dev)@.valid(),
            final(dev).kept(old(dev)),
            final(self)@ == old(self)@,
    {
        match self.path() {
            IsoTpPath::Host => self.host_recv(dev, timeout),
            IsoTpPath::Firmware => self.firmware_recv(dev, timeout),
        }
    }

    fn firmware_recv<T: Transport>(&mut self, dev: &mut Device<T>, timeout: Duration) -> (r: Result<
        Vec<u8>,
        Error,
    >)
        requires
            old(dev)@.valid(),
        ensures
            (seen(r), final(dev)@) == old(self)@.firmware_recv(
                old(dev)@,
                timeout,
                MAX_ROUNDS as nat,
            ),
            final(dev)@.valid(),
            final(dev).kept(old(dev)),
            final(self)@ == old(self)@,
    {
        let mut rounds: u64 = MAX_ROUNDS;
        loop
            invariant
                dev@.valid(),
                dev.kept(old(dev)),
                self@ == old(self)@,
                self@.firmware_recv(dev@, timeout, rounds as nat) == old(self)@.firmware_recv(
                    old(dev)@,
                    timeout,
                    MAX_ROUNDS as nat,
                ),
            decreases rounds,
        {
            let m = self.read(dev, timeout)?;
            if self.from_ecu(&m) {
                let start: usize = if self.cfg.ext_addr.is_some() && m.rx_status.contains(
                    RX_ADDR_TYPE,
                ) {
                    5
                } else {
                    4
                };
                let out = copy_range(m.data.as_slice(), start, m.data.len());
                assert(m.data@.subrange(start as int, m.data@.len() as int) =~= m.data@.skip(
                    start as int,
                ));
                return Ok(out);
            }
            // A frame from some other identifier slipping through means the
            // filter isn't what we think it is; keep waiting rather than hand
            // back someone else's payload.
            if rounds == 0 {
                return Err(Error::Timeout(timeout));
            }
            rounds = rounds - 1;
        }
    }

    /// Send then receive, swallowing `7F .. 78` responsePending frames.
    ///
    /// On the host path `send` may consume frames from the response identifier
    /// while waiting for flow control, and discards any that are not flow
    /// control. That only matters if an ECU starts answering before it has
    /// received the whole multi-frame request, which ISO 15765-2 does not
    /// allow.
    pub fn request<T: Transport>(
        &mut self,
        dev: &mut Device<T>,
        req: &[u8],
        timeout: Duration,
    ) -> (r: Result<Vec<u8>, Error>)
        requires
            old(dev)@.valid(),
        ensures
            (seen(r), final(dev)@) == tp_request::<T>(
                old(dev)@,
                old(dev).setup(),
                old(self)@,
                req@,
                timeout,
            ),
            final(dev)@.valid(),
            final(dev).kept(old(dev)),
            final(self)@ == old(self)@,
    {
        self.send(dev, req)?;
        proof {
            lemma_only_session_moves::<T>(
                dev@,
                dev.setup(),
                self@,
                timeout,
                MAX_RESPONSE_PENDING as nat,
            );
        }
        drain_pending(self, dev, timeout)
    }

    /// Frames from the response identifier, indications skipped.
    ///
    /// One poll yields at most one message (READ_MSG returns a single queued
    /// message per call), so a burst of consecutive frames is drained one at a
    /// time out of the adapter's ~1500-byte ring. That is why `rx_bs` exists:
    /// on a very long response, advertise a block size rather than let the ECU
    /// outrun the drain.
    fn poll_frame<T: Transport>(&mut self, dev: &mut Device<T>, budget: Duration) -> (r: Result<
        Option<Vec<u8>>,
        Error,
    >)
        requires
            old(dev)@.valid(),
        ensures
            ({
                let (owed, s) = old(self)@.poll_frame(old(dev)@, budget);
                &&& final(dev)@ == s
                &&& match r {
                    Ok(Some(f)) => owed == Ok::<Option<Seq<u8>>, Error>(Some(f@)),
                    Ok(None) => owed == Ok::<Option<Seq<u8>>, Error>(None),
                    Err(e) => owed == Err::<Option<Seq<u8>>, Error>(e),
                }
            }),
            final(dev)@.valid(),
            final(dev).kept(old(dev)),
            final(self)@ == old(self)@,
    {
        let polled = self.poll(dev, budget)?;
        if let Some(m) = polled {
            if !m.is_indication() && self.from_ecu(&m) {
                // Raw CAN cannot hardware-filter on the address byte, so
                // discriminate it here when extended addressing is on.
                let ours: bool = match self.cfg.ext_addr {
                    Some(a) => m.data[4] == a,
                    None => true,
                };
                if ours {
                    let out = copy_range(m.data.as_slice(), 4, m.data.len());
                    assert(m.data@.subrange(4, m.data@.len() as int) =~= m.data@.skip(4));
                    return Ok(Some(out));
                }
            }
        }
        Ok(None)
    }

    fn host_send<T: Transport>(&mut self, dev: &mut Device<T>, payload: &[u8]) -> (r: Result<
        (),
        Error,
    >)
        requires
            old(dev)@.valid(),
        ensures
            (r, final(dev)@) == old(self)@.host_send(old(dev)@, payload@),
            final(dev)@.valid(),
            final(dev).kept(old(dev)),
            final(self)@ == old(self)@,
    {
        let mut tx = isotp(
            TxMachine::with_addr(
                payload,
                self.cfg.padding,
                self.cfg.n_bs,
                self.cfg.wft_max,
                self.cfg.ext_addr,
            ),
        )?;
        let mut rounds: u64 = MAX_ROUNDS;
        while rounds > 0
            invariant
                dev@.valid(),
                dev.kept(old(dev)),
                tx@.valid(),
                self@ == old(self)@,
                self@.drive_tx(dev@, tx@, rounds as nat) == old(self)@.host_send(
                    old(dev)@,
                    payload@,
                ),
            decreases rounds,
        {
            rounds = rounds - 1;
            let now = dev.now();
            match isotp(tx.next(now))? {
                TxAction::Send(frame) => self.put(dev, frame.as_slice(), TxFlags::default())?,
                TxAction::WaitFc { deadline } => {
                    let now2 = dev.now();
                    // Past the deadline, next() reports the FcTimeout.
                    if now2.nanos < deadline.nanos {
                        let budget = now2.until(deadline).min(Duration::from_millis(100));
                        if let Some(frame) = self.poll_frame(dev, budget)? {
                            let now3 = dev.now();
                            isotp(tx.on_frame(frame.as_slice(), now3))?;
                        }
                    }
                },
                TxAction::WaitUntil(t) => {
                    let now2 = dev.now();
                    if t.nanos > now2.nanos {
                        dev.sleep(now2.until(t));
                    }
                },
                TxAction::Done => {
                    return Ok(());
                },
            }
        }
        Err(Error::IsoTp(IsoTpError::FcTimeout))
    }

    fn host_recv<T: Transport>(&mut self, dev: &mut Device<T>, timeout: Duration) -> (r: Result<
        Vec<u8>,
        Error,
    >)
        requires
            old(dev)@.valid(),
        ensures
            (seen(r), final(dev)@) == old(self)@.host_recv(old(dev)@, timeout),
            final(dev)@.valid(),
            final(dev).kept(old(dev)),
            final(self)@ == old(self)@,
    {
        let mut rx = RxMachine::with_addr(
            self.cfg.rx_bs,
            self.cfg.rx_stmin,
            self.cfg.padding,
            self.cfg.n_cr,
            self.cfg.ext_addr,
        );
        let deadline = dev.now().plus(timeout);
        let mut rounds: u64 = MAX_ROUNDS;
        loop
            invariant
                dev@.valid(),
                dev.kept(old(dev)),
                rx@.valid(),
                self@ == old(self)@,
                self@.drive_rx(dev@, rx@, deadline, timeout, rounds as nat) == old(
                    self,
                )@.host_recv(old(dev)@, timeout),
            decreases rounds,
        {
            let now = dev.now();
            isotp(rx.check_timeout(now))?;
            if rounds == 0 || now.nanos >= deadline.nanos {
                return Err(Error::Timeout(timeout));
            }
            rounds = rounds - 1;
            let budget = now.until(deadline).min(Duration::from_millis(200));
            if let Some(frame) = self.poll_frame(dev, budget)? {
                let now2 = dev.now();
                match isotp(rx.on_frame(frame.as_slice(), now2))? {
                    RxEvent::SendFc(fc) => self.put(dev, fc.as_slice(), TxFlags::default())?,
                    RxEvent::Done(payload) => {
                        return Ok(payload);
                    },
                    RxEvent::Continue => {},
                }
            }
        }
    }
}

impl<T: Transport> Receive<Device<T>> for IsoTp {
    type State = (Session, Setup, TpState);

    open spec fn state(&self, dev: &Device<T>) -> (Session, Setup, TpState) {
        (dev@, dev.setup(), self@)
    }

    open spec fn ready(&self, dev: &Device<T>) -> bool {
        dev@.valid()
    }

    open spec fn receipt(state: (Session, Setup, TpState), timeout: Duration) -> (
        Result<Seq<u8>, Error>,
        (Session, Setup, TpState),
    ) {
        let (r, s) = state.2.recv(state.0, timeout);
        (r, (s, state.1, state.2))
    }

    fn recv(&mut self, dev: &mut Device<T>, timeout: Duration) -> (r: Result<Vec<u8>, Error>) {
        IsoTp::recv(self, dev, timeout)
    }
}

/// Waiting for an answer changes the session alone.
proof fn lemma_only_session_moves<T: Transport>(
    s: Session,
    setup: Setup,
    tp: TpState,
    timeout: Duration,
    budget: nat,
)
    ensures
        ({
            let after = drained::<Device<T>, IsoTp>((s, setup, tp), timeout, budget).1;
            after.1 == setup && after.2 == tp
        }),
    decreases budget,
{
    let (r, s1) = tp.recv(s, timeout);
    if budget > 0 {
        lemma_only_session_moves::<T>(s1, setup, tp, timeout, (budget - 1) as nat);
    }
}

/// An ISO-TP channel together with the device it runs on.
pub struct IsoTpLink<T: Transport> {
    pub dev: Device<T>,
    pub tp: IsoTp,
}

impl<T: Transport> Receive<()> for IsoTpLink<T> {
    type State = (Session, Setup, TpState);

    open spec fn state(&self, via: &()) -> (Session, Setup, TpState) {
        (self.dev@, self.dev.setup(), self.tp@)
    }

    open spec fn ready(&self, via: &()) -> bool {
        self.dev@.valid()
    }

    open spec fn receipt(state: (Session, Setup, TpState), timeout: Duration) -> (
        Result<Seq<u8>, Error>,
        (Session, Setup, TpState),
    ) {
        let (r, s) = state.2.recv(state.0, timeout);
        (r, (s, state.1, state.2))
    }

    fn recv(&mut self, _via: &mut (), timeout: Duration) -> (r: Result<Vec<u8>, Error>) {
        self.tp.recv(&mut self.dev, timeout)
    }
}

impl<T: Transport> UdsTransport for IsoTpLink<T> {
    type State = (Session, Setup, TpState);

    open spec fn state(&self) -> (Session, Setup, TpState) {
        (self.dev@, self.dev.setup(), self.tp@)
    }

    open spec fn ready(&self) -> bool {
        self.dev@.valid()
    }

    open spec fn exchange(state: (Session, Setup, TpState), req: Seq<u8>, timeout: Duration) -> (
        Result<Seq<u8>, Error>,
        (Session, Setup, TpState),
    ) {
        let (r, s) = tp_request::<T>(state.0, state.1, state.2, req, timeout);
        (r, (s, state.1, state.2))
    }

    fn request(&mut self, req: &[u8], timeout: Duration) -> (r: Result<Vec<u8>, Error>) {
        self.tp.request(&mut self.dev, req, timeout)
    }
}

/// ISO-TP run by the cable firmware (protocol 6).
pub struct FirmwareIsoTp {
    tp: IsoTp,
}

impl View for FirmwareIsoTp {
    type V = TpState;

    closed spec fn view(&self) -> TpState {
        self.tp@
    }
}

impl FirmwareIsoTp {
    /// Connect at 500 kbit/s and install the exact flow-control filter.
    pub fn new<T: Transport>(dev: &mut Device<T>, tx_id: CanId, rx_id: CanId) -> (r: Result<
        FirmwareIsoTp,
        Error,
    >)
        requires
            old(dev)@.valid(),
        ensures
            (seen(r), final(dev)@) == IsoTp::opening(
                old(dev)@,
                IsoTpConfig::plain(tx_id, rx_id),
                IsoTpPath::Firmware,
            ),
            final(dev)@.valid(),
            final(dev).kept(old(dev)),
    {
        let cfg = IsoTpConfig::new(tx_id, rx_id);
        FirmwareIsoTp::with_config(dev, cfg)
    }

    /// Like [`FirmwareIsoTp::new`], with extended/mixed addressing.
    pub fn with_ext_addr<T: Transport>(
        dev: &mut Device<T>,
        tx_id: CanId,
        rx_id: CanId,
        addr: u8,
    ) -> (r: Result<FirmwareIsoTp, Error>)
        requires
            old(dev)@.valid(),
        ensures
            (seen(r), final(dev)@) == IsoTp::opening(
                old(dev)@,
                (IsoTpConfig { ext_addr: Some(addr), ..IsoTpConfig::plain(tx_id, rx_id) }),
                IsoTpPath::Firmware,
            ),
            final(dev)@.valid(),
            final(dev).kept(old(dev)),
    {
        let cfg = IsoTpConfig::new(tx_id, rx_id).with_ext_addr(addr);
        FirmwareIsoTp::with_config(dev, cfg)
    }

    fn with_config<T: Transport>(dev: &mut Device<T>, cfg: IsoTpConfig) -> (r: Result<
        FirmwareIsoTp,
        Error,
    >)
        requires
            old(dev)@.valid(),
        ensures
            (seen(r), final(dev)@) == IsoTp::opening(old(dev)@, cfg, IsoTpPath::Firmware),
            final(dev)@.valid(),
            final(dev).kept(old(dev)),
    {
        let tp = IsoTp::with_path(dev, cfg, IsoTpPath::Firmware)?;
        Ok(FirmwareIsoTp { tp })
    }

    /// Send one ISO-TP message; above 255 bytes it is refused.
    pub fn send<T: Transport>(&mut self, dev: &mut Device<T>, payload: &[u8]) -> (r: Result<
        (),
        Error,
    >)
        requires
            old(dev)@.valid(),
        ensures
            (r, final(dev)@) == old(self)@.send(old(dev)@, payload@),
            final(dev)@.valid(),
            final(dev).kept(old(dev)),
            final(self)@ == old(self)@,
    {
        self.tp.send(dev, payload)
    }

    /// Receive one ISO-TP message from the response identifier.
    pub fn recv<T: Transport>(&mut self, dev: &mut Device<T>, timeout: Duration) -> (r: Result<
        Vec<u8>,
        Error,
    >)
        requires
            old(dev)@.valid(),
        ensures
            (seen(r), final(dev)@) == old(self)@.recv(old(dev)@, timeout),
            final(dev)@.valid(),
            final(dev).kept(old(dev)),
            final(self)@ == old(self)@,
    {
        self.tp.recv(dev, timeout)
    }

    /// Send then receive, swallowing responsePending frames.
    pub fn request<T: Transport>(
        &mut self,
        dev: &mut Device<T>,
        req: &[u8],
        timeout: Duration,
    ) -> (r: Result<Vec<u8>, Error>)
        requires
            old(dev)@.valid(),
        ensures
            (seen(r), final(dev)@) == tp_request::<T>(
                old(dev)@,
                old(dev).setup(),
                old(self)@,
                req@,
                timeout,
            ),
            final(dev)@.valid(),
            final(dev).kept(old(dev)),
            final(self)@ == old(self)@,
    {
        self.tp.request(dev, req, timeout)
    }

    /// The channel underneath.
    pub fn into_inner(self) -> (tp: IsoTp)
        ensures
            tp@ == self@,
    {
        self.tp
    }
}

} // verus!
