//! ISO 14230 (K-line KWP2000) as a [`UdsTransport`].
//!
//! [`KLineEcu`] wraps a raw [`Channel<Iso14230>`] and one ECU address into the
//! same request/response shape the ISO-TP paths expose, so a diagnostic layer
//! drives K-line and CAN identically.
//!
//! It carries the two bring-up facts a Toyota K-line ECU needs:
//!
//! - The **full vendor timing config** ([`kline_timing`]) plus a header PASS
//!   filter must be installed *before* FAST_INIT. Skip it and FAST_INIT returns
//!   garbage and subsequent writes wedge the adapter.
//! - Requests are wrapped in the ISO 14230 header `<0x80|len> <ecu> <tester>`
//!   (the adapter appends the checksum); replies come back header-on
//!   (`<0x80|len> <tester> <ecu> <service...>`) with the checksum stripped, and
//!   [`KLineEcu`] strips the header down to the service bytes.
//!
//! Response-pending (`7F .. 78`) frames are consumed transparently, as with the
//! ISO-TP transports.

use vstd::prelude::*;

use crate::bytes::{copy_all, push_all};
use crate::codec::inner::{clear_periodic_cmd, fast_init_cmd, set_config_cmd};
use crate::error::{seen, CodecError, Error};
use crate::isotp::pending::{
    drain_pending, drained, Receive, UdsTransport, MAX_RESPONSE_PENDING,
};
use crate::session::actor::Session;
use crate::session::channel::{Channel, TypedState};
use crate::session::device::{Device, Setup};
use crate::session::protocol::{FilterSpec, Iso14230, KLineConfig, KLineFilter, Protocol};
use crate::time::{millis, Duration};
use crate::transport::Transport;
use crate::types::Cmd;

verus! {

// Standard J2534 `SConfig` parameter ids for the ISO9141/14230 timing values.
pub const DATA_RATE: u32 = 0x01;

pub const P1_MAX: u32 = 0x07;

pub const P3_MIN: u32 = 0x0a;

pub const P3_MAX: u32 = 0x0b;

pub const W1: u32 = 0x0e;

pub const W2: u32 = 0x0f;

pub const W3: u32 = 0x10;

pub const W4: u32 = 0x11;

pub const W5: u32 = 0x12;

pub const TIDLE: u32 = 0x13;

pub const TINIL: u32 = 0x14;

pub const TWUP: u32 = 0x15;

/// The source address a tester uses unless told otherwise.
pub const TESTER_DEFAULT: u8 = 0xf0;

/// The (param, value) pairs of the vendor's ISO 14230 timing profile.
pub open spec fn timing_profile() -> Seq<(u32, u32)> {
    seq![
        (DATA_RATE, 9600u32),
        (P1_MAX, 40u32),
        (P3_MIN, 10u32),
        (P3_MAX, 10u32),
        (TIDLE, 300u32),
        (TINIL, 35u32),
        (TWUP, 50u32),
        (W1, 25u32),
        (W2, 20u32),
        (W3, 20u32),
        (W4, 25u32),
        (W5, 10u32),
    ]
}

/// The 12 `SET_CONFIG` (param, value) pairs the vendor tool (Techstream) sends
/// to bring up an ISO 14230 channel, applied by [`KLineEcu::connect`] before
/// FAST_INIT.
///
/// The parameter ids are the standard J2534 `SConfig` ids; the values are
/// Techstream's captured ISO14230 timing profile for these Toyota ECUs, not the
/// J2534 defaults (e.g. TINIL 35 vs the 25 ms default). The firmware silently
/// discards params it doesn't implement. The whole vendor profile is sent
/// because it is known-good and cheap.
pub fn kline_timing() -> (r: [(u32, u32); 12])
    ensures
        r@ == timing_profile(),
{
    let r = [
        (DATA_RATE, 9600u32),  // K-line bit rate hint
        (P1_MAX, 40u32),  // max gap between ECU response bytes
        (P3_MIN, 10u32),  // min gap after a response before the next request
        (P3_MAX, 10u32),
        (TIDLE, 300u32),  // bus-idle time required before a fast-init pulse
        (TINIL, 35u32),  // fast-init low-pulse width
        (TWUP, 50u32),  // wake-up pulse width
        (W1, 25u32),
        (W2, 20u32),  // ISO9141 / 5-baud slow-init timing windows
        (W3, 20u32),  // (set for completeness; fast-init doesn't use them)
        (W4, 25u32),
        (W5, 10u32),
    ];
    assert(r@ =~= timing_profile());
    r
}

/// An ISO 14230 request: the header, then the payload.
pub open spec fn kline_frame(ecu: u8, tester: u8, payload: Seq<u8>) -> Seq<u8> {
    if payload.len() < 0x40 {
        seq![(0x80 + payload.len()) as u8, ecu, tester] + payload
    } else {
        seq![0x80u8, ecu, tester, (payload.len() % 256) as u8] + payload
    }
}

/// The service bytes of a received frame.
pub open spec fn service_bytes(frame: Seq<u8>) -> Result<Seq<u8>, Error> {
    let inline = (frame[0] % 64) as int;
    let (start, len) = if inline == 0 {
        (4int, frame[3] as int)
    } else {
        (3int, inline)
    };
    if frame.len() < 4 {
        Err(Error::Codec(CodecError::MalformedReply("K-line frame shorter than a header")))
    } else if start + len <= frame.len() {
        Ok(frame.subrange(start, start + len))
    } else {
        Ok(frame.skip(start))
    }
}

/// Build an ISO 14230 request header + payload: `<0x80|len> <ecu> <tester>`
/// for `len < 64`, else `0x80 <ecu> <tester> <len>`. The adapter appends the
/// checksum.
pub fn build_frame(ecu: u8, tester: u8, payload: &[u8]) -> (v: Vec<u8>)
    ensures
        v@ == kline_frame(ecu, tester, payload@),
{
    let mut v: Vec<u8> = Vec::new();
    if payload.len() < 0x40 {
        v.push(0x80 + payload.len() as u8);
        v.push(ecu);
        v.push(tester);
    } else {
        v.push(0x80);
        v.push(ecu);
        v.push(tester);
        v.push((payload.len() % 256) as u8);
    }
    push_all(&mut v, payload);
    assert(v@ =~= kline_frame(ecu, tester, payload@));
    v
}

/// Strip the ISO 14230 header from a received frame, returning the service
/// bytes. Header is `<0x80|len> <a> <b>` (len inline in the low 6 bits) or
/// `0x80 <a> <b> <len>` (separate length byte). The adapter has already removed
/// the trailing checksum.
pub fn strip_header(frame: &[u8]) -> (r: Result<&[u8], Error>)
    ensures
        seen(r) == service_bytes(frame@),
{
    if frame.len() < 4 {
        return Err(
            Error::Codec(CodecError::MalformedReply("K-line frame shorter than a header")),
        );
    }
    let inline: usize = (frame[0] % 64) as usize;
    let hdr: usize = if inline == 0 {
        4
    } else {
        3
    };
    let len: usize = if inline == 0 {
        frame[3] as usize
    } else {
        inline
    };
    let end: usize = if hdr + len <= frame.len() {
        hdr + len
    } else {
        frame.len()
    };
    let out = &frame[hdr..end];
    assert(hdr + len > frame.len() ==> out@ =~= frame@.skip(hdr as int));
    Ok(out)
}

/// Stripping a built frame gives the payload back, for every payload that the
/// length byte can express.
pub proof fn lemma_kline_round_trip(ecu: u8, tester: u8, payload: Seq<u8>)
    requires
        1 <= payload.len() <= 255,
    ensures
        service_bytes(kline_frame(ecu, tester, payload)) == Ok::<Seq<u8>, Error>(payload),
{
    let f = kline_frame(ecu, tester, payload);
    if payload.len() < 0x40 {
        assert(f.subrange(3, (3 + payload.len()) as int) =~= payload);
    } else {
        assert(f.subrange(4, (4 + payload.len()) as int) =~= payload);
    }
}

/// One K-line ECU as its owner keeps it.
pub struct EcuState {
    pub chan: TypedState,
    pub ecu: u8,
    pub tester: u8,
}

/// The header PASS filter: response headers are 0x8x (0x80|len), so the top
/// two bits are kept.
pub open spec fn header_filter() -> KLineFilter {
    KLineFilter { mask: 0xc0, pattern: 0x80 }
}

/// The first `n` settings of the timing profile, sent one after the other up to
/// the first that fails.
pub open spec fn configured(s: Session, chan: TypedState, n: nat) -> (Result<(), Error>, Session)
    decreases n,
{
    if n == 0 {
        (Ok(()), s)
    } else {
        match configured(s, chan, (n - 1) as nat) {
            (Err(e), s1) => (Err(e), s1),
            (Ok(()), s1) => {
                let (param, value) = timing_profile()[n - 1];
                s1.on_status(
                    set_config_cmd(chan.raw.proto, param, value),
                    Cmd::Ioctl,
                    millis(2000),
                )
            },
        }
    }
}

/// The vendor bring-up of a connected channel: filter, timing, and no periodic
/// messages.
pub open spec fn brought_up(s: Session, chan: TypedState) -> (
    Result<(), Error>,
    TypedState,
    Session,
) {
    match chan.set_filter(s, header_filter().fields()) {
        (Err(e), c1, s1) => (Err(e), c1, s1),
        (Ok(()), c1, s1) => match configured(s1, c1, 12) {
            (Err(e), s2) => (Err(e), c1, s2),
            (Ok(()), s2) => {
                let (r, s3) = s2.on_status(
                    clear_periodic_cmd(c1.raw.proto),
                    Cmd::Ioctl,
                    millis(1000),
                );
                (r, c1, s3)
            },
        },
    }
}

/// How connecting to an ECU ends. If the bring-up fails, the channel is
/// disconnected again.
pub open spec fn ecu_connect(s: Session, ecu: u8) -> (Result<EcuState, Error>, Session) {
    match s.on_connect(Iso14230::spec_id(), 0x1000, 10400) {
        (Err(e), s1) => (Err(e), s1),
        (Ok(()), s1) => match brought_up(s1, TypedState::fresh(Iso14230::spec_id())) {
            (Err(e), chan, s2) => (Err(e), s2.on_disconnect(chan.raw.proto).1),
            (Ok(()), chan, s2) => (Ok(EcuState { chan, ecu, tester: TESTER_DEFAULT }), s2),
        },
    }
}

impl EcuState {
    /// A request put on the bus. The vendor sequence clears periodic messages
    /// before every request.
    pub open spec fn put(self, s: Session, req: Seq<u8>) -> (Result<(), Error>, Session) {
        match s.on_status(clear_periodic_cmd(self.chan.raw.proto), Cmd::Ioctl, millis(1000)) {
            (Err(e), s1) => (Err(e), s1),
            (Ok(()), s1) => s1.write(
                self.chan.raw.proto,
                0,
                kline_frame(self.ecu, self.tester, req),
            ),
        }
    }

    /// The service bytes of the next frame.
    pub open spec fn recv(self, s: Session, timeout: Duration) -> (Result<Seq<u8>, Error>, Session) {
        match s.read(self.chan.raw, timeout) {
            (Err(e), s1) => (Err(e), s1),
            (Ok(m), s1) => (service_bytes(m.data), s1),
        }
    }
}

/// A request to an ECU and its answer.
pub open spec fn ecu_request<T: Transport>(
    s: Session,
    setup: Setup,
    ecu: EcuState,
    req: Seq<u8>,
    timeout: Duration,
) -> (Result<Seq<u8>, Error>, Session) {
    match ecu.put(s, req) {
        (Err(e), s1) => (Err(e), s1),
        (Ok(()), s1) => {
            let (r, after) = drained::<Device<T>, KLineEcu>(
                (s1, setup, ecu),
                timeout,
                MAX_RESPONSE_PENDING as nat,
            );
            (r, after.0)
        },
    }
}

/// One ISO 14230 ECU.
pub struct KLineEcu {
    chan: Channel<Iso14230>,
    ecu: u8,
    tester: u8,
}

impl View for KLineEcu {
    type V = EcuState;

    closed spec fn view(&self) -> EcuState {
        EcuState { chan: self.chan@, ecu: self.ecu, tester: self.tester }
    }
}

impl KLineEcu {
    /// Wrap an already-initialised channel targeting `ecu` (tester `0xF0`).
    /// Prefer [`KLineEcu::connect`], which also runs the vendor bring-up.
    pub fn new(chan: Channel<Iso14230>, ecu: u8) -> (r: KLineEcu)
        ensures
            r@ == (EcuState { chan: chan@, ecu, tester: TESTER_DEFAULT }),
    {
        KLineEcu { chan, ecu, tester: TESTER_DEFAULT }
    }

    /// Override the tester (source) address (default `0xF0`).
    pub fn with_tester(self, tester: u8) -> (r: KLineEcu)
        ensures
            r@ == (EcuState { tester, ..self@ }),
    {
        KLineEcu { chan: self.chan, ecu: self.ecu, tester }
    }

    /// Open an ISO 14230 channel to `ecu` and run the vendor bring-up: install
    /// the header PASS filter and the [`kline_timing`] config. Does **not**
    /// FAST_INIT; call [`KLineEcu::fast_init`] next (kept separate so the
    /// caller sees the key bytes).
    pub fn connect<T: Transport>(dev: &mut Device<T>, ecu: u8) -> (r: Result<KLineEcu, Error>)
        requires
            old(dev)@.valid(),
        ensures
            (seen(r), final(dev)@) == ecu_connect(old(dev)@, ecu),
            final(dev)@.valid(),
            final(dev).kept(old(dev)),
    {
        let mut chan = dev.connect::<Iso14230>(KLineConfig::default())?;
        match KLineEcu::bring_up(&mut chan, dev) {
            Ok(()) => Ok(KLineEcu::new(chan, ecu)),
            Err(e) => {
                let _ = chan.disconnect(dev);
                Err(e)
            },
        }
    }

    fn bring_up<T: Transport>(chan: &mut Channel<Iso14230>, dev: &mut Device<T>) -> (r: Result<
        (),
        Error,
    >)
        requires
            old(dev)@.valid(),
        ensures
            (r, final(chan)@, final(dev)@) == brought_up(old(dev)@, old(chan)@),
            final(dev)@.valid(),
            final(dev).kept(old(dev)),
    {
        chan.set_filter(dev, KLineFilter { mask: 0xc0, pattern: 0x80 })?;
        let ghost s1 = dev@;
        let ghost c1 = chan@;
        let timing = kline_timing();
        let mut i: usize = 0;
        while i < 12
            invariant
                i <= 12,
                dev@.valid(),
                dev.kept(old(dev)),
                timing@ == timing_profile(),
                chan@ == c1,
                configured(s1, c1, i as nat) == (Ok::<(), Error>(()), dev@),
                old(chan)@.set_filter(old(dev)@, header_filter().fields()) == (
                    Ok::<(), Error>(()),
                    c1,
                    s1,
                ),
            decreases 12 - i,
        {
            let (param, value): (u32, u32) = timing[i];
            let r = chan.set_config(dev, param, value);
            assert((r, dev@) == configured(s1, c1, (i + 1) as nat));
            if let Err(e) = r {
                proof {
                    lemma_configured_stops(s1, c1, (i + 1) as nat, 12);
                }
                return Err(e);
            }
            i = i + 1;
        }
        chan.clear_periodic(dev)
    }

    /// FAST_INIT + StartCommunication (`81`) to the ECU; returns the raw key-byte
    /// frame the ECU answers with.
    pub fn fast_init<T: Transport>(&mut self, dev: &mut Device<T>) -> (r: Result<Vec<u8>, Error>)
        requires
            old(dev)@.valid(),
        ensures
            (seen(r), final(dev)@) == old(dev)@.kline_init(
                fast_init_cmd(
                    old(self)@.chan.raw.proto,
                    kline_frame(old(self)@.ecu, old(self)@.tester, seq![0x81u8]),
                ),
            ),
            final(dev)@.valid(),
            final(dev).kept(old(dev)),
            final(self)@ == old(self)@,
    {
        let start: [u8; 1] = [0x81];
        assert(start@ =~= seq![0x81u8]);
        let frame = self.frame(start.as_slice());
        self.chan.fast_init(dev, frame.as_slice())
    }

    /// The wrapped channel, for direct access (e.g. a second FAST_INIT).
    pub fn channel(&mut self) -> (r: &mut Channel<Iso14230>)
        ensures
            r@ == old(self)@.chan,
            final(self)@ == (EcuState { chan: final(r)@, ..old(self)@ }),
    {
        &mut self.chan
    }

    /// The ECU (target) address.
    pub fn ecu(&self) -> (r: u8)
        ensures
            r == self@.ecu,
    {
        self.ecu
    }

    /// Disconnect the channel, best effort.
    pub fn release<T: Transport>(self, dev: &mut Device<T>)
        requires
            old(dev)@.valid(),
        ensures
            final(dev)@ == old(dev)@.on_disconnect(self@.chan.raw.proto).1,
            final(dev)@.valid(),
            final(dev).kept(old(dev)),
    {
        let _ = self.chan.disconnect(dev);
    }

    fn frame(&self, payload: &[u8]) -> (v: Vec<u8>)
        ensures
            v@ == kline_frame(self@.ecu, self@.tester, payload@),
    {
        build_frame(self.ecu, self.tester, payload)
    }

    /// Put a request on the bus.
    fn put<T: Transport>(&mut self, dev: &mut Device<T>, req: &[u8]) -> (r: Result<(), Error>)
        requires
            old(dev)@.valid(),
        ensures
            (r, final(dev)@) == old(self)@.put(old(dev)@, req@),
            final(dev)@.valid(),
            final(dev).kept(old(dev)),
            final(self)@ == old(self)@,
    {
        self.chan.clear_periodic(dev)?;  // vendor sequence clears before every request
        let frame = self.frame(req);
        self.chan.write(dev, frame.as_slice())
    }

    /// Send a request and wait for its answer, swallowing `7F .. 78`
    /// responsePending frames.
    pub fn request<T: Transport>(
        &mut self,
        dev: &mut Device<T>,
        req: &[u8],
        timeout: Duration,
    ) -> (r: Result<Vec<u8>, Error>)
        requires
            old(dev)@.valid(),
        ensures
            (seen(r), final(dev)@) == ecu_request::<T>(
                old(dev)@,
                old(dev).setup(),
                old(self)@,
                req@,
                timeout,
            ),
            final(dev)@.valid(),
            final(dev).kept(old(dev)),
            final(self)@ == old(self)@,
    {
        self.put(dev, req)?;
        proof {
            lemma_only_session_moves::<T>(
                dev@,
                dev.setup(),
                self@,
                timeout,
                MAX_RESPONSE_PENDING as nat,
            );
        }
        drain_pending(self, dev, timeout)
    }
}

impl<T: Transport> Receive<Device<T>> for KLineEcu {
    type State = (Session, Setup, EcuState);

    open spec fn state(&self, dev: &Device<T>) -> (Session, Setup, EcuState) {
        (dev@, dev.setup(), self@)
    }

    open spec fn ready(&self, dev: &Device<T>) -> bool {
        dev@.valid()
    }

    open spec fn receipt(state: (Session, Setup, EcuState), timeout: Duration) -> (
        Result<Seq<u8>, Error>,
        (Session, Setup, EcuState),
    ) {
        let (r, s) = state.2.recv(state.0, timeout);
        (r, (s, state.1, state.2))
    }

    fn recv(&mut self, dev: &mut Device<T>, timeout: Duration) -> (r: Result<Vec<u8>, Error>) {
        let raw = self.chan.read(dev, timeout)?;
        let body = strip_header(raw.data.as_slice())?;
        Ok(copy_all(body))
    }
}

/// Waiting for an answer changes the session alone.
proof fn lemma_only_session_moves<T: Transport>(
    s: Session,
    setup: Setup,
    ecu: EcuState,
    timeout: Duration,
    budget: nat,
)
    ensures
        ({
            let after = drained::<Device<T>, KLineEcu>((s, setup, ecu), timeout, budget).1;
            after.1 == setup && after.2 == ecu
        }),
    decreases budget,
{
    let (r, s1) = ecu.recv(s, timeout);
    if budget > 0 {
        lemma_only_session_moves::<T>(s1, setup, ecu, timeout, (budget - 1) as nat);
    }
}

proof fn lemma_configured_stops(s: Session, chan: TypedState, n: nat, m: nat)
    requires
        n <= m,
        configured(s, chan, n).0 is Err,
    ensures
        configured(s, chan, m) == configured(s, chan, n),
    decreases m,
{
    if n < m {
        lemma_configured_stops(s, chan, n, (m - 1) as nat);
    }
}

/// A K-line ECU together with the device it is reached through.
pub struct KLineLink<T: Transport> {
    pub dev: Device<T>,
    pub ecu: KLineEcu,
}

impl<T: Transport> UdsTransport for KLineLink<T> {
    type State = (Session, Setup, EcuState);

    open spec fn state(&self) -> (Session, Setup, EcuState) {
        (self.dev@, self.dev.setup(), self.ecu@)
    }

    open spec fn ready(&self) -> bool {
        self.dev@.valid()
    }

    open spec fn exchange(state: (Session, Setup, EcuState), req: Seq<u8>, timeout: Duration) -> (
        Result<Seq<u8>, Error>,
        (Session, Setup, EcuState),
    ) {
        let (r, s) = ecu_request::<T>(state.0, state.1, state.2, req, timeout);
        (r, (s, state.1, state.2))
    }

    fn request(&mut self, req: &[u8], timeout: Duration) -> (r: Result<Vec<u8>, Error>) {
        self.ecu.request(&mut self.dev, req, timeout)
    }
}

} // verus!
