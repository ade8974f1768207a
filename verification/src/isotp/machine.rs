//! Sans-IO ISO 15765-2 transmit and receive state machines. Frames and clock
//! readings go in, frames and events come out; no I/O, no sleeping.
//!
//! They exist because the cable firmware's own ISO-TP transmit path is
//! defective: it ignores BS and STmin and truncates FF_DL to 8 bits.
//! Connecting as raw CAN and running these on the host is the alternative.

use vstd::prelude::*;

use crate::bytes::{copy_all, copy_range, push_all, push_repeated, repeated};
use crate::error::{seen, IsoTpError};
use crate::time::{millis, Duration, Instant};

verus! {

/// Largest classic ISO-TP payload (12-bit FF_DL).
pub const MAX_PAYLOAD: usize = 4095;

/// The pause an STmin byte asks for.
pub open spec fn stmin_of(b: u8) -> Duration {
    if b <= 0x7f {
        millis(b as nat)
    } else if 0xf1 <= b <= 0xf9 {
        millis(1)
    } else {
        millis(0x7f)
    }
}

/// Decode an STmin byte per ISO 15765-2: 0x00-0x7F are milliseconds,
/// 0xF1-0xF9 are 100-900 us (rounded up to 1 ms: a serial link cannot pace
/// finer), and reserved values mean "use the maximum", 0x7F ms.
pub fn decode_stmin(b: u8) -> (d: Duration)
    ensures
        d == stmin_of(b),
{
    if b <= 0x7f {
        Duration::from_millis(b as u64)
    } else if 0xf1 <= b && b <= 0xf9 {
        Duration::from_millis(1)
    } else {
        Duration::from_millis(0x7f)
    }
}

/// A frame filled up to eight bytes, if padding is in use.
pub open spec fn padded(frame: Seq<u8>, padding: Option<u8>) -> Seq<u8> {
    match padding {
        Some(p) => frame + repeated(p, (8 - frame.len()) as nat),
        None => frame,
    }
}

/// The extended-addressing byte that leads every frame, if one is in use.
pub open spec fn head(addr: Option<u8>) -> Seq<u8> {
    match addr {
        Some(a) => seq![a],
        None => seq![],
    }
}

/// Data bytes a single frame or a consecutive frame can hold: the address byte
/// costs one.
pub open spec fn room(addr: Option<u8>) -> int {
    7 - head(addr).len()
}

fn pad(mut frame: Vec<u8>, padding: Option<u8>) -> (r: Vec<u8>)
    requires
        frame.len() <= 8,
    ensures
        r@ == padded(frame@, padding),
{
    if let Some(p) = padding {
        let n: usize = 8 - frame.len();
        push_repeated(&mut frame, p, n);
    }
    frame
}

/// Start a frame with the extended-addressing byte when extended addressing is
/// in use.
fn start_frame(addr: Option<u8>) -> (r: Vec<u8>)
    ensures
        r@ == head(addr),
{
    let mut f: Vec<u8> = Vec::new();
    if let Some(a) = addr {
        f.push(a);
    }
    assert(f@ =~= head(addr));
    f
}

fn head_len(addr: Option<u8>) -> (h: usize)
    ensures
        h == head(addr).len(),
        h <= 1,
{
    match addr {
        Some(_) => 1,
        None => 0,
    }
}

/// The frame that carries a whole short payload.
pub open spec fn single_frame(payload: Seq<u8>, addr: Option<u8>, padding: Option<u8>) -> Seq<u8> {
    padded(head(addr) + seq![payload.len() as u8] + payload, padding)
}

/// The frame that announces a long payload: always full, so never padded.
pub open spec fn first_frame(payload: Seq<u8>, addr: Option<u8>) -> Seq<u8> {
    head(addr) + seq![(0x10 + payload.len() / 256) as u8, (payload.len() % 256) as u8]
        + payload.take(room(addr) - 1)
}

/// Where the data of consecutive frame `k` (counted from 0) starts.
pub open spec fn cf_start(addr: Option<u8>, k: nat) -> int {
    room(addr) - 1 + k * room(addr)
}

/// Where the data of consecutive frame `k` ends.
pub open spec fn cf_end(len: nat, addr: Option<u8>, k: nat) -> int {
    if cf_start(addr, k + 1) < len {
        cf_start(addr, k + 1)
    } else {
        len as int
    }
}

/// Consecutive frame `k` (counted from 0) of a payload.
pub open spec fn consecutive_frame(
    payload: Seq<u8>,
    addr: Option<u8>,
    padding: Option<u8>,
    k: nat,
) -> Seq<u8> {
    padded(
        head(addr) + seq![(0x20 + (k + 1) % 16) as u8] + payload.subrange(
            cf_start(addr, k),
            cf_end(payload.len(), addr, k),
        ),
        padding,
    )
}

/// What the transmit driver must do next.
#[derive(Debug, PartialEq, Eq)]
pub enum TxAction {
    /// Put this frame on the bus now.
    Send(Vec<u8>),
    /// Wait for a flow-control frame until the deadline, feeding candidate
    /// frames through [`TxMachine::on_frame`].
    WaitFc { deadline: Instant },
    /// STmin pacing: do nothing until this instant.
    WaitUntil(Instant),
    Done,
}

/// What a [`TxAction`] holds.
pub enum TxStep {
    Send(Seq<u8>),
    WaitFc(Instant),
    WaitUntil(Instant),
    Done,
}

impl View for TxAction {
    type V = TxStep;

    open spec fn view(&self) -> TxStep {
        match *self {
            TxAction::Send(f) => TxStep::Send(f@),
            TxAction::WaitFc { deadline } => TxStep::WaitFc(deadline),
            TxAction::WaitUntil(t) => TxStep::WaitUntil(t),
            TxAction::Done => TxStep::Done,
        }
    }
}

/// How far a transmission has come. `sent` counts consecutive frames.
pub enum TxPhase {
    Single,
    First,
    AwaitFc { sent: nat, waits: nat, deadline: Instant },
    /// `bs` is the block size granted by the last flow control (0: unlimited),
    /// `in_block` the frames sent since it.
    Consecutive { sent: nat, bs: u8, in_block: nat, stmin: Duration, earliest: Instant },
    Finished,
}

/// A transmission.
pub struct TxModel {
    pub payload: Seq<u8>,
    pub addr: Option<u8>,
    pub padding: Option<u8>,
    /// How long to wait for a flow control.
    pub n_bs: Duration,
    /// How many WAIT flow controls in a row are honoured.
    pub wft_max: u8,
    pub phase: TxPhase,
}

impl TxModel {
    /// The transmission of `payload` before its first frame.
    pub open spec fn start(
        payload: Seq<u8>,
        padding: Option<u8>,
        n_bs: Duration,
        wft_max: u8,
        addr: Option<u8>,
    ) -> TxModel {
        TxModel {
            payload,
            addr,
            padding,
            n_bs,
            wft_max,
            phase: if payload.len() <= room(addr) {
                TxPhase::Single
            } else {
                TxPhase::First
            },
        }
    }

    pub open spec fn in_phase(self, phase: TxPhase) -> TxModel {
        TxModel { phase, ..self }
    }

    /// The states a transmission can be in: there is something left to send
    /// until it is finished, and a granted block is never overrun.
    pub open spec fn valid(self) -> bool {
        &&& 1 <= self.payload.len() <= MAX_PAYLOAD
        &&& match self.phase {
            TxPhase::Single => self.payload.len() <= room(self.addr),
            TxPhase::First => self.payload.len() > room(self.addr),
            TxPhase::AwaitFc { sent, waits, .. } => {
                &&& self.payload.len() > room(self.addr)
                &&& cf_start(self.addr, sent) < self.payload.len()
                &&& waits <= self.wft_max
            },
            TxPhase::Consecutive { sent, bs, in_block, .. } => {
                &&& self.payload.len() > room(self.addr)
                &&& cf_start(self.addr, sent) < self.payload.len()
                &&& if bs == 0 { in_block == 0 } else { in_block < bs }
            },
            TxPhase::Finished => true,
        }
    }

    /// The phase after consecutive frame number `sent` has gone out at `now`.
    pub open spec fn after_cf(
        self,
        sent: nat,
        bs: u8,
        in_block: nat,
        stmin: Duration,
        now: Instant,
    ) -> TxPhase {
        if cf_start(self.addr, sent + 1) >= self.payload.len() {
            TxPhase::Finished
        } else if bs != 0 && in_block + 1 >= bs {
            TxPhase::AwaitFc { sent: sent + 1, waits: 0, deadline: now.spec_plus(self.n_bs) }
        } else {
            TxPhase::Consecutive {
                sent: sent + 1,
                bs,
                in_block: if bs == 0 { 0 } else { in_block + 1 },
                stmin,
                earliest: now.spec_plus(stmin),
            }
        }
    }

    /// What is to be done at `now`, and the transmission after it.
    pub open spec fn advance(self, now: Instant) -> (Result<TxStep, IsoTpError>, TxModel) {
        match self.phase {
            TxPhase::Single => (
                Ok(TxStep::Send(single_frame(self.payload, self.addr, self.padding))),
                self.in_phase(TxPhase::Finished),
            ),
            TxPhase::First => (
                Ok(TxStep::Send(first_frame(self.payload, self.addr))),
                self.in_phase(
                    TxPhase::AwaitFc { sent: 0, waits: 0, deadline: now.spec_plus(self.n_bs) },
                ),
            ),
            TxPhase::AwaitFc { deadline, .. } => if now.nanos >= deadline.nanos {
                (Err(IsoTpError::FcTimeout), self)
            } else {
                (Ok(TxStep::WaitFc(deadline)), self)
            },
            TxPhase::Consecutive { sent, bs, in_block, stmin, earliest } => if now.nanos
                < earliest.nanos {
                (Ok(TxStep::WaitUntil(earliest)), self)
            } else {
                (
                    Ok(
                        TxStep::Send(
                            consecutive_frame(self.payload, self.addr, self.padding, sent),
                        ),
                    ),
                    self.in_phase(self.after_cf(sent, bs, in_block, stmin, now)),
                )
            },
            TxPhase::Finished => (Ok(TxStep::Done), self),
        }
    }

    /// Whether `data` is a flow control meant for this transmission.
    pub open spec fn is_flow_control(self, data: Seq<u8>) -> bool {
        let h = head(self.addr).len() as int;
        &&& data.len() > h
        &&& data.take(h) == head(self.addr)
        &&& data[h] / 16 == 3
    }

    /// The effect of a frame received at `now`.
    pub open spec fn receive(self, data: Seq<u8>, now: Instant) -> (
        Result<(), IsoTpError>,
        TxModel,
    ) {
        let h = head(self.addr).len() as int;
        if let TxPhase::AwaitFc { sent, waits, .. } = self.phase {
            if !self.is_flow_control(data) {
                (Ok(()), self)
            } else if data.len() < h + 3 {
                (Err(IsoTpError::Malformed("flow control shorter than 3 bytes")), self)
            } else if data[h] % 16 == 0 {
                (
                    Ok(()),
                    self.in_phase(
                        TxPhase::Consecutive {
                            sent,
                            bs: data[h + 1],
                            in_block: 0,
                            stmin: stmin_of(data[h + 2]),
                            earliest: now,
                        },
                    ),
                )
            } else if data[h] % 16 == 1 {
                if waits >= self.wft_max {
                    (Err(IsoTpError::WaitLimit(self.wft_max)), self)
                } else {
                    (
                        Ok(()),
                        self.in_phase(
                            TxPhase::AwaitFc {
                                sent,
                                waits: waits + 1,
                                deadline: now.spec_plus(self.n_bs),
                            },
                        ),
                    )
                }
            } else if data[h] % 16 == 2 {
                (Err(IsoTpError::Overflow), self)
            } else {
                (Err(IsoTpError::Malformed("reserved flow status")), self)
            }
        } else {
            (Ok(()), self)
        }
    }
}

#[derive(Clone, Copy)]
enum TxState {
    SingleFrame,
    FirstFrame,
    AwaitFc { deadline: Instant },
    Consecutive { earliest: Instant },
    Finished,
}

/// The sending side of one ISO-TP transfer.
pub struct TxMachine {
    payload: Vec<u8>,
    /// Consecutive frames sent so far.
    sent: usize,
    /// Block size granted by the last FC (0 = unlimited).
    bs: u8,
    cfs_since_fc: u8,
    stmin: Duration,
    wait_count: u8,
    wft_max: u8,
    n_bs: Duration,
    padding: Option<u8>,
    /// Extended/mixed-addressing byte, prepended to every frame when set.
    addr: Option<u8>,
    state: TxState,
}

impl View for TxMachine {
    type V = TxModel;

    closed spec fn view(&self) -> TxModel {
        TxModel {
            payload: self.payload@,
            addr: self.addr,
            padding: self.padding,
            n_bs: self.n_bs,
            wft_max: self.wft_max,
            phase: match self.state {
                TxState::SingleFrame => TxPhase::Single,
                TxState::FirstFrame => TxPhase::First,
                TxState::AwaitFc { deadline } => TxPhase::AwaitFc {
                    sent: self.sent as nat,
                    waits: self.wait_count as nat,
                    deadline,
                },
                TxState::Consecutive { earliest } => TxPhase::Consecutive {
                    sent: self.sent as nat,
                    bs: self.bs,
                    in_block: self.cfs_since_fc as nat,
                    stmin: self.stmin,
                    earliest,
                },
                TxState::Finished => TxPhase::Finished,
            },
        }
    }
}

impl TxMachine {
    pub fn new(payload: &[u8], padding: Option<u8>, n_bs: Duration, wft_max: u8) -> (r: Result<
        TxMachine,
        IsoTpError,
    >)
        ensures
            payload.len() == 0 ==> r == Err::<TxMachine, _>(
                IsoTpError::Malformed("empty payload"),
            ),
            payload.len() > MAX_PAYLOAD ==> r == Err::<TxMachine, _>(
                IsoTpError::PayloadTooLong(payload.len()),
            ),
            1 <= payload.len() <= MAX_PAYLOAD ==> {
                &&& r matches Ok(m)
                &&& m@ == TxModel::start(payload@, padding, n_bs, wft_max, None)
                &&& m@.valid()
            },
    {
        TxMachine::with_addr(payload, padding, n_bs, wft_max, None)
    }

    pub fn with_addr(
        payload: &[u8],
        padding: Option<u8>,
        n_bs: Duration,
        wft_max: u8,
        addr: Option<u8>,
    ) -> (r: Result<TxMachine, IsoTpError>)
        ensures
            payload.len() == 0 ==> r == Err::<TxMachine, _>(
                IsoTpError::Malformed("empty payload"),
            ),
            payload.len() > MAX_PAYLOAD ==> r == Err::<TxMachine, _>(
                IsoTpError::PayloadTooLong(payload.len()),
            ),
            1 <= payload.len() <= MAX_PAYLOAD ==> {
                &&& r matches Ok(m)
                &&& m@ == TxModel::start(payload@, padding, n_bs, wft_max, addr)
                &&& m@.valid()
            },
    {
        if payload.len() == 0 {
            return Err(IsoTpError::Malformed("empty payload"));
        }
        if payload.len() > MAX_PAYLOAD {
            return Err(IsoTpError::PayloadTooLong(payload.len()));
        }
        let sf_max: usize = 7 - head_len(addr);
        let state = if payload.len() <= sf_max {
            TxState::SingleFrame
        } else {
            TxState::FirstFrame
        };
        Ok(
            TxMachine {
                payload: copy_all(payload),
                sent: 0,
                bs: 0,
                cfs_since_fc: 0,
                stmin: Duration::from_millis(0),
                wait_count: 0,
                wft_max,
                n_bs,
                padding,
                addr,
                state,
            },
        )
    }

    /// What to do at `now`.
    pub fn next(&mut self, now: Instant) -> (r: Result<TxAction, IsoTpError>)
        requires
            old(self)@.valid(),
        ensures
            final(self)@ == old(self)@.advance(now).1,
            final(self)@.valid(),
            seen(r) == old(self)@.advance(now).0,
    {
        match self.state {
            TxState::SingleFrame => {
                let mut f = start_frame(self.addr);
                f.push(self.payload.len() as u8);
                push_all(&mut f, self.payload.as_slice());
                assert(f@ =~= head(self.addr) + seq![self.payload.len() as u8] + self.payload@);
                self.state = TxState::Finished;
                Ok(TxAction::Send(pad(f, self.padding)))
            },
            TxState::FirstFrame => {
                let len: usize = self.payload.len();
                let first: usize = 6 - head_len(self.addr);
                let mut f = start_frame(self.addr);
                f.push((0x10 + len / 256) as u8);
                f.push((len % 256) as u8);
                push_all(&mut f, &self.payload.as_slice()[0..first]);
                assert(f@ =~= first_frame(self.payload@, self.addr));
                self.sent = 0;
                self.wait_count = 0;
                self.state = TxState::AwaitFc { deadline: now.plus(self.n_bs) };
                Ok(TxAction::Send(f))
            },
            TxState::AwaitFc { deadline } => {
                if now.nanos >= deadline.nanos {
                    Err(IsoTpError::FcTimeout)
                } else {
                    Ok(TxAction::WaitFc { deadline })
                }
            },
            TxState::Consecutive { earliest } => {
                if now.nanos < earliest.nanos {
                    return Ok(TxAction::WaitUntil(earliest));
                }
                let cf_max: usize = 7 - head_len(self.addr);
                proof {
                    lemma_cf_step(self.addr, self.sent as nat);
                }
                let offset: usize = cf_max - 1 + self.sent * cf_max;
                let end: usize = if offset + cf_max < self.payload.len() {
                    offset + cf_max
                } else {
                    self.payload.len()
                };
                let mut f = start_frame(self.addr);
                f.push((0x20 + (self.sent + 1) % 16) as u8);
                push_all(&mut f, &self.payload.as_slice()[offset..end]);
                assert(f@ =~= head(self.addr) + seq![(0x20 + (self.sent + 1) % 16) as u8]
                    + self.payload@.subrange(offset as int, end as int));
                self.sent = self.sent + 1;
                if end >= self.payload.len() {
                    self.state = TxState::Finished;
                } else if self.bs != 0 && self.cfs_since_fc + 1 >= self.bs {
                    // Block exhausted: the ECU owes us another FC.
                    self.wait_count = 0;
                    self.state = TxState::AwaitFc { deadline: now.plus(self.n_bs) };
                } else {
                    if self.bs != 0 {
                        self.cfs_since_fc = self.cfs_since_fc + 1;
                    }
                    self.state = TxState::Consecutive { earliest: now.plus(self.stmin) };
                }
                Ok(TxAction::Send(pad(f, self.padding)))
            },
            TxState::Finished => Ok(TxAction::Done),
        }
    }

    /// Feed a frame received on the response identifier. Non-FC frames and
    /// FCs arriving outside an FC wait are ignored.
    pub fn on_frame(&mut self, data: &[u8], now: Instant) -> (r: Result<(), IsoTpError>)
        requires
            old(self)@.valid(),
        ensures
            final(self)@ == old(self)@.receive(data@, now).1,
            final(self)@.valid(),
            r == old(self)@.receive(data@, now).0,
    {
        if !matches!(self.state, TxState::AwaitFc { .. }) {
            return Ok(());
        }
        let h: usize = head_len(self.addr);
        if data.len() < h + 1 {
            return Ok(());
        }
        if let Some(a) = self.addr {
            if data[0] != a {
                assert(data@.take(1)[0] != head(self.addr)[0]);
                return Ok(());
            }
        }
        assert(data@.take(h as int) =~= head(self.addr));
        if data[h] / 16 != 3 {
            return Ok(());
        }
        if data.len() < h + 3 {
            return Err(IsoTpError::Malformed("flow control shorter than 3 bytes"));
        }
        match data[h] % 16 {
            0 => {
                // CTS. STmin paces the gap between CFs; the first one of a
                // block may go immediately.
                self.bs = data[h + 1];
                self.stmin = decode_stmin(data[h + 2]);
                self.cfs_since_fc = 0;
                self.wait_count = 0;
                self.state = TxState::Consecutive { earliest: now };
                Ok(())
            },
            1 => {
                // WAIT, honoured up to wft_max times.
                if self.wait_count >= self.wft_max {
                    return Err(IsoTpError::WaitLimit(self.wft_max));
                }
                self.wait_count = self.wait_count + 1;
                self.state = TxState::AwaitFc { deadline: now.plus(self.n_bs) };
                Ok(())
            },
            2 => Err(IsoTpError::Overflow),
            _ => Err(IsoTpError::Malformed("reserved flow status")),
        }
    }
}

/// What the receive driver must do after feeding a frame.
#[derive(Debug, PartialEq, Eq)]
pub enum RxEvent {
    /// Put this flow-control frame on the bus now.
    SendFc(Vec<u8>),
    /// Reassembly complete.
    Done(Vec<u8>),
    /// Keep feeding frames.
    Continue,
}

/// What an [`RxEvent`] holds.
pub enum RxStep {
    SendFc(Seq<u8>),
    Done(Seq<u8>),
    Continue,
}

impl View for RxEvent {
    type V = RxStep;

    open spec fn view(&self) -> RxStep {
        match *self {
            RxEvent::SendFc(f) => RxStep::SendFc(f@),
            RxEvent::Done(p) => RxStep::Done(p@),
            RxEvent::Continue => RxStep::Continue,
        }
    }
}

/// How far a reassembly has come.
pub enum RxPhase {
    Idle,
    /// `got` is what has arrived of `len` bytes, `sn` the sequence number that
    /// is due, `in_block` the consecutive frames since the last flow control.
    Receiving { len: nat, got: Seq<u8>, sn: u8, in_block: nat, deadline: Instant },
}

/// A reassembly.
pub struct RxModel {
    /// Block size advertised in flow controls (0: send everything).
    pub bs: u8,
    /// STmin byte advertised in flow controls.
    pub stmin: u8,
    pub padding: Option<u8>,
    /// How long to wait for the next consecutive frame.
    pub n_cr: Duration,
    pub addr: Option<u8>,
    pub phase: RxPhase,
}

impl RxModel {
    pub open spec fn start(
        bs: u8,
        stmin: u8,
        padding: Option<u8>,
        n_cr: Duration,
        addr: Option<u8>,
    ) -> RxModel {
        RxModel { bs, stmin, padding, n_cr, addr, phase: RxPhase::Idle }
    }

    pub open spec fn in_phase(self, phase: RxPhase) -> RxModel {
        RxModel { phase, ..self }
    }

    /// The states a reassembly can be in: what has been gathered never reaches
    /// the announced length, which never exceeds the 12-bit ceiling.
    pub open spec fn valid(self) -> bool {
        match self.phase {
            RxPhase::Idle => true,
            RxPhase::Receiving { len, got, sn, in_block, .. } => {
                &&& got.len() < len <= MAX_PAYLOAD
                &&& sn < 16
                &&& if self.bs == 0 { in_block == 0 } else { in_block < self.bs }
            },
        }
    }

    /// The flow control this side sends: clear to send.
    pub open spec fn flow_control(self) -> Seq<u8> {
        padded(head(self.addr) + seq![0x30u8, self.bs, self.stmin], self.padding)
    }

    /// The effect of a frame received at `now`.
    pub open spec fn receive(self, data: Seq<u8>, now: Instant) -> (
        Result<RxStep, IsoTpError>,
        RxModel,
    ) {
        let h = head(self.addr).len() as int;
        if data.len() == 0 {
            (Err(IsoTpError::Malformed("empty frame")), self)
        } else if data.take(h) != head(self.addr) {
            (Err(IsoTpError::Malformed("extended-address mismatch")), self)
        } else if data.len() < h + 1 {
            (Err(IsoTpError::Malformed("frame too short for extended address")), self)
        } else {
            self.parse(data.skip(h), now)
        }
    }

    /// The effect of a frame whose address byte, if any, has been taken off.
    pub open spec fn parse(self, f: Seq<u8>, now: Instant) -> (
        Result<RxStep, IsoTpError>,
        RxModel,
    ) {
        let low = (f[0] % 16) as int;
        if f[0] / 16 == 0 {
            if low == 0 || 1 + low > f.len() {
                (Err(IsoTpError::Malformed("bad single-frame length")), self)
            } else {
                (Ok(RxStep::Done(f.subrange(1, 1 + low))), self.in_phase(RxPhase::Idle))
            }
        } else if f[0] / 16 == 1 {
            let len = (low * 256 + f[1]) as nat;
            if f.len() < room(self.addr) + 1 {
                (Err(IsoTpError::Malformed("short first frame")), self)
            } else if len <= room(self.addr) {
                (Err(IsoTpError::Malformed("FF_DL fits in a single frame")), self)
            } else {
                (
                    Ok(RxStep::SendFc(self.flow_control())),
                    self.in_phase(
                        RxPhase::Receiving {
                            len,
                            got: f.subrange(2, room(self.addr) + 1),
                            sn: 1,
                            in_block: 0,
                            deadline: now.spec_plus(self.n_cr),
                        },
                    ),
                )
            }
        } else if f[0] / 16 == 2 {
            self.gather(f, now)
        } else if f[0] / 16 == 3 {
            (Ok(RxStep::Continue), self)
        } else {
            (Err(IsoTpError::Malformed("unknown PCI type")), self)
        }
    }

    /// The effect of a consecutive frame.
    pub open spec fn gather(self, f: Seq<u8>, now: Instant) -> (
        Result<RxStep, IsoTpError>,
        RxModel,
    ) {
        match self.phase {
            RxPhase::Idle => (
                Err(IsoTpError::Malformed("consecutive frame without first frame")),
                self,
            ),
            RxPhase::Receiving { len, got, sn, in_block, .. } => if f[0] % 16 != sn {
                (
                    Err(
                        IsoTpError::SequenceError { expected: sn, got: (f[0] % 16) as u8 },
                    ),
                    self.in_phase(RxPhase::Idle),
                )
            } else {
                let take = least(least(len - got.len(), room(self.addr)), f.len() - 1);
                let more = got + f.subrange(1, 1 + take);
                let deadline = now.spec_plus(self.n_cr);
                let next_sn = ((sn + 1) % 16) as u8;
                if more.len() >= len {
                    (Ok(RxStep::Done(more)), self.in_phase(RxPhase::Idle))
                } else if self.bs != 0 && in_block + 1 >= self.bs {
                    (
                        Ok(RxStep::SendFc(self.flow_control())),
                        self.in_phase(
                            RxPhase::Receiving {
                                len,
                                got: more,
                                sn: next_sn,
                                in_block: 0,
                                deadline,
                            },
                        ),
                    )
                } else {
                    (
                        Ok(RxStep::Continue),
                        self.in_phase(
                            RxPhase::Receiving {
                                len,
                                got: more,
                                sn: next_sn,
                                in_block: if self.bs == 0 { 0 } else { in_block + 1 },
                                deadline,
                            },
                        ),
                    )
                }
            },
        }
    }
}

pub open spec fn least(a: int, b: int) -> int {
    if a <= b {
        a
    } else {
        b
    }
}

#[derive(Clone, Copy)]
enum RxState {
    Idle,
    Receiving { expected_sn: u8, cfs_since_fc: u8, deadline: Instant },
}

/// The receiving side of ISO-TP transfers.
pub struct RxMachine {
    buf: Vec<u8>,
    ff_dl: usize,
    /// BS we advertise in our FC (0 = send everything).
    rx_bs: u8,
    /// STmin byte we advertise.
    rx_stmin: u8,
    padding: Option<u8>,
    n_cr: Duration,
    /// Extended/mixed-addressing byte, expected on and prepended to every frame.
    addr: Option<u8>,
    state: RxState,
}

impl View for RxMachine {
    type V = RxModel;

    closed spec fn view(&self) -> RxModel {
        RxModel {
            bs: self.rx_bs,
            stmin: self.rx_stmin,
            padding: self.padding,
            n_cr: self.n_cr,
            addr: self.addr,
            phase: match self.state {
                RxState::Idle => RxPhase::Idle,
                RxState::Receiving { expected_sn, cfs_since_fc, deadline } => RxPhase::Receiving {
                    len: self.ff_dl as nat,
                    got: self.buf@,
                    sn: expected_sn,
                    in_block: cfs_since_fc as nat,
                    deadline,
                },
            },
        }
    }
}

impl RxMachine {
    pub fn new(rx_bs: u8, rx_stmin: u8, padding: Option<u8>, n_cr: Duration) -> (r: RxMachine)
        ensures
            r@ == RxModel::start(rx_bs, rx_stmin, padding, n_cr, None),
            r@.valid(),
    {
        RxMachine::with_addr(rx_bs, rx_stmin, padding, n_cr, None)
    }

    pub fn with_addr(
        rx_bs: u8,
        rx_stmin: u8,
        padding: Option<u8>,
        n_cr: Duration,
        addr: Option<u8>,
    ) -> (r: RxMachine)
        ensures
            r@ == RxModel::start(rx_bs, rx_stmin, padding, n_cr, addr),
            r@.valid(),
    {
        RxMachine {
            buf: Vec::new(),
            ff_dl: 0,
            rx_bs,
            rx_stmin,
            padding,
            n_cr,
            addr,
            state: RxState::Idle,
        }
    }

    fn fc(&self) -> (r: Vec<u8>)
        ensures
            r@ == self@.flow_control(),
    {
        let mut f = start_frame(self.addr);
        f.push(0x30);
        f.push(self.rx_bs);
        f.push(self.rx_stmin);
        assert(f@ =~= head(self.addr) + seq![0x30u8, self.rx_bs, self.rx_stmin]);
        pad(f, self.padding)
    }

    /// N_Cr enforcement: call periodically while waiting for CFs.
    pub fn check_timeout(&self, now: Instant) -> (r: Result<(), IsoTpError>)
        ensures
            r == match self@.phase {
                RxPhase::Receiving { deadline, .. } => if now.nanos > deadline.nanos {
                    Err::<(), IsoTpError>(IsoTpError::CfTimeout)
                } else {
                    Ok(())
                },
                RxPhase::Idle => Ok(()),
            },
    {
        if let RxState::Receiving { deadline, .. } = self.state {
            if now.nanos > deadline.nanos {
                return Err(IsoTpError::CfTimeout);
            }
        }
        Ok(())
    }

    /// Feed a received frame.
    pub fn on_frame(&mut self, data: &[u8], now: Instant) -> (r: Result<RxEvent, IsoTpError>)
        requires
            old(self)@.valid(),
        ensures
            final(self)@ == old(self)@.receive(data@, now).1,
            final(self)@.valid(),
            seen(r) == old(self)@.receive(data@, now).0,
    {
        if data.len() == 0 {
            return Err(IsoTpError::Malformed("empty frame"));
        }
        let h: usize = head_len(self.addr);
        if let Some(a) = self.addr {
            if data[0] != a {
                assert(data@.take(1)[0] != head(self.addr)[0]);
                return Err(IsoTpError::Malformed("extended-address mismatch"));
            }
        }
        assert(data@.take(h as int) =~= head(self.addr));
        if data.len() < h + 1 {
            return Err(IsoTpError::Malformed("frame too short for extended address"));
        }
        let f = &data[h..data.len()];
        assert(f@ =~= data@.skip(h as int));
        match f[0] / 16 {
            0 => {
                let len: usize = (f[0] % 16) as usize;
                if len == 0 || 1 + len > f.len() {
                    return Err(IsoTpError::Malformed("bad single-frame length"));
                }
                self.state = RxState::Idle;
                Ok(RxEvent::Done(copy_range(f, 1, 1 + len)))
            },
            1 => {
                if f.len() < 8 - h {
                    return Err(IsoTpError::Malformed("short first frame"));
                }
                let ff_dl: usize = (f[0] % 16) as usize * 256 + f[1] as usize;
                // A payload that would fit in a single frame must not use a
                // first frame.
                if ff_dl <= 7 - h {
                    return Err(IsoTpError::Malformed("FF_DL fits in a single frame"));
                }
                self.ff_dl = ff_dl;
                self.buf = copy_range(f, 2, 8 - h);
                self.state = RxState::Receiving {
                    expected_sn: 1,
                    cfs_since_fc: 0,
                    deadline: now.plus(self.n_cr),
                };
                Ok(RxEvent::SendFc(self.fc()))
            },
            2 => self.on_consecutive(f, now),
            // A flow-control frame is the sender's business, not ours.
            3 => Ok(RxEvent::Continue),
            _ => Err(IsoTpError::Malformed("unknown PCI type")),
        }
    }

    fn on_consecutive(&mut self, f: &[u8], now: Instant) -> (r: Result<RxEvent, IsoTpError>)
        requires
            old(self)@.valid(),
            f.len() >= 1,
        ensures
            final(self)@ == old(self)@.gather(f@, now).1,
            final(self)@.valid(),
            seen(r) == old(self)@.gather(f@, now).0,
    {
        if let RxState::Receiving { expected_sn, cfs_since_fc, .. } = self.state {
            let sn: u8 = f[0] % 16;
            if sn != expected_sn {
                self.state = RxState::Idle;
                return Err(IsoTpError::SequenceError { expected: expected_sn, got: sn });
            }
            let cap: usize = 7 - head_len(self.addr);
            let mut take: usize = self.ff_dl - self.buf.len();
            if cap < take {
                take = cap;
            }
            if f.len() - 1 < take {
                take = f.len() - 1;
            }
            push_all(&mut self.buf, &f[1..1 + take]);
            assert(self.buf@ =~= old(self).buf@ + f@.subrange(1, 1 + take));
            if self.buf.len() >= self.ff_dl {
                self.state = RxState::Idle;
                let mut out: Vec<u8> = Vec::new();
                std::mem::swap(&mut out, &mut self.buf);
                return Ok(RxEvent::Done(out));
            }
            if self.rx_bs != 0 && cfs_since_fc + 1 >= self.rx_bs {
                self.state = RxState::Receiving {
                    expected_sn: (sn + 1) % 16,
                    cfs_since_fc: 0,
                    deadline: now.plus(self.n_cr),
                };
                Ok(RxEvent::SendFc(self.fc()))
            } else {
                let cfs: u8 = if self.rx_bs != 0 {
                    cfs_since_fc + 1
                } else {
                    0
                };
                self.state = RxState::Receiving {
                    expected_sn: (sn + 1) % 16,
                    cfs_since_fc: cfs,
                    deadline: now.plus(self.n_cr),
                };
                Ok(RxEvent::Continue)
            }
        } else {
            Err(IsoTpError::Malformed("consecutive frame without first frame"))
        }
    }
}

/// Consecutive frames follow one another without a gap.
pub proof fn lemma_cf_step(addr: Option<u8>, k: nat)
    ensures
        cf_start(addr, k + 1) == cf_start(addr, k) + room(addr),
        cf_start(addr, k) >= k,
{
    let r = room(addr);
    assert((k + 1) * r == k * r + r) by (nonlinear_arith);
    assert(k * r >= k) by (nonlinear_arith)
        requires
            r >= 1,
            k >= 0,
    ;
}

} // verus!
