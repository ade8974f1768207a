//! Requests to one ECU, over ISO-TP on either path and over K-line: what goes to
//! the adapter, and what counts as an answer.

use vstd::prelude::*;

use super::channels::{asked, id_bytes, keys_asked, lemma_id_bytes, lemma_keys};
use super::codec::lemma_ioctl_commands;
use super::exchange::ms;
use super::transfer::lead;
use super::wire::{channel_word, low_first, ordered};
use crate::error::{Error, IsoTpError};
use crate::isotp::client::{tp_request, FirmwareIsoTp, IsoTp, IsoTpConfig, IsoTpPath, TpState};
use crate::isotp::machine::{RxModel, RxPhase, RxStep, TxModel, TxPhase, TxStep};
use crate::isotp::pending::{drained, is_response_pending, pending, Receive, UdsTransport};
use crate::kline::{
    build_frame, configured, ecu_connect, ecu_request, kline_frame, service_bytes, timing_profile,
    EcuState, KLineEcu,
};
use crate::session::actor::Session;
use crate::session::channel::TypedState;
use crate::session::device::{Device, Setup};
use crate::session::protocol::{Can, CanConfig, CanId, FilterFields, Iso14230, Iso15765, Protocol};
use crate::time::{Duration, Instant};
use crate::transport::{Req, Transport};
use crate::types::{Cmd, FilterType, ProtocolId};

verus! {

/// A channel to an ECU is set up as it was asked for: half a megabit, frames
/// filled up with zeros, no limit on blocks, a second for each wait, eight times
/// told to wait, no address.
pub proof fn lemma_config(tx: CanId, rx: CanId, a: u8, can: CanConfig, c: IsoTpConfig, d: IsoTpConfig)
    ensures
        call_ensures(IsoTpConfig::new, (tx, rx), c) ==> {
            &&& c.tx_id == tx && c.rx_id == rx
            &&& c.can.bitrate == 500_000 && c.can.flags == 0
            &&& c.rx_bs == 0 && c.rx_stmin == 0 && c.padding == Some(0u8)
            &&& c.n_bs.nanos == 1_000_000_000 && c.n_cr.nanos == 1_000_000_000
            &&& c.wft_max == 8 && c.ext_addr is None
        },
        call_ensures(IsoTpConfig::with_ext_addr, (c, a), d) ==> d == (IsoTpConfig {
            ext_addr: Some(a),
            ..c
        }),
        call_ensures(IsoTpConfig::with_can, (c, can), d) ==> d == (IsoTpConfig { can, ..c }),
{
}

/// The filter of a channel to an ECU: on the host path, what the ECU sends; on
/// the firmware path, that and where flow controls go, and the address where
/// there is one. The mask is all ones.
pub proof fn lemma_endpoint_filter(tp: TpState)
    ensures
        ({
            let ones = seq![0xffu8, 0xff, 0xff, 0xff];
            let rx = id_bytes(tp.cfg.rx_id);
            let tx = id_bytes(tp.cfg.tx_id);
            tp.filter() == match (tp.path, tp.cfg.ext_addr) {
                (IsoTpPath::Host, _) => FilterFields {
                    ftype: FilterType::Pass,
                    mask: ones,
                    pattern: rx,
                    flow: None,
                    idlen: 4,
                },
                (IsoTpPath::Firmware, None) => FilterFields {
                    ftype: FilterType::FlowControl,
                    mask: ones,
                    pattern: rx,
                    flow: Some(tx),
                    idlen: 4,
                },
                (IsoTpPath::Firmware, Some(a)) => FilterFields {
                    ftype: FilterType::FlowControl,
                    mask: ones.push(0xff),
                    pattern: rx.push(a),
                    flow: Some(tx.push(a)),
                    idlen: 5,
                },
            }
        }),
{
    lemma_id_bytes(tp.cfg.rx_id, [0, 0, 0, 0], false, tp.cfg.rx_id);
    lemma_id_bytes(tp.cfg.tx_id, [0, 0, 0, 0], false, tp.cfg.tx_id);
    assert(crate::bytes::be32(0xffff_ffff) =~= seq![0xffu8, 0xff, 0xff, 0xff]);
}

/// Opening a channel connects CAN on the host path and ISO15765 on the firmware
/// path, with the speed and flags asked for, and then sets the filter; if that
/// fails, the protocol is disconnected again.
pub proof fn lemma_endpoint_opening(s: Session, cfg: IsoTpConfig, path: IsoTpPath)
    ensures
        ({
            let (r, s1) = IsoTp::opening(s, cfg, path);
            let p = if path == IsoTpPath::Host {
                ProtocolId::Can
            } else {
                ProtocolId::Iso15765
            };
            let bare = TpState { path, chan: TypedState::fresh(p), cfg };
            match s.on_connect(p, cfg.can.flags, cfg.can.bitrate) {
                (Err(e), s2) => r == Err::<TpState, Error>(e) && s1 == s2,
                (Ok(()), s2) => {
                    let (f, chan, s3) = bare.chan.set_filter(s2, bare.filter());
                    match f {
                        Ok(()) => r == Ok::<TpState, Error>(TpState { path, chan, cfg }) && s1
                            == s3,
                        Err(e) => r == Err::<TpState, Error>(e) && s1 == s3.on_disconnect(p).1,
                    }
                },
            }
        }),
{
}

/// The flags word of a message to an ECU.
pub open spec fn word_for(id: CanId, flags: u32) -> u32 {
    if id is Ext {
        flags | 0x100
    } else {
        flags
    }
}

/// On the firmware path a payload goes out whole, after the address where there
/// is one, which sets flag 0x80; more than 255 bytes do not go out.
pub proof fn lemma_firmware_sends(tp: TpState, s: Session, payload: Seq<u8>)
    requires
        tp.path == IsoTpPath::Firmware,
    ensures
        ({
            let n = lead(tp.cfg.ext_addr) + payload.len();
            let bytes = match tp.cfg.ext_addr {
                Some(a) => seq![a] + payload,
                None => payload,
            };
            let flags = if tp.cfg.ext_addr is Some {
                0x80u32
            } else {
                0u32
            };
            if n > 255 {
                tp.send(s, payload) == (
                    Err::<(), Error>(Error::IsoTp(IsoTpError::FirmwareFfDlLimit(n as usize))),
                    s,
                )
            } else {
                tp.send(s, payload) == s.write(
                    tp.chan.raw.proto,
                    word_for(tp.cfg.tx_id, flags),
                    id_bytes(tp.cfg.tx_id) + bytes,
                )
            }
        }),
{
    lemma_id_bytes(tp.cfg.tx_id, [0, 0, 0, 0], false, tp.cfg.tx_id);
    assert(crate::isotp::machine::head(tp.cfg.ext_addr) + payload =~= match tp.cfg.ext_addr {
        Some(a) => seq![a] + payload,
        None => payload,
    });
}

/// On the host path every frame of a transfer goes to the ECU's identifier as one
/// CAN message, with no flags but the one for a long identifier.
pub proof fn lemma_frame_put(tp: TpState, s: Session, frame: Seq<u8>, flags: u32)
    ensures
        tp.put(s, frame, flags) == s.write(
            tp.chan.raw.proto,
            word_for(tp.cfg.tx_id, flags),
            id_bytes(tp.cfg.tx_id) + frame,
        ),
{
    lemma_id_bytes(tp.cfg.tx_id, [0, 0, 0, 0], false, tp.cfg.tx_id);
}

/// A frame counts as the ECU's only if it is data, comes from the identifier that
/// the ECU answers on, holds something, and opens with the address where there is
/// one; everything after the identifier is the frame.
pub proof fn lemma_frame_polled(tp: TpState, s: Session, budget: Duration)
    ensures
        ({
            let (r, s1) = tp.poll_frame(s, budget);
            let (polled, s2) = s.on_poll(tp.chan.raw.proto, budget);
            &&& s1 == s2
            &&& match polled {
                Err(e) => r == Err::<Option<Seq<u8>>, Error>(e),
                Ok(None) => r == Ok::<Option<Seq<u8>>, Error>(None),
                Ok(Some(m)) => {
                    let ours = m.status.word & 2 != 2 && m.data.len() > 4 && m.data.take(4)
                        == id_bytes(tp.cfg.rx_id) && (tp.cfg.ext_addr matches Some(a) ==> m.data[4]
                        == a);
                    r == Ok::<Option<Seq<u8>>, Error>(
                        if ours {
                            Some(m.data.skip(4))
                        } else {
                            None
                        },
                    )
                },
            }
        }),
{
    lemma_id_bytes(tp.cfg.rx_id, [0, 0, 0, 0], false, tp.cfg.rx_id);
}

/// A transfer on the host path is driven by the sender's machine, which is
/// started with the payload and the configuration.
pub proof fn lemma_host_sends(tp: TpState, s: Session, payload: Seq<u8>)
    requires
        tp.path == IsoTpPath::Host,
    ensures
        payload.len() == 0 ==> tp.send(s, payload).0 is Err && tp.send(s, payload).1 == s,
        payload.len() > 4095 ==> tp.send(s, payload) == (
            Err::<(), Error>(Error::IsoTp(IsoTpError::PayloadTooLong(payload.len() as usize))),
            s,
        ),
        1 <= payload.len() <= 4095 ==> tp.send(s, payload) == tp.drive_tx(
            s,
            (TxModel {
                payload,
                addr: tp.cfg.ext_addr,
                padding: tp.cfg.padding,
                n_bs: tp.cfg.n_bs,
                wft_max: tp.cfg.wft_max,
                phase: if payload.len() <= 7 - lead(tp.cfg.ext_addr) {
                    TxPhase::Single
                } else {
                    TxPhase::First
                },
            }),
            u64::MAX as nat,
        ),
{
}

/// One round of that: a frame that is due is put out; a pause is slept through; a
/// flow control is polled for, 100 ms at a time and never past its deadline, and
/// a frame that comes is handed to the machine; the transfer ends when the
/// machine says so, or with the first error.
pub proof fn lemma_host_send_round(tp: TpState, s: Session, tx: TxModel, rounds: nat)
    requires
        rounds > 0,
    ensures
        ({
            let left = (rounds - 1) as nat;
            let (now, w1) = s.world.clock();
            let s1 = s.in_world(w1);
            let (now2, w2) = w1.clock();
            let (step, tx1) = tx.advance(now);
            match step {
                Err(e) => tp.drive_tx(s, tx, rounds) == (Err::<(), Error>(Error::IsoTp(e)), s1),
                Ok(TxStep::Done) => tp.drive_tx(s, tx, rounds) == (Ok::<(), Error>(()), s1),
                Ok(TxStep::Send(frame)) => match tp.put(s1, frame, 0) {
                    (Err(e), s2) => tp.drive_tx(s, tx, rounds) == (Err::<(), Error>(e), s2),
                    (Ok(()), s2) => tp.drive_tx(s, tx, rounds) == tp.drive_tx(s2, tx1, left),
                },
                Ok(TxStep::WaitUntil(t)) => tp.drive_tx(s, tx, rounds) == tp.drive_tx(
                    s.in_world(
                        if t.nanos > now2.nanos {
                            w2.after(
                                Req::Sleep(Duration { nanos: (t.nanos - now2.nanos) as u128 }),
                            )
                        } else {
                            w2
                        },
                    ),
                    tx1,
                    left,
                ),
                Ok(TxStep::WaitFc(deadline)) => if now2.nanos >= deadline.nanos {
                    tp.drive_tx(s, tx, rounds) == tp.drive_tx(s.in_world(w2), tx1, left)
                } else {
                    let rest = deadline.nanos - now2.nanos;
                    let budget = if rest <= 100_000_000 {
                        rest
                    } else {
                        100_000_000
                    };
                    let (came, s3) = tp.poll_frame(
                        s.in_world(w2),
                        Duration { nanos: budget as u128 },
                    );
                    let (now3, w4) = s3.world.clock();
                    match came {
                        Err(e) => tp.drive_tx(s, tx, rounds) == (Err::<(), Error>(e), s3),
                        Ok(None) => tp.drive_tx(s, tx, rounds) == tp.drive_tx(s3, tx1, left),
                        Ok(Some(f)) => match tx1.receive(f, now3) {
                            (Err(e), _) => tp.drive_tx(s, tx, rounds).0 == Err::<(), Error>(
                                Error::IsoTp(e),
                            ),
                            (Ok(_), tx2) => tp.drive_tx(s, tx, rounds) == tp.drive_tx(
                                s3.in_world(w4),
                                tx2,
                                left,
                            ),
                        },
                    }
                },
            }
        }),
{
}

/// One round of a reception on the host path: a reassembly that has waited too
/// long for its next frame ends; then the time for the whole is looked at; then a
/// frame is polled for, 200 ms at a time and never past the deadline, and handed
/// to the machine, whose flow control is put out and whose payload is the result.
pub proof fn lemma_host_recv_round(
    tp: TpState,
    s: Session,
    rx: RxModel,
    deadline: Instant,
    timeout: Duration,
    rounds: nat,
)
    requires
        rounds > 0,
    ensures
        ({
            let left = (rounds - 1) as nat;
            let (now, w1) = s.world.clock();
            let s1 = s.in_world(w1);
            let r = tp.drive_rx(s, rx, deadline, timeout, rounds);
            if rx.phase is Receiving && now.nanos > rx.phase->Receiving_deadline.nanos {
                r == (Err::<Seq<u8>, Error>(Error::IsoTp(IsoTpError::CfTimeout)), s1)
            } else if now.nanos >= deadline.nanos {
                r == (Err::<Seq<u8>, Error>(Error::Timeout(timeout)), s1)
            } else {
                let rest = deadline.nanos - now.nanos;
                let budget = if rest <= 200_000_000 {
                    rest
                } else {
                    200_000_000
                };
                let (came, s2) = tp.poll_frame(s1, Duration { nanos: budget as u128 });
                let (now2, w3) = s2.world.clock();
                let s3 = s2.in_world(w3);
                match came {
                    Err(e) => r == (Err::<Seq<u8>, Error>(e), s2),
                    Ok(None) => r == tp.drive_rx(s2, rx, deadline, timeout, left),
                    Ok(Some(f)) => match rx.receive(f, now2) {
                        (Err(e), _) => r == (Err::<Seq<u8>, Error>(Error::IsoTp(e)), s3),
                        (Ok(RxStep::Done(p)), _) => r == (Ok::<Seq<u8>, Error>(p), s3),
                        (Ok(RxStep::Continue), rx1) => r == tp.drive_rx(
                            s3,
                            rx1,
                            deadline,
                            timeout,
                            left,
                        ),
                        (Ok(RxStep::SendFc(fc)), rx1) => match tp.put(s3, fc, 0) {
                            (Err(e), s4) => r == (Err::<Seq<u8>, Error>(e), s4),
                            (Ok(()), s4) => r == tp.drive_rx(s4, rx1, deadline, timeout, left),
                        },
                    },
                }
            }
        }),
{
}

/// A reception starts with an empty reassembly and the clock; on the firmware
/// path a message that is not the ECU's is passed over, and of one that is the
/// identifier goes, and the address where there is one and the message says so.
pub proof fn lemma_receives(tp: TpState, s: Session, timeout: Duration, rounds: nat)
    ensures
        tp.path == IsoTpPath::Host ==> {
            let (now, w) = s.world.clock();
            tp.recv(s, timeout) == tp.drive_rx(
                s.in_world(w),
                (RxModel {
                    bs: tp.cfg.rx_bs,
                    stmin: tp.cfg.rx_stmin,
                    padding: tp.cfg.padding,
                    n_cr: tp.cfg.n_cr,
                    addr: tp.cfg.ext_addr,
                    phase: RxPhase::Idle,
                }),
                now.spec_plus(timeout),
                timeout,
                u64::MAX as nat,
            )
        },
        tp.path == IsoTpPath::Firmware ==> tp.recv(s, timeout) == tp.firmware_recv(
            s,
            timeout,
            u64::MAX as nat,
        ),
        rounds > 0 ==> {
            let (came, s1) = s.read(tp.chan.raw, timeout);
            let r = tp.firmware_recv(s, timeout, rounds);
            match came {
                Err(e) => r == (Err::<Seq<u8>, Error>(e), s1),
                Ok(m) => if m.data.len() > 4 && m.data.take(4) == id_bytes(tp.cfg.rx_id) {
                    r == (
                        Ok::<Seq<u8>, Error>(
                            if tp.cfg.ext_addr is Some && m.status.word & 0x80 == 0x80 {
                                m.data.skip(5)
                            } else {
                                m.data.skip(4)
                            },
                        ),
                        s1,
                    )
                } else {
                    r == tp.firmware_recv(s1, timeout, (rounds - 1) as nat)
                },
            }
        },
{
    lemma_id_bytes(tp.cfg.rx_id, [0, 0, 0, 0], false, tp.cfg.rx_id);
}

/// Only a frame `7F xx 78` says to wait.
pub proof fn lemma_waiting_frame(resp: &[u8], b: bool)
    ensures
        call_ensures(is_response_pending, (resp,), b) ==> b == (resp@.len() >= 3 && resp@[0] == 0x7f
            && resp@[2] == 0x78),
        pending(resp@) == (resp@.len() >= 3 && resp@[0] == 0x7f && resp@[2] == 0x78),
{
}

/// A request is the payload sent and then the first answer that does not only say
/// to wait, of up to thirty that do.
pub proof fn lemma_request<T: Transport>(
    s: Session,
    setup: Setup,
    tp: TpState,
    ecu: EcuState,
    req: Seq<u8>,
    timeout: Duration,
    state: (Session, Setup, TpState),
    kstate: (Session, Setup, EcuState),
    left: nat,
)
    ensures
        match tp.send(s, req) {
            (Err(e), s1) => tp_request::<T>(s, setup, tp, req, timeout) == (
                Err::<Seq<u8>, Error>(e),
                s1,
            ),
            (Ok(()), s1) => {
                let (r, after) = drained::<Device<T>, IsoTp>((s1, setup, tp), timeout, 30);
                tp_request::<T>(s, setup, tp, req, timeout) == (r, after.0)
            },
        },
        match ecu.put(s, req) {
            (Err(e), s1) => ecu_request::<T>(s, setup, ecu, req, timeout) == (
                Err::<Seq<u8>, Error>(e),
                s1,
            ),
            (Ok(()), s1) => {
                let (r, after) = drained::<Device<T>, KLineEcu>((s1, setup, ecu), timeout, 30);
                ecu_request::<T>(s, setup, ecu, req, timeout) == (r, after.0)
            },
        },
        ({
            let (r, s1) = state.2.recv(state.0, timeout);
            let next = (s1, state.1, state.2);
            let d = drained::<Device<T>, IsoTp>(state, timeout, left);
            if left > 0 && r is Ok && r->Ok_0.len() >= 3 && r->Ok_0[0] == 0x7f && r->Ok_0[2]
                == 0x78 {
                d == drained::<Device<T>, IsoTp>(next, timeout, (left - 1) as nat)
            } else {
                d == (r, next)
            }
        }),
        ({
            let (r, s1) = kstate.2.recv(kstate.0, timeout);
            let next = (s1, kstate.1, kstate.2);
            let d = drained::<Device<T>, KLineEcu>(kstate, timeout, left);
            if left > 0 && r is Ok && r->Ok_0.len() >= 3 && r->Ok_0[0] == 0x7f && r->Ok_0[2]
                == 0x78 {
                d == drained::<Device<T>, KLineEcu>(next, timeout, (left - 1) as nat)
            } else {
                d == (r, next)
            }
        }),
{
}

/// Every call of an ISO-TP client is what is said of its channel.
pub proof fn lemma_client_calls<T: Transport>(
    cfg: IsoTpConfig,
    path: IsoTpPath,
    tx: CanId,
    rx: CanId,
    a: u8,
    addr: Option<u8>,
    payload: &[u8],
    timeout: Duration,
    tp: Result<IsoTp, Error>,
    fw: Result<FirmwareIsoTp, Error>,
    r: Result<(), Error>,
    data: Result<Vec<u8>, Error>,
)
    ensures
        forall|dev: &mut Device<T>| #[trigger]
            call_ensures(IsoTp::with_path::<T>, (dev, cfg, path), tp) ==> (
                crate::error::seen(tp),
                (*final(dev))@,
            ) == IsoTp::opening((*dev)@, cfg, path),
        forall|dev: &mut Device<T>| #[trigger]
            call_ensures(IsoTp::new::<T>, (dev, cfg), tp) ==> (
                crate::error::seen(tp),
                (*final(dev))@,
            ) == IsoTp::opening((*dev)@, cfg, IsoTpPath::Host),
        forall|dev: &mut Device<T>| #[trigger]
            call_ensures(FirmwareIsoTp::new::<T>, (dev, tx, rx), fw) ==> exists|c: IsoTpConfig|
                {
                    &&& #[trigger] plain_config(c, tx, rx, None)
                    &&& (crate::error::seen(fw), (*final(dev))@) == IsoTp::opening(
                        (*dev)@,
                        c,
                        IsoTpPath::Firmware,
                    )
                },
        forall|dev: &mut Device<T>| #[trigger]
            call_ensures(FirmwareIsoTp::with_ext_addr::<T>, (dev, tx, rx, a), fw) ==> exists|
                c: IsoTpConfig,
            |
                {
                    &&& #[trigger] plain_config(c, tx, rx, Some(a))
                    &&& (crate::error::seen(fw), (*final(dev))@) == IsoTp::opening(
                        (*dev)@,
                        c,
                        IsoTpPath::Firmware,
                    )
                },
        forall|t: &mut IsoTp, dev: &mut Device<T>| #[trigger]
            call_ensures(IsoTp::set_endpoints::<T>, (t, dev, tx, rx, addr), r) ==> {
                let asked_for = TpState {
                    cfg: IsoTpConfig { tx_id: tx, rx_id: rx, ext_addr: addr, ..(*t)@.cfg },
                    ..(*t)@
                };
                let (did, chan, s1) = asked_for.chan.set_filter((*dev)@, asked_for.filter());
                &&& r == did && (*final(dev))@ == s1
                &&& (*final(t))@ == (TpState { chan, ..asked_for })
            },
        forall|t: &mut IsoTp, dev: &mut Device<T>| #[trigger]
            call_ensures(IsoTp::send::<T>, (t, dev, payload), r) ==> (r, (*final(dev))@)
                == (*t)@.send((*dev)@, payload@) && (*final(t))@ == (*t)@,
        forall|t: &mut IsoTp, dev: &mut Device<T>| #[trigger]
            call_ensures(<IsoTp>::recv::<T>, (t, dev, timeout), data) ==> (
                crate::error::seen(data),
                (*final(dev))@,
            ) == (*t)@.recv((*dev)@, timeout) && (*final(t))@ == (*t)@,
        forall|t: &mut IsoTp, dev: &mut Device<T>| #[trigger]
            call_ensures(IsoTp::request::<T>, (t, dev, payload, timeout), data) ==> (
                crate::error::seen(data),
                (*final(dev))@,
            ) == tp_request::<T>((*dev)@, (*dev).setup(), (*t)@, payload@, timeout),
        forall|t: &mut FirmwareIsoTp, dev: &mut Device<T>| #[trigger]
            call_ensures(FirmwareIsoTp::request::<T>, (t, dev, payload, timeout), data) ==> (
                crate::error::seen(data),
                (*final(dev))@,
            ) == tp_request::<T>((*dev)@, (*dev).setup(), (*t)@, payload@, timeout),
{
    let c = IsoTpConfig::plain(tx, rx);
    assert(plain_config(c, tx, rx, None));
    assert(plain_config(IsoTpConfig { ext_addr: Some(a), ..c }, tx, rx, Some(a)));
}

/// The configuration a channel has unless it is told otherwise.
pub open spec fn plain_config(c: IsoTpConfig, tx: CanId, rx: CanId, addr: Option<u8>) -> bool {
    &&& c.tx_id == tx && c.rx_id == rx && c.ext_addr == addr
    &&& c.can.bitrate == 500_000 && c.can.flags == 0
    &&& c.rx_bs == 0 && c.rx_stmin == 0 && c.padding == Some(0u8) && c.wft_max == 8
    &&& c.n_bs.nanos == 1_000_000_000 && c.n_cr.nanos == 1_000_000_000
}

/// A K-line frame: the length in the low six bits of the first byte, under bit 7,
/// or in a fourth byte from 64 on; then where it goes to and where it comes from.
pub proof fn lemma_kline_bytes(ecu: u8, tester: u8, payload: &[u8], v: Vec<u8>, s: Seq<u8>)
    ensures
        kline_frame(ecu, tester, s) == if s.len() < 64 {
            seq![(128 + s.len()) as u8, ecu, tester] + s
        } else {
            seq![128u8, ecu, tester, (s.len() % 256) as u8] + s
        },
        call_ensures(build_frame, (ecu, tester, payload), v) ==> v@ == kline_frame(
            ecu,
            tester,
            payload@,
        ),
{
}

/// The service bytes of a K-line frame: after three bytes, as many as the low six
/// bits of the first say; or, where those are zero, after four, as many as the
/// fourth says; or as many as there are.
pub proof fn lemma_kline_service(f: Seq<u8>)
    ensures
        f.len() < 4 ==> service_bytes(f) is Err,
        f.len() >= 4 ==> {
            let n = (f[0] % 64) as int;
            let at = if n == 0 {
                4int
            } else {
                3
            };
            let told = if n == 0 {
                f[3] as int
            } else {
                n
            };
            let end = if at + told <= f.len() {
                at + told
            } else {
                f.len() as int
            };
            service_bytes(f) == Ok::<Seq<u8>, Error>(f.subrange(at, end))
        },
{
    if f.len() >= 4 {
        assert(f.skip(3) =~= f.subrange(3, f.len() as int));
        assert(f.skip(4) =~= f.subrange(4, f.len() as int));
    }
}

/// The bring-up of a K-line ECU: ISO14230 at 10400 baud with flag 0x1000, the
/// filter C0/80, the twelve timing values in order, and no periodic messages. A
/// step that fails ends it, and the channel is disconnected.
pub proof fn lemma_kline_bring_up(s: Session, ecu: u8)
    ensures
        ({
            let (r, s1) = ecu_connect(s, ecu);
            let p = ProtocolId::Iso14230;
            match s.on_connect(p, 0x1000, 10400) {
                (Err(e), s2) => r == Err::<EcuState, Error>(e) && s1 == s2,
                (Ok(()), s2) => {
                    let filter = FilterFields {
                        ftype: FilterType::Pass,
                        mask: seq![0xc0u8],
                        pattern: seq![0x80u8],
                        flow: None,
                        idlen: 1,
                    };
                    let (f, chan, s3) = TypedState::fresh(p).set_filter(s2, filter);
                    let (c, s4) = configured(s3, chan, 12);
                    let (d, s5) = s4.on_status(
                        ordered(0x0e, seq![0x09u8] + channel_word(p)),
                        Cmd::Ioctl,
                        ms(1000),
                    );
                    if f is Ok && c is Ok && d is Ok {
                        &&& r == Ok::<EcuState, Error>(EcuState { chan, ecu, tester: 0xf0 })
                        &&& s1 == s5
                    } else {
                        &&& r is Err
                        &&& s1 == (if f is Err {
                            s3
                        } else if c is Err {
                            s4
                        } else {
                            s5
                        }).on_disconnect(p).1
                    }
                },
            }
        }),
{
    lemma_ioctl_commands(ProtocolId::Iso14230, 0, 0, Seq::empty());
}

/// Each timing value is set as one parameter.
pub proof fn lemma_kline_timing(s: Session, chan: TypedState, n: nat)
    requires
        1 <= n <= 12,
    ensures
        timing_profile() == seq![
            (0x01u32, 9600u32),
            (0x07, 40),
            (0x0a, 10),
            (0x0b, 10),
            (0x13, 300),
            (0x14, 35),
            (0x15, 50),
            (0x0e, 25),
            (0x0f, 20),
            (0x10, 20),
            (0x11, 25),
            (0x12, 10),
        ],
        match configured(s, chan, (n - 1) as nat) {
            (Err(e), s1) => configured(s, chan, n) == (Err::<(), Error>(e), s1),
            (Ok(()), s1) => {
                let (param, value) = timing_profile()[n - 1];
                configured(s, chan, n) == s1.on_status(
                    ordered(
                        0x0e,
                        seq![0x02u8] + channel_word(chan.raw.proto) + low_first(param as nat, 4)
                            + low_first(value as nat, 4),
                    ),
                    Cmd::Ioctl,
                    ms(2000),
                )
            },
        },
        configured(s, chan, 0) == (Ok::<(), Error>(()), s),
{
    let (param, value) = timing_profile()[n - 1];
    lemma_ioctl_commands(chan.raw.proto, param, value, Seq::empty());
}

/// A request to a K-line ECU clears periodic messages and writes the framed
/// request; its answer is the service bytes of the next data message.
pub proof fn lemma_kline_exchange(ecu: EcuState, s: Session, req: Seq<u8>, timeout: Duration)
    ensures
        ({
            let (d, s1) = s.on_status(
                ordered(0x0e, seq![0x09u8] + channel_word(ecu.chan.raw.proto)),
                Cmd::Ioctl,
                ms(1000),
            );
            match d {
                Err(e) => ecu.put(s, req) == (Err::<(), Error>(e), s1),
                Ok(()) => ecu.put(s, req) == s1.write(
                    ecu.chan.raw.proto,
                    0,
                    kline_frame(ecu.ecu, ecu.tester, req),
                ),
            }
        }),
        match s.read(ecu.chan.raw, timeout) {
            (Err(e), s1) => ecu.recv(s, timeout) == (Err::<Seq<u8>, Error>(e), s1),
            (Ok(m), s1) => ecu.recv(s, timeout) == (service_bytes(m.data), s1),
        },
{
    lemma_ioctl_commands(ecu.chan.raw.proto, 0, 0, Seq::empty());
}

/// Every call of a K-line client is what is said of its ECU; FAST_INIT carries
/// the start of communication, 81.
pub proof fn lemma_kline_calls<T: Transport>(
    ecu: u8,
    made: Result<KLineEcu, Error>,
    keys: Result<Vec<u8>, Error>,
    req: &[u8],
    timeout: Duration,
)
    ensures
        forall|dev: &mut Device<T>| #[trigger]
            call_ensures(KLineEcu::connect::<T>, (dev, ecu), made) ==> (
                crate::error::seen(made),
                (*final(dev))@,
            ) == ecu_connect((*dev)@, ecu),
        forall|k: &mut KLineEcu, dev: &mut Device<T>| #[trigger]
            call_ensures(KLineEcu::fast_init::<T>, (k, dev), keys) ==> keys_asked(
                (*dev)@,
                (*final(dev))@,
                crate::error::seen(keys),
                ordered(
                    0x0e,
                    seq![0x05u8] + channel_word((*k)@.chan.raw.proto) + seq![
                        0x81u8,
                        (*k)@.ecu,
                        (*k)@.tester,
                        0x81,
                    ],
                ),
            ),
        forall|k: &mut KLineEcu, dev: &mut Device<T>| #[trigger]
            call_ensures(KLineEcu::request::<T>, (k, dev, req, timeout), keys) ==> (
                crate::error::seen(keys),
                (*final(dev))@,
            ) == ecu_request::<T>((*dev)@, (*dev).setup(), (*k)@, req@, timeout),
{
    assert forall|k: &mut KLineEcu, dev: &mut Device<T>| #[trigger]
        call_ensures(KLineEcu::fast_init::<T>, (k, dev), keys) implies keys_asked(
        (*dev)@,
        (*final(dev))@,
        crate::error::seen(keys),
        ordered(
            0x0e,
            seq![0x05u8] + channel_word((*k)@.chan.raw.proto) + seq![
                0x81u8,
                (*k)@.ecu,
                (*k)@.tester,
                0x81,
            ],
        ),
    ) by {
        let f = kline_frame((*k)@.ecu, (*k)@.tester, seq![0x81u8]);
        assert(f =~= seq![0x81u8, (*k)@.ecu, (*k)@.tester, 0x81]);
        lemma_ioctl_commands((*k)@.chan.raw.proto, 0, 0, f);
        lemma_keys(
            (*dev)@,
            crate::codec::inner::fast_init_cmd((*k)@.chan.raw.proto, f),
        );
    }
}

} // verus!
