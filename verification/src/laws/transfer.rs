//! Segmented transfers, frame by frame and nanosecond by nanosecond.

use vstd::prelude::*;

use crate::error::IsoTpError;
use crate::isotp::laws::after_polls;
use crate::isotp::machine::{
    cf_end, consecutive_frame, decode_stmin, first_frame, lemma_cf_step, single_frame, stmin_of,
    RxEvent, RxMachine, RxModel, RxPhase, RxStep, TxAction, TxMachine, TxModel, TxPhase, TxStep,
};
use crate::time::{Duration, Instant};

verus! {

/// The bytes an address costs each frame.
pub open spec fn lead(addr: Option<u8>) -> int {
    if addr is Some {
        1
    } else {
        0
    }
}

/// Whether a frame opens with the address, where there is one.
pub open spec fn addressed(frame: Seq<u8>, addr: Option<u8>) -> bool {
    addr matches Some(a) ==> frame.len() > 0 && frame[0] == a
}

/// The nanoseconds that the STmin byte `b` asks for: as many milliseconds as it
/// says up to 127, one millisecond for the hundreds of microseconds, and 127
/// milliseconds for what is reserved.
pub open spec fn pause(b: u8) -> int {
    if b <= 0x7f {
        b * 1_000_000
    } else if 0xf1 <= b <= 0xf9 {
        1_000_000
    } else {
        127_000_000
    }
}

/// An STmin byte is decoded to the pause it asks for, in nanoseconds.
pub proof fn lemma_stmin_in_numbers(b: u8, d: Duration)
    ensures
        stmin_of(b).nanos == pause(b),
        call_ensures(decode_stmin, (b,), d) ==> d.nanos == pause(b),
        b <= 0x7f && call_ensures(decode_stmin, (b,), d) ==> d.nanos == b * 1_000_000,
{
}

/// A flow control that clears a sender to go on: 30, a block size and a pause,
/// after the address where there is one.
pub open spec fn clears(frame: Seq<u8>, addr: Option<u8>, bs: u8, b: u8) -> bool {
    let h = lead(addr);
    &&& frame.len() >= h + 3
    &&& addressed(frame, addr)
    &&& frame[h] == 0x30
    &&& frame[h + 1] == bs
    &&& frame[h + 2] == b
}

proof fn lemma_pause_kept(tx: TxModel, times: Seq<Instant>)
    requires
        tx.phase is Consecutive,
    ensures
        after_polls(tx, times).phase is Consecutive ==> after_polls(
            tx,
            times,
        ).phase->Consecutive_stmin == tx.phase->Consecutive_stmin,
    decreases times.len(),
{
    if times.len() > 0 {
        lemma_pause_kept(tx, times.drop_last());
    }
}

proof fn lemma_cleared(tx: TxModel, fc: Seq<u8>, bs: u8, b: u8, now: Instant)
    requires
        tx.phase is AwaitFc,
        clears(fc, tx.addr, bs, b),
    ensures
        ({
            let (r, tx1) = tx.receive(fc, now);
            &&& r is Ok
            &&& tx1 == tx.in_phase(tx1.phase)
            &&& tx1.phase is Consecutive
            &&& tx1.phase->Consecutive_sent == tx.phase->AwaitFc_sent
            &&& tx1.phase->Consecutive_bs == bs
            &&& tx1.phase->Consecutive_in_block == 0
            &&& tx1.phase->Consecutive_stmin.nanos == pause(b)
            &&& tx1.phase->Consecutive_earliest == now
        }),
{
    let h = lead(tx.addr);
    if tx.addr is Some {
        assert(fc.take(h) =~= seq![fc[0]]);
    } else {
        assert(fc.take(h) =~= Seq::empty());
    }
}

/// The pause that the ECU asks for is kept, in nanoseconds: once a flow control
/// with the STmin byte `b` has cleared a sender, and however it has been polled
/// since, two consecutive frames that follow one another in the block are at
/// least the pause apart. A poll before that puts nothing out and names the
/// instant to wait for, and a poll from then on puts the next frame out.
pub proof fn lemma_pause_between_frames(
    tx: TxModel,
    fc: Seq<u8>,
    bs: u8,
    b: u8,
    cleared: Instant,
    times: Seq<Instant>,
    one: Instant,
    next: Instant,
)
    requires
        tx.valid(),
        tx.phase is AwaitFc,
        clears(fc, tx.addr, bs, b),
        one.nanos + pause(b) <= u128::MAX,
    ensures
        ({
            let before = after_polls(tx.receive(fc, cleared).1, times);
            let (r, after) = before.advance(one);
            let (r2, _) = after.advance(next);
            r matches Ok(TxStep::Send(_)) && after.phase is Consecutive ==> if next.nanos
                < one.nanos + pause(b) {
                r2 == Ok::<TxStep, IsoTpError>(
                    TxStep::WaitUntil(Instant { nanos: (one.nanos + pause(b)) as u128 }),
                )
            } else {
                r2 matches Ok(TxStep::Send(_))
            }
        }),
        tx.receive(fc, cleared).0 is Ok,
        cleared.nanos <= one.nanos ==> tx.receive(fc, cleared).1.advance(one).0 matches Ok(
            TxStep::Send(_),
        ),
{
    lemma_cleared(tx, fc, bs, b, cleared);
    lemma_pause_kept(tx.receive(fc, cleared).1, times);
    let before = after_polls(tx.receive(fc, cleared).1, times);
    lemma_stays(tx.receive(fc, cleared).1, times);
    if before.phase is Single || before.phase is First {
        assert(false);
    }
}

proof fn lemma_stays(tx: TxModel, times: Seq<Instant>)
    requires
        tx.phase is Consecutive,
    ensures
        ({
            let end = after_polls(tx, times);
            end.phase is Consecutive || end.phase is AwaitFc || end.phase is Finished
        }),
    decreases times.len(),
{
    if times.len() > 0 {
        lemma_stays(tx, times.drop_last());
    }
}

/// A frame filled up to eight bytes, where frames are filled up.
pub open spec fn eight(frame: Seq<u8>, fill: Option<u8>) -> Seq<u8> {
    match fill {
        Some(b) => Seq::new(
            8,
            |i: int|
                if i < frame.len() {
                    frame[i]
                } else {
                    b
                },
        ),
        None => frame,
    }
}

/// The address in front, where there is one.
pub open spec fn with_address(addr: Option<u8>, rest: Seq<u8>) -> Seq<u8> {
    match addr {
        Some(a) => seq![a] + rest,
        None => rest,
    }
}

/// The frames of a payload, byte by byte. One that fits goes whole, after its
/// length. A longer one opens with its length in twelve bits under 1 and as many
/// bytes as fill the frame; consecutive frame `k` (from 0) is numbered `k + 1`
/// modulo sixteen under 2, and carries the next seven bytes, or six with an
/// address, or what is left.
pub proof fn lemma_frame_bytes(payload: Seq<u8>, addr: Option<u8>, fill: Option<u8>, k: nat)
    requires
        1 <= payload.len() <= 4095,
    ensures
        payload.len() <= 7 - lead(addr) ==> single_frame(payload, addr, fill) == eight(
            with_address(addr, seq![payload.len() as u8] + payload),
            fill,
        ),
        payload.len() > 7 - lead(addr) ==> first_frame(payload, addr) == with_address(
            addr,
            seq![(0x10 + payload.len() / 256) as u8, (payload.len() % 256) as u8] + payload.take(
                6 - lead(addr),
            ),
        ),
        ({
            let room = 7 - lead(addr);
            let at = room - 1 + k * room;
            let end = if at + room <= payload.len() {
                at + room
            } else {
                payload.len() as int
            };
            at < payload.len() ==> consecutive_frame(payload, addr, fill, k) == eight(
                with_address(
                    addr,
                    seq![(0x20 + (k + 1) % 16) as u8] + payload.subrange(at, end),
                ),
                fill,
            )
        }),
{
    let h = lead(addr);
    let room = 7 - h;
    lemma_cf_step(addr, k);
    if payload.len() <= room {
        assert(single_frame(payload, addr, fill) =~= eight(
            with_address(addr, seq![payload.len() as u8] + payload),
            fill,
        ));
    } else {
        assert(first_frame(payload, addr) =~= with_address(
            addr,
            seq![(0x10 + payload.len() / 256) as u8, (payload.len() % 256) as u8] + payload.take(
                6 - h,
            ),
        ));
    }
    let at = room - 1 + k * room;
    if at < payload.len() {
        assert(consecutive_frame(payload, addr, fill, k) =~= eight(
            with_address(
                addr,
                seq![(0x20 + (k + 1) % 16) as u8] + payload.subrange(
                    at,
                    cf_end(payload.len(), addr, k),
                ),
            ),
            fill,
        ));
    }
}

/// What a sender does when polled: the one frame of a short payload; the first
/// of a long one, after which a flow control is waited for up to N_Bs; the next
/// consecutive frame if it is due; nothing once all is out.
pub proof fn lemma_sender_polled(tx: TxModel, now: Instant)
    requires
        tx.valid(),
        now.nanos + tx.n_bs.nanos <= u128::MAX,
    ensures
        ({
            let (r, after) = tx.advance(now);
            let wait = Instant { nanos: (now.nanos + tx.n_bs.nanos) as u128 };
            &&& after == tx.in_phase(after.phase)
            &&& tx.phase is Single ==> {
                &&& r == Ok::<TxStep, IsoTpError>(
                    TxStep::Send(single_frame(tx.payload, tx.addr, tx.padding)),
                )
                &&& after.phase is Finished
            }
            &&& tx.phase is First ==> {
                &&& r == Ok::<TxStep, IsoTpError>(
                    TxStep::Send(first_frame(tx.payload, tx.addr)),
                )
                &&& after.phase == TxPhase::AwaitFc { sent: 0, waits: 0, deadline: wait }
            }
            &&& tx.phase matches TxPhase::AwaitFc { deadline, .. } ==> {
                &&& after == tx
                &&& r is Err <==> now.nanos >= deadline.nanos
                &&& r is Err ==> r->Err_0 == IsoTpError::FcTimeout
                &&& r is Ok ==> r->Ok_0 == TxStep::WaitFc(deadline)
            }
            &&& tx.phase matches TxPhase::Consecutive { sent, bs, in_block, stmin, earliest } ==> if now.nanos
                < earliest.nanos {
                r == Ok::<TxStep, IsoTpError>(TxStep::WaitUntil(earliest)) && after == tx
            } else {
                let room = 7 - lead(tx.addr);
                &&& r == Ok::<TxStep, IsoTpError>(
                    TxStep::Send(consecutive_frame(tx.payload, tx.addr, tx.padding, sent)),
                )
                &&& if room - 1 + (sent + 1) * room >= tx.payload.len() {
                    after.phase is Finished
                } else if bs != 0 && in_block + 1 >= bs {
                    after.phase == TxPhase::AwaitFc { sent: sent + 1, waits: 0, deadline: wait }
                } else {
                    &&& after.phase is Consecutive
                    &&& after.phase->Consecutive_sent == sent + 1
                    &&& after.phase->Consecutive_bs == bs
                    &&& after.phase->Consecutive_in_block == if bs == 0 {
                        0
                    } else {
                        in_block + 1
                    }
                    &&& after.phase->Consecutive_stmin == stmin
                    &&& now.nanos + stmin.nanos <= u128::MAX
                        ==> after.phase->Consecutive_earliest.nanos == now.nanos + stmin.nanos
                }
            }
            &&& tx.phase is Finished ==> r == Ok::<TxStep, IsoTpError>(TxStep::Done) && after == tx
        }),
{
}

/// What a sender makes of a frame while it waits for a flow control: one for
/// another address, or of another kind, is passed over; 30 clears it, 31 makes it
/// wait anew up to its limit, 32 ends the transfer, and anything else is an
/// error. At any other time every frame is passed over.
pub proof fn lemma_sender_hears(tx: TxModel, f: Seq<u8>, now: Instant)
    requires
        tx.valid(),
        now.nanos + tx.n_bs.nanos <= u128::MAX,
    ensures
        ({
            let (r, after) = tx.receive(f, now);
            let h = lead(tx.addr);
            let ours = f.len() > h && addressed(f, tx.addr) && 0x30 <= f[h] < 0x40;
            if !(tx.phase is AwaitFc) || !ours {
                r is Ok && after == tx
            } else if f.len() < h + 3 {
                r is Err && r->Err_0 is Malformed && after == tx
            } else if f[h] == 0x30 {
                &&& r is Ok
                &&& after == tx.in_phase(after.phase)
                &&& after.phase is Consecutive
                &&& after.phase->Consecutive_sent == tx.phase->AwaitFc_sent
                &&& after.phase->Consecutive_bs == f[h + 1]
                &&& after.phase->Consecutive_in_block == 0
                &&& after.phase->Consecutive_earliest == now
                &&& after.phase->Consecutive_stmin.nanos == pause(f[h + 2])
            } else if f[h] == 0x31 {
                if tx.phase->waits >= tx.wft_max {
                    r == Err::<(), IsoTpError>(IsoTpError::WaitLimit(tx.wft_max)) && after == tx
                } else {
                    &&& r is Ok
                    &&& after == tx.in_phase(after.phase)
                    &&& after.phase == TxPhase::AwaitFc {
                        sent: tx.phase->AwaitFc_sent,
                        waits: tx.phase->waits + 1,
                        deadline: Instant { nanos: (now.nanos + tx.n_bs.nanos) as u128 },
                    }
                }
            } else if f[h] == 0x32 {
                r == Err::<(), IsoTpError>(IsoTpError::Overflow) && after == tx
            } else {
                r is Err && r->Err_0 is Malformed && after == tx
            }
        }),
{
    let h = lead(tx.addr);
    if f.len() > h {
        if tx.addr is Some {
            assert(f.take(h) =~= seq![f[0]]);
            assert(f.take(h)[0] == f[0]);
        } else {
            assert(f.take(h) =~= Seq::empty());
        }
    }
}

/// The flow control a receiver sends: 30, its block size and its pause, filled
/// up to eight bytes where frames are.
pub proof fn lemma_flow_control_bytes(rx: RxModel)
    ensures
        rx.flow_control() == eight(
            with_address(rx.addr, seq![0x30u8, rx.bs, rx.stmin]),
            rx.padding,
        ),
        clears(rx.flow_control(), rx.addr, rx.bs, rx.stmin),
{
    assert(rx.flow_control() =~= eight(
        with_address(rx.addr, seq![0x30u8, rx.bs, rx.stmin]),
        rx.padding,
    ));
}

/// What a receiver makes of a frame. A single frame is a payload. A first frame
/// opens a reassembly and is answered with a flow control. A consecutive frame in
/// sequence adds to it what is still missing, up to seven bytes or six with an
/// address; it completes the payload, or ends a block that is answered with a
/// flow control, or neither. A flow control is passed over.
pub proof fn lemma_receiver_hears(rx: RxModel, f: Seq<u8>, now: Instant)
    requires
        rx.valid(),
        now.nanos + rx.n_cr.nanos <= u128::MAX,
    ensures
        ({
            let (r, after) = rx.receive(f, now);
            let h = lead(rx.addr);
            let kind = f[h] / 16;
            let low = (f[h] % 16) as int;
            let due = Instant { nanos: (now.nanos + rx.n_cr.nanos) as u128 };
            if f.len() <= h || !addressed(f, rx.addr) {
                r is Err && r->Err_0 is Malformed && after == rx
            } else if kind == 0 {
                if low == 0 || h + 1 + low > f.len() {
                    r is Err && r->Err_0 is Malformed && after == rx
                } else {
                    &&& r == Ok::<RxStep, IsoTpError>(
                        RxStep::Done(f.subrange(h + 1, h + 1 + low)),
                    )
                    &&& after.phase is Idle
                }
            } else if kind == 1 {
                let len = low * 256 + f[h + 1];
                if f.len() < 8 || len <= 7 - h {
                    r is Err && r->Err_0 is Malformed && after == rx
                } else {
                    &&& r == Ok::<RxStep, IsoTpError>(RxStep::SendFc(rx.flow_control()))
                    &&& after.phase is Receiving
                    &&& after.phase->len == len
                    &&& after.phase->got == f.subrange(h + 2, 8)
                    &&& after.phase->sn == 1
                    &&& after.phase->Receiving_in_block == 0
                    &&& after.phase->Receiving_deadline == due
                }
            } else if kind == 2 {
                if rx.phase is Idle {
                    r is Err && r->Err_0 is Malformed && after == rx
                } else if low != rx.phase->sn {
                    &&& r == Err::<RxStep, IsoTpError>(
                        IsoTpError::SequenceError {
                            expected: rx.phase->sn as u8,
                            got: low as u8,
                        },
                    )
                    &&& after.phase is Idle
                } else {
                    let got = rx.phase->got;
                    let missing = rx.phase->len - got.len();
                    let here = f.len() - h - 1;
                    let most = if missing <= 7 - h {
                        missing
                    } else {
                        7 - h
                    };
                    let n = if here <= most {
                        here
                    } else {
                        most
                    };
                    let more = got + f.subrange(h + 1, h + 1 + n);
                    let block_ends = rx.bs != 0 && rx.phase->Receiving_in_block + 1 >= rx.bs;
                    if n == missing {
                        &&& r == Ok::<RxStep, IsoTpError>(RxStep::Done(more))
                        &&& after.phase is Idle
                    } else {
                        &&& r == Ok::<RxStep, IsoTpError>(
                            if block_ends {
                                RxStep::SendFc(rx.flow_control())
                            } else {
                                RxStep::Continue
                            },
                        )
                        &&& after.phase is Receiving
                        &&& after.phase->len == rx.phase->len
                        &&& after.phase->got == more
                        &&& after.phase->sn == (rx.phase->sn + 1) % 16
                        &&& after.phase->Receiving_deadline == due
                        &&& after.phase->Receiving_in_block == if block_ends || rx.bs == 0 {
                            0
                        } else {
                            rx.phase->Receiving_in_block + 1
                        }
                    }
                }
            } else if kind == 3 {
                r == Ok::<RxStep, IsoTpError>(RxStep::Continue) && after == rx
            } else {
                r is Err && r->Err_0 is Malformed && after == rx
            }
        }),
        rx.receive(f, now).1 == rx.in_phase(rx.receive(f, now).1.phase),
{
    let h = lead(rx.addr);
    if f.len() > 0 {
        if rx.addr is Some {
            assert(f.take(h) =~= seq![f[0]]);
            assert(f.take(h)[0] == f[0]);
        } else {
            assert(f.take(h) =~= Seq::empty());
        }
    }
    if f.len() > h && addressed(f, rx.addr) {
        let d = f.skip(h);
        assert(d[0] == f[h]);
        let low = (f[h] % 16) as int;
        if h + 1 + low <= f.len() {
            assert(d.subrange(1, 1 + low) =~= f.subrange(h + 1, h + 1 + low));
        }
        if f.len() >= 8 {
            assert(d.subrange(2, 8 - h) =~= f.subrange(h + 2, 8));
            assert(d[1] == f[h + 1]);
        }
        if rx.phase is Receiving {
            let missing = rx.phase->len - rx.phase->got.len();
            let here = f.len() - h - 1;
            let most = if missing <= 7 - h {
                missing
            } else {
                7 - h
            };
            let n = if here <= most {
                here
            } else {
                most
            };
            assert(d.subrange(1, 1 + n) =~= f.subrange(h + 1, h + 1 + n));
        }
    }
}

/// Every call of the machines does what the transfer they stand for does.
pub proof fn lemma_machines(now: Instant, data: &[u8], tx_r: Result<TxAction, IsoTpError>, hear_r: Result<
    (),
    IsoTpError,
>, rx_r: Result<RxEvent, IsoTpError>, rx: &RxMachine, late: Result<(), IsoTpError>)
    ensures
        forall|m: &mut TxMachine| #[trigger]
            call_ensures(TxMachine::next, (m, now), tx_r) ==> {
                &&& (*final(m))@ == (*m)@.advance(now).1
                &&& tx_r matches Ok(a) ==> (*m)@.advance(now).0 == Ok::<TxStep, IsoTpError>(a@)
                &&& tx_r matches Err(e) ==> (*m)@.advance(now).0 == Err::<TxStep, IsoTpError>(e)
            },
        forall|m: &mut TxMachine| #[trigger]
            call_ensures(TxMachine::on_frame, (m, data, now), hear_r) ==> (
                hear_r,
                (*final(m))@,
            ) == (*m)@.receive(data@, now),
        forall|m: &mut RxMachine| #[trigger]
            call_ensures(RxMachine::on_frame, (m, data, now), rx_r) ==> {
                &&& (*final(m))@ == (*m)@.receive(data@, now).1
                &&& rx_r matches Ok(a) ==> (*m)@.receive(data@, now).0 == Ok::<RxStep, IsoTpError>(
                    a@,
                )
                &&& rx_r matches Err(e) ==> (*m)@.receive(data@, now).0 == Err::<
                    RxStep,
                    IsoTpError,
                >(e)
            },
        call_ensures(RxMachine::check_timeout, (rx, now), late) ==> {
            &&& late is Err <==> (rx@.phase is Receiving && now.nanos
                > rx@.phase->Receiving_deadline.nanos)
            &&& late is Err ==> late->Err_0 == IsoTpError::CfTimeout
        },
{
}

/// A transfer starts as it was asked for: a payload of 1 to 4095 bytes, whole in
/// one frame where it fits.
pub proof fn lemma_machines_started(
    payload: &[u8],
    fill: Option<u8>,
    n_bs: Duration,
    wft_max: u8,
    addr: Option<u8>,
    t: Result<TxMachine, IsoTpError>,
    bs: u8,
    stmin: u8,
    n_cr: Duration,
    rx: RxMachine,
)
    ensures
        call_ensures(TxMachine::with_addr, (payload, fill, n_bs, wft_max, addr), t) || (addr is None
            && call_ensures(TxMachine::new, (payload, fill, n_bs, wft_max), t)) ==> {
            &&& t is Ok <==> 1 <= payload@.len() <= 4095
            &&& t matches Ok(m) ==> {
                &&& m@.payload == payload@
                &&& m@.padding == fill && m@.n_bs == n_bs && m@.wft_max == wft_max
                &&& m@.addr == addr
                &&& m@.phase is Single <==> payload@.len() <= 7 - lead(addr)
                &&& m@.phase is First <==> payload@.len() > 7 - lead(addr)
            }
            &&& payload@.len() > 4095 ==> t == Err::<TxMachine, IsoTpError>(
                IsoTpError::PayloadTooLong(payload@.len() as usize),
            )
        },
        call_ensures(RxMachine::with_addr, (bs, stmin, fill, n_cr, addr), rx) || (addr is None
            && call_ensures(RxMachine::new, (bs, stmin, fill, n_cr), rx)) ==> rx@ == (RxModel {
            bs,
            stmin,
            padding: fill,
            n_cr,
            addr,
            phase: RxPhase::Idle,
        }),
{
}

} // verus!
