//! What the machines and the client guarantee.

use vstd::prelude::*;

use crate::error::{Error, IsoTpError};
use crate::isotp::client::TpState;
use crate::isotp::machine::{
    cf_end, cf_start, consecutive_frame, first_frame, head, least, lemma_cf_step, room,
    single_frame, stmin_of, RxModel, RxPhase, RxStep, TxModel, TxPhase, TxStep, MAX_PAYLOAD,
};
use crate::session::actor::Session;
use crate::time::{Duration, Instant};

verus! {

/// What arrives when a sender's frames are handed straight to a receiver and
/// the receiver's flow controls straight back, for at most `rounds` rounds: the
/// payload, with the sender and the receiver as they are when it is complete.
/// The clock moves on by `pace(rounds)` before each round, and to the instant
/// that the sender asks for where it wants to wait.
pub open spec fn delivered(
    tx: TxModel,
    rx: RxModel,
    clock: Instant,
    pace: spec_fn(nat) -> Duration,
    rounds: nat,
) -> Option<(Seq<u8>, TxModel, RxModel)>
    decreases rounds,
{
    let now = clock.spec_plus(pace(rounds));
    if rounds == 0 {
        None
    } else {
        match tx.advance(now) {
            (Ok(TxStep::Send(frame)), tx1) => match rx.receive(frame, now) {
                (Ok(RxStep::Done(payload)), rx1) => Some((payload, tx1, rx1)),
                (Ok(RxStep::SendFc(fc)), rx1) => match tx1.receive(fc, now) {
                    (Ok(_), tx2) => delivered(tx2, rx1, now, pace, (rounds - 1) as nat),
                    _ => None,
                },
                (Ok(RxStep::Continue), rx1) => delivered(tx1, rx1, now, pace, (rounds - 1) as nat),
                _ => None,
            },
            (Ok(TxStep::WaitUntil(t)), tx1) => delivered(tx1, rx, t, pace, (rounds - 1) as nat),
            _ => None,
        }
    }
}

/// The two sides agree on what has been transferred so far.
spec fn in_step(tx: TxModel, rx: RxModel) -> bool {
    &&& tx.valid()
    &&& rx.valid()
    &&& tx.addr == rx.addr
    &&& tx.phase matches TxPhase::Consecutive { sent, bs, in_block, .. }
    &&& rx.phase matches RxPhase::Receiving { len, got, sn, in_block: rx_in_block, .. }
    &&& bs == rx.bs
    &&& in_block == rx_in_block
    &&& len == tx.payload.len()
    &&& got == tx.payload.take(cf_start(tx.addr, sent))
    &&& sn == (sent + 1) % 16
}

/// The receiver's flow control lets the sender go on, with the block size and
/// the pause that the receiver advertises.
pub proof fn lemma_flow_control_accepted(tx: TxModel, rx: RxModel, now: Instant)
    requires
        tx.addr == rx.addr,
        tx.phase is AwaitFc,
    ensures
        tx.receive(rx.flow_control(), now) == (
            Ok::<(), IsoTpError>(()),
            tx.in_phase(
                TxPhase::Consecutive {
                    sent: tx.phase->AwaitFc_sent,
                    bs: rx.bs,
                    in_block: 0,
                    stmin: stmin_of(rx.stmin),
                    earliest: now,
                },
            ),
        ),
{
    let fc = rx.flow_control();
    let h = head(tx.addr).len() as int;
    assert(fc.take(h) =~= head(tx.addr));
    assert(fc[h] == 0x30u8);
    assert(fc[h + 1] == rx.bs);
    assert(fc[h + 2] == rx.stmin);
}

/// A consecutive frame that is due is taken in and keeps both sides in step.
proof fn lemma_consecutive_taken(tx: TxModel, rx: RxModel, now: Instant)
    requires
        in_step(tx, rx),
        tx.phase->Consecutive_earliest.nanos <= now.nanos,
    ensures
        ({
            let sent = tx.phase->Consecutive_sent;
            let frame = consecutive_frame(tx.payload, tx.addr, tx.padding, sent);
            let tx1 = tx.advance(now).1;
            let (r, rx1) = rx.receive(frame, now);
            &&& tx.advance(now).0 == Ok::<TxStep, IsoTpError>(TxStep::Send(frame))
            &&& if cf_start(tx.addr, sent + 1) >= tx.payload.len() {
                &&& r == Ok::<RxStep, IsoTpError>(RxStep::Done(tx.payload))
                &&& tx1 == tx.in_phase(TxPhase::Finished)
                &&& rx1 == rx.in_phase(RxPhase::Idle)
            } else if rx.bs != 0 && tx.phase->Consecutive_in_block + 1 >= rx.bs {
                &&& r == Ok::<RxStep, IsoTpError>(RxStep::SendFc(rx.flow_control()))
                &&& tx1.phase is AwaitFc
                &&& tx1.phase->AwaitFc_sent == sent + 1
                &&& in_step(tx1.receive(rx.flow_control(), now).1, rx1)
            } else {
                &&& r == Ok::<RxStep, IsoTpError>(RxStep::Continue)
                &&& in_step(tx1, rx1)
                &&& tx1.phase->Consecutive_sent == sent + 1
            }
        }),
{
    let sent = tx.phase->Consecutive_sent;
    let frame = consecutive_frame(tx.payload, tx.addr, tx.padding, sent);
    let h = head(tx.addr).len() as int;
    let len = tx.payload.len();
    lemma_cf_step(tx.addr, sent);
    let at = cf_start(tx.addr, sent);
    let end = cf_end(len, tx.addr, sent);
    let n = end - at;
    assert(frame.take(h) =~= head(tx.addr));
    let f = frame.skip(h);
    assert(f[0] == (0x20 + (sent + 1) % 16) as u8);
    let got = rx.phase->got;
    assert(got.len() == at);
    let take = least(least(len - got.len(), room(rx.addr)), f.len() - 1);
    assert(take == n);
    assert(f.subrange(1, 1 + take) =~= tx.payload.subrange(at, end));
    assert(got + f.subrange(1, 1 + take) =~= tx.payload.take(end));
    if end == len {
        assert(tx.payload.take(end) =~= tx.payload);
    }
    let tx1 = tx.advance(now).1;
    if tx1.phase is AwaitFc {
        lemma_flow_control_accepted(tx1, rx.receive(frame, now).1, now);
        lemma_flow_control_accepted(tx1, rx, now);
    }
}

/// Rounds that are enough to bring the rest of a transfer across.
pub open spec fn rounds_left(tx: TxModel, sent: nat) -> nat {
    (2 * (tx.payload.len() - sent) + 2) as nat
}

proof fn lemma_rest_delivered(
    tx: TxModel,
    rx: RxModel,
    clock: Instant,
    pace: spec_fn(nat) -> Duration,
    rounds: nat,
)
    requires
        in_step(tx, rx),
        rounds >= rounds_left(tx, tx.phase->Consecutive_sent) + (if clock.nanos
            < tx.phase->Consecutive_earliest.nanos {
            0int
        } else {
            -1int
        }),
    ensures
        delivered(tx, rx, clock, pace, rounds) == Some(
            (tx.payload, tx.in_phase(TxPhase::Finished), rx.in_phase(RxPhase::Idle)),
        ),
    decreases rounds,
{
    let now = clock.spec_plus(pace(rounds));
    let sent = tx.phase->Consecutive_sent;
    let earliest = tx.phase->Consecutive_earliest;
    lemma_cf_step(tx.addr, sent);
    lemma_cf_step(tx.addr, sent + 1);
    if now.nanos < earliest.nanos {
        lemma_rest_delivered(tx, rx, earliest, pace, (rounds - 1) as nat);
    } else {
        lemma_consecutive_taken(tx, rx, now);
        let frame = consecutive_frame(tx.payload, tx.addr, tx.padding, sent);
        let tx1 = tx.advance(now).1;
        let rx1 = rx.receive(frame, now).1;
        if cf_start(tx.addr, sent + 1) < tx.payload.len() {
            if tx1.phase is AwaitFc {
                lemma_flow_control_accepted(tx1, rx, now);
                let tx2 = tx1.receive(rx.flow_control(), now).1;
                lemma_rest_delivered(tx2, rx1, now, pace, (rounds - 1) as nat);
            } else {
                lemma_rest_delivered(tx1, rx1, now, pace, (rounds - 1) as nat);
            }
        }
    }
}

/// Whatever a sender transmits, a receiver on the same address reassembles,
/// byte for byte: for every payload up to the 12-bit ceiling, every block size
/// and STmin, every padding on either side, with or without an address byte,
/// and whatever the pace. The receiver is done with the sender's last frame: the
/// sender has then finished, and the receiver is ready for the next payload.
pub proof fn lemma_payload_delivered(
    payload: Seq<u8>,
    tx_padding: Option<u8>,
    n_bs: Duration,
    wft_max: u8,
    bs: u8,
    stmin: u8,
    rx_padding: Option<u8>,
    n_cr: Duration,
    addr: Option<u8>,
    clock: Instant,
    pace: spec_fn(nat) -> Duration,
    rounds: nat,
)
    requires
        1 <= payload.len() <= MAX_PAYLOAD,
        rounds >= 2 * payload.len() + 3,
    ensures
        ({
            let tx = TxModel::start(payload, tx_padding, n_bs, wft_max, addr);
            let rx = RxModel::start(bs, stmin, rx_padding, n_cr, addr);
            delivered(tx, rx, clock, pace, rounds) == Some(
                (payload, tx.in_phase(TxPhase::Finished), rx),
            )
        }),
{
    let tx = TxModel::start(payload, tx_padding, n_bs, wft_max, addr);
    let rx = RxModel::start(bs, stmin, rx_padding, n_cr, addr);
    let now = clock.spec_plus(pace(rounds));
    let h = head(addr).len() as int;
    if payload.len() <= room(addr) {
        let frame = single_frame(payload, addr, tx_padding);
        assert(frame.take(h) =~= head(addr));
        let f = frame.skip(h);
        assert(f[0] == payload.len() as u8);
        assert(f.subrange(1, (1 + payload.len()) as int) =~= payload);
    } else {
        let frame = first_frame(payload, addr);
        assert(frame.take(h) =~= head(addr));
        let f = frame.skip(h);
        assert(f[0] == (0x10 + payload.len() / 256) as u8);
        assert(f[1] == (payload.len() % 256) as u8);
        assert(f.len() == room(addr) + 1);
        assert(f.subrange(2, room(addr) + 1) =~= payload.take(room(addr) - 1));
        let tx1 = tx.advance(now).1;
        let rx1 = rx.receive(frame, now).1;
        lemma_flow_control_accepted(tx1, rx, now);
        let tx2 = tx1.receive(rx.flow_control(), now).1;
        assert(cf_start(addr, 0) == room(addr) - 1) by (nonlinear_arith);
        assert(in_step(tx2, rx1));
        lemma_rest_delivered(tx2, rx1, now, pace, (rounds - 1) as nat);
    }
}

/// A sender after a series of polls, each at its own instant.
pub open spec fn after_polls(tx: TxModel, times: Seq<Instant>) -> TxModel
    decreases times.len(),
{
    if times.len() == 0 {
        tx
    } else {
        after_polls(tx, times.drop_last()).advance(times.last()).1
    }
}

/// The frames that a series of polls makes a sender put out.
pub open spec fn frames_sent(tx: TxModel, times: Seq<Instant>) -> Seq<Seq<u8>>
    decreases times.len(),
{
    if times.len() == 0 {
        Seq::empty()
    } else {
        let before = frames_sent(tx, times.drop_last());
        match after_polls(tx, times.drop_last()).advance(times.last()).0 {
            Ok(TxStep::Send(frame)) => before.push(frame),
            _ => before,
        }
    }
}

/// The block size is honoured: of a block of `bs` frames just granted, however
/// often and whenever the sender is polled, it puts out no more than `bs`
/// frames, which are the next consecutive ones in order. Once they are out it
/// waits for the next flow control, or has finished if the payload is complete;
/// before that it is ready to go on.
pub proof fn lemma_block_size_honoured(tx: TxModel, times: Seq<Instant>)
    requires
        tx.valid(),
        tx.phase is Consecutive,
        tx.phase->Consecutive_bs != 0,
        tx.phase->Consecutive_in_block == 0,
    ensures
        ({
            let first = tx.phase->Consecutive_sent;
            let bs = tx.phase->Consecutive_bs;
            let frames = frames_sent(tx, times);
            let n = frames.len();
            let end = after_polls(tx, times);
            &&& n <= bs
            &&& frames == Seq::new(
                n,
                |k: int|
                    consecutive_frame(tx.payload, tx.addr, tx.padding, (first + k) as nat),
            )
            &&& end == tx.in_phase(end.phase)
            &&& if cf_start(tx.addr, first + n) >= tx.payload.len() {
                end.phase is Finished
            } else if n == bs {
                end.phase is AwaitFc && end.phase->AwaitFc_sent == first + n
            } else {
                &&& end.phase is Consecutive
                &&& end.phase->Consecutive_sent == first + n
                &&& end.phase->Consecutive_bs == bs
                &&& end.phase->Consecutive_in_block == n
            }
        }),
    decreases times.len(),
{
    let first = tx.phase->Consecutive_sent;
    let frames = frames_sent(tx, times);
    if times.len() == 0 {
        assert(frames =~= Seq::new(
            0,
            |k: int| consecutive_frame(tx.payload, tx.addr, tx.padding, (first + k) as nat),
        ));
    } else {
        let earlier = times.drop_last();
        lemma_block_size_honoured(tx, earlier);
        let before = frames_sent(tx, earlier);
        lemma_cf_step(tx.addr, first + before.len());
        assert(frames =~= Seq::new(
            frames.len(),
            |k: int| consecutive_frame(tx.payload, tx.addr, tx.padding, (first + k) as nat),
        ));
    }
}

/// Whatever frames arrive, in whatever order, a reassembly holds less than it
/// was told to expect, which is never more than the 12-bit ceiling, and what it
/// hands out is neither empty nor longer than that.
pub proof fn lemma_reassembly_bounded(rx: RxModel, data: Seq<u8>, now: Instant)
    requires
        rx.valid(),
    ensures
        rx.receive(data, now).1.valid(),
        rx.receive(data, now).0 matches Ok(RxStep::Done(p)) ==> 1 <= p.len() <= MAX_PAYLOAD,
{
}

/// STmin is honoured: after a consecutive frame the next one of the block does
/// not go out before the pause is over, and goes out once it is.
pub proof fn lemma_stmin_honoured(tx: TxModel, now: Instant, later: Instant)
    requires
        tx.valid(),
        tx.phase is Consecutive,
        tx.phase->Consecutive_earliest.nanos <= now.nanos,
        tx.advance(now).1.phase is Consecutive,
    ensures
        ({
            let next = tx.advance(now).1;
            let due = now.spec_plus(tx.phase->Consecutive_stmin);
            &&& tx.advance(now).0 matches Ok(TxStep::Send(_))
            &&& if later.nanos < due.nanos {
                next.advance(later) == (Ok::<TxStep, IsoTpError>(TxStep::WaitUntil(due)), next)
            } else {
                next.advance(later).0 matches Ok(TxStep::Send(_))
            }
        }),
{
}

/// How a sender takes a series of frames, each at its own instant: the outcome
/// of the last, and the sender after all of them. A series ends at an error.
pub open spec fn after_frames(tx: TxModel, frames: Seq<(Seq<u8>, Instant)>) -> (
    Result<(), IsoTpError>,
    TxModel,
)
    decreases frames.len(),
{
    if frames.len() == 0 {
        (Ok(()), tx)
    } else {
        match after_frames(tx, frames.drop_last()) {
            (Err(e), tx1) => (Err(e), tx1),
            (Ok(_), tx1) => tx1.receive(frames.last().0, frames.last().1),
        }
    }
}

/// Whether a frame is a flow control for `tx` with the given flow status.
pub open spec fn says(tx: TxModel, frame: Seq<u8>, status: u8) -> bool {
    let h = head(tx.addr).len() as int;
    tx.is_flow_control(frame) && frame.len() >= h + 3 && frame[h] % 16 == status
}

/// WAIT is honoured up to the limit: a sender told to wait as often as it
/// tolerates is still waiting, for a flow control within N_Bs of the last one,
/// and has sent nothing; told once more, it gives up.
pub proof fn lemma_waits_honoured(tx: TxModel, frames: Seq<(Seq<u8>, Instant)>)
    requires
        tx.valid(),
        tx.phase matches TxPhase::AwaitFc { waits, .. } && waits == 0,
        0 < frames.len() <= tx.wft_max + 1,
        forall|i: int| 0 <= i < frames.len() ==> says(tx, (#[trigger] frames[i]).0, 1),
    ensures
        frames.len() <= tx.wft_max ==> after_frames(tx, frames) == (
            Ok::<(), IsoTpError>(()),
            tx.in_phase(
                TxPhase::AwaitFc {
                    sent: tx.phase->AwaitFc_sent,
                    waits: frames.len(),
                    deadline: frames.last().1.spec_plus(tx.n_bs),
                },
            ),
        ),
        frames.len() == tx.wft_max + 1 ==> after_frames(tx, frames).0 == Err::<(), IsoTpError>(
            IsoTpError::WaitLimit(tx.wft_max),
        ),
    decreases frames.len(),
{
    let before = frames.drop_last();
    assert(says(tx, frames.last().0, 1));
    if before.len() > 0 {
        assert forall|i: int| 0 <= i < before.len() implies says(
            tx,
            (#[trigger] before[i]).0,
            1,
        ) by {
            assert(before[i] == frames[i]);
        }
        lemma_waits_honoured(tx, before);
    } else {
        assert(after_frames(tx, before) == (Ok::<(), IsoTpError>(()), tx));
    }
}

/// An ECU that reports an overflow ends the transfer at once.
pub proof fn lemma_overflow_reported(tx: TxModel, frame: Seq<u8>, now: Instant)
    requires
        tx.phase is AwaitFc,
        says(tx, frame, 2),
    ensures
        tx.receive(frame, now).0 == Err::<(), IsoTpError>(IsoTpError::Overflow),
{
}

/// A consecutive frame out of sequence is reported with both numbers, and the
/// reassembly is abandoned.
pub proof fn lemma_sequence_checked(rx: RxModel, frame: Seq<u8>, now: Instant)
    requires
        rx.phase is Receiving,
        frame.len() > head(rx.addr).len(),
        frame.take(head(rx.addr).len() as int) == head(rx.addr),
        frame[head(rx.addr).len() as int] / 16 == 2,
        frame[head(rx.addr).len() as int] % 16 != rx.phase->sn,
    ensures
        rx.receive(frame, now) == (
            Err::<RxStep, IsoTpError>(
                IsoTpError::SequenceError {
                    expected: rx.phase->sn,
                    got: (frame[head(rx.addr).len() as int] % 16) as u8,
                },
            ),
            rx.in_phase(RxPhase::Idle),
        ),
{
}

/// On the firmware path a payload that the firmware cannot announce, counting
/// the address byte where there is one, is refused and nothing is sent.
pub proof fn lemma_firmware_limit(tp: TpState, s: Session, payload: Seq<u8>)
    requires
        tp.path is Firmware,
        head(tp.cfg.ext_addr).len() + payload.len() > 255,
        payload.len() < usize::MAX,
    ensures
        tp.send(s, payload) == (
            Err::<(), Error>(
                Error::IsoTp(
                    IsoTpError::FirmwareFfDlLimit(
                        (head(tp.cfg.ext_addr).len() + payload.len()) as usize,
                    ),
                ),
            ),
            s,
        ),
{
}

} // verus!
