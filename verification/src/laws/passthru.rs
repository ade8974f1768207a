//! What the PassThru calls ask of the adapter and tell their callers, in the
//! numbers of the API.

use vstd::prelude::*;

use super::channels::{id_bytes, lemma_write_asks, lemma_written_on_wire, write_order};
use super::codec::lemma_protocol_numbers;
use super::exchange::{lemma_exchange_on_wire, ms};
use super::wire::{number, sealed};
use crate::error::Error;
use crate::j2534::msg::{code_for, code_of, filled_in, stamp_at, Fault, PassMsg, PassthruMsg};
use crate::j2534::shim::{Shim, ShimState};
use crate::j2534::slot::{pass_msgs, SlotState};
use crate::session::actor::Session;
use crate::session::laws::writes_of;
use crate::time::Instant;
use crate::transport::Transport;
use crate::types::ProtocolId;

verus! {

/// The slot of an ordinary channel: ids 0x100 to 0x103 stand for slots 0 to 3.
pub open spec fn ordinary(s: ShimState, ch: u64) -> bool {
    0x100 <= ch <= 0x103 && s.slots[ch - 0x100] is Some && s.slots[ch - 0x100]->0.chan is Some
}

/// The slot of a channel that runs ISO-TP on the host.
pub open spec fn on_host(s: ShimState, ch: u64) -> bool {
    0x100 <= ch <= 0x103 && s.slots[ch - 0x100] is Some && s.slots[ch - 0x100]->0.host is Some
}

/// Whether an id, 1 to 4, stands for an open device.
pub open spec fn opened(s: ShimState, id: u64) -> bool {
    1 <= id <= 4 && s.slots[id - 1] is Some
}

pub proof fn lemma_ids(s: ShimState, id: u64)
    ensures
        s.raw_channel(id) is Some <==> ordinary(s, id),
        s.raw_channel(id) matches Some(i) ==> i == id - 0x100,
        s.host_channel(id) is Some <==> on_host(s, id),
        s.host_channel(id) matches Some(i) ==> i == id - 0x100,
        s.device(id) is Some <==> opened(s, id),
        s.device(id) matches Some(i) ==> i == id - 1,
{
}

/// The code that each error comes to.
pub proof fn lemma_codes(e: Error, code: i32)
    ensures
        call_ensures(code_of, (&e,), code) ==> code == code_for(e),
        e matches Error::Rejected { status, .. } ==> code_for(e) == status.byte(),
        e is NoFilterInstalled || e is BufferEmpty ==> code_for(e) == 0x10,
        e is Timeout ==> code_for(e) == 0x09,
        e is Protocol ==> code_for(e) == 0x03,
        e is Transport || e is Wedged || e is Closed ==> code_for(e) == 0x08,
        e is Codec && e->Codec_0 is MsgTooLong ==> code_for(e) == 0x0a,
        e is Codec && !(e->Codec_0 is MsgTooLong) ==> code_for(e) == 0x07,
        e is IsoTp ==> code_for(e) == 0x07,
{
}

/// The frames that messages `from` up to `to` go out in: for each a sealed write
/// command with the message's own flags and its first `data_size` bytes.
pub open spec fn message_frames(
    key: Seq<u8>,
    p: ProtocolId,
    msgs: Seq<PassMsg>,
    from: nat,
    to: nat,
) -> Seq<Seq<u8>> {
    Seq::new(
        (to - from) as nat,
        |k: int|
            sealed(
                key,
                write_order(
                    p,
                    msgs[from + k].tx_flags,
                    msgs[from + k].data.take(msgs[from + k].data_size as int),
                ),
            ),
    )
}

proof fn lemma_write_at_most_one(s: Session, p: ProtocolId, flags: u32, msg: Seq<u8>)
    ensures
        ({
            let s1 = s.write(p, flags, msg).1;
            let had = writes_of(s.world.hist);
            let has = writes_of(s1.world.hist);
            &&& s1.key == s.key
            &&& has == had || exists|f: Seq<u8>| has == #[trigger] had.push(f)
        }),
{
    lemma_write_asks(s, p, flags, msg);
    if !s.wedged {
        lemma_exchange_on_wire(s, write_order(p, flags, msg), ms(1000));
        let s1 = s.write(p, flags, msg).1;
        if s1.world.hist == s.world.hist.push(crate::transport::Req::Purge) {
            crate::session::laws::lemma_one_more(s.world, crate::transport::Req::Purge);
        }
    }
}

proof fn lemma_messages_go_out(slot: SlotState, msgs: Seq<PassMsg>, sent: nat)
    requires
        slot.chan is Some,
        sent <= msgs.len(),
    ensures
        ({
            let (r, n, after) = slot.chan_write(msgs, sent);
            let had = writes_of(slot.session.world.hist);
            let has = writes_of(after.session.world.hist);
            let frames = message_frames(slot.session.key, slot.chan->0.proto, msgs, sent, n);
            &&& sent <= n <= msgs.len()
            &&& r is Ok <==> n == msgs.len()
            &&& after.session.key == slot.session.key
            &&& r is Ok ==> has == had + frames
            &&& has.len() <= had.len() + frames.len() + 1
            &&& has.len() >= had.len() + frames.len()
            &&& has.take((had.len() + frames.len()) as int) == had + frames
        }),
    decreases msgs.len() - sent,
{
    let (r, n, after) = slot.chan_write(msgs, sent);
    let key = slot.session.key;
    let p = slot.chan->0.proto;
    let had = writes_of(slot.session.world.hist);
    let has = writes_of(after.session.world.hist);
    if sent < msgs.len() && msgs[sent as int].data_size <= 4128 {
        let m = msgs[sent as int];
        let bytes = m.data.take(m.data_size as int);
        let (w, s1) = slot.session.write(p, m.tx_flags, bytes);
        if w is Ok {
            lemma_written_on_wire(slot.session, p, m.tx_flags, bytes);
            lemma_messages_go_out(slot.on(s1), msgs, sent + 1);
            let one = sealed(key, write_order(p, m.tx_flags, bytes));
            let rest = message_frames(key, p, msgs, sent + 1, n);
            let frames = message_frames(key, p, msgs, sent, n);
            assert(frames =~= seq![one] + rest);
            assert(had.push(one) + rest =~= had + frames);
        } else {
            lemma_write_at_most_one(slot.session, p, m.tx_flags, bytes);
            assert(message_frames(key, p, msgs, sent, n) =~= Seq::empty());
            assert(has.take(had.len() as int) =~= had);
            assert(had + Seq::<Seq<u8>>::empty() =~= had);
        }
    } else {
        assert(message_frames(key, p, msgs, sent, n) =~= Seq::empty());
        assert(has.take(had.len() as int) =~= had);
        assert(had + Seq::<Seq<u8>>::empty() =~= had);
    }
}

/// Every PassThruWriteMsgs on an ordinary channel: for each message that it
/// reports as sent, in order, one frame went out, the sealed write command whose
/// flags word is that message's TxFlags and whose bytes are the first DataSize of
/// that message. It succeeds exactly when all were sent, and no frame but one
/// that failed goes out beside them.
pub proof fn lemma_write_msgs<T: Transport>(
    ch: u64,
    msgs: &[PassthruMsg],
    r: (Result<(), i32>, Option<usize>),
)
    ensures
        forall|shim: &mut Shim<T>| #[trigger]
            call_ensures(Shim::<T>::PassThruWriteMsgs, (shim, ch, Some(msgs)), r)
                && (*shim)@.valid() && ordinary((*shim)@, ch) && msgs@.len() > 0 ==> {
                let slot = (*shim)@.slots[ch - 0x100]->0;
                let after = (*final(shim))@.slots[ch - 0x100]->0;
                let n = r.1->0 as nat;
                let had = writes_of(slot.session.world.hist);
                let has = writes_of(after.session.world.hist);
                let frames = message_frames(
                    slot.session.key,
                    slot.chan->0.proto,
                    pass_msgs(msgs@),
                    0,
                    n,
                );
                &&& r.1 is Some && n <= msgs@.len()
                &&& r.0 is Ok <==> n == msgs@.len()
                &&& r.0 is Ok ==> has == had + frames
                &&& has.len() <= had.len() + n + 1
                &&& has.len() >= had.len() + n
                &&& has.take((had.len() + n) as int) == had + frames
            },
{
    assert forall|shim: &mut Shim<T>| #[trigger]
        call_ensures(Shim::<T>::PassThruWriteMsgs, (shim, ch, Some(msgs)), r) && (*shim)@.valid()
            && ordinary((*shim)@, ch) && msgs@.len() > 0 implies {
        let slot = (*shim)@.slots[ch - 0x100]->0;
        let after = (*final(shim))@.slots[ch - 0x100]->0;
        let n = r.1->0 as nat;
        let had = writes_of(slot.session.world.hist);
        let has = writes_of(after.session.world.hist);
        let frames = message_frames(
            slot.session.key,
            slot.chan->0.proto,
            pass_msgs(msgs@),
            0,
            n,
        );
        &&& r.1 is Some && n <= msgs@.len()
        &&& r.0 is Ok <==> n == msgs@.len()
        &&& r.0 is Ok ==> has == had + frames
        &&& has.len() <= had.len() + n + 1
        &&& has.len() >= had.len() + n
        &&& has.take((had.len() + n) as int) == had + frames
    } by {
        let s = (*shim)@;
        lemma_ids(s, ch);
        let slot = s.slots[ch - 0x100]->0;
        assert(slot.valid());
        lemma_messages_go_out(slot, pass_msgs(msgs@), 0);
    }
}

/// Why a write of messages stops on an ordinary channel: at the first that is
/// longer than a buffer, or that the adapter did not take.
pub proof fn lemma_write_stops(slot: SlotState, msgs: Seq<PassMsg>, k: nat)
    requires
        slot.chan is Some,
        k < msgs.len(),
    ensures
        ({
            let (r, n, after) = slot.chan_write(msgs, k);
            let m = msgs[k as int];
            let (w, s1) = slot.session.write(
                slot.chan->0.proto,
                m.tx_flags,
                m.data.take(m.data_size as int),
            );
            if m.data_size > 4128 {
                r is Err && r->Err_0.code == 0x0a && n == k && after == slot
            } else if w is Err {
                &&& r is Err && n == k && after == (SlotState { session: s1, ..slot })
                &&& r->Err_0.code == if w->Err_0 is Codec {
                    0x0a
                } else {
                    code_for(w->Err_0)
                }
            } else {
                (r, n, after) == (SlotState { session: s1, ..slot }).chan_write(msgs, k + 1)
            }
        }),
{
}

/// A write of messages on a host channel: each is a payload after a four-byte
/// identifier, sent as one transfer.
pub proof fn lemma_host_write_steps(slot: SlotState, msgs: Seq<PassMsg>, k: nat)
    requires
        slot.host is Some,
    ensures
        ({
            let (r, n, after) = slot.host_write(msgs, k);
            let m = msgs[k as int];
            let used = if m.data_size <= 4128 {
                m.data_size as int
            } else {
                4128
            };
            let (w, s1) = slot.host->0.send(slot.session, m.data.subrange(4, used));
            if k >= msgs.len() {
                r is Ok && n == k && after == slot
            } else if used < 4 {
                r is Err && r->Err_0.code == 0x0a && n == k && after == slot
            } else if w is Err {
                &&& r is Err && n == k && after == (SlotState { session: s1, ..slot })
                &&& r->Err_0.code == if w->Err_0 is Codec || w->Err_0 is IsoTp {
                    0x0a
                } else {
                    code_for(w->Err_0)
                }
            } else {
                (r, n, after) == (SlotState { session: s1, ..slot }).host_write(msgs, k + 1)
            }
        }),
{
}

/// A received message: its own protocol and status word, no flags, the
/// microseconds since the first open, and its bytes as far as a buffer goes.
pub open spec fn handed(p: nat, status: u32, epoch: Instant, at: Instant, bytes: Seq<u8>) -> PassMsg {
    let n = if bytes.len() <= 4128 {
        bytes.len() as int
    } else {
        4128
    };
    let since = if at.nanos > epoch.nanos {
        at.nanos - epoch.nanos
    } else {
        0
    };
    PassMsg {
        protocol_id: p as u32,
        rx_status: status,
        tx_flags: 0,
        timestamp: ((since / 1000) % 0x1_0000_0000) as u32,
        data_size: n as u32,
        extra_data_index: n as u32,
        data: bytes.take(n),
    }
}

/// A read of messages on an ordinary channel: polls of 200 ms each, until there
/// are as many messages as wanted, an error, or an empty poll past the deadline;
/// 5 ms between empty polls.
pub proof fn lemma_chan_read_steps(
    slot: SlotState,
    epoch: Instant,
    deadline: Instant,
    want: nat,
    got: Seq<PassMsg>,
    rounds: nat,
)
    requires
        slot.chan is Some,
        rounds > 0,
    ensures
        ({
            let (r, all, after) = slot.chan_read(epoch, deadline, want, got, rounds);
            let p = slot.chan->0.proto;
            let (polled, s1) = slot.session.on_poll(p, ms(200));
            let (at, w2) = s1.world.clock();
            let timed = SlotState { session: s1.in_world(w2), ..slot };
            let rested = SlotState {
                session: s1.in_world(w2.after(crate::transport::Req::Sleep(ms(5)))),
                ..slot
            };
            if got.len() >= want {
                &&& all == got && after == slot
                &&& r is Ok <==> got.len() > 0
                &&& r is Err ==> r->Err_0.code == 0x10
            } else {
                match polled {
                    Err(e) => {
                        &&& r is Err && r->Err_0.code == code_for(e)
                        &&& all == got && after == (SlotState { session: s1, ..slot })
                    },
                    Ok(Some(m)) => (r, all, after) == timed.chan_read(
                        epoch,
                        deadline,
                        want,
                        got.push(handed(number(p), m.status.word, epoch, at, m.data)),
                        rounds,
                    ),
                    Ok(None) => if at.nanos >= deadline.nanos {
                        &&& all == got && after == timed
                        &&& r is Ok <==> got.len() > 0
                        &&& r is Err ==> r->Err_0.code == 0x10
                    } else {
                        (r, all, after) == rested.chan_read(
                            epoch,
                            deadline,
                            want,
                            got,
                            (rounds - 1) as nat,
                        )
                    },
                }
            }
        }),
{
    let p = slot.chan->0.proto;
    lemma_protocol_numbers(0, p);
    if let (Ok(Some(m)), s1) = slot.session.on_poll(p, ms(200)) {
        let at = s1.world.clock().0;
        assert(m.data.take(m.data.len() as int) =~= m.data);
        assert(PassMsg::received(p.id(), m.status.word, stamp_at(epoch, at), m.data) == handed(
            number(p),
            m.status.word,
            epoch,
            at,
            m.data,
        ));
    }
}

/// A read of messages on a host channel: whole transfers, each handed out after
/// the identifier it came from, until there are as many as wanted, an error, or a
/// timeout.
pub proof fn lemma_host_read_steps(
    slot: SlotState,
    epoch: Instant,
    deadline: Instant,
    want: nat,
    got: Seq<PassMsg>,
)
    requires
        slot.host is Some,
    ensures
        ({
            let (r, all, after) = slot.host_read(epoch, deadline, want, got);
            let tp = slot.host->0;
            let (now, w1) = slot.session.world.clock();
            let (came, s2) = tp.recv(slot.session.in_world(w1), now.spec_until(deadline));
            let (at, w3) = s2.world.clock();
            if got.len() >= want || came matches Err(Error::Timeout(_)) {
                &&& all == got
                &&& after == if got.len() >= want {
                    slot
                } else {
                    SlotState { session: s2, ..slot }
                }
                &&& r is Ok <==> got.len() > 0
                &&& r is Err ==> r->Err_0.code == 0x10
            } else {
                match came {
                    Err(e) => {
                        &&& r is Err && r->Err_0.code == code_for(e)
                        &&& all == got && after == (SlotState { session: s2, ..slot })
                    },
                    Ok(payload) => (r, all, after) == (SlotState {
                        session: s2.in_world(w3),
                        ..slot
                    }).host_read(
                        epoch,
                        deadline,
                        want,
                        got.push(handed(6, 0, epoch, at, id_bytes(tp.cfg.rx_id) + payload)),
                    ),
                }
            }
        }),
{
    let tp = slot.host->0;
    super::channels::lemma_id_bytes(tp.cfg.rx_id, [0, 0, 0, 0], false, tp.cfg.rx_id);
    let (now, w1) = slot.session.world.clock();
    if let (Ok(payload), s2) = tp.recv(slot.session.in_world(w1), now.spec_until(deadline)) {
        let bytes = id_bytes(tp.cfg.rx_id) + payload;
        let at = s2.world.clock().0;
        assert(bytes.take(bytes.len() as int) =~= bytes);
        assert(PassMsg::received(6, 0, stamp_at(epoch, at), bytes) == handed(
            6,
            0,
            epoch,
            at,
            bytes,
        ));
    }
}

/// A read waits as long as it was told, and at least a millisecond, for messages
/// of the channel it was called on. Without a place for one it is answered with 4,
/// without a channel with 2.
pub proof fn lemma_read_msgs(s: ShimState, ch: u64, want: u64, timeout: u64)
    requires
        s.valid(),
    ensures
        ({
            let (r, got, s1) = s.read_msgs(ch, want, timeout);
            let slot = s.slots[ch - 0x100]->0;
            let (now, w) = slot.session.world.clock();
            let wait = if timeout == 0 {
                1nat
            } else {
                timeout as nat
            };
            let started = SlotState { session: slot.session.in_world(w), ..slot };
            let deadline = now.spec_plus(ms(wait));
            let none = Seq::<PassMsg>::empty();
            if want == 0 {
                r == Err::<(), i32>(0x04) && got is None && s1.slots == s.slots
            } else if on_host(s, ch) {
                read_as(s, s1, ch, r, got, started.host_read(s.epoch->0, deadline, want as nat, none))
            } else if ordinary(s, ch) {
                read_as(
                    s,
                    s1,
                    ch,
                    r,
                    got,
                    started.chan_read(
                        s.epoch->0,
                        deadline,
                        want as nat,
                        none,
                        u64::MAX as nat,
                    ),
                )
            } else {
                r == Err::<(), i32>(0x02) && got is None && s1.slots == s.slots
            }
        }),
{
    lemma_ids(s, ch);
}

/// Whether a call came out as what its slot did.
pub open spec fn read_as(
    s: ShimState,
    s1: ShimState,
    ch: u64,
    r: Result<(), i32>,
    got: Option<Seq<PassMsg>>,
    did: (Result<(), Fault>, Seq<PassMsg>, SlotState),
) -> bool {
    &&& r == match did.0 {
        Ok(()) => Ok::<(), i32>(()),
        Err(f) => Err(f.code),
    }
    &&& got == Some(did.1)
    &&& s1.slots == s.slots.update(ch - 0x100, Some(did.2))
}

/// Every PassThruReadMsgs: the messages go into the caller's in order, and the
/// count is how many did.
pub proof fn lemma_read_into_places<T: Transport>(
    ch: u64,
    timeout: u64,
    r: (Result<(), i32>, Option<usize>),
)
    ensures
        forall|shim: &mut Shim<T>, places: &mut Vec<PassthruMsg>| #[trigger]
            call_ensures(Shim::<T>::PassThruReadMsgs, (shim, ch, places, timeout), r) ==> {
                let (owed, got, after) = (*shim)@.read_msgs(
                    ch,
                    (*places)@.len() as u64,
                    timeout,
                );
                &&& r.0 == owed
                &&& (*final(shim))@ == after
                &&& got is None ==> r.1 is None && (*final(places))@ == (*places)@
                &&& got matches Some(g) ==> r.1 == Some(g.len() as usize) && put_into(
                    (*places)@,
                    (*final(places))@,
                    g,
                )
            },
{
    assert forall|shim: &mut Shim<T>, places: &mut Vec<PassthruMsg>| #[trigger]
        call_ensures(Shim::<T>::PassThruReadMsgs, (shim, ch, places, timeout), r) implies (
    *shim)@.read_msgs(ch, (*places)@.len() as u64, timeout).1 matches Some(g) ==> put_into(
        (*places)@,
        (*final(places))@,
        g,
    ) by {
        if let Some(g) = (*shim)@.read_msgs(ch, (*places)@.len() as u64, timeout).1 {
            lemma_filled_in((*places)@, (*final(places))@, g);
        }
    }
}

proof fn lemma_filled_in(had: Seq<PassthruMsg>, has: Seq<PassthruMsg>, g: Seq<PassMsg>)
    requires
        pass_msgs(has) == filled_in(pass_msgs(had), g),
    ensures
        put_into(had, has, g),
{
    let p0 = pass_msgs(had);
    let p1 = pass_msgs(has);
    assert(p1.len() == p0.len());
    assert forall|i: int| 0 <= i < had.len() implies landed(had[i]@, #[trigger] has[i]@, i, g) by {
        assert(p1[i] == filled_in(p0, g)[i]);
        assert(p1[i] == has[i]@ && p0[i] == had[i]@);
    }
}

/// Whether a caller's message `i` came out as it should: a received one in it,
/// byte for byte, with the rest of its buffer as it was; or untouched.
pub open spec fn landed(had: PassMsg, has: PassMsg, i: int, got: Seq<PassMsg>) -> bool {
    if i < got.len() {
        let m = got[i];
        &&& has.protocol_id == m.protocol_id && has.rx_status == m.rx_status
        &&& has.tx_flags == m.tx_flags && has.timestamp == m.timestamp
        &&& has.data_size == m.data_size && has.extra_data_index == m.extra_data_index
        &&& has.data.len() == had.data.len()
        &&& forall|j: int|
            0 <= j < had.data.len() ==> #[trigger] has.data[j] == if j < m.data.len() {
                m.data[j]
            } else {
                had.data[j]
            }
    } else {
        has == had
    }
}

/// Whether received messages have gone into the first of a caller's.
pub open spec fn put_into(had: Seq<PassthruMsg>, has: Seq<PassthruMsg>, got: Seq<PassMsg>) -> bool {
    &&& has.len() == had.len()
    &&& forall|i: int| 0 <= i < had.len() ==> landed(had[i]@, #[trigger] has[i]@, i, got)
}

} // verus!
