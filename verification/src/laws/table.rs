//! The table of devices behind the PassThru calls: which channel a call reaches,
//! how it is answered where there is none, and what is kept of a failure.

use vstd::prelude::*;

use super::passthru::{lemma_ids, on_host, ordinary};
use crate::diag::error::{answered, done, DiagFault, Error as DiagError};
use crate::diag::toyota_can::EnumeratedPid;
use crate::error::Error;
use crate::isotp::machine::{RxEvent, RxStep, TxAction, TxStep};
use crate::j2534::msg::{
    code_for, fail, fail_with, failure, low32, timestamp_micros, Fault, Failure, PassMsg,
    PassthruMsg, SConfig, SConfigList,
};
use crate::j2534::shim::{
    IoctlIn, IoctlInput, IoctlOut, IoctlOutput, IoctlPlace, IoctlSpot, Shim, ShimState,
};
use crate::j2534::slot::SlotState;
use crate::time::Instant;
use crate::transport::Transport;
use crate::types::RxMsg;

verus! {

/// A write reaches the channel that the id names, and no other. No messages are
/// answered with 4, an id that names no channel with 2; nothing is sent then, and
/// the caller's count stays.
pub proof fn lemma_write_reaches(s: ShimState, ch: u64, msgs: Seq<PassMsg>)
    requires
        s.valid(),
    ensures
        s.write_msgs(ch, None).0 == Err::<(), i32>(0x04),
        s.write_msgs(ch, None).1 is None,
        s.write_msgs(ch, None).2.slots == s.slots,
        ({
            let (r, n, s1) = s.write_msgs(ch, Some(msgs));
            let at = ch - 0x100;
            let slot = s.slots[at]->0;
            if msgs.len() == 0 {
                r == Err::<(), i32>(0x04) && n is None && s1.slots == s.slots
            } else if on_host(s, ch) {
                let (w, sent, after) = slot.host_write(msgs, 0);
                &&& n == Some(sent) && s1.slots == s.slots.update(at, Some(after))
                &&& r is Ok <==> w is Ok
                &&& w is Err ==> r == Err::<(), i32>(w->Err_0.code) && s1.last_error
                    == w->Err_0.text
            } else if ordinary(s, ch) {
                let (w, sent, after) = slot.chan_write(msgs, 0);
                &&& n == Some(sent) && s1.slots == s.slots.update(at, Some(after))
                &&& r is Ok <==> w is Ok
                &&& w is Err ==> r == Err::<(), i32>(w->Err_0.code) && s1.last_error
                    == w->Err_0.text
            } else {
                r == Err::<(), i32>(0x02) && n is None && s1.slots == s.slots
            }
        }),
{
    lemma_ids(s, ch);
}

/// Every write is that.
pub proof fn lemma_write_call<T: Transport>(
    ch: u64,
    msgs: Option<&[PassthruMsg]>,
    r: (Result<(), i32>, Option<usize>),
)
    ensures
        forall|shim: &mut Shim<T>| #[trigger]
            call_ensures(Shim::<T>::PassThruWriteMsgs, (shim, ch, msgs), r) ==> {
                let listed = match msgs {
                    Some(m) => Some(Seq::new(m@.len(), |i: int| m@[i]@)),
                    None => None,
                };
                let (owed, n, s1) = (*shim)@.write_msgs(ch, listed);
                &&& r.0 == owed && (*final(shim))@ == s1
                &&& r.1 is Some <==> n is Some
                &&& r.1 is Some ==> n->0 == r.1->0
            },
{
    if let Some(m) = msgs {
        assert(crate::j2534::slot::pass_msgs(m@) =~= Seq::new(m@.len(), |i: int| m@[i]@));
    }
}

/// A disconnect gives up what the slot has connected, whatever the adapter says
/// to it, and leaves the device open; an id that names no channel is answered
/// with 2.
pub proof fn lemma_disconnects(s: ShimState, ch: u64)
    requires
        s.valid(),
    ensures
        ({
            let (r, s1) = s.disconnect(ch);
            let at = ch - 0x100;
            let had = s.slots[at]->0;
            if ordinary(s, ch) || on_host(s, ch) {
                let first = if had.chan is Some {
                    had.session.on_disconnect(had.chan->0.proto).1
                } else {
                    had.session
                };
                let both = if had.host is Some {
                    first.on_disconnect(had.host->0.chan.raw.proto).1
                } else {
                    first
                };
                &&& r is Ok
                &&& s1 == (ShimState {
                    slots: s.slots.update(
                        at,
                        Some(SlotState { session: both, chan: None, host: None, ..had }),
                    ),
                    ..s
                })
            } else {
                r == Err::<(), i32>(0x02) && s1.slots == s.slots && s1.epoch == s.epoch
            }
        }),
{
    lemma_ids(s, ch);
}

/// An open starts the clock that received messages are stamped by, if none was
/// open before; one that has no place for the id is answered with 4 and one that
/// finds no slot free with 7.
pub proof fn lemma_opens(s: ShimState, wanted: bool, now: Instant)
    requires
        s.valid(),
    ensures
        ({
            let (r, s1) = s.begin_open(wanted, now);
            &&& s1.slots == s.slots
            &&& !wanted ==> r == Err::<usize, i32>(0x04) && s1.epoch == s.epoch
            &&& wanted && s.epoch is Some ==> s1.epoch == s.epoch
            &&& wanted && s.epoch is None ==> s1.epoch == Some(now)
            &&& wanted ==> match r {
                Ok(i) => {
                    &&& i < 4 && s.slots[i as int] is None
                    &&& forall|j: int| 0 <= j < i ==> (#[trigger] s.slots[j]) is Some
                },
                Err(code) => {
                    &&& code == 0x07
                    &&& forall|j: int| 0 <= j < 4 ==> (#[trigger] s.slots[j]) is Some
                },
            }
        }),
{
    crate::j2534::laws::lemma_lowest_free_slot(s, now);
}

/// A failure is answered with its code, and its text is kept for the caller to
/// ask for; success leaves the text of the last failure.
pub proof fn lemma_failures_kept<A>(s: ShimState, r: Result<A, Fault>)
    ensures
        r is Ok ==> s.settle(r) == (Ok::<A, i32>(r->Ok_0), s),
        r is Err ==> {
            let (told, s1) = s.settle(r);
            &&& told == Err::<A, i32>(r->Err_0.code)
            &&& s1.last_error == r->Err_0.text
            &&& s1.slots == s.slots && s1.epoch == s.epoch
        },
{
}

/// A shim starts with four slots, all free.
pub proof fn lemma_shim_started<T: Transport>(shim: Shim<T>)
    ensures
        call_ensures(Shim::<T>::new, (), shim) ==> {
            &&& shim@.slots.len() == 4
            &&& forall|i: int| 0 <= i < 4 ==> (#[trigger] shim@.slots[i]) is None
            &&& shim@.last_error.len() == 0 && shim@.epoch is None
        },
{
}

/// The values that go over the calls: the low 32 bits of a long; microseconds
/// since the clock was started, in 32 bits; a received message by its bytes, as
/// many as a buffer holds.
pub proof fn lemma_call_values(
    v: u64,
    w: u32,
    epoch: Instant,
    now: Instant,
    proto: u32,
    status: u32,
    stamp: u32,
    bytes: &[u8],
    m: PassthruMsg,
    n: usize,
    e: Error,
    f: Failure,
    code: i32,
    text: &'static str,
)
    ensures
        call_ensures(low32, (v,), w) ==> (v - w) % 0x1_0000_0000 == 0,
        call_ensures(timestamp_micros, (epoch, now), w) && now.nanos >= epoch.nanos ==> ((
        now.nanos - epoch.nanos) / 1000 - w) % 0x1_0000_0000 == 0,
        call_ensures(timestamp_micros, (epoch, now), w) && now.nanos < epoch.nanos ==> w == 0,
        call_ensures(PassthruMsg::used, (&m,), n) ==> {
            &&& n <= 4128 && n <= m.data_size
            &&& n == 4128 || n == m.data_size
        },
        call_ensures(PassthruMsg::received, (proto, status, stamp, bytes), m) ==> {
            &&& m.protocol_id == proto && m.rx_status == status && m.timestamp == stamp
            &&& m.tx_flags == 0
            &&& m.data_size == m.data@.len() && m.extra_data_index == m.data@.len()
            &&& bytes@.len() <= 4128 ==> m.data@ == bytes@
            &&& bytes@.len() > 4128 ==> m.data@ == bytes@.take(4128)
        },
        call_ensures(failure, (code, text), f) ==> f.code == code && f.text@ == text@,
        call_ensures(fail, (&e,), f) ==> f.code == code_for(e) && f.text@ == e.text(),
        call_ensures(fail_with, (code, text, &e), f) ==> f.code == code && f.text@ == text@
            + e.text(),
{
}

/// A received message goes over the front of the caller's buffer and into every
/// field; what lies behind it stays.
pub proof fn lemma_filled(got: PassthruMsg)
    ensures
        forall|m: &mut PassthruMsg| #[trigger]
            call_ensures(PassthruMsg::fill, (m, &got), ()) ==> {
                let had = (*m)@;
                let has = (*final(m))@;
                &&& has.protocol_id == got.protocol_id && has.rx_status == got.rx_status
                &&& has.tx_flags == got.tx_flags && has.timestamp == got.timestamp
                &&& has.data_size == got.data_size
                &&& has.extra_data_index == got.extra_data_index
                &&& has.data.len() == had.data.len()
                &&& forall|i: int|
                    0 <= i < had.data.len() ==> #[trigger] has.data[i] == if i
                        < got.data@.len() {
                        got.data@[i]
                    } else {
                        had.data[i]
                    }
            },
{
}

/// A view holds every field as it is.
pub proof fn lemma_views(
    m: PassthruMsg,
    list: Vec<SConfig>,
    v: u32,
    bytes: Vec<u8>,
    t: Instant,
    rx: RxMsg,
    pid: EnumeratedPid,
    service: u8,
    nrc: u8,
    e: Error,
)
    ensures
        m@.protocol_id == m.protocol_id && m@.rx_status == m.rx_status,
        m@.tx_flags == m.tx_flags && m@.timestamp == m.timestamp,
        m@.data_size == m.data_size && m@.extra_data_index == m.extra_data_index,
        m@.data == m.data@,
        IoctlInput::Null@ == IoctlIn::Null,
        IoctlInput::Msg(m)@ == IoctlIn::Msg(m@),
        IoctlInput::Configs(SConfigList { config: Some(list) })@ == IoctlIn::Configs(list@),
        IoctlInput::Configs(SConfigList { config: None })@ == IoctlIn::NullConfig,
        IoctlPlace::Null@ == IoctlSpot::Null,
        IoctlPlace::Word@ == IoctlSpot::Word,
        IoctlPlace::Msg(m)@ == IoctlSpot::Msg(m@),
        IoctlOutput::Nothing@ == IoctlOut::Nothing,
        IoctlOutput::Configs(list)@ == IoctlOut::Configs(list@),
        IoctlOutput::Voltage(v)@ == IoctlOut::Voltage(v),
        IoctlOutput::Msg(m)@ == IoctlOut::Msg(m@),
        TxAction::Send(bytes)@ == TxStep::Send(bytes@),
        (TxAction::WaitFc { deadline: t })@ == TxStep::WaitFc(t),
        TxAction::WaitUntil(t)@ == TxStep::WaitUntil(t),
        TxAction::Done@ == TxStep::Done,
        RxEvent::SendFc(bytes)@ == RxStep::SendFc(bytes@),
        RxEvent::Done(bytes)@ == RxStep::Done(bytes@),
        RxEvent::Continue@ == RxStep::Continue,
        rx@.status == rx.rx_status && rx@.data == rx.data@,
        pid@.id == pid.id && pid@.width == pid.width && pid@.support == pid.support@,
        DiagError::Transport(e)@ == DiagFault::Transport(e),
        (DiagError::Negative { service, nrc })@ == (DiagFault::Negative { service, nrc }),
        DiagError::Empty@ == DiagFault::Empty,
        (DiagError::Unexpected { expected: service, got: bytes })@ == (DiagFault::Unexpected {
            expected: service,
            got: bytes@,
        }),
        answered(Ok(bytes)) == Ok::<Seq<u8>, DiagFault>(bytes@),
        answered(Err(DiagError::Empty)) == Err::<Seq<u8>, DiagFault>(DiagError::Empty@),
        done(Ok(())) == Ok::<(), DiagFault>(()),
        done(Err(DiagError::Empty)) == Err::<(), DiagFault>(DiagError::Empty@),
{
}

} // verus!
