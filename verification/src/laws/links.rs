//! What the diagnostic clients run on, what the driver runs on, and the scripted
//! port that stands in for a cable.

use vstd::prelude::*;

use crate::diag::toyota_can::{IsoTpChannel, ToyotaCanLive};
use crate::diag::{kwp2000::Kwp2000, uds::Uds};
use crate::error::{seen, Error, TransportError};
use crate::isotp::client::{
    tp_request, FirmwareIsoTp, IsoTp, IsoTpConfig, IsoTpLink, IsoTpPath, TpState,
};
use crate::isotp::pending::{drain_pending, drained, Receive, UdsTransport};
use crate::j2534::slot::SlotState;
use crate::kline::{ecu_request, EcuState, KLineLink};
use crate::session::actor::Session;
use crate::session::device::{Device, Setup};
use crate::session::protocol::CanId;
use crate::time::Duration;
use crate::transport::ftdi::{
    BAUD_115200_DIVISOR, DATA_8N1, EP_IN, EP_OUT, SIO_MODEM_CTRL, SIO_RESET, SIO_RESET_PURGE_RX,
    SIO_RESET_SIO, SIO_SET_BAUDRATE, SIO_SET_DATA, SIO_SET_LATENCY_TIMER,
};
use crate::transport::mock::{deeds, sleeps_in, writes_in, Cue, Deed, Event, Stage, Step};
use crate::transport::{Clock, MockTransport, Req, Transport, World};
use crate::types::{ProtocolId, BAUD};

verus! {

/// What a client asks through a link is asked on the link's own channel: a
/// request is the channel's request, a payload its send, an answer its receive;
/// nothing but the session moves.
pub proof fn lemma_links<T: Transport>(
    s: Session,
    setup: Setup,
    tp: TpState,
    ecu: EcuState,
    req: Seq<u8>,
    timeout: Duration,
)
    ensures
        ({
            let (r, s1) = tp_request::<T>(s, setup, tp, req, timeout);
            <IsoTpLink<T> as UdsTransport>::exchange((s, setup, tp), req, timeout) == (
                r,
                (s1, setup, tp),
            )
        }),
        ({
            let (r, s1) = ecu_request::<T>(s, setup, ecu, req, timeout);
            <KLineLink<T> as UdsTransport>::exchange((s, setup, ecu), req, timeout) == (
                r,
                (s1, setup, ecu),
            )
        }),
        ({
            let (r, s1) = tp.send(s, req);
            <IsoTpLink<T> as IsoTpChannel>::dispatch((s, setup, tp), req) == (r, (s1, setup, tp))
        }),
        ({
            let (r, s1) = tp.recv(s, timeout);
            <IsoTpLink<T> as Receive<()>>::receipt((s, setup, tp), timeout) == (
                r,
                (s1, setup, tp),
            )
        }),
{
}

/// Waiting for an answer takes the first that does not say to wait, of up to
/// thirty that do.
pub proof fn lemma_waiting<C, R: Receive<C>>(state: R::State, timeout: Duration, left: nat, r: Result<Vec<u8>, Error>)
    ensures
        forall|source: &mut R, via: &mut C| #[trigger]
            call_ensures(drain_pending::<C, R>, (source, via, timeout), r) ==> (
                seen(r),
                (*final(source)).state(&*final(via)),
            ) == drained::<C, R>((*source).state(&*via), timeout, 30),
        ({
            let (a, next) = R::receipt(state, timeout);
            let wait = a is Ok && a->Ok_0.len() >= 3 && a->Ok_0[0] == 0x7f && a->Ok_0[2] == 0x78;
            if wait && left > 0 {
                drained::<C, R>(state, timeout, left) == drained::<C, R>(
                    next,
                    timeout,
                    (left - 1) as nat,
                )
            } else {
                drained::<C, R>(state, timeout, left) == (a, next)
            }
        }),
{
}

/// A client waits two seconds for an answer unless told otherwise, and an
/// enumeration is over after 300 ms of silence; to change one wait changes
/// nothing else.
pub proof fn lemma_live_waits<T: IsoTpChannel, U: UdsTransport>(
    io: T,
    c: ToyotaCanLive<T>,
    d: Duration,
    c2: ToyotaCanLive<T>,
)
    ensures
        call_ensures(ToyotaCanLive::<T>::new, (io,), c) ==> c.waits().0.nanos == 2_000_000_000
            && c.waits().1.nanos == 300_000_000 && c.io() == io.state(&()),
        call_ensures(ToyotaCanLive::<T>::with_timeout, (c, d), c2) ==> c2.waits().0 == d
            && c2.waits().1 == c.waits().1 && c2.io() == c.io(),
        call_ensures(ToyotaCanLive::<T>::with_enum_gap, (c, d), c2) ==> c2.waits().1 == d
            && c2.waits().0 == c.waits().0 && c2.io() == c.io(),
        forall|k: &mut Kwp2000<U>| #[trigger]
            call_ensures(Kwp2000::<U>::set_timeout, (k, d), ()) ==> (*final(k)).wait() == d
                && (*final(k)).io() == (*k).io(),
        forall|u: &mut Uds<U>| #[trigger]
            call_ensures(Uds::<U>::set_timeout, (u, d), ()) ==> (*final(u)).wait() == d
                && (*final(u)).io() == (*u).io(),
{
}

/// A channel that is connected before its endpoints are known is plain CAN, on
/// the host path and without a filter; giving a channel up disconnects its
/// protocol.
pub proof fn lemma_channel_life<T: Transport>(
    cfg: IsoTpConfig,
    made: Result<IsoTp, Error>,
    tp: IsoTp,
    fw: FirmwareIsoTp,
    path: IsoTpPath,
    id: CanId,
    payload: &[u8],
    timeout: Duration,
    r: Result<(), Error>,
    data: Result<Vec<u8>, Error>,
)
    ensures
        forall|dev: &mut Device<T>| #[trigger]
            call_ensures(IsoTp::connect_deferred::<T>, (dev, cfg), made) ==> {
                let (owed, s1) = (*dev)@.on_connect(
                    ProtocolId::Can,
                    cfg.can.flags,
                    cfg.can.bitrate,
                );
                &&& (*final(dev))@ == s1
                &&& made is Ok <==> owed is Ok
                &&& made is Err ==> owed == Err::<(), Error>(made->Err_0)
                &&& made is Ok ==> {
                    let t = made->Ok_0@;
                    &&& t.path == IsoTpPath::Host && t.cfg == cfg
                    &&& t.chan.raw.proto == ProtocolId::Can && t.chan.raw.nfilters == 0
                    &&& t.chan.current is None && t.chan.next_id == 0x000e_7a00
                }
            },
        forall|dev: &mut Device<T>| #[trigger]
            call_ensures(IsoTp::release::<T>, (tp, dev), ()) ==> (*final(dev))@
                == (*dev)@.on_disconnect(tp@.chan.raw.proto).1,
        call_ensures(IsoTp::path, (&tp,), path) ==> path == tp@.path,
        call_ensures(IsoTp::rx_id, (&tp,), id) ==> id == tp@.cfg.rx_id,
        call_ensures(FirmwareIsoTp::into_inner, (fw,), tp) ==> tp@ == fw@,
        call_ensures(IsoTpPath::default, (), path) ==> path == IsoTpPath::Firmware,
        forall|t: &mut FirmwareIsoTp, dev: &mut Device<T>| #[trigger]
            call_ensures(FirmwareIsoTp::send::<T>, (t, dev, payload), r) ==> (r, (*final(dev))@)
                == (*t)@.send((*dev)@, payload@) && (*final(t))@ == (*t)@,
        forall|t: &mut FirmwareIsoTp, dev: &mut Device<T>| #[trigger]
            call_ensures(FirmwareIsoTp::recv::<T>, (t, dev, timeout), data) ==> (
                seen(data),
                (*final(dev))@,
            ) == (*t)@.recv((*dev)@, timeout) && (*final(t))@ == (*t)@,
{
}

/// A periodic message that is too long for the adapter is refused and nothing is
/// asked; its number is used up all the same.
pub proof fn lemma_long_periodic(slot: SlotState, m: crate::j2534::msg::PassMsg, interval: u32)
    requires
        slot.chan is Some,
        m.data.len() == 4128,
        m.data_size >= 13,
    ensures
        slot.start_periodic(m, interval).0 is Err,
        slot.start_periodic(m, interval).0->Err_0.code == 0x0a,
        slot.start_periodic(m, interval).1.session == slot.session,
        slot.next_id < u32::MAX ==> slot.start_periodic(m, interval).1.next_id == slot.next_id
            + 1,
{
}

/// What a transport answers, as the driver sees it: a write, a purge or the modem
/// lines end in the error that the world gives, or well; a read gives what the
/// world has, up to the room there is; the clock says what the world says. Each
/// is added to what the world was asked.
pub proof fn lemma_world_answers(w: World, req: Req, max: nat, timeout: Duration)
    ensures
        w.after(req).hist == w.hist.push(req),
        w.after(req).react == w.react,
        w.reply(req) == (w.react)(w.hist.push(req)),
        w.outcome(req) is Ok <==> w.reply(req).fail is None,
        w.outcome(req) is Err ==> w.reply(req).fail == Some(w.outcome(req)->Err_0),
        ({
            let read = Req::Read { max, timeout };
            let has = w.reply(read).bytes;
            let r = w.received(max, timeout);
            &&& r is Err <==> w.reply(read).fail is Some
            &&& r is Ok && has.len() <= max ==> r->Ok_0 == has
            &&& r is Ok && has.len() > max ==> r->Ok_0 == has.take(max as int)
        }),
        w.clock() == (w.reply(Req::Now).at, w.after(Req::Now)),
        w.slept(timeout) == w.after(Req::Sleep(timeout)),
{
}

/// A script answers each write with its next step: what that step demands must be
/// what is written, and then its reply waits to be read, behind what waited
/// already. A write that does not fit fails and leaves the script where it is;
/// one after the last step is swallowed.
pub proof fn lemma_script_writes(g: Stage, w: Seq<u8>)
    ensures
        ({
            let g1 = g.after(Req::Write(w));
            let fails = g.reply(Req::Write(w)).fail;
            if g.cues.len() == 0 {
                fails is None && g1 == g
            } else if g.cues[0].expect is Some && g.cues[0].expect->0 != w {
                fails == Some(TransportError::Io(g.objection)) && g1 == g
            } else {
                &&& fails is None
                &&& g1.rx == g.rx + g.cues[0].reply
                &&& g1.cues == g.cues.skip(1)
                &&& g1.at == g.at && g1.objection == g.objection
            }
        }),
{
}

/// A script hands out what waits to be read, in order and each byte once; with
/// nothing there a read takes its whole time. A purge drops what waits. Sleeps
/// move the clock, and nothing else does.
pub proof fn lemma_script_reads(g: Stage, max: nat, timeout: Duration, d: Duration)
    ensures
        ({
            let g1 = g.after(Req::Read { max, timeout });
            let n = if g.rx.len() <= max {
                g.rx.len() as int
            } else {
                max as int
            };
            &&& g.reply(Req::Read { max, timeout }).bytes == g.rx
            &&& g.reply(Req::Read { max, timeout }).fail is None
            &&& g.rx =~= g.rx.take(n) + g1.rx
            &&& g1.cues == g.cues
            &&& g.rx.len() > 0 ==> g1.at == g.at
            &&& g.rx.len() == 0 && g.at.nanos + timeout.nanos <= u128::MAX ==> g1.at.nanos
                == g.at.nanos + timeout.nanos
        }),
        ({
            let g1 = g.after(Req::Purge);
            g1.rx.len() == 0 && g1.cues == g.cues && g1.at == g.at
        }),
        ({
            let g1 = g.after(Req::Sleep(d));
            &&& g1.rx == g.rx && g1.cues == g.cues
            &&& g.at.nanos + d.nanos <= u128::MAX ==> g1.at.nanos == g.at.nanos + d.nanos
        }),
        g.after(Req::Now) == g,
        g.after(Req::Latency) == g,
        g.reply(Req::Now).at == g.at,
{
}

/// A scripted port plays its script from what it was asked, and records it.
pub proof fn lemma_script_played(
    g: Stage,
    hist: Seq<Req>,
    req: Req,
    steps: Vec<Step>,
    m: MockTransport,
)
    ensures
        g.played(Seq::empty()) == g,
        g.played(hist.push(req)) == g.played(hist).after(req),
        (g.reaction())(hist.push(req)) == g.played(hist).reply(req),
        call_ensures(MockTransport::new, (steps,), m) ==> {
            &&& m.world().hist.len() == 0
            &&& exists|g0: Stage|
                {
                    &&& m.world().react == #[trigger] g0.reaction()
                    &&& g0.cues.len() == steps@.len()
                    &&& forall|i: int| 0 <= i < g0.cues.len() ==> #[trigger] g0.cues[i] == steps@[i]@
                    &&& g0.rx.len() == 0 && g0.at.nanos == 0
                    &&& g0.objection@ == "unexpected write"@
                }
        },
{
    assert(hist.push(req).drop_last() =~= hist);
    if call_ensures(MockTransport::new, (steps,), m) {
        let objection = choose|objection: String|
            objection@ == "unexpected write"@ && m.world().react == #[trigger] Stage::opening(
                steps@,
                objection,
            ).reaction();
        let g0 = Stage::opening(steps@, objection);
        assert(m.world().react == g0.reaction());
    }
}

/// What a scripted port records: writes, modem lines and purges as events, in
/// order; the writes among them; and the sleeps.
pub proof fn lemma_script_records(hist: Seq<Req>, req: Req, log: Seq<Deed>, deed: Deed)
    ensures
        deeds(Seq::empty()).len() == 0,
        sleeps_in(Seq::empty()).len() == 0,
        writes_in(Seq::empty()).len() == 0,
        match req {
            Req::Write(w) => deeds(hist.push(req)) == deeds(hist).push(Deed::Write(w)),
            Req::Modem { dtr, rts } => deeds(hist.push(req)) == deeds(hist).push(
                Deed::Modem { dtr, rts },
            ),
            Req::Purge => deeds(hist.push(req)) == deeds(hist).push(Deed::Purge),
            _ => deeds(hist.push(req)) == deeds(hist),
        },
        match req {
            Req::Sleep(d) => sleeps_in(hist.push(req)) == sleeps_in(hist).push(d),
            _ => sleeps_in(hist.push(req)) == sleeps_in(hist),
        },
        match deed {
            Deed::Write(w) => writes_in(log.push(deed)) == writes_in(log).push(w),
            _ => writes_in(log.push(deed)) == writes_in(log),
        },
{
    assert(hist.push(req).drop_last() =~= hist);
    assert(log.push(deed).drop_last() =~= log);
}

/// The records, as the port gives them out.
pub proof fn lemma_records_given(
    m: MockTransport,
    events: &Vec<Event>,
    writes: Vec<Vec<u8>>,
    sleeps: &Vec<Duration>,
    expect: Vec<u8>,
    reply: Vec<u8>,
    step: Step,
)
    ensures
        call_ensures(MockTransport::events, (&m,), events) ==> events@.map_values(|e: Event| e@)
            == deeds(m.world().hist),
        call_ensures(MockTransport::writes, (&m,), writes) ==> writes@.map_values(
            |w: Vec<u8>| w@,
        ) == writes_in(deeds(m.world().hist)),
        call_ensures(MockTransport::sleeps, (&m,), sleeps) ==> sleeps@ == sleeps_in(
            m.world().hist,
        ),
        call_ensures(Step::exchange, (expect, reply), step) ==> step@ == (Cue {
            expect: Some(expect@),
            reply: reply@,
        }),
        call_ensures(Step::reply_any, (reply,), step) ==> step@ == (Cue {
            expect: None,
            reply: reply@,
        }),
        call_ensures(Step::silence, (), step) ==> step@.expect is None && step@.reply.len() == 0,
{
}

/// The cable's serial side: the divisor is the one nearest to the link's speed
/// from the 3 MHz clock, frames are 8N1, and the vendor requests and endpoints
/// are apart from each other.
pub proof fn lemma_serial_side()
    ensures
        BAUD == 115_200,
        BAUD_115200_DIVISOR == (3_000_000 + BAUD / 2) / (BAUD as int),
        DATA_8N1 == 8,
        SIO_RESET == 0 && SIO_MODEM_CTRL == 1 && SIO_SET_BAUDRATE == 3,
        SIO_SET_DATA == 4 && SIO_SET_LATENCY_TIMER == 9,
        SIO_RESET_SIO == 0 && SIO_RESET_PURGE_RX == 1,
        EP_IN == 0x81 && EP_OUT == 0x02,
{
}

} // verus!
