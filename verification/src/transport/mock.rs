//! Script-driven mock transport for session-level tests.
//!
//! Each write consumes one script step: the step may demand the exact bytes
//! written and queues the scripted reply into the read buffer. Reads never
//! block: an empty buffer reports an immediate timeout (`Ok(0)`). The clock is
//! virtual: a sleep moves it by the time slept, a read that finds nothing by
//! the time it would have waited.

use vstd::prelude::*;

use super::{Clock, LatencyResult, Reply, Req, Transport, World};
use crate::bytes::{copy_all, copy_range, push_all, same_bytes};
use crate::error::TransportError;
use crate::time::{Duration, Instant};

verus! {

/// Something the mock was made to do.
#[derive(Debug, PartialEq, Eq)]
pub enum Event {
    Write(Vec<u8>),
    Modem { dtr: bool, rts: bool },
    PurgeRx,
}

/// What an [`Event`] holds.
pub enum Deed {
    Write(Seq<u8>),
    Modem { dtr: bool, rts: bool },
    Purge,
}

impl View for Event {
    type V = Deed;

    open spec fn view(&self) -> Deed {
        match *self {
            Event::Write(w) => Deed::Write(w@),
            Event::Modem { dtr, rts } => Deed::Modem { dtr, rts },
            Event::PurgeRx => Deed::Purge,
        }
    }
}

pub struct Step {
    /// If set, the write must match these bytes exactly.
    pub expect: Option<Vec<u8>>,
    /// Bytes queued for subsequent reads.
    pub reply: Vec<u8>,
}

/// What a [`Step`] holds.
pub struct Cue {
    pub expect: Option<Seq<u8>>,
    pub reply: Seq<u8>,
}

impl View for Step {
    type V = Cue;

    open spec fn view(&self) -> Cue {
        Cue {
            expect: match self.expect {
                Some(e) => Some(e@),
                None => None,
            },
            reply: self.reply@,
        }
    }
}

impl Step {
    /// Demand exactly `expect`, then reply.
    pub fn exchange(expect: Vec<u8>, reply: Vec<u8>) -> (s: Step)
        ensures
            s@ == (Cue { expect: Some(expect@), reply: reply@ }),
    {
        Step { expect: Some(expect), reply }
    }

    /// Reply regardless of what was written (for nondeterministic traffic
    /// like keepalives).
    pub fn reply_any(reply: Vec<u8>) -> (s: Step)
        ensures
            s@ == (Cue { expect: None, reply: reply@ }),
    {
        Step { expect: None, reply }
    }

    /// Consume a write and answer nothing (models a dead/wedged adapter).
    pub fn silence() -> (s: Step)
        ensures
            s@ == (Cue { expect: None, reply: Seq::empty() }),
    {
        let s = Step { expect: None, reply: Vec::new() };
        assert(s.reply@ =~= Seq::empty());
        s
    }
}

/// Where a script stands.
pub struct Stage {
    /// The steps still to come.
    pub cues: Seq<Cue>,
    /// Bytes waiting to be read.
    pub rx: Seq<u8>,
    pub at: Instant,
    /// What a write that does not fit the script is told.
    pub objection: String,
}

impl Stage {
    /// A script at its start.
    pub open spec fn opening(steps: Seq<Step>, objection: String) -> Stage {
        Stage {
            cues: steps.map_values(|s: Step| s@),
            rx: Seq::empty(),
            at: Instant { nanos: 0 },
            objection,
        }
    }

    /// Whether the script is at a step that demands something else than `w`.
    pub open spec fn objects_to(self, w: Seq<u8>) -> bool {
        self.cues.len() > 0 && self.cues[0].expect is Some && self.cues[0].expect->0 != w
    }

    pub open spec fn after(self, req: Req) -> Stage {
        match req {
            Req::Write(w) => if self.cues.len() == 0 || self.objects_to(w) {
                self
            } else {
                Stage { cues: self.cues.skip(1), rx: self.rx + self.cues[0].reply, ..self }
            },
            Req::Read { max, timeout } => if self.rx.len() == 0 {
                Stage { at: self.at.spec_plus(timeout), ..self }
            } else if self.rx.len() <= max {
                Stage { rx: Seq::empty(), ..self }
            } else {
                Stage { rx: self.rx.skip(max as int), ..self }
            },
            Req::Purge => Stage { rx: Seq::empty(), ..self },
            Req::Sleep(d) => Stage { at: self.at.spec_plus(d), ..self },
            _ => self,
        }
    }

    pub open spec fn reply(self, req: Req) -> Reply {
        Reply {
            fail: match req {
                Req::Write(w) => if self.objects_to(w) {
                    Some(TransportError::Io(self.objection))
                } else {
                    None
                },
                _ => None,
            },
            bytes: self.rx,
            at: self.at,
            latency: LatencyResult::Unavailable,
        }
    }

    /// Where the script stands once everything in `hist` has been asked.
    pub open spec fn played(self, hist: Seq<Req>) -> Stage
        decreases hist.len(),
    {
        if hist.len() == 0 {
            self
        } else {
            self.played(hist.drop_last()).after(hist.last())
        }
    }

    /// How the script answers the last of a series of requests.
    pub open spec fn reaction(self) -> spec_fn(Seq<Req>) -> Reply {
        |hist: Seq<Req>| self.played(hist.drop_last()).reply(hist.last())
    }
}

/// The requests that leave a trace in the event log.
pub open spec fn deeds(hist: Seq<Req>) -> Seq<Deed>
    decreases hist.len(),
{
    if hist.len() == 0 {
        Seq::empty()
    } else {
        let before = deeds(hist.drop_last());
        match hist.last() {
            Req::Write(w) => before.push(Deed::Write(w)),
            Req::Modem { dtr, rts } => before.push(Deed::Modem { dtr, rts }),
            Req::Purge => before.push(Deed::Purge),
            _ => before,
        }
    }
}

/// The writes among the events.
pub open spec fn writes_in(log: Seq<Deed>) -> Seq<Seq<u8>>
    decreases log.len(),
{
    if log.len() == 0 {
        Seq::empty()
    } else {
        let before = writes_in(log.drop_last());
        match log.last() {
            Deed::Write(w) => before.push(w),
            _ => before,
        }
    }
}

/// The sleeps among the requests.
pub open spec fn sleeps_in(hist: Seq<Req>) -> Seq<Duration>
    decreases hist.len(),
{
    if hist.len() == 0 {
        Seq::empty()
    } else {
        let before = sleeps_in(hist.drop_last());
        match hist.last() {
            Req::Sleep(d) => before.push(d),
            _ => before,
        }
    }
}

/// A virtual clock: delays cost nothing, and the requested durations are
/// recorded for assertions.
pub struct MockClock {
    sleeps: Vec<Duration>,
    now: Instant,
}

impl MockClock {
    fn wait(&mut self, d: Duration)
        ensures
            final(self).now == old(self).now.spec_plus(d),
            final(self).sleeps@ == old(self).sleeps@,
    {
        self.now = self.now.plus(d);
    }
}

struct MockState {
    steps: Vec<Step>,
    rx: Vec<u8>,
    clock: MockClock,
    events: Vec<Event>,
    objection: String,
    origin: Ghost<Stage>,
    hist: Ghost<Seq<Req>>,
}

spec fn cues_of(steps: Seq<Step>) -> Seq<Cue> {
    steps.map_values(|s: Step| s@)
}

spec fn deeds_of(events: Seq<Event>) -> Seq<Deed> {
    events.map_values(|e: Event| e@)
}

impl MockState {
    spec fn stage(self) -> Stage {
        Stage {
            cues: cues_of(self.steps@),
            rx: self.rx@,
            at: self.clock.now,
            objection: self.objection,
        }
    }

    /// What is kept is what playing the history leaves.
    spec fn consistent(self) -> bool {
        &&& self.stage() == self.origin@.played(self.hist@)
        &&& deeds_of(self.events@) == deeds(self.hist@)
        &&& self.clock.sleeps@ == sleeps_in(self.hist@)
    }

    spec fn world(self) -> World {
        World { hist: self.hist@, react: self.origin@.reaction() }
    }

    fn note(&mut self, req: Ghost<Req>)
        ensures
            *final(self) == (MockState { hist: Ghost(old(self).hist@.push(req@)), ..*old(self) }),
    {
        let hist: Ghost<Seq<Req>> = Ghost(self.hist@.push(req@));
        self.hist = hist;
    }

    fn write_all(&mut self, buf: &[u8]) -> (r: Result<(), TransportError>)
        requires
            old(self).consistent(),
        ensures
            final(self).consistent(),
            final(self).world() == old(self).world().after(Req::Write(buf@)),
            r == old(self).world().outcome(Req::Write(buf@)),
    {
        let ghost req = Req::Write(buf@);
        let ghost h = self.hist@;
        let event = Event::Write(copy_all(buf));
        proof {
            assert(h.push(req).drop_last() =~= h);
            assert(deeds_of(self.events@.push(event)) =~= deeds_of(self.events@).push(event@));
        }
        self.events.push(event);
        self.note(Ghost(req));
        if self.steps.len() == 0 {
            assert(self.stage() == old(self).stage().after(req));
            return Ok(());
        }
        assert(self.stage().cues[0] == self.steps@[0]@);
        let fits: bool = match &self.steps[0].expect {
            Some(expected) => same_bytes(buf, expected.as_slice()),
            None => true,
        };
        if !fits {
            return Err(TransportError::Io(self.objection.clone()));
        }
        let ghost steps = self.steps@;
        let step = self.steps.remove(0);
        push_all(&mut self.rx, step.reply.as_slice());
        proof {
            assert(steps.remove(0) =~= steps.skip(1));
            assert(cues_of(steps.skip(1)) =~= cues_of(steps).skip(1));
            assert(self.stage() == old(self).stage().after(req));
        }
        Ok(())
    }

    fn read(&mut self, buf: &mut [u8], timeout: Duration) -> (n: usize)
        requires
            old(self).consistent(),
        ensures
            final(self).consistent(),
            final(self).world() == old(self).world().after(
                Req::Read { max: old(buf)@.len(), timeout },
            ),
            final(buf)@.len() == old(buf)@.len(),
            old(self).world().received(old(buf)@.len(), timeout) matches Ok(bytes) && n
                == bytes.len() && final(buf)@.take(n as int) == bytes,
    {
        let ghost req = Req::Read { max: buf@.len(), timeout };
        let ghost h = self.hist@;
        let ghost rx = self.rx@;
        proof {
            assert(h.push(req).drop_last() =~= h);
        }
        self.note(Ghost(req));
        if self.rx.len() == 0 {
            self.clock.wait(timeout);
            assert(buf@.take(0) =~= rx);
            return 0;
        }
        let n: usize = if self.rx.len() <= buf.len() {
            self.rx.len()
        } else {
            buf.len()
        };
        let mut i: usize = 0;
        while i < n
            invariant
                i <= n <= buf.len(),
                n <= self.rx.len(),
                buf@.len() == old(buf)@.len(),
                forall|j: int| 0 <= j < i ==> #[trigger] buf@[j] == self.rx@[j],
            decreases n - i,
        {
            buf[i] = self.rx[i];
            i = i + 1;
        }
        assert(buf@.take(n as int) =~= rx.take(n as int));
        assert(rx.take(rx.len() as int) =~= rx);
        self.rx = copy_range(self.rx.as_slice(), n, self.rx.len());
        proof {
            assert(self.rx@ =~= rx.skip(n as int));
            assert(rx.skip(rx.len() as int) =~= Seq::empty());
            assert(self.stage() == old(self).stage().after(req));
        }
        n
    }

    fn purge_rx(&mut self)
        requires
            old(self).consistent(),
        ensures
            final(self).consistent(),
            final(self).world() == old(self).world().after(Req::Purge),
    {
        let ghost h = self.hist@;
        proof {
            assert(h.push(Req::Purge).drop_last() =~= h);
            assert(deeds_of(self.events@.push(Event::PurgeRx)) =~= deeds_of(self.events@).push(
                Deed::Purge,
            ));
        }
        self.note(Ghost(Req::Purge));
        self.events.push(Event::PurgeRx);
        self.rx.clear();
        assert(self.stage() == old(self).stage().after(Req::Purge));
    }

    fn set_modem(&mut self, dtr: bool, rts: bool)
        requires
            old(self).consistent(),
        ensures
            final(self).consistent(),
            final(self).world() == old(self).world().after(Req::Modem { dtr, rts }),
    {
        let ghost h = self.hist@;
        let ghost req = Req::Modem { dtr, rts };
        let event = Event::Modem { dtr, rts };
        proof {
            assert(h.push(req).drop_last() =~= h);
            assert(deeds_of(self.events@.push(event)) =~= deeds_of(self.events@).push(event@));
        }
        self.note(Ghost(req));
        self.events.push(event);
    }

    fn quiet(&mut self, req: Ghost<Req>)
        requires
            old(self).consistent(),
            req@ is Latency || req@ is Now,
        ensures
            final(self).consistent(),
            final(self).world() == old(self).world().after(req@),
            final(self).clock == old(self).clock,
    {
        proof {
            assert(self.hist@.push(req@).drop_last() =~= self.hist@);
        }
        self.note(req);
    }

    fn sleep(&mut self, d: Duration)
        requires
            old(self).consistent(),
        ensures
            final(self).consistent(),
            final(self).world() == old(self).world().after(Req::Sleep(d)),
    {
        proof {
            assert(self.hist@.push(Req::Sleep(d)).drop_last() =~= self.hist@);
        }
        self.note(Ghost(Req::Sleep(d)));
        self.clock.wait(d);
        self.clock.sleeps.push(d);
        assert(self.stage() == old(self).stage().after(Req::Sleep(d)));
    }
}

pub struct MockTransport {
    inner: MockState,
}

impl MockTransport {
    #[verifier::type_invariant]
    spec fn inv(self) -> bool {
        self.inner.consistent()
    }

    /// A mock that plays `steps`, its clock at zero.
    pub fn new(steps: Vec<Step>) -> (m: MockTransport)
        ensures
            m.world().hist == Seq::<Req>::empty(),
            exists|objection: String|
                objection@ == "unexpected write"@ && m.world().react == #[trigger] Stage::opening(
                    steps@,
                    objection,
                ).reaction(),
    {
        let now = Instant { nanos: 0 };
        let objection = "unexpected write".to_owned();
        let ghost origin = Stage::opening(steps@, objection);
        let inner = MockState {
            steps,
            rx: Vec::new(),
            clock: MockClock { sleeps: Vec::new(), now },
            events: Vec::new(),
            objection,
            origin: Ghost(origin),
            hist: Ghost(Seq::empty()),
        };
        proof {
            assert(inner.rx@ =~= Seq::empty());
            assert(deeds_of(inner.events@) =~= Seq::empty());
            assert(inner.clock.sleeps@ =~= Seq::empty());
        }
        MockTransport { inner }
    }

    /// Everything the mock was made to do, in order.
    pub fn events(&self) -> (r: &Vec<Event>)
        ensures
            r@.map_values(|e: Event| e@) == deeds(self.world().hist),
    {
        proof {
            use_type_invariant(self);
        }
        &self.inner.events
    }

    /// The writes recorded so far (convenience over `events`).
    pub fn writes(&self) -> (r: Vec<Vec<u8>>)
        ensures
            r@.map_values(|w: Vec<u8>| w@) == writes_in(deeds(self.world().hist)),
    {
        proof {
            use_type_invariant(self);
        }
        let events = &self.inner.events;
        let ghost log = deeds_of(events@);
        let mut out: Vec<Vec<u8>> = Vec::new();
        let mut i: usize = 0;
        assert(log.take(0) =~= Seq::empty());
        assert(out@.map_values(|w: Vec<u8>| w@) =~= Seq::empty());
        while i < events.len()
            invariant
                i <= events.len(),
                log == deeds_of(events@),
                out@.map_values(|w: Vec<u8>| w@) == writes_in(log.take(i as int)),
            decreases events.len() - i,
        {
            assert(log.take(i + 1).drop_last() =~= log.take(i as int));
            assert(log.take(i + 1).last() == events@[i as int]@);
            if let Event::Write(w) = &events[i] {
                let ghost before = out@;
                let copy = copy_all(w.as_slice());
                out.push(copy);
                assert(out@.map_values(|w: Vec<u8>| w@) =~= before.map_values(
                    |w: Vec<u8>| w@,
                ).push(copy@));
            }
            i = i + 1;
        }
        assert(log.take(i as int) =~= log);
        out
    }

    /// The sleeps asked for so far.
    pub fn sleeps(&self) -> (r: &Vec<Duration>)
        ensures
            r@ == sleeps_in(self.world().hist),
    {
        proof {
            use_type_invariant(self);
        }
        &self.inner.clock.sleeps
    }

    fn take(&mut self) -> (inner: MockState)
        ensures
            inner == old(self).inner,
            inner.consistent(),
    {
        let mut out = MockTransport::new(Vec::new());
        std::mem::swap(self, &mut out);
        proof {
            use_type_invariant(&out);
        }
        out.inner
    }
}

impl Clock for MockTransport {
    closed spec fn world(&self) -> World {
        self.inner.world()
    }

    fn sleep(&mut self, d: Duration) {
        let mut inner = self.take();
        inner.sleep(d);
        *self = MockTransport { inner };
    }

    fn now(&mut self) -> (t: Instant) {
        let mut inner = self.take();
        let ghost h = inner.hist@;
        inner.quiet(Ghost(Req::Now));
        assert(h.push(Req::Now).drop_last() =~= h);
        let t = inner.clock.now;
        *self = MockTransport { inner };
        t
    }
}

impl Transport for MockTransport {
    fn write_all(&mut self, buf: &[u8]) -> (r: Result<(), TransportError>) {
        let mut inner = self.take();
        let r = inner.write_all(buf);
        *self = MockTransport { inner };
        r
    }

    fn read(&mut self, buf: &mut [u8], timeout: Duration) -> (r: Result<usize, TransportError>) {
        let mut inner = self.take();
        let n: usize = inner.read(buf, timeout);
        *self = MockTransport { inner };
        Ok(n)
    }

    fn purge_rx(&mut self) -> (r: Result<(), TransportError>) {
        let mut inner = self.take();
        inner.purge_rx();
        *self = MockTransport { inner };
        Ok(())
    }

    fn set_modem(&mut self, dtr: bool, rts: bool) -> (r: Result<(), TransportError>) {
        let mut inner = self.take();
        inner.set_modem(dtr, rts);
        *self = MockTransport { inner };
        Ok(())
    }

    fn optimize_latency(&mut self) -> (r: LatencyResult) {
        let mut inner = self.take();
        assert(inner.hist@.push(Req::Latency).last() == Req::Latency);
        inner.quiet(Ghost(Req::Latency));
        *self = MockTransport { inner };
        LatencyResult::Unavailable
    }
}

} // verus!
