//! The port-owning actor: it owns the transport, the DES key, the idle-poll
//! timer and the per-protocol receive queues. Requests go in one at a time;
//! each runs to completion before the next.

use vstd::prelude::*;

use crate::bytes::copy_all;
use crate::codec::frame::{decode_encrypted, encode_encrypted, encrypted_frame, encrypted_payload};
use crate::codec::inner::{
    connect, connect_cmd, disconnect, disconnect_cmd, parse_read_reply, read_poll, read_poll_cmd,
    read_reply, reply_status, session_close, session_close_cmd, status_of,
};
use crate::error::{codec, seen, transport, CodecError, Error};
use crate::session::link::{handshake, KeyedLink};
use crate::session::wire::{frame_read, read_frame};
use crate::time::{millis, Duration, Instant};
use crate::transport::{Req, Run, Transport, World};
use crate::types::{lemma_protocol_ids, Cmd, ProtocolId, RxMsg, RxMsgView};

verus! {

/// Consecutive silent exchanges after which the adapter is declared wedged
/// and requests fail fast instead of each eating a full timeout.
pub const WEDGE_THRESHOLD: u8 = 3;

/// The reset dance on the modem lines, the boot wait and the latency fix.
pub open spec fn reset_dance(w: World) -> Run {
    Run::start(w).ask(Req::Modem { dtr: true, rts: false }).attempt(Req::Sleep(millis(15))).ask(
        Req::Modem { dtr: false, rts: false },
    ).attempt(Req::Sleep(millis(1000))).ask(Req::Purge).attempt(Req::Latency)
}

/// The whole open sequence: the session key, if it succeeds.
pub open spec fn opening(w: World) -> (Result<Seq<u8>, Error>, World) {
    let run = reset_dance(w);
    match run.outcome {
        Err(e) => (Err(e), run.world),
        Ok(()) => handshake(run.world),
    }
}

/// DTR/RTS reset dance + latency fix + handshake. The dance is what recovers a
/// wedged MCU; do not shorten the waits.
pub fn open_link<T: Transport>(io: &mut T) -> (r: Result<KeyedLink, Error>)
    ensures
        (seen(r), final(io).world()) == opening(old(io).world()),
{
    transport(io.set_modem(true, false))?;  // RTS clear, DTR set
    io.sleep(Duration::from_millis(15));
    transport(io.set_modem(false, false))?;  // DTR clear -> MCU resets
    io.sleep(Duration::from_millis(1000));  // boot
    transport(io.purge_rx())?;
    let _ = io.optimize_latency();
    KeyedLink::establish(io)
}

/// A session as the actor keeps it.
pub struct Session {
    pub world: World,
    /// The DES key.
    pub key: Seq<u8>,
    /// Messages the idle poll drained, in arrival order, by protocol id less
    /// one.
    pub queues: Seq<Seq<RxMsgView>>,
    /// Connected channels, in order of protocol id.
    pub connected: Seq<ProtocolId>,
    /// Consecutive exchanges that got no reply.
    pub silent: u8,
    pub wedged: bool,
    /// When the wire was last used.
    pub last_wire: Instant,
}

/// Where the queue of a protocol stands.
pub open spec fn slot(p: ProtocolId) -> int {
    p.id() - 1
}

/// `channels` with `p` among them, in order.
pub open spec fn with_channel(channels: Seq<ProtocolId>, p: ProtocolId) -> Seq<ProtocolId>
    decreases channels.len(),
{
    if channels.len() == 0 {
        seq![p]
    } else if channels[0] == p {
        channels
    } else if p.id() < channels[0].id() {
        seq![p] + channels
    } else {
        seq![channels[0]] + with_channel(channels.skip(1), p)
    }
}

/// `channels` without `p`.
pub open spec fn without_channel(channels: Seq<ProtocolId>, p: ProtocolId) -> Seq<ProtocolId>
    decreases channels.len(),
{
    if channels.len() == 0 {
        channels
    } else if channels[0] == p {
        without_channel(channels.skip(1), p)
    } else {
        seq![channels[0]] + without_channel(channels.skip(1), p)
    }
}

/// Channels are listed in order of protocol id, each once.
pub open spec fn in_order(channels: Seq<ProtocolId>) -> bool {
    forall|i: int, j: int| 0 <= i < j < channels.len() ==> channels[i].id() < channels[j].id()
}

/// What a status reply means for the command it answers.
pub open spec fn verdict(reply: Seq<u8>, cmd: Cmd) -> Result<(), Error> {
    match reply_status(reply, cmd) {
        Err(e) => Err(Error::Codec(e)),
        Ok(status) => if status is NoError {
            Ok(())
        } else {
            Err(Error::Rejected { cmd, status })
        },
    }
}

/// The message a ReadMsgs reply carries, if any.
pub open spec fn message_in(reply: Seq<u8>) -> Result<Option<RxMsgView>, Error> {
    match read_reply(reply) {
        Err(e) => Err(Error::Codec(e)),
        Ok((status, msg)) => Ok(
            if msg.len() == 0 {
                None
            } else {
                Some(RxMsgView { status, data: msg })
            },
        ),
    }
}

impl Session {
    /// A session just opened.
    pub open spec fn fresh(world: World, key: Seq<u8>, now: Instant) -> Session {
        Session {
            world,
            key,
            queues: Seq::new(6, |i: int| Seq::<RxMsgView>::empty()),
            connected: Seq::empty(),
            silent: 0,
            wedged: false,
            last_wire: now,
        }
    }

    pub open spec fn in_world(self, world: World) -> Session {
        Session { world, ..self }
    }

    pub open spec fn valid(self) -> bool {
        &&& self.key.len() == 8
        &&& self.queues.len() == 6
        &&& in_order(self.connected)
    }

    /// The session once the clock has been read to note that the wire was used.
    pub open spec fn touch(self) -> Session {
        let (now, world) = self.world.clock();
        Session { world, last_wire: now, ..self }
    }

    /// Send an encrypted command and take in the decrypted reply, with no
    /// account of silence.
    pub open spec fn exchange(self, inner: Seq<u8>, timeout: Duration) -> (
        Result<Seq<u8>, Error>,
        Session,
    ) {
        match encrypted_frame(self.key, inner) {
            Err(e) => (Err(Error::Codec(e)), self),
            Ok(frame) => {
                let run = Run::start(self.world).ask(Req::Purge).ask(Req::Write(frame));
                let s1 = self.in_world(run.world);
                match run.outcome {
                    Err(e) => (Err(e), s1),
                    Ok(()) => {
                        let s2 = s1.touch();
                        let (raw, w3) = frame_read(s2.world, timeout);
                        let s3 = s2.in_world(w3);
                        match raw {
                            Err(e) => (Err(e), s3),
                            Ok(bytes) => (
                                match encrypted_payload(self.key, bytes) {
                                    Err(e) => Err(Error::Codec(e)),
                                    Ok(reply) => Ok(reply),
                                },
                                s3.touch(),
                            ),
                        }
                    },
                }
            },
        }
    }

    /// The session after one more exchange that got no reply.
    pub open spec fn note_silence(self) -> Session {
        let silent = if self.silent == u8::MAX {
            u8::MAX
        } else {
            (self.silent + 1) as u8
        };
        Session { silent, wedged: self.wedged || silent >= WEDGE_THRESHOLD, ..self }
    }

    /// Whether an exchange that ended in `r` was answered: a frame arrived,
    /// sound or corrupt. A command that could not be framed was never put to
    /// the adapter, and a port that failed carried no answer.
    pub open spec fn answered(self, inner: Seq<u8>, r: Result<Seq<u8>, Error>) -> bool {
        &&& encrypted_frame(self.key, inner) is Ok
        &&& r is Ok || r->Err_0 is Codec
    }

    /// One exchange, counted: silence is what a wedged adapter looks like. A
    /// rejection or a corrupt frame means it is talking; what was neither
    /// answered nor waited for in vain says nothing either way.
    pub open spec fn transact(self, inner: Seq<u8>, timeout: Duration) -> (
        Result<Seq<u8>, Error>,
        Session,
    ) {
        let (r, s) = self.exchange(inner, timeout);
        (
            r,
            if r matches Err(Error::Timeout(_)) {
                s.note_silence()
            } else if self.answered(inner, r) {
                Session { silent: 0, ..s }
            } else {
                s
            },
        )
    }

    /// One exchange whose reply is a status.
    pub open spec fn transact_status(self, inner: Seq<u8>, cmd: Cmd, timeout: Duration) -> (
        Result<(), Error>,
        Session,
    ) {
        match self.transact(inner, timeout) {
            (Err(e), s) => (Err(e), s),
            (Ok(reply), s) => (verdict(reply, cmd), s),
        }
    }

    /// A Connect, with one retry after a fresh handshake.
    pub open spec fn connect_once_more(self, proto: ProtocolId, flags: u32, baud: u32) -> (
        Result<(), Error>,
        Session,
    ) {
        let cmd = connect_cmd(proto, flags, baud);
        let (first, s1) = self.transact_status(cmd, Cmd::Connect, millis(2000));
        match first {
            Ok(()) => (Ok(()), s1),
            Err(_) => match handshake(s1.world) {
                (Err(e), w2) => (Err(e), s1.in_world(w2)),
                (Ok(key), w2) => Session { world: w2, key, ..s1 }.transact_status(
                    cmd,
                    Cmd::Connect,
                    millis(2000),
                ),
            },
        }
    }

    pub open spec fn connect(self, proto: ProtocolId, flags: u32, baud: u32) -> (
        Result<(), Error>,
        Session,
    ) {
        match self.connect_once_more(proto, flags, baud) {
            (Err(e), s) => (Err(e), s),
            (Ok(()), s) => (
                Ok(()),
                Session { connected: with_channel(s.connected, proto), ..s },
            ),
        }
    }

    pub open spec fn disconnect(self, proto: ProtocolId) -> (Result<(), Error>, Session) {
        let (r, s) = self.transact_status(disconnect_cmd(proto), Cmd::Disconnect, millis(1000));
        (r, Session { connected: without_channel(s.connected, proto), ..s })
    }

    /// One poll: a message drained earlier comes first.
    pub open spec fn poll(self, proto: ProtocolId, timeout: Duration) -> (
        Result<Option<RxMsgView>, Error>,
        Session,
    ) {
        let queue = self.queues[slot(proto)];
        if queue.len() > 0 {
            (
                Ok(Some(queue[0])),
                Session { queues: self.queues.update(slot(proto), queue.skip(1)), ..self },
            )
        } else {
            match self.transact(read_poll_cmd(proto), timeout) {
                (Err(e), s) => (Err(e), s),
                (Ok(reply), s) => (message_in(reply), s),
            }
        }
    }

    /// The protocol an idle poll asks for.
    pub open spec fn idle_proto(self) -> ProtocolId {
        if self.connected.len() > 0 {
            self.connected[0]
        } else {
            ProtocolId::Iso15765
        }
    }

    /// The idle poll: a message it happens to drain is queued.
    pub open spec fn idle_poll(self) -> Session {
        let proto = self.idle_proto();
        if self.wedged {
            self.touch()
        } else {
            match self.transact(read_poll_cmd(proto), millis(500)) {
                (Err(_), s) => s.touch(),
                (Ok(reply), s) => match message_in(reply) {
                    Ok(Some(m)) => Session {
                        queues: s.queues.update(slot(proto), s.queues[slot(proto)].push(m)),
                        ..s
                    },
                    _ => s,
                },
            }
        }
    }

    /// Disconnect each of `channels`, whatever comes of it.
    pub open spec fn close_channels(self, channels: Seq<ProtocolId>) -> Session
        decreases channels.len(),
    {
        if channels.len() == 0 {
            self
        } else {
            self.transact_status(
                disconnect_cmd(channels[0]),
                Cmd::Disconnect,
                millis(500),
            ).1.close_channels(channels.skip(1))
        }
    }

    /// Disconnect every channel, then close the encrypted session.
    pub open spec fn teardown(self) -> Session {
        Session { connected: Seq::empty(), ..self }.close_channels(self.connected).transact(
            session_close_cmd(),
            millis(500),
        ).1
    }

    /// How a request to a wedged adapter ends: at once, without wire traffic.
    pub open spec fn refused<A>(self) -> (Result<A, Error>, Session) {
        (Err(Error::Wedged(self.silent)), self)
    }

    pub open spec fn on_transact(self, inner: Seq<u8>, timeout: Duration) -> (
        Result<Seq<u8>, Error>,
        Session,
    ) {
        if self.wedged {
            self.refused()
        } else {
            self.transact(inner, timeout)
        }
    }

    pub open spec fn on_connect(self, proto: ProtocolId, flags: u32, baud: u32) -> (
        Result<(), Error>,
        Session,
    ) {
        if self.wedged {
            self.refused()
        } else {
            self.connect(proto, flags, baud)
        }
    }

    pub open spec fn on_disconnect(self, proto: ProtocolId) -> (Result<(), Error>, Session) {
        if self.wedged {
            self.refused()
        } else {
            self.disconnect(proto)
        }
    }

    pub open spec fn on_poll(self, proto: ProtocolId, timeout: Duration) -> (
        Result<Option<RxMsgView>, Error>,
        Session,
    ) {
        if self.wedged {
            self.refused()
        } else {
            self.poll(proto, timeout)
        }
    }
}

/// A polled message, taken by its view.
pub open spec fn seen_msg(r: Result<Option<RxMsg>, Error>) -> Result<Option<RxMsgView>, Error> {
    match r {
        Ok(Some(m)) => Ok(Some(m@)),
        Ok(None) => Ok(None),
        Err(e) => Err(e),
    }
}

/// The messages of a queue.
pub open spec fn messages(q: Seq<RxMsg>) -> Seq<RxMsgView> {
    q.map_values(|m: RxMsg| m@)
}

pub struct Actor<T: Transport> {
    io: T,
    link: KeyedLink,
    /// Messages the optional idle poll drained, waiting for a poll: one queue
    /// per protocol.
    queues: Vec<Vec<RxMsg>>,
    /// Connected channels, kept sorted; drives the idle poll's protocol and
    /// teardown.
    connected: Vec<ProtocolId>,
    /// Consecutive exchanges that got no reply. Counted from *real* requests
    /// as well as idle polls, so a wedged adapter is detected while it is
    /// being used, which is the only time it matters, without any idle
    /// traffic. Reset by any exchange that is answered.
    silent_exchanges: u8,
    wedged: bool,
    last_wire: Instant,
}

impl<T: Transport> View for Actor<T> {
    type V = Session;

    closed spec fn view(&self) -> Session {
        Session {
            world: self.io.world(),
            key: self.link@,
            queues: self.queues@.map_values(|q: Vec<RxMsg>| messages(q@)),
            connected: self.connected@,
            silent: self.silent_exchanges,
            wedged: self.wedged,
            last_wire: self.last_wire,
        }
    }
}

impl<T: Transport> Actor<T> {
    /// A session over a link just established.
    pub fn new(mut io: T, link: KeyedLink) -> (a: Actor<T>)
        ensures
            a@ == Session::fresh(
                io.world().after(Req::Now),
                link@,
                io.world().reply(Req::Now).at,
            ),
            a@.valid(),
    {
        let last_wire = io.now();
        let mut queues: Vec<Vec<RxMsg>> = Vec::new();
        let mut i: usize = 0;
        while i < 6
            invariant
                i <= 6,
                queues.len() == i,
                forall|j: int| 0 <= j < i ==> (#[trigger] queues@[j])@.len() == 0,
            decreases 6 - i,
        {
            queues.push(Vec::new());
            i = i + 1;
        }
        proof {
            link.lemma_key_len();
        }
        let a = Actor {
            io,
            link,
            queues,
            connected: Vec::new(),
            silent_exchanges: 0,
            wedged: false,
            last_wire,
        };
        assert(a@.queues =~= Seq::new(6, |i: int| Seq::<RxMsgView>::empty())) by {
            assert forall|j: int| 0 <= j < 6 implies a@.queues[j] == Seq::<RxMsgView>::empty() by {
                assert(messages(queues@[j]@) =~= Seq::<RxMsgView>::empty());
            }
        }
        a
    }

    fn touch(&mut self)
        ensures
            final(self)@ == old(self)@.touch(),
    {
        self.last_wire = self.io.now();
    }

    /// Put an encrypted command on the wire and take in the decrypted reply.
    fn exchange(&mut self, inner_bytes: Ghost<Seq<u8>>, wire_frame: &[u8], timeout: Duration) -> (r:
        Result<Vec<u8>, Error>)
        requires
            encrypted_frame(old(self)@.key, inner_bytes@) == Ok::<Seq<u8>, CodecError>(
                wire_frame@,
            ),
        ensures
            (seen(r), final(self)@) == old(self)@.exchange(inner_bytes@, timeout),
    {
        transport(self.io.purge_rx())?;
        transport(self.io.write_all(wire_frame))?;
        self.touch();
        let raw = read_frame(&mut self.io, timeout)?;
        self.touch();
        codec(decode_encrypted(self.link.key(), raw.as_slice()))
    }

    fn note_silence(&mut self)
        ensures
            final(self)@ == old(self)@.note_silence(),
    {
        self.silent_exchanges = self.silent_exchanges.saturating_add(1);
        if self.silent_exchanges >= WEDGE_THRESHOLD {
            self.wedged = true;
        }
    }

    fn transact(&mut self, inner_bytes: &[u8], timeout: Duration) -> (r: Result<Vec<u8>, Error>)
        ensures
            (seen(r), final(self)@) == old(self)@.transact(inner_bytes@, timeout),
    {
        let wire_frame = codec(encode_encrypted(self.link.key(), inner_bytes))?;
        let r = self.exchange(Ghost(inner_bytes@), wire_frame.as_slice(), timeout);
        match &r {
            Err(Error::Timeout(_)) => self.note_silence(),
            Ok(_) | Err(Error::Codec(_)) => {
                self.silent_exchanges = 0;
            },
            Err(_) => {},
        }
        r
    }

    fn transact_status(&mut self, inner_bytes: &[u8], cmd: Cmd, timeout: Duration) -> (r: Result<
        (),
        Error,
    >)
        ensures
            (r, final(self)@) == old(self)@.transact_status(inner_bytes@, cmd, timeout),
    {
        let resp = self.transact(inner_bytes, timeout)?;
        check_status(resp.as_slice(), cmd)
    }

    fn connect(&mut self, proto: ProtocolId, flags: u32, baud: u32) -> (r: Result<(), Error>)
        requires
            old(self)@.valid(),
        ensures
            (r, final(self)@) == old(self)@.connect(proto, flags, baud),
            final(self)@.valid(),
    {
        let inner_bytes = connect(proto, flags, baud);
        let timeout = Duration::from_millis(2000);
        let first = self.transact_status(inner_bytes.as_slice(), Cmd::Connect, timeout);
        if first.is_err() {
            // After a prior Disconnect the adapter ignores Connect until it is
            // reset: re-run the handshake and retry once.
            self.link = KeyedLink::establish(&mut self.io)?;
            self.transact_status(inner_bytes.as_slice(), Cmd::Connect, timeout)?;
        }
        let ghost before = self.connected@;
        let at: usize = find_channel(&self.connected, proto);
        proof {
            lemma_with_channel(before, proto, at as int);
        }
        if at >= self.connected.len() || self.connected[at].wire() != proto.wire() {
            self.connected.insert(at, proto);
            proof {
                lemma_insert_in_order(before, proto, at as int);
            }
        } else {
            proof {
                lemma_protocol_ids(before[at as int], proto);
            }
        }
        Ok(())
    }

    fn disconnect(&mut self, proto: ProtocolId) -> (r: Result<(), Error>)
        requires
            old(self)@.valid(),
        ensures
            (r, final(self)@) == old(self)@.disconnect(proto),
            final(self)@.valid(),
    {
        let r = self.transact_status(
            disconnect(proto).as_slice(),
            Cmd::Disconnect,
            Duration::from_millis(1000),
        );
        self.connected = channels_without(&self.connected, proto);
        r
    }

    fn poll(&mut self, proto: ProtocolId, timeout: Duration) -> (r: Result<Option<RxMsg>, Error>)
        requires
            old(self)@.valid(),
        ensures
            (seen_msg(r), final(self)@) == old(self)@.poll(proto, timeout),
            final(self)@.valid(),
    {
        if let Some(m) = self.unqueue(proto) {
            return Ok(Some(m));
        }
        let resp = self.transact(read_poll(proto).as_slice(), timeout)?;
        read_message(resp.as_slice())
    }

    /// The first message queued for `proto`, taken off its queue.
    fn unqueue(&mut self, proto: ProtocolId) -> (r: Option<RxMsg>)
        requires
            old(self)@.valid(),
        ensures
            ({
                let queue = old(self)@.queues[slot(proto)];
                if queue.len() == 0 {
                    r is None && final(self)@ == old(self)@
                } else {
                    &&& r matches Some(m)
                    &&& m@ == queue[0]
                    &&& final(self)@ == Session {
                        queues: old(self)@.queues.update(slot(proto), queue.skip(1)),
                        ..old(self)@
                    }
                }
            }),
    {
        let at: usize = (proto.wire() - 1) as usize;
        assert(self@.queues[at as int] == messages(self.queues@[at as int]@));
        if self.queues[at].len() == 0 {
            return None;
        }
        let ghost q = self.queues@[at as int]@;
        let m = self.queues[at].remove(0);
        proof {
            assert(q.remove(0) =~= q.skip(1));
            assert(messages(q.skip(1)) =~= messages(q).skip(1));
            assert(self@.queues =~= old(self)@.queues.update(
                at as int,
                messages(q).skip(1),
            ));
        }
        Some(m)
    }

    /// Queue a message for `proto`.
    fn enqueue(&mut self, proto: ProtocolId, m: RxMsg)
        requires
            old(self)@.valid(),
        ensures
            final(self)@ == (Session {
                queues: old(self)@.queues.update(
                    slot(proto),
                    old(self)@.queues[slot(proto)].push(m@),
                ),
                ..old(self)@
            }),
    {
        let at: usize = (proto.wire() - 1) as usize;
        let ghost q = self.queues@[at as int]@;
        assert(self@.queues[at as int] == messages(q));
        self.queues[at].push(m);
        proof {
            assert(messages(q.push(m)) =~= messages(q).push(m@));
            assert(self@.queues =~= old(self)@.queues.update(at as int, messages(q).push(m@)));
        }
    }

    /// Optional idle poll (off by default: the adapter does not need one).
    /// Its only jobs are draining the RX ring during long quiet periods and
    /// reaching a wedge verdict sooner.
    ///
    /// The reply is parsed, so a real message the poll happened to drain is
    /// queued rather than discarded.
    pub fn idle_poll(&mut self)
        requires
            old(self)@.valid(),
        ensures
            final(self)@ == old(self)@.idle_poll(),
            final(self)@.valid(),
    {
        if self.wedged {
            self.touch();
            return;
        }
        let proto = if self.connected.len() > 0 {
            self.connected[0]
        } else {
            ProtocolId::Iso15765
        };
        match self.transact(read_poll(proto).as_slice(), Duration::from_millis(500)) {
            Ok(resp) => {
                if let Ok(Some(m)) = read_message(resp.as_slice()) {
                    self.enqueue(proto, m);
                }
            },
            Err(_) => self.touch(),
        }
    }

    /// Disconnect every channel (0x08 each), close the encrypted session
    /// (0x02).
    ///
    /// Every step continues past a failure: the port must be released even
    /// if the adapter has stopped answering.
    pub fn teardown(&mut self)
        ensures
            final(self)@ == old(self)@.teardown(),
    {
        let mut channels: Vec<ProtocolId> = Vec::new();
        std::mem::swap(&mut channels, &mut self.connected);
        let mut i: usize = 0;
        assert(self@.connected =~= Seq::empty());
        assert(channels@.skip(0) =~= channels@);
        while i < channels.len()
            invariant
                i <= channels.len(),
                channels@ == old(self)@.connected,
                self@.close_channels(channels@.skip(i as int)) == (Session {
                    connected: Seq::empty(),
                    ..old(self)@
                }).close_channels(channels@),
            decreases channels.len() - i,
        {
            assert(channels@.skip(i as int).skip(1) =~= channels@.skip(i + 1));
            let _ = self.transact_status(
                disconnect(channels[i]).as_slice(),
                Cmd::Disconnect,
                Duration::from_millis(500),
            );
            i = i + 1;
        }
        let _ = self.transact(session_close().as_slice(), Duration::from_millis(500));
    }

    /// How long to wait for a request before the next idle poll, given the
    /// configured interval.
    pub fn idle_wait(&mut self, interval: Duration) -> (d: Duration)
        ensures
            final(self)@ == old(self)@.in_world(old(self)@.world.clock().1),
            d == old(self)@.world.clock().0.spec_until(old(self)@.last_wire.spec_plus(interval)),
    {
        let now = self.io.now();
        now.until(self.last_wire.plus(interval))
    }

    /// Encrypt an inner command, send it, return the decrypted reply inner.
    pub fn on_transact(&mut self, inner_bytes: &[u8], timeout: Duration) -> (r: Result<
        Vec<u8>,
        Error,
    >)
        ensures
            (seen(r), final(self)@) == old(self)@.on_transact(inner_bytes@, timeout),
            old(self)@.valid() ==> final(self)@.valid(),
    {
        if self.wedged {
            return Err(Error::Wedged(self.silent_exchanges));
        }
        self.transact(inner_bytes, timeout)
    }

    /// CONNECT with recovery: after a prior Disconnect the adapter ignores
    /// Connect until it is reset, so on failure the handshake is re-run and
    /// the Connect retried once.
    pub fn on_connect(&mut self, proto: ProtocolId, flags: u32, baud: u32) -> (r: Result<
        (),
        Error,
    >)
        requires
            old(self)@.valid(),
        ensures
            (r, final(self)@) == old(self)@.on_connect(proto, flags, baud),
            final(self)@.valid(),
    {
        if self.wedged {
            return Err(Error::Wedged(self.silent_exchanges));
        }
        self.connect(proto, flags, baud)
    }

    pub fn on_disconnect(&mut self, proto: ProtocolId) -> (r: Result<(), Error>)
        requires
            old(self)@.valid(),
        ensures
            (r, final(self)@) == old(self)@.on_disconnect(proto),
            final(self)@.valid(),
    {
        if self.wedged {
            return Err(Error::Wedged(self.silent_exchanges));
        }
        self.disconnect(proto)
    }

    /// One READ_MSG poll, draining the actor-side queue first.
    pub fn on_poll(&mut self, proto: ProtocolId, timeout: Duration) -> (r: Result<
        Option<RxMsg>,
        Error,
    >)
        requires
            old(self)@.valid(),
        ensures
            (seen_msg(r), final(self)@) == old(self)@.on_poll(proto, timeout),
            final(self)@.valid(),
    {
        if self.wedged {
            return Err(Error::Wedged(self.silent_exchanges));
        }
        self.poll(proto, timeout)
    }
}

/// Something asked of the actor.
pub enum Request {
    /// Encrypt an inner command, send it, return the decrypted reply inner.
    Transact { inner: Vec<u8>, timeout: Duration },
    /// CONNECT with recovery: on failure the handshake is re-run once.
    Connect { proto: ProtocolId, flags: u32, baud: u32 },
    Disconnect { proto: ProtocolId },
    /// One READ_MSG poll, draining the actor-side queue first.
    Poll { proto: ProtocolId, timeout: Duration },
}

/// What the actor answers, by the kind of request.
pub enum Response {
    Bytes(Result<Vec<u8>, Error>),
    Done(Result<(), Error>),
    Msg(Result<Option<RxMsg>, Error>),
}

impl<T: Transport> Actor<T> {
    /// Carry out one request.
    pub fn handle(&mut self, req: Request) -> (r: Response)
        requires
            old(self)@.valid(),
        ensures
            final(self)@.valid(),
            match req {
                Request::Transact { inner, timeout } => {
                    &&& r is Bytes
                    &&& (seen(r->Bytes_0), final(self)@) == old(self)@.on_transact(inner@, timeout)
                },
                Request::Connect { proto, flags, baud } => {
                    &&& r is Done
                    &&& (r->Done_0, final(self)@) == old(self)@.on_connect(proto, flags, baud)
                },
                Request::Disconnect { proto } => {
                    &&& r is Done
                    &&& (r->Done_0, final(self)@) == old(self)@.on_disconnect(proto)
                },
                Request::Poll { proto, timeout } => {
                    &&& r is Msg
                    &&& (seen_msg(r->Msg_0), final(self)@) == old(self)@.on_poll(proto, timeout)
                },
            },
    {
        match req {
            Request::Transact { inner, timeout } => Response::Bytes(
                self.on_transact(inner.as_slice(), timeout),
            ),
            Request::Connect { proto, flags, baud } => Response::Done(
                self.on_connect(proto, flags, baud),
            ),
            Request::Disconnect { proto } => Response::Done(self.on_disconnect(proto)),
            Request::Poll { proto, timeout } => Response::Msg(self.on_poll(proto, timeout)),
        }
    }

    /// The transport the actor owns.
    pub fn transport(&self) -> (io: &T)
        ensures
            io.world() == self@.world,
    {
        &self.io
    }

    /// Give the transport up.
    pub fn into_transport(self) -> (io: T)
        ensures
            io.world() == self@.world,
    {
        self.io
    }

    pub fn now(&mut self) -> (t: Instant)
        ensures
            final(self)@ == old(self)@.in_world(old(self)@.world.clock().1),
            t == old(self)@.world.clock().0,
    {
        self.io.now()
    }

    pub fn sleep(&mut self, d: Duration)
        ensures
            final(self)@ == old(self)@.in_world(old(self)@.world.slept(d)),
    {
        self.io.sleep(d)
    }
}

/// What a status reply means for the command it answers.
pub fn check_status(resp: &[u8], cmd: Cmd) -> (r: Result<(), Error>)
    ensures
        r == verdict(resp@, cmd),
{
    let status = codec(status_of(resp, cmd))?;
    if status.is_ok() {
        Ok(())
    } else {
        Err(Error::Rejected { cmd, status })
    }
}

/// The message a ReadMsgs reply carries, if any.
pub fn read_message(resp: &[u8]) -> (r: Result<Option<RxMsg>, Error>)
    ensures
        seen_msg(r) == message_in(resp@),
{
    let parsed = codec(parse_read_reply(resp))?;
    if parsed.msg.len() == 0 {
        Ok(None)
    } else {
        Ok(Some(RxMsg { rx_status: parsed.rx_status, data: copy_all(parsed.msg) }))
    }
}

/// Where `proto` is, or belongs, in an ordered list of channels.
fn find_channel(channels: &Vec<ProtocolId>, proto: ProtocolId) -> (at: usize)
    ensures
        at <= channels.len(),
        forall|i: int| 0 <= i < at ==> (#[trigger] channels@[i]).id() < proto.id(),
        at < channels.len() ==> channels@[at as int].id() >= proto.id(),
{
    let mut i: usize = 0;
    while i < channels.len() && channels[i].wire() < proto.wire()
        invariant
            i <= channels.len(),
            forall|j: int| 0 <= j < i ==> (#[trigger] channels@[j]).id() < proto.id(),
        decreases channels.len() - i,
    {
        i = i + 1;
    }
    i
}

/// In an ordered list, `p` goes where the first channel that is not below it
/// stands.
proof fn lemma_with_channel(channels: Seq<ProtocolId>, p: ProtocolId, at: int)
    requires
        0 <= at <= channels.len(),
        forall|i: int| 0 <= i < at ==> (#[trigger] channels[i]).id() < p.id(),
        at < channels.len() ==> channels[at].id() >= p.id(),
    ensures
        with_channel(channels, p) == if at < channels.len() && channels[at] == p {
            channels
        } else {
            channels.insert(at, p)
        },
    decreases channels.len(),
{
    if at < channels.len() && channels[at].id() == p.id() {
        lemma_protocol_ids(channels[at], p);
    }
    if at == 0 {
        assert(channels.insert(0, p) =~= seq![p] + channels);
        assert(channels.len() == 0 ==> seq![p] + channels =~= seq![p]);
    } else {
        let later = channels.skip(1);
        assert forall|i: int| 0 <= i < at - 1 implies (#[trigger] later[i]).id() < p.id() by {
            assert(later[i] == channels[i + 1]);
        }
        assert(channels[0].id() < p.id());
        lemma_with_channel(later, p, at - 1);
        assert(seq![channels[0]] + later =~= channels);
        assert(seq![channels[0]] + later.insert(at - 1, p) =~= channels.insert(at, p));
    }
}

/// Inserting between what is below and what is above keeps the order.
proof fn lemma_insert_in_order(channels: Seq<ProtocolId>, p: ProtocolId, at: int)
    requires
        in_order(channels),
        0 <= at <= channels.len(),
        forall|i: int| 0 <= i < at ==> (#[trigger] channels[i]).id() < p.id(),
        at < channels.len() ==> channels[at].id() > p.id(),
    ensures
        in_order(channels.insert(at, p)),
{
    let more = channels.insert(at, p);
    assert forall|i: int, j: int| 0 <= i < j < more.len() implies more[i].id() < more[j].id() by {
        lemma_insert_pair(channels, p, at, i, j);
    }
}

proof fn lemma_insert_pair(channels: Seq<ProtocolId>, p: ProtocolId, at: int, i: int, j: int)
    requires
        in_order(channels),
        0 <= at <= channels.len(),
        forall|k: int| 0 <= k < at ==> (#[trigger] channels[k]).id() < p.id(),
        at < channels.len() ==> channels[at].id() > p.id(),
        0 <= i < j < channels.len() + 1,
    ensures
        channels.insert(at, p)[i].id() < channels.insert(at, p)[j].id(),
{
    if j < at {
        assert(channels[i].id() < channels[j].id());
    } else if j == at {
        assert(channels[i].id() < p.id());
    } else if i < at {
        assert(channels[i].id() < channels[j - 1].id());
    } else if i == at {
        if j - 1 > at {
            assert(channels[at].id() < channels[j - 1].id());
        }
    } else {
        assert(channels[i - 1].id() < channels[j - 1].id());
    }
}

/// The channels other than `proto`, in the same order.
fn channels_without(channels: &Vec<ProtocolId>, proto: ProtocolId) -> (out: Vec<ProtocolId>)
    ensures
        out@ == without_channel(channels@, proto),
        in_order(channels@) ==> in_order(out@),
{
    let mut out: Vec<ProtocolId> = Vec::new();
    let mut i: usize = 0;
    assert(channels@.skip(0) =~= channels@);
    assert(out@ + without_channel(channels@, proto) =~= without_channel(channels@, proto));
    while i < channels.len()
        invariant
            i <= channels.len(),
            out@ + without_channel(channels@.skip(i as int), proto) == without_channel(
                channels@,
                proto,
            ),
            in_order(channels@) ==> in_order(out@),
            in_order(channels@) ==> forall|a: int, b: int|
                0 <= a < out.len() && i <= b < channels.len() ==> (#[trigger] out@[a]).id() < (
                #[trigger] channels@[b]).id(),
        decreases channels.len() - i,
    {
        let ghost rest = channels@.skip(i as int);
        assert(rest.skip(1) =~= channels@.skip(i + 1));
        let ghost before = out@;
        if channels[i] != proto {
            out.push(channels[i]);
            assert(out@ + without_channel(rest.skip(1), proto) =~= before + without_channel(
                rest,
                proto,
            ));
        }
        i = i + 1;
    }
    assert(out@ + Seq::<ProtocolId>::empty() =~= out@);
    out
}

} // verus!
