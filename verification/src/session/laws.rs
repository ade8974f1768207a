//! What holds of every session.

use vstd::prelude::*;

use crate::bytes::from_le16;
use crate::codec::crypto::encrypted;
use crate::codec::frame::{encrypted_frame, lemma_framed, whole_blocks, zero_padded};
use crate::codec::inner::{
    connect_cmd, disconnect_cmd, identify_cmd, read_poll_cmd, session_close_cmd, start_filter_cmd,
};
use crate::error::{CodecError, Error, IsoTpError};
use crate::session::actor::{
    message_in, opening, reset_dance, slot, with_channel, without_channel, Session,
    WEDGE_THRESHOLD,
};
use crate::session::channel::TypedState;
use crate::session::link::{handshake, identify_frame, reset_and_identify, reset_frame};
use crate::session::protocol::{
    lemma_can_id_round_trip, Can, CanFilter, FilterFields, FilterSpec, FlowControlFilter, Iso14230,
    Iso15765, Iso9141, KLineFilter, Protocol,
};
use crate::session::raw::ChannelState;
use crate::session::wire::{body_timeout, exact_read, frame_read, timed_read};
use crate::time::{millis, Duration, Instant};
use crate::transport::{Req, Run, World};
use crate::types::{Cmd, ProtocolId, RxMsgView, MAX_MSG};

verus! {

/// A wedged adapter is left alone: every request fails at once, with the count
/// of silent exchanges, and nothing is put on the wire.
pub proof fn lemma_wedged_fails_fast(
    s: Session,
    inner: Seq<u8>,
    proto: ProtocolId,
    flags: u32,
    baud: u32,
    timeout: Duration,
)
    requires
        s.wedged,
    ensures
        s.on_transact(inner, timeout) == (Err::<Seq<u8>, Error>(Error::Wedged(s.silent)), s),
        s.on_connect(proto, flags, baud) == (Err::<(), Error>(Error::Wedged(s.silent)), s),
        s.on_disconnect(proto) == (Err::<(), Error>(Error::Wedged(s.silent)), s),
        s.on_poll(proto, timeout) == (
            Err::<Option<RxMsgView>, Error>(Error::Wedged(s.silent)),
            s,
        ),
{
}

proof fn lemma_exact_read_errors(w: World, need: nat, deadline: Instant, timeout: Duration)
    ensures
        exact_read(w, need, deadline, timeout).0 matches Err(e) ==> e is Timeout || e is Transport,
    decreases need,
{
    if need > 0 {
        let (now, w1) = w.clock();
        let remaining = now.spec_until(deadline);
        let w2 = w1.after(Req::Read { max: need, timeout: remaining });
        if let Ok(piece) = w1.received(need, remaining) {
            if 0 < piece.len() <= need {
                lemma_exact_read_errors(w2, (need - piece.len()) as nat, deadline, timeout);
            }
        }
    }
}

proof fn lemma_exchange_errors(s: Session, inner: Seq<u8>, timeout: Duration)
    ensures
        s.exchange(inner, timeout).0 matches Err(e) ==> e is Timeout || e is Transport || e is Codec,
{
    if let Ok(frame) = encrypted_frame(s.key, inner) {
        let run = Run::start(s.world).ask(Req::Purge).ask(Req::Write(frame));
        let w = s.in_world(run.world).touch().world;
        let (now, w1) = w.clock();
        lemma_exact_read_errors(w1, 2, now.spec_plus(timeout), timeout);
        if let (Ok(hdr), w2) = timed_read(w, 2, timeout) {
            let len = from_le16(hdr);
            let body = body_timeout(timeout, len);
            let (now2, w3) = w2.clock();
            lemma_exact_read_errors(w3, (len - 2) as nat, now2.spec_plus(body), body);
        }
    }
}

/// Silence is counted, an answer clears the count, and an exchange that was
/// neither leaves it: one more on a timeout, none once a frame has arrived,
/// sound or corrupt, and the same where the command could not be framed or the
/// port failed. Only silence changes the verdict.
pub proof fn lemma_silence_counted(s: Session, inner: Seq<u8>, timeout: Duration)
    ensures
        ({
            let (r, s1) = s.transact(inner, timeout);
            if encrypted_frame(s.key, inner) is Err {
                r is Err && s1 == s
            } else {
                match r {
                    Err(Error::Timeout(_)) => {
                        &&& s1.silent == if s.silent < u8::MAX {
                            s.silent + 1
                        } else {
                            u8::MAX as int
                        }
                        &&& s1.wedged == (s.wedged || s1.silent >= WEDGE_THRESHOLD)
                    },
                    Ok(_) | Err(Error::Codec(_)) => s1.silent == 0 && s1.wedged == s.wedged,
                    Err(e) => e is Transport && s1.silent == s.silent && s1.wedged == s.wedged,
                }
            }
        }),
{
    lemma_exchange_errors(s, inner, timeout);
}

/// One exchange of a series: the session it is made on, the command, and how
/// long the reply may take.
pub struct Exchange {
    pub on: Session,
    pub inner: Seq<u8>,
    pub timeout: Duration,
}

impl Exchange {
    /// The session after it.
    pub open spec fn after(self) -> Session {
        self.on.transact(self.inner, self.timeout).1
    }

    /// Whether it got no reply.
    pub open spec fn unanswered(self) -> bool {
        self.on.transact(self.inner, self.timeout).0 matches Err(Error::Timeout(_))
    }
}

/// Exchanges one after the other. Between two of them anything about the
/// session may change but the count of silent exchanges and the verdict.
pub open spec fn in_a_row(series: Seq<Exchange>) -> bool {
    forall|i: int|
        0 <= i < series.len() - 1 ==> {
            &&& series[i + 1].on.silent == (#[trigger] series[i]).after().silent
            &&& series[i + 1].on.wedged == series[i].after().wedged
        }
}

/// Unanswered exchanges in a row add up, whatever their commands and timeouts
/// and whatever else happens in between, and the adapter is declared wedged
/// exactly when the count reaches three: from a count of zero, by three of them
/// and not by two.
pub proof fn lemma_three_silences_wedge(series: Seq<Exchange>)
    requires
        series.len() > 0,
        in_a_row(series),
        forall|i: int| 0 <= i < series.len() ==> (#[trigger] series[i]).unanswered(),
    ensures
        ({
            let start = series[0].on;
            let end = series.last().after();
            let count = start.silent + series.len();
            &&& end.silent == if count <= u8::MAX {
                count
            } else {
                u8::MAX as int
            }
            &&& end.wedged == (start.wedged || count >= WEDGE_THRESHOLD)
        }),
    decreases series.len(),
{
    let last = series.last();
    assert(series[series.len() - 1].unanswered());
    lemma_silence_counted(last.on, last.inner, last.timeout);
    if series.len() > 1 {
        let before = series.drop_last();
        assert forall|i: int| 0 <= i < before.len() implies (
            #[trigger] before[i]).unanswered() by {
            assert(before[i] == series[i]);
        }
        assert forall|i: int| 0 <= i < before.len() - 1 implies {
            &&& before[i + 1].on.silent == (#[trigger] before[i]).after().silent
            &&& before[i + 1].on.wedged == before[i].after().wedged
        } by {
            assert(before[i] == series[i] && before[i + 1] == series[i + 1]);
        }
        lemma_three_silences_wedge(before);
        assert(before.last() == series[series.len() - 2]);
        assert(series[series.len() - 2 + 1] == last);
    }
}

/// A message that an idle poll drains is not lost: the next poll of its
/// protocol hands it out, without any traffic.
pub proof fn lemma_drained_message_delivered(s: Session, m: RxMsgView, timeout: Duration)
    requires
        s.valid(),
        !s.wedged,
        s.queues[slot(s.idle_proto())].len() == 0,
        s.transact(read_poll_cmd(s.idle_proto()), millis(500)).0 matches Ok(reply)
            && message_in(reply) == Ok::<Option<RxMsgView>, Error>(Some(m)),
    ensures
        ({
            let s1 = s.idle_poll();
            let (r, s2) = s1.on_poll(s.idle_proto(), timeout);
            &&& r == Ok::<Option<RxMsgView>, Error>(Some(m))
            &&& s2.world == s1.world
            &&& s2.queues =~= s.queues
        }),
{
    let proto = s.idle_proto();
    let s1 = s.idle_poll();
    let q = s1.queues[slot(proto)];
    assert(q =~= seq![m]);
    assert(q.skip(1) =~= s.queues[slot(proto)]);
}

/// An ISO15765 payload that the firmware would announce with a truncated
/// length is refused before anything is put on the wire.
pub proof fn lemma_long_firmware_payload_refused(s: Session, txflags: u32, msg: Seq<u8>)
    requires
        259 < msg.len() <= MAX_MSG,
    ensures
        s.write(ProtocolId::Iso15765, txflags, msg) == (
            Err::<(), Error>(
                Error::IsoTp(IsoTpError::FirmwareFfDlLimit((msg.len() - 4) as usize)),
            ),
            s,
        ),
{
}

/// Request `i` comes right after a reset frame, the wait and a purge.
pub open spec fn follows_reset(hist: Seq<Req>, i: int) -> bool {
    &&& i >= 3
    &&& hist[i - 3] == Req::Write(reset_frame())
    &&& hist[i - 2] == Req::Sleep(millis(110))
    &&& hist[i - 1] == Req::Purge
}

/// Every identify frame in a history comes right after a reset frame, the boot
/// wait and a purge. Identify toggles the adapter's encryption, so a second one
/// in the same session would turn the cipher off.
pub open spec fn guarded(hist: Seq<Req>) -> bool {
    forall|i: int|
        0 <= i < hist.len() && hist[i] == Req::Write(identify_frame())
            ==> #[trigger] follows_reset(hist, i)
}

proof fn lemma_other_request(w: World, req: Req)
    requires
        guarded(w.hist),
        req != Req::Write(identify_frame()),
    ensures
        guarded(w.after(req).hist),
{
    let h = w.after(req).hist;
    assert forall|i: int|
        0 <= i < h.len() && h[i] == Req::Write(identify_frame()) implies #[trigger] follows_reset(
        h,
        i,
    ) by {
        assert(w.hist[i] == h[i]);
        assert(follows_reset(w.hist, i));
    }
}

proof fn lemma_exact_read_guarded(w: World, need: nat, deadline: Instant, timeout: Duration)
    requires
        guarded(w.hist),
    ensures
        guarded(exact_read(w, need, deadline, timeout).1.hist),
    decreases need,
{
    if need > 0 {
        let (now, w1) = w.clock();
        let remaining = now.spec_until(deadline);
        lemma_other_request(w, Req::Now);
        lemma_other_request(w1, Req::Read { max: need, timeout: remaining });
        let w2 = w1.after(Req::Read { max: need, timeout: remaining });
        if let Ok(piece) = w1.received(need, remaining) {
            if 0 < piece.len() <= need {
                lemma_exact_read_guarded(w2, (need - piece.len()) as nat, deadline, timeout);
            }
        }
    }
}

proof fn lemma_timed_read_guarded(w: World, need: nat, timeout: Duration)
    requires
        guarded(w.hist),
    ensures
        guarded(timed_read(w, need, timeout).1.hist),
{
    let (now, w1) = w.clock();
    lemma_other_request(w, Req::Now);
    lemma_exact_read_guarded(w1, need, now.spec_plus(timeout), timeout);
}

proof fn lemma_frame_read_guarded(w: World, timeout: Duration)
    requires
        guarded(w.hist),
    ensures
        guarded(frame_read(w, timeout).1.hist),
{
    lemma_timed_read_guarded(w, 2, timeout);
    if let (Ok(hdr), w1) = timed_read(w, 2, timeout) {
        let len = from_le16(hdr);
        if 3 <= len {
            lemma_timed_read_guarded(w1, (len - 2) as nat, body_timeout(timeout, len));
        }
    }
}

/// The identify frame is sent by the handshake alone, and only right after the
/// reset.
pub proof fn lemma_handshake_guarded(w: World)
    requires
        guarded(w.hist),
    ensures
        guarded(handshake(w).1.hist),
{
    lemma_frame_sizes();
    let ident = Req::Write(identify_frame());
    let w1 = w.after(Req::Purge);
    let w2 = w1.after(Req::Write(reset_frame()));
    let w3 = w2.after(Req::Sleep(millis(110)));
    let w4 = w3.after(Req::Purge);
    let w5 = w4.after(ident);
    lemma_other_request(w, Req::Purge);
    lemma_other_request(w1, Req::Write(reset_frame()));
    lemma_other_request(w2, Req::Sleep(millis(110)));
    lemma_other_request(w3, Req::Purge);
    assert(guarded(w5.hist)) by {
        let h = w5.hist;
        let n = w.hist.len();
        assert(h[n as int + 1] == Req::Write(reset_frame()));
        assert forall|i: int| 0 <= i < h.len() && h[i] == ident implies #[trigger] follows_reset(
            h,
            i,
        ) by {
            if i < n + 4 {
                assert(w4.hist[i] == h[i]);
                assert(follows_reset(w4.hist, i));
            }
        }
    }
    let run = reset_and_identify(w);
    assert(guarded(run.world.hist));
    lemma_frame_read_guarded(run.world, millis(2000));
}

/// The reset frame is three bytes long, the identify frame twelve.
proof fn lemma_frame_sizes()
    ensures
        reset_frame().len() == 3,
        identify_frame().len() == 12,
{
    lemma_framed(Seq::<u8>::empty());
    lemma_framed(identify_cmd());
}

proof fn lemma_encrypted_frame_is_no_identify(key: Seq<u8>, inner: Seq<u8>)
    ensures
        encrypted_frame(key, inner) matches Ok(f) ==> f != identify_frame(),
{
    lemma_frame_sizes();
    if let Ok(f) = encrypted_frame(key, inner) {
        let cipher = encrypted(
            key,
            zero_padded(inner),
        );
        lemma_framed(cipher);
        assert(cipher.len() == whole_blocks(inner.len()));
    }
}

proof fn lemma_exchange_guarded(s: Session, inner: Seq<u8>, timeout: Duration)
    requires
        guarded(s.world.hist),
    ensures
        guarded(s.exchange(inner, timeout).1.world.hist),
{
    if let Ok(frame) = encrypted_frame(s.key, inner) {
        lemma_encrypted_frame_is_no_identify(s.key, inner);
        let w1 = s.world.after(Req::Purge);
        let w2 = w1.after(Req::Write(frame));
        lemma_other_request(s.world, Req::Purge);
        lemma_other_request(w1, Req::Write(frame));
        let run = Run::start(s.world).ask(Req::Purge).ask(Req::Write(frame));
        if run.outcome is Ok {
            lemma_other_request(w2, Req::Now);
            let w3 = w2.after(Req::Now);
            lemma_frame_read_guarded(w3, timeout);
            lemma_other_request(frame_read(w3, timeout).1, Req::Now);
        }
    }
}

proof fn lemma_close_channels_guarded(s: Session, channels: Seq<ProtocolId>)
    requires
        guarded(s.world.hist),
    ensures
        guarded(s.close_channels(channels).world.hist),
    decreases channels.len(),
{
    if channels.len() > 0 {
        let cmd = disconnect_cmd(channels[0]);
        lemma_exchange_guarded(s, cmd, millis(500));
        lemma_close_channels_guarded(
            s.transact_status(cmd, Cmd::Disconnect, millis(500)).1,
            channels.skip(1),
        );
    }
}

/// Whatever a session is made to do, an identify frame goes out only right
/// after a reset frame.
pub proof fn lemma_identify_only_after_reset(
    s: Session,
    inner: Seq<u8>,
    proto: ProtocolId,
    flags: u32,
    baud: u32,
    timeout: Duration,
)
    requires
        guarded(s.world.hist),
    ensures
        guarded(s.on_transact(inner, timeout).1.world.hist),
        guarded(s.on_connect(proto, flags, baud).1.world.hist),
        guarded(s.on_disconnect(proto).1.world.hist),
        guarded(s.on_poll(proto, timeout).1.world.hist),
        guarded(s.idle_poll().world.hist),
        guarded(s.teardown().world.hist),
{
    lemma_exchange_guarded(s, inner, timeout);
    let connect = connect_cmd(proto, flags, baud);
    lemma_exchange_guarded(s, connect, millis(2000));
    let s1 = s.transact_status(connect, Cmd::Connect, millis(2000)).1;
    lemma_handshake_guarded(s1.world);
    if let (Ok(key), w2) = handshake(s1.world) {
        lemma_exchange_guarded(Session { world: w2, key, ..s1 }, connect, millis(2000));
    }
    lemma_exchange_guarded(s, disconnect_cmd(proto), millis(1000));
    lemma_exchange_guarded(s, read_poll_cmd(proto), timeout);
    let idle = read_poll_cmd(s.idle_proto());
    lemma_exchange_guarded(s, idle, millis(500));
    lemma_other_request(s.world, Req::Now);
    lemma_other_request(s.transact(idle, millis(500)).1.world, Req::Now);
    let bare = Session { connected: Seq::empty(), ..s };
    lemma_close_channels_guarded(bare, s.connected);
    lemma_exchange_guarded(
        bare.close_channels(s.connected),
        session_close_cmd(),
        millis(500),
    );
}

/// Opening a session sends the identify frame only right after the reset
/// frame.
pub proof fn lemma_opening_guarded(w: World)
    requires
        guarded(w.hist),
    ensures
        guarded(opening(w).1.hist),
{
    let up = Req::Modem { dtr: true, rts: false };
    let down = Req::Modem { dtr: false, rts: false };
    let w1 = w.after(up);
    let w2 = w1.after(Req::Sleep(millis(15)));
    let w3 = w2.after(down);
    let w4 = w3.after(Req::Sleep(millis(1000)));
    let w5 = w4.after(Req::Purge);
    lemma_other_request(w, up);
    lemma_other_request(w1, Req::Sleep(millis(15)));
    lemma_other_request(w2, down);
    lemma_other_request(w3, Req::Sleep(millis(1000)));
    lemma_other_request(w4, Req::Purge);
    lemma_other_request(w5, Req::Latency);
    let run = reset_dance(w);
    assert(guarded(run.world.hist));
    lemma_handshake_guarded(run.world);
}

/// The frames that were put on the wire.
pub open spec fn writes_of(hist: Seq<Req>) -> Seq<Seq<u8>>
    decreases hist.len(),
{
    if hist.len() == 0 {
        Seq::empty()
    } else {
        let before = writes_of(hist.drop_last());
        match hist.last() {
            Req::Write(frame) => before.push(frame),
            _ => before,
        }
    }
}

/// A world in which no request fails.
pub open spec fn never_fails(w: World) -> bool {
    forall|h: Seq<Req>| (#[trigger] (w.react)(h)).fail is None
}

pub(crate) proof fn lemma_one_more(w: World, req: Req)
    ensures
        writes_of(w.after(req).hist) == match req {
            Req::Write(frame) => writes_of(w.hist).push(frame),
            _ => writes_of(w.hist),
        },
{
    assert(w.after(req).hist.drop_last() =~= w.hist);
}

pub(crate) proof fn lemma_reading_writes_nothing(w: World, need: nat, deadline: Instant, timeout: Duration)
    ensures
        writes_of(exact_read(w, need, deadline, timeout).1.hist) == writes_of(w.hist),
        exact_read(w, need, deadline, timeout).1.react == w.react,
    decreases need,
{
    if need > 0 {
        let (now, w1) = w.clock();
        let remaining = now.spec_until(deadline);
        let req = Req::Read { max: need, timeout: remaining };
        lemma_one_more(w, Req::Now);
        lemma_one_more(w1, req);
        if let Ok(piece) = w1.received(need, remaining) {
            if 0 < piece.len() <= need {
                lemma_reading_writes_nothing(
                    w1.after(req),
                    (need - piece.len()) as nat,
                    deadline,
                    timeout,
                );
            }
        }
    }
}

pub(crate) proof fn lemma_frame_read_writes_nothing(w: World, timeout: Duration)
    ensures
        writes_of(frame_read(w, timeout).1.hist) == writes_of(w.hist),
        frame_read(w, timeout).1.react == w.react,
{
    let (now, w0) = w.clock();
    lemma_one_more(w, Req::Now);
    lemma_reading_writes_nothing(w0, 2, now.spec_plus(timeout), timeout);
    if let (Ok(hdr), w1) = timed_read(w, 2, timeout) {
        let len = from_le16(hdr);
        if 3 <= len {
            let longer = body_timeout(timeout, len);
            let (then_at, w2) = w1.clock();
            lemma_one_more(w1, Req::Now);
            lemma_reading_writes_nothing(
                w2,
                (len - 2) as nat,
                then_at.spec_plus(longer),
                longer,
            );
        }
    }
}

/// An exchange puts exactly one frame on the wire: the encrypted command.
pub proof fn lemma_exchange_writes_once(s: Session, inner: Seq<u8>, timeout: Duration)
    requires
        never_fails(s.world),
        encrypted_frame(s.key, inner) is Ok,
    ensures
        ({
            let s1 = s.exchange(inner, timeout).1;
            &&& writes_of(s1.world.hist) == writes_of(s.world.hist).push(
                encrypted_frame(s.key, inner)->Ok_0,
            )
            &&& s1.world.react == s.world.react
            &&& s1.key == s.key
        }),
{
    let frame = encrypted_frame(s.key, inner)->Ok_0;
    let w1 = s.world.after(Req::Purge);
    let w2 = w1.after(Req::Write(frame));
    let w3 = w2.after(Req::Now);
    lemma_one_more(s.world, Req::Purge);
    lemma_one_more(w1, Req::Write(frame));
    lemma_one_more(w2, Req::Now);
    lemma_frame_read_writes_nothing(w3, timeout);
    lemma_one_more(frame_read(w3, timeout).1, Req::Now);
    assert(s.world.reply(Req::Purge).fail is None);
    assert(w1.reply(Req::Write(frame)).fail is None);
}

/// The frames that disconnect each of `channels`.
pub open spec fn disconnect_frames(key: Seq<u8>, channels: Seq<ProtocolId>) -> Seq<Seq<u8>> {
    channels.map_values(|p: ProtocolId| encrypted_frame(key, disconnect_cmd(p))->Ok_0)
}

proof fn lemma_close_channels_writes(s: Session, channels: Seq<ProtocolId>)
    requires
        never_fails(s.world),
    ensures
        ({
            let s1 = s.close_channels(channels);
            &&& writes_of(s1.world.hist) == writes_of(s.world.hist) + disconnect_frames(
                s.key,
                channels,
            )
            &&& s1.world.react == s.world.react
            &&& s1.key == s.key
        }),
    decreases channels.len(),
{
    if channels.len() == 0 {
        assert(disconnect_frames(s.key, channels) =~= Seq::empty());
        assert(writes_of(s.world.hist) + Seq::<Seq<u8>>::empty() =~= writes_of(s.world.hist));
    } else {
        let cmd = disconnect_cmd(channels[0]);
        lemma_exchange_writes_once(s, cmd, millis(500));
        let s1 = s.transact_status(cmd, Cmd::Disconnect, millis(500)).1;
        lemma_close_channels_writes(s1, channels.skip(1));
        assert(disconnect_frames(s.key, channels) =~= seq![encrypted_frame(s.key, cmd)->Ok_0]
            + disconnect_frames(s.key, channels.skip(1)));
        assert(writes_of(s.close_channels(channels).world.hist) =~= writes_of(s.world.hist)
            + disconnect_frames(s.key, channels));
    }
}

/// Closing a session disconnects every connected channel, in order, and only
/// then closes the encrypted session; whatever the adapter answers.
pub proof fn lemma_teardown_order(s: Session)
    requires
        never_fails(s.world),
    ensures
        writes_of(s.teardown().world.hist) == writes_of(s.world.hist) + disconnect_frames(
            s.key,
            s.connected,
        ).push(encrypted_frame(s.key, session_close_cmd())->Ok_0),
{
    let bare = Session { connected: Seq::empty(), ..s };
    lemma_close_channels_writes(bare, s.connected);
    let s1 = bare.close_channels(s.connected);
    lemma_exchange_writes_once(s1, session_close_cmd(), millis(500));
    assert(writes_of(s.teardown().world.hist) =~= writes_of(s.world.hist) + disconnect_frames(
        s.key,
        s.connected,
    ).push(encrypted_frame(s.key, session_close_cmd())->Ok_0));
}

/// Whether a read from here on hears nothing: every poll until the deadline is
/// answered, and none brings a data message.
pub open spec fn hears_nothing(
    s: Session,
    chan: ChannelState,
    deadline: Instant,
    rounds: nat,
) -> bool
    decreases rounds,
{
    let (now, w1) = s.world.clock();
    let remaining = now.spec_until(deadline);
    if rounds == 0 || remaining.nanos == 0 {
        true
    } else {
        let (polled, s2) = s.in_world(w1).on_poll(chan.proto, remaining.shorter(millis(500)));
        &&& polled matches Ok(m) && (m is None || m->0.indication())
        &&& hears_nothing(
            s2.in_world(s2.world.slept(millis(2))),
            chan,
            deadline,
            (rounds - 1) as nat,
        )
    }
}

/// A read that hears nothing says why: on a channel without a filter, that none
/// is installed; otherwise, that the time is up.
pub proof fn lemma_silence_named(
    s: Session,
    chan: ChannelState,
    deadline: Instant,
    timeout: Duration,
    rounds: nat,
)
    requires
        hears_nothing(s, chan, deadline, rounds),
    ensures
        s.await_data(chan, deadline, timeout, rounds).0 == Err::<RxMsgView, Error>(
            if chan.nfilters == 0 {
                Error::NoFilterInstalled { proto: chan.proto }
            } else {
                Error::Timeout(timeout)
            },
        ),
    decreases rounds,
{
    let (now, w1) = s.world.clock();
    let remaining = now.spec_until(deadline);
    if rounds > 0 && remaining.nanos != 0 {
        let s2 = s.in_world(w1).on_poll(chan.proto, remaining.shorter(millis(500))).1;
        lemma_silence_named(
            s2.in_world(s2.world.slept(millis(2))),
            chan,
            deadline,
            timeout,
            (rounds - 1) as nat,
        );
    }
}

/// A filter whose fields all have the width its protocol takes makes a command.
proof fn lemma_filter_fits(proto: ProtocolId, filter_id: u32, f: FilterFields)
    requires
        f.mask.len() == f.idlen,
        f.pattern.len() == f.idlen,
        f.flow is Some ==> f.flow->0.len() == f.idlen,
        f.idlen == 4 || f.idlen == 5 || (f.idlen == 1 && !proto.can_framed()),
    ensures
        filter_cmd(proto, filter_id, f) is Ok,
{
}

/// The filter that a typed channel can be given always has the identifier width
/// its protocol needs: the command is never refused for its shape.
pub proof fn lemma_typed_filters_fit(
    filter_id: u32,
    k: KLineFilter,
    c: CanFilter,
    f: FlowControlFilter,
)
    ensures
        filter_cmd(Iso9141::spec_id(), filter_id, k.fields()) is Ok,
        filter_cmd(Iso14230::spec_id(), filter_id, k.fields()) is Ok,
        filter_cmd(Can::spec_id(), filter_id, c.fields()) is Ok,
        filter_cmd(Iso15765::spec_id(), filter_id, f.fields()) is Ok,
{
    lemma_can_id_round_trip(c.pattern);
    lemma_can_id_round_trip(f.rx);
    lemma_can_id_round_trip(f.tx);
    lemma_filter_fits(Iso9141::spec_id(), filter_id, k.fields());
    lemma_filter_fits(Iso14230::spec_id(), filter_id, k.fields());
    lemma_filter_fits(Can::spec_id(), filter_id, c.fields());
    lemma_filter_fits(Iso15765::spec_id(), filter_id, f.fields());
}

/// Whatever is done with its filters, a channel stays on the protocol it was
/// connected for.
pub proof fn lemma_protocol_kept(c: TypedState, s: Session, f: FilterFields)
    ensures
        c.set_filter(s, f).1.raw.proto == c.raw.proto,
        c.clear_filter(s).1.raw.proto == c.raw.proto,
{
}

/// A typed channel never has its filter refused for its shape: what it is told
/// of a new filter, once the previous one is retired, is what the adapter says.
pub proof fn lemma_typed_filter_reaches_adapter(
    c: TypedState,
    s: Session,
    k: KLineFilter,
    p: CanFilter,
    f: FlowControlFilter,
)
    ensures
        c.raw.proto == Iso9141::spec_id() || c.raw.proto == Iso14230::spec_id()
            ==> reaches_adapter(c, s, k.fields()),
        c.raw.proto == Can::spec_id() ==> reaches_adapter(c, s, p.fields()),
        c.raw.proto == Iso15765::spec_id() ==> reaches_adapter(c, s, f.fields()),
{
    let (c1, _) = c.retire(s);
    lemma_typed_filters_fit(c1.next_id, k, p, f);
}

/// Whether setting a filter ends as the adapter answers the command for it.
pub open spec fn reaches_adapter(c: TypedState, s: Session, f: FilterFields) -> bool {
    let (c1, s1) = c.retire(s);
    &&& filter_cmd(c1.raw.proto, c1.next_id, f) matches Ok(cmd)
    &&& c.set_filter(s, f).0 == s1.on_status(cmd, Cmd::StartMsgFilter, millis(2000)).0
}

/// The command that installs a filter.
pub open spec fn filter_cmd(proto: ProtocolId, filter_id: u32, f: FilterFields) -> Result<
    Seq<u8>,
    CodecError,
> {
    start_filter_cmd(proto, filter_id, f.ftype.id(), f.mask, f.pattern, f.flow, f.idlen)
}

/// A filter replaces the previous one: if the adapter takes both the retiring
/// of the old and the new, the channel has exactly the new one.
pub proof fn lemma_filter_replaced(c: TypedState, s: Session, f: FilterFields)
    requires
        c.raw.nfilters == if c.current is Some {
            1int
        } else {
            0int
        },
        c.current matches Some(old) ==> s.stop_filter(c.raw.proto, old).0 is Ok,
        c.set_filter(s, f).0 is Ok,
    ensures
        c.set_filter(s, f).1.current == Some(c.next_id),
        c.set_filter(s, f).1.raw.nfilters == 1,
        c.set_filter(s, f).1.next_id != c.next_id,
{
}

/// Whether the adapter passes an identifier: it turns a mask and a pattern into
/// a range.
pub open spec fn passes(mask: u32, pattern: u32, id: u32) -> bool {
    pattern & mask <= id <= pattern | !mask
}

/// An exact filter passes its identifier and nothing else.
pub proof fn lemma_exact_filter(c: CanFilter, f: FlowControlFilter, id: u32)
    requires
        c.mask == 0xffff_ffff,
        f.mask == 0xffff_ffff,
    ensures
        passes(c.mask, c.pattern.number(), id) <==> id == c.pattern.number(),
        passes(f.mask, f.rx.number(), id) <==> id == f.rx.number(),
{
    let p = c.pattern.number();
    let q = f.rx.number();
    assert((p & 0xffff_ffff <= id && id <= p | !0xffff_ffffu32) <==> id == p) by (bit_vector);
    assert((q & 0xffff_ffff <= id && id <= q | !0xffff_ffffu32) <==> id == q) by (bit_vector);
}

pub(crate) proof fn lemma_listed_with(channels: Seq<ProtocolId>, p: ProtocolId, q: ProtocolId)
    ensures
        with_channel(channels, p).contains(q) <==> channels.contains(q) || q == p,
    decreases channels.len(),
{
    let out = with_channel(channels, p);
    if channels.len() == 0 {
        assert(out[0] == p);
    } else if channels[0] == p {
        assert(channels.contains(p));
    } else if p.id() < channels[0].id() {
        assert(out =~= seq![p] + channels);
        assert(out[0] == p);
        assert(forall|i: int| 0 <= i < channels.len() ==> out[i + 1] == channels[i]);
        assert(forall|i: int| 1 <= i < out.len() ==> out[i] == channels[i - 1]);
    } else {
        let rest = channels.skip(1);
        let more = with_channel(rest, p);
        lemma_listed_with(rest, p, q);
        lemma_headed(channels, rest, q);
        lemma_headed(out, more, q);
    }
}

pub(crate) proof fn lemma_listed_without(channels: Seq<ProtocolId>, p: ProtocolId, q: ProtocolId)
    ensures
        without_channel(channels, p).contains(q) <==> channels.contains(q) && q != p,
    decreases channels.len(),
{
    let out = without_channel(channels, p);
    if channels.len() > 0 {
        let rest = channels.skip(1);
        lemma_listed_without(rest, p, q);
        lemma_headed(channels, rest, q);
        if channels[0] != p {
            lemma_headed(out, without_channel(rest, p), q);
        }
    }
}

/// What a list with one more element in front contains.
proof fn lemma_headed(all: Seq<ProtocolId>, rest: Seq<ProtocolId>, q: ProtocolId)
    requires
        all.len() == rest.len() + 1,
        all =~= seq![all[0]] + rest,
    ensures
        all.contains(q) <==> all[0] == q || rest.contains(q),
{
    if rest.contains(q) {
        let i = choose|i: int| 0 <= i < rest.len() && rest[i] == q;
        assert(all[i + 1] == q);
    }
    if all.contains(q) && all[0] != q {
        let i = choose|i: int| 0 <= i < all.len() && all[i] == q;
        assert(rest[i - 1] == q);
    }
}

/// The session knows which channels are connected: a Connect that succeeds adds
/// its protocol and no other, one that fails adds none, and a Disconnect takes
/// its protocol off and no other, whether or not the adapter agreed.
pub proof fn lemma_connected_known(
    s: Session,
    proto: ProtocolId,
    flags: u32,
    baud: u32,
    other: ProtocolId,
)
    requires
        !s.wedged,
    ensures
        ({
            let (r, after) = s.on_connect(proto, flags, baud);
            after.connected.contains(other) <==> s.connected.contains(other) || (r is Ok && other
                == proto)
        }),
        s.on_disconnect(proto).1.connected.contains(other) <==> s.connected.contains(other)
            && other != proto,
{
    lemma_listed_with(s.connected, proto, other);
    lemma_listed_without(s.connected, proto, other);
}

} // verus!
