//! What keeps a session up and ends it: waiting for messages, the idle poll, the
//! verdict on a silent adapter, closing; and the arithmetic of time under it.

use vstd::prelude::*;

use super::channels::{asked, ends_as, message_from};
use super::codec::{lemma_plain_commands, lemma_read_bytes};
use super::exchange::ms;
use super::wire::{channel_word, number};
use crate::error::{seen, Error};
use crate::session::actor::{
    check_status, read_message, seen_msg, with_channel, without_channel, Session,
};
use crate::session::channel::{Channel, TypedState};
use crate::session::device::{parse_version, until_zero, Device, DeviceConfig};
use crate::session::protocol::{ChannelConfig, FilterSpec, Protocol};
use crate::session::raw::{ChannelState, RawChannel};
use crate::time::{Duration, Instant};
use crate::transport::{Req, Transport};
use crate::types::{Cmd, ProtocolId, RxMsg, RxMsgView};

verus! {

/// Spans and instants add up and are told apart by their nanoseconds; a sum that
/// does not fit is the most that does.
pub proof fn lemma_time(a: Duration, b: Duration, t: Instant, u: Instant, n: u64, z: bool, r: Duration, v: Instant)
    ensures
        call_ensures(Duration::from_millis, (n,), r) ==> r.nanos == n * 1_000_000,
        call_ensures(Duration::from_secs, (n,), r) ==> r.nanos == n * 1_000_000_000,
        call_ensures(Duration::is_zero, (a,), z) ==> z == (a.nanos == 0),
        call_ensures(Duration::min, (a, b), r) ==> (r == a || r == b) && r.nanos <= a.nanos
            && r.nanos <= b.nanos,
        call_ensures(Duration::plus, (a, b), r) && a.nanos + b.nanos <= u128::MAX ==> r.nanos
            == a.nanos + b.nanos,
        call_ensures(Duration::plus, (a, b), r) && a.nanos + b.nanos > u128::MAX ==> r.nanos
            == u128::MAX,
        call_ensures(Instant::plus, (t, a), v) && t.nanos + a.nanos <= u128::MAX ==> v.nanos
            == t.nanos + a.nanos,
        call_ensures(Instant::plus, (t, a), v) && t.nanos + a.nanos > u128::MAX ==> v.nanos
            == u128::MAX,
        call_ensures(Instant::until, (t, u), r) && u.nanos >= t.nanos ==> t.nanos + r.nanos
            == u.nanos,
        call_ensures(Instant::until, (t, u), r) && u.nanos < t.nanos ==> r.nanos == 0,
        t.nanos + a.nanos <= u128::MAX ==> t.spec_plus(a).nanos == t.nanos + a.nanos,
        t.nanos + a.nanos > u128::MAX ==> t.spec_plus(a).nanos == u128::MAX,
        u.nanos >= t.nanos ==> t.nanos + t.spec_until(u).nanos == u.nanos,
        u.nanos < t.nanos ==> t.spec_until(u).nanos == 0,
{
}

/// A read waits until the time it was given is up, by the clock when it began;
/// every round it looks at the clock, polls for half a second or what is left,
/// and hands out the first message that is data. One that is no data, or none,
/// is followed by a sleep of 2 ms.
pub proof fn lemma_read_round(
    s: Session,
    chan: ChannelState,
    deadline: Instant,
    timeout: Duration,
    rounds: nat,
)
    ensures
        ({
            let now = s.world.reply(Req::Now).at;
            let s1 = s.in_world(s.world.after(Req::Now));
            let end = if now.nanos + timeout.nanos <= u128::MAX {
                (now.nanos + timeout.nanos) as u128
            } else {
                u128::MAX
            };
            s.read(chan, timeout) == s1.await_data(
                chan,
                Instant { nanos: end },
                timeout,
                u64::MAX as nat,
            )
        }),
        rounds > 0 ==> {
            let r = s.await_data(chan, deadline, timeout, rounds);
            let now = s.world.reply(Req::Now).at;
            let s1 = s.in_world(s.world.after(Req::Now));
            if now.nanos >= deadline.nanos {
                &&& r.1 == s1
                &&& chan.nfilters == 0 ==> r.0 == Err::<RxMsgView, Error>(
                    Error::NoFilterInstalled { proto: chan.proto },
                )
                &&& chan.nfilters > 0 ==> r.0 == Err::<RxMsgView, Error>(Error::Timeout(timeout))
            } else {
                let rest = deadline.nanos - now.nanos;
                let budget = if rest <= 500_000_000 {
                    rest
                } else {
                    500_000_000
                };
                match s1.on_poll(chan.proto, Duration { nanos: budget as u128 }) {
                    (Err(e), s2) => r == (Err::<RxMsgView, Error>(e), s2),
                    (Ok(m), s2) => if m is Some && m->0.status.word & 2 != 2 {
                        r == (Ok::<RxMsgView, Error>(m->0), s2)
                    } else {
                        r == s2.in_world(
                            s2.world.after(Req::Sleep(Duration { nanos: 2_000_000 })),
                        ).await_data(chan, deadline, timeout, (rounds - 1) as nat)
                    },
                }
            }
        },
{
}

/// A message is handed out only if it is data, whatever came before it.
pub proof fn lemma_read_gives_data(s: Session, chan: ChannelState, timeout: Duration)
    ensures
        s.read(chan, timeout).0 matches Ok(m) ==> m.status.word & 2 != 2,
{
    let (now, w1) = s.world.clock();
    lemma_data_only(s.in_world(w1), chan, now.spec_plus(timeout), timeout, u64::MAX as nat);
}

proof fn lemma_data_only(
    s: Session,
    chan: ChannelState,
    deadline: Instant,
    timeout: Duration,
    rounds: nat,
)
    ensures
        s.await_data(chan, deadline, timeout, rounds).0 matches Ok(m) ==> m.status.word & 2 != 2,
    decreases rounds,
{
    let (now, w1) = s.world.clock();
    let remaining = now.spec_until(deadline);
    if rounds > 0 && remaining.nanos > 0 {
        let (polled, s2) = s.in_world(w1).on_poll(chan.proto, remaining.shorter(ms(500)));
        let s3 = s2.in_world(s2.world.slept(ms(2)));
        lemma_data_only(s3, chan, deadline, timeout, (rounds - 1) as nat);
    }
}

/// An idle poll asks the connected protocol of the least number, or ISO15765 if
/// none is connected, for a message, for half a second, and puts what comes
/// behind what that protocol has waiting. A wedged adapter is not asked. Where no
/// answer comes the clock is read, so that the next poll is an interval away.
pub proof fn lemma_idle_poll(s: Session)
    requires
        s.valid(),
    ensures
        s.wedged ==> s.idle_poll() == (Session {
            world: s.world.after(Req::Now),
            last_wire: s.world.reply(Req::Now).at,
            ..s
        }),
        !s.wedged ==> exists|p: ProtocolId|
            {
                &&& #[trigger] idles_on(s, p)
                &&& ({
                    let (answer, after) = s.transact(
                        seq![5u8, 0, 0x09] + channel_word(p) + seq![0u8],
                        ms(500),
                    );
                    let at = number(p) - 1;
                    match answer {
                        Err(_) => s.idle_poll() == (Session {
                            world: after.world.after(Req::Now),
                            last_wire: after.world.reply(Req::Now).at,
                            ..after
                        }),
                        Ok(_) => exists|m: Result<Option<RxMsgView>, Error>|
                            {
                                &&& #[trigger] message_from(m, answer)
                                &&& s.idle_poll() == (Session {
                                    queues: if m is Ok && m->Ok_0 is Some {
                                        after.queues.update(
                                            at,
                                            after.queues[at].push(m->Ok_0->0),
                                        )
                                    } else {
                                        after.queues
                                    },
                                    ..after
                                })
                            },
                    }
                })
            },
{
    if !s.wedged {
        let p = s.idle_proto();
        if s.connected.len() > 0 {
            assert forall|q: ProtocolId| #[trigger] s.connected.contains(q) implies number(p)
                <= number(q) by {
                let i = s.connected.index_of(q);
                assert(s.connected[i] == q);
                assert(i == 0 || s.connected[0].id() < s.connected[i].id());
            }
        }
        assert(idles_on(s, p)) by {
            if s.connected.len() > 0 {
                assert(s.connected.contains(s.connected[0]));
            }
        }
        lemma_plain_commands(p, 0, 0, 0, 0);
        let (answer, after) = s.transact(crate::codec::inner::read_poll_cmd(p), ms(500));
        if let Ok(reply) = answer {
            lemma_read_bytes(reply);
            let m = crate::session::actor::message_in(reply);
            assert(message_from(m, answer));
            assert(after.queues.update(number(p) - 1, after.queues[number(p) - 1])
                =~= after.queues);
        }
    }
}

/// The protocol that an idle session polls.
pub open spec fn idles_on(s: Session, p: ProtocolId) -> bool {
    if s.connected.len() == 0 {
        number(p) == 6
    } else {
        &&& s.connected.contains(p)
        &&& forall|q: ProtocolId| #[trigger] s.connected.contains(q) ==> number(p) <= number(q)
    }
}

/// Closing asks the adapter to disconnect each connected protocol in turn and
/// then to close the session, half a second each, whatever it answers.
pub proof fn lemma_close_asks(s: Session, channels: Seq<ProtocolId>)
    ensures
        s.teardown() == (Session { connected: Seq::empty(), ..s }).close_channels(
            s.connected,
        ).transact(seq![1u8, 0, 0x02, 0, 0, 0, 0, 0], ms(500)).1,
        channels.len() > 0 ==> s.close_channels(channels) == s.transact(
            seq![5u8, 0, 0x08] + channel_word(channels[0]) + seq![0u8],
            ms(500),
        ).1.close_channels(channels.skip(1)),
        channels.len() == 0 ==> s.close_channels(channels) == s,
{
    lemma_plain_commands(ProtocolId::Can, 0, 0, 0, 0);
    if channels.len() > 0 {
        lemma_plain_commands(channels[0], 0, 0, 0, 0);
    }
}

/// Silence counts up to the verdict, at three in a row, and no further than a
/// byte holds; the verdict stays.
pub proof fn lemma_silence_verdict(s: Session)
    ensures
        s.silent < 255 ==> s.note_silence().silent == s.silent + 1,
        s.silent == 255 ==> s.note_silence().silent == 255,
        s.note_silence().wedged == (s.wedged || s.silent >= 2),
        s.note_silence() == (Session {
            silent: s.note_silence().silent,
            wedged: s.note_silence().wedged,
            ..s
        }),
{
}

/// The session is told which protocols are connected: after a connect all that
/// were and the new one, in order of their numbers; after a disconnect all that
/// were but that one.
pub proof fn lemma_connected_lists(channels: Seq<ProtocolId>, p: ProtocolId, q: ProtocolId)
    requires
        crate::session::actor::in_order(channels),
    ensures
        with_channel(channels, p).contains(q) <==> channels.contains(q) || q == p,
        without_channel(channels, p).contains(q) <==> channels.contains(q) && q != p,
{
    crate::session::laws::lemma_listed_with(channels, p, q);
    crate::session::laws::lemma_listed_without(channels, p, q);
}

/// The firmware is asked for its identity by command 3; the answer opens with its
/// length and 3, and the identity is the text up to the first zero.
pub proof fn lemma_version_asked<T: Transport>(r: Result<String, Error>, resp: &[u8])
    ensures
        forall|dev: &mut Device<T>| #[trigger]
            call_ensures(Device::<T>::firmware_version, (dev,), r) ==> {
                let (answer, after) = (*dev)@.on_transact(seq![1u8, 0, 0x03], ms(1000));
                &&& (*final(dev))@ == after
                &&& match answer {
                    Err(e) => seen(r) == Err::<Seq<char>, Error>(e),
                    Ok(reply) => if reply.len() < 3 || reply[2] != 3 {
                        r is Err && r->Err_0 is Codec
                    } else {
                        seen(r) == Ok::<Seq<char>, Error>(
                            crate::session::device::utf8_lossy(until_zero(reply.skip(3))),
                        )
                    },
                }
            },
        call_ensures(parse_version, (resp,), r) ==> {
            &&& r is Err <==> resp@.len() < 3 || resp@[2] != 3
            &&& r is Ok && (forall|i: int| 0 <= i < resp@.len() ==> resp@[i] < 128) ==> {
                let text = r->Ok_0@;
                &&& text.len() <= resp@.len() - 3
                &&& forall|i: int|
                    0 <= i < text.len() ==> #[trigger] text[i] == resp@[3 + i] as char && resp@[3
                        + i] != 0
                &&& text.len() < resp@.len() - 3 ==> resp@[(3 + text.len()) as int] == 0
            }
        },
{
    lemma_plain_commands(ProtocolId::Can, 0, 0, 0, 0);
    if resp@.len() >= 3 {
        lemma_until_zero(resp@.skip(3));
    }
}

/// What stands before the first zero.
pub proof fn lemma_until_zero(s: Seq<u8>)
    ensures
        until_zero(s).len() <= s.len(),
        until_zero(s) == s.take(until_zero(s).len() as int),
        forall|i: int| 0 <= i < until_zero(s).len() ==> #[trigger] s[i] != 0,
        until_zero(s).len() < s.len() ==> s[until_zero(s).len() as int] == 0,
    decreases s.len(),
{
    if s.len() > 0 && s[0] != 0 {
        lemma_until_zero(s.skip(1));
        let rest = until_zero(s.skip(1));
        assert(until_zero(s) =~= s.take((rest.len() + 1) as int));
        assert forall|i: int| 0 <= i < until_zero(s).len() implies #[trigger] s[i] != 0 by {
            if i > 0 {
                assert(s.skip(1)[i - 1] == s[i]);
            }
        }
    } else {
        assert(until_zero(s) =~= s.take(0));
    }
}

/// A device is opened by the reset and the handshake, gives out the key of that
/// handshake, polls when its interval since the wire was last used is over, and
/// hands the port back closed.
pub proof fn lemma_device_life<T: Transport>(
    io: T,
    cfg: DeviceConfig,
    made: Result<Device<T>, Error>,
    dev: Device<T>,
    key: [u8; 8],
    wait: Option<Duration>,
)
    ensures
        call_ensures(Device::<T>::open_transport, (io, cfg), made) ==> {
            let (r, w) = crate::session::actor::opening(io.world());
            match r {
                Err(e) => made == Err::<Device<T>, Error>(e),
                Ok(k) => {
                    &&& made is Ok
                    &&& made->Ok_0@.key == k && made->Ok_0.setup().key == k
                    &&& made->Ok_0.setup().interval == cfg.keepalive
                    &&& made->Ok_0@.world == w.after(Req::Now)
                    &&& made->Ok_0@.last_wire == w.reply(Req::Now).at
                    &&& made->Ok_0@.connected.len() == 0
                    &&& made->Ok_0@.silent == 0 && !made->Ok_0@.wedged
                    &&& made->Ok_0@.queues.len() == 6
                    &&& forall|i: int|
                        0 <= i < 6 ==> (#[trigger] made->Ok_0@.queues[i]).len() == 0
                },
            }
        },
        call_ensures(Device::<T>::close, (dev,), io) ==> io.world() == dev@.teardown().world,
        call_ensures(Device::<T>::des_key, (&dev,), key) ==> key@ == dev.setup().key,
        forall|d: &mut Device<T>| #[trigger]
            call_ensures(Device::<T>::idle_wait, (d,), wait) ==> match (*d).setup().interval {
                None => wait is None && (*final(d))@ == (*d)@,
                Some(interval) => {
                    let now = (*d)@.world.reply(Req::Now).at.nanos;
                    let due = (*d)@.last_wire.nanos + interval.nanos;
                    &&& (*final(d))@ == (*d)@.in_world((*d)@.world.after(Req::Now))
                    &&& wait is Some
                    &&& due <= u128::MAX && due > now ==> wait->0.nanos == due - now
                    &&& due <= now ==> wait->0.nanos == 0
                },
            },
        forall|d: &mut Device<T>| #[trigger]
            call_ensures(Device::<T>::idle_poll, (d,), ()) ==> (*final(d))@ == (*d)@.idle_poll(),
{
}

/// Every call of a channel of any protocol is what is said of the session.
pub proof fn lemma_channel_calls<P: Protocol, T: Transport>(
    f: P::Filter,
    cfg: P::Config,
    timeout: Duration,
    p: ProtocolId,
    flags: u32,
    baud: u32,
    c: RawChannel,
    ch: Channel<P>,
    r: Result<(), Error>,
    m: Result<RxMsg, Error>,
    polled: Result<Option<RxMsg>, Error>,
    opened: Result<Channel<P>, Error>,
    raw: Result<RawChannel, Error>,
)
    ensures
        forall|c: &mut RawChannel, dev: &mut Device<T>| #[trigger]
            call_ensures(RawChannel::read::<T>, (c, dev, timeout), m) ==> (
                seen(m),
                (*final(dev))@,
            ) == (*dev)@.read((*c)@, timeout) && (*final(c))@ == (*c)@,
        forall|c: &mut RawChannel, dev: &mut Device<T>| #[trigger]
            call_ensures(RawChannel::poll::<T>, (c, dev, timeout), polled) ==> (
                seen_msg(polled),
                (*final(dev))@,
            ) == (*dev)@.on_poll((*c)@.proto, timeout) && (*final(c))@ == (*c)@,
        forall|dev: &mut Device<T>| #[trigger]
            call_ensures(RawChannel::connect::<T>, (dev, p, flags, baud), raw) ==> {
                let (owed, s1) = (*dev)@.on_connect(p, flags, baud);
                &&& (*final(dev))@ == s1
                &&& raw is Ok <==> owed is Ok
                &&& raw matches Ok(c) ==> c@.proto == p && c@.nfilters == 0
                &&& raw matches Err(e) ==> owed == Err::<(), Error>(e)
            },
        forall|dev: &mut Device<T>| #[trigger]
            call_ensures(RawChannel::release::<T>, (c, dev), ()) ==> (*final(dev))@
                == (*dev)@.on_disconnect(c@.proto).1,
        forall|c: &mut Channel<P>, dev: &mut Device<T>| #[trigger]
            call_ensures(Channel::<P>::set_filter::<T>, (c, dev, f), r) ==> (
                r,
                (*final(c))@,
                (*final(dev))@,
            ) == (*c)@.set_filter((*dev)@, f.fields()),
        forall|c: &mut Channel<P>, dev: &mut Device<T>| #[trigger]
            call_ensures(Channel::<P>::clear_filter::<T>, (c, dev), r) ==> (
                r,
                (*final(c))@,
                (*final(dev))@,
            ) == (*c)@.clear_filter((*dev)@),
        forall|c: &mut Channel<P>, dev: &mut Device<T>| #[trigger]
            call_ensures(Channel::<P>::read::<T>, (c, dev, timeout), m) ==> (
                seen(m),
                (*final(dev))@,
            ) == (*dev)@.read((*c)@.raw, timeout) && (*final(c))@ == (*c)@,
        forall|c: &mut Channel<P>, dev: &mut Device<T>| #[trigger]
            call_ensures(Channel::<P>::poll::<T>, (c, dev, timeout), polled) ==> (
                seen_msg(polled),
                (*final(dev))@,
            ) == (*dev)@.on_poll((*c)@.raw.proto, timeout) && (*final(c))@ == (*c)@,
        forall|dev: &mut Device<T>| #[trigger]
            call_ensures(Channel::<P>::disconnect::<T>, (ch, dev), r) ==> r is Ok
                && (*final(dev))@ == (*dev)@.on_disconnect(ch@.raw.proto).1,
        call_ensures(Channel::<P>::new, (c,), ch) ==> ch@.raw == c@ && ch@.current is None
            && ch@.next_id == 0x000e_7a00,
        forall|dev: &mut Device<T>| #[trigger]
            call_ensures(Device::<T>::connect::<P>, (dev, cfg), opened) ==> {
                let (owed, s1) = (*dev)@.on_connect(
                    P::spec_id(),
                    cfg.spec_wire().0,
                    cfg.spec_wire().1,
                );
                &&& (*final(dev))@ == s1
                &&& opened is Ok <==> owed is Ok
                &&& opened matches Ok(c) ==> {
                    &&& c@.raw.proto == P::spec_id() && c@.raw.nfilters == 0
                    &&& c@.current is None && c@.next_id == 0x000e_7a00
                }
                &&& opened matches Err(e) ==> owed == Err::<(), Error>(e)
            },
{
}

/// A filter that is taken off, or replaced, is taken off by the number it was put
/// on with; without one nothing is asked. The numbers count up.
pub proof fn lemma_filter_numbers(c: TypedState, s: Session, f: crate::session::protocol::FilterFields)
    ensures
        c.current is None ==> c.clear_filter(s) == (Ok::<(), Error>(()), c, s),
        c.current matches Some(id) ==> {
            let (r, s1) = s.stop_filter(c.raw.proto, id);
            &&& c.clear_filter(s).0 == r && c.clear_filter(s).2 == s1
            &&& c.clear_filter(s).1.current is None
            &&& c.clear_filter(s).1.next_id == c.next_id
            &&& r is Err ==> c.clear_filter(s).1.raw == c.raw
            &&& r is Ok && c.raw.nfilters > 0 ==> c.clear_filter(s).1.raw == (ChannelState {
                nfilters: (c.raw.nfilters - 1) as usize,
                ..c.raw
            })
        },
        ({
            let (r, c1, s1) = c.set_filter(s, f);
            let before = if c.current is Some {
                s.stop_filter(c.raw.proto, c.current->0).1
            } else {
                s
            };
            &&& (r, s1) == before.start_filter(
                c.raw.proto,
                c.next_id,
                f.ftype.id(),
                f.mask,
                f.pattern,
                f.flow,
                f.idlen,
            )
            &&& c.next_id < u32::MAX ==> c1.next_id == c.next_id + 1
            &&& c.next_id == u32::MAX ==> c1.next_id == 0
            &&& c1.current == if r is Ok {
                Some(c.next_id)
            } else {
                None::<u32>
            }
        }),
{
}

/// The answers that the session reads, as the calls that read them give them out.
pub proof fn lemma_answers_read<T: Transport>(
    resp: &[u8],
    cmd: Cmd,
    r: Result<(), Error>,
    m: Result<Option<RxMsg>, Error>,
)
    ensures
        call_ensures(check_status, (resp, cmd), r) ==> ends_as(
            r,
            Ok(resp@),
            super::wire::opcode(cmd),
        ),
        call_ensures(read_message, (resp,), m) ==> message_from(seen_msg(m), Ok(resp@)),
{
    super::codec::lemma_verdict_bytes(resp@, cmd);
    lemma_read_bytes(resp@);
}

} // verus!
