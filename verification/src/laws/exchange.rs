//! What an exchange with the adapter puts on the wire, and what it makes of what
//! comes back.

use vstd::prelude::*;

use super::wire::{
    filled_up, lemma_opened, lemma_sealed, lemma_unsealed, low_first, out_of_cipher, parity, sealed,
};
use crate::bytes::from_le16;
use crate::codec::frame::{encrypted_frame, encrypted_payload};
use crate::error::{CodecError, Error};
use crate::session::actor::{opening, reset_dance, Session};
use crate::session::laws::{lemma_frame_read_writes_nothing, lemma_one_more, writes_of};
use crate::session::link::handshake;
use crate::session::wire::{body_timeout, exact_read, frame_read, timed_read};
use crate::time::{Duration, Instant};
use crate::transport::{Req, World};

verus! {

/// `ms` milliseconds.
pub open spec fn ms(n: nat) -> Duration {
    Duration { nanos: (n * 1_000_000) as u128 }
}

/// The later world is the earlier one, asked more.
pub open spec fn follows(w: World, later: World) -> bool {
    &&& later.react == w.react
    &&& later.hist.len() >= w.hist.len()
    &&& later.hist.take(w.hist.len() as int) == w.hist
}

/// The bytes that the port has delivered so far.
pub open spec fn heard(react: spec_fn(Seq<Req>) -> crate::transport::Reply, hist: Seq<Req>) -> Seq<u8>
    decreases hist.len(),
{
    if hist.len() == 0 {
        Seq::empty()
    } else {
        let before = heard(react, hist.drop_last());
        match hist.last() {
            Req::Read { max, .. } => if react(hist).fail is Some {
                before
            } else if react(hist).bytes.len() <= max {
                before + react(hist).bytes
            } else {
                before + react(hist).bytes.take(max as int)
            },
            _ => before,
        }
    }
}

pub proof fn lemma_follows(a: World, b: World, c: World, req: Req)
    ensures
        follows(a, a),
        follows(a, a.after(req)),
        follows(a, b) && follows(b, c) ==> follows(a, c),
        req is Read || heard(a.react, a.after(req).hist) == heard(a.react, a.hist),
{
    assert(a.hist.take(a.hist.len() as int) =~= a.hist);
    assert(a.after(req).hist.take(a.hist.len() as int) =~= a.hist);
    assert(a.after(req).hist.drop_last() =~= a.hist);
    if follows(a, b) && follows(b, c) {
        assert(c.hist.take(a.hist.len() as int) =~= c.hist.take(b.hist.len() as int).take(
            a.hist.len() as int,
        ));
    }
}

/// What a read of a given size comes to is what the port delivers, in order and
/// piece by piece, no more and no less.
pub proof fn lemma_exact_read_heard(w: World, need: nat, deadline: Instant, timeout: Duration)
    ensures
        ({
            let (r, w1) = exact_read(w, need, deadline, timeout);
            &&& follows(w, w1)
            &&& r matches Ok(b) ==> b.len() == need && heard(w.react, w1.hist) == heard(
                w.react,
                w.hist,
            ) + b
        }),
    decreases need,
{
    if need == 0 {
        lemma_follows(w, w, w, Req::Now);
        assert(heard(w.react, w.hist) + Seq::<u8>::empty() =~= heard(w.react, w.hist));
    } else {
        let (now, w1) = w.clock();
        let remaining = now.spec_until(deadline);
        let req = Req::Read { max: need, timeout: remaining };
        let w2 = w1.after(req);
        lemma_follows(w, w1, w2, Req::Now);
        lemma_follows(w1, w1, w2, req);
        assert(w2.hist.drop_last() =~= w1.hist);
        if let Ok(piece) = w1.received(need, remaining) {
            if 0 < piece.len() <= need {
                let left = (need - piece.len()) as nat;
                lemma_exact_read_heard(w2, left, deadline, timeout);
                lemma_follows(w, w2, exact_read(w2, left, deadline, timeout).1, req);
                if let Ok(more) = exact_read(w2, left, deadline, timeout).0 {
                    assert(heard(w.react, w.hist) + piece + more =~= heard(w.react, w.hist) + (
                    piece + more));
                }
            }
        }
    }
}

/// A frame taken in is what the port delivers, in order: as long as its own two
/// first bytes say, which is between 3 and 4115.
pub proof fn lemma_frame_heard(w: World, timeout: Duration)
    ensures
        ({
            let (r, w1) = frame_read(w, timeout);
            &&& follows(w, w1)
            &&& r matches Ok(f) ==> {
                &&& 3 <= f.len() <= 4115
                &&& f.len() == f[0] + 256 * f[1]
                &&& heard(w.react, w1.hist) == heard(w.react, w.hist) + f
            }
        }),
{
    let (now, w0) = w.clock();
    lemma_follows(w, w0, w0, Req::Now);
    lemma_exact_read_heard(w0, 2, now.spec_plus(timeout), timeout);
    let (r1, w1) = timed_read(w, 2, timeout);
    lemma_follows(w, w0, w1, Req::Now);
    if let Ok(hdr) = r1 {
        let len = from_le16(hdr);
        if 3 <= len <= crate::types::MAX_FRAME {
            let longer = body_timeout(timeout, len);
            let (then_at, w2) = w1.clock();
            lemma_follows(w1, w2, w2, Req::Now);
            lemma_exact_read_heard(w2, (len - 2) as nat, then_at.spec_plus(longer), longer);
            let (r3, w3) = timed_read(w1, (len - 2) as nat, longer);
            lemma_follows(w1, w2, w3, Req::Now);
            lemma_follows(w, w1, w3, Req::Now);
            if let Ok(body) = r3 {
                let f = hdr + body;
                assert(f[0] == hdr[0] && f[1] == hdr[1]);
                assert(heard(w.react, w.hist) + hdr + body =~= heard(w.react, w.hist) + f);
            }
        }
    }
}

/// How long a frame may take: its first two bytes within `timeout`, and then the
/// rest within `timeout` and 50 ms and a millisecond for every five bytes.
pub proof fn lemma_body_time(timeout: Duration, len: nat)
    requires
        timeout.nanos + (len / 5 + 50) * 1_000_000 <= u128::MAX,
    ensures
        body_timeout(timeout, len).nanos == timeout.nanos + (len / 5 + 50) * 1_000_000,
{
}

/// An exchange with an adapter that is not wedged: whatever is waiting is
/// dropped, and then exactly one frame goes out, the command sealed under the
/// session's key. A reply is what is in the one frame that the port delivers. A
/// command too long to frame, or a port that cannot be cleared, sends nothing.
pub proof fn lemma_exchange_on_wire(s: Session, inner: Seq<u8>, timeout: Duration)
    requires
        !s.wedged,
    ensures
        ({
            let (r, s1) = s.on_transact(inner, timeout);
            let n = s.world.hist.len() as int;
            let cleared = s.world.reply(Req::Purge).fail is None;
            &&& follows(s.world, s1.world)
            &&& s1.key == s.key && s1.queues == s.queues && s1.connected == s.connected
            &&& filled_up(inner).len() > 0xfffc ==> r is Err && s1 == s
            &&& filled_up(inner).len() <= 0xfffc ==> {
                &&& s1.world.hist.len() > n && s1.world.hist[n] == Req::Purge
                &&& cleared ==> s1.world.hist.len() > n + 1 && s1.world.hist[n + 1] == Req::Write(
                    sealed(s.key, inner),
                )
                &&& cleared ==> writes_of(s1.world.hist) == writes_of(s.world.hist).push(
                    sealed(s.key, inner),
                )
                &&& !cleared ==> s1.world.hist == s.world.hist.push(Req::Purge)
                &&& !cleared ==> r is Err && r->Err_0 is Transport
            }
            &&& r matches Ok(reply) ==> exists|f: Seq<u8>|
                {
                    &&& #[trigger] answers(f, s.key, reply)
                    &&& heard(s.world.react, s1.world.hist) == heard(s.world.react, s.world.hist)
                        + f
                }
        }),
{
    lemma_sealed(s.key, inner);
    lemma_follows(s.world, s.world, s.world, Req::Purge);
    if let Ok(frame) = encrypted_frame(s.key, inner) {
        let w1 = s.world.after(Req::Purge);
        let w2 = w1.after(Req::Write(frame));
        let w3 = w2.after(Req::Now);
        lemma_follows(s.world, w1, w2, Req::Purge);
        lemma_follows(w1, w2, w3, Req::Write(frame));
        lemma_follows(w2, w3, w3, Req::Now);
        lemma_follows(s.world, w2, w3, Req::Now);
        lemma_one_more(s.world, Req::Purge);
        lemma_one_more(w1, Req::Write(frame));
        lemma_one_more(w2, Req::Now);
        lemma_frame_heard(w3, timeout);
        lemma_frame_read_writes_nothing(w3, timeout);
        let (raw, w4) = frame_read(w3, timeout);
        lemma_follows(s.world, w3, w4, Req::Now);
        lemma_follows(s.world, w4, w4.after(Req::Now), Req::Now);
        lemma_follows(w4, w4, w4, Req::Now);
        lemma_one_more(w4, Req::Now);
        let s1 = s.on_transact(inner, timeout).1;
        let n = s.world.hist.len() as int;
        if s.world.reply(Req::Purge).fail is None && w1.reply(Req::Write(frame)).fail is None {
            assert(follows(w2, s1.world)) by {
                lemma_follows(w2, w3, w4, Req::Now);
                lemma_follows(w2, w4, w4.after(Req::Now), Req::Now);
            }
            assert(s1.world.hist.take(n + 2)[n] == Req::Purge);
            assert(s1.world.hist.take(n + 2)[n + 1] == Req::Write(frame));
        }
        if let Ok(f) = raw {
            if let Ok(reply) = s.on_transact(inner, timeout).0 {
                lemma_answers(f, s.key, reply);
            }
        }
    }
}

/// Whether a reply is what a frame carries under a key: the frame's length field
/// tells its length, it holds whole blocks, and the blocks decrypt to the reply.
pub open spec fn answers(f: Seq<u8>, key: Seq<u8>, reply: Seq<u8>) -> bool {
    &&& f.len() > 3
    &&& f.len() % 8 == 3
    &&& f.len() == f[0] + 256 * f[1]
    &&& reply == out_of_cipher(key, f.subrange(2, f.len() - 1))
    &&& f.last() == parity(f.drop_last()) || f.last() == parity(f.take(2) + reply)
}

proof fn lemma_answers(f: Seq<u8>, key: Seq<u8>, reply: Seq<u8>)
    requires
        f.len() == f[0] + 256 * f[1],
        encrypted_payload(key, f) == Ok::<Seq<u8>, CodecError>(reply),
    ensures
        answers(f, key, reply),
{
    lemma_length_bytes(f);
    lemma_unsealed(key, f);
}

proof fn lemma_length_bytes(f: Seq<u8>)
    requires
        f.len() >= 2,
        f.len() == f[0] + 256 * f[1],
    ensures
        f.take(2) == low_first(f.len(), 2),
        f.len() <= 0xffff,
{
    reveal_with_fuel(low_first, 3);
    assert(f.take(2) =~= low_first(f.len(), 2));
}

/// A reply is owed: where the port takes the frame and then delivers a sound
/// frame, its first two bytes first, the exchange yields what that carries.
pub proof fn lemma_reply_owed(s: Session, inner: Seq<u8>, timeout: Duration, f: Seq<u8>, reply: Seq<u8>)
    requires
        !s.wedged,
        filled_up(inner).len() <= 0xfffc,
        answers(f, s.key, reply),
        f.len() <= 4115,
        ({
            let w1 = s.world.after(Req::Purge);
            let w2 = w1.after(Req::Write(sealed(s.key, inner)));
            &&& s.world.reply(Req::Purge).fail is None
            &&& w1.reply(Req::Write(sealed(s.key, inner))).fail is None
            &&& delivers_next(w2.after(Req::Now), timeout, f)
        }),
    ensures
        s.on_transact(inner, timeout).0 == Ok::<Seq<u8>, Error>(reply),
{
    lemma_sealed(s.key, inner);
    lemma_length_bytes(f);
    lemma_unsealed(s.key, f);
    let w3 = s.world.after(Req::Purge).after(Req::Write(sealed(s.key, inner))).after(Req::Now);
    lemma_delivered_frame(w3, timeout, f);
}

/// Whether the port delivers `f` next: two bytes to the first read, and the rest
/// to the second.
pub open spec fn delivers_next(w: World, timeout: Duration, f: Seq<u8>) -> bool {
    let (now, w1) = w.clock();
    let (then_at, w2) = w1.clock();
    let wait = then_at.spec_until(now.spec_plus(timeout));
    let w3 = w2.after(Req::Read { max: 2, timeout: wait });
    let longer = body_timeout(timeout, f.len());
    let (now4, w4) = w3.clock();
    let (now5, w5) = w4.clock();
    let wait5 = now5.spec_until(now4.spec_plus(longer));
    &&& w2.received(2, wait) == Ok::<Seq<u8>, crate::error::TransportError>(f.take(2))
    &&& w5.received((f.len() - 2) as nat, wait5) == Ok::<Seq<u8>, crate::error::TransportError>(
        f.skip(2),
    )
}

proof fn lemma_delivered_frame(w: World, timeout: Duration, f: Seq<u8>)
    requires
        3 <= f.len() <= 4115,
        f.len() == f[0] + 256 * f[1],
        delivers_next(w, timeout, f),
    ensures
        frame_read(w, timeout).0 == Ok::<Seq<u8>, Error>(f),
{
    reveal_with_fuel(exact_read, 3);
    let none = Seq::<u8>::empty();
    assert(f.take(2) + none =~= f.take(2));
    assert(f.skip(2) + none =~= f.skip(2));
    assert(f.take(2) + f.skip(2) =~= f);
    assert(f.take(2)[0] == f[0] && f.take(2)[1] == f[1]);
}

/// The handshake: the port is cleared, the reset frame goes out, a pause of 110
/// ms, the port is cleared again, and the identify frame goes out. The key is
/// the eight bytes after the first three of the answer.
pub proof fn lemma_handshake_on_wire(w: World)
    ensures
        ({
            let (r, w1) = handshake(w);
            let n = w.hist.len() as int;
            let script = seq![
                Req::Purge,
                Req::Write(seq![3u8, 0, 3]),
                Req::Sleep(ms(110)),
                Req::Purge,
                Req::Write(seq![12u8, 0, 7, 0, 1, 0x4d, 0x56, 0x43, 0x49, 0x2d, 0x54, 0x62]),
            ];
            &&& follows(w, w1)
            &&& r matches Ok(key) ==> {
                &&& w1.hist.len() >= n + 5
                &&& w1.hist.subrange(n, n + 5) == script
                &&& exists|f: Seq<u8>|
                    {
                        &&& #[trigger] in_the_clear(f)
                        &&& f.len() >= 14 && f[2] == 9
                        &&& key == f.subrange(5, 13)
                        &&& heard(w.react, w1.hist) == heard(w.react, w.hist) + f
                    }
            }
        }),
{
    let (r, w1) = handshake(w);
    let n = w.hist.len() as int;
    lemma_known_frames();
    let a1 = w.after(Req::Purge);
    let a2 = a1.after(Req::Write(seq![3u8, 0, 3]));
    let a3 = a2.after(Req::Sleep(ms(110)));
    let a4 = a3.after(Req::Purge);
    let ident = seq![12u8, 0, 7, 0, 1, 0x4d, 0x56, 0x43, 0x49, 0x2d, 0x54, 0x62];
    let a5 = a4.after(Req::Write(ident));
    lemma_follows(w, a1, a2, Req::Purge);
    lemma_follows(a1, a2, a2, Req::Write(seq![3u8, 0, 3]));
    lemma_follows(w, a2, a3, Req::Purge);
    lemma_follows(a2, a3, a3, Req::Sleep(ms(110)));
    lemma_follows(w, a3, a4, Req::Purge);
    lemma_follows(a3, a4, a4, Req::Purge);
    lemma_follows(w, a4, a5, Req::Purge);
    lemma_follows(a4, a5, a5, Req::Write(ident));
    lemma_frame_heard(a5, ms(2000));
    lemma_follows(w, a5, w1, Req::Purge);
    if let Ok(key) = r {
        assert(w1.hist.take(n + 5) =~= a5.hist);
        assert(w1.hist.subrange(n, n + 5) =~= w1.hist.take(n + 5).subrange(n, n + 5));
        assert(w1.hist.subrange(n, n + 5) =~= seq![
            Req::Purge,
            Req::Write(seq![3u8, 0, 3]),
            Req::Sleep(ms(110)),
            Req::Purge,
            Req::Write(ident),
        ]);
        let f = frame_read(a5, ms(2000)).0->Ok_0;
        lemma_opened(f);
        let payload = f.subrange(2, f.len() - 1);
        assert(payload[0] == f[2]);
        assert(payload.subrange(3, 11) =~= f.subrange(5, 13));
        assert(in_the_clear(f));
    }
}

/// Whether a frame in the clear is sound.
pub open spec fn in_the_clear(f: Seq<u8>) -> bool {
    f.len() >= 3 && f.len() == f[0] + 256 * f[1] && f.last() == parity(f.drop_last())
}

proof fn lemma_known_frames()
    ensures
        crate::session::link::reset_frame() == seq![3u8, 0, 3],
        crate::session::link::identify_frame() == seq![
            12u8,
            0,
            7,
            0,
            1,
            0x4d,
            0x56,
            0x43,
            0x49,
            0x2d,
            0x54,
            0x62,
        ],
{
    reveal_with_fuel(crate::codec::frame::xor_of, 13);
    super::codec::lemma_plain_commands(crate::types::ProtocolId::Can, 0, 0, 0, 0);
    let a = crate::session::link::reset_frame();
    let b = crate::session::link::identify_frame();
    let body = seq![12u8, 0, 7, 0, 1, 0x4d, 0x56, 0x43, 0x49, 0x2d, 0x54];
    assert(a.drop_last() =~= seq![3u8, 0]);
    assert(b.drop_last() =~= body);
    assert(parity(seq![3u8, 0]) == 3) by {
        reveal_with_fuel(parity, 4);
        assert(seq![3u8, 0].skip(1) =~= seq![0u8]);
        assert(seq![0u8].skip(1) =~= Seq::empty());
        assert(3u8 ^ (0u8 ^ 0u8) == 3u8) by (bit_vector);
    }
    super::wire::lemma_parity(seq![3u8, 0]);
    assert(a =~= seq![3u8, 0, 3]);
    super::wire::lemma_parity(body);
    lemma_identify_parity();
    assert(b =~= body.push(0x62));
    assert(body.push(0x62) =~= seq![12u8, 0, 7, 0, 1, 0x4d, 0x56, 0x43, 0x49, 0x2d, 0x54, 0x62]);
}

proof fn lemma_identify_parity()
    ensures
        parity(seq![12u8, 0, 7, 0, 1, 0x4d, 0x56, 0x43, 0x49, 0x2d, 0x54]) == 0x62,
{
    reveal_with_fuel(parity, 13);
    let s0 = seq![12u8, 0, 7, 0, 1, 0x4d, 0x56, 0x43, 0x49, 0x2d, 0x54];
    let s1 = seq![0u8, 7, 0, 1, 0x4d, 0x56, 0x43, 0x49, 0x2d, 0x54];
    let s2 = seq![7u8, 0, 1, 0x4d, 0x56, 0x43, 0x49, 0x2d, 0x54];
    let s3 = seq![0u8, 1, 0x4d, 0x56, 0x43, 0x49, 0x2d, 0x54];
    let s4 = seq![1u8, 0x4d, 0x56, 0x43, 0x49, 0x2d, 0x54];
    let s5 = seq![0x4du8, 0x56, 0x43, 0x49, 0x2d, 0x54];
    let s6 = seq![0x56u8, 0x43, 0x49, 0x2d, 0x54];
    let s7 = seq![0x43u8, 0x49, 0x2d, 0x54];
    let s8 = seq![0x49u8, 0x2d, 0x54];
    let s9 = seq![0x2du8, 0x54];
    let sa = seq![0x54u8];
    assert(s0.skip(1) =~= s1 && s1.skip(1) =~= s2 && s2.skip(1) =~= s3 && s3.skip(1) =~= s4);
    assert(s4.skip(1) =~= s5 && s5.skip(1) =~= s6 && s6.skip(1) =~= s7 && s7.skip(1) =~= s8);
    assert(s8.skip(1) =~= s9 && s9.skip(1) =~= sa && sa.skip(1) =~= Seq::empty());
    assert(12u8 ^ (0u8 ^ (7u8 ^ (0u8 ^ (1u8 ^ (0x4du8 ^ (0x56u8 ^ (0x43u8 ^ (0x49u8 ^ (0x2du8 ^ (
    0x54u8 ^ 0u8)))))))))) == 0x62u8) by (bit_vector);
}

/// A key is owed: where the port takes all of that and then delivers, within two
/// seconds, a sound frame that begins with nine, the handshake yields the eight
/// bytes in it.
pub proof fn lemma_key_owed(w: World, f: Seq<u8>)
    requires
        in_the_clear(f),
        14 <= f.len() <= 4115,
        f[2] == 9,
        ({
            let a1 = w.after(Req::Purge);
            let a2 = a1.after(Req::Write(seq![3u8, 0, 3]));
            let a3 = a2.after(Req::Sleep(ms(110)));
            let a4 = a3.after(Req::Purge);
            let ident = seq![12u8, 0, 7, 0, 1, 0x4d, 0x56, 0x43, 0x49, 0x2d, 0x54, 0x62];
            &&& w.reply(Req::Purge).fail is None
            &&& a1.reply(Req::Write(seq![3u8, 0, 3])).fail is None
            &&& a3.reply(Req::Purge).fail is None
            &&& a4.reply(Req::Write(ident)).fail is None
            &&& delivers_next(a4.after(Req::Write(ident)), ms(2000), f)
        }),
    ensures
        handshake(w).0 == Ok::<Seq<u8>, Error>(f.subrange(5, 13)),
{
    lemma_known_frames();
    let a1 = w.after(Req::Purge);
    let a2 = a1.after(Req::Write(seq![3u8, 0, 3]));
    let a3 = a2.after(Req::Sleep(ms(110)));
    let a4 = a3.after(Req::Purge);
    let ident = seq![12u8, 0, 7, 0, 1, 0x4d, 0x56, 0x43, 0x49, 0x2d, 0x54, 0x62];
    lemma_delivered_frame(a4.after(Req::Write(ident)), ms(2000), f);
    lemma_opened(f);
    let payload = f.subrange(2, f.len() - 1);
    assert(payload[0] == f[2]);
    assert(payload.subrange(3, 11) =~= f.subrange(5, 13));
}

/// A read looks at the clock before each piece and waits for it as long as is
/// left; a port that fails ends it with that error, and one that has nothing
/// within the time ends it with a timeout.
pub proof fn lemma_read_waits(w: World, need: nat, deadline: Instant, timeout: Duration)
    requires
        need > 0,
    ensures
        ({
            let now = w.reply(Req::Now).at;
            let left = if deadline.nanos > now.nanos {
                (deadline.nanos - now.nanos) as u128
            } else {
                0u128
            };
            let w1 = w.after(Req::Now);
            let read = Req::Read { max: need, timeout: Duration { nanos: left } };
            let came = w1.reply(read);
            let (r, end) = exact_read(w, need, deadline, timeout);
            if came.fail is Some {
                r == Err::<Seq<u8>, Error>(Error::Transport(came.fail->0)) && end == w1.after(read)
            } else if came.bytes.len() == 0 {
                r == Err::<Seq<u8>, Error>(Error::Timeout(timeout)) && end == w1.after(read)
            } else if came.bytes.len() >= need {
                &&& r == Ok::<Seq<u8>, Error>(came.bytes.take(need as int))
                &&& end == w1.after(read)
            } else {
                let (more, last) = exact_read(
                    w1.after(read),
                    (need - came.bytes.len()) as nat,
                    deadline,
                    timeout,
                );
                &&& end == last
                &&& more is Ok ==> r == Ok::<Seq<u8>, Error>(came.bytes + more->Ok_0)
                &&& more is Err ==> r == more
            }
        }),
{
    reveal_with_fuel(exact_read, 2);
    let (now, w1) = w.clock();
    let remaining = now.spec_until(deadline);
    if let Ok(piece) = w1.received(need, remaining) {
        let bytes = w1.reply(Req::Read { max: need, timeout: remaining }).bytes;
        if bytes.len() == need {
            assert(bytes.take(need as int) =~= bytes);
        }
        assert(piece + Seq::<u8>::empty() =~= piece);
    }
}

/// The wire counts as used when a command has gone out, and again when its answer
/// has come in: by the clock at that moment.
pub proof fn lemma_wire_used(s: Session, inner: Seq<u8>, timeout: Duration)
    requires
        !s.wedged,
    ensures
        ({
            let (r, s1) = s.on_transact(inner, timeout);
            let frame = sealed(s.key, inner);
            let w1 = s.world.after(Req::Purge);
            let w2 = w1.after(Req::Write(frame));
            let sent = filled_up(inner).len() <= 0xfffc && s.world.reply(Req::Purge).fail is None
                && w1.reply(Req::Write(frame)).fail is None;
            let (raw, w4) = frame_read(w2.after(Req::Now), timeout);
            &&& !sent ==> s1.last_wire == s.last_wire
            &&& sent && raw is Err ==> {
                &&& s1.last_wire == w2.reply(Req::Now).at
                &&& s1.world == w4 && r == raw
            }
            &&& sent && raw is Ok ==> {
                &&& s1.last_wire == w4.reply(Req::Now).at
                &&& s1.world == w4.after(Req::Now)
            }
        }),
{
    lemma_sealed(s.key, inner);
}

/// Opening: DTR up and RTS down, 15 ms, DTR down, a second for the adapter to
/// start, the port cleared, the latency timer seen to; and then the handshake.
pub proof fn lemma_opening_on_wire(w: World)
    ensures
        ({
            let (r, w1) = opening(w);
            let n = w.hist.len() as int;
            let dance = seq![
                Req::Modem { dtr: true, rts: false },
                Req::Sleep(ms(15)),
                Req::Modem { dtr: false, rts: false },
                Req::Sleep(ms(1000)),
                Req::Purge,
                Req::Latency,
            ];
            let ready = World { hist: w.hist + dance, ..w };
            &&& r is Ok ==> (r, w1) == handshake(ready)
            &&& (reset_dance(w).outcome is Ok) ==> (r, w1) == handshake(ready)
        }),
{
    let dance = seq![
        Req::Modem { dtr: true, rts: false },
        Req::Sleep(ms(15)),
        Req::Modem { dtr: false, rts: false },
        Req::Sleep(ms(1000)),
        Req::Purge,
        Req::Latency,
    ];
    let run = reset_dance(w);
    if run.outcome is Ok {
        assert(run.world.hist =~= w.hist + dance);
    }
}

} // verus!
