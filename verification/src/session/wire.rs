//! Framed reads over a `Transport`.

use vstd::prelude::*;

use crate::bytes::{from_le16, rd_u16};
use crate::error::{seen, transport, CodecError, Error};
use crate::time::{millis, Duration, Instant};
use crate::transport::{Req, Transport, World};
use crate::types::MAX_FRAME;

verus! {

/// Exactly `need` bytes, read piece by piece until `deadline`. A piece that
/// comes back empty is a timeout.
pub open spec fn exact_read(w: World, need: nat, deadline: Instant, timeout: Duration) -> (
    Result<Seq<u8>, Error>,
    World,
)
    decreases need,
{
    if need == 0 {
        (Ok(Seq::empty()), w)
    } else {
        let (now, w1) = w.clock();
        let remaining = now.spec_until(deadline);
        let w2 = w1.after(Req::Read { max: need, timeout: remaining });
        match w1.received(need, remaining) {
            Err(e) => (Err(Error::Transport(e)), w2),
            Ok(piece) => if piece.len() == 0 || piece.len() > need {
                (Err(Error::Timeout(timeout)), w2)
            } else {
                after_piece(
                    piece,
                    exact_read(w2, (need - piece.len()) as nat, deadline, timeout),
                )
            },
        }
    }
}

/// A read that yielded `piece` first.
pub open spec fn after_piece(piece: Seq<u8>, rest: (Result<Seq<u8>, Error>, World)) -> (
    Result<Seq<u8>, Error>,
    World,
) {
    match rest {
        (Ok(more), w) => (Ok(piece + more), w),
        (Err(e), w) => (Err(e), w),
    }
}

/// `need` bytes within `timeout` from now.
pub open spec fn timed_read(w: World, need: nat, timeout: Duration) -> (
    Result<Seq<u8>, Error>,
    World,
) {
    let (now, w1) = w.clock();
    exact_read(w1, need, now.spec_plus(timeout), timeout)
}

/// The time a frame's body may take: at 115200 baud about 11.5 bytes arrive
/// per millisecond; allow for half that speed, plus slack.
pub open spec fn body_timeout(timeout: Duration, len: nat) -> Duration {
    timeout.spec_plus(millis(len / 5 + 50))
}

/// One framed message: the length header, then the body.
pub open spec fn frame_read(w: World, timeout: Duration) -> (Result<Seq<u8>, Error>, World) {
    match timed_read(w, 2, timeout) {
        (Err(e), w1) => (Err(e), w1),
        (Ok(hdr), w1) => {
            let len = from_le16(hdr);
            if len < 3 {
                (Err(Error::Codec(CodecError::TooShort(len as usize))), w1)
            } else if len > MAX_FRAME {
                (Err(Error::Codec(CodecError::TooLong(len as usize))), w1)
            } else {
                after_piece(hdr, timed_read(w1, (len - 2) as nat, body_timeout(timeout, len)))
            }
        },
    }
}

/// Read one framed message: the 16-bit LEN header within `timeout`, then the
/// body.
///
/// The body deadline scales with the frame: at 115200 8N1 a byte takes
/// ~87 us, so a full 4 KB ISO15765 reply spends ~360 ms on the wire and would
/// blow a caller's 200 ms poll budget mid-frame. A truncated read leaves the
/// tail in the tty buffer for the next purge to swallow, which desynchronises
/// the session in a way that only shows up on long replies.
pub fn read_frame<T: Transport>(io: &mut T, timeout: Duration) -> (r: Result<Vec<u8>, Error>)
    ensures
        (seen(r), final(io).world()) == frame_read(old(io).world(), timeout),
{
    let mut frame = read_exact(io, 2, timeout)?;
    let len: usize = rd_u16(frame.as_slice());
    if len < 3 {
        return Err(Error::Codec(CodecError::TooShort(len)));
    }
    if len > MAX_FRAME {
        return Err(Error::Codec(CodecError::TooLong(len)));
    }
    let body_time = timeout.plus(Duration::from_millis((len / 5) as u64 + 50));
    let mut body = read_exact(io, len - 2, body_time)?;
    frame.append(&mut body);
    Ok(frame)
}

fn read_exact<T: Transport>(io: &mut T, need: usize, timeout: Duration) -> (r: Result<
    Vec<u8>,
    Error,
>)
    requires
        need <= MAX_FRAME,
    ensures
        (seen(r), final(io).world()) == timed_read(old(io).world(), need as nat, timeout),
        r matches Ok(v) ==> v.len() == need,
{
    let deadline = io.now().plus(timeout);
    let mut buf: Vec<u8> = Vec::new();
    buf.resize(need, 0);
    let mut off: usize = 0;
    let ghost w0 = io.world();
    assert(after_piece(buf@.take(0), exact_read(w0, need as nat, deadline, timeout)) == exact_read(
        w0,
        need as nat,
        deadline,
        timeout,
    )) by {
        assert(forall|s: Seq<u8>| buf@.take(0) + s =~= s);
    }
    while off < need
        invariant
            off <= need,
            buf.len() == need,
            timed_read(old(io).world(), need as nat, timeout) == after_piece(
                buf@.take(off as int),
                exact_read(io.world(), (need - off) as nat, deadline, timeout),
            ),
        decreases need - off,
    {
        let ghost before = buf@.take(off as int);
        let ghost w = io.world();
        let remaining = io.now().until(deadline);
        let (_, tail) = buf.as_mut_slice().split_at_mut(off);
        let got = transport(io.read(tail, remaining));
        let n: usize = got?;
        if n == 0 {
            return Err(Error::Timeout(timeout));
        }
        proof {
            let piece = w.clock().1.received((need - off) as nat, remaining)->Ok_0;
            assert(piece.len() == n);
            assert(buf@.take(off + n) =~= before + piece);
            let rest = exact_read(io.world(), (need - off - n) as nat, deadline, timeout);
            if let Ok(more) = rest.0 {
                assert(before + (piece + more) =~= (before + piece) + more);
            }
        }
        off = off + n;
    }
    assert(buf@.take(off as int) + Seq::<u8>::empty() =~= buf@);
    Ok(buf)
}

} // verus!
