//! Incremental deframer: push raw serial bytes in, take complete frames out.
//!
//! The stream has no sync marker, so a corrupt length field is unrecoverable
//! by scanning; the session layer recovers by purging the port instead
//! (`clear()` here). Validation of checksums belongs to `frame::decode_*`;
//! this only cuts the stream at frame boundaries.

use vstd::prelude::*;

use super::frame::{framed, lemma_framed};
use crate::bytes::{copy_range, from_le16, push_all, rd_u16};
use crate::error::CodecError;
use crate::types::MAX_FRAME;

verus! {

/// The first frame of a byte stream, `None` while it is incomplete, or what is
/// wrong with its length field.
pub open spec fn leading_frame(s: Seq<u8>) -> Result<Option<Seq<u8>>, CodecError> {
    if s.len() < 2 {
        Ok(None)
    } else if from_le16(s) < 3 {
        Err(CodecError::TooShort(from_le16(s) as usize))
    } else if from_le16(s) > MAX_FRAME {
        Err(CodecError::TooLong(from_le16(s) as usize))
    } else if s.len() < from_le16(s) {
        Ok(None)
    } else {
        Ok(Some(s.take(from_le16(s) as int)))
    }
}

/// A byte stream after its first frame has been taken off, if it has one.
pub open spec fn after_frame(s: Seq<u8>) -> Seq<u8> {
    match leading_frame(s) {
        Ok(Some(f)) => s.skip(f.len() as int),
        _ => s,
    }
}

pub struct Deframer {
    buf: Vec<u8>,
}

impl View for Deframer {
    type V = Seq<u8>;

    /// The bytes buffered but not yet returned as a frame.
    closed spec fn view(&self) -> Seq<u8> {
        self.buf@
    }
}

impl Default for Deframer {
    fn default() -> (r: Deframer)
        ensures
            r@ == Seq::<u8>::empty(),
    {
        Deframer { buf: Vec::new() }
    }
}

impl Deframer {
    pub fn new() -> (r: Deframer)
        ensures
            r@ == Seq::<u8>::empty(),
    {
        Deframer { buf: Vec::new() }
    }

    pub fn push(&mut self, bytes: &[u8])
        ensures
            final(self)@ == old(self)@ + bytes@,
    {
        push_all(&mut self.buf, bytes);
    }

    /// Bytes buffered but not yet returned as a frame.
    pub fn pending(&self) -> (n: usize)
        ensures
            n == self@.len(),
    {
        self.buf.len()
    }

    /// Drop all buffered bytes (after a purge or a length-field error).
    pub fn clear(&mut self)
        ensures
            final(self)@ == Seq::<u8>::empty(),
    {
        self.buf.clear();
    }

    /// Pop the next complete frame, `None` if more bytes are needed.
    ///
    /// A length field below 3 or above `MAX_FRAME` is an error; the buffer is
    /// left untouched so the caller can decide to `clear()` and resync.
    pub fn next_frame(&mut self) -> (r: Result<Option<Vec<u8>>, CodecError>)
        ensures
            final(self)@ == after_frame(old(self)@),
            match r {
                Ok(Some(f)) => leading_frame(old(self)@) == Ok::<Option<Seq<u8>>, CodecError>(
                    Some(f@),
                ),
                Ok(None) => leading_frame(old(self)@) == Ok::<Option<Seq<u8>>, CodecError>(None),
                Err(e) => leading_frame(old(self)@) == Err::<Option<Seq<u8>>, CodecError>(e),
            },
    {
        if self.buf.len() < 2 {
            return Ok(None);
        }
        let len: usize = rd_u16(self.buf.as_slice());
        if len < 3 {
            return Err(CodecError::TooShort(len));
        }
        if len > MAX_FRAME {
            return Err(CodecError::TooLong(len));
        }
        if self.buf.len() < len {
            return Ok(None);
        }
        let frame: Vec<u8> = copy_range(self.buf.as_slice(), 0, len);
        assert(frame@ =~= self.buf@.take(len as int));
        self.buf = copy_range(self.buf.as_slice(), len, self.buf.len());
        assert(self.buf@ =~= old(self)@.skip(len as int));
        Ok(Some(frame))
    }
}

/// Every frame a byte stream holds, in order, up to the first incomplete or
/// corrupt one.
pub open spec fn frames_of(s: Seq<u8>) -> Seq<Seq<u8>>
    decreases s.len(),
{
    match leading_frame(s) {
        Ok(Some(f)) => if f.len() > 0 {
            seq![f] + frames_of(s.skip(f.len() as int))
        } else {
            seq![]
        },
        _ => seq![],
    }
}

/// What is left of a byte stream once every frame has been taken off.
pub open spec fn rest_of(s: Seq<u8>) -> Seq<u8>
    decreases s.len(),
{
    match leading_frame(s) {
        Ok(Some(f)) => if f.len() > 0 {
            rest_of(s.skip(f.len() as int))
        } else {
            s
        },
        _ => s,
    }
}

/// Taking the frames off what has arrived so far, then off the rest together
/// with what arrives next, gives the same frames and leaves the same bytes as
/// taking them off all at once.
pub proof fn lemma_split_anywhere(s: Seq<u8>, t: Seq<u8>)
    ensures
        frames_of(s + t) == frames_of(s) + frames_of(rest_of(s) + t),
        rest_of(s + t) == rest_of(rest_of(s) + t),
    decreases s.len(),
{
    match leading_frame(s) {
        Ok(Some(f)) => {
            let n = f.len() as int;
            lemma_split_anywhere(s.skip(n), t);
            assert((s + t).take(n) =~= s.take(n));
            assert((s + t).skip(n) =~= s.skip(n) + t);
            assert(leading_frame(s + t) == Ok::<Option<Seq<u8>>, CodecError>(Some(f)));
            assert(frames_of(s + t) =~= frames_of(s) + frames_of(rest_of(s) + t));
        },
        _ => {
            assert(frames_of(s) + frames_of(s + t) =~= frames_of(s + t));
        },
    }
}

/// The frames that come out when the stream arrives in chunks and every
/// complete frame is taken after each.
pub open spec fn frames_of_chunks(held: Seq<u8>, chunks: Seq<Seq<u8>>) -> Seq<Seq<u8>>
    decreases chunks.len(),
{
    if chunks.len() == 0 {
        seq![]
    } else {
        frames_of(held + chunks[0]) + frames_of_chunks(
            rest_of(held + chunks[0]),
            chunks.skip(1),
        )
    }
}

pub open spec fn joined(chunks: Seq<Seq<u8>>) -> Seq<u8>
    decreases chunks.len(),
{
    if chunks.len() == 0 {
        seq![]
    } else {
        chunks[0] + joined(chunks.skip(1))
    }
}

/// The frames that come out do not depend on how the stream was cut up.
pub proof fn lemma_chunking_irrelevant(held: Seq<u8>, chunks: Seq<Seq<u8>>)
    requires
        frames_of(held) == Seq::<Seq<u8>>::empty(),
    ensures
        frames_of_chunks(held, chunks) == frames_of(held + joined(chunks)),
    decreases chunks.len(),
{
    if chunks.len() == 0 {
        assert(held + joined(chunks) =~= held);
    } else {
        let first = held + chunks[0];
        let more = joined(chunks.skip(1));
        lemma_nothing_left(first);
        lemma_chunking_irrelevant(rest_of(first), chunks.skip(1));
        lemma_split_anywhere(first, more);
        assert(held + joined(chunks) =~= first + more);
    }
}

proof fn lemma_nothing_left(s: Seq<u8>)
    ensures
        frames_of(rest_of(s)) == Seq::<Seq<u8>>::empty(),
    decreases s.len(),
{
    if let Ok(Some(f)) = leading_frame(s) {
        lemma_nothing_left(s.skip(f.len() as int));
    }
}

/// The frames of several payloads, one after the other.
pub open spec fn all_framed(payloads: Seq<Seq<u8>>) -> Seq<Seq<u8>> {
    payloads.map_values(|p: Seq<u8>| framed(p))
}

/// A stream of encoded frames is cut back into exactly those frames, with no
/// byte left over.
pub proof fn lemma_stream_recovered(payloads: Seq<Seq<u8>>)
    requires
        forall|i: int| 0 <= i < payloads.len() ==> (#[trigger] payloads[i]).len() + 3 <= MAX_FRAME,
    ensures
        frames_of(joined(all_framed(payloads))) == all_framed(payloads),
        rest_of(joined(all_framed(payloads))) == Seq::<u8>::empty(),
    decreases payloads.len(),
{
    let frames = all_framed(payloads);
    if payloads.len() == 0 {
        assert(frames =~= seq![]);
    } else {
        let f = framed(payloads[0]);
        let later = payloads.skip(1);
        lemma_framed(payloads[0]);
        lemma_stream_recovered(later);
        assert(frames.skip(1) =~= all_framed(later));
        assert(frames[0] == f);
        let s = joined(frames);
        assert(s == f + joined(frames.skip(1)));
        assert(s.take(f.len() as int) =~= f);
        assert(s.skip(f.len() as int) =~= joined(frames.skip(1)));
        assert(s[0] == f[0] && s[1] == f[1]);
        assert(leading_frame(s) == Ok::<Option<Seq<u8>>, CodecError>(Some(f)));
        assert(frames_of(s) =~= frames);
    }
}

} // verus!
