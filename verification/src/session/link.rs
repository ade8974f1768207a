//! Encrypted-link establishment.
//!
//! Command 0x01 (OPEN / identify) TOGGLES the adapter's encryption rather
//! than enabling it: sent twice in one session it silently turns the cipher
//! back off. The invariant that keeps this safe: 0x01 is emitted in exactly
//! one place, [`KeyedLink::establish`], and always right after the plaintext
//! reset frame that returns the adapter to its un-keyed state. No other code
//! path can produce the opcode.

use vstd::prelude::*;

use crate::codec::frame::{decode_plain, encode_plain, framed, plain_payload};
use crate::codec::inner::{challenge_key, identify, identify_cmd, parse_challenge};
use crate::error::{codec, seen, transport, Error};
use crate::session::wire::{frame_read, read_frame};
use crate::time::{millis, Duration};
use crate::transport::{Req, Run, Transport, World};

verus! {

/// The frame that returns the adapter to its un-keyed state.
pub open spec fn reset_frame() -> Seq<u8> {
    framed(Seq::empty())
}

/// The frame that asks the adapter for a key.
pub open spec fn identify_frame() -> Seq<u8> {
    framed(identify_cmd())
}

/// Everything the handshake does before it reads the challenge.
pub open spec fn reset_and_identify(w: World) -> Run {
    Run::start(w).ask(Req::Purge).ask(Req::Write(reset_frame())).attempt(
        Req::Sleep(millis(110)),
    ).ask(Req::Purge).ask(Req::Write(identify_frame()))
}

/// The key a challenge frame carries.
pub open spec fn key_of_challenge(frame: Seq<u8>) -> Result<Seq<u8>, Error> {
    match plain_payload(frame) {
        Err(e) => Err(Error::Codec(e)),
        Ok(payload) => match challenge_key(payload) {
            Err(e) => Err(Error::Codec(e)),
            Ok(key) => Ok(key),
        },
    }
}

/// The handshake: reset, identify, and the key out of the challenge.
pub open spec fn handshake(w: World) -> (Result<Seq<u8>, Error>, World) {
    let run = reset_and_identify(w);
    match run.outcome {
        Err(e) => (Err(e), run.world),
        Ok(()) => match frame_read(run.world, millis(2000)) {
            (Err(e), w1) => (Err(e), w1),
            (Ok(challenge), w1) => (key_of_challenge(challenge), w1),
        },
    }
}

/// Proof that the handshake ran: holds the session's DES key. Replacing a
/// `KeyedLink` (re-handshake after the adapter de-initialises) goes through
/// `establish` again, which starts with the reset frame.
pub struct KeyedLink {
    key: [u8; 8],
}

impl View for KeyedLink {
    type V = Seq<u8>;

    closed spec fn view(&self) -> Seq<u8> {
        self.key@
    }
}

impl KeyedLink {
    /// Reset + identify + read challenge -> install key.
    pub fn establish<T: Transport>(io: &mut T) -> (r: Result<KeyedLink, Error>)
        ensures
            (seen(r), final(io).world()) == handshake(old(io).world()),
    {
        let none: Vec<u8> = Vec::new();
        let reset = codec(encode_plain(none.as_slice()))?;
        transport(io.purge_rx())?;
        transport(io.write_all(reset.as_slice()))?;
        io.sleep(Duration::from_millis(110));
        transport(io.purge_rx())?;

        let ident = codec(encode_plain(identify().as_slice()))?;
        transport(io.write_all(ident.as_slice()))?;

        let challenge = read_frame(io, Duration::from_millis(2000))?;
        let payload = codec(decode_plain(challenge.as_slice()))?;
        let key = codec(parse_challenge(payload))?;
        Ok(KeyedLink { key })
    }

    /// A key is eight bytes long.
    pub proof fn lemma_key_len(&self)
        ensures
            self@.len() == 8,
    {
    }

    pub fn key(&self) -> (r: &[u8; 8])
        ensures
            r@ == self@,
    {
        &self.key
    }
}

} // verus!
