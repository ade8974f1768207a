//! Typed errors: every failure mode is distinct and matchable.

use vstd::prelude::*;

use crate::time::Duration;
use crate::types::{Cmd, DeviceStatus, ProtocolId};

verus! {

/// A ProtocolID outside the set the adapter implements.
#[derive(Clone, Copy, PartialEq, Eq, Structural, Debug)]
pub struct InvalidProtocolId(pub u32);

/// Byte-level transport failure (serial port / USB).
#[derive(PartialEq, Eq, Debug)]
pub enum TransportError {
    /// A read, a write or a control request failed, and why.
    Io(String),
    /// The port could not be opened or set up.
    Open { port: String, reason: String },
}

/// Frame/inner codec failure: the bytes are structurally wrong.
#[derive(Clone, Copy, PartialEq, Eq, Debug)]
pub enum CodecError {
    TooShort(usize),
    TooLong(usize),
    LengthMismatch { field: usize, actual: usize },
    BadChecksum { wire: u8, computed: u8 },
    /// The checksum matches neither the ciphertext sum nor the plaintext sum.
    BadEncryptedChecksum { wire: u8, cipher: u8, plain: u8 },
    BadCipherLength(usize),
    BadIdLen { proto: ProtocolId, idlen: usize },
    FilterFieldTooShort { have: usize, need: usize },
    MsgTooLong(usize),
    MalformedReply(&'static str),
}

/// ISO-TP (ISO 15765-2) failure.
#[derive(Clone, Copy, PartialEq, Eq, Debug)]
pub enum IsoTpError {
    PayloadTooLong(usize),
    /// The cable firmware truncates FF_DL to 8 bits.
    FirmwareFfDlLimit(usize),
    FcTimeout,
    CfTimeout,
    WaitLimit(u8),
    Overflow,
    SequenceError { expected: u8, got: u8 },
    Malformed(&'static str),
}

/// Top-level driver error.
#[derive(PartialEq, Eq, Debug)]
pub enum Error {
    Transport(TransportError),
    Codec(CodecError),
    Protocol(InvalidProtocolId),
    IsoTp(IsoTpError),
    /// No reply from the adapter in time.
    Timeout(Duration),
    /// The adapter answered with a status other than success.
    Rejected { cmd: Cmd, status: DeviceStatus },
    /// A read timed out on a channel without a filter: the acceptance filter
    /// starts enabled and empty, so such a channel receives nothing at all.
    NoFilterInstalled { proto: ProtocolId },
    BufferEmpty,
    /// The adapter has stopped answering; reopen the device.
    Wedged(u8),
    /// The device handle is closed.
    Closed,
}

impl From<TransportError> for Error {
    fn from(e: TransportError) -> (r: Error) {
        Error::Transport(e)
    }
}

impl vstd::std_specs::convert::FromSpecImpl<TransportError> for Error {
    open spec fn obeys_from_spec() -> bool {
        true
    }

    open spec fn from_spec(e: TransportError) -> Error {
        Error::Transport(e)
    }
}

impl From<CodecError> for Error {
    fn from(e: CodecError) -> (r: Error) {
        Error::Codec(e)
    }
}

impl vstd::std_specs::convert::FromSpecImpl<CodecError> for Error {
    open spec fn obeys_from_spec() -> bool {
        true
    }

    open spec fn from_spec(e: CodecError) -> Error {
        Error::Codec(e)
    }
}

impl From<InvalidProtocolId> for Error {
    fn from(e: InvalidProtocolId) -> (r: Error) {
        Error::Protocol(e)
    }
}

impl vstd::std_specs::convert::FromSpecImpl<InvalidProtocolId> for Error {
    open spec fn obeys_from_spec() -> bool {
        true
    }

    open spec fn from_spec(e: InvalidProtocolId) -> Error {
        Error::Protocol(e)
    }
}

impl From<IsoTpError> for Error {
    fn from(e: IsoTpError) -> (r: Error) {
        Error::IsoTp(e)
    }
}

impl vstd::std_specs::convert::FromSpecImpl<IsoTpError> for Error {
    open spec fn obeys_from_spec() -> bool {
        true
    }

    open spec fn from_spec(e: IsoTpError) -> Error {
        Error::IsoTp(e)
    }
}

/// `r` with its error, if any, as a driver error.
pub open spec fn lifted<A, E>(r: Result<A, E>, f: spec_fn(E) -> Error) -> Result<A, Error> {
    match r {
        Ok(a) => Ok(a),
        Err(e) => Err(f(e)),
    }
}

/// A failed transport call, as a driver error.
pub fn transport<A>(r: Result<A, TransportError>) -> (out: Result<A, Error>)
    ensures
        out == lifted(r, |e: TransportError| Error::Transport(e)),
{
    match r {
        Ok(a) => Ok(a),
        Err(e) => Err(Error::Transport(e)),
    }
}

/// A codec failure, as a driver error.
pub fn codec<A>(r: Result<A, CodecError>) -> (out: Result<A, Error>)
    ensures
        out == lifted(r, |e: CodecError| Error::Codec(e)),
{
    match r {
        Ok(a) => Ok(a),
        Err(e) => Err(Error::Codec(e)),
    }
}

/// An ISO-TP failure, as a driver error.
pub fn isotp<A>(r: Result<A, IsoTpError>) -> (out: Result<A, Error>)
    ensures
        out == lifted(r, |e: IsoTpError| Error::IsoTp(e)),
{
    match r {
        Ok(a) => Ok(a),
        Err(e) => Err(Error::IsoTp(e)),
    }
}

/// A result with what it holds taken by its view.
pub open spec fn seen<V: View, E>(r: Result<V, E>) -> Result<V::V, E> {
    match r {
        Ok(v) => Ok(v@),
        Err(e) => Err(e),
    }
}

} // verus!
