//! Messages, failures and numbers as the PassThru API has them.

use vstd::prelude::*;

use super::consts::{
    ERR_BUFFER_EMPTY, ERR_DEVICE_NOT_CONNECTED, ERR_FAILED, ERR_INVALID_MSG,
    ERR_INVALID_PROTOCOL_ID, ERR_TIMEOUT, PASSTHRU_MSG_DATA_SIZE,
};
use crate::bytes::copy_range;
use crate::error::{CodecError, Error};
use crate::text::push_text;
use crate::time::Instant;

verus! {

/// J2534 `PASSTHRU_MSG`. Of a message handed in, `data` is the whole buffer;
/// of one handed out, the part of it that is filled.
pub struct PassthruMsg {
    pub protocol_id: u32,
    pub rx_status: u32,
    pub tx_flags: u32,
    pub timestamp: u32,
    pub data_size: u32,
    pub extra_data_index: u32,
    pub data: Vec<u8>,
}

/// What a [`PassthruMsg`] holds.
pub struct PassMsg {
    pub protocol_id: u32,
    pub rx_status: u32,
    pub tx_flags: u32,
    pub timestamp: u32,
    pub data_size: u32,
    pub extra_data_index: u32,
    pub data: Seq<u8>,
}

impl View for PassthruMsg {
    type V = PassMsg;

    open spec fn view(&self) -> PassMsg {
        PassMsg {
            protocol_id: self.protocol_id,
            rx_status: self.rx_status,
            tx_flags: self.tx_flags,
            timestamp: self.timestamp,
            data_size: self.data_size,
            extra_data_index: self.extra_data_index,
            data: self.data@,
        }
    }
}

impl PassMsg {
    /// A message whose buffer is whole.
    pub open spec fn whole(self) -> bool {
        self.data.len() == PASSTHRU_MSG_DATA_SIZE
    }

    /// The bytes in use: as many as `data_size` tells, and the buffer holds.
    pub open spec fn used(self) -> nat {
        if self.data_size <= PASSTHRU_MSG_DATA_SIZE {
            self.data_size as nat
        } else {
            PASSTHRU_MSG_DATA_SIZE as nat
        }
    }

    /// A received message, cut to the size of a buffer: the bytes in use only.
    pub open spec fn received(proto: u32, rx_status: u32, timestamp: u32, bytes: Seq<u8>) -> PassMsg {
        let data = if bytes.len() <= PASSTHRU_MSG_DATA_SIZE {
            bytes
        } else {
            bytes.take(PASSTHRU_MSG_DATA_SIZE as int)
        };
        PassMsg {
            protocol_id: proto,
            rx_status,
            tx_flags: 0,
            timestamp,
            data_size: data.len() as u32,
            extra_data_index: data.len() as u32,
            data,
        }
    }

    /// A caller's message with a received one put in: every field is that of
    /// the received one, and the rest of the buffer stays as it was.
    pub open spec fn filled(self, got: PassMsg) -> PassMsg {
        let n = if got.data.len() <= self.data.len() {
            got.data.len() as int
        } else {
            self.data.len() as int
        };
        PassMsg { data: got.data.take(n) + self.data.skip(n), ..got }
    }
}

/// Callers' messages with the received ones put into the first of them.
pub open spec fn filled_in(places: Seq<PassMsg>, got: Seq<PassMsg>) -> Seq<PassMsg> {
    Seq::new(
        places.len(),
        |i: int|
            if i < got.len() {
                places[i].filled(got[i])
            } else {
                places[i]
            },
    )
}

impl PassthruMsg {
    /// Put a received message into a caller's: the rest of the buffer stays as
    /// it was.
    pub fn fill(&mut self, got: &PassthruMsg)
        ensures
            final(self)@ == old(self)@.filled(got@),
    {
        let n: usize = if got.data.len() <= self.data.len() {
            got.data.len()
        } else {
            self.data.len()
        };
        let mut data = copy_range(got.data.as_slice(), 0, n);
        let mut rest = copy_range(self.data.as_slice(), n, self.data.len());
        data.append(&mut rest);
        assert(data@ =~= got.data@.take(n as int) + self.data@.skip(n as int));
        self.protocol_id = got.protocol_id;
        self.rx_status = got.rx_status;
        self.tx_flags = got.tx_flags;
        self.timestamp = got.timestamp;
        self.data_size = got.data_size;
        self.extra_data_index = got.extra_data_index;
        self.data = data;
    }

    /// The bytes in use: as many as `data_size` tells, and a buffer holds.
    pub fn used(&self) -> (n: usize)
        ensures
            n == self@.used(),
    {
        if self.data_size as usize <= PASSTHRU_MSG_DATA_SIZE {
            self.data_size as usize
        } else {
            PASSTHRU_MSG_DATA_SIZE
        }
    }

    /// A received message, cut to the size of a buffer: the bytes in use only.
    pub fn received(proto: u32, rx_status: u32, timestamp: u32, bytes: &[u8]) -> (m: PassthruMsg)
        ensures
            m@ == PassMsg::received(proto, rx_status, timestamp, bytes@),
    {
        let n: usize = if bytes.len() <= PASSTHRU_MSG_DATA_SIZE {
            bytes.len()
        } else {
            PASSTHRU_MSG_DATA_SIZE
        };
        let data = copy_range(bytes, 0, n);
        assert(data@ =~= bytes@.take(n as int));
        assert(bytes.len() == n ==> data@ =~= bytes@);
        PassthruMsg {
            protocol_id: proto,
            rx_status,
            tx_flags: 0,
            timestamp,
            data_size: n as u32,
            extra_data_index: n as u32,
            data,
        }
    }
}

/// J2534 `SCONFIG`.
#[derive(Clone, Copy, PartialEq, Eq, Structural, Debug)]
pub struct SConfig {
    pub parameter: u32,
    pub value: u32,
}

/// J2534 `SCONFIG_LIST`, as far as a caller filled it in.
pub struct SConfigList {
    /// `None` where the list points nowhere though it claims entries.
    pub config: Option<Vec<SConfig>>,
}

/// A call that did not succeed: the code it returns and the text
/// PassThruGetLastError will give.
pub struct Failure {
    pub code: i32,
    pub text: String,
}

/// What a [`Failure`] holds.
pub struct Fault {
    pub code: i32,
    pub text: Seq<char>,
}

impl View for Failure {
    type V = Fault;

    open spec fn view(&self) -> Fault {
        Fault { code: self.code, text: self.text@ }
    }
}

/// A result with its failure taken by its view.
pub open spec fn faulted<A>(r: Result<A, Failure>) -> Result<A, Fault> {
    match r {
        Ok(a) => Ok(a),
        Err(f) => Err(f@),
    }
}

/// The failure `code` in the words of `text`.
pub open spec fn fault(code: i32, text: &'static str) -> Fault {
    Fault { code, text: text@ }
}

pub fn failure(code: i32, text: &'static str) -> (f: Failure)
    ensures
        f@ == fault(code, text),
{
    Failure { code, text: text.to_owned() }
}

/// The J2534 code an error comes to. Firmware status bytes are already J2534
/// codes and pass through.
pub open spec fn code_for(e: Error) -> i32 {
    match e {
        Error::Rejected { status, .. } => status.byte() as i32,
        Error::NoFilterInstalled { .. } => ERR_BUFFER_EMPTY,
        Error::BufferEmpty => ERR_BUFFER_EMPTY,
        Error::Timeout(_) => ERR_TIMEOUT,
        Error::Protocol(_) => ERR_INVALID_PROTOCOL_ID,
        Error::Transport(_) => ERR_DEVICE_NOT_CONNECTED,
        Error::Wedged(_) => ERR_DEVICE_NOT_CONNECTED,
        Error::Closed => ERR_DEVICE_NOT_CONNECTED,
        Error::Codec(CodecError::MsgTooLong(_)) => ERR_INVALID_MSG,
        _ => ERR_FAILED,
    }
}

pub fn code_of(e: &Error) -> (code: i32)
    ensures
        code == code_for(*e),
{
    match e {
        Error::Rejected { status, .. } => status.code() as i32,
        Error::NoFilterInstalled { .. } => ERR_BUFFER_EMPTY,
        Error::BufferEmpty => ERR_BUFFER_EMPTY,
        Error::Timeout(_) => ERR_TIMEOUT,
        Error::Protocol(_) => ERR_INVALID_PROTOCOL_ID,
        Error::Transport(_) => ERR_DEVICE_NOT_CONNECTED,
        Error::Wedged(_) => ERR_DEVICE_NOT_CONNECTED,
        Error::Closed => ERR_DEVICE_NOT_CONNECTED,
        Error::Codec(CodecError::MsgTooLong(_)) => ERR_INVALID_MSG,
        _ => ERR_FAILED,
    }
}

/// An error, as a failed call.
pub open spec fn fault_of(e: Error) -> Fault {
    Fault { code: code_for(e), text: e.text() }
}

pub fn fail(e: &Error) -> (f: Failure)
    ensures
        f@ == fault_of(*e),
{
    Failure { code: code_of(e), text: e.message() }
}

/// An error, as a failed call with its own code and an introduction.
pub open spec fn introduced(code: i32, intro: &'static str, e: Error) -> Fault {
    Fault { code, text: intro@ + e.text() }
}

pub fn fail_with(code: i32, intro: &'static str, e: &Error) -> (f: Failure)
    ensures
        f@ == introduced(code, intro, *e),
{
    let mut text = intro.to_owned();
    push_text(&mut text, e.message().as_str());
    Failure { code, text }
}

/// The low 32 bits of an `unsigned long`.
pub open spec fn low_word(v: u64) -> u32 {
    (v % 0x1_0000_0000) as u32
}

pub fn low32(v: u64) -> (r: u32)
    ensures
        r == low_word(v),
{
    (v % 0x1_0000_0000) as u32
}

/// Microseconds from `epoch` to `now`, in 32 bits that wrap every ~71.6
/// minutes, which is the J2534 convention.
pub open spec fn stamp_at(epoch: Instant, now: Instant) -> u32 {
    ((epoch.spec_until(now).nanos / 1000) % 0x1_0000_0000) as u32
}

/// Receive timestamp for `PASSTHRU_MSG.Timestamp`, in microseconds relative to
/// the first device open. The firmware provides no timestamp, so this is the
/// host clock read when the shim hands the message back: the closest available
/// approximation.
pub fn timestamp_micros(epoch: Instant, now: Instant) -> (r: u32)
    ensures
        r == stamp_at(epoch, now),
{
    ((epoch.until(now).nanos / 1000) % 0x1_0000_0000) as u32
}

} // verus!
