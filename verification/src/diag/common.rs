//! Response validation shared by the KWP2000 and UDS clients: the positive/
//! negative framing is identical between the two protocols.

use vstd::prelude::*;

use super::error::{answered, Error, DiagFault};
use crate::bytes::{copy_all, copy_range, push_all, same_bytes};
use crate::error::Error as CoreError;
use crate::isotp::pending::UdsTransport;
use crate::time::Duration;

verus! {

/// A positive response echoes `service | 0x40` (ISO 14229/14230 framing).
pub const POSITIVE_RESPONSE_OFFSET: u8 = 0x40;

/// A negative response begins with this service id, then `<service> <nrc>`.
pub const NEGATIVE_RESPONSE_SID: u8 = 0x7f;

/// The id a positive response to `sid` begins with.
pub open spec fn echo_of(sid: u8) -> u8 {
    sid | POSITIVE_RESPONSE_OFFSET
}

/// The bytes after the echoed service id of a positive response, or what came
/// instead.
pub open spec fn positive(sid: u8, resp: Seq<u8>) -> Result<Seq<u8>, DiagFault> {
    if resp.len() == 0 {
        Err(DiagFault::Empty)
    } else if resp[0] == NEGATIVE_RESPONSE_SID {
        Err(
            DiagFault::Negative {
                service: if resp.len() > 1 {
                    resp[1]
                } else {
                    sid
                },
                nrc: if resp.len() > 2 {
                    resp[2]
                } else {
                    0
                },
            },
        )
    } else if resp[0] == echo_of(sid) {
        Ok(resp.skip(1))
    } else {
        Err(DiagFault::Unexpected { expected: echo_of(sid), got: resp })
    }
}

/// What follows an echoed identifier.
pub open spec fn after_echo(resp: Seq<u8>, echo: Seq<u8>) -> Result<Seq<u8>, DiagFault> {
    if resp.len() >= echo.len() && resp.take(echo.len() as int) == echo {
        Ok(resp.skip(echo.len() as int))
    } else {
        Err(
            DiagFault::Unexpected {
                expected: if echo.len() > 0 {
                    echo[0] | POSITIVE_RESPONSE_OFFSET
                } else {
                    0
                },
                got: resp,
            },
        )
    }
}

/// Validate a positive response or classify a negative one. Returns the bytes
/// after the echoed service id.
pub fn parse_positive(sid: u8, resp: Vec<u8>) -> (r: Result<Vec<u8>, Error>)
    ensures
        answered(r) == positive(sid, resp@),
{
    let expected: u8 = sid | POSITIVE_RESPONSE_OFFSET;
    if resp.len() == 0 {
        return Err(Error::Empty);
    }
    if resp[0] == NEGATIVE_RESPONSE_SID {
        let service: u8 = if resp.len() > 1 {
            resp[1]
        } else {
            sid
        };
        let nrc: u8 = if resp.len() > 2 {
            resp[2]
        } else {
            0
        };
        return Err(Error::Negative { service, nrc });
    }
    if resp[0] == expected {
        let tail = copy_range(resp.as_slice(), 1, resp.len());
        assert(tail@ =~= resp@.skip(1));
        return Ok(tail);
    }
    Err(Error::Unexpected { expected, got: resp })
}

/// Strip an echoed identifier prefix (the LID/DID) from a positive-response
/// payload, returning just the data bytes.
pub fn strip_echo(resp: &[u8], echo: &[u8]) -> (r: Result<Vec<u8>, Error>)
    ensures
        answered(r) == after_echo(resp@, echo@),
{
    if resp.len() >= echo.len() {
        let lead = &resp[0..echo.len()];
        assert(lead@ =~= resp@.take(echo@.len() as int));
        if same_bytes(lead, echo) {
            let tail = copy_range(resp, echo.len(), resp.len());
            assert(tail@ =~= resp@.skip(echo@.len() as int));
            return Ok(tail);
        }
    }
    let expected: u8 = if echo.len() > 0 {
        echo[0] | POSITIVE_RESPONSE_OFFSET
    } else {
        0
    };
    Err(Error::Unexpected { expected, got: copy_all(resp) })
}

/// A positive response gives its payload back, for every service whose echo is
/// not taken for a negative response.
pub proof fn lemma_positive_round_trip(sid: u8, data: Seq<u8>)
    requires
        echo_of(sid) != NEGATIVE_RESPONSE_SID,
    ensures
        positive(sid, seq![echo_of(sid)] + data) == Ok::<Seq<u8>, DiagFault>(data),
{
    assert((seq![echo_of(sid)] + data).skip(1) =~= data);
}

/// An echoed identifier is taken off and the data after it left as it was.
pub proof fn lemma_echo_stripped(echo: Seq<u8>, data: Seq<u8>)
    ensures
        after_echo(echo + data, echo) == Ok::<Seq<u8>, DiagFault>(data),
{
    assert((echo + data).take(echo.len() as int) =~= echo);
    assert((echo + data).skip(echo.len() as int) =~= data);
}

/// One service request over a transport: the answer, and the transport's state
/// after it.
pub open spec fn served<T: UdsTransport>(io: T::State, timeout: Duration, sid: u8, data: Seq<u8>) -> (
    Result<Seq<u8>, DiagFault>,
    T::State,
) {
    match T::exchange(io, seq![sid] + data, timeout) {
        (Err(e), after) => (Err(DiagFault::Transport(e)), after),
        (Ok(resp), after) => (positive(sid, resp), after),
    }
}

/// One service request whose answer leads with `echo`.
pub open spec fn served_echo<T: UdsTransport>(
    io: T::State,
    timeout: Duration,
    sid: u8,
    data: Seq<u8>,
    echo: Seq<u8>,
) -> (Result<Seq<u8>, DiagFault>, T::State) {
    match served::<T>(io, timeout, sid, data) {
        (Err(e), after) => (Err(e), after),
        (Ok(resp), after) => (after_echo(resp, echo), after),
    }
}

/// One service request that may go unanswered.
pub open spec fn served_quietly<T: UdsTransport>(
    io: T::State,
    timeout: Duration,
    sid: u8,
    data: Seq<u8>,
    silence_is_fine: bool,
) -> (Result<(), DiagFault>, T::State) {
    match served::<T>(io, timeout, sid, data) {
        (Ok(_), after) => (Ok(()), after),
        (Err(e), after) => (
            if e matches DiagFault::Transport(CoreError::Timeout(_)) && silence_is_fine {
                Ok(())
            } else {
                Err(e)
            },
            after,
        ),
    }
}

/// Send `sid` + `data`, then require the positive echo and return the bytes
/// after it.
pub fn serve<T: UdsTransport>(io: &mut T, timeout: Duration, sid: u8, data: &[u8]) -> (r: Result<
    Vec<u8>,
    Error,
>)
    requires
        old(io).ready(),
    ensures
        final(io).ready(),
        (answered(r), final(io).state()) == served::<T>(old(io).state(), timeout, sid, data@),
{
    let mut req: Vec<u8> = Vec::new();
    req.push(sid);
    push_all(&mut req, data);
    assert(req@ =~= seq![sid] + data@);
    match io.request(req.as_slice(), timeout) {
        Ok(resp) => parse_positive(sid, resp),
        Err(e) => Err(Error::Transport(e)),
    }
}

/// One byte followed by more.
pub fn led_by(first: u8, rest: &[u8]) -> (v: Vec<u8>)
    ensures
        v@ == seq![first] + rest@,
{
    let mut v: Vec<u8> = Vec::new();
    v.push(first);
    push_all(&mut v, rest);
    assert(v@ =~= seq![first] + rest@);
    v
}

} // verus!
