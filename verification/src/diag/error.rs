//! Failed diagnostic exchanges.

use vstd::prelude::*;

use super::services::{
    in_kwp_table, in_uds_table, kwp_error_byte, request_out_of_range, uds_error_byte,
    uds_error_name, uds_error_text, NrcByte, NRC_OUT_OF_RANGE,
};
use crate::error::Error as CoreError;
use crate::text::{hex_byte, hex_pair, push_hex_byte, push_hex_pair, push_text};

verus! {

/// A failed KWP2000 or UDS exchange. The negative-response code table is shared
/// between the two protocols (both derive from the same ISO codes); this type
/// is protocol-neutral and names the NRC via the UDS (superset) table.
#[derive(Debug, PartialEq, Eq)]
pub enum Error {
    /// The underlying transport (cable / bus) failed.
    Transport(CoreError),
    /// The ECU returned a negative response `7F <service> <nrc>`.
    Negative {
        /// The service id the ECU echoed back.
        service: u8,
        /// The negative response code.
        nrc: u8,
    },
    /// The ECU answered with no bytes at all.
    Empty,
    /// The response was neither the expected positive echo nor a well-formed
    /// negative response.
    Unexpected {
        /// The positive-response id we expected (`service | 0x40`).
        expected: u8,
        /// What the ECU actually sent.
        got: Vec<u8>,
    },
}

/// What a [`Error`] holds.
pub enum DiagFault {
    Transport(CoreError),
    Negative { service: u8, nrc: u8 },
    Empty,
    Unexpected { expected: u8, got: Seq<u8> },
}

impl View for Error {
    type V = DiagFault;

    open spec fn view(&self) -> DiagFault {
        match *self {
            Error::Transport(e) => DiagFault::Transport(e),
            Error::Negative { service, nrc } => DiagFault::Negative { service, nrc },
            Error::Empty => DiagFault::Empty,
            Error::Unexpected { expected, got } => DiagFault::Unexpected {
                expected,
                got: got@,
            },
        }
    }
}

/// An answer with its bytes and its error taken by their views.
pub open spec fn answered(r: Result<Vec<u8>, Error>) -> Result<Seq<u8>, DiagFault> {
    match r {
        Ok(v) => Ok(v@),
        Err(e) => Err(e@),
    }
}

/// An outcome with its error taken by its view.
pub open spec fn done(r: Result<(), Error>) -> Result<(), DiagFault> {
    match r {
        Ok(()) => Ok(()),
        Err(e) => Err(e@),
    }
}

/// Bytes as a list of hexadecimal pairs.
pub open spec fn hex_list(bytes: Seq<u8>) -> Seq<char>
    decreases bytes.len(),
{
    if bytes.len() == 0 {
        Seq::empty()
    } else if bytes.len() == 1 {
        hex_pair(bytes[0])
    } else {
        hex_list(bytes.drop_last()) + ", "@ + hex_pair(bytes.last())
    }
}

fn push_hex_list(out: &mut String, bytes: &Vec<u8>)
    ensures
        final(out)@ == old(out)@ + hex_list(bytes@),
{
    let mut i: usize = 0;
    assert(bytes@.take(0) =~= Seq::empty());
    assert(out@ + Seq::<char>::empty() =~= out@);
    while i < bytes.len()
        invariant
            i <= bytes.len(),
            out@ == old(out)@ + hex_list(bytes@.take(i as int)),
        decreases bytes.len() - i,
    {
        let ghost before = out@;
        if i > 0 {
            push_text(out, ", ");
        }
        push_hex_pair(out, bytes[i]);
        proof {
            let more = bytes@.take(i + 1);
            assert(more.drop_last() =~= bytes@.take(i as int));
            assert(more.last() == bytes@[i as int]);
            assert(out@ =~= old(out)@ + hex_list(more));
        }
        i = i + 1;
    }
    assert(bytes@.take(i as int) =~= bytes@);
}

impl DiagFault {
    /// The error in words.
    pub open spec fn text(self) -> Seq<char> {
        match self {
            DiagFault::Transport(e) => e.text(),
            DiagFault::Negative { service, nrc } => "ECU refused service "@ + hex_byte(service)
                + ": NRC "@ + hex_byte(nrc) + " ("@ + uds_error_text(nrc) + ")"@,
            DiagFault::Empty => "empty response from ECU"@,
            DiagFault::Unexpected { expected, got } =>
                "unexpected response: expected positive "@ + hex_byte(expected) + ", got ["@
                + hex_list(got) + "]"@,
        }
    }
}

impl Error {
    /// The error in words.
    pub fn message(&self) -> (s: String)
        ensures
            s@ == self@.text(),
    {
        match self {
            Error::Transport(e) => e.message(),
            Error::Negative { service, nrc } => {
                let mut s = "ECU refused service ".to_owned();
                push_hex_byte(&mut s, *service);
                push_text(&mut s, ": NRC ");
                push_hex_byte(&mut s, *nrc);
                push_text(&mut s, " (");
                push_text(&mut s, uds_error_name(*nrc).as_str());
                push_text(&mut s, ")");
                s
            },
            Error::Empty => "empty response from ECU".to_owned(),
            Error::Unexpected { expected, got } => {
                let mut s = "unexpected response: expected positive ".to_owned();
                push_hex_byte(&mut s, *expected);
                push_text(&mut s, ", got [");
                push_hex_list(&mut s, got);
                push_text(&mut s, "]");
                s
            },
        }
    }

    /// The negative response code interpreted against the UDS table.
    pub fn uds_nrc(&self) -> (r: Option<NrcByte>)
        ensures
            r == match self@ {
                DiagFault::Negative { nrc, .. } => Some(
                    if in_uds_table(nrc) {
                        NrcByte::Standard(nrc)
                    } else {
                        NrcByte::Extended(nrc)
                    },
                ),
                _ => None,
            },
    {
        match self {
            Error::Negative { nrc, .. } => Some(uds_error_byte(*nrc)),
            _ => None,
        }
    }

    /// The negative response code interpreted against the KWP2000 table.
    pub fn kwp_nrc(&self) -> (r: Option<NrcByte>)
        ensures
            r == match self@ {
                DiagFault::Negative { nrc, .. } => Some(
                    if in_kwp_table(nrc) {
                        NrcByte::Standard(nrc)
                    } else {
                        NrcByte::Extended(nrc)
                    },
                ),
                _ => None,
            },
    {
        match self {
            Error::Negative { nrc, .. } => Some(kwp_error_byte(*nrc)),
            _ => None,
        }
    }

    /// The raw negative response code byte, if this is a
    /// [`Error::Negative`].
    pub fn nrc(&self) -> (r: Option<u8>)
        ensures
            r == match self@ {
                DiagFault::Negative { nrc, .. } => Some(nrc),
                _ => None,
            },
    {
        match self {
            Error::Negative { nrc, .. } => Some(*nrc),
            _ => None,
        }
    }

    /// True if the ECU refused with `requestOutOfRange`: the usual "this ECU
    /// does not serve that identifier" answer, useful when sweeping.
    pub fn is_request_out_of_range(&self) -> (r: bool)
        ensures
            r == (self@ matches DiagFault::Negative { nrc, .. } && nrc == NRC_OUT_OF_RANGE),
    {
        match self.nrc() {
            Some(nrc) => nrc == request_out_of_range(),
            None => false,
        }
    }
}

} // verus!
