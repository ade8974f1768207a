//! UDS (ISO 14229-1).

use vstd::prelude::*;

use super::common::{led_by, serve, served, served_echo, served_quietly, strip_echo};
use super::error::{answered, done, Error};
use super::kwp2000::two_bytes;
use super::services::{dtc_by_status_mask, UdsCommand, DTC_BY_STATUS_MASK};
use crate::bytes::{be16, be32, push_all, push_be32};
use crate::error::Error as CoreError;
use crate::isotp::pending::UdsTransport;
use crate::time::{millis, Duration};

verus! {

/// A UDS (ISO 14229-1) diagnostic client over any [`UdsTransport`].
///
/// The counterpart to [`crate::diag::Kwp2000`] for the newer Toyota P5 (UDS)
/// ECUs, which speak 2-byte data identifiers (DIDs), `0x2F` I/O control, and
/// `0x31` routines. The transport handles framing and responsePending
/// (`7F .. 78`); this layer builds service requests and validates responses,
/// returning the bytes after the echoed service id / identifier and mapping a
/// `7F <sid> <nrc>` reply to [`Error::Negative`].
pub struct Uds<T: UdsTransport> {
    io: T,
    timeout: Duration,
}

impl<T: UdsTransport> Uds<T> {
    /// The transport's state.
    pub closed spec fn io(&self) -> T::State {
        self.io.state()
    }

    /// The per-request timeout.
    pub closed spec fn wait(&self) -> Duration {
        self.timeout
    }

    /// Whether requests can be made.
    pub closed spec fn ready(&self) -> bool {
        self.io.ready()
    }

    /// Wrap a ready transport (typically an ISO-TP channel to a P5 ECU).
    pub fn new(io: T) -> (r: Uds<T>)
        ensures
            r.io() == io.state(),
            r.wait() == millis(2000),
            r.ready() == io.ready(),
    {
        Uds { io, timeout: Duration::from_secs(2) }
    }

    /// Set the per-request timeout (default 2 s). This is the wait for one
    /// response; responsePending extends it transparently in the transport.
    pub fn with_timeout(self, timeout: Duration) -> (r: Uds<T>)
        ensures
            r.io() == self.io(),
            r.wait() == timeout,
            r.ready() == self.ready(),
    {
        Uds { io: self.io, timeout }
    }

    /// Change the per-request timeout in place.
    pub fn set_timeout(&mut self, timeout: Duration)
        ensures
            final(self).io() == old(self).io(),
            final(self).wait() == timeout,
            final(self).ready() == old(self).ready(),
    {
        self.timeout = timeout;
    }

    /// Borrow the underlying transport.
    pub fn transport(&mut self) -> (r: &mut T)
        ensures
            r.state() == old(self).io(),
            r.ready() == old(self).ready(),
            final(self).io() == final(r).state(),
            final(self).ready() == final(r).ready(),
            final(self).wait() == old(self).wait(),
    {
        &mut self.io
    }

    /// Recover the underlying transport.
    pub fn into_inner(self) -> (io: T)
        ensures
            io.state() == self.io(),
            io.ready() == self.ready(),
    {
        self.io
    }

    /// Core exchange: send `sid` + `data`, then require the positive echo
    /// (`sid | 0x40`) and return the bytes after it. A `7F <sid> <nrc>` reply
    /// becomes [`Error::Negative`].
    pub fn send_raw(&mut self, sid: u8, data: &[u8]) -> (r: Result<Vec<u8>, Error>)
        requires
            old(self).ready(),
        ensures
            final(self).ready(),
            final(self).wait() == old(self).wait(),
            (answered(r), final(self).io()) == served::<T>(
                old(self).io(),
                old(self).wait(),
                sid,
                data@,
            ),
    {
        serve(&mut self.io, self.timeout, sid, data)
    }

    /// [`send_raw`](Self::send_raw) with a typed [`UdsCommand`].
    pub fn send(&mut self, service: UdsCommand, data: &[u8]) -> (r: Result<Vec<u8>, Error>)
        requires
            old(self).ready(),
        ensures
            final(self).ready(),
            final(self).wait() == old(self).wait(),
            (answered(r), final(self).io()) == served::<T>(
                old(self).io(),
                old(self).wait(),
                service.id(),
                data@,
            ),
    {
        self.send_raw(service.code(), data)
    }

    /// diagnosticSessionControl (0x10).
    pub fn diagnostic_session_control(&mut self, session: u8) -> (r: Result<Vec<u8>, Error>)
        requires
            old(self).ready(),
        ensures
            final(self).ready(),
            final(self).wait() == old(self).wait(),
            (answered(r), final(self).io()) == served::<T>(
                old(self).io(),
                old(self).wait(),
                UdsCommand::DiagnosticSessionControl.id(),
                seq![session],
            ),
    {
        let data: [u8; 1] = [session];
        assert(data@ =~= seq![session]);
        self.send(UdsCommand::DiagnosticSessionControl, data.as_slice())
    }

    /// ecuReset (0x11).
    pub fn ecu_reset(&mut self, reset_type: u8) -> (r: Result<Vec<u8>, Error>)
        requires
            old(self).ready(),
        ensures
            final(self).ready(),
            final(self).wait() == old(self).wait(),
            (answered(r), final(self).io()) == served::<T>(
                old(self).io(),
                old(self).wait(),
                UdsCommand::ECUReset.id(),
                seq![reset_type],
            ),
    {
        let data: [u8; 1] = [reset_type];
        assert(data@ =~= seq![reset_type]);
        self.send(UdsCommand::ECUReset, data.as_slice())
    }

    /// testerPresent (0x3E). `suppress_response` sets the 0x80 suppress bit; a
    /// suppressed request that draws no reply is treated as success.
    pub fn tester_present(&mut self, suppress_response: bool) -> (r: Result<(), Error>)
        requires
            old(self).ready(),
        ensures
            final(self).ready(),
            final(self).wait() == old(self).wait(),
            (done(r), final(self).io()) == served_quietly::<T>(
                old(self).io(),
                old(self).wait(),
                UdsCommand::TesterPresent.id(),
                seq![if suppress_response { 0x80u8 } else { 0x00u8 }],
                suppress_response,
            ),
    {
        let sub: u8 = if suppress_response {
            0x80
        } else {
            0x00
        };
        let data: [u8; 1] = [sub];
        assert(data@ =~= seq![sub]);
        match self.send(UdsCommand::TesterPresent, data.as_slice()) {
            Ok(_) => Ok(()),
            Err(Error::Transport(CoreError::Timeout(d))) => if suppress_response {
                Ok(())
            } else {
                Err(Error::Transport(CoreError::Timeout(d)))
            },
            Err(e) => Err(e),
        }
    }

    /// securityAccess (0x27): `sub` is the requestSeed/sendKey sub-function,
    /// `data` the key material (empty for a seed request).
    pub fn security_access(&mut self, sub: u8, data: &[u8]) -> (r: Result<Vec<u8>, Error>)
        requires
            old(self).ready(),
        ensures
            final(self).ready(),
            final(self).wait() == old(self).wait(),
            (answered(r), final(self).io()) == served::<T>(
                old(self).io(),
                old(self).wait(),
                UdsCommand::SecurityAccess.id(),
                seq![sub] + data@,
            ),
    {
        let d = led_by(sub, data);
        self.send(UdsCommand::SecurityAccess, d.as_slice())
    }

    /// communicationControl (0x28).
    pub fn communication_control(&mut self, control_type: u8, comm_type: u8) -> (r: Result<Vec<u8>, Error>)
        requires
            old(self).ready(),
        ensures
            final(self).ready(),
            final(self).wait() == old(self).wait(),
            (answered(r), final(self).io()) == served::<T>(
                old(self).io(),
                old(self).wait(),
                UdsCommand::CommunicationControl.id(),
                seq![control_type, comm_type],
            ),
    {
        let data: [u8; 2] = [control_type, comm_type];
        assert(data@ =~= seq![control_type, comm_type]);
        self.send(UdsCommand::CommunicationControl, data.as_slice())
    }

    /// controlDTCSetting (0x85): `0x01` on, `0x02` off.
    pub fn control_dtc_setting(&mut self, setting: u8) -> (r: Result<Vec<u8>, Error>)
        requires
            old(self).ready(),
        ensures
            final(self).ready(),
            final(self).wait() == old(self).wait(),
            (answered(r), final(self).io()) == served::<T>(
                old(self).io(),
                old(self).wait(),
                UdsCommand::ControlDTCSetting.id(),
                seq![setting],
            ),
    {
        let data: [u8; 1] = [setting];
        assert(data@ =~= seq![setting]);
        self.send(UdsCommand::ControlDTCSetting, data.as_slice())
    }

    /// readDataByIdentifier (0x22, 2-byte DID). Returns the data after the
    /// echoed DID.
    pub fn read_data_by_id(&mut self, did: u16) -> (r: Result<Vec<u8>, Error>)
        requires
            old(self).ready(),
        ensures
            final(self).ready(),
            final(self).wait() == old(self).wait(),
            (answered(r), final(self).io()) == served_echo::<T>(
                old(self).io(),
                old(self).wait(),
                UdsCommand::ReadDataByIdentifier.id(),
                be16(did),
                be16(did),
            ),
    {
        let data = two_bytes(did);
        let resp = self.send(UdsCommand::ReadDataByIdentifier, data.as_slice())?;
        strip_echo(resp.as_slice(), data.as_slice())
    }

    /// writeDataByIdentifier (0x2E, 2-byte DID). **Writes real configuration.**
    pub fn write_data_by_id(&mut self, did: u16, value: &[u8]) -> (r: Result<Vec<u8>, Error>)
        requires
            old(self).ready(),
        ensures
            final(self).ready(),
            final(self).wait() == old(self).wait(),
            (answered(r), final(self).io()) == served::<T>(
                old(self).io(),
                old(self).wait(),
                UdsCommand::WriteDataByIdentifier.id(),
                be16(did) + value@,
            ),
    {
        let mut req = two_bytes(did);
        push_all(&mut req, value);
        self.send(UdsCommand::WriteDataByIdentifier, req.as_slice())
    }

    /// clearDiagnosticInformation (0x14, 3-byte group; `0xFFFFFF` = all).
    pub fn clear_diagnostic_information(&mut self, group: u32) -> (r: Result<Vec<u8>, Error>)
        requires
            old(self).ready(),
        ensures
            final(self).ready(),
            final(self).wait() == old(self).wait(),
            (answered(r), final(self).io()) == served::<T>(
                old(self).io(),
                old(self).wait(),
                UdsCommand::ClearDiagnosticInformation.id(),
                be32(group).skip(1),
            ),
    {
        let mut g: Vec<u8> = Vec::new();
        push_be32(&mut g, group);
        assert(g@ =~= be32(group));
        let data = &g.as_slice()[1..4];
        assert(data@ =~= be32(group).skip(1));
        self.send(UdsCommand::ClearDiagnosticInformation, data)
    }

    /// readDTCInformation (0x19) with a report-type sub-function and its
    /// parameters, e.g. `read_dtc_information(0x02, &[0xFF])` =
    /// reportDTCByStatusMask, all.
    pub fn read_dtc_information(&mut self, sub_function: u8, params: &[u8]) -> (r: Result<Vec<u8>, Error>)
        requires
            old(self).ready(),
        ensures
            final(self).ready(),
            final(self).wait() == old(self).wait(),
            (answered(r), final(self).io()) == served::<T>(
                old(self).io(),
                old(self).wait(),
                UdsCommand::ReadDTCInformation.id(),
                seq![sub_function] + params@,
            ),
    {
        let d = led_by(sub_function, params);
        self.send(UdsCommand::ReadDTCInformation, d.as_slice())
    }

    /// reportDTCByStatusMask (0x19 0x02 `<mask>`): the common "read all DTCs
    /// matching this status" call. Returns the response after `59 02`.
    pub fn read_dtc_by_status_mask(&mut self, status_mask: u8) -> (r: Result<Vec<u8>, Error>)
        requires
            old(self).ready(),
        ensures
            final(self).ready(),
            final(self).wait() == old(self).wait(),
            (answered(r), final(self).io()) == served_echo::<T>(
                old(self).io(),
                old(self).wait(),
                UdsCommand::ReadDTCInformation.id(),
                seq![DTC_BY_STATUS_MASK, status_mask],
                seq![DTC_BY_STATUS_MASK],
            ),
    {
        let sub: u8 = dtc_by_status_mask();
        let mask: [u8; 1] = [status_mask];
        let echo: [u8; 1] = [sub];
        assert(seq![sub] + mask@ =~= seq![DTC_BY_STATUS_MASK, status_mask]);
        assert(echo@ =~= seq![DTC_BY_STATUS_MASK]);
        let resp = self.read_dtc_information(sub, mask.as_slice())?;
        strip_echo(resp.as_slice(), echo.as_slice())
    }

    /// inputOutputControlByIdentifier (0x2F): `2F <DID_hi> <DID_lo> <control>
    /// <params...>`. On Toyota P5 this is the active test (control `0x03` =
    /// shortTermAdjustment). **Commands real hardware.**
    pub fn io_control_by_id(&mut self, did: u16, control: u8, params: &[u8]) -> (r: Result<Vec<u8>, Error>)
        requires
            old(self).ready(),
        ensures
            final(self).ready(),
            final(self).wait() == old(self).wait(),
            (answered(r), final(self).io()) == served_echo::<T>(
                old(self).io(),
                old(self).wait(),
                UdsCommand::InputOutputControlByIdentifier.id(),
                be16(did) + (seq![control] + params@),
                be16(did),
            ),
    {
        let d = two_bytes(did);
        let mut req = two_bytes(did);
        push_all(&mut req, led_by(control, params).as_slice());
        let resp = self.send(UdsCommand::InputOutputControlByIdentifier, req.as_slice())?;
        strip_echo(resp.as_slice(), d.as_slice())
    }

    /// routineControl (0x31): `sub` is `0x01` start / `0x02` stop / `0x03`
    /// requestResults, then the 2-byte RID and optional params.
    pub fn routine_control(&mut self, sub: u8, rid: u16, params: &[u8]) -> (r: Result<Vec<u8>, Error>)
        requires
            old(self).ready(),
        ensures
            final(self).ready(),
            final(self).wait() == old(self).wait(),
            (answered(r), final(self).io()) == served::<T>(
                old(self).io(),
                old(self).wait(),
                UdsCommand::RoutineControl.id(),
                seq![sub] + (be16(rid) + params@),
            ),
    {
        let mut rest = two_bytes(rid);
        push_all(&mut rest, params);
        let req = led_by(sub, rest.as_slice());
        self.send(UdsCommand::RoutineControl, req.as_slice())
    }
}

} // verus!
