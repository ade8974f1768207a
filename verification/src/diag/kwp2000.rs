//! KWP2000 (ISO 14230-3).

use vstd::prelude::*;

use super::common::{led_by, serve, served, served_echo, served_quietly, strip_echo};
use super::error::{answered, done, Error};
use super::services::KwpCommand;
use crate::bytes::{be16, push_be16};
use crate::error::Error as CoreError;
use crate::isotp::pending::UdsTransport;
use crate::time::{millis, Duration};

verus! {

/// A KWP2000 (ISO 14230-3) diagnostic client over any [`UdsTransport`].
///
/// The transport handles framing and responsePending (`7F .. 78`); this layer
/// builds service requests and validates responses. Every method maps an ECU
/// negative response to [`Error::Negative`] and returns the response bytes
/// *after* the echoed service id / identifier.
pub struct Kwp2000<T: UdsTransport> {
    io: T,
    timeout: Duration,
}

impl<T: UdsTransport> Kwp2000<T> {
    /// The transport's state.
    pub closed spec fn io(&self) -> T::State {
        self.io.state()
    }

    /// The per-request timeout.
    pub closed spec fn wait(&self) -> Duration {
        self.timeout
    }

    /// Whether requests can be made.
    pub closed spec fn ready(&self) -> bool {
        self.io.ready()
    }

    /// Wrap a ready transport (K-line already FAST_INIT'd, or an ISO-TP channel).
    pub fn new(io: T) -> (r: Kwp2000<T>)
        ensures
            r.io() == io.state(),
            r.wait() == millis(2000),
            r.ready() == io.ready(),
    {
        Kwp2000 { io, timeout: Duration::from_secs(2) }
    }

    /// Set the per-request timeout (default 2 s). This is the wait for one
    /// response; responsePending extends it transparently in the transport.
    pub fn with_timeout(self, timeout: Duration) -> (r: Kwp2000<T>)
        ensures
            r.io() == self.io(),
            r.wait() == timeout,
            r.ready() == self.ready(),
    {
        Kwp2000 { io: self.io, timeout }
    }

    /// Change the per-request timeout in place.
    pub fn set_timeout(&mut self, timeout: Duration)
        ensures
            final(self).io() == old(self).io(),
            final(self).wait() == timeout,
            final(self).ready() == old(self).ready(),
    {
        self.timeout = timeout;
    }

    /// Borrow the underlying transport (e.g. to re-init a K-line session).
    pub fn transport(&mut self) -> (r: &mut T)
        ensures
            r.state() == old(self).io(),
            r.ready() == old(self).ready(),
            final(self).io() == final(r).state(),
            final(self).ready() == final(r).ready(),
            final(self).wait() == old(self).wait(),
    {
        &mut self.io
    }

    /// Recover the underlying transport.
    pub fn into_inner(self) -> (io: T)
        ensures
            io.state() == self.io(),
            io.ready() == self.ready(),
    {
        self.io
    }

    /// Core exchange: send `sid` + `data`, then require the positive echo
    /// (`sid | 0x40`) and return the bytes after it. A `7F <sid> <nrc>` reply
    /// becomes [`Error::Negative`].
    pub fn send_raw(&mut self, sid: u8, data: &[u8]) -> (r: Result<Vec<u8>, Error>)
        requires
            old(self).ready(),
        ensures
            final(self).ready(),
            final(self).wait() == old(self).wait(),
            (answered(r), final(self).io()) == served::<T>(
                old(self).io(),
                old(self).wait(),
                sid,
                data@,
            ),
    {
        serve(&mut self.io, self.timeout, sid, data)
    }

    /// [`send_raw`](Self::send_raw) with a typed [`KwpCommand`].
    pub fn send(&mut self, service: KwpCommand, data: &[u8]) -> (r: Result<Vec<u8>, Error>)
        requires
            old(self).ready(),
        ensures
            final(self).ready(),
            final(self).wait() == old(self).wait(),
            (answered(r), final(self).io()) == served::<T>(
                old(self).io(),
                old(self).wait(),
                service.id(),
                data@,
            ),
    {
        self.send_raw(service.code(), data)
    }

    /// startDiagnosticSession (0x10) with a session-type byte.
    pub fn start_diagnostic_session(&mut self, session: u8) -> (r: Result<Vec<u8>, Error>)
        requires
            old(self).ready(),
        ensures
            final(self).ready(),
            final(self).wait() == old(self).wait(),
            (answered(r), final(self).io()) == served::<T>(
                old(self).io(),
                old(self).wait(),
                KwpCommand::StartDiagnosticSession.id(),
                seq![session],
            ),
    {
        let data: [u8; 1] = [session];
        assert(data@ =~= seq![session]);
        self.send(KwpCommand::StartDiagnosticSession, data.as_slice())
    }

    /// stopDiagnosticSession (0x20).
    pub fn stop_diagnostic_session(&mut self) -> (r: Result<Vec<u8>, Error>)
        requires
            old(self).ready(),
        ensures
            final(self).ready(),
            final(self).wait() == old(self).wait(),
            (answered(r), final(self).io()) == served::<T>(
                old(self).io(),
                old(self).wait(),
                0x20,
                Seq::<u8>::empty(),
            ),
    {
        let none: Vec<u8> = Vec::new();
        assert(none@ =~= Seq::empty());
        self.send_raw(0x20, none.as_slice())
    }

    /// ecuReset (0x11) with a reset-type byte.
    pub fn ecu_reset(&mut self, reset_type: u8) -> (r: Result<Vec<u8>, Error>)
        requires
            old(self).ready(),
        ensures
            final(self).ready(),
            final(self).wait() == old(self).wait(),
            (answered(r), final(self).io()) == served::<T>(
                old(self).io(),
                old(self).wait(),
                KwpCommand::ECUReset.id(),
                seq![reset_type],
            ),
    {
        let data: [u8; 1] = [reset_type];
        assert(data@ =~= seq![reset_type]);
        self.send(KwpCommand::ECUReset, data.as_slice())
    }

    /// testerPresent (0x3E). With `response_required = false` (sub 0x02), an ECU
    /// that stays silent is treated as success.
    pub fn tester_present(&mut self, response_required: bool) -> (r: Result<(), Error>)
        requires
            old(self).ready(),
        ensures
            final(self).ready(),
            final(self).wait() == old(self).wait(),
            (done(r), final(self).io()) == served_quietly::<T>(
                old(self).io(),
                old(self).wait(),
                KwpCommand::TesterPresent.id(),
                seq![if response_required { 0x01u8 } else { 0x02u8 }],
                !response_required,
            ),
    {
        let sub: u8 = if response_required {
            0x01
        } else {
            0x02
        };
        let data: [u8; 1] = [sub];
        assert(data@ =~= seq![sub]);
        match self.send(KwpCommand::TesterPresent, data.as_slice()) {
            Ok(_) => Ok(()),
            Err(Error::Transport(CoreError::Timeout(d))) => if response_required {
                Err(Error::Transport(CoreError::Timeout(d)))
            } else {
                Ok(())
            },
            Err(e) => Err(e),
        }
    }

    /// securityAccess (0x27): `sub` is the requestSeed/sendKey sub-function,
    /// `data` the (empty for seed request) key material.
    pub fn security_access(&mut self, sub: u8, data: &[u8]) -> (r: Result<Vec<u8>, Error>)
        requires
            old(self).ready(),
        ensures
            final(self).ready(),
            final(self).wait() == old(self).wait(),
            (answered(r), final(self).io()) == served::<T>(
                old(self).io(),
                old(self).wait(),
                KwpCommand::SecurityAccess.id(),
                seq![sub] + data@,
            ),
    {
        let d = led_by(sub, data);
        self.send(KwpCommand::SecurityAccess, d.as_slice())
    }

    /// readDataByLocalIdentifier (0x21): the Toyota data-list read. Returns the
    /// data bytes after the echoed LID.
    pub fn read_data_by_local_id(&mut self, lid: u8) -> (r: Result<Vec<u8>, Error>)
        requires
            old(self).ready(),
        ensures
            final(self).ready(),
            final(self).wait() == old(self).wait(),
            (answered(r), final(self).io()) == served_echo::<T>(
                old(self).io(),
                old(self).wait(),
                KwpCommand::ReadDataByLocalIdentifier.id(),
                seq![lid],
                seq![lid],
            ),
    {
        let data: [u8; 1] = [lid];
        assert(data@ =~= seq![lid]);
        let resp = self.send(KwpCommand::ReadDataByLocalIdentifier, data.as_slice())?;
        strip_echo(resp.as_slice(), data.as_slice())
    }

    /// readDataByIdentifier (0x22, 2-byte identifier). Returns the data bytes
    /// after the echoed identifier.
    pub fn read_data_by_id(&mut self, id: u16) -> (r: Result<Vec<u8>, Error>)
        requires
            old(self).ready(),
        ensures
            final(self).ready(),
            final(self).wait() == old(self).wait(),
            (answered(r), final(self).io()) == served_echo::<T>(
                old(self).io(),
                old(self).wait(),
                KwpCommand::ReadDataByIdentifier.id(),
                be16(id),
                be16(id),
            ),
    {
        let data = two_bytes(id);
        let resp = self.send(KwpCommand::ReadDataByIdentifier, data.as_slice())?;
        strip_echo(resp.as_slice(), data.as_slice())
    }

    /// readDiagnosticTroubleCodesByStatus (0x18): `status_mask` then a 2-byte
    /// group (`0xFF00` = all groups).
    pub fn read_dtc_by_status(&mut self, status_mask: u8, group: u16) -> (r: Result<Vec<u8>, Error>)
        requires
            old(self).ready(),
        ensures
            final(self).ready(),
            final(self).wait() == old(self).wait(),
            (answered(r), final(self).io()) == served::<T>(
                old(self).io(),
                old(self).wait(),
                KwpCommand::ReadDiagnosticTroubleCodesByStatus.id(),
                seq![status_mask] + be16(group),
            ),
    {
        let d = led_by(status_mask, two_bytes(group).as_slice());
        self.send(KwpCommand::ReadDiagnosticTroubleCodesByStatus, d.as_slice())
    }

    /// readStatusOfDiagnosticTroubleCodes (0x17): 2-byte group (`0xFF00` = all).
    pub fn read_status_of_dtc(&mut self, group: u16) -> (r: Result<Vec<u8>, Error>)
        requires
            old(self).ready(),
        ensures
            final(self).ready(),
            final(self).wait() == old(self).wait(),
            (answered(r), final(self).io()) == served::<T>(
                old(self).io(),
                old(self).wait(),
                KwpCommand::ReadStatusOfDiagnosticTroubleCodes.id(),
                be16(group),
            ),
    {
        self.send(KwpCommand::ReadStatusOfDiagnosticTroubleCodes, two_bytes(group).as_slice())
    }

    /// clearDiagnosticInformation (0x14): 2-byte group (`0xFF00` = all).
    pub fn clear_diagnostic_information(&mut self, group: u16) -> (r: Result<Vec<u8>, Error>)
        requires
            old(self).ready(),
        ensures
            final(self).ready(),
            final(self).wait() == old(self).wait(),
            (answered(r), final(self).io()) == served::<T>(
                old(self).io(),
                old(self).wait(),
                KwpCommand::ClearDiagnosticInformation.id(),
                be16(group),
            ),
    {
        self.send(KwpCommand::ClearDiagnosticInformation, two_bytes(group).as_slice())
    }

    /// readFreezeFrameData (`12 <LID> <record>`): a KWP-enhanced service absent
    /// from the standard [`KwpCommand`] set; sent by raw SID.
    pub fn read_freeze_frame(&mut self, lid: u8, record: u8) -> (r: Result<Vec<u8>, Error>)
        requires
            old(self).ready(),
        ensures
            final(self).ready(),
            final(self).wait() == old(self).wait(),
            (answered(r), final(self).io()) == served::<T>(
                old(self).io(),
                old(self).wait(),
                0x12,
                seq![lid, record],
            ),
    {
        let data: [u8; 2] = [lid, record];
        assert(data@ =~= seq![lid, record]);
        self.send_raw(0x12, data.as_slice())
    }

    /// inputOutputControlByLocalIdentifier (0x30). On Toyota this is the active
    /// test: `30 <id> <params...>`.
    pub fn io_control_local(&mut self, id: u8, params: &[u8]) -> (r: Result<Vec<u8>, Error>)
        requires
            old(self).ready(),
        ensures
            final(self).ready(),
            final(self).wait() == old(self).wait(),
            (answered(r), final(self).io()) == served::<T>(
                old(self).io(),
                old(self).wait(),
                KwpCommand::InputOutputControlByLocalIdentifier.id(),
                seq![id] + params@,
            ),
    {
        let d = led_by(id, params);
        self.send(KwpCommand::InputOutputControlByLocalIdentifier, d.as_slice())
    }

    /// startRoutineByLocalIdentifier (0x31): `31 <id> <params...>`.
    pub fn start_routine_local(&mut self, id: u8, params: &[u8]) -> (r: Result<Vec<u8>, Error>)
        requires
            old(self).ready(),
        ensures
            final(self).ready(),
            final(self).wait() == old(self).wait(),
            (answered(r), final(self).io()) == served::<T>(
                old(self).io(),
                old(self).wait(),
                KwpCommand::StartRoutineByLocalIdentifier.id(),
                seq![id] + params@,
            ),
    {
        let d = led_by(id, params);
        self.send(KwpCommand::StartRoutineByLocalIdentifier, d.as_slice())
    }

    /// writeDataByLocalIdentifier (0x3B): `3B <LID> <value...>`.
    pub fn write_data_by_local_id(&mut self, lid: u8, value: &[u8]) -> (r: Result<Vec<u8>, Error>)
        requires
            old(self).ready(),
        ensures
            final(self).ready(),
            final(self).wait() == old(self).wait(),
            (answered(r), final(self).io()) == served::<T>(
                old(self).io(),
                old(self).wait(),
                KwpCommand::WriteDataByLocalIdentifier.id(),
                seq![lid] + value@,
            ),
    {
        let d = led_by(lid, value);
        self.send(KwpCommand::WriteDataByLocalIdentifier, d.as_slice())
    }
}

/// A number as two bytes, most significant first.
pub fn two_bytes(v: u16) -> (r: Vec<u8>)
    ensures
        r@ == be16(v),
{
    let mut r: Vec<u8> = Vec::new();
    push_be16(&mut r, v);
    assert(r@ =~= be16(v));
    r
}

} // verus!
