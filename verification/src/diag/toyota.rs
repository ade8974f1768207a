//! Toyota-specific KWP services and conventions that aren't in the standard
//! ISO 14230-3 catalogue.

use vstd::prelude::*;

use super::common::served;
use super::error::{answered, DiagFault, Error};
use super::kwp2000::Kwp2000;
use super::services::{
    obd_service01, obd_service03, KwpCommand, OBD_CURRENT_DATA, OBD_STORED_DTCS,
};
use crate::bytes::copy_range;
use crate::isotp::pending::UdsTransport;

verus! {

/// Toyota proprietary customize-write service id (`A5 <LID> <value>`), used by
/// ECUs whose customize descriptor is `0x11` (legacy KWP). Not part of ISO
/// 14230.
pub const SID_TOYOTA_WRITE: u8 = 0xa5;

/// The data after an echoed PID; a response that does not lead with it is left
/// whole.
pub open spec fn after_pid(resp: Seq<u8>, pid: u8) -> Seq<u8> {
    if resp.len() > 0 && resp[0] == pid {
        resp.skip(1)
    } else {
        resp
    }
}

impl<T: UdsTransport> Kwp2000<T> {
    /// Toyota active test: drive an actuator to a state via
    /// inputOutputControlByLocalIdentifier: `30 <actuator-id> <state>`.
    ///
    /// e.g. the Prius A/C air-mix damper (D) is id `0x03`, so
    /// `active_test(0x03, vv)` sends `30 03 <vv>`. `state` is a relay ON bit
    /// mask or an analog 0-255 drive value depending on the actuator.
    ///
    /// **Active tests command real hardware.** Only issue them with the vehicle
    /// in the state the service manual requires.
    pub fn active_test(&mut self, actuator_id: u8, state: u8) -> (r: Result<Vec<u8>, Error>)
        requires
            old(self).ready(),
        ensures
            final(self).ready(),
            final(self).wait() == old(self).wait(),
            (answered(r), final(self).io()) == served::<T>(
                old(self).io(),
                old(self).wait(),
                KwpCommand::InputOutputControlByLocalIdentifier.id(),
                seq![actuator_id, state],
            ),
    {
        let data: [u8; 1] = [state];
        assert(seq![actuator_id] + data@ =~= seq![actuator_id, state]);
        self.io_control_local(actuator_id, data.as_slice())
    }

    /// Toyota proprietary customize write (`A5 <LID> <value>`), for descriptor
    /// `0x11` ECUs. Descriptor `0x12`/`0x22` ECUs use
    /// [`write_data_by_local_id`](Kwp2000::write_data_by_local_id) (`3B`)
    /// instead. The value is caller-chosen.
    pub fn customize_write_toyota(&mut self, lid: u8, value: u8) -> (r: Result<Vec<u8>, Error>)
        requires
            old(self).ready(),
        ensures
            final(self).ready(),
            final(self).wait() == old(self).wait(),
            (answered(r), final(self).io()) == served::<T>(
                old(self).io(),
                old(self).wait(),
                SID_TOYOTA_WRITE,
                seq![lid, value],
            ),
    {
        let data: [u8; 2] = [lid, value];
        assert(data@ =~= seq![lid, value]);
        self.send_raw(SID_TOYOTA_WRITE, data.as_slice())
    }

    /// OBD-II service 01 (current data): `01 <PID>`. Returns the data bytes
    /// after the echoed PID.
    pub fn obd_current_data(&mut self, pid: u8) -> (r: Result<Vec<u8>, Error>)
        requires
            old(self).ready(),
        ensures
            final(self).ready(),
            final(self).wait() == old(self).wait(),
            ({
                let (owed, after) = served::<T>(
                    old(self).io(),
                    old(self).wait(),
                    OBD_CURRENT_DATA,
                    seq![pid],
                );
                &&& final(self).io() == after
                &&& answered(r) == match owed {
                    Ok(resp) => Ok::<Seq<u8>, DiagFault>(after_pid(resp, pid)),
                    Err(e) => Err(e),
                }
            }),
    {
        let data: [u8; 1] = [pid];
        assert(data@ =~= seq![pid]);
        let resp = self.send_raw(obd_service01(), data.as_slice())?;
        if resp.len() > 0 && resp[0] == pid {
            let tail = copy_range(resp.as_slice(), 1, resp.len());
            assert(tail@ =~= resp@.skip(1));
            Ok(tail)
        } else {
            Ok(resp)
        }
    }

    /// OBD-II service 03 (stored DTCs). Returns the raw code payload.
    pub fn obd_stored_dtcs(&mut self) -> (r: Result<Vec<u8>, Error>)
        requires
            old(self).ready(),
        ensures
            final(self).ready(),
            final(self).wait() == old(self).wait(),
            (answered(r), final(self).io()) == served::<T>(
                old(self).io(),
                old(self).wait(),
                OBD_STORED_DTCS,
                Seq::<u8>::empty(),
            ),
    {
        let none: Vec<u8> = Vec::new();
        assert(none@ =~= Seq::empty());
        self.send_raw(obd_service03(), none.as_slice())
    }
}

} // verus!
