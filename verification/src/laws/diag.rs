//! The diagnostic services: the bytes each puts to the ECU, and what it makes of
//! the answer.

use vstd::prelude::*;

use super::wire::{high_first, lemma_byte_orders};
use crate::diag::common::{served, served_echo, served_quietly};
use crate::diag::error::{answered, done, DiagFault, Error};
use crate::diag::kwp2000::Kwp2000;
use crate::diag::services::{KwpCommand, UdsCommand};
use crate::diag::toyota_can::{
    enumerated, pids_in, pids_of, tlv_of, EnumeratedPid, IsoTpChannel, Pid, ToyotaCanLive,
};
use crate::diag::uds::Uds;
use crate::error::Error as CoreError;
use crate::isotp::pending::{after_receipts, drained, nth_receipt, Receive, UdsTransport};
use crate::time::Duration;

verus! {

/// What an answer to service `sid` comes to: the bytes after the first, if that
/// is the service with bit 6 set; a refusal if it is 7F, with the service and the
/// code that follow; and otherwise something unexpected.
pub open spec fn bare(a: Result<Seq<u8>, CoreError>, sid: u8) -> Result<Seq<u8>, DiagFault> {
    match a {
        Err(e) => Err(DiagFault::Transport(e)),
        Ok(resp) => if resp.len() == 0 {
            Err(DiagFault::Empty)
        } else if resp[0] == 0x7f {
            Err(
                DiagFault::Negative {
                    service: if resp.len() >= 2 {
                        resp[1]
                    } else {
                        sid
                    },
                    nrc: if resp.len() >= 3 {
                        resp[2]
                    } else {
                        0
                    },
                },
            )
        } else if resp[0] == sid | 0x40 {
            Ok(resp.skip(1))
        } else {
            Err(DiagFault::Unexpected { expected: sid | 0x40, got: resp })
        },
    }
}

/// The same, where the answer repeats `echo` before the data.
pub open spec fn bare_past(
    a: Result<Seq<u8>, CoreError>,
    sid: u8,
    echo: Seq<u8>,
) -> Result<Seq<u8>, DiagFault> {
    match bare(a, sid) {
        Err(e) => Err(e),
        Ok(body) => if body.len() >= echo.len() && body.take(echo.len() as int) == echo {
            Ok(body.skip(echo.len() as int))
        } else {
            Err(
                DiagFault::Unexpected {
                    expected: if echo.len() > 0 {
                        echo[0] | 0x40
                    } else {
                        0
                    },
                    got: body,
                },
            )
        },
    }
}

/// Whether one request of the bytes `req` gives `r`, and leaves `io1`.
pub open spec fn serves<T: UdsTransport>(
    io: T::State,
    wait: Duration,
    io1: T::State,
    r: Result<Vec<u8>, Error>,
    req: Seq<u8>,
) -> bool {
    let (a, after) = T::exchange(io, req, wait);
    io1 == after && answered(r) == bare(a, req[0])
}

/// The same, where the answer repeats `echo`.
pub open spec fn serves_past<T: UdsTransport>(
    io: T::State,
    wait: Duration,
    io1: T::State,
    r: Result<Vec<u8>, Error>,
    req: Seq<u8>,
    echo: Seq<u8>,
) -> bool {
    let (a, after) = T::exchange(io, req, wait);
    io1 == after && answered(r) == bare_past(a, req[0], echo)
}

/// The same, where only the outcome counts and silence may be one.
pub open spec fn serves_quietly<T: UdsTransport>(
    io: T::State,
    wait: Duration,
    io1: T::State,
    r: Result<(), Error>,
    req: Seq<u8>,
    silence: bool,
) -> bool {
    let (a, after) = T::exchange(io, req, wait);
    &&& io1 == after
    &&& done(r) == match bare(a, req[0]) {
        Ok(_) => Ok::<(), DiagFault>(()),
        Err(e) => if silence && e is Transport && e->Transport_0 is Timeout {
            Ok(())
        } else {
            Err(e)
        },
    }
}

proof fn lemma_bare<T: UdsTransport>(
    io: T::State,
    wait: Duration,
    sid: u8,
    data: Seq<u8>,
    req: Seq<u8>,
    echo: Seq<u8>,
    silence: bool,
)
    requires
        seq![sid] + data == req,
    ensures
        req[0] == sid,
        served::<T>(io, wait, sid, data) == (
            bare(T::exchange(io, req, wait).0, sid),
            T::exchange(io, req, wait).1,
        ),
        served_echo::<T>(io, wait, sid, data, echo) == (
            bare_past(T::exchange(io, req, wait).0, sid, echo),
            T::exchange(io, req, wait).1,
        ),
        served_quietly::<T>(io, wait, sid, data, silence) == (
            match bare(T::exchange(io, req, wait).0, sid) {
                Ok(_) => Ok::<(), DiagFault>(()),
                Err(e) => if silence && e is Transport && e->Transport_0 is Timeout {
                    Ok(())
                } else {
                    Err(e)
                },
            },
            T::exchange(io, req, wait).1,
        ),
{
    assert(req[0] == (seq![sid] + data)[0]);
}

/// The KWP2000 services, byte by byte.
pub proof fn lemma_kwp_services<T: UdsTransport>(
    a: u8,
    b: u8,
    h: u16,
    w: u32,
    d: &[u8],
    r: Result<Vec<u8>, Error>,
)
    ensures
        forall|k: &mut Kwp2000<T>| #[trigger]
            call_ensures(Kwp2000::<T>::start_diagnostic_session, (k, a), r) ==> (*final(k)).wait() == (*k).wait()
                && serves::<T>((*k).io(), (*k).wait(), (*final(k)).io(), r, seq![0x10u8, a]),
        forall|k: &mut Kwp2000<T>| #[trigger]
            call_ensures(Kwp2000::<T>::stop_diagnostic_session, (k,), r) ==> (*final(k)).wait() == (*k).wait()
                && serves::<T>((*k).io(), (*k).wait(), (*final(k)).io(), r, seq![0x20u8]),
        forall|k: &mut Kwp2000<T>| #[trigger]
            call_ensures(Kwp2000::<T>::ecu_reset, (k, a), r) ==> (*final(k)).wait() == (*k).wait()
                && serves::<T>((*k).io(), (*k).wait(), (*final(k)).io(), r, seq![0x11u8, a]),
        forall|k: &mut Kwp2000<T>| #[trigger]
            call_ensures(Kwp2000::<T>::security_access, (k, a, d), r) ==> (*final(k)).wait() == (*k).wait()
                && serves::<T>((*k).io(), (*k).wait(), (*final(k)).io(), r, seq![0x27u8, a] + d@),
        forall|k: &mut Kwp2000<T>| #[trigger]
            call_ensures(Kwp2000::<T>::read_data_by_local_id, (k, a), r) ==> (*final(k)).wait() == (*k).wait()
                && serves_past::<T>((*k).io(), (*k).wait(), (*final(k)).io(), r, seq![0x21u8, a], seq![a]),
        forall|k: &mut Kwp2000<T>| #[trigger]
            call_ensures(Kwp2000::<T>::read_data_by_id, (k, h), r) ==> (*final(k)).wait() == (*k).wait()
                && serves_past::<T>((*k).io(), (*k).wait(), (*final(k)).io(), r, seq![0x22u8] + high_first(h as nat, 2), high_first(h as nat, 2)),
        forall|k: &mut Kwp2000<T>| #[trigger]
            call_ensures(Kwp2000::<T>::read_dtc_by_status, (k, a, h), r) ==> (*final(k)).wait() == (*k).wait()
                && serves::<T>((*k).io(), (*k).wait(), (*final(k)).io(), r, seq![0x18u8, a] + high_first(h as nat, 2)),
        forall|k: &mut Kwp2000<T>| #[trigger]
            call_ensures(Kwp2000::<T>::read_status_of_dtc, (k, h), r) ==> (*final(k)).wait() == (*k).wait()
                && serves::<T>((*k).io(), (*k).wait(), (*final(k)).io(), r, seq![0x17u8] + high_first(h as nat, 2)),
        forall|k: &mut Kwp2000<T>| #[trigger]
            call_ensures(Kwp2000::<T>::clear_diagnostic_information, (k, h), r) ==> (*final(k)).wait() == (*k).wait()
                && serves::<T>((*k).io(), (*k).wait(), (*final(k)).io(), r, seq![0x14u8] + high_first(h as nat, 2)),
        forall|k: &mut Kwp2000<T>| #[trigger]
            call_ensures(Kwp2000::<T>::read_freeze_frame, (k, a, b), r) ==> (*final(k)).wait() == (*k).wait()
                && serves::<T>((*k).io(), (*k).wait(), (*final(k)).io(), r, seq![0x12u8, a, b]),
        forall|k: &mut Kwp2000<T>| #[trigger]
            call_ensures(Kwp2000::<T>::io_control_local, (k, a, d), r) ==> (*final(k)).wait() == (*k).wait()
                && serves::<T>((*k).io(), (*k).wait(), (*final(k)).io(), r, seq![0x30u8, a] + d@),
        forall|k: &mut Kwp2000<T>| #[trigger]
            call_ensures(Kwp2000::<T>::start_routine_local, (k, a, d), r) ==> (*final(k)).wait() == (*k).wait()
                && serves::<T>((*k).io(), (*k).wait(), (*final(k)).io(), r, seq![0x31u8, a] + d@),
        forall|k: &mut Kwp2000<T>| #[trigger]
            call_ensures(Kwp2000::<T>::write_data_by_local_id, (k, a, d), r) ==> (*final(k)).wait() == (*k).wait()
                && serves::<T>((*k).io(), (*k).wait(), (*final(k)).io(), r, seq![0x3bu8, a] + d@),
        forall|k: &mut Kwp2000<T>| #[trigger]
            call_ensures(Kwp2000::<T>::active_test, (k, a, b), r) ==> (*final(k)).wait() == (*k).wait()
                && serves::<T>((*k).io(), (*k).wait(), (*final(k)).io(), r, seq![0x30u8, a, b]),
        forall|k: &mut Kwp2000<T>| #[trigger]
            call_ensures(Kwp2000::<T>::customize_write_toyota, (k, a, b), r) ==> (*final(k)).wait() == (*k).wait()
                && serves::<T>((*k).io(), (*k).wait(), (*final(k)).io(), r, seq![0xa5u8, a, b]),
        forall|k: &mut Kwp2000<T>| #[trigger]
            call_ensures(Kwp2000::<T>::obd_stored_dtcs, (k,), r) ==> (*final(k)).wait() == (*k).wait()
                && serves::<T>((*k).io(), (*k).wait(), (*final(k)).io(), r, seq![0x03u8]),
        forall|k: &mut Kwp2000<T>| #[trigger]
            call_ensures(Kwp2000::<T>::send_raw, (k, a, d), r) ==> (*final(k)).wait() == (*k).wait()
                && serves::<T>((*k).io(), (*k).wait(), (*final(k)).io(), r, seq![a] + d@),
{
    lemma_byte_orders(0, w, h);
    assert forall|k: &mut Kwp2000<T>| #[trigger]
        call_ensures(Kwp2000::<T>::start_diagnostic_session, (k, a), r) implies (*final(k)).wait() == (*k).wait()
            && serves::<T>((*k).io(), (*k).wait(), (*final(k)).io(), r, seq![0x10u8, a]) by {
        let req = seq![0x10u8, a];
        assert(seq![0x10u8] + (seq![a]) =~= req);
        lemma_bare::<T>((*k).io(), (*k).wait(), 0x10, seq![a], req, Seq::<u8>::empty(), false);
    }
    assert forall|k: &mut Kwp2000<T>| #[trigger]
        call_ensures(Kwp2000::<T>::stop_diagnostic_session, (k,), r) implies (*final(k)).wait() == (*k).wait()
            && serves::<T>((*k).io(), (*k).wait(), (*final(k)).io(), r, seq![0x20u8]) by {
        let req = seq![0x20u8];
        assert(seq![0x20u8] + (Seq::<u8>::empty()) =~= req);
        lemma_bare::<T>((*k).io(), (*k).wait(), 0x20, Seq::<u8>::empty(), req, Seq::<u8>::empty(), false);
    }
    assert forall|k: &mut Kwp2000<T>| #[trigger]
        call_ensures(Kwp2000::<T>::ecu_reset, (k, a), r) implies (*final(k)).wait() == (*k).wait()
            && serves::<T>((*k).io(), (*k).wait(), (*final(k)).io(), r, seq![0x11u8, a]) by {
        let req = seq![0x11u8, a];
        assert(seq![0x11u8] + (seq![a]) =~= req);
        lemma_bare::<T>((*k).io(), (*k).wait(), 0x11, seq![a], req, Seq::<u8>::empty(), false);
    }
    assert forall|k: &mut Kwp2000<T>| #[trigger]
        call_ensures(Kwp2000::<T>::security_access, (k, a, d), r) implies (*final(k)).wait() == (*k).wait()
            && serves::<T>((*k).io(), (*k).wait(), (*final(k)).io(), r, seq![0x27u8, a] + d@) by {
        let req = seq![0x27u8, a] + d@;
        assert(seq![0x27u8] + (seq![a] + d@) =~= req);
        lemma_bare::<T>((*k).io(), (*k).wait(), 0x27, seq![a] + d@, req, Seq::<u8>::empty(), false);
    }
    assert forall|k: &mut Kwp2000<T>| #[trigger]
        call_ensures(Kwp2000::<T>::read_data_by_local_id, (k, a), r) implies (*final(k)).wait() == (*k).wait()
            && serves_past::<T>((*k).io(), (*k).wait(), (*final(k)).io(), r, seq![0x21u8, a], seq![a]) by {
        let req = seq![0x21u8, a];
        assert(seq![0x21u8] + (seq![a]) =~= req);
        lemma_bare::<T>((*k).io(), (*k).wait(), 0x21, seq![a], req, seq![a], false);
    }
    assert forall|k: &mut Kwp2000<T>| #[trigger]
        call_ensures(Kwp2000::<T>::read_data_by_id, (k, h), r) implies (*final(k)).wait() == (*k).wait()
            && serves_past::<T>((*k).io(), (*k).wait(), (*final(k)).io(), r, seq![0x22u8] + high_first(h as nat, 2), high_first(h as nat, 2)) by {
        let req = seq![0x22u8] + high_first(h as nat, 2);
        assert(seq![0x22u8] + (high_first(h as nat, 2)) =~= req);
        lemma_bare::<T>((*k).io(), (*k).wait(), 0x22, high_first(h as nat, 2), req, high_first(h as nat, 2), false);
    }
    assert forall|k: &mut Kwp2000<T>| #[trigger]
        call_ensures(Kwp2000::<T>::read_dtc_by_status, (k, a, h), r) implies (*final(k)).wait() == (*k).wait()
            && serves::<T>((*k).io(), (*k).wait(), (*final(k)).io(), r, seq![0x18u8, a] + high_first(h as nat, 2)) by {
        let req = seq![0x18u8, a] + high_first(h as nat, 2);
        assert(seq![0x18u8] + (seq![a] + high_first(h as nat, 2)) =~= req);
        lemma_bare::<T>((*k).io(), (*k).wait(), 0x18, seq![a] + high_first(h as nat, 2), req, Seq::<u8>::empty(), false);
    }
    assert forall|k: &mut Kwp2000<T>| #[trigger]
        call_ensures(Kwp2000::<T>::read_status_of_dtc, (k, h), r) implies (*final(k)).wait() == (*k).wait()
            && serves::<T>((*k).io(), (*k).wait(), (*final(k)).io(), r, seq![0x17u8] + high_first(h as nat, 2)) by {
        let req = seq![0x17u8] + high_first(h as nat, 2);
        assert(seq![0x17u8] + (high_first(h as nat, 2)) =~= req);
        lemma_bare::<T>((*k).io(), (*k).wait(), 0x17, high_first(h as nat, 2), req, Seq::<u8>::empty(), false);
    }
    assert forall|k: &mut Kwp2000<T>| #[trigger]
        call_ensures(Kwp2000::<T>::clear_diagnostic_information, (k, h), r) implies (*final(k)).wait() == (*k).wait()
            && serves::<T>((*k).io(), (*k).wait(), (*final(k)).io(), r, seq![0x14u8] + high_first(h as nat, 2)) by {
        let req = seq![0x14u8] + high_first(h as nat, 2);
        assert(seq![0x14u8] + (high_first(h as nat, 2)) =~= req);
        lemma_bare::<T>((*k).io(), (*k).wait(), 0x14, high_first(h as nat, 2), req, Seq::<u8>::empty(), false);
    }
    assert forall|k: &mut Kwp2000<T>| #[trigger]
        call_ensures(Kwp2000::<T>::read_freeze_frame, (k, a, b), r) implies (*final(k)).wait() == (*k).wait()
            && serves::<T>((*k).io(), (*k).wait(), (*final(k)).io(), r, seq![0x12u8, a, b]) by {
        let req = seq![0x12u8, a, b];
        assert(seq![0x12u8] + (seq![a, b]) =~= req);
        lemma_bare::<T>((*k).io(), (*k).wait(), 0x12, seq![a, b], req, Seq::<u8>::empty(), false);
    }
    assert forall|k: &mut Kwp2000<T>| #[trigger]
        call_ensures(Kwp2000::<T>::io_control_local, (k, a, d), r) implies (*final(k)).wait() == (*k).wait()
            && serves::<T>((*k).io(), (*k).wait(), (*final(k)).io(), r, seq![0x30u8, a] + d@) by {
        let req = seq![0x30u8, a] + d@;
        assert(seq![0x30u8] + (seq![a] + d@) =~= req);
        lemma_bare::<T>((*k).io(), (*k).wait(), 0x30, seq![a] + d@, req, Seq::<u8>::empty(), false);
    }
    assert forall|k: &mut Kwp2000<T>| #[trigger]
        call_ensures(Kwp2000::<T>::start_routine_local, (k, a, d), r) implies (*final(k)).wait() == (*k).wait()
            && serves::<T>((*k).io(), (*k).wait(), (*final(k)).io(), r, seq![0x31u8, a] + d@) by {
        let req = seq![0x31u8, a] + d@;
        assert(seq![0x31u8] + (seq![a] + d@) =~= req);
        lemma_bare::<T>((*k).io(), (*k).wait(), 0x31, seq![a] + d@, req, Seq::<u8>::empty(), false);
    }
    assert forall|k: &mut Kwp2000<T>| #[trigger]
        call_ensures(Kwp2000::<T>::write_data_by_local_id, (k, a, d), r) implies (*final(k)).wait() == (*k).wait()
            && serves::<T>((*k).io(), (*k).wait(), (*final(k)).io(), r, seq![0x3bu8, a] + d@) by {
        let req = seq![0x3bu8, a] + d@;
        assert(seq![0x3bu8] + (seq![a] + d@) =~= req);
        lemma_bare::<T>((*k).io(), (*k).wait(), 0x3b, seq![a] + d@, req, Seq::<u8>::empty(), false);
    }
    assert forall|k: &mut Kwp2000<T>| #[trigger]
        call_ensures(Kwp2000::<T>::active_test, (k, a, b), r) implies (*final(k)).wait() == (*k).wait()
            && serves::<T>((*k).io(), (*k).wait(), (*final(k)).io(), r, seq![0x30u8, a, b]) by {
        let req = seq![0x30u8, a, b];
        assert(seq![0x30u8] + (seq![a, b]) =~= req);
        lemma_bare::<T>((*k).io(), (*k).wait(), 0x30, seq![a, b], req, Seq::<u8>::empty(), false);
    }
    assert forall|k: &mut Kwp2000<T>| #[trigger]
        call_ensures(Kwp2000::<T>::customize_write_toyota, (k, a, b), r) implies (*final(k)).wait() == (*k).wait()
            && serves::<T>((*k).io(), (*k).wait(), (*final(k)).io(), r, seq![0xa5u8, a, b]) by {
        let req = seq![0xa5u8, a, b];
        assert(seq![0xa5u8] + (seq![a, b]) =~= req);
        lemma_bare::<T>((*k).io(), (*k).wait(), 0xa5, seq![a, b], req, Seq::<u8>::empty(), false);
    }
    assert forall|k: &mut Kwp2000<T>| #[trigger]
        call_ensures(Kwp2000::<T>::obd_stored_dtcs, (k,), r) implies (*final(k)).wait() == (*k).wait()
            && serves::<T>((*k).io(), (*k).wait(), (*final(k)).io(), r, seq![0x03u8]) by {
        let req = seq![0x03u8];
        assert(seq![0x03u8] + (Seq::<u8>::empty()) =~= req);
        lemma_bare::<T>((*k).io(), (*k).wait(), 0x03, Seq::<u8>::empty(), req, Seq::<u8>::empty(), false);
    }
    assert forall|k: &mut Kwp2000<T>| #[trigger]
        call_ensures(Kwp2000::<T>::send_raw, (k, a, d), r) implies (*final(k)).wait() == (*k).wait()
            && serves::<T>((*k).io(), (*k).wait(), (*final(k)).io(), r, seq![a] + d@) by {
        let req = seq![a] + d@;
        assert(seq![a] + (d@) =~= req);
        lemma_bare::<T>((*k).io(), (*k).wait(), a, d@, req, Seq::<u8>::empty(), false);
    }
}

/// The UDS services, byte by byte.
pub proof fn lemma_uds_services<T: UdsTransport>(
    a: u8,
    b: u8,
    h: u16,
    w: u32,
    d: &[u8],
    r: Result<Vec<u8>, Error>,
)
    ensures
        forall|k: &mut Uds<T>| #[trigger]
            call_ensures(Uds::<T>::diagnostic_session_control, (k, a), r) ==> (*final(k)).wait() == (*k).wait()
                && serves::<T>((*k).io(), (*k).wait(), (*final(k)).io(), r, seq![0x10u8, a]),
        forall|k: &mut Uds<T>| #[trigger]
            call_ensures(Uds::<T>::ecu_reset, (k, a), r) ==> (*final(k)).wait() == (*k).wait()
                && serves::<T>((*k).io(), (*k).wait(), (*final(k)).io(), r, seq![0x11u8, a]),
        forall|k: &mut Uds<T>| #[trigger]
            call_ensures(Uds::<T>::security_access, (k, a, d), r) ==> (*final(k)).wait() == (*k).wait()
                && serves::<T>((*k).io(), (*k).wait(), (*final(k)).io(), r, seq![0x27u8, a] + d@),
        forall|k: &mut Uds<T>| #[trigger]
            call_ensures(Uds::<T>::communication_control, (k, a, b), r) ==> (*final(k)).wait() == (*k).wait()
                && serves::<T>((*k).io(), (*k).wait(), (*final(k)).io(), r, seq![0x28u8, a, b]),
        forall|k: &mut Uds<T>| #[trigger]
            call_ensures(Uds::<T>::control_dtc_setting, (k, a), r) ==> (*final(k)).wait() == (*k).wait()
                && serves::<T>((*k).io(), (*k).wait(), (*final(k)).io(), r, seq![0x85u8, a]),
        forall|k: &mut Uds<T>| #[trigger]
            call_ensures(Uds::<T>::read_data_by_id, (k, h), r) ==> (*final(k)).wait() == (*k).wait()
                && serves_past::<T>((*k).io(), (*k).wait(), (*final(k)).io(), r, seq![0x22u8] + high_first(h as nat, 2), high_first(h as nat, 2)),
        forall|k: &mut Uds<T>| #[trigger]
            call_ensures(Uds::<T>::write_data_by_id, (k, h, d), r) ==> (*final(k)).wait() == (*k).wait()
                && serves::<T>((*k).io(), (*k).wait(), (*final(k)).io(), r, seq![0x2eu8] + high_first(h as nat, 2) + d@),
        forall|k: &mut Uds<T>| #[trigger]
            call_ensures(Uds::<T>::clear_diagnostic_information, (k, w), r) ==> (*final(k)).wait() == (*k).wait()
                && serves::<T>((*k).io(), (*k).wait(), (*final(k)).io(), r, seq![0x14u8] + high_first(w as nat, 4).skip(1)),
        forall|k: &mut Uds<T>| #[trigger]
            call_ensures(Uds::<T>::read_dtc_information, (k, a, d), r) ==> (*final(k)).wait() == (*k).wait()
                && serves::<T>((*k).io(), (*k).wait(), (*final(k)).io(), r, seq![0x19u8, a] + d@),
        forall|k: &mut Uds<T>| #[trigger]
            call_ensures(Uds::<T>::read_dtc_by_status_mask, (k, a), r) ==> (*final(k)).wait() == (*k).wait()
                && serves_past::<T>((*k).io(), (*k).wait(), (*final(k)).io(), r, seq![0x19u8, 0x02, a], seq![0x02u8]),
        forall|k: &mut Uds<T>| #[trigger]
            call_ensures(Uds::<T>::io_control_by_id, (k, h, a, d), r) ==> (*final(k)).wait() == (*k).wait()
                && serves_past::<T>((*k).io(), (*k).wait(), (*final(k)).io(), r, seq![0x2fu8] + high_first(h as nat, 2) + seq![a] + d@, high_first(h as nat, 2)),
        forall|k: &mut Uds<T>| #[trigger]
            call_ensures(Uds::<T>::routine_control, (k, a, h, d), r) ==> (*final(k)).wait() == (*k).wait()
                && serves::<T>((*k).io(), (*k).wait(), (*final(k)).io(), r, seq![0x31u8, a] + high_first(h as nat, 2) + d@),
        forall|k: &mut Uds<T>| #[trigger]
            call_ensures(Uds::<T>::send_raw, (k, a, d), r) ==> (*final(k)).wait() == (*k).wait()
                && serves::<T>((*k).io(), (*k).wait(), (*final(k)).io(), r, seq![a] + d@),
{
    lemma_byte_orders(0, w, h);
    assert forall|k: &mut Uds<T>| #[trigger]
        call_ensures(Uds::<T>::diagnostic_session_control, (k, a), r) implies (*final(k)).wait() == (*k).wait()
            && serves::<T>((*k).io(), (*k).wait(), (*final(k)).io(), r, seq![0x10u8, a]) by {
        let req = seq![0x10u8, a];
        assert(seq![0x10u8] + (seq![a]) =~= req);
        lemma_bare::<T>((*k).io(), (*k).wait(), 0x10, seq![a], req, Seq::<u8>::empty(), false);
    }
    assert forall|k: &mut Uds<T>| #[trigger]
        call_ensures(Uds::<T>::ecu_reset, (k, a), r) implies (*final(k)).wait() == (*k).wait()
            && serves::<T>((*k).io(), (*k).wait(), (*final(k)).io(), r, seq![0x11u8, a]) by {
        let req = seq![0x11u8, a];
        assert(seq![0x11u8] + (seq![a]) =~= req);
        lemma_bare::<T>((*k).io(), (*k).wait(), 0x11, seq![a], req, Seq::<u8>::empty(), false);
    }
    assert forall|k: &mut Uds<T>| #[trigger]
        call_ensures(Uds::<T>::security_access, (k, a, d), r) implies (*final(k)).wait() == (*k).wait()
            && serves::<T>((*k).io(), (*k).wait(), (*final(k)).io(), r, seq![0x27u8, a] + d@) by {
        let req = seq![0x27u8, a] + d@;
        assert(seq![0x27u8] + (seq![a] + d@) =~= req);
        lemma_bare::<T>((*k).io(), (*k).wait(), 0x27, seq![a] + d@, req, Seq::<u8>::empty(), false);
    }
    assert forall|k: &mut Uds<T>| #[trigger]
        call_ensures(Uds::<T>::communication_control, (k, a, b), r) implies (*final(k)).wait() == (*k).wait()
            && serves::<T>((*k).io(), (*k).wait(), (*final(k)).io(), r, seq![0x28u8, a, b]) by {
        let req = seq![0x28u8, a, b];
        assert(seq![0x28u8] + (seq![a, b]) =~= req);
        lemma_bare::<T>((*k).io(), (*k).wait(), 0x28, seq![a, b], req, Seq::<u8>::empty(), false);
    }
    assert forall|k: &mut Uds<T>| #[trigger]
        call_ensures(Uds::<T>::control_dtc_setting, (k, a), r) implies (*final(k)).wait() == (*k).wait()
            && serves::<T>((*k).io(), (*k).wait(), (*final(k)).io(), r, seq![0x85u8, a]) by {
        let req = seq![0x85u8, a];
        assert(seq![0x85u8] + (seq![a]) =~= req);
        lemma_bare::<T>((*k).io(), (*k).wait(), 0x85, seq![a], req, Seq::<u8>::empty(), false);
    }
    assert forall|k: &mut Uds<T>| #[trigger]
        call_ensures(Uds::<T>::read_data_by_id, (k, h), r) implies (*final(k)).wait() == (*k).wait()
            && serves_past::<T>((*k).io(), (*k).wait(), (*final(k)).io(), r, seq![0x22u8] + high_first(h as nat, 2), high_first(h as nat, 2)) by {
        let req = seq![0x22u8] + high_first(h as nat, 2);
        assert(seq![0x22u8] + (high_first(h as nat, 2)) =~= req);
        lemma_bare::<T>((*k).io(), (*k).wait(), 0x22, high_first(h as nat, 2), req, high_first(h as nat, 2), false);
    }
    assert forall|k: &mut Uds<T>| #[trigger]
        call_ensures(Uds::<T>::write_data_by_id, (k, h, d), r) implies (*final(k)).wait() == (*k).wait()
            && serves::<T>((*k).io(), (*k).wait(), (*final(k)).io(), r, seq![0x2eu8] + high_first(h as nat, 2) + d@) by {
        let req = seq![0x2eu8] + high_first(h as nat, 2) + d@;
        assert(seq![0x2eu8] + (high_first(h as nat, 2) + d@) =~= req);
        lemma_bare::<T>((*k).io(), (*k).wait(), 0x2e, high_first(h as nat, 2) + d@, req, Seq::<u8>::empty(), false);
    }
    assert forall|k: &mut Uds<T>| #[trigger]
        call_ensures(Uds::<T>::clear_diagnostic_information, (k, w), r) implies (*final(k)).wait() == (*k).wait()
            && serves::<T>((*k).io(), (*k).wait(), (*final(k)).io(), r, seq![0x14u8] + high_first(w as nat, 4).skip(1)) by {
        let req = seq![0x14u8] + high_first(w as nat, 4).skip(1);
        assert(seq![0x14u8] + (high_first(w as nat, 4).skip(1)) =~= req);
        lemma_bare::<T>((*k).io(), (*k).wait(), 0x14, high_first(w as nat, 4).skip(1), req, Seq::<u8>::empty(), false);
    }
    assert forall|k: &mut Uds<T>| #[trigger]
        call_ensures(Uds::<T>::read_dtc_information, (k, a, d), r) implies (*final(k)).wait() == (*k).wait()
            && serves::<T>((*k).io(), (*k).wait(), (*final(k)).io(), r, seq![0x19u8, a] + d@) by {
        let req = seq![0x19u8, a] + d@;
        assert(seq![0x19u8] + (seq![a] + d@) =~= req);
        lemma_bare::<T>((*k).io(), (*k).wait(), 0x19, seq![a] + d@, req, Seq::<u8>::empty(), false);
    }
    assert forall|k: &mut Uds<T>| #[trigger]
        call_ensures(Uds::<T>::read_dtc_by_status_mask, (k, a), r) implies (*final(k)).wait() == (*k).wait()
            && serves_past::<T>((*k).io(), (*k).wait(), (*final(k)).io(), r, seq![0x19u8, 0x02, a], seq![0x02u8]) by {
        let req = seq![0x19u8, 0x02, a];
        assert(seq![0x19u8] + (seq![0x02u8, a]) =~= req);
        lemma_bare::<T>((*k).io(), (*k).wait(), 0x19, seq![0x02u8, a], req, seq![0x02u8], false);
    }
    assert forall|k: &mut Uds<T>| #[trigger]
        call_ensures(Uds::<T>::io_control_by_id, (k, h, a, d), r) implies (*final(k)).wait() == (*k).wait()
            && serves_past::<T>((*k).io(), (*k).wait(), (*final(k)).io(), r, seq![0x2fu8] + high_first(h as nat, 2) + seq![a] + d@, high_first(h as nat, 2)) by {
        let req = seq![0x2fu8] + high_first(h as nat, 2) + seq![a] + d@;
        assert(seq![0x2fu8] + (high_first(h as nat, 2) + (seq![a] + d@)) =~= req);
        lemma_bare::<T>((*k).io(), (*k).wait(), 0x2f, high_first(h as nat, 2) + (seq![a] + d@), req, high_first(h as nat, 2), false);
    }
    assert forall|k: &mut Uds<T>| #[trigger]
        call_ensures(Uds::<T>::routine_control, (k, a, h, d), r) implies (*final(k)).wait() == (*k).wait()
            && serves::<T>((*k).io(), (*k).wait(), (*final(k)).io(), r, seq![0x31u8, a] + high_first(h as nat, 2) + d@) by {
        let req = seq![0x31u8, a] + high_first(h as nat, 2) + d@;
        assert(seq![0x31u8] + (seq![a] + (high_first(h as nat, 2) + d@)) =~= req);
        lemma_bare::<T>((*k).io(), (*k).wait(), 0x31, seq![a] + (high_first(h as nat, 2) + d@), req, Seq::<u8>::empty(), false);
    }
    assert forall|k: &mut Uds<T>| #[trigger]
        call_ensures(Uds::<T>::send_raw, (k, a, d), r) implies (*final(k)).wait() == (*k).wait()
            && serves::<T>((*k).io(), (*k).wait(), (*final(k)).io(), r, seq![a] + d@) by {
        let req = seq![a] + d@;
        assert(seq![a] + (d@) =~= req);
        lemma_bare::<T>((*k).io(), (*k).wait(), a, d@, req, Seq::<u8>::empty(), false);
    }
}

/// The services that may go unanswered, the one that strips a PID only where it
/// is repeated, and the ones that name their service.
pub proof fn lemma_other_services<T: UdsTransport>(
    required: bool,
    pid: u8,
    r: Result<(), Error>,
    data: Result<Vec<u8>, Error>,
    kc: KwpCommand,
    uc: UdsCommand,
    d: &[u8],
)
    ensures
        forall|k: &mut Kwp2000<T>| #[trigger]
            call_ensures(Kwp2000::<T>::tester_present, (k, required), r) ==> serves_quietly::<T>(
                (*k).io(),
                (*k).wait(),
                (*final(k)).io(),
                r,
                if required {
                    seq![0x3eu8, 0x01]
                } else {
                    seq![0x3eu8, 0x02]
                },
                !required,
            ),
        forall|k: &mut Uds<T>| #[trigger]
            call_ensures(Uds::<T>::tester_present, (k, required), r) ==> serves_quietly::<T>(
                (*k).io(),
                (*k).wait(),
                (*final(k)).io(),
                r,
                if required {
                    seq![0x3eu8, 0x80]
                } else {
                    seq![0x3eu8, 0x00]
                },
                required,
            ),
        forall|k: &mut Kwp2000<T>| #[trigger]
            call_ensures(Kwp2000::<T>::obd_current_data, (k, pid), data) ==> {
                let (a, after) = T::exchange((*k).io(), seq![0x01u8, pid], (*k).wait());
                &&& (*final(k)).io() == after
                &&& answered(data) == match bare(a, 0x01) {
                    Err(e) => Err::<Seq<u8>, DiagFault>(e),
                    Ok(body) => Ok(
                        if body.len() > 0 && body[0] == pid {
                            body.skip(1)
                        } else {
                            body
                        },
                    ),
                }
            },
        forall|k: &mut Kwp2000<T>| #[trigger]
            call_ensures(Kwp2000::<T>::send, (k, kc, d), data) ==> serves::<T>(
                (*k).io(),
                (*k).wait(),
                (*final(k)).io(),
                data,
                seq![kc.id()] + d@,
            ),
        forall|k: &mut Uds<T>| #[trigger]
            call_ensures(Uds::<T>::send, (k, uc, d), data) ==> serves::<T>(
                (*k).io(),
                (*k).wait(),
                (*final(k)).io(),
                data,
                seq![uc.id()] + d@,
            ),
{
    let none = Seq::<u8>::empty();
    assert forall|k: &mut Kwp2000<T>| #[trigger]
        call_ensures(Kwp2000::<T>::tester_present, (k, required), r) implies serves_quietly::<T>(
        (*k).io(),
        (*k).wait(),
        (*final(k)).io(),
        r,
        if required {
            seq![0x3eu8, 0x01]
        } else {
            seq![0x3eu8, 0x02]
        },
        !required,
    ) by {
        let sub = if required {
            0x01u8
        } else {
            0x02u8
        };
        assert(seq![0x3eu8] + seq![sub] =~= seq![0x3eu8, sub]);
        lemma_bare::<T>((*k).io(), (*k).wait(), 0x3e, seq![sub], seq![0x3eu8, sub], none, !required);
    }
    assert forall|k: &mut Uds<T>| #[trigger]
        call_ensures(Uds::<T>::tester_present, (k, required), r) implies serves_quietly::<T>(
        (*k).io(),
        (*k).wait(),
        (*final(k)).io(),
        r,
        if required {
            seq![0x3eu8, 0x80]
        } else {
            seq![0x3eu8, 0x00]
        },
        required,
    ) by {
        let sub = if required {
            0x80u8
        } else {
            0x00u8
        };
        assert(seq![0x3eu8] + seq![sub] =~= seq![0x3eu8, sub]);
        lemma_bare::<T>((*k).io(), (*k).wait(), 0x3e, seq![sub], seq![0x3eu8, sub], none, required);
    }
    assert forall|k: &mut Kwp2000<T>| #[trigger]
        call_ensures(Kwp2000::<T>::obd_current_data, (k, pid), data) implies {
        let (a, after) = T::exchange((*k).io(), seq![0x01u8, pid], (*k).wait());
        &&& (*final(k)).io() == after
        &&& answered(data) == match bare(a, 0x01) {
            Err(e) => Err::<Seq<u8>, DiagFault>(e),
            Ok(body) => Ok(
                if body.len() > 0 && body[0] == pid {
                    body.skip(1)
                } else {
                    body
                },
            ),
        }
    } by {
        assert(seq![0x01u8] + seq![pid] =~= seq![0x01u8, pid]);
        lemma_bare::<T>((*k).io(), (*k).wait(), 0x01, seq![pid], seq![0x01u8, pid], none, false);
    }
    assert forall|k: &mut Kwp2000<T>| #[trigger]
        call_ensures(Kwp2000::<T>::send, (k, kc, d), data) implies serves::<T>(
        (*k).io(),
        (*k).wait(),
        (*final(k)).io(),
        data,
        seq![kc.id()] + d@,
    ) by {
        lemma_bare::<T>((*k).io(), (*k).wait(), kc.id(), d@, seq![kc.id()] + d@, none, false);
    }
    assert forall|k: &mut Uds<T>| #[trigger]
        call_ensures(Uds::<T>::send, (k, uc, d), data) implies serves::<T>(
        (*k).io(),
        (*k).wait(),
        (*final(k)).io(),
        data,
        seq![uc.id()] + d@,
    ) by {
        lemma_bare::<T>((*k).io(), (*k).wait(), uc.id(), d@, seq![uc.id()] + d@, none, false);
    }
}

/// A client waits two seconds for an answer unless it is told otherwise.
pub proof fn lemma_client_waits<T: UdsTransport>(io: T, k: Kwp2000<T>, u: Uds<T>, d: Duration, k2: Kwp2000<T>, u2: Uds<T>)
    ensures
        call_ensures(Kwp2000::<T>::new, (io,), k) ==> k.wait().nanos == 2_000_000_000 && k.io()
            == io.state(),
        call_ensures(Uds::<T>::new, (io,), u) ==> u.wait().nanos == 2_000_000_000 && u.io()
            == io.state(),
        call_ensures(Kwp2000::<T>::with_timeout, (k, d), k2) ==> k2.wait() == d && k2.io()
            == k.io(),
        call_ensures(Uds::<T>::with_timeout, (u, d), u2) ==> u2.wait() == d && u2.io() == u.io(),
{
}

/// The stream that spells a list of entries: of each its number, its width, and
/// its bytes.
pub open spec fn spelled(pids: Seq<Pid>) -> Seq<u8>
    decreases pids.len(),
{
    if pids.len() == 0 {
        Seq::empty()
    } else {
        spelled(pids.drop_last()) + seq![pids.last().id, pids.last().width] + pids.last().support
    }
}

proof fn lemma_spelled_front(p: Pid, rest: Seq<Pid>)
    ensures
        spelled(seq![p] + rest) == seq![p.id, p.width] + p.support + spelled(rest),
    decreases rest.len(),
{
    let all = seq![p] + rest;
    if rest.len() == 0 {
        assert(all.drop_last() =~= Seq::empty());
        reveal_with_fuel(spelled, 2);
        assert(spelled(all) =~= seq![p.id, p.width] + p.support + spelled(rest));
    } else {
        assert(all.drop_last() =~= seq![p] + rest.drop_last());
        lemma_spelled_front(p, rest.drop_last());
        assert(spelled(all) =~= seq![p.id, p.width] + p.support + spelled(rest));
    }
}

proof fn lemma_spelled(pids: Seq<Pid>)
    ensures
        tlv_of(pids) == spelled(pids),
    decreases pids.len(),
{
    if pids.len() > 0 {
        lemma_spelled(pids.skip(1));
        lemma_spelled_front(pids[0], pids.skip(1));
        assert(seq![pids[0]] + pids.skip(1) =~= pids);
    }
}

/// What a message adds to the enumeration of a page: a chunk of that page its
/// bytes after the first two, anything else nothing.
pub open spec fn added(m: Seq<u8>, page: u8) -> Seq<u8> {
    if m.len() >= 2 && m[0] == 0xe8 && m[1] == page {
        m.skip(2)
    } else {
        Seq::empty()
    }
}

/// What messages `from` up to `to` of a source add, one after the other.
pub open spec fn gathered<T: IsoTpChannel>(
    io: T::State,
    gap: Duration,
    page: u8,
    from: nat,
    to: nat,
) -> Seq<u8>
    decreases to - from,
{
    if from >= to {
        Seq::empty()
    } else {
        added(nth_receipt::<(), T>(io, gap, from)->Ok_0, page) + gathered::<T>(
            io,
            gap,
            page,
            from + 1,
            to,
        )
    }
}

proof fn lemma_next_receipt<T: IsoTpChannel>(io: T::State, gap: Duration, k: nat)
    ensures
        after_receipts::<(), T>(io, gap, k + 1) == T::receipt(
            after_receipts::<(), T>(io, gap, k),
            gap,
        ).1,
    decreases k,
{
    reveal_with_fuel(after_receipts, 2);
    if k > 0 {
        lemma_next_receipt::<T>(T::receipt(io, gap).1, gap, (k - 1) as nat);
    }
}

proof fn lemma_gathered<T: IsoTpChannel>(
    io: T::State,
    gap: Duration,
    page: u8,
    got: Seq<u8>,
    patience: nat,
    rounds: nat,
    from: nat,
    n: nat,
)
    requires
        from <= n,
        rounds > n - from,
        forall|i: nat|
            i < n ==> (#[trigger] nth_receipt::<(), T>(io, gap, i)) is Ok && !(nth_receipt::<
                (),
                T,
            >(io, gap, i)->Ok_0.len() >= 1 && nth_receipt::<(), T>(io, gap, i)->Ok_0[0] == 0x7f),
        nth_receipt::<(), T>(io, gap, n) matches Err(CoreError::Timeout(_)),
    ensures
        enumerated::<T>(
            after_receipts::<(), T>(io, gap, from),
            gap,
            page,
            got,
            patience,
            rounds,
        ).0 == Ok::<Seq<Pid>, DiagFault>(pids_in(got + gathered::<T>(io, gap, page, from, n))),
    decreases n - from,
{
    let here = after_receipts::<(), T>(io, gap, from);
    lemma_next_receipt::<T>(io, gap, from);
    if from == n {
        assert(got + Seq::<u8>::empty() =~= got);
    } else {
        let m = nth_receipt::<(), T>(io, gap, from)->Ok_0;
        let more = got + added(m, page);
        assert(got + Seq::<u8>::empty() =~= got);
        lemma_gathered::<T>(io, gap, page, more, 30, (rounds - 1) as nat, from + 1, n);
        assert(more + gathered::<T>(io, gap, page, from + 1, n) =~= got + gathered::<T>(
            io,
            gap,
            page,
            from,
            n,
        ));
    }
}

/// An enumeration is exactly the list that the ECU spells. The request is A8 and
/// the page. If the channel then hands out messages of which those that begin
/// with E8 and the page join to the stream of a list, whatever the page and
/// however it is cut up, and then falls silent, every call of the enumeration
/// gives that list, entry for entry; an entry that is cut short at the end is
/// left out.
pub proof fn lemma_enumeration<T: IsoTpChannel>(
    page: u8,
    pids: Seq<Pid>,
    rest: Seq<u8>,
    n: nat,
    r: Result<Vec<EnumeratedPid>, Error>,
)
    requires
        forall|i: int| 0 <= i < pids.len() ==> (#[trigger] pids[i]).support.len() == pids[i].width,
        rest.len() < 2 || 2 + rest[1] > rest.len(),
        n < u64::MAX,
    ensures
        forall|c: &mut ToyotaCanLive<T>| #[trigger]
            call_ensures(ToyotaCanLive::<T>::enumerate_pids, (c, page), r) ==> {
                let (sent, io) = T::dispatch((*c).io(), seq![0xa8u8, page]);
                let gap = (*c).waits().1;
                &&& sent matches Err(e) ==> r is Err && r->Err_0@ == DiagFault::Transport(e)
                &&& sent is Ok && streams::<T>(io, gap, page, spelled(pids) + rest, n) ==> {
                    &&& r is Ok
                    &&& r->Ok_0@.len() == pids.len()
                    &&& forall|i: int|
                        0 <= i < pids.len() ==> {
                            &&& (#[trigger] r->Ok_0@[i]).id == pids[i].id
                            &&& r->Ok_0@[i].width == pids[i].width
                            &&& r->Ok_0@[i].support@ == pids[i].support
                        }
                }
            },
{
    lemma_spelled(pids);
    crate::diag::toyota_can::lemma_enumeration_recovered(pids, rest);
    assert forall|c: &mut ToyotaCanLive<T>| #[trigger]
        call_ensures(ToyotaCanLive::<T>::enumerate_pids, (c, page), r) && T::dispatch(
        (*c).io(),
        seq![0xa8u8, page],
    ).0 is Ok && streams::<T>(
        T::dispatch((*c).io(), seq![0xa8u8, page]).1,
        (*c).waits().1,
        page,
        spelled(pids) + rest,
        n,
    ) implies {
        &&& r is Ok
        &&& r->Ok_0@.len() == pids.len()
        &&& forall|i: int|
            0 <= i < pids.len() ==> {
                &&& (#[trigger] r->Ok_0@[i]).id == pids[i].id
                &&& r->Ok_0@[i].width == pids[i].width
                &&& r->Ok_0@[i].support@ == pids[i].support
            }
    } by {
        let io = T::dispatch((*c).io(), seq![0xa8u8, page]).1;
        let gap = (*c).waits().1;
        let none = Seq::<u8>::empty();
        reveal_with_fuel(after_receipts, 1);
        assert(after_receipts::<(), T>(io, gap, 0) == io);
        lemma_gathered::<T>(io, gap, page, none, 30, u64::MAX as nat, 0, n);
        assert(none + (spelled(pids) + rest) =~= spelled(pids) + rest);
        assert(pids_of(r->Ok_0@) == pids);
        assert forall|i: int| 0 <= i < pids.len() implies (#[trigger] r->Ok_0@[i])@ == pids[i] by {
            assert(pids_of(r->Ok_0@)[i] == pids[i]);
        }
    }
}

/// Whether a source hands out `n` messages, none of them a refusal, that add up
/// to `stream` for a page, and then nothing in time.
pub open spec fn streams<T: IsoTpChannel>(
    io: T::State,
    gap: Duration,
    page: u8,
    stream: Seq<u8>,
    n: nat,
) -> bool {
    &&& forall|i: nat|
        i < n ==> (#[trigger] nth_receipt::<(), T>(io, gap, i)) is Ok && !(nth_receipt::<(), T>(
            io,
            gap,
            i,
        )->Ok_0.len() >= 1 && nth_receipt::<(), T>(io, gap, i)->Ok_0[0] == 0x7f)
    &&& nth_receipt::<(), T>(io, gap, n) matches Err(CoreError::Timeout(_))
    &&& gathered::<T>(io, gap, page, 0, n) == stream
}

/// A refusal in place of an enumeration is passed on, and so is a failure.
pub proof fn lemma_enumeration_refused<T: IsoTpChannel>(
    page: u8,
    r: Result<Vec<EnumeratedPid>, Error>,
)
    ensures
        forall|c: &mut ToyotaCanLive<T>| #[trigger]
            call_ensures(ToyotaCanLive::<T>::enumerate_pids, (c, page), r) ==> {
                let (sent, io) = T::dispatch((*c).io(), seq![0xa8u8, page]);
                let (first, after) = T::receipt(io, (*c).waits().1);
                &&& sent is Ok && first is Ok && first->Ok_0.len() >= 3 && first->Ok_0[0] == 0x7f
                    && first->Ok_0[2] != 0x78 ==> {
                    &&& r is Err
                    &&& r->Err_0@ == DiagFault::Negative {
                        service: first->Ok_0[1],
                        nrc: first->Ok_0[2],
                    }
                }
                &&& sent is Ok && first is Err && !(first->Err_0 is Timeout) ==> r is Err
                    && r->Err_0@ == DiagFault::Transport(first->Err_0)
            },
{
    reveal_with_fuel(enumerated, 2);
}

/// The other steps of the live-data sequence: A1 with the page and the members
/// is answered with the selection after E1; A2 with the list is answered with the
/// values after E2 and the list; A3 is only sent. Each waits as long as an
/// exchange may, past frames that only say to wait.
pub proof fn lemma_live_data<T: IsoTpChannel>(
    page: u8,
    members: &[u8],
    r: Result<Vec<u8>, Error>,
    end: Result<(), Error>,
)
    ensures
        forall|c: &mut ToyotaCanLive<T>| #[trigger]
            call_ensures(ToyotaCanLive::<T>::define_poll_list, (c, page, members), r) ==> {
                let (a, io1) = put_and_heard::<T>(
                    (*c).io(),
                    seq![0xa1u8, page] + members@,
                    (*c).waits().0,
                );
                (*final(c)).io() == io1 && answered(r) == bare(a, 0xa1)
            },
        forall|c: &mut ToyotaCanLive<T>| #[trigger]
            call_ensures(ToyotaCanLive::<T>::poll_list, (c, page), r) ==> {
                let (a, io1) = put_and_heard::<T>((*c).io(), seq![0xa2u8, page], (*c).waits().0);
                (*final(c)).io() == io1 && answered(r) == bare_past(a, 0xa2, seq![page])
            },
        forall|c: &mut ToyotaCanLive<T>| #[trigger]
            call_ensures(ToyotaCanLive::<T>::teardown, (c,), end) ==> {
                let (a, io1) = T::dispatch((*c).io(), seq![0xa3u8]);
                &&& (*final(c)).io() == io1
                &&& done(end) == match a {
                    Ok(()) => Ok::<(), DiagFault>(()),
                    Err(e) => Err(DiagFault::Transport(e)),
                }
            },
{
    assert forall|c: &mut ToyotaCanLive<T>| #[trigger]
        call_ensures(ToyotaCanLive::<T>::define_poll_list, (c, page, members), r) implies {
        let (a, io1) = put_and_heard::<T>(
            (*c).io(),
            seq![0xa1u8, page] + members@,
            (*c).waits().0,
        );
        (*final(c)).io() == io1 && answered(r) == bare(a, 0xa1)
    } by {
        assert(seq![0xa1u8] + (seq![page] + members@) =~= seq![0xa1u8, page] + members@);
    }
}

/// A payload sent, and the first answer to it that does not only say to wait.
pub open spec fn put_and_heard<T: IsoTpChannel>(io: T::State, req: Seq<u8>, wait: Duration) -> (
    Result<Seq<u8>, CoreError>,
    T::State,
) {
    match T::dispatch(io, req) {
        (Err(e), after) => (Err(e), after),
        (Ok(()), after) => drained::<(), T>(after, wait, 30),
    }
}

} // verus!
