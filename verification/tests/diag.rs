//! The diagnostic clients over a scripted `UdsTransport`: each step asserts the
//! exact request bytes the client emits and feeds back a canned response, so
//! request-building and response-parsing are checked byte-for-byte without
//! hardware. The CAN live-data client runs over a scripted channel likewise.

use std::collections::VecDeque;

use rmvci::diag::common::{parse_positive, strip_echo};
use rmvci::diag::services::NrcByte;
use rmvci::diag::toyota_can::parse_pid_tlv;
use rmvci::diag::{
    EnumeratedPid, Error, IsoTpChannel, Kwp2000, KwpCommand, ToyotaCanLive, Uds, UdsCommand,
};
use rmvci::isotp::pending::Receive;
use rmvci::time::Duration;
use rmvci::{Error as CoreError, UdsTransport};

/// A transport that replays `(expected_request, response)` steps in order.
struct Scripted {
    steps: VecDeque<(Vec<u8>, Vec<u8>)>,
}

impl Scripted {
    fn new(steps: impl IntoIterator<Item = (Vec<u8>, Vec<u8>)>) -> Self {
        Self { steps: steps.into_iter().collect() }
    }
}

impl UdsTransport for Scripted {
    type State = ();

    fn request(&mut self, req: &[u8], _timeout: Duration) -> Result<Vec<u8>, CoreError> {
        let (expected, response) = self.steps.pop_front().expect("no more scripted steps");
        assert_eq!(req, expected.as_slice(), "request bytes mismatch");
        Ok(response)
    }
}

fn client(steps: impl IntoIterator<Item = (Vec<u8>, Vec<u8>)>) -> Kwp2000<Scripted> {
    Kwp2000::new(Scripted::new(steps))
}

#[test]
fn read_data_by_local_id_strips_sid_and_lid() {
    // 21 0D -> 61 0D 09  => data [09]
    let mut kwp = client([(vec![0x21, 0x0d], vec![0x61, 0x0d, 0x09])]);
    assert_eq!(kwp.read_data_by_local_id(0x0d).unwrap(), vec![0x09]);
}

#[test]
fn ambient_read_matches_the_live_prius() {
    // 21 02 -> 61 02 A4  (the value we actually saw on the car)
    let mut kwp = client([(vec![0x21, 0x02], vec![0x61, 0x02, 0xa4])]);
    assert_eq!(kwp.read_data_by_local_id(0x02).unwrap(), vec![0xa4]);
}

#[test]
fn read_data_by_id_uses_two_byte_identifier() {
    // 22 01 43 -> 62 01 43 7B 79
    let mut kwp = client([(vec![0x22, 0x01, 0x43], vec![0x62, 0x01, 0x43, 0x7b, 0x79])]);
    assert_eq!(kwp.read_data_by_id(0x0143).unwrap(), vec![0x7b, 0x79]);
}

#[test]
fn negative_response_out_of_range() {
    let mut kwp = client([(vec![0x21, 0x99], vec![0x7f, 0x21, 0x31])]);
    let err = kwp.read_data_by_local_id(0x99).unwrap_err();
    assert!(err.is_request_out_of_range());
    assert_eq!(err.message().contains("0x31"), true);
}

#[test]
fn active_test_builds_io_control_frame() {
    // Prius air-mix damper (D) drive: 30 03 80 -> 70 03 80
    let mut kwp = client([(vec![0x30, 0x03, 0x80], vec![0x70, 0x03, 0x80])]);
    assert_eq!(kwp.active_test(0x03, 0x80).unwrap(), vec![0x03, 0x80]);
}

#[test]
fn toyota_customize_write_uses_a5() {
    // A5 1A 02 -> E5 1A 02  (positive echo = 0xA5 | 0x40)
    let mut kwp = client([(vec![0xa5, 0x1a, 0x02], vec![0xe5, 0x1a, 0x02])]);
    assert_eq!(kwp.customize_write_toyota(0x1a, 0x02).unwrap(), vec![0x1a, 0x02]);
}

#[test]
fn dtc_read_and_clear_frames() {
    let mut kwp = client([
        (vec![0x18, 0x00, 0xff, 0x00], vec![0x58, 0x02, 0x94, 0x00, 0x94, 0x10]),
        (vec![0x14, 0xff, 0x00], vec![0x54]),
    ]);
    assert_eq!(kwp.read_dtc_by_status(0x00, 0xff00).unwrap(), vec![0x02, 0x94, 0x00, 0x94, 0x10]);
    assert_eq!(kwp.clear_diagnostic_information(0xff00).unwrap(), Vec::<u8>::new());
}

#[test]
fn freeze_frame_uses_raw_sid_12() {
    let mut kwp = client([(vec![0x12, 0x41, 0xff], vec![0x52, 0x41, 0xff, 0xaa])]);
    assert_eq!(kwp.read_freeze_frame(0x41, 0xff).unwrap(), vec![0x41, 0xff, 0xaa]);
}

#[test]
fn session_and_tester_present() {
    let mut kwp = client([
        (vec![0x10, 0x81], vec![0x50, 0x81]),
        (vec![0x3e, 0x01], vec![0x7e, 0x01]),
    ]);
    assert_eq!(kwp.start_diagnostic_session(0x81).unwrap(), vec![0x81]);
    kwp.tester_present(true).unwrap();
}

#[test]
fn obd_current_data_strips_pid() {
    // 01 0C -> 41 0C 1A F8  (engine RPM), data after PID echo
    let mut kwp = client([(vec![0x01, 0x0c], vec![0x41, 0x0c, 0x1a, 0xf8])]);
    assert_eq!(kwp.obd_current_data(0x0c).unwrap(), vec![0x1a, 0xf8]);
}

// ---- UDS client, same scripted transport ----

fn uds(steps: impl IntoIterator<Item = (Vec<u8>, Vec<u8>)>) -> Uds<Scripted> {
    Uds::new(Scripted::new(steps))
}

#[test]
fn uds_read_data_by_id_strips_did() {
    // 22 F1 90 -> 62 F1 90 <vin...>
    let mut u = uds([(vec![0x22, 0xf1, 0x90], vec![0x62, 0xf1, 0x90, 0x31, 0x32])]);
    assert_eq!(u.read_data_by_id(0xf190).unwrap(), vec![0x31, 0x32]);
}

#[test]
fn uds_io_control_strips_did_echo() {
    // 2F 01 43 03 80 -> 6F 01 43 03 80  (P5 active test, control 03)
    let mut u = uds([(vec![0x2f, 0x01, 0x43, 0x03, 0x80], vec![0x6f, 0x01, 0x43, 0x03, 0x80])]);
    assert_eq!(u.io_control_by_id(0x0143, 0x03, &[0x80]).unwrap(), vec![0x03, 0x80]);
}

#[test]
fn uds_routine_and_session() {
    let mut u = uds([
        (vec![0x10, 0x03], vec![0x50, 0x03, 0x00, 0x32, 0x01, 0xf4]),
        (vec![0x31, 0x01, 0x02, 0x03], vec![0x71, 0x01, 0x02, 0x03]),
    ]);
    // 50 <session-echo> <P2> <P2*>: everything after the SID is returned.
    assert_eq!(u.diagnostic_session_control(0x03).unwrap(), vec![0x03, 0x00, 0x32, 0x01, 0xf4]);
    // routineControl returns everything after the SID: sub-func + RID + results.
    assert_eq!(u.routine_control(0x01, 0x0203, &[]).unwrap(), vec![0x01, 0x02, 0x03]);
}

#[test]
fn uds_read_dtc_by_status_mask_strips_subfunction() {
    // 19 02 FF -> 59 02 <dtc records>
    let mut u = uds([(vec![0x19, 0x02, 0xff], vec![0x59, 0x02, 0x94, 0x00, 0x2f])]);
    assert_eq!(u.read_dtc_by_status_mask(0xff).unwrap(), vec![0x94, 0x00, 0x2f]);
}

#[test]
fn uds_clear_uses_three_byte_group() {
    let mut u = uds([(vec![0x14, 0xff, 0xff, 0xff], vec![0x54])]);
    assert_eq!(u.clear_diagnostic_information(0xffffff).unwrap(), Vec::<u8>::new());
}

#[test]
fn uds_negative_shares_error_type() {
    let mut u = uds([(vec![0x22, 0xf1, 0x90], vec![0x7f, 0x22, 0x31])]);
    let e = u.read_data_by_id(0xf190).unwrap_err();
    assert!(e.is_request_out_of_range());
    assert_eq!(e.nrc(), Some(0x31));
}

#[test]
fn positive_strips_sid() {
    assert_eq!(parse_positive(0x21, vec![0x61, 0x0d, 0x09]).unwrap(), vec![0x0d, 0x09]);
    assert_eq!(parse_positive(0x22, vec![0x62, 0x01, 0x43, 0x7b]).unwrap(), vec![0x01, 0x43, 0x7b]);
}

#[test]
fn negative_is_classified() {
    let e = parse_positive(0x21, vec![0x7f, 0x21, 0x31]).unwrap_err();
    assert!(matches!(e, Error::Negative { service: 0x21, nrc: 0x31 }));
    assert!(e.is_request_out_of_range());
}

#[test]
fn empty_and_unexpected() {
    assert!(matches!(parse_positive(0x21, vec![]).unwrap_err(), Error::Empty));
    assert!(matches!(
        parse_positive(0x21, vec![0x50]).unwrap_err(),
        Error::Unexpected { expected: 0x61, .. }
    ));
}

#[test]
fn echo_stripping() {
    assert_eq!(strip_echo(&[0x0d, 0x09], &[0x0d]).unwrap(), vec![0x09]);
    assert_eq!(strip_echo(&[0xf1, 0x90, 0xaa], &[0xf1, 0x90]).unwrap(), vec![0xaa]);
    assert!(strip_echo(&[0x0e, 0x09], &[0x0d]).is_err());
}

// `E8 01` enumeration body of the Hybrid ECU (7E2), i.e. the bytes after
// `e8 01`.
#[test]
fn parses_a8_enumeration_tlv() {
    let body = [
        0x00, 0x04, 0xff, 0xff, 0xff, 0xff, // pid 00 width 4
        0x01, 0x04, 0xff, 0xff, 0xff, 0xff, // pid 01 width 4
        0x02, 0x02, 0xff, 0xff, // pid 02 width 2
        0x04, 0x01, 0xff, // pid 04 width 1
        0x0c, 0x02, 0xff, 0xff, // pid 0c width 2
        0x0d, 0x01, 0xff, // pid 0d width 1
    ];
    let mut pids = Vec::new();
    parse_pid_tlv(&body, &mut pids);
    assert_eq!(pids.len(), 6);
    assert_eq!(pids[0], EnumeratedPid { id: 0x00, width: 4, support: vec![0xff; 4] });
    assert_eq!(pids[3], EnumeratedPid { id: 0x04, width: 1, support: vec![0xff] });
    assert_eq!(pids[5].id, 0x0d);
    assert_eq!(pids[5].width, 1);
}

// Non-`ff` support bytes from the Engine 7E0 enumeration:
// `01 04 ff 07 25 25`.
#[test]
fn keeps_partial_support_mask() {
    let body = [0x01, 0x04, 0xff, 0x07, 0x25, 0x25];
    let mut pids = Vec::new();
    parse_pid_tlv(&body, &mut pids);
    assert_eq!(
        pids,
        vec![EnumeratedPid { id: 1, width: 4, support: vec![0xff, 0x07, 0x25, 0x25] }]
    );
}

#[test]
fn drops_truncated_trailing_tlv() {
    let body = [0x00, 0x04, 0xff, 0xff, 0xff, 0xff, 0x20, 0x04, 0xff]; // last claims width 4, only 1 byte
    let mut pids = Vec::new();
    parse_pid_tlv(&body, &mut pids);
    assert_eq!(pids.len(), 1);
    assert_eq!(pids[0].id, 0x00);
}

// A fake channel replaying scripted messages, to exercise the state machines
// without hardware.
struct FakeChan {
    sent: Vec<Vec<u8>>,
    replies: std::collections::VecDeque<Result<Vec<u8>, CoreError>>,
}
impl FakeChan {
    fn new(replies: Vec<Result<Vec<u8>, CoreError>>) -> Self {
        Self { sent: Vec::new(), replies: replies.into() }
    }
}
impl Receive<()> for FakeChan {
    type State = ();

    fn recv(&mut self, _via: &mut (), timeout: Duration) -> Result<Vec<u8>, CoreError> {
        self.replies.pop_front().unwrap_or(Err(CoreError::Timeout(timeout)))
    }
}

impl IsoTpChannel for FakeChan {
    fn send(&mut self, payload: &[u8]) -> Result<(), CoreError> {
        self.sent.push(payload.to_vec());
        Ok(())
    }
}

#[test]
fn enumerate_reads_multiple_chunks_until_quiescent() {
    // Two E8 01 chunks then silence (Timeout) ends it.
    let chan = FakeChan::new(vec![
        Ok(vec![0xe8, 0x01, 0x00, 0x01, 0xff, 0x20, 0x01, 0xff]),
        Ok(vec![0xe8, 0x01, 0x40, 0x02, 0xff, 0xff]),
        Err(CoreError::Timeout(Duration::from_millis(1))),
    ]);
    let mut can = ToyotaCanLive::new(chan);
    let pids = can.enumerate_pids(0x01).unwrap();
    assert_eq!(pids.iter().map(|p| p.id).collect::<Vec<_>>(), vec![0x00, 0x20, 0x40]);
    assert_eq!(can.into_inner().sent, vec![vec![0xa8, 0x01]]);
}

#[test]
fn enumerate_skips_response_pending() {
    let chan = FakeChan::new(vec![
        Ok(vec![0x7f, 0xa8, 0x78]), // pending
        Ok(vec![0xe8, 0x01, 0x05, 0x01, 0xff]),
        Err(CoreError::Timeout(Duration::from_millis(1))),
    ]);
    let mut can = ToyotaCanLive::new(chan);
    let pids = can.enumerate_pids(0x01).unwrap();
    assert_eq!(pids, vec![EnumeratedPid { id: 0x05, width: 1, support: vec![0xff] }]);
}

#[test]
fn poll_list_strips_echo_and_listid() {
    // E2 06 00 00 00 00 00 (parked)
    let chan = FakeChan::new(vec![Ok(vec![0xe2, 0x06, 0x00, 0x00, 0x00, 0x00, 0x00])]);
    let mut can = ToyotaCanLive::new(chan);
    let values = can.poll_list(0x06).unwrap();
    assert_eq!(values, vec![0x00, 0x00, 0x00, 0x00, 0x00]);
}

#[test]
fn define_poll_list_returns_echo_selection() {
    // A1 06 d3 05 09 0a 0b 0c 0d  ->  E1 06 d3 05 09 0a 0b 0c 0d
    let members = [0xd3, 0x05, 0x09, 0x0a, 0x0b, 0x0c, 0x0d];
    let mut echo = vec![0xe1, 0x06];
    echo.extend_from_slice(&members);
    let chan = FakeChan::new(vec![Ok(echo)]);
    let mut can = ToyotaCanLive::new(chan);
    let sel = can.define_poll_list(0x06, &members).unwrap();
    let mut expect = vec![0x06];
    expect.extend_from_slice(&members);
    assert_eq!(sel, expect);
}

#[test]
fn service_ids_are_the_standard_ones() {
    let kwp = [
        (KwpCommand::StartDiagnosticSession, 0x10),
        (KwpCommand::ECUReset, 0x11),
        (KwpCommand::ClearDiagnosticInformation, 0x14),
        (KwpCommand::ReadStatusOfDiagnosticTroubleCodes, 0x17),
        (KwpCommand::ReadDiagnosticTroubleCodesByStatus, 0x18),
        (KwpCommand::ReadECUIdentification, 0x1a),
        (KwpCommand::ReadDataByLocalIdentifier, 0x21),
        (KwpCommand::ReadDataByIdentifier, 0x22),
        (KwpCommand::ReadMemoryByAddress, 0x23),
        (KwpCommand::SecurityAccess, 0x27),
        (KwpCommand::DisableNormalMessageTransmission, 0x28),
        (KwpCommand::EnableNormalMessageTransmission, 0x29),
        (KwpCommand::DynamicallyDefineLocalIdentifier, 0x2c),
        (KwpCommand::WriteDataByIdentifier, 0x2e),
        (KwpCommand::InputOutputControlByLocalIdentifier, 0x30),
        (KwpCommand::StartRoutineByLocalIdentifier, 0x31),
        (KwpCommand::StopRoutineByLocalIdentifier, 0x32),
        (KwpCommand::RequestRoutineResultsByLocalIdentifier, 0x33),
        (KwpCommand::RequestDownload, 0x34),
        (KwpCommand::RequestUpload, 0x35),
        (KwpCommand::TransferData, 0x36),
        (KwpCommand::RequestTransferExit, 0x37),
        (KwpCommand::WriteDataByLocalIdentifier, 0x3b),
        (KwpCommand::WriteMemoryByAddress, 0x3d),
        (KwpCommand::TesterPresent, 0x3e),
        (KwpCommand::ControlDTCSettings, 0x85),
        (KwpCommand::ResponseOnEvent, 0x86),
    ];
    for (c, id) in kwp {
        assert_eq!(c.code(), id);
    }
    let uds = [
        (UdsCommand::DiagnosticSessionControl, 0x10),
        (UdsCommand::ECUReset, 0x11),
        (UdsCommand::SecurityAccess, 0x27),
        (UdsCommand::CommunicationControl, 0x28),
        (UdsCommand::TesterPresent, 0x3e),
        (UdsCommand::Authentication, 0x29),
        (UdsCommand::SecuredDataTransmission, 0x84),
        (UdsCommand::ControlDTCSetting, 0x85),
        (UdsCommand::ResponseOnEvent, 0x86),
        (UdsCommand::LinkControl, 0x87),
        (UdsCommand::ReadDataByIdentifier, 0x22),
        (UdsCommand::ReadMemoryByAddress, 0x23),
        (UdsCommand::ReadScalingDataByIdentifier, 0x24),
        (UdsCommand::ReadDataByPeriodicIdentifier, 0x2a),
        (UdsCommand::DynamicallyDefineDataIdentifier, 0x2c),
        (UdsCommand::WriteDataByIdentifier, 0x2e),
        (UdsCommand::WriteMemoryByAddress, 0x3d),
        (UdsCommand::ClearDiagnosticInformation, 0x14),
        (UdsCommand::ReadDTCInformation, 0x19),
        (UdsCommand::InputOutputControlByIdentifier, 0x2f),
        (UdsCommand::RoutineControl, 0x31),
        (UdsCommand::RequestDownload, 0x34),
        (UdsCommand::RequestUpload, 0x35),
        (UdsCommand::TransferData, 0x36),
        (UdsCommand::RequestTransferExit, 0x37),
        (UdsCommand::RequestFileTransfer, 0x38),
    ];
    for (c, id) in uds {
        assert_eq!(c.code(), id);
    }
}

#[test]
fn negative_codes_are_told_apart() {
    let named = parse_positive(0x22, vec![0x7f, 0x22, 0x31]).unwrap_err();
    assert_eq!(named.uds_nrc(), Some(NrcByte::Standard(0x31)));
    assert_eq!(named.kwp_nrc(), Some(NrcByte::Standard(0x31)));
    assert_eq!(
        named.message(),
        "ECU refused service 0x22: NRC 0x31 (RequestOutOfRange)"
    );
    let own = parse_positive(0x22, vec![0x7f, 0x22, 0xf3]).unwrap_err();
    assert_eq!(own.uds_nrc(), Some(NrcByte::Extended(0xf3)));
    assert_eq!(own.kwp_nrc(), Some(NrcByte::Extended(0xf3)));
    assert!(!own.is_request_out_of_range());
    let none = parse_positive(0x22, Vec::new()).unwrap_err();
    assert_eq!(none.uds_nrc(), None);
    assert_eq!(none.nrc(), None);
    assert_eq!(none.message(), "empty response from ECU");
}

#[test]
fn unasked_silence_is_a_timeout_and_is_passed_on() {
    let mut can = ToyotaCanLive::new(FakeChan::new(Vec::new()))
        .with_timeout(Duration::from_millis(7))
        .with_enum_gap(Duration::from_millis(3));
    assert!(matches!(can.poll_list(1), Err(Error::Transport(CoreError::Timeout(t)))
        if t == Duration::from_millis(7)));
    assert!(can.teardown().is_ok());
    assert_eq!(can.into_inner().sent, vec![vec![0xa2, 0x01], vec![0xa3]]);
}

#[test]
fn negative_enumeration_is_refused() {
    let chan = FakeChan::new(vec![Ok(vec![0x7f, 0xa8, 0x12])]);
    let mut can = ToyotaCanLive::new(chan);
    assert!(matches!(
        can.enumerate_pids(0x01),
        Err(Error::Negative { service: 0xa8, nrc: 0x12 })
    ));
}

/// Which codes each table has, over the whole byte.
#[test]
fn negative_code_tables() {
    let uds: [u8; 40] = [
        0x10, 0x11, 0x12, 0x13, 0x14, 0x21, 0x22, 0x24, 0x25, 0x26, 0x31, 0x33, 0x35, 0x36, 0x37,
        0x70, 0x71, 0x72, 0x73, 0x78, 0x7e, 0x7f, 0x81, 0x82, 0x83, 0x84, 0x85, 0x86, 0x87, 0x88,
        0x89, 0x8a, 0x8b, 0x8c, 0x8d, 0x8f, 0x90, 0x91, 0x92, 0x93,
    ];
    let kwp: [u8; 20] = [
        0x10, 0x11, 0x12, 0x21, 0x22, 0x23, 0x31, 0x33, 0x35, 0x36, 0x37, 0x40, 0x50, 0x71, 0x78,
        0x80, 0x9a, 0x9b, 0xa0, 0xa1,
    ];
    for nrc in 0..=255u8 {
        let e = Error::Negative { service: 0x22, nrc };
        let told = |table: &[u8]| {
            if table.contains(&nrc) {
                Some(NrcByte::Standard(nrc))
            } else {
                Some(NrcByte::Extended(nrc))
            }
        };
        assert_eq!(e.uds_nrc(), told(&uds));
        assert_eq!(e.kwp_nrc(), told(&kwp));
    }
}

/// An entry may begin in one message of an enumeration and end in the next.
#[test]
fn an_entry_cut_across_messages_is_whole() {
    let chan = FakeChan::new(vec![
        Ok(vec![0xe8, 0x01, 0x05, 0x02, 0xaa]),
        Ok(vec![0xe8, 0x01, 0xbb, 0x06]),
        Ok(vec![0xe8, 0x02, 0x09, 0x00]), // another page: not of this stream
        Ok(vec![0xe8, 0x01, 0x01, 0xcc, 0x07, 0x04, 0xdd]),
    ]);
    let mut can = ToyotaCanLive::new(chan);
    assert_eq!(
        can.enumerate_pids(0x01).unwrap(),
        vec![
            EnumeratedPid { id: 0x05, width: 2, support: vec![0xaa, 0xbb] },
            EnumeratedPid { id: 0x06, width: 1, support: vec![0xcc] },
        ]
    );
}

/// The echo of a service is `sid | 0x40`.
#[test]
fn the_echo_sets_a_bit() {
    assert_eq!(parse_positive(0x41, vec![0x41, 0x07]).unwrap(), vec![0x07]);
    assert_eq!(parse_positive(0xc1, vec![0xc1]).unwrap(), Vec::<u8>::new());
    assert!(matches!(
        parse_positive(0x41, vec![0x81]).unwrap_err(),
        Error::Unexpected { expected: 0x41, .. }
    ));
}

/// The bound is on pending frames in a row.
#[test]
fn enumeration_outlasts_scattered_pending_frames() {
    let wait = || Ok(vec![0x7f, 0xa8, 0x78]);
    let mut replies = Vec::new();
    for id in 0..3u8 {
        for _ in 0..30 {
            replies.push(wait());
        }
        replies.push(Ok(vec![0xe8, 0x01, id, 0x00]));
    }
    let mut can = ToyotaCanLive::new(FakeChan::new(replies));
    assert_eq!(can.enumerate_pids(0x01).unwrap().len(), 3);

    let mut can = ToyotaCanLive::new(FakeChan::new((0..31).map(|_| wait()).collect()));
    assert!(matches!(
        can.enumerate_pids(0x01),
        Err(Error::Negative { service: 0xa8, nrc: 0x78 })
    ));
}
