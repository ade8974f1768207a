//! The app-facing session, the command line, the FTDI packet rules and the
//! texts of the errors.

use rmvci::android::AppSession;
use rmvci::codec::{crypto, frame, inner};
use rmvci::hvac::parse_args;
use rmvci::isotp::IsoTpPath;
use rmvci::session::device::parse_version;
use rmvci::time::{Duration, Instant};
use rmvci::transport::ftdi::{
    is_cable, java_count, java_latency, java_millis, latency_as_is, latency_node, latency_written,
    modem_values, no_cable, short_write, usb_label, FtdiRx, ReadStep,
};
use rmvci::transport::mock::{MockTransport, Step};
use rmvci::transport::LatencyResult;
use rmvci::types::{ProtocolId, RxMsg, RxStatus, RX_NOT_DATA};
use rmvci::{
    resolve_port, CanId, CodecError, Device, DeviceConfig, DeviceStatus, Error, IsoTpError,
    TransportError,
};

const KEY_OLD: [u8; 8] = [0xb0, 0xcb, 0x49, 0x68, 0x07, 0x45, 0xc8, 0x7f];
const TX_ID: [u8; 4] = [0x00, 0x00, 0x07, 0xc4];
const RX_ID: [u8; 4] = [0x00, 0x00, 0x07, 0xcc];

fn enc(inner_bytes: &[u8]) -> Vec<u8> {
    frame::encode_encrypted(&KEY_OLD, inner_bytes).unwrap()
}

fn status_reply(cmd: u8) -> Vec<u8> {
    enc(&[0x02, 0x00, cmd, 0x00])
}

fn handshake_steps() -> Vec<Step> {
    vec![
        Step::exchange(frame::encode_plain(&[]).unwrap(), Vec::new()),
        Step::exchange(
            frame::encode_plain(&inner::identify()).unwrap(),
            vec![
                0x0e, 0x00, 0x09, 0x00, 0x01, 0xb0, 0xcb, 0x49, 0x68, 0x07, 0x45, 0xc8, 0x7f, 0xa9,
            ],
        ),
    ]
}

fn app(steps: Vec<Step>) -> AppSession<MockTransport> {
    AppSession::new(
        Device::open_transport(MockTransport::new(steps), DeviceConfig::default()).expect("open"),
    )
}

fn message(id: &[u8], data: &[u8]) -> Vec<u8> {
    let mut m = id.to_vec();
    m.extend_from_slice(data);
    m
}

fn delivers(msg: &[u8]) -> Step {
    let mut reply = Vec::new();
    reply.extend_from_slice(&((9 + msg.len()) as u16).to_le_bytes());
    reply.push(0x09);
    reply.extend_from_slice(&[0; 8]);
    reply.extend_from_slice(msg);
    Step::exchange(enc(&inner::read_poll(ProtocolId::Iso15765)), enc(&reply))
}

#[test]
fn an_app_request_opens_its_channel_once() {
    let p = ProtocolId::Iso15765;
    let mut steps = handshake_steps();
    steps.push(Step::reply_any(status_reply(0x07)));
    steps.push(Step::reply_any(status_reply(0x0b)));
    for lid in [0x43u8, 0x44] {
        steps.push(Step::reply_any(status_reply(0x0a)));
        steps.push(delivers(&message(&RX_ID, &[0x61, lid, 0x7b])));
    }
    // Another ECU: the cached channel goes first.
    steps.push(Step::exchange(enc(&inner::disconnect(p)), status_reply(0x08)));
    steps.push(Step::reply_any(enc(&[0x02, 0x00, 0x07, 0x07])));
    let mut s = app(steps);
    let got = s.request(0x7c4, 0x7cc, -1, &[0x21, 0x43], 500).unwrap();
    assert_eq!(got, [0x61, 0x43, 0x7b]);
    let got = s.request(0x7c4, 0x7cc, -1, &[0x21, 0x44], 500).unwrap();
    assert_eq!(got, [0x61, 0x44, 0x7b]);
    let e = s.request(0x7e0, 0x7e8, -1, &[0x21, 0x44], 500).unwrap_err();
    assert!(e.starts_with("open ISO15765 channel: "), "got: {e}");
    let writes = s.close().writes();
    // The request itself is one message: identifier and service bytes.
    let wanted = enc(&inner::write_msg(p, 0, &message(&TX_ID, &[0x21, 0x44])).unwrap());
    assert_eq!(writes.iter().filter(|w| **w == wanted).count(), 1);
    assert_eq!(writes.last().unwrap(), &enc(&inner::session_close()));
}

#[test]
fn a_failed_app_version_says_what_failed() {
    let mut s = app(handshake_steps());
    let e = s.firmware_version().unwrap_err();
    assert!(e.starts_with("firmware_version: no reply from the adapter within "), "got: {e}");
}

fn words(args: &[&str]) -> Vec<String> {
    args.iter().map(|a| a.to_string()).collect()
}

#[test]
fn command_line_defaults_and_options() {
    let a = parse_args(&words(&[]), None).unwrap();
    assert_eq!(a.port, "/dev/ttyUSB0");
    assert!(matches!(a.isotp, IsoTpPath::Firmware));
    let a = parse_args(&words(&[]), Some("/dev/x".to_string())).unwrap();
    assert_eq!(a.port, "/dev/x");
    let a = parse_args(&words(&["--isotp", "host", "/dev/y"]), Some("/dev/x".to_string())).unwrap();
    assert_eq!(a.port, "/dev/y");
    assert!(matches!(a.isotp, IsoTpPath::Host));
    let a = parse_args(&words(&["/dev/y", "--isotp", "host", "--isotp", "firmware"]), None).unwrap();
    assert!(matches!(a.isotp, IsoTpPath::Firmware));
}

#[test]
fn command_line_refusals() {
    let refused = |args: &[&str]| parse_args(&words(args), None).err().unwrap();
    assert_eq!(refused(&["-h"]), "usage: prius-hvac [--isotp firmware|host] [PORT]");
    assert_eq!(refused(&["--help"]), refused(&["-h"]));
    assert_eq!(refused(&["--isotp"]), "--isotp expects firmware|host, got None");
    assert_eq!(refused(&["--isotp", "a\"b"]), "--isotp expects firmware|host, got Some(\"a\\\"b\")");
    assert_eq!(refused(&["p", "q"]), "unexpected argument \"q\"");
}

#[test]
fn port_choice() {
    assert_eq!(resolve_port(Some("a"), Some("b".to_string())), "a");
    assert_eq!(resolve_port(None, Some("b".to_string())), "b");
    assert_eq!(resolve_port(None, None), "/dev/ttyUSB0");
}

#[test]
fn version_text_ends_at_the_zero_and_is_lossy() {
    assert_eq!(parse_version(&[4, 0, 3, b'V', b'1', 0, b'x']).unwrap(), "V1");
    assert_eq!(parse_version(&[3, 0, 3, 0xff, b'1']).unwrap(), "\u{fffd}1");
    assert!(matches!(
        parse_version(&[2, 0, 7, 0]),
        Err(Error::Codec(CodecError::MalformedReply(_)))
    ));
}

#[test]
fn des_known_answer() {
    let mut block = [0x01, 0x23, 0x45, 0x67, 0x89, 0xab, 0xcd, 0xef];
    let key = [0x13, 0x34, 0x57, 0x79, 0x9b, 0xbc, 0xdf, 0xf1];
    crypto::encrypt_in_place(&key, &mut block);
    assert_eq!(block, [0x85, 0xe8, 0x13, 0x54, 0x0f, 0x0a, 0xb4, 0x05]);
    crypto::decrypt_in_place(&key, &mut block);
    assert_eq!(block, [0x01, 0x23, 0x45, 0x67, 0x89, 0xab, 0xcd, 0xef]);
}

#[test]
fn each_packet_loses_its_modem_header() {
    let mut rx = FtdiRx::new(8);
    rx.absorb(&[0x01, 0x60]); // an idle packet carries nothing
    assert_eq!(
        rx.next_step(Instant { nanos: 0 }, Instant { nanos: 0 }),
        ReadStep::GiveUp
    );
    rx.absorb(&[1, 2, 10, 11, 12, 13, 14, 15, 1, 2, 16, 17]);
    assert_eq!(rx.next_step(Instant { nanos: 9 }, Instant { nanos: 0 }), ReadStep::Deliver);
    let mut buf = [0u8; 5];
    assert_eq!(rx.take(&mut buf), 5);
    assert_eq!(buf, [10, 11, 12, 13, 14]);
    assert_eq!(rx.take(&mut buf), 3);
    assert_eq!(buf[..3], [15, 16, 17]);
    assert_eq!(rx.take(&mut buf), 0);
    rx.absorb(&[1, 2, 3]);
    rx.clear();
    assert_eq!(rx.take(&mut buf), 0);
    assert!(matches!(
        rx.next_step(Instant { nanos: 0 }, Instant { nanos: 5 }),
        ReadStep::Transfer { timeout: Duration { nanos: 5 }, .. }
    ));
}

#[test]
fn cable_recognition_and_labels() {
    let none: Option<String> = None;
    let a = Some("A1".to_string());
    let b = Some("B2".to_string());
    assert!(is_cable(0x0403, 0x6001, &none, &none));
    assert!(is_cable(0x0403, 0x6001, &a, &a));
    assert!(!is_cable(0x0403, 0x6001, &b, &a));
    assert!(!is_cable(0x0403, 0x6001, &none, &a));
    assert!(!is_cable(0x0403, 0x6015, &a, &none));
    assert_eq!(usb_label(0x0403, 0x6001, &a), "usb 0403:6001 A1");
    assert_eq!(usb_label(0x0403, 0x6001, &none), "usb 0403:6001 (no serial)");
    assert_eq!(no_cable(), "no 0403:6001 device found");
    assert_eq!(short_write(3, 14), "short write: 3 of 14 bytes");
    assert_eq!(modem_values(true, false), (0x0101, 0x0200));
    assert_eq!(modem_values(false, true), (0x0100, 0x0202));
}

#[test]
fn latency_timer_outcomes() {
    assert_eq!(
        latency_node("ttyUSB0"),
        "/sys/bus/usb-serial/devices/ttyUSB0/latency_timer"
    );
    assert_eq!(latency_as_is(Some(2)), Some(LatencyResult::AlreadyLow { millis: 2 }));
    assert_eq!(latency_as_is(Some(16)), None);
    assert_eq!(latency_as_is(None), None);
    assert_eq!(latency_written("n", None), LatencyResult::Lowered { millis: 2 });
    match latency_written("n", Some("denied".to_string())) {
        LatencyResult::Failed { reason } => assert!(reason.starts_with("n: denied (fix permanently")),
        other => panic!("expected Failed, got {other:?}"),
    }
    assert_eq!(java_latency(0), LatencyResult::Lowered { millis: 2 });
    assert!(matches!(java_latency(-1), LatencyResult::Failed { reason }
        if reason == "controlTransfer returned -1"));
    assert_eq!(java_millis(Duration { nanos: 1_999_999 }), 1);
    assert_eq!(java_millis(Duration { nanos: u128::MAX }), i32::MAX);
    assert_eq!(java_count(-1, 5), 0);
    assert_eq!(java_count(9, 5), 5);
    assert_eq!(java_count(3, 5), 3);
}

#[test]
fn error_texts() {
    assert_eq!(
        Error::Timeout(Duration::from_millis(1500)).message(),
        "no reply from the adapter within 1.5s (wedged? reopening the port \
         pulses DTR/RTS and resets the MCU)"
    );
    assert_eq!(CodecError::TooShort(2).message(), "frame too short (2 bytes; minimum is 3)");
    assert_eq!(
        CodecError::BadChecksum { wire: 0x0a, computed: 0xf0 }.message(),
        "bad checksum: wire 0x0a, computed 0xf0"
    );
    assert_eq!(
        CodecError::LengthMismatch { field: 9, actual: 3 }.message(),
        "length field says 9 but frame is 3 bytes"
    );
    assert_eq!(
        TransportError::Open { port: "p".to_string(), reason: "busy".to_string() }.message(),
        "failed to open port p: busy"
    );
    assert_eq!(
        Error::IsoTp(IsoTpError::FcTimeout).message(),
        IsoTpError::FcTimeout.message()
    );
    assert_eq!(
        IsoTpError::FcTimeout.message(),
        "no flow control from the ECU within the N_Bs timeout"
    );
}

#[test]
fn protocol_ids_off_the_table_are_refused() {
    for id in 0u32..=8 {
        assert_eq!(ProtocolId::try_from(id).is_ok(), (1..=6).contains(&id));
    }
    assert_eq!(ProtocolId::try_from(0x1000_0001), Ok(ProtocolId::Iso15765));
    assert_eq!(ProtocolId::try_from(0x1000_0001).unwrap().wire(), 6);
    let e = ProtocolId::try_from(7).unwrap_err();
    assert!(e.message().starts_with("unsupported ProtocolID 0x7: "), "got: {}", e.message());
}

#[test]
fn device_status_round_trips() {
    for b in 0..=255u8 {
        let s = DeviceStatus::from(b);
        assert_eq!(s.code(), b);
        assert_eq!(s.is_ok(), b == 0);
    }
}

#[test]
fn can_ids_round_trip() {
    assert_eq!(CanId::Std(0x7c4).to_wire(), TX_ID);
    assert_eq!(CanId::from_wire(RX_ID, false), CanId::Std(0x7cc));
    assert_eq!(CanId::from_wire([0x18, 0xda, 0xf1, 0x10], true), CanId::Ext(0x18da_f110));
    assert!(CanId::Ext(1).is_ext());
}

#[test]
fn indications_are_told_from_data() {
    let data = RxMsg { rx_status: RxStatus::empty(), data: vec![1] };
    assert!(!data.is_indication());
    let echo = RxMsg { rx_status: RxStatus::from_bits_retain(RX_NOT_DATA), data: vec![1] };
    assert!(echo.is_indication());
}
