//! K-line: the ISO 14230 framing, the ECU bring-up, and the message/init
//! surface that ISO9141 shares with it.

use rmvci::codec::{frame, inner};
use rmvci::kline::{build_frame, kline_timing, strip_header};
use rmvci::time::Duration;
use rmvci::transport::mock::{MockTransport, Step};
use rmvci::types::ProtocolId;
use rmvci::{Device, DeviceConfig, Error, Iso9141, KLineConfig, KLineEcu, KLineLink, UdsTransport};

const KEY_OLD: [u8; 8] = [0xb0, 0xcb, 0x49, 0x68, 0x07, 0x45, 0xc8, 0x7f];

fn enc(inner_bytes: &[u8]) -> Vec<u8> {
    frame::encode_encrypted(&KEY_OLD, inner_bytes).unwrap()
}

fn status_reply(cmd: u8) -> Vec<u8> {
    enc(&[0x02, 0x00, cmd, 0x00])
}

fn handshake_steps() -> Vec<Step> {
    vec![
        Step::exchange(frame::encode_plain(&[]).unwrap(), Vec::new()),
        Step::exchange(
            frame::encode_plain(&inner::identify()).unwrap(),
            vec![
                0x0e, 0x00, 0x09, 0x00, 0x01, 0xb0, 0xcb, 0x49, 0x68, 0x07, 0x45, 0xc8, 0x7f, 0xa9,
            ],
        ),
    ]
}

fn dev(steps: Vec<Step>) -> Device<MockTransport> {
    Device::open_transport(
        MockTransport::new(steps),
        DeviceConfig { port: None, keepalive: Some(Duration::from_secs(600)) },
    )
    .expect("open")
}

#[test]
fn iso9141_typed_channel_writes_and_inits() {
    let msg = [0x68, 0x6a, 0xf1, 0x01, 0x00]; // ISO9141 header + OBD mode 01 PID 00
    // K-line init reply: IOCTL echo + two key bytes (KWP2000 slow-init).
    let init_reply = vec![0x03, 0x00, 0x0e, 0xef, 0x8f];

    let (flags, baud) = (0x1000u32, 10_400u32); // KLineConfig::default()
    let mut steps = handshake_steps();
    steps.push(Step::exchange(enc(&inner::connect(ProtocolId::Iso9141, flags, baud)), status_reply(0x07)));
    steps.push(Step::exchange(enc(&inner::write_msg(ProtocolId::Iso9141, 0, &msg).unwrap()), status_reply(0x0a)));
    steps.push(Step::exchange(enc(&inner::five_baud_init(ProtocolId::Iso9141, &[0x33])), enc(&init_reply)));

    let mut device = dev(steps);
    let mut chan = device.connect::<Iso9141>(KLineConfig::default()).expect("connect ISO9141");
    chan.write(&mut device, &msg).expect("write");
    assert_eq!(chan.five_baud_init(&mut device, &[0x33]).expect("five baud"), vec![0xef, 0x8f]);
}

#[test]
fn frame_wraps_short_payload() {
    assert_eq!(build_frame(0x98, 0xf0, &[0x21, 0x0d]), [0x82, 0x98, 0xf0, 0x21, 0x0d]);
    assert_eq!(build_frame(0x98, 0xf0, &[0x81]), [0x81, 0x98, 0xf0, 0x81]);
}

#[test]
fn frame_uses_length_byte_past_63() {
    let payload = vec![0xaa; 70];
    let f = build_frame(0x33, 0xf0, &payload);
    assert_eq!(&f[..4], [0x80, 0x33, 0xf0, 70]);
    assert_eq!(f.len(), 4 + 70);
}

#[test]
fn strip_recovers_service_bytes() {
    // 0x83 F0 98 61 0D 09  ->  61 0D 09
    assert_eq!(strip_header(&[0x83, 0xf0, 0x98, 0x61, 0x0d, 0x09]).unwrap(), &[0x61, 0x0d, 0x09]);
    // 0x82 F0 98 61 0E     ->  61 0E
    assert_eq!(strip_header(&[0x82, 0xf0, 0x98, 0x61, 0x0e]).unwrap(), &[0x61, 0x0e]);
}

#[test]
fn strip_rejects_runt() {
    assert!(strip_header(&[0x80, 0xf0, 0x98]).is_err());
}

#[test]
fn strip_undoes_build_for_every_length_byte() {
    for n in 1..=255usize {
        let payload: Vec<u8> = (0..n).map(|i| (i * 3) as u8).collect();
        let f = build_frame(0x98, 0xf0, &payload);
        assert_eq!(strip_header(&f).unwrap(), &payload[..]);
    }
}

fn bring_up_steps() -> Vec<Step> {
    let p = ProtocolId::Iso14230;
    let mut steps = handshake_steps();
    steps.push(Step::exchange(enc(&inner::connect(p, 0x1000, 10_400)), status_reply(0x07)));
    steps.push(Step::exchange(
        enc(&inner::start_filter(p, 0x000e_7a00, 1, &[0xc0], &[0x80], None, 1).unwrap()),
        status_reply(0x0b),
    ));
    for (param, value) in kline_timing() {
        steps.push(Step::exchange(enc(&inner::set_config(p, param, value)), status_reply(0x0e)));
    }
    steps.push(Step::exchange(enc(&inner::clear_periodic(p)), status_reply(0x0e)));
    steps
}

fn delivers(msg: &[u8]) -> Step {
    let mut reply = Vec::new();
    reply.extend_from_slice(&((9 + msg.len()) as u16).to_le_bytes());
    reply.push(0x09);
    reply.extend_from_slice(&[0; 8]);
    reply.extend_from_slice(msg);
    Step::exchange(enc(&inner::read_poll(ProtocolId::Iso14230)), enc(&reply))
}

#[test]
fn timing_profile_is_the_vendors() {
    assert_eq!(
        kline_timing(),
        [
            (1, 9600), (7, 40), (10, 10), (11, 10), (19, 300), (20, 35),
            (21, 50), (14, 25), (15, 20), (16, 20), (17, 25), (18, 10),
        ]
    );
}

#[test]
fn ecu_bring_up_init_and_request() {
    let p = ProtocolId::Iso14230;
    let mut steps = bring_up_steps();
    steps.push(Step::exchange(
        enc(&inner::fast_init(p, &[0x81, 0x98, 0xf0, 0x81])),
        enc(&[0x04, 0x00, 0x0e, 0xc1, 0xea, 0x8f]),
    ));
    steps.push(Step::exchange(enc(&inner::clear_periodic(p)), status_reply(0x0e)));
    steps.push(Step::exchange(
        enc(&inner::write_msg(p, 0, &[0x82, 0x98, 0xf0, 0x21, 0x0d]).unwrap()),
        status_reply(0x0a),
    ));
    // A pending frame is swallowed, then the real answer is stripped.
    steps.push(delivers(&[0x83, 0xf0, 0x98, 0x7f, 0x21, 0x78]));
    steps.push(delivers(&[0x83, 0xf0, 0x98, 0x61, 0x0d, 0x09]));

    let mut device = dev(steps);
    let mut ecu = KLineEcu::connect(&mut device, 0x98).expect("bring-up");
    assert_eq!(ecu.ecu(), 0x98);
    assert_eq!(ecu.fast_init(&mut device).unwrap(), [0xc1, 0xea, 0x8f]);
    let mut link = KLineLink { dev: device, ecu };
    assert_eq!(link.request(&[0x21, 0x0d], Duration::from_secs(1)).unwrap(), [0x61, 0x0d, 0x09]);
}

#[test]
fn failed_bring_up_disconnects_the_channel() {
    let p = ProtocolId::Iso14230;
    let mut steps = handshake_steps();
    steps.push(Step::exchange(enc(&inner::connect(p, 0x1000, 10_400)), status_reply(0x07)));
    steps.push(Step::reply_any(enc(&[0x02, 0x00, 0x0b, 0x07]))); // filter refused
    steps.push(Step::exchange(enc(&inner::disconnect(p)), status_reply(0x08)));
    let mut device = dev(steps);
    assert!(matches!(KLineEcu::connect(&mut device, 0x98), Err(Error::Rejected { .. })));
    assert_eq!(device.transport().writes().last().unwrap(), &enc(&inner::disconnect(p)));
}
