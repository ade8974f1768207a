//! The 14 PassThru calls against mock-backed devices.

use rmvci::codec::{frame, inner};
use rmvci::j2534::consts::{
    CAN, CLEAR_RX_BUFFER, ERR_BUFFER_EMPTY, ERR_DEVICE_NOT_CONNECTED, ERR_FAILED, FAST_INIT,
    ERR_INVALID_CHANNEL_ID, ERR_INVALID_DEVICE_ID, ERR_INVALID_MSG, ERR_INVALID_PROTOCOL_ID,
    ERR_NOT_SUPPORTED, ERR_NULL_PARAMETER, FLOW_CONTROL_FILTER, GET_CONFIG, ISO15765, READ_VBATT,
    RMVCI_HOST_ISOTP, SET_CONFIG,
};
use rmvci::j2534::msg::{PassthruMsg, SConfig, SConfigList};
use rmvci::j2534::shim::{IoctlInput, IoctlOutput, IoctlPlace, Shim};
use rmvci::time::{Duration, Instant};
use rmvci::transport::mock::{MockTransport, Step};
use rmvci::types::ProtocolId;
use rmvci::{Device, DeviceConfig, Error, TransportError};

const KEY_OLD: [u8; 8] = [0xb0, 0xcb, 0x49, 0x68, 0x07, 0x45, 0xc8, 0x7f];

fn enc(inner_bytes: &[u8]) -> Vec<u8> {
    frame::encode_encrypted(&KEY_OLD, inner_bytes).unwrap()
}

fn status_reply(cmd: u8, status: u8) -> Vec<u8> {
    enc(&[0x02, 0x00, cmd, status])
}

fn handshake_steps() -> Vec<Step> {
    vec![
        Step::exchange(frame::encode_plain(&[]).unwrap(), Vec::new()),
        Step::exchange(
            frame::encode_plain(&inner::identify()).unwrap(),
            vec![
                0x0e, 0x00, 0x09, 0x00, 0x01, 0xb0, 0xcb, 0x49, 0x68, 0x07, 0x45, 0xc8, 0x7f, 0xa9,
            ],
        ),
    ]
}

fn msg(bytes: &[u8], tx_flags: u32) -> PassthruMsg {
    let mut data = vec![0; 4128];
    data[..bytes.len()].copy_from_slice(bytes);
    PassthruMsg {
        protocol_id: 0,
        rx_status: 0,
        tx_flags,
        timestamp: 0,
        data_size: bytes.len() as u32,
        extra_data_index: 0,
        data,
    }
}

/// The full script for the main scenario device, in exact wire order.
fn main_device_steps() -> Vec<Step> {
    let mut steps = handshake_steps();

    // PassThruConnect(alias 0x10000001) -> wire proto must be 6.
    steps.push(Step::exchange(
        enc(&inner::connect(ProtocolId::Iso15765, 0, 500_000)),
        status_reply(0x07, 0x00),
    ));

    // StartMsgFilter FLOW_CONTROL 7CC/7C4, first shim filter id 0x000e7a01.
    steps.push(Step::exchange(
        enc(&inner::start_filter(
            ProtocolId::Iso15765,
            0x000e_7a01,
            3,
            &[0xff, 0xff, 0xff, 0xff],
            &[0x00, 0x00, 0x07, 0xcc],
            Some(&[0x00, 0x00, 0x07, 0xc4]),
            4,
        )
        .unwrap()),
        status_reply(0x0b, 0x00),
    ));

    // SET_CONFIG with a 2-entry SCONFIG_LIST fans out into two wire calls.
    steps.push(Step::exchange(
        enc(&inner::set_config(ProtocolId::Iso15765, 0x1e, 0)),
        status_reply(0x0e, 0x00),
    ));
    steps.push(Step::exchange(
        enc(&inner::set_config(ProtocolId::Iso15765, 0x1f, 10)),
        status_reply(0x0e, 0x00),
    ));

    // WriteMsgs: 7C4 21 43.
    steps.push(Step::exchange(
        enc(&inner::write_msg(ProtocolId::Iso15765, 0, &[0x00, 0x00, 0x07, 0xc4, 0x21, 0x43])
            .unwrap()),
        status_reply(0x0a, 0x00),
    ));

    // ReadMsgs: one poll returning 7CC 61 43 7B 79.
    let read_reply: Vec<u8> = {
        let payload = [0x00, 0x00, 0x07, 0xcc, 0x61, 0x43, 0x7b, 0x79];
        let mut v = Vec::new();
        v.extend_from_slice(&((9 + payload.len()) as u16).to_le_bytes());
        v.push(0x09);
        v.extend_from_slice(&[0; 8]);
        v.extend_from_slice(&payload);
        v
    };
    steps.push(Step::exchange(enc(&inner::read_poll(ProtocolId::Iso15765)), enc(&read_reply)));

    // StartPeriodicMsg: host-assigned id 0x000e7b02 (next_id is 2 after the
    // one filter), then StopPeriodicMsg with the same id.
    let periodic_msg = [0x00, 0x00, 0x07, 0xc4, 0x3e, 0x00];
    steps.push(Step::exchange(
        enc(&inner::start_periodic(ProtocolId::Iso15765, 0x000e_7b02, 0, 1000, &periodic_msg)
            .unwrap()),
        status_reply(0x0f, 0x00),
    ));
    steps.push(Step::exchange(
        enc(&inner::stop_periodic(ProtocolId::Iso15765, 0x000e_7b02)),
        status_reply(0x10, 0x00),
    ));

    // GET_CONFIG(0x1e) -> value 8 (assumed reply layout).
    steps.push(Step::exchange(enc(&inner::get_config(ProtocolId::Iso15765, 0x1e)), {
        enc(&[0x05, 0x00, 0x0e, 0x08, 0x00, 0x00, 0x00])
    }));
    // READ_VBATT -> 12000 mV.
    steps.push(Step::exchange(enc(&inner::read_vbatt(ProtocolId::Iso15765)), {
        enc(&[0x05, 0x00, 0x0e, 0xe0, 0x2e, 0x00, 0x00])
    }));
    // SetProgrammingVoltage(pin 1, 5000 mV) — device-scoped passthrough.
    steps.push(Step::exchange(
        enc(&inner::set_programming_voltage(1, 5000)),
        status_reply(0x0d, 0x00),
    ));

    // StopMsgFilter, Disconnect, and the close-time session teardown.
    steps.push(Step::exchange(
        enc(&inner::stop_filter(ProtocolId::Iso15765, 0x000e_7a01)),
        status_reply(0x0c, 0x00),
    ));
    steps.push(Step::exchange(
        enc(&inner::disconnect(ProtocolId::Iso15765)),
        status_reply(0x08, 0x00),
    ));
    steps.push(Step::exchange(enc(&inner::session_close()), Vec::new()));
    steps
}

/// A read-poll exchange delivering one CAN message.
fn poll_delivers(proto: ProtocolId, rx_status: u32, data: &[u8]) -> Step {
    let mut reply = Vec::new();
    reply.extend_from_slice(&((9 + data.len()) as u16).to_le_bytes());
    reply.push(0x09);
    reply.extend_from_slice(&rx_status.to_le_bytes());
    reply.extend_from_slice(&[0; 4]);
    reply.extend_from_slice(data);
    Step::exchange(enc(&inner::read_poll(proto)), enc(&reply))
}

/// Script for a host-path ISO15765 channel (protocol 5 + host ISO-TP
/// machines): connect CAN, the endpoint filter, a single-frame `21 43` round
/// trip, and a 260-byte write that the firmware path could never segment
/// (FF + FC + consecutive frames) — the whole point of the host path.
fn host_device_steps() -> Vec<Step> {
    const TX: [u8; 4] = [0x00, 0x00, 0x07, 0xc4];
    const RX: [u8; 4] = [0x00, 0x00, 0x07, 0xcc];
    let mut steps = handshake_steps();

    // Connect proto 5 (the vendor host-isotp flag is stripped -> flags 0).
    steps.push(Step::exchange(enc(&inner::connect(ProtocolId::Can, 0, 500_000)), status_reply(0x07, 0x00)));
    // set_endpoints installs an exact PASS filter on rx (7cc); first id 0x000e7a00.
    steps.push(Step::exchange(
        enc(&inner::start_filter(ProtocolId::Can, 0x000e_7a00, 1, &[0xff; 4], &RX, None, 4).unwrap()),
        status_reply(0x0b, 0x00),
    ));

    // Small write 21 43 (single frame, padded to 8).
    steps.push(Step::exchange(
        enc(&inner::write_msg(ProtocolId::Can, 0, &{
            let mut m = TX.to_vec();
            m.extend_from_slice(&[0x02, 0x21, 0x43, 0, 0, 0, 0, 0]);
            m
        })
        .unwrap()),
        status_reply(0x0a, 0x00),
    ));
    steps.push(poll_delivers(ProtocolId::Can, 0, &{
        let mut m = RX.to_vec();
        m.extend_from_slice(&[0x04, 0x61, 0x43, 0x7b, 0x79, 0, 0, 0]);
        m
    }));

    // Large write: 260 bytes -> First Frame + Flow Control + Consecutive Frames.
    let payload: Vec<u8> = (0..260u16).map(|i| i as u8).collect();
    steps.push(Step::exchange(
        enc(&inner::write_msg(ProtocolId::Can, 0, &{
            let mut m = TX.to_vec();
            m.push(0x10 | (payload.len() >> 8) as u8);
            m.push(payload.len() as u8);
            m.extend_from_slice(&payload[..6]);
            m
        })
        .unwrap()),
        status_reply(0x0a, 0x00),
    ));
    // ECU flow control: CTS, BS 0, STmin 0.
    steps.push(poll_delivers(ProtocolId::Can, 0, &{
        let mut m = RX.to_vec();
        m.extend_from_slice(&[0x30, 0, 0, 0, 0, 0, 0, 0]);
        m
    }));
    let (mut off, mut sn) = (6usize, 1u8);
    while off < payload.len() {
        let take = (payload.len() - off).min(7);
        steps.push(Step::exchange(
            enc(&inner::write_msg(ProtocolId::Can, 0, &{
                let mut m = TX.to_vec();
                m.push(0x20 | (sn & 0x0f));
                m.extend_from_slice(&payload[off..off + take]);
                m.resize(4 + 8, 0); // pad the CAN frame to 8 data bytes
                m
            })
            .unwrap()),
            status_reply(0x0a, 0x00),
        ));
        off += take;
        sn = (sn + 1) & 0x0f;
    }

    // Disconnect (proto 5, on channel drop) + session close on device drop.
    steps.push(Step::exchange(enc(&inner::disconnect(ProtocolId::Can)), status_reply(0x08, 0x00)));
    steps.push(Step::exchange(enc(&inner::session_close()), Vec::new()));
    steps
}

fn device(steps: Vec<Step>) -> Result<Device<MockTransport>, Error> {
    Device::open_transport(
        MockTransport::new(steps),
        DeviceConfig { port: None, keepalive: Some(Duration::from_secs(600)) },
    )
}

fn open(shim: &mut Shim<MockTransport>, steps: Vec<Step>) -> Result<u64, i32> {
    let slot = shim.begin_open(true, Instant { nanos: 0 })?;
    shim.PassThruOpen(slot, device(steps))
}

#[test]
fn shim_end_to_end() {
    let mut shim: Shim<MockTransport> = Shim::new();

    // --- invalid ids are rejected before any device exists ---
    assert_eq!(shim.PassThruReadVersion(1, None, None, None).err(), Some(ERR_INVALID_DEVICE_ID));

    // --- open ---
    let dev_id = open(&mut shim, main_device_steps()).unwrap();
    assert_eq!(dev_id, 1);

    // --- ReadVersion reports the Techstream-compatible identity ---
    let v = shim.PassThruReadVersion(dev_id, None, None, None).unwrap();
    assert_eq!(v.firmware, "J2534 MINIV1.03");
    assert_eq!(v.dll, "MVCI J2534 DLL v1.4.6");
    assert_eq!(v.api, "04.04");

    // --- a wedge-inducing protocol id is refused client-side ---
    assert_eq!(shim.PassThruConnect(dev_id, 7, 0, 500_000, true), Err(ERR_INVALID_PROTOCOL_ID));
    let text = shim.PassThruGetLastError(true).unwrap();
    assert!(text.contains("unsupported protocol"), "got: {}", text);

    // --- connect via the vendor alias; the wire carries protocol 6 ---
    let ch_id = shim.PassThruConnect(dev_id, 0x1000_0001, 0, 500_000, true).unwrap();
    assert_eq!(ch_id, 0x100);

    // --- flow-control filter ---
    let mask = msg(&[0xff, 0xff, 0xff, 0xff], 0);
    let pattern = msg(&[0x00, 0x00, 0x07, 0xcc], 0);
    let flow = msg(&[0x00, 0x00, 0x07, 0xc4], 0);
    let filter_id = shim
        .PassThruStartMsgFilter(
            ch_id,
            FLOW_CONTROL_FILTER as u64,
            Some(&mask),
            Some(&pattern),
            Some(&flow),
            true,
        )
        .unwrap();
    assert_eq!(filter_id, 0x000e_7a01);

    // --- SCONFIG_LIST fan-out ---
    let cfgs = vec![SConfig { parameter: 0x1e, value: 0 }, SConfig { parameter: 0x1f, value: 10 }];
    let (r, _) = shim.PassThruIoctl(
        ch_id,
        SET_CONFIG as u64,
        IoctlInput::Configs(SConfigList { config: Some(cfgs) }),
        IoctlPlace::Null,
    );
    assert_eq!(r, Ok(()));

    // --- write + read ---
    let wmsg = [msg(&[0x00, 0x00, 0x07, 0xc4, 0x21, 0x43], 0)];
    assert_eq!(shim.PassThruWriteMsgs(ch_id, Some(&wmsg)), (Ok(()), Some(1)));

    let mut got = vec![msg(&[], 0)];
    assert_eq!(shim.PassThruReadMsgs(ch_id, &mut got, 1000), (Ok(()), Some(1)));
    let rmsg = &got[0];
    assert_eq!(rmsg.data_size, 8);
    assert_eq!(&rmsg.data[..8], &[0x00, 0x00, 0x07, 0xcc, 0x61, 0x43, 0x7b, 0x79]);
    assert_eq!(rmsg.protocol_id, 6);
    // The message carries a receive timestamp (us since the first open), which
    // by now (after handshake, connect, filter, config and a write) is well
    // past zero.
    assert!(rmsg.timestamp > 0, "expected a non-zero receive timestamp");

    // --- periodic messages: id is written back, stop takes it verbatim ---
    let pmsg = msg(&[0x00, 0x00, 0x07, 0xc4, 0x3e, 0x00], 0);
    let msg_id = shim.PassThruStartPeriodicMsg(ch_id, Some(&pmsg), true, 1000).unwrap();
    assert_eq!(msg_id, 0x000e_7b02);
    assert_eq!(shim.PassThruStopPeriodicMsg(ch_id, msg_id), Ok(()));

    // --- GET_CONFIG gives the value back in the caller's list ---
    let (r, out) = shim.PassThruIoctl(
        ch_id,
        GET_CONFIG as u64,
        IoctlInput::Configs(SConfigList { config: Some(vec![SConfig { parameter: 0x1e, value: 0 }]) }),
        IoctlPlace::Null,
    );
    assert_eq!(r, Ok(()));
    match out {
        IoctlOutput::Configs(list) => assert_eq!(list, vec![SConfig { parameter: 0x1e, value: 8 }]),
        _ => panic!("GET_CONFIG must give the list back"),
    }

    // --- READ_VBATT gives millivolts ---
    let (r, out) = shim.PassThruIoctl(ch_id, READ_VBATT as u64, IoctlInput::Null, IoctlPlace::Word);
    assert_eq!(r, Ok(()));
    match out {
        IoctlOutput::Voltage(mv) => assert_eq!(mv, 12000),
        _ => panic!("READ_VBATT must give a voltage"),
    }

    // --- SetProgrammingVoltage is a device-scoped passthrough ---
    assert_eq!(shim.PassThruSetProgrammingVoltage(dev_id, 1, 5000), Ok(()));

    // --- stop filter, disconnect, close ---
    assert_eq!(shim.PassThruStopMsgFilter(ch_id, filter_id), Ok(()));
    assert_eq!(shim.PassThruDisconnect(ch_id), Ok(()));
    assert_eq!(shim.PassThruDisconnect(ch_id), Err(ERR_INVALID_CHANNEL_ID));
    assert!(shim.PassThruClose(dev_id).is_ok());
    assert_eq!(shim.PassThruClose(dev_id).err(), Some(ERR_INVALID_DEVICE_ID));

    // --- host-path ISO15765 (the second device): the vendor RMVCI_HOST_ISOTP
    // flag opens a raw-CAN channel running host-side ISO-TP, so a >255-byte
    // write segments correctly instead of failing FirmwareFfDlLimit ---
    let hdev = open(&mut shim, host_device_steps()).unwrap();
    let hch = shim
        .PassThruConnect(hdev, ISO15765 as u64, RMVCI_HOST_ISOTP as u64, 500_000, true)
        .unwrap();
    // Flow-control filter carries the endpoints: pattern = rx (7cc), flow = tx (7c4).
    let hmask = msg(&[0xff, 0xff, 0xff, 0xff], 0);
    let hpat = msg(&[0x00, 0x00, 0x07, 0xcc], 0);
    let hflow = msg(&[0x00, 0x00, 0x07, 0xc4], 0);
    assert!(shim
        .PassThruStartMsgFilter(
            hch,
            FLOW_CONTROL_FILTER as u64,
            Some(&hmask),
            Some(&hpat),
            Some(&hflow),
            true,
        )
        .is_ok());

    // Small round trip through the host path.
    let hw = [msg(&[0x00, 0x00, 0x07, 0xc4, 0x21, 0x43], 0)];
    assert_eq!(shim.PassThruWriteMsgs(hch, Some(&hw)).0, Ok(()));
    let mut got = vec![msg(&[], 0)];
    assert_eq!(shim.PassThruReadMsgs(hch, &mut got, 1000).0, Ok(()));
    assert_eq!(&got[0].data[..8], &[0x00, 0x00, 0x07, 0xcc, 0x61, 0x43, 0x7b, 0x79]);

    // 260-byte write: firmware path would return FirmwareFfDlLimit; the
    // host path segments it and succeeds.
    let mut big = msg(&[], 0);
    big.data[..4].copy_from_slice(&[0x00, 0x00, 0x07, 0xc4]);
    for (i, b) in big.data[4..264].iter_mut().enumerate() {
        *b = i as u8;
    }
    big.data_size = 264;
    assert_eq!(shim.PassThruWriteMsgs(hch, Some(&[big])), (Ok(()), Some(1)));

    assert_eq!(shim.PassThruDisconnect(hch), Ok(()));
    assert!(shim.PassThruClose(hdev).is_ok());

    // --- slot exhaustion: 4 devices fit, the 5th is refused ---
    let open_only = || {
        let mut s = handshake_steps();
        s.push(Step::reply_any(Vec::new())); // session close
        s
    };
    let ids: Vec<u64> = (0..4).map(|_| open(&mut shim, open_only()).unwrap()).collect();
    assert_eq!(shim.begin_open(true, Instant { nanos: 0 }), Err(ERR_FAILED));
    for id in ids {
        assert!(shim.PassThruClose(id).is_ok());
    }

    // --- with no device/channel open, the periodic and voltage calls report
    // the right "nothing there" errors ---
    assert_eq!(shim.PassThruStopPeriodicMsg(0x100, 1), Err(ERR_INVALID_CHANNEL_ID));
    assert_eq!(shim.PassThruSetProgrammingVoltage(1, 15, 0), Err(ERR_INVALID_DEVICE_ID));
}

#[test]
fn open_failures_are_reported() {
    let mut shim: Shim<MockTransport> = Shim::new();
    assert_eq!(shim.begin_open(false, Instant { nanos: 0 }), Err(ERR_NULL_PARAMETER));
    assert_eq!(shim.PassThruGetLastError(true).unwrap(), "NULL pDeviceID");
    assert_eq!(shim.PassThruGetLastError(false), Err(ERR_NULL_PARAMETER));
    let slot = shim.begin_open(true, Instant { nanos: 0 }).unwrap();
    assert_eq!(
        shim.PassThruOpen(slot, device(Vec::new())),
        Err(ERR_DEVICE_NOT_CONNECTED)
    );
    assert_eq!(
        shim.PassThruGetLastError(true).unwrap(),
        "device open failed: no reply from the adapter within 2s (wedged? reopening the "
    );
}

/// A second connect on a slot first takes down the channel that is there.
#[test]
fn a_slot_holds_one_channel() {
    let mut shim: Shim<MockTransport> = Shim::new();
    let mut steps = handshake_steps();
    steps.push(Step::reply_any(status_reply(0x07, 0x00)));
    steps.push(Step::exchange(enc(&inner::disconnect(ProtocolId::Can)), status_reply(0x08, 0x00)));
    steps.push(Step::exchange(
        enc(&inner::connect(ProtocolId::Iso9141, 0, 10_400)),
        status_reply(0x07, 0x00),
    ));
    let dev = open(&mut shim, steps).unwrap();
    assert_eq!(shim.PassThruConnect(dev, CAN as u64, 0, 500_000, false), Err(ERR_NULL_PARAMETER));
    assert_eq!(
        shim.PassThruConnect(dev + 1, CAN as u64, 0, 500_000, true),
        Err(ERR_INVALID_DEVICE_ID)
    );
    let ch = shim.PassThruConnect(dev, CAN as u64, 0, 500_000, true).unwrap();
    assert_eq!(shim.PassThruConnect(dev, 3, 0, 10_400, true), Ok(ch));
    // An unknown ioctl, and one that only clears buffers.
    assert_eq!(shim.PassThruIoctl(ch, 0x77, IoctlInput::Null, IoctlPlace::Null).0, Err(ERR_NOT_SUPPORTED));
    assert_eq!(shim.PassThruIoctl(ch, CLEAR_RX_BUFFER as u64, IoctlInput::Null, IoctlPlace::Null).0, Ok(()));
    assert_eq!(
        shim.PassThruIoctl(ch, SET_CONFIG as u64, IoctlInput::Null, IoctlPlace::Null).0,
        Err(ERR_NULL_PARAMETER)
    );
    assert_eq!(shim.PassThruWriteMsgs(ch, None), (Err(ERR_NULL_PARAMETER), None));
    assert_eq!(
        shim.PassThruWriteMsgs(0x1ff, Some(&[msg(&[1], 0)])).0,
        Err(ERR_INVALID_CHANNEL_ID)
    );
}

#[test]
fn an_empty_read_says_so() {
    let mut shim: Shim<MockTransport> = Shim::new();
    let mut steps = handshake_steps();
    steps.push(Step::reply_any(status_reply(0x07, 0x00)));
    // One poll before the 1 ms deadline, and one past it.
    steps.push(Step::reply_any(status_reply(0x09, 0x10)));
    steps.push(Step::reply_any(status_reply(0x09, 0x10)));
    let dev = open(&mut shim, steps).unwrap();
    let ch = shim.PassThruConnect(dev, CAN as u64, 0, 500_000, true).unwrap();
    let mut places = vec![msg(&[7], 3)];
    assert_eq!(shim.PassThruReadMsgs(ch, &mut places, 0), (Err(ERR_BUFFER_EMPTY), Some(0)));
    assert_eq!((places[0].data_size, places[0].data[0], places[0].tx_flags), (1, 7, 3));
    assert_eq!(
        shim.PassThruGetLastError(true).unwrap(),
        "no message (no filter installed; this adapter receives nothing until PassThruSt"[..79]
    );
}

#[test]
fn a_firmware_payload_past_its_limit_is_refused() {
    let mut shim: Shim<MockTransport> = Shim::new();
    let mut steps = handshake_steps();
    steps.push(Step::reply_any(status_reply(0x07, 0x00)));
    let dev = open(&mut shim, steps).unwrap();
    let ch = shim.PassThruConnect(dev, ISO15765 as u64, 0, 500_000, true).unwrap();
    let (r, sent) = shim.PassThruWriteMsgs(ch, Some(&[msg(&[7; 260], 0)]));
    assert_eq!(r, Err(ERR_FAILED));
    assert_eq!(sent, Some(0));
    let text = shim.PassThruGetLastError(true).unwrap();
    assert!(text.contains("256"), "got: {}", text);
}

#[test]
fn slots_are_independent_and_reused_lowest_first() {
    let mut shim: Shim<MockTransport> = Shim::new();
    let steps = || {
        let mut s = handshake_steps();
        for _ in 0..4 {
            s.push(Step::reply_any(status_reply(0x07, 0x00)));
        }
        s
    };
    let a = open(&mut shim, steps()).unwrap();
    let b = open(&mut shim, steps()).unwrap();
    assert_eq!((a, b), (1, 2));
    let ch_b = shim.PassThruConnect(b, CAN as u64, 0, 500_000, true).unwrap();
    assert_eq!(ch_b, 0x101);
    // No channel on the first device yet.
    assert_eq!(shim.PassThruDisconnect(0x100), Err(ERR_INVALID_CHANNEL_ID));
    let io = shim.PassThruClose(a).ok().unwrap();
    assert_eq!(io.writes().last().unwrap(), &enc(&inner::session_close()));
    // The second device is still there, and the freed slot is the next taken.
    assert!(shim.PassThruReadVersion(b, None, None, None).is_ok());
    assert_eq!(open(&mut shim, steps()), Ok(1));
    let v = shim
        .PassThruReadVersion(b, Some("fw".to_string()), None, Some("05.00".to_string()))
        .unwrap();
    assert_eq!((v.firmware.as_str(), v.api.as_str()), ("fw", "05.00"));
}

#[test]
fn filter_arguments_are_checked_before_the_channel() {
    let mut shim: Shim<MockTransport> = Shim::new();
    let m = msg(&[0; 4], 0);
    assert_eq!(
        shim.PassThruStartMsgFilter(0x100, 1, None, Some(&m), None, true),
        Err(ERR_NULL_PARAMETER)
    );
    assert_eq!(
        shim.PassThruStartMsgFilter(0x100, 9, Some(&m), Some(&m), None, true),
        Err(ERR_INVALID_MSG)
    );
    assert_eq!(
        shim.PassThruStartMsgFilter(0x100, 3, Some(&m), Some(&m), None, true),
        Err(ERR_NULL_PARAMETER)
    );
    assert_eq!(
        shim.PassThruStartMsgFilter(0x100, 1, Some(&m), Some(&m), Some(&m), true),
        Err(ERR_INVALID_MSG)
    );
    assert_eq!(
        shim.PassThruStartMsgFilter(0x100, 1, Some(&m), Some(&m), None, true),
        Err(ERR_INVALID_CHANNEL_ID)
    );
    assert_eq!(
        shim.PassThruReadMsgs(0x100, &mut vec![msg(&[], 0)], 0),
        (Err(ERR_INVALID_CHANNEL_ID), None)
    );
    assert_eq!(
        shim.PassThruReadMsgs(0x100, &mut Vec::new(), 0),
        (Err(ERR_NULL_PARAMETER), None)
    );
}

/// A GET_CONFIG that fails on one parameter still hands
/// back the values read before it.
#[test]
fn get_config_keeps_what_it_read() {
    let mut shim: Shim<MockTransport> = Shim::new();
    let mut steps = handshake_steps();
    steps.push(Step::reply_any(status_reply(0x07, 0x00)));
    steps.push(Step::reply_any(enc(&[0x05, 0x00, 0x0e, 0x08, 0x00, 0x00, 0x00])));
    steps.push(Step::reply_any(enc(&[0x02, 0x00, 0x09, 0x00])));
    let dev = open(&mut shim, steps).unwrap();
    let ch = shim.PassThruConnect(dev, CAN as u64, 0, 500_000, true).unwrap();
    let list =
        vec![SConfig { parameter: 0x1e, value: 1 }, SConfig { parameter: 0x1f, value: 2 }];
    let (r, out) = shim.PassThruIoctl(
        ch,
        GET_CONFIG as u64,
        IoctlInput::Configs(SConfigList { config: Some(list) }),
        IoctlPlace::Null,
    );
    assert_eq!(r, Err(ERR_FAILED));
    assert_eq!(
        shim.PassThruGetLastError(true).unwrap(),
        "get_config(31) failed: malformed reply: not a get-config reply"
    );
    match out {
        IoctlOutput::Configs(list) => assert_eq!(
            list,
            vec![SConfig { parameter: 0x1e, value: 8 }, SConfig { parameter: 0x1f, value: 2 }]
        ),
        _ => panic!("GET_CONFIG must give the list back"),
    }
}

/// The caller's buffer has 80 bytes: the text is cut to 79 of them, between
/// characters.
#[test]
fn the_last_error_fits_the_buffer_in_bytes() {
    let fail = |port: String| {
        let mut shim: Shim<MockTransport> = Shim::new();
        let slot = shim.begin_open(true, Instant { nanos: 0 }).unwrap();
        let e = Error::Transport(TransportError::Open { port, reason: "busy".to_string() });
        assert_eq!(shim.PassThruOpen(slot, Err(e)), Err(ERR_DEVICE_NOT_CONNECTED));
        shim.PassThruGetLastError(true).unwrap()
    };
    let intro = "device open failed: failed to open port ";
    assert_eq!(intro.len(), 40);
    // Two bytes a character: the twentieth would be the 80th byte.
    assert_eq!(fail("\u{e9}".repeat(60)), format!("{intro}{}", "\u{e9}".repeat(19)));
    // Three and four bytes a character.
    assert_eq!(fail("\u{20ac}".repeat(60)), format!("{intro}{}", "\u{20ac}".repeat(13)));
    assert_eq!(fail("\u{1f697}".repeat(60)), format!("{intro}{}", "\u{1f697}".repeat(9)));
    // One byte a character.
    assert_eq!(fail("a".repeat(60)), format!("{intro}{}", "a".repeat(39)));
    // A text of exactly 79 bytes is whole, and so is a shorter one.
    let port = format!("{}a", "\u{e9}".repeat(16));
    assert_eq!(fail(port.clone()), format!("{intro}{port}: busy"));
    assert_eq!(fail(port.clone()).len(), 79);
    assert_eq!(fail("x".to_string()), format!("{intro}x: busy"));
}

#[test]
fn version_overrides_fit_the_buffer_in_bytes() {
    let mut shim: Shim<MockTransport> = Shim::new();
    let dev = open(&mut shim, handshake_steps()).unwrap();
    let v = shim
        .PassThruReadVersion(
            dev,
            Some("\u{fc}".repeat(100)),
            Some("z".repeat(79)),
            Some("z".repeat(80)),
        )
        .unwrap();
    assert_eq!(v.firmware, "\u{fc}".repeat(39));
    assert_eq!(v.dll, "z".repeat(79));
    assert_eq!(v.api, "z".repeat(79));
}

/// A received message goes into the caller's: all its fields, and as much of
/// the buffer as it fills. The rest of the buffer, and a place that no message
/// came for, stay as they were.
#[test]
fn received_messages_go_into_the_callers_buffers() {
    let mut shim: Shim<MockTransport> = Shim::new();
    let mut steps = handshake_steps();
    steps.push(Step::reply_any(status_reply(0x07, 0x00)));
    steps.push(poll_delivers(ProtocolId::Can, 0x100, &[1, 2, 3, 4, 5]));
    steps.push(Step::reply_any(status_reply(0x09, 0x10)));
    steps.push(Step::reply_any(status_reply(0x09, 0x10)));
    let dev = open(&mut shim, steps).unwrap();
    let ch = shim.PassThruConnect(dev, CAN as u64, 0, 500_000, true).unwrap();
    let mut places = vec![msg(&[9; 8], 77), msg(&[8; 8], 78)];
    assert_eq!(shim.PassThruReadMsgs(ch, &mut places, 1), (Ok(()), Some(1)));
    let m = &places[0];
    assert_eq!((m.protocol_id, m.rx_status, m.tx_flags), (5, 0x100, 0));
    assert_eq!((m.data_size, m.extra_data_index, m.data.len()), (5, 5, 4128));
    assert_eq!(m.data[..9], [1, 2, 3, 4, 5, 9, 9, 9, 0]);
    assert_eq!((places[1].data_size, places[1].tx_flags, places[1].data[7]), (8, 78, 8));
    // What was read can be written as it is.
    assert_eq!(places[0].data.len(), places[1].data.len());
}

#[test]
fn key_bytes_go_into_the_callers_message() {
    let p = ProtocolId::Iso14230;
    let mut shim: Shim<MockTransport> = Shim::new();
    let mut steps = handshake_steps();
    steps.push(Step::reply_any(status_reply(0x07, 0x00)));
    for _ in 0..2 {
        steps.push(Step::exchange(
            enc(&inner::fast_init(p, &[0x81, 0x98, 0xf0, 0x81])),
            enc(&[0x04, 0x00, 0x0e, 0xc1, 0xea, 0x8f]),
        ));
    }
    let dev = open(&mut shim, steps).unwrap();
    let ch = shim.PassThruConnect(dev, 4, 0x1000, 10_400, true).unwrap();
    let init = || IoctlInput::Msg(msg(&[0x81, 0x98, 0xf0, 0x81], 0));
    let (r, out) =
        shim.PassThruIoctl(ch, FAST_INIT as u64, init(), IoctlPlace::Msg(msg(&[6; 5], 1)));
    assert_eq!(r, Ok(()));
    match out {
        IoctlOutput::Msg(m) => {
            assert_eq!((m.protocol_id, m.tx_flags, m.timestamp, m.data_size), (4, 0, 0, 3));
            assert_eq!(m.data[..6], [0xc1, 0xea, 0x8f, 6, 6, 0]);
        }
        _ => panic!("FAST_INIT must fill the caller's message"),
    }
    let (r, out) = shim.PassThruIoctl(ch, FAST_INIT as u64, init(), IoctlPlace::Null);
    assert_eq!(r, Ok(()));
    assert!(matches!(out, IoctlOutput::Nothing));
}
