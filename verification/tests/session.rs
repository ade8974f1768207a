//! The session over a scripted transport: the open/handshake sequence,
//! firmware version readout, the idle poll, teardown and the wedge detector.
//! All expected wire bytes are computed with the codec.

use rmvci::codec::{frame, inner};
use rmvci::time::Duration;
use rmvci::transport::mock::{Event, MockTransport, Step};
use rmvci::types::ProtocolId;
use rmvci::{Can, CanConfig, CanFilter, CanId, CodecError, Device, DeviceConfig, Error};

const KEY_OLD: [u8; 8] = [0xb0, 0xcb, 0x49, 0x68, 0x07, 0x45, 0xc8, 0x7f];

fn challenge_frame() -> Vec<u8> {
    vec![0x0e, 0x00, 0x09, 0x00, 0x01, 0xb0, 0xcb, 0x49, 0x68, 0x07, 0x45, 0xc8, 0x7f, 0xa9]
}

fn reset_frame() -> Vec<u8> {
    frame::encode_plain(&[]).unwrap()
}

fn identify_frame() -> Vec<u8> {
    frame::encode_plain(&inner::identify()).unwrap()
}

fn handshake_steps() -> Vec<Step> {
    vec![
        Step::exchange(reset_frame(), Vec::new()),
        Step::exchange(identify_frame(), challenge_frame()),
    ]
}

fn enc(inner_bytes: &[u8]) -> Vec<u8> {
    frame::encode_encrypted(&KEY_OLD, inner_bytes).unwrap()
}

/// Status reply `[02 00 CMD status]` as the wire frame.
fn status_reply(cmd: u8, status: u8) -> Vec<u8> {
    enc(&[0x02, 0x00, cmd, status])
}

/// A status reply to a READ_MSG poll: nothing queued (ERR_BUFFER_EMPTY).
fn ka_ack() -> Vec<u8> {
    enc(&[0x02, 0x00, 0x09, 0x10])
}

fn cfg(keepalive_ms: u64) -> DeviceConfig {
    DeviceConfig { port: None, keepalive: Some(Duration::from_millis(keepalive_ms)) }
}

fn open(steps: Vec<Step>) -> Device<MockTransport> {
    Device::open_transport(MockTransport::new(steps), cfg(60_000)).expect("open")
}

#[test]
fn open_runs_reset_dance_then_handshake() {
    let dev = open(handshake_steps());
    assert_eq!(dev.des_key(), KEY_OLD);

    let ev = dev.transport().events();
    // DTR/RTS dance: RTS clear + DTR set, then DTR clear, then purge.
    assert_eq!(ev[0], Event::Modem { dtr: true, rts: false });
    assert_eq!(ev[1], Event::Modem { dtr: false, rts: false });
    assert_eq!(ev[2], Event::PurgeRx);
    // Handshake: purge, reset frame, purge, identify.
    assert_eq!(ev[3], Event::PurgeRx);
    assert_eq!(ev[4], Event::Write(reset_frame()));
    assert_eq!(ev[5], Event::PurgeRx);
    assert_eq!(ev[6], Event::Write(identify_frame()));
    assert_eq!(ev.len(), 7, "no extra traffic before any request: {ev:?}");

    let sleeps = dev.transport().sleeps();
    assert_eq!(
        sleeps[..],
        [Duration::from_millis(15), Duration::from_millis(1000), Duration::from_millis(110)]
    );
}

#[test]
fn firmware_version_round_trip() {
    let version_inner: Vec<u8> = {
        let s = b"J2534 MINIV1.03";
        let mut v = Vec::new();
        v.extend_from_slice(&((1 + s.len()) as u16).to_le_bytes());
        v.push(0x03);
        v.extend_from_slice(s);
        v
    };
    let mut steps = handshake_steps();
    steps.push(Step::exchange(enc(&inner::read_version()), enc(&version_inner)));

    let mut dev = open(steps);
    assert_eq!(dev.firmware_version().unwrap(), "J2534 MINIV1.03");
}

#[test]
fn connect_success_and_teardown_order() {
    let connect_frame = enc(&inner::connect(ProtocolId::Iso15765, 0, 500_000));
    let disconnect_frame = enc(&inner::disconnect(ProtocolId::Iso15765));
    let close_frame = enc(&inner::session_close());

    let mut steps = handshake_steps();
    steps.push(Step::exchange(connect_frame, status_reply(0x07, 0x00)));
    steps.push(Step::exchange(disconnect_frame.clone(), status_reply(0x08, 0x00)));
    steps.push(Step::exchange(close_frame.clone(), Vec::new()));

    let mut dev = open(steps);
    dev.connect_proto(ProtocolId::Iso15765, 0, 500_000).expect("connect");
    let mock = dev.close();

    // Teardown must disconnect the channel (0x08) before closing the
    // encrypted session (0x02).
    let writes = mock.writes();
    let di = writes.iter().position(|w| *w == disconnect_frame).expect("disconnect");
    let ci = writes.iter().position(|w| *w == close_frame).expect("session close");
    assert!(di < ci, "disconnect must precede session close");
    assert_eq!(ci, writes.len() - 1);
}

/// After a prior Disconnect the adapter ignores Connect until it is reset;
/// the handshake must be re-run and the Connect retried once.
#[test]
fn connect_retries_after_rehandshake() {
    let connect_frame = enc(&inner::connect(ProtocolId::Iso14230, 4096, 10400));

    let mut steps = handshake_steps();
    // First attempt: rejected with ERR_FAILED.
    steps.push(Step::exchange(connect_frame.clone(), status_reply(0x07, 0x07)));
    // Re-handshake (reset + identify -> same key here)...
    steps.extend(handshake_steps());
    // ...and the retry succeeds.
    steps.push(Step::exchange(connect_frame, status_reply(0x07, 0x00)));

    let mut dev = open(steps);
    dev.connect_proto(ProtocolId::Iso14230, 4096, 10400)
        .expect("connect should succeed after rehandshake");
}

/// A message the idle poll happened to drain must reach the next poll, not
/// the floor.
#[test]
fn keepalive_preserves_drained_data() {
    let msg = [0xde, 0xad, 0xbe, 0xef];
    let read_reply: Vec<u8> = {
        let mut v = Vec::new();
        v.extend_from_slice(&((9 + msg.len()) as u16).to_le_bytes());
        v.push(0x09);
        v.extend_from_slice(&[0; 8]); // RxStatus 0 + reserved
        v.extend_from_slice(&msg);
        v
    };

    let mut steps = handshake_steps();
    steps.push(Step::reply_any(enc(&read_reply)));
    for _ in 0..16 {
        steps.push(Step::reply_any(ka_ack()));
    }

    let mut dev = Device::open_transport(MockTransport::new(steps), cfg(15)).expect("open");
    for _ in 0..4 {
        dev.idle_poll();
    }
    let before = dev.transport().writes().len();

    let got = dev
        .poll_proto(ProtocolId::Iso15765, Duration::from_millis(100))
        .expect("poll")
        .expect("the drained message must be queued");
    assert_eq!(got.data, msg);
    assert_eq!(dev.transport().writes().len(), before, "no traffic for a queued message");
}

#[test]
fn poll_empty_returns_none() {
    let mut steps = handshake_steps();
    steps.push(Step::exchange(
        enc(&inner::read_poll(ProtocolId::Iso15765)),
        enc(&[0x02, 0x00, 0x09, 0x10]), // ERR_BUFFER_EMPTY status
    ));
    let mut dev = open(steps);
    let got = dev.poll_proto(ProtocolId::Iso15765, Duration::from_millis(100)).expect("poll");
    assert_eq!(got, None);
}

#[test]
fn keepalive_fires_when_idle_with_exact_bytes() {
    let mut steps = handshake_steps();
    for _ in 0..32 {
        steps.push(Step::reply_any(ka_ack()));
    }
    let mut dev = Device::open_transport(MockTransport::new(steps), cfg(20)).expect("open");
    for _ in 0..6 {
        // The whole interval is left right after traffic, and none once it
        // has been slept through.
        assert_eq!(dev.idle_wait(), Some(Duration::from_millis(20)));
        dev.sleep(Duration::from_millis(20));
        assert_eq!(dev.idle_wait(), Some(Duration::from_millis(0)));
        dev.idle_poll();
    }

    let writes = dev.transport().writes();
    // Writes 0 and 1 are the handshake; everything after must be keepalives.
    assert!(writes.len() >= 5, "expected several keepalives, saw {} writes", writes.len());
    // No channel connected -> the keepalive polls ISO15765.
    let expected = enc(&inner::read_poll(ProtocolId::Iso15765));
    assert_eq!(expected, [0x0b, 0x00, 0x31, 0x18, 0x19, 0x2b, 0x97, 0x53, 0x24, 0xce, 0x3e]);
    for w in &writes[2..] {
        assert_eq!(w, &expected);
    }
}

#[test]
fn silent_adapter_is_declared_wedged_and_fails_fast() {
    // Handshake succeeds, then the adapter never answers again.
    let mut dev =
        Device::open_transport(MockTransport::new(handshake_steps()), cfg(15)).expect("open");
    for _ in 0..3 {
        dev.idle_poll();
    }
    let before = dev.transport().writes().len();

    match dev.firmware_version() {
        Err(Error::Wedged(n)) => assert!(n >= 3, "wedge counter should be >= 3, got {n}"),
        other => panic!("expected Error::Wedged, got {other:?}"),
    }
    assert_eq!(dev.transport().writes().len(), before, "a wedged adapter is left alone");
}

#[test]
fn drop_closes_the_session() {
    let mut steps = handshake_steps();
    // Teardown with no connected channels: session close (01 00 02 ...).
    steps.push(Step::reply_any(Vec::new()));
    let dev = open(steps);
    let mock = dev.close();
    let close_frame = enc(&inner::session_close());
    assert!(mock.writes().contains(&close_frame));
}

#[test]
fn idle_poll_is_off_by_default() {
    let mut dev = Device::open_transport(
        MockTransport::new(handshake_steps()),
        DeviceConfig::default(),
    )
    .expect("open");
    assert_eq!(dev.idle_wait(), None);
}

#[test]
fn idle_poll_asks_the_lowest_connected_protocol() {
    let mut steps = handshake_steps();
    steps.push(Step::reply_any(status_reply(0x07, 0x00)));
    steps.push(Step::reply_any(status_reply(0x07, 0x00)));
    steps.push(Step::exchange(enc(&inner::read_poll(ProtocolId::Iso9141)), ka_ack()));
    let mut dev = open(steps);
    dev.connect_proto(ProtocolId::Iso15765, 0, 500_000).unwrap();
    dev.connect_proto(ProtocolId::Iso9141, 0, 10_400).unwrap();
    dev.idle_poll();
    assert_eq!(dev.transport().writes().last().unwrap(), &enc(&inner::read_poll(ProtocolId::Iso9141)));
}

#[test]
fn two_silences_do_not_wedge_and_a_reply_clears_the_count() {
    let mut steps = handshake_steps();
    steps.push(Step::silence());
    steps.push(Step::silence());
    steps.push(Step::reply_any(ka_ack()));
    steps.push(Step::silence());
    steps.push(Step::silence());
    steps.push(Step::reply_any(ka_ack()));
    let mut dev = open(steps);
    for _ in 0..6 {
        dev.idle_poll();
    }
    assert!(matches!(dev.poll_proto(ProtocolId::Can, Duration::from_millis(1)), Err(Error::Timeout(_))));
}

#[test]
fn a_rejected_handshake_reports_what_was_wrong() {
    let steps = vec![
        Step::exchange(reset_frame(), Vec::new()),
        Step::exchange(identify_frame(), vec![0x03, 0x00, 0x03]),
    ];
    match Device::open_transport(MockTransport::new(steps), cfg(1)) {
        Err(Error::Codec(e)) => assert_eq!(e.message(), "malformed reply: challenge payload too short"),
        _ => panic!("a challenge without a key must not open a session"),
    }
    match Device::open_transport(MockTransport::new(Vec::new()), cfg(1)) {
        Err(Error::Timeout(t)) => assert_eq!(t, Duration::from_millis(2000)),
        _ => panic!("silence must not open a session"),
    }
}

#[test]
fn an_unexpected_write_fails_the_request() {
    let mut steps = handshake_steps();
    steps.push(Step::exchange(vec![1, 2, 3], Vec::new()));
    let mut dev = open(steps);
    match dev.firmware_version() {
        Err(Error::Transport(e)) => assert_eq!(e.message(), "unexpected write"),
        other => panic!("expected a transport error, got {other:?}"),
    }
}

/// Each filter has its own id, the previous one is retired first, and a
/// channel without one says so.
#[test]
fn a_filter_replaces_the_previous_one() {
    let p = ProtocolId::Can;
    let filter = |id: u32, pattern: &[u8]| {
        enc(&inner::start_filter(p, id, 1, &[0xff; 4], pattern, None, 4).unwrap())
    };
    let mut steps = handshake_steps();
    steps.push(Step::reply_any(status_reply(0x07, 0x00)));
    steps.push(Step::exchange(filter(0x000e_7a00, &[0, 0, 7, 0xcc]), status_reply(0x0b, 0x00)));
    steps.push(Step::exchange(enc(&inner::stop_filter(p, 0x000e_7a00)), status_reply(0x0c, 0x00)));
    steps.push(Step::exchange(filter(0x000e_7a01, &[0, 0, 7, 0xe8]), status_reply(0x0b, 0x00)));
    steps.push(Step::exchange(enc(&inner::stop_filter(p, 0x000e_7a01)), status_reply(0x0c, 0x00)));

    let mut dev = open(steps);
    let mut chan = dev.connect::<Can>(CanConfig::default()).expect("connect");
    chan.set_filter(&mut dev, CanFilter::exact(CanId::Std(0x7cc))).expect("first");
    assert_eq!(chan.raw().filters_installed(), 1);
    chan.set_filter(&mut dev, CanFilter::exact(CanId::Std(0x7e8))).expect("second");
    assert_eq!(chan.raw().filters_installed(), 1);
    chan.clear_filter(&mut dev).expect("clear");
    assert_eq!(chan.raw().filters_installed(), 0);
}

/// Every frame that asks for a key comes right after a reset frame.
#[test]
fn identify_follows_a_reset() {
    let mut steps = handshake_steps();
    steps.push(Step::reply_any(status_reply(0x07, 0x07)));
    steps.extend(handshake_steps());
    steps.push(Step::reply_any(status_reply(0x07, 0x00)));
    let mut dev = open(steps);
    dev.connect_proto(ProtocolId::Can, 0, 500_000).expect("connect");
    let writes = dev.close().writes();
    let identifies: Vec<usize> =
        (0..writes.len()).filter(|&i| writes[i] == identify_frame()).collect();
    assert_eq!(identifies.len(), 2);
    for i in identifies {
        assert_eq!(writes[i - 1], reset_frame());
    }
}

/// A disconnected channel is not polled when idle, nor disconnected again at
/// the end.
#[test]
fn a_disconnected_channel_is_forgotten() {
    let mut steps = handshake_steps();
    steps.push(Step::reply_any(status_reply(0x07, 0x00)));
    steps.push(Step::exchange(enc(&inner::disconnect(ProtocolId::Can)), status_reply(0x08, 0x07)));
    steps.push(Step::exchange(enc(&inner::read_poll(ProtocolId::Iso15765)), ka_ack()));
    steps.push(Step::exchange(enc(&inner::session_close()), Vec::new()));
    let mut dev = open(steps);
    dev.connect_proto(ProtocolId::Can, 0, 500_000).expect("connect");
    assert!(matches!(dev.disconnect_proto(ProtocolId::Can), Err(Error::Rejected { .. })));
    dev.idle_poll();
    let writes = dev.close().writes();
    let disconnect = enc(&inner::disconnect(ProtocolId::Can));
    assert_eq!(writes.iter().filter(|w| **w == disconnect).count(), 1);
    assert_eq!(writes.last().unwrap(), &enc(&inner::session_close()));
}

/// Only starts and stops that the adapter accepts are counted, and the opening
/// key and the idle-poll setting outlast every call.
#[test]
fn filters_are_counted_by_what_succeeded() {
    let mut steps = handshake_steps();
    steps.push(Step::reply_any(status_reply(0x07, 0x00)));
    for (cmd, status) in
        [(0x0b, 0x00), (0x0b, 0x07), (0x0b, 0x00), (0x0c, 0x16), (0x0c, 0x00), (0x0e, 0x00)]
    {
        steps.push(Step::reply_any(status_reply(cmd, status)));
    }
    let mut dev =
        Device::open_transport(MockTransport::new(steps), DeviceConfig::default()).expect("open");
    let mut chan = dev.connect_raw(ProtocolId::Can, 0, 500_000).expect("connect");
    let mut counts = Vec::new();
    for id in 1..=3 {
        let _ = chan.start_filter(&mut dev, id, 1, &[0xff; 4], &[0; 4], None, 4);
        counts.push(chan.filters_installed());
    }
    // Refused before any traffic.
    assert!(chan.start_filter(&mut dev, 4, 1, &[0xff; 4], &[0; 4], None, 1).is_err());
    counts.push(chan.filters_installed());
    for id in [9, 1] {
        let _ = chan.stop_filter(&mut dev, id);
        counts.push(chan.filters_installed());
    }
    chan.set_config(&mut dev, 1, 500_000).expect("config");
    counts.push(chan.filters_installed());
    assert_eq!(counts, [1, 1, 2, 2, 2, 1, 1]);
    assert_eq!(dev.des_key(), KEY_OLD);
    assert_eq!(dev.idle_wait(), None);
}

/// Silences add up over different requests and timeouts, with other calls in
/// between that cause no exchange.
#[test]
fn silences_add_up_over_different_requests() {
    let mut dev = open(handshake_steps());
    assert!(matches!(dev.firmware_version(), Err(Error::Timeout(_))));
    dev.sleep(Duration::from_secs(60));
    assert!(matches!(
        dev.poll_proto(ProtocolId::Can, Duration::from_millis(7)),
        Err(Error::Timeout(_))
    ));
    dev.now();
    assert!(matches!(dev.set_programming_voltage(1, 0), Err(Error::Timeout(_))));
    assert!(matches!(dev.firmware_version(), Err(Error::Wedged(3))));
}

/// An exchange that nobody was asked to answer neither counts as silence nor
/// ends a run of silences.
#[test]
fn an_unsent_command_leaves_the_count() {
    let mut dev = open(handshake_steps());
    for _ in 0..2 {
        assert!(matches!(dev.firmware_version(), Err(Error::Timeout(_))));
    }
    let before = dev.transport().writes().len();
    assert!(matches!(
        dev.transact(&[0; 70_000], Duration::from_millis(5)),
        Err(Error::Codec(CodecError::TooLong(_)))
    ));
    assert_eq!(dev.transport().writes().len(), before, "nothing was sent");
    assert!(matches!(dev.firmware_version(), Err(Error::Timeout(_))));
    assert!(matches!(dev.firmware_version(), Err(Error::Wedged(3))));
}

/// A port that fails says nothing about the adapter.
#[test]
fn a_failing_port_leaves_the_count() {
    let mut steps = handshake_steps();
    steps.push(Step::silence());
    steps.push(Step::silence());
    // This fits nothing, so every write from here on fails.
    steps.push(Step::exchange(vec![1, 2, 3], Vec::new()));
    let mut dev = open(steps);
    for _ in 0..2 {
        assert!(matches!(dev.firmware_version(), Err(Error::Timeout(_))));
    }
    for _ in 0..5 {
        assert!(matches!(dev.firmware_version(), Err(Error::Transport(_))));
    }
}

/// A corrupt frame and a rejection are answers.
#[test]
fn a_corrupt_frame_clears_the_count() {
    let mut steps = handshake_steps();
    for garbled in [vec![0x0b, 0x00, 1, 2, 3, 4, 5, 6, 7, 8, 0xee], vec![0x02, 0x00]] {
        steps.push(Step::silence());
        steps.push(Step::silence());
        steps.push(Step::reply_any(garbled));
    }
    steps.push(Step::silence());
    steps.push(Step::silence());
    steps.push(Step::reply_any(enc(&[0x02, 0x00, 0x0d, 0x07])));
    let mut dev = open(steps);
    for _ in 0..2 {
        for _ in 0..2 {
            assert!(matches!(dev.firmware_version(), Err(Error::Timeout(_))));
        }
        assert!(matches!(dev.firmware_version(), Err(Error::Codec(_))));
    }
    for _ in 0..2 {
        assert!(matches!(dev.firmware_version(), Err(Error::Timeout(_))));
    }
    assert!(matches!(dev.set_programming_voltage(1, 0), Err(Error::Rejected { .. })));
    assert!(matches!(dev.firmware_version(), Err(Error::Timeout(_))));
}
