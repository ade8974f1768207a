//! The sans-IO ISO-TP machines: a transmitter piped into a receiver reproduces
//! the payload for every payload size / BS / STmin / addressing combination,
//! honoring BS exactly; malformed input errors.

use rmvci::error::IsoTpError;
use rmvci::isotp::machine::{decode_stmin, RxEvent, RxMachine, TxAction, TxMachine};
use rmvci::isotp::pending::{
    drain_pending, is_response_pending, Receive, MAX_RESPONSE_PENDING,
};
use rmvci::time::{Duration, Instant};
use rmvci::Error;

fn n_bs() -> Duration {
    Duration::from_secs(1)
}

fn n_cr() -> Duration {
    Duration::from_secs(1)
}

fn start() -> Instant {
    Instant { nanos: 1_000_000_000 }
}

/// Drive tx against rx in lockstep with a synthetic clock. Returns the
/// reassembled payload and the CF counts between flow controls.
fn pipe(
    payload: &[u8],
    rx_bs: u8,
    rx_stmin: u8,
    padding: Option<u8>,
    addr: Option<u8>,
) -> Result<(Vec<u8>, Vec<usize>), IsoTpError> {
    let mut now = start();
    let mut tx = TxMachine::with_addr(payload, padding, n_bs(), 8, addr)?;
    let mut rx = RxMachine::with_addr(rx_bs, rx_stmin, padding, n_cr(), addr);
    let h = addr.is_some() as usize;

    let mut result = None;
    let mut cf_counts = Vec::new();
    let mut cfs_in_block = 0usize;
    let mut sent_frames = 0usize;

    loop {
        assert!(sent_frames < 2 * 4096, "machines are looping");
        match tx.next(now)? {
            TxAction::Send(frame) => {
                sent_frames += 1;
                if frame[h] >> 4 == 0x2 {
                    cfs_in_block += 1;
                }
                match rx.on_frame(&frame, now)? {
                    RxEvent::SendFc(fc) => {
                        if cfs_in_block > 0 || frame[h] >> 4 == 0x2 {
                            cf_counts.push(cfs_in_block);
                            cfs_in_block = 0;
                        }
                        tx.on_frame(&fc, now)?;
                    }
                    RxEvent::Done(p) => {
                        result = Some(p);
                    }
                    RxEvent::Continue => {}
                }
            }
            TxAction::WaitUntil(t) => now = t,
            TxAction::WaitFc { .. } => {
                // In lockstep the FC always arrives with the triggering
                // frame; reaching here means the rx machine failed to grant
                // a block. Let the deadline fire so the error surfaces.
                now = now.plus(n_bs());
            }
            TxAction::Done => break,
        }
    }
    Ok((result.expect("transfer finished without Done"), cf_counts))
}

fn sample(n: usize) -> Vec<u8> {
    (0..n).map(|i| (i * 7 + 3) as u8).collect()
}

#[test]
fn round_trip() {
    for n in [1, 5, 6, 7, 8, 12, 13, 14, 20, 111, 112, 255, 256, 1200, 4095] {
        let payload = sample(n);
        for rx_bs in [0u8, 1, 2, 7, 16, 255] {
            for rx_stmin in [0u8, 5, 0x7f, 0x80, 0xf1, 0xff] {
                for pad in [None, Some(0x00u8), Some(0xcc)] {
                    for addr in [None, Some(0xf1u8)] {
                        let (got, _) = pipe(&payload, rx_bs, rx_stmin, pad, addr).unwrap();
                        assert_eq!(got, payload);
                    }
                }
            }
        }
    }
}

#[test]
fn block_size_honored() {
    for n in [8, 50, 77, 300, 600] {
        let payload = sample(n);
        for rx_bs in 1u8..=8 {
            let (_, cf_counts) = pipe(&payload, rx_bs, 0, Some(0), None).unwrap();
            // A flow control comes only after a whole block.
            for c in &cf_counts {
                assert_eq!(*c, rx_bs as usize);
            }
        }
    }
}

/// 4095 is the ceiling; larger payloads are refused up front.
#[test]
fn payload_ceiling() {
    for extra in [1usize, 2, 99] {
        let too_big = vec![0u8; 4095 + extra];
        assert!(matches!(
            TxMachine::new(&too_big, Some(0), n_bs(), 8),
            Err(IsoTpError::PayloadTooLong(n)) if n == 4095 + extra
        ));
    }
    assert!(matches!(
        TxMachine::new(&[], Some(0), n_bs(), 8),
        Err(IsoTpError::Malformed("empty payload"))
    ));
    assert!(TxMachine::new(&vec![0u8; 4095], Some(0), n_bs(), 8).is_ok());
}

/// Arbitrary garbage frames never panic the receiver.
#[test]
fn rx_never_panics() {
    let mut seed = 12345u64;
    let mut rx = RxMachine::new(0, 0, Some(0), n_cr());
    for _ in 0..20_000 {
        seed = seed.wrapping_mul(6364136223846793005).wrapping_add(1442695040888963407);
        let len = (seed >> 60) as usize;
        let f: Vec<u8> = (0..len).map(|i| (seed >> (i * 4)) as u8).collect();
        let _ = rx.on_frame(&f, start()); // Ok or Err, never panic
    }
}

#[test]
fn sequence_error_is_detected() {
    let now = start();
    let mut rx = RxMachine::new(0, 0, Some(0), n_cr());
    // FF announcing 20 bytes, then a CF with the wrong SN.
    let ff = [0x10, 20, 1, 2, 3, 4, 5, 6];
    assert!(matches!(rx.on_frame(&ff, now), Ok(RxEvent::SendFc(_))));
    let bad_cf = [0x23, 7, 8, 9, 10, 11, 12, 13]; // SN 3, expected 1
    assert!(matches!(
        rx.on_frame(&bad_cf, now),
        Err(IsoTpError::SequenceError { expected: 1, got: 3 })
    ));
}

#[test]
fn wait_and_overflow_flow_statuses() {
    let now = start();
    let payload = vec![0u8; 64];

    // FS=WAIT is tolerated up to wft_max, then errors.
    let mut tx = TxMachine::new(&payload, Some(0), n_bs(), 2).unwrap();
    assert!(matches!(tx.next(now), Ok(TxAction::Send(_)))); // FF
    let wait = [0x31, 0, 0, 0, 0, 0, 0, 0];
    assert!(tx.on_frame(&wait, now).is_ok());
    assert!(tx.on_frame(&wait, now).is_ok());
    assert!(matches!(tx.on_frame(&wait, now), Err(IsoTpError::WaitLimit(2))));

    // FS=OVFLW aborts immediately.
    let mut tx = TxMachine::new(&payload, Some(0), n_bs(), 8).unwrap();
    assert!(matches!(tx.next(now), Ok(TxAction::Send(_))));
    let ovflw = [0x32, 0, 0, 0, 0, 0, 0, 0];
    assert!(matches!(tx.on_frame(&ovflw, now), Err(IsoTpError::Overflow)));
}

#[test]
fn stmin_decode_per_spec() {
    assert_eq!(decode_stmin(0x00), Duration::from_millis(0));
    assert_eq!(decode_stmin(0x7f), Duration::from_millis(127));
    assert_eq!(decode_stmin(0xf1), Duration::from_millis(1)); // 100 us, rounded up
    assert_eq!(decode_stmin(0xf9), Duration::from_millis(1)); // 900 us
    assert_eq!(decode_stmin(0x80), Duration::from_millis(127)); // reserved
    assert_eq!(decode_stmin(0xfa), Duration::from_millis(127)); // reserved
}

#[test]
fn wait_limit_of_255_still_ends() {
    let now = start();
    let mut tx = TxMachine::new(&[0u8; 64], Some(0), n_bs(), 255).unwrap();
    tx.next(now).unwrap();
    for _ in 0..255 {
        assert!(tx.on_frame(&[0x31, 0, 0], now).is_ok());
    }
    assert!(matches!(tx.on_frame(&[0x31, 0, 0], now), Err(IsoTpError::WaitLimit(255))));
}

#[test]
fn timeouts_fire_on_both_sides() {
    let now = start();
    let late = now.plus(Duration::from_millis(1001));
    let mut tx = TxMachine::new(&[0u8; 64], Some(0), n_bs(), 8).unwrap();
    tx.next(now).unwrap();
    assert!(matches!(tx.next(now), Ok(TxAction::WaitFc { .. })));
    assert_eq!(tx.next(late), Err(IsoTpError::FcTimeout));

    let mut rx = RxMachine::new(0, 0, None, n_cr());
    assert_eq!(rx.check_timeout(late), Ok(()));
    rx.on_frame(&[0x10, 20, 1, 2, 3, 4, 5, 6], now).unwrap();
    assert_eq!(rx.check_timeout(now), Ok(()));
    assert_eq!(rx.check_timeout(late), Err(IsoTpError::CfTimeout));
}

#[test]
fn receiver_refuses_malformed_frames() {
    let now = start();
    let mut rx = RxMachine::new(0, 0, None, n_cr());
    let malformed = |r: Result<RxEvent, IsoTpError>| match r {
        Err(IsoTpError::Malformed(why)) => why,
        other => panic!("expected Malformed, got {other:?}"),
    };
    assert_eq!(malformed(rx.on_frame(&[], now)), "empty frame");
    assert_eq!(malformed(rx.on_frame(&[0x00, 1], now)), "bad single-frame length");
    assert_eq!(malformed(rx.on_frame(&[0x03, 1], now)), "bad single-frame length");
    assert_eq!(malformed(rx.on_frame(&[0x10, 20], now)), "short first frame");
    assert_eq!(
        malformed(rx.on_frame(&[0x10, 7, 1, 2, 3, 4, 5, 6], now)),
        "FF_DL fits in a single frame"
    );
    assert_eq!(malformed(rx.on_frame(&[0x21, 1], now)), "consecutive frame without first frame");
    assert_eq!(malformed(rx.on_frame(&[0x40], now)), "unknown PCI type");
    let mut ext = RxMachine::with_addr(0, 0, None, n_cr(), Some(0xf1));
    assert_eq!(malformed(ext.on_frame(&[0xf2, 1, 1], now)), "extended-address mismatch");
    assert_eq!(malformed(ext.on_frame(&[0xf1], now)), "frame too short for extended address");
    assert_eq!(ext.on_frame(&[0xf1, 0x01, 0x55], now), Ok(RxEvent::Done(vec![0x55])));
}

#[test]
fn is_response_pending_matches_only_7f_xx_78() {
    assert!(is_response_pending(&[0x7f, 0x21, 0x78]));
    assert!(is_response_pending(&[0x7f, 0x30, 0x78, 0x00]));
    assert!(!is_response_pending(&[0x61, 0x0d, 0x09]));
    assert!(!is_response_pending(&[0x7f, 0x21, 0x31])); // a real NRC
    assert!(!is_response_pending(&[0x7f, 0x78])); // too short
}

/// A source of responses made of a closure.
struct Source<F: FnMut() -> Result<Vec<u8>, Error>>(F);

impl<F: FnMut() -> Result<Vec<u8>, Error>> Receive<()> for Source<F> {
    type State = ();

    fn recv(&mut self, _via: &mut (), _timeout: Duration) -> Result<Vec<u8>, Error> {
        (self.0)()
    }
}

#[test]
fn drain_swallows_pending_then_returns_real() {
    let mut frames = std::collections::VecDeque::from(vec![
        vec![0x7f, 0x21, 0x78],
        vec![0x7f, 0x21, 0x78],
        vec![0x61, 0x0d, 0x09],
    ]);
    let got = drain_pending(&mut Source(|| Ok(frames.pop_front().unwrap())), &mut (), n_cr()).unwrap();
    assert_eq!(got, vec![0x61, 0x0d, 0x09]);
    assert!(frames.is_empty());
}

#[test]
fn drain_gives_up_after_the_cap_and_returns_the_pending() {
    let mut calls = 0u32;
    let got = drain_pending(
        &mut Source(|| {
            calls += 1;
            Ok(vec![0x7f, 0x21, 0x78])
        }),
        &mut (),
        n_cr(),
    )
    .unwrap();
    assert!(is_response_pending(&got));
    assert_eq!(calls, MAX_RESPONSE_PENDING + 1); // capped, not infinite
}

#[test]
fn drain_propagates_recv_error() {
    let err = drain_pending(&mut Source(|| Err(Error::BufferEmpty)), &mut (), n_cr());
    assert!(err.is_err());
}

#[test]
fn stmin_paces_consecutive_frames() {
    let mut now = start();
    let mut tx = TxMachine::new(&sample(64), Some(0), n_bs(), 8).unwrap();
    assert!(matches!(tx.next(now), Ok(TxAction::Send(_)))); // FF
    tx.on_frame(&[0x30, 0, 50], now).unwrap(); // no block limit, 50 ms
    assert!(matches!(tx.next(now), Ok(TxAction::Send(_))), "the first may go at once");
    for _ in 0..7 {
        let due = now.plus(Duration::from_millis(50));
        assert_eq!(tx.next(now.plus(Duration::from_millis(49))), Ok(TxAction::WaitUntil(due)));
        assert!(matches!(tx.next(due), Ok(TxAction::Send(_))));
        now = due;
    }
    // 58 bytes after the first frame are nine consecutive frames.
    now = now.plus(Duration::from_millis(50));
    assert!(matches!(tx.next(now), Ok(TxAction::Send(_))));
    assert_eq!(tx.next(now), Ok(TxAction::Done));
}

/// However often the sender is polled, a block of three is three frames.
#[test]
fn a_block_is_not_overrun_by_eager_polling() {
    let mut now = start();
    let mut tx = TxMachine::new(&sample(64), Some(0), n_bs(), 8).unwrap();
    tx.next(now).unwrap(); // FF
    tx.on_frame(&[0x30, 3, 10], now).unwrap();
    let mut sent = Vec::new();
    for _ in 0..100 {
        if let TxAction::Send(f) = tx.next(now).unwrap() {
            sent.push(f[0]);
        }
        now = now.plus(Duration::from_millis(3));
    }
    assert_eq!(sent, [0x21, 0x22, 0x23]);
    assert!(matches!(tx.next(now), Ok(TxAction::WaitFc { .. })));
}

/// The receiver is done with the sender's last frame.
#[test]
fn both_sides_end_together() {
    let now = start();
    let payload = sample(20);
    let mut tx = TxMachine::new(&payload, None, n_bs(), 8).unwrap();
    let mut rx = RxMachine::new(0, 0, None, n_cr());
    let mut got = None;
    while got.is_none() {
        match tx.next(now).unwrap() {
            TxAction::Send(f) => match rx.on_frame(&f, now).unwrap() {
                RxEvent::SendFc(fc) => tx.on_frame(&fc, now).unwrap(),
                RxEvent::Done(p) => got = Some(p),
                RxEvent::Continue => {}
            },
            other => panic!("unexpected {other:?}"),
        }
    }
    assert_eq!(got, Some(payload));
    assert_eq!(tx.next(now), Ok(TxAction::Done));
    assert_eq!(rx.check_timeout(now.plus(Duration::from_secs(9))), Ok(()));
}
