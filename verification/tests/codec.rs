//! The codec on generated inputs: lengths that cross the 255-byte boundary,
//! arbitrary keys, both checksum conventions, and the deframer under any
//! chunking.

use rmvci::codec::{frame, inner, Deframer};
use rmvci::error::CodecError;
use rmvci::types::{Cmd, DeviceStatus, ProtocolId, RxStatus};

const KEY_OLD: [u8; 8] = [0xb0, 0xcb, 0x49, 0x68, 0x07, 0x45, 0xc8, 0x7f];
const TX_ID: [u8; 4] = [0x00, 0x00, 0x07, 0xc4];
const RX_ID: [u8; 4] = [0x00, 0x00, 0x07, 0xcc];

/// A small generator of bytes, the same on every run.
struct Gen(u64);

impl Gen {
    fn next(&mut self) -> u64 {
        self.0 = self.0.wrapping_mul(6364136223846793005).wrapping_add(1442695040888963407);
        self.0 >> 33
    }

    fn bytes(&mut self, n: usize) -> Vec<u8> {
        (0..n).map(|_| self.next() as u8).collect()
    }

    fn key(&mut self) -> [u8; 8] {
        let b = self.bytes(8);
        [b[0], b[1], b[2], b[3], b[4], b[5], b[6], b[7]]
    }
}

#[test]
fn plain_round_trip() {
    let mut g = Gen(1);
    for n in [0, 1, 2, 7, 8, 252, 253, 254, 255, 256, 1000, 4095] {
        let payload = g.bytes(n);
        let wire = frame::encode_plain(&payload).unwrap();
        assert_eq!(frame::decode_plain(&wire).unwrap(), &payload[..]);
    }
}

#[test]
fn encrypted_round_trip() {
    let mut g = Gen(2);
    for n in [1, 7, 8, 9, 63, 64, 255, 256, 4095] {
        let key = g.key();
        let inner_bytes = g.bytes(n);
        let wire = frame::encode_encrypted(&key, &inner_bytes).unwrap();
        let back = frame::decode_encrypted(&key, &wire).unwrap();
        let padded = inner_bytes.len().div_ceil(8) * 8;
        assert_eq!(back.len(), padded);
        assert_eq!(&back[..inner_bytes.len()], &inner_bytes[..]);
        assert!(back[inner_bytes.len()..].iter().all(|&b| b == 0));
        assert_ne!(&wire[2..2 + padded], &back[..], "the wire carries ciphertext");
    }
}

#[test]
fn dual_checksum_conventions() {
    let mut g = Gen(3);
    for n in [1, 8, 20, 255] {
        let key = g.key();
        let inner_bytes = g.bytes(n);
        let mut wire = frame::encode_encrypted(&key, &inner_bytes).unwrap();
        assert!(frame::decode_encrypted(&key, &wire).is_ok());

        let mut padded = inner_bytes.clone();
        padded.resize(inner_bytes.len().div_ceil(8) * 8, 0);
        let plain_sum = wire[0] ^ wire[1] ^ frame::xorsum(&padded);
        let cipher_sum = frame::xorsum(&wire[..wire.len() - 1]);
        let last = wire.len() - 1;
        wire[last] = plain_sum;
        assert!(frame::decode_encrypted(&key, &wire).is_ok());

        let bogus = (0..=255u8).find(|&c| c != plain_sum && c != cipher_sum).unwrap();
        wire[last] = bogus;
        assert_eq!(
            frame::decode_encrypted(&key, &wire),
            Err(CodecError::BadEncryptedChecksum {
                wire: bogus,
                cipher: cipher_sum,
                plain: plain_sum
            })
        );
    }
}

#[test]
fn deframer_survives_chunking() {
    let mut g = Gen(4);
    for chunk in 1usize..17 {
        let frames: Vec<Vec<u8>> = [0usize, 1, 253, 300, 599]
            .iter()
            .map(|&n| frame::encode_plain(&g.bytes(n)).unwrap())
            .collect();
        let stream: Vec<u8> = frames.concat();
        let mut d = Deframer::new();
        let mut got = Vec::new();
        for piece in stream.chunks(chunk) {
            d.push(piece);
            while let Some(f) = d.next_frame().unwrap() {
                got.push(f);
            }
        }
        assert_eq!(got, frames);
        assert_eq!(d.pending(), 0);
    }
}

#[test]
fn read_reply_round_trip() {
    let mut g = Gen(5);
    for n in [1usize, 9, 246, 247, 1023] {
        let rx = g.next() as u32;
        let msg = g.bytes(n);
        let mut reply = Vec::with_capacity(11 + msg.len());
        reply.extend_from_slice(&((9 + msg.len()) as u16).to_le_bytes());
        reply.push(0x09);
        reply.extend_from_slice(&rx.to_le_bytes());
        reply.extend_from_slice(&[0; 4]);
        reply.extend_from_slice(&msg);
        let parsed = inner::parse_read_reply(&reply).unwrap();
        assert_eq!(parsed.rx_status.bits(), rx);
        assert_eq!(parsed.msg, &msg[..]);
    }
}

#[test]
fn status_reply_round_trip() {
    for status in 0..=255u8 {
        let mut reply = vec![0x02, 0x00, Cmd::Connect.code(), status];
        reply.extend_from_slice(&[0xde, 0xad, status, 0x01]);
        let got = inner::status_of(&reply, Cmd::Connect).unwrap();
        assert_eq!(got, DeviceStatus::from(status));
        assert_eq!(got.code(), status);
        assert!(inner::status_of(&reply, Cmd::WriteMsg).is_err());
    }
}

#[test]
fn write_msg_layout() {
    let mut g = Gen(6);
    for n in [1usize, 246, 247, 4099, 4100] {
        let txflags = g.next() as u32;
        let msg = g.bytes(n);
        let built = inner::write_msg(ProtocolId::Can, txflags, &msg).unwrap();
        assert_eq!(built.len(), 11 + msg.len());
        assert_eq!(u16::from_le_bytes([built[0], built[1]]) as usize, 9 + msg.len());
        assert_eq!(built[2], 0x0a);
        assert_eq!(u32::from_le_bytes([built[7], built[8], built[9], built[10]]), txflags);
        assert_eq!(&built[11..], &msg[..]);
    }
    let too_long = vec![0u8; 4101];
    assert_eq!(
        inner::write_msg(ProtocolId::Can, 0, &too_long),
        Err(CodecError::MsgTooLong(4101))
    );
}

/// A 260-byte ISO15765 WriteMsgs (4-byte id + 256-byte payload) encodes with a
/// correct 16-bit ILEN and survives an encrypt/decrypt round trip.
#[test]
fn large_write_has_no_length_cliff() {
    let mut msg = TX_ID.to_vec();
    msg.extend(std::iter::repeat_n(0xab_u8, 256)); // payload crosses the 255 boundary
    let inner = inner::write_msg(ProtocolId::Iso15765, 0, &msg).unwrap();

    // ILEN = 1 (CMD) + 8 (proto + txflags) + 260 (msg) = 269 = 0x010d, LE.
    assert_eq!(&inner[0..2], &[0x0d, 0x01], "ILEN must be a real u16, not truncated");
    assert_eq!(inner.len(), 3 + 8 + 260);

    // Full wire round trip: the framer carries the length too.
    let wire = frame::encode_encrypted(&KEY_OLD, &inner).unwrap();
    let back = frame::decode_encrypted(&KEY_OLD, &wire).unwrap();
    assert_eq!(&back[..inner.len()], &inner[..]);
}

/// A 300-byte ReadMsgs reply parses back to exactly 300 message bytes.
#[test]
fn large_read_reply_is_not_truncated() {
    let payload: Vec<u8> = (0..300).map(|i| i as u8).collect();
    let mut data = RX_ID.to_vec();
    data.extend_from_slice(&payload); // 4-byte id + 300-byte payload = 304 bytes

    let mut inner = Vec::new();
    inner.extend_from_slice(&((9 + data.len()) as u16).to_le_bytes()); // ILEN = 313 = 0x0139
    inner.push(0x09); // READ_MSG echo
    inner.extend_from_slice(&0u32.to_le_bytes()); // RxStatus
    inner.extend_from_slice(&0u32.to_le_bytes()); // reserved
    inner.extend_from_slice(&data);
    assert_eq!(&inner[0..2], &[0x39, 0x01]);

    let reply = inner::parse_read_reply(&inner).unwrap();
    assert_eq!(reply.rx_status, RxStatus::empty());
    assert_eq!(reply.msg.len(), RX_ID.len() + 300);
    assert_eq!(&reply.msg[4..], &payload[..]);
}

#[test]
fn every_codec_error_has_an_input() {
    assert_eq!(frame::decode_plain(&[1, 2]), Err(CodecError::TooShort(2)));
    assert_eq!(
        frame::decode_plain(&[9, 0, 0]),
        Err(CodecError::LengthMismatch { field: 9, actual: 3 })
    );
    assert_eq!(
        frame::decode_plain(&[3, 0, 7]),
        Err(CodecError::BadChecksum { wire: 7, computed: 3 })
    );
    assert_eq!(frame::encode_plain(&vec![0; 65533]), Err(CodecError::TooLong(65536)));
    assert_eq!(
        frame::encode_encrypted(&KEY_OLD, &vec![0; 65529]),
        Err(CodecError::TooLong(65539))
    );
    assert_eq!(frame::decode_encrypted(&KEY_OLD, &[3, 0, 3]), Err(CodecError::BadCipherLength(0)));
    assert_eq!(
        frame::decode_encrypted(&KEY_OLD, &[4, 0, 0, 0]),
        Err(CodecError::BadCipherLength(1))
    );
    assert_eq!(
        inner::start_filter(ProtocolId::Can, 1, 1, &[0; 3], &[0; 4], None, 4),
        Err(CodecError::FilterFieldTooShort { have: 3, need: 4 })
    );
    assert_eq!(
        inner::start_filter(ProtocolId::Can, 1, 1, &[0; 4], &[0; 4], None, 1),
        Err(CodecError::BadIdLen { proto: ProtocolId::Can, idlen: 1 })
    );
    assert_eq!(
        inner::parse_challenge(&[9, 0, 1]),
        Err(CodecError::MalformedReply("challenge payload too short"))
    );
    assert_eq!(
        inner::parse_challenge(&[8; 11]),
        Err(CodecError::MalformedReply("challenge is not a key reply"))
    );
    assert_eq!(
        inner::parse_read_reply(&[12, 0, 9, 0, 0, 0, 0, 0]),
        Err(CodecError::MalformedReply("read reply message overruns the inner"))
    );
    assert_eq!(
        inner::start_periodic(ProtocolId::Can, 1, 0, 1, &[0; 13]),
        Err(CodecError::MsgTooLong(13))
    );
}

#[test]
fn deframer_keeps_a_corrupt_length_until_cleared() {
    let mut d = Deframer::new();
    d.push(&[0x02, 0x00, 0xaa]);
    assert_eq!(d.next_frame(), Err(CodecError::TooShort(2)));
    assert_eq!(d.pending(), 3);
    d.clear();
    d.push(&[0x14, 0x10]);
    assert_eq!(d.next_frame(), Err(CodecError::TooLong(0x1014)));
    d.clear();
    d.push(&[0x03, 0x00]);
    assert_eq!(d.next_frame(), Ok(None));
    d.push(&[0x03]);
    assert_eq!(d.next_frame(), Ok(Some(vec![3, 0, 3])));
}
