//! What the backends need to know of the cable's FT232R.
//!
//! The vendor request numbers and wValue encodings follow
//! `drivers/usb/serial/ftdi_sio.h` in the Linux kernel.

use vstd::prelude::*;

use super::LatencyResult;
use crate::bytes::{copy_range, push_all};
use crate::text::{decimal, hex_pair, push_decimal, push_hex_pair, push_text};
use crate::time::{millis, Duration, Instant};

verus! {

/// FTDI's default VID/PID. The Mini-VCI is a stock FT232R and enumerates
/// with these; only the serial string distinguishes it from any other FTDI
/// cable on the bus.
pub const FTDI_VID: u16 = 0x0403;

pub const FT232R_PID: u16 = 0x6001;

// Vendor requests (bmRequestType 0x40 = host-to-device, vendor, device).
pub const SIO_RESET: u8 = 0;

pub const SIO_MODEM_CTRL: u8 = 1;

pub const SIO_SET_BAUDRATE: u8 = 3;

pub const SIO_SET_DATA: u8 = 4;

pub const SIO_SET_LATENCY_TIMER: u8 = 9;

pub const SIO_RESET_SIO: u16 = 0;

pub const SIO_RESET_PURGE_RX: u16 = 1;

/// 8 data bits (B0..7), no parity (B8..10), 1 stop bit (B11..13).
pub const DATA_8N1: u16 = 8;

/// 3 MHz reference / 115200 = 26.04; the FT232R takes a 14-bit integer
/// divisor with a 3-bit fractional index above it. Integer 26, fraction 0
/// gives 115384 baud: 0.16 % fast, comfortably inside tolerance, and it is
/// the divisor every FTDI driver uses for this rate.
pub const BAUD_115200_DIVISOR: u16 = 0x001a;

/// FT232R has exactly one interface with one bulk pair.
pub const EP_IN: u8 = 0x81;

pub const EP_OUT: u8 = 0x02;

/// What the latency timer is lowered to.
pub const TARGET_LATENCY_MS: u8 = 2;

/// The wValues that set the modem lines, DTR first. High byte is the write
/// mask, low byte the value.
pub fn modem_values(dtr: bool, rts: bool) -> (r: (u16, u16))
    ensures
        r.0 == if dtr {
            0x0101u16
        } else {
            0x0100u16
        },
        r.1 == if rts {
            0x0202u16
        } else {
            0x0200u16
        },
{
    (
        if dtr {
            0x0101
        } else {
            0x0100
        },
        if rts {
            0x0202
        } else {
            0x0200
        },
    )
}

/// Whether a USB device is a cable to open: an FT232R, and the one asked for if
/// one was.
pub fn is_cable(vid: u16, pid: u16, serial: &Option<String>, want: &Option<String>) -> (r: bool)
    ensures
        r == {
            &&& vid == FTDI_VID
            &&& pid == FT232R_PID
            &&& match want {
                None => true,
                Some(w) => serial matches Some(s) && s@ == w@,
            }
        },
{
    if vid != FTDI_VID || pid != FT232R_PID {
        return false;
    }
    match want {
        None => true,
        Some(w) => match serial {
            Some(s) => *s == *w,
            None => false,
        },
    }
}

/// Four hexadecimal digits.
pub open spec fn hex_word(v: u16) -> Seq<char> {
    hex_pair((v / 256) as u8) + hex_pair((v % 256) as u8)
}

fn push_hex_word(out: &mut String, v: u16)
    ensures
        final(out)@ == old(out)@ + hex_word(v),
{
    push_hex_pair(out, (v / 256) as u8);
    push_hex_pair(out, (v % 256) as u8);
    assert(out@ =~= old(out)@ + hex_word(v));
}

/// What a USB device is called in errors.
pub fn usb_label(vid: u16, pid: u16, serial: &Option<String>) -> (s: String)
    ensures
        s@ == "usb "@ + hex_word(vid) + ":"@ + hex_word(pid) + " "@ + match serial {
            Some(n) => n@,
            None => "(no serial)"@,
        },
{
    let mut s = "usb ".to_owned();
    push_hex_word(&mut s, vid);
    push_text(&mut s, ":");
    push_hex_word(&mut s, pid);
    push_text(&mut s, " ");
    match serial {
        Some(n) => push_text(&mut s, n.as_str()),
        None => push_text(&mut s, "(no serial)"),
    }
    s
}

/// The error of a search that found no cable.
pub fn no_cable() -> (s: String)
    ensures
        s@ == "no "@ + hex_word(FTDI_VID) + ":"@ + hex_word(FT232R_PID) + " device found"@,
{
    let mut s = "no ".to_owned();
    push_hex_word(&mut s, FTDI_VID);
    push_text(&mut s, ":");
    push_hex_word(&mut s, FT232R_PID);
    push_text(&mut s, " device found");
    s
}

/// The error of a write that put out `done` of `all` bytes.
pub fn short_write(done: usize, all: usize) -> (s: String)
    ensures
        s@ == "short write: "@ + decimal(done as nat) + " of "@ + decimal(all as nat) + " bytes"@,
{
    let mut s = "short write: ".to_owned();
    push_decimal(&mut s, done as u64);
    push_text(&mut s, " of ");
    push_decimal(&mut s, all as u64);
    push_text(&mut s, " bytes");
    s
}

/// The data of one IN packet: it begins with two modem-status bytes that are
/// not protocol data.
pub open spec fn packet_data(packet: Seq<u8>) -> Seq<u8> {
    if packet.len() > 2 {
        packet.skip(2)
    } else {
        Seq::empty()
    }
}

/// The data of a run of IN packets.
pub open spec fn payload_of(data: Seq<u8>, max_packet: nat) -> Seq<u8>
    decreases data.len(),
{
    if data.len() == 0 || max_packet == 0 {
        Seq::empty()
    } else if data.len() <= max_packet {
        packet_data(data)
    } else {
        packet_data(data.take(max_packet as int)) + payload_of(
            data.skip(max_packet as int),
            max_packet,
        )
    }
}

/// What a read does next.
#[derive(Clone, Copy, PartialEq, Eq, Debug)]
pub enum ReadStep {
    /// There is data: hand it out.
    Deliver,
    /// The wait is over with nothing received.
    GiveUp,
    /// Ask the device for `want` bytes, waiting up to `timeout`.
    Transfer { want: usize, timeout: Duration },
}

/// Payload bytes recovered from IN packets, minus the status headers.
pub struct FtdiRx {
    rx: Vec<u8>,
    max_packet: usize,
}

impl View for FtdiRx {
    type V = Seq<u8>;

    closed spec fn view(&self) -> Seq<u8> {
        self.rx@
    }
}

impl FtdiRx {
    /// The packet size.
    pub closed spec fn packet(&self) -> nat {
        self.max_packet as nat
    }

    pub fn new(max_packet: usize) -> (r: FtdiRx)
        requires
            1 <= max_packet <= usize::MAX / 8,
        ensures
            r@ == Seq::<u8>::empty(),
            r.packet() == max_packet,
    {
        FtdiRx { rx: Vec::new(), max_packet }
    }

    /// Take in what a transfer returned. A packet that is exactly the header is
    /// the FT232R reporting "nothing to say", which it does once per latency
    /// interval.
    pub fn absorb(&mut self, data: &[u8])
        requires
            old(self).packet() >= 1,
        ensures
            final(self)@ == old(self)@ + payload_of(data@, old(self).packet()),
            final(self).packet() == old(self).packet(),
    {
        let mut at: usize = 0;
        let ghost size = self.max_packet as nat;
        assert(data@.skip(0) =~= data@);
        while data.len() - at > self.max_packet
            invariant
                at <= data.len(),
                size == self.max_packet,
                self.max_packet >= 1,
                self.max_packet == old(self).max_packet,
                self.rx@ + payload_of(data@.skip(at as int), size) == old(self).rx@ + payload_of(
                    data@,
                    size,
                ),
            decreases data.len() - at,
        {
            let end: usize = at + self.max_packet;
            let packet = &data[at..end];
            let ghost rest = data@.skip(at as int);
            let ghost before = self.rx@;
            proof {
                assert(packet@ =~= rest.take(size as int));
                assert(rest.skip(size as int) =~= data@.skip(end as int));
            }
            if packet.len() > 2 {
                push_all(&mut self.rx, &packet[2..packet.len()]);
                assert(packet@.subrange(2, packet@.len() as int) =~= packet@.skip(2));
            }
            assert(self.rx@ + payload_of(data@.skip(end as int), size) =~= before + payload_of(
                rest,
                size,
            ));
            at = end;
        }
        let ghost rest = data@.skip(at as int);
        if data.len() - at > 2 {
            let packet = &data[at..data.len()];
            assert(packet@ =~= rest);
            push_all(&mut self.rx, &packet[2..packet.len()]);
            assert(packet@.subrange(2, packet@.len() as int) =~= packet@.skip(2));
        } else {
            assert(self.rx@ + Seq::<u8>::empty() =~= self.rx@);
        }
    }

    /// Hand out as much as `buf` holds, first come first.
    pub fn take(&mut self, buf: &mut [u8]) -> (n: usize)
        ensures
            n == if old(self)@.len() <= old(buf)@.len() {
                old(self)@.len()
            } else {
                old(buf)@.len()
            },
            final(buf)@.len() == old(buf)@.len(),
            final(buf)@.take(n as int) == old(self)@.take(n as int),
            final(buf)@.skip(n as int) == old(buf)@.skip(n as int),
            final(self)@ == old(self)@.skip(n as int),
            final(self).packet() == old(self).packet(),
    {
        let n: usize = if self.rx.len() <= buf.len() {
            self.rx.len()
        } else {
            buf.len()
        };
        let mut i: usize = 0;
        while i < n
            invariant
                i <= n <= buf.len(),
                n <= self.rx.len(),
                self.rx@ == old(self).rx@,
                self.max_packet == old(self).max_packet,
                buf@.len() == old(buf)@.len(),
                forall|j: int| 0 <= j < i ==> #[trigger] buf@[j] == self.rx@[j],
                forall|j: int| i <= j < buf@.len() ==> #[trigger] buf@[j] == old(buf)@[j],
            decreases n - i,
        {
            buf[i] = self.rx[i];
            i = i + 1;
        }
        assert(buf@.take(n as int) =~= self.rx@.take(n as int));
        assert(buf@.skip(n as int) =~= old(buf)@.skip(n as int));
        self.rx = copy_range(self.rx.as_slice(), n, self.rx.len());
        assert(self.rx@ =~= old(self).rx@.skip(n as int));
        n
    }

    /// Drop everything received so far.
    pub fn clear(&mut self)
        ensures
            final(self)@ == Seq::<u8>::empty(),
            final(self).packet() == old(self).packet(),
    {
        self.rx.clear();
    }

    /// What a read that may take until `deadline` does at `now`. Several packets
    /// are asked for at once; the device returns as soon as it has anything, so
    /// this is not a latency penalty.
    pub fn next_step(&self, now: Instant, deadline: Instant) -> (r: ReadStep)
        requires
            self.packet() <= usize::MAX / 8,
        ensures
            r == if self@.len() > 0 {
                ReadStep::Deliver
            } else if now.spec_until(deadline).nanos == 0 {
                ReadStep::GiveUp
            } else {
                ReadStep::Transfer {
                    want: (self.packet() * 8) as usize,
                    timeout: now.spec_until(deadline).shorter(millis(200)),
                }
            },
    {
        if self.rx.len() > 0 {
            return ReadStep::Deliver;
        }
        let remaining = now.until(deadline);
        if remaining.is_zero() {
            return ReadStep::GiveUp;
        }
        ReadStep::Transfer {
            want: self.max_packet * 8,
            timeout: remaining.min(Duration::from_millis(200)),
        }
    }
}

/// Whole packets are stripped of their headers and nothing else: a run of full
/// packets followed by one more yields the data of each, in order.
pub proof fn lemma_headers_stripped(header: Seq<u8>, body: Seq<u8>, rest: Seq<u8>)
    requires
        header.len() == 2,
        body.len() > 0,
    ensures
        payload_of(header + body + rest, (2 + body.len()) as nat) == body + payload_of(
            rest,
            (2 + body.len()) as nat,
        ),
{
    let size = (2 + body.len()) as nat;
    let s = header + body + rest;
    assert(s.take(size as int) =~= header + body);
    assert(s.skip(size as int) =~= rest);
    assert((header + body).skip(2) =~= body);
    if rest.len() == 0 {
        assert(s =~= header + body);
        assert(payload_of(rest, size) =~= Seq::empty());
        assert(body + Seq::<u8>::empty() =~= body);
    }
}

/// Where Linux keeps the latency timer of a serial device.
pub fn latency_node(name: &str) -> (s: String)
    ensures
        s@ == "/sys/bus/usb-serial/devices/"@ + name@ + "/latency_timer"@,
{
    let mut s = "/sys/bus/usb-serial/devices/".to_owned();
    push_text(&mut s, name);
    push_text(&mut s, "/latency_timer");
    s
}

/// Whether a latency timer can stay as it is: `Some` result if so, `None` if
/// it is to be written.
pub fn latency_as_is(current: Option<u8>) -> (r: Option<LatencyResult>)
    ensures
        match current {
            Some(ms) => if ms <= TARGET_LATENCY_MS {
                r == Some(LatencyResult::AlreadyLow { millis: ms })
            } else {
                r is None
            },
            None => r is None,
        },
{
    match current {
        Some(ms) => if ms <= TARGET_LATENCY_MS {
            Some(LatencyResult::AlreadyLow { millis: ms })
        } else {
            None
        },
        None => None,
    }
}

/// The outcome of writing the latency timer: `error` is what the write failed
/// with.
pub fn latency_written(node: &str, error: Option<String>) -> (r: LatencyResult)
    ensures
        match error {
            None => r == (LatencyResult::Lowered { millis: TARGET_LATENCY_MS }),
            Some(e) => r matches LatencyResult::Failed { reason } && reason@ == node@ + ": "@ + e@
                + " (fix permanently with a udev rule: ACTION==\"add\", SUBSYSTEM==\"usb-serial\", DRIVER==\"ftdi_sio\", ATTR{latency_timer}=\"2\")"@,
        },
{
    match error {
        None => LatencyResult::Lowered { millis: TARGET_LATENCY_MS },
        Some(e) => {
            let mut reason = node.to_owned();
            push_text(&mut reason, ": ");
            push_text(&mut reason, e.as_str());
            push_text(
                &mut reason,
                " (fix permanently with a udev rule: ACTION==\"add\", SUBSYSTEM==\"usb-serial\", DRIVER==\"ftdi_sio\", ATTR{latency_timer}=\"2\")",
            );
            LatencyResult::Failed { reason }
        },
    }
}

/// A span in milliseconds as a Java `int`, stopping at the largest.
pub fn java_millis(d: Duration) -> (ms: i32)
    ensures
        ms == if d.nanos / 1_000_000 <= i32::MAX {
            (d.nanos / 1_000_000) as int
        } else {
            i32::MAX as int
        },
{
    let ms: u128 = d.nanos / 1_000_000;
    if ms <= i32::MAX as u128 {
        ms as i32
    } else {
        i32::MAX
    }
}

/// The bytes a Java read of up to `room` bytes yielded, given what it returned.
pub fn java_count(n: i32, room: usize) -> (r: usize)
    ensures
        r == if n <= 0 {
            0
        } else if n <= room {
            n as int
        } else {
            room as int
        },
{
    if n <= 0 {
        0
    } else if (n as usize) <= room {
        n as usize
    } else {
        room
    }
}

/// The outcome of lowering the latency timer by a Java control transfer, given
/// what it returned.
pub fn java_latency(n: i32) -> (r: LatencyResult)
    ensures
        if n >= 0 {
            r == (LatencyResult::Lowered { millis: TARGET_LATENCY_MS })
        } else {
            r matches LatencyResult::Failed { reason } && reason@
                == "controlTransfer returned -"@ + decimal((-n) as nat)
        },
{
    if n >= 0 {
        LatencyResult::Lowered { millis: TARGET_LATENCY_MS }
    } else {
        let mut reason = "controlTransfer returned -".to_owned();
        push_decimal(&mut reason, (-(n as i64)) as u64);
        LatencyResult::Failed { reason }
    }
}

} // verus!
