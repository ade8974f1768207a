//! What stands around the driver: the app's session, the command line, the cable
//! under the port, and what is told of an error.

use vstd::prelude::*;

use super::endpoints::plain_config;
use super::exchange::ms;
use crate::android::{told, AppSession, AppState};
use crate::diag::error::Error as DiagError;
use crate::diag::services::{uds_error_text, NrcByte};
use crate::error::{CodecError, Error, IsoTpError};
use crate::hvac::{parse_args, parsed, quoted, words, Args};
use crate::isotp::client::{tp_request, IsoTp, IsoTpConfig, IsoTpPath};
use crate::session::device::Device;
use crate::session::protocol::CanId;
use crate::text::{
    byte_len, decimal, digit, fitting, hex_byte, hex_digits, hex_pair, push_decimal, push_hex,
    push_hex_byte, push_hex_pair, push_text,
};
use crate::time::{Duration, Instant};
use crate::transport::ftdi::{
    is_cable, java_count, java_latency, java_millis, latency_as_is, latency_written, modem_values,
    packet_data, payload_of, FtdiRx, ReadStep,
};
use crate::transport::{LatencyResult, Transport};

verus! {

/// What a digit counts.
pub open spec fn worth(c: char) -> nat {
    if '0' <= c <= '9' {
        (c as u32 - '0' as u32) as nat
    } else if 'a' <= c <= 'f' {
        (c as u32 - 'a' as u32 + 10) as nat
    } else {
        99
    }
}

/// What digits spell, the highest first.
pub open spec fn number_in(text: Seq<char>, base: nat) -> nat
    decreases text.len(),
{
    if text.len() == 0 {
        0
    } else {
        number_in(text.drop_last(), base) * base + worth(text.last())
    }
}

/// Whether all are digits of that base, with no zero in front of others.
pub open spec fn numeral(text: Seq<char>, base: nat) -> bool {
    &&& text.len() > 0
    &&& forall|i: int| 0 <= i < text.len() ==> worth(#[trigger] text[i]) < base
    &&& text.len() > 1 ==> text[0] != '0'
}

proof fn lemma_digit(d: nat)
    requires
        d < 16,
    ensures
        digit(d).len() == 1,
        worth(digit(d)[0]) == d,
        d > 0 ==> digit(d)[0] != '0',
{
}

/// Numbers are written in digits that spell them.
pub proof fn lemma_numerals(n: nat)
    ensures
        numeral(decimal(n), 10),
        number_in(decimal(n), 10) == n,
        n > 0 ==> decimal(n)[0] != '0',
    decreases n,
{
    if n < 10 {
        lemma_digit(n);
        reveal_with_fuel(number_in, 2);
    } else {
        lemma_numerals(n / 10);
        lemma_digit(n % 10);
        let t = decimal(n);
        assert(t.drop_last() =~= decimal(n / 10));
        assert(t.last() == digit(n % 10)[0]);
        assert forall|i: int| 0 <= i < t.len() implies worth(#[trigger] t[i]) < 10 by {
            if i < t.len() - 1 {
                assert(t[i] == decimal(n / 10)[i]);
            }
        }
        assert(t[0] == decimal(n / 10)[0]);
    }
}

/// So are numbers in hexadecimal.
pub proof fn lemma_hex_numerals(n: nat)
    ensures
        numeral(hex_digits(n), 16),
        number_in(hex_digits(n), 16) == n,
        n > 0 ==> hex_digits(n)[0] != '0',
    decreases n,
{
    if n < 16 {
        lemma_digit(n);
        reveal_with_fuel(number_in, 2);
    } else {
        lemma_hex_numerals(n / 16);
        lemma_digit(n % 16);
        let t = hex_digits(n);
        assert(t.drop_last() =~= hex_digits(n / 16));
        assert(t.last() == digit(n % 16)[0]);
        assert forall|i: int| 0 <= i < t.len() implies worth(#[trigger] t[i]) < 16 by {
            if i < t.len() - 1 {
                assert(t[i] == hex_digits(n / 16)[i]);
            }
        }
        assert(t[0] == hex_digits(n / 16)[0]);
    }
}

/// What is pushed onto a text: digits that spell the number, in hexadecimal after
/// `0x`; a byte is always two digits.
pub proof fn lemma_pushed(n: u64, b: u8, s: &str)
    ensures
        forall|o: &mut String| #[trigger]
            call_ensures(push_decimal, (o, n), ()) ==> {
                let more = (*final(o))@.skip((*o)@.len() as int);
                &&& (*final(o))@ == (*o)@ + more
                &&& numeral(more, 10) && number_in(more, 10) == n
            },
        forall|o: &mut String| #[trigger]
            call_ensures(push_hex, (o, n), ()) ==> {
                let more = (*final(o))@.skip((*o)@.len() as int + 2);
                &&& (*final(o))@ == (*o)@ + seq!['0', 'x'] + more
                &&& numeral(more, 16) && number_in(more, 16) == n
            },
        forall|o: &mut String| #[trigger]
            call_ensures(push_hex_pair, (o, b), ()) ==> {
                let more = (*final(o))@.skip((*o)@.len() as int);
                &&& (*final(o))@ == (*o)@ + more
                &&& more.len() == 2 && number_in(more, 16) == b
                &&& worth(more[0]) < 16 && worth(more[1]) < 16
            },
        forall|o: &mut String| #[trigger]
            call_ensures(push_hex_byte, (o, b), ()) ==> {
                let more = (*final(o))@.skip((*o)@.len() as int + 2);
                &&& (*final(o))@ == (*o)@ + seq!['0', 'x'] + more
                &&& more.len() == 2 && number_in(more, 16) == b
                &&& worth(more[0]) < 16 && worth(more[1]) < 16
            },
        forall|o: &mut String| #[trigger]
            call_ensures(push_text, (o, s), ()) ==> (*final(o))@ == (*o)@ + s@,
{
    lemma_numerals(n as nat);
    lemma_hex_numerals(n as nat);
    lemma_digit((b / 16) as nat);
    lemma_digit((b % 16) as nat);
    let pair = hex_pair(b);
    assert(pair.drop_last() =~= digit((b / 16) as nat));
    assert(pair.drop_last().drop_last() =~= Seq::empty());
    reveal_with_fuel(number_in, 3);
    assert(number_in(pair, 16) == b);
    assert forall|o: &mut String| #[trigger]
        call_ensures(push_decimal, (o, n), ()) implies (*final(o))@.skip((*o)@.len() as int)
        == decimal(n as nat) by {
        assert((*final(o))@.skip((*o)@.len() as int) =~= decimal(n as nat));
    }
    assert forall|o: &mut String| #[trigger]
        call_ensures(push_hex, (o, n), ()) implies (*final(o))@.skip((*o)@.len() as int + 2)
        == hex_digits(n as nat) && (*final(o))@ == (*o)@ + seq!['0', 'x'] + hex_digits(
        n as nat,
    ) by {
        assert((*final(o))@.skip((*o)@.len() as int + 2) =~= hex_digits(n as nat));
        assert((*final(o))@ =~= (*o)@ + seq!['0', 'x'] + hex_digits(n as nat));
    }
    assert forall|o: &mut String| #[trigger]
        call_ensures(push_hex_pair, (o, b), ()) implies (*final(o))@.skip((*o)@.len() as int)
        == pair by {
        assert((*final(o))@.skip((*o)@.len() as int) =~= pair);
    }
    assert forall|o: &mut String| #[trigger]
        call_ensures(push_hex_byte, (o, b), ()) implies (*final(o))@.skip((*o)@.len() as int + 2)
        == pair && (*final(o))@ == (*o)@ + seq!['0', 'x'] + pair by {
        assert((*final(o))@.skip((*o)@.len() as int + 2) =~= pair);
        assert((*final(o))@ =~= (*o)@ + seq!['0', 'x'] + pair);
    }
}

/// A text is cut behind its last character that still fits, and only if it does
/// not fit whole.
pub proof fn lemma_cut(all: &str, room: usize, text: String)
    ensures
        call_ensures(fitting, (all, room), text) ==> {
            &&& text@ =~= all@.take(text@.len() as int)
            &&& byte_len(text@) <= room
            &&& text@.len() < all@.len() ==> byte_len(all@.take(text@.len() as int + 1)) > room
            &&& byte_len(all@) <= room ==> text@ == all@
        },
{
}

/// An error that carries several values tells which is which.
pub proof fn lemma_errors_told(e: CodecError, i: IsoTpError, s: String)
    ensures
        call_ensures(CodecError::message, (&e,), s) ==> {
            &&& e matches CodecError::LengthMismatch { field, actual } ==> s@
                == "length field says "@ + decimal(field as nat) + " but frame is "@ + decimal(
                actual as nat,
            ) + " bytes"@
            &&& e matches CodecError::BadChecksum { wire, computed } ==> s@
                == "bad checksum: wire "@ + hex_byte(wire) + ", computed "@ + hex_byte(computed)
            &&& e matches CodecError::BadEncryptedChecksum { wire, cipher, plain } ==> s@
                == "bad checksum on encrypted frame: wire "@ + hex_byte(wire)
                + " matches neither the ciphertext sum "@ + hex_byte(cipher)
                + " nor the plaintext sum "@ + hex_byte(plain)
            &&& e matches CodecError::FilterFieldTooShort { have, need } ==> s@
                == "filter field is "@ + decimal(have as nat)
                + " bytes but the identifier width is "@ + decimal(need as nat)
        },
        call_ensures(IsoTpError::message, (&i,), s) ==> {
            i matches IsoTpError::SequenceError { expected, got } ==> s@
                == "consecutive frame sequence error: expected SN "@ + decimal(expected as nat)
                + ", got "@ + decimal(got as nat)
        },
{
}

/// The reason of a refusal is told by its code, in hexadecimal, and by its name;
/// a code that the tables know is standard. Out of range is 31.
pub proof fn lemma_refusals_told(
    e: DiagError,
    s: String,
    code: Option<u8>,
    byte: Option<NrcByte>,
    out: bool,
)
    ensures
        call_ensures(DiagError::nrc, (&e,), code) ==> {
            &&& e matches DiagError::Negative { nrc, .. } ==> code == Some(nrc)
            &&& !(e is Negative) ==> code is None
        },
        call_ensures(DiagError::is_request_out_of_range, (&e,), out) ==> {
            &&& e matches DiagError::Negative { nrc, .. } ==> out == (nrc == 0x31)
            &&& !(e is Negative) ==> !out
        },
        call_ensures(DiagError::uds_nrc, (&e,), byte) || call_ensures(
            DiagError::kwp_nrc,
            (&e,),
            byte,
        ) ==> {
            &&& e matches DiagError::Negative { nrc, .. } ==> byte is Some && (byte->0
                == NrcByte::Standard(nrc) || byte->0 == NrcByte::Extended(nrc))
            &&& e matches DiagError::Negative { nrc, .. } ==> (nrc == 0x10 || nrc == 0x11 || nrc
                == 0x12 || nrc == 0x21 || nrc == 0x22 || nrc == 0x31 || nrc == 0x33 || nrc == 0x35
                || nrc == 0x36 || nrc == 0x37 || nrc == 0x78 ==> byte->0 is Standard)
            &&& e matches DiagError::Negative { nrc, .. } ==> (nrc < 0x10 || nrc > 0xa1
                ==> byte->0 is Extended)
            &&& !(e is Negative) ==> byte is None
        },
        call_ensures(DiagError::message, (&e,), s) ==> {
            e matches DiagError::Negative { service, nrc } ==> s@ == "ECU refused service "@
                + hex_byte(service) + ": NRC "@ + hex_byte(nrc) + " ("@ + uds_error_text(nrc)
                + ")"@
        },
{
}

proof fn lemma_low_half(v: i32, low: u16)
    requires
        (v - low) % 65536 == 0,
    ensures
        crate::android::low_half(v) == low,
{
}

/// An app's request goes to the identifiers it names, by their low 16 bits, and
/// waits at least a millisecond. What goes wrong is told by where it did.
pub proof fn lemma_app_request<T: Transport>(
    a: AppState,
    tx_id: i32,
    rx_id: i32,
    ext_addr: i32,
    req: Seq<u8>,
    timeout_ms: i32,
    tx: u16,
    rx: u16,
)
    requires
        (tx_id - tx) % 65536 == 0,
        (rx_id - rx) % 65536 == 0,
    ensures
        ({
            let (r, b) = a.request::<T>(tx_id, rx_id, ext_addr, req, timeout_ms);
            let wait = if timeout_ms < 1 {
                1nat
            } else {
                timeout_ms as nat
            };
            let (ready, tuned) = a.tuned(tx, rx, ext_addr);
            let (reply, s) = tp_request::<T>(
                tuned.session,
                tuned.setup,
                tuned.open->0.tp,
                req,
                ms(wait),
            );
            match ready {
                Err(e) => {
                    &&& r == Err::<Seq<u8>, Seq<char>>("open ISO15765 channel: "@ + e.text())
                    &&& b == tuned
                },
                Ok(()) => {
                    &&& b == (AppState { session: s, ..tuned })
                    &&& reply is Ok ==> r == Ok::<Seq<u8>, Seq<char>>(reply->Ok_0)
                    &&& reply is Err ==> r == Err::<Seq<u8>, Seq<char>>(
                        "request: "@ + reply->Err_0.text(),
                    )
                },
            }
        }),
{
    lemma_low_half(tx_id, tx);
    lemma_low_half(rx_id, rx);
}

/// The channel that an app's request runs on: one that is open for the same
/// identifiers and address as it is; any other is disconnected first. The address
/// counts where it is a byte.
pub proof fn lemma_app_channel(a: AppState, tx: u16, rx: u16, ext_addr: i32, c: IsoTpConfig)
    requires
        plain_config(
            c,
            CanId::Std(tx),
            CanId::Std(rx),
            if 0 <= ext_addr <= 255 {
                Some(ext_addr as u8)
            } else {
                None
            },
        ),
    ensures
        ({
            let same = a.open is Some && a.open->0.tx == tx && a.open->0.rx == rx
                && a.open->0.ext_addr == ext_addr;
            let clean = if a.open is Some {
                a.session.on_disconnect(a.open->0.tp.chan.raw.proto).1
            } else {
                a.session
            };
            let (ready, b) = a.tuned(tx, rx, ext_addr);
            let (made, s) = IsoTp::opening(clean, c, IsoTpPath::Firmware);
            if same {
                ready is Ok && b == a
            } else {
                &&& b.session == s && b.setup == a.setup
                &&& made is Err ==> ready == Err::<(), Error>(made->Err_0) && b.open is None
                &&& made is Ok ==> {
                    &&& ready is Ok && b.open is Some
                    &&& b.open->0.tx == tx && b.open->0.rx == rx
                    &&& b.open->0.ext_addr == ext_addr && b.open->0.tp == made->Ok_0
                }
            }
        }),
{
    assert(c == crate::android::config_for(tx, rx, ext_addr));
}

/// Every request of an app is that.
pub proof fn lemma_app_calls<T: Transport>(
    tx_id: i32,
    rx_id: i32,
    ext_addr: i32,
    req: &[u8],
    timeout_ms: i32,
    r: Result<Vec<u8>, String>,
    v: Result<String, String>,
)
    ensures
        forall|a: &mut AppSession<T>| #[trigger]
            call_ensures(AppSession::<T>::request, (a, tx_id, rx_id, ext_addr, req, timeout_ms), r)
                ==> (told(r), (*final(a))@) == (*a)@.request::<T>(
                tx_id,
                rx_id,
                ext_addr,
                req@,
                timeout_ms,
            ),
        forall|a: &mut AppSession<T>| #[trigger]
            call_ensures(AppSession::<T>::firmware_version, (a,), v) ==> {
                let (owed, s) = (*a)@.session.firmware_version();
                &&& (*final(a))@ == (AppState { session: s, ..(*a)@ })
                &&& owed is Ok ==> told(v) == Ok::<Seq<char>, Seq<char>>(owed->Ok_0)
                &&& owed is Err ==> told(v) == Err::<Seq<char>, Seq<char>>(
                    "firmware_version: "@ + owed->Err_0.text(),
                )
            },
{
}

/// An app's session starts with no channel; closing it disconnects the channel,
/// if one is open, and then closes the device.
pub proof fn lemma_app_life<T: Transport>(dev: Device<T>, a: AppSession<T>, io: T)
    ensures
        call_ensures(AppSession::<T>::new, (dev,), a) ==> a@.open is None && a@.session == dev@
            && a@.setup == dev.setup(),
        call_ensures(AppSession::<T>::close, (a,), io) ==> {
            let s = match a@.open {
                Some(c) => a@.session.on_disconnect(c.tp.chan.raw.proto).1,
                None => a@.session,
            };
            io.world() == s.teardown().world
        },
{
}

/// A word that is no option.
pub open spec fn plain_word(w: Seq<char>) -> bool {
    w != "--isotp"@ && w != "--help"@ && w != "-h"@
}

/// The command line: a port, a path, both in either order, or neither; firmware
/// and `$MVCI_PORT` or the first USB port where nothing is said.
pub proof fn lemma_command_line(
    args: &Vec<String>,
    env: Option<String>,
    r: Result<Args, String>,
    p: Seq<char>,
    v: Seq<char>,
    path: IsoTpPath,
)
    requires
        plain_word(p),
        v == if path == IsoTpPath::Host {
            "host"@
        } else {
            "firmware"@
        },
    ensures
        call_ensures(parse_args, (args, env), r) ==> {
            let w = words(args@);
            let unsaid = match env {
                Some(e) => e@,
                None => "/dev/ttyUSB0"@,
            };
            &&& w =~= Seq::empty() ==> r is Ok && r->Ok_0.port@ == unsaid && r->Ok_0.isotp
                == IsoTpPath::Firmware
            &&& w =~= seq![p] ==> r is Ok && r->Ok_0.port@ == p && r->Ok_0.isotp
                == IsoTpPath::Firmware
            &&& w =~= seq!["--isotp"@, v] ==> r is Ok && r->Ok_0.port@ == unsaid && r->Ok_0.isotp
                == path
            &&& w =~= seq![p, "--isotp"@, v] ==> r is Ok && r->Ok_0.port@ == p && r->Ok_0.isotp
                == path
            &&& w =~= seq!["--isotp"@, v, p] ==> r is Ok && r->Ok_0.port@ == p && r->Ok_0.isotp
                == path
        },
{
    reveal_strlit("--isotp");
    reveal_strlit("--help");
    reveal_strlit("-h");
    reveal_strlit("host");
    reveal_strlit("firmware");
    assert("host"@.len() == 4 && "firmware"@.len() == 8);
    let w = words(args@);
    reveal_with_fuel(parsed, 4);
}

/// What is wrong with a command line: a path that is none, help that is asked
/// for, a second port; always the first such thing.
pub proof fn lemma_command_line_refused(
    args: &Vec<String>,
    env: Option<String>,
    r: Result<Args, String>,
)
    ensures
        call_ensures(parse_args, (args, env), r) ==> {
            let w = words(args@);
            &&& w.len() > 0 && (w[0] == "--help"@ || w[0] == "-h"@) ==> r is Err && r->Err_0@
                == "usage: prius-hvac [--isotp firmware|host] [PORT]"@
            &&& w.len() > 1 && plain_word(w[0]) && (w[1] == "--help"@ || w[1] == "-h"@) ==> r is Err
                && r->Err_0@ == "usage: prius-hvac [--isotp firmware|host] [PORT]"@
            &&& w.len() > 1 && plain_word(w[0]) && plain_word(w[1]) ==> r is Err && r->Err_0@
                == "unexpected argument "@ + quoted(w[1])
            &&& w.len() == 1 && w[0] == "--isotp"@ ==> r is Err && r->Err_0@
                == "--isotp expects firmware|host, got "@ + "None"@
            &&& w.len() > 1 && w[0] == "--isotp"@ && w[1] != "firmware"@ && w[1] != "host"@
                ==> r is Err && r->Err_0@ == "--isotp expects firmware|host, got "@ + ("Some("@
                + quoted(w[1]) + ")"@)
        },
{
    reveal_strlit("--isotp");
    reveal_strlit("--help");
    reveal_strlit("-h");
    assert("--isotp"@.len() == 7 && "--help"@.len() == 6 && "-h"@.len() == 2);
    reveal_with_fuel(parsed, 4);
}

/// The cable and its lines: an FT232R, the one asked for where one is; DTR is bit
/// 0 and RTS bit 1, each with its mask eight bits up.
pub proof fn lemma_cable(
    vid: u16,
    pid: u16,
    serial: &Option<String>,
    want: &Option<String>,
    is: bool,
    dtr: bool,
    rts: bool,
    lines: (u16, u16),
)
    ensures
        call_ensures(is_cable, (vid, pid, serial, want), is) ==> {
            &&& is ==> vid == 0x0403 && pid == 0x6001
            &&& vid == 0x0403 && pid == 0x6001 && want is None ==> is
            &&& vid == 0x0403 && pid == 0x6001 && want is Some ==> is == (serial is Some
                && serial->0@ == want->0@)
        },
        call_ensures(modem_values, (dtr, rts), lines) ==> {
            &&& lines.0 / 256 == 1 && lines.1 / 256 == 2
            &&& lines.0 % 256 == if dtr {
                1int
            } else {
                0
            }
            &&& lines.1 % 256 == if rts {
                2int
            } else {
                0
            }
        },
{
}

/// Of each packet of a transfer everything after the first two bytes is data.
pub proof fn lemma_packets(data: Seq<u8>, size: nat)
    requires
        size >= 1,
    ensures
        data.len() <= 2 ==> payload_of(data, size).len() == 0,
        2 < data.len() <= size ==> payload_of(data, size) == data.skip(2),
        data.len() > size && size > 2 ==> payload_of(data, size) == data.subrange(2, size as int)
            + payload_of(data.skip(size as int), size),
        data.len() > size && size <= 2 ==> payload_of(data, size) == payload_of(
            data.skip(size as int),
            size,
        ),
    decreases data.len(),
{
    if data.len() > size {
        let rest = data.skip(size as int);
        if data.len() <= 2 {
            lemma_packets(rest, size);
        }
        if size > 2 {
            assert(data.take(size as int).skip(2) =~= data.subrange(2, size as int));
        } else {
            assert(packet_data(data.take(size as int)) =~= Seq::empty());
            assert(Seq::<u8>::empty() + payload_of(rest, size) =~= payload_of(rest, size));
        }
    }
}

/// What the port holds of received data: what came, in order, without the
/// packets' headers; a read takes from the front. With nothing there it asks for
/// eight packets, for 200 ms or what is left.
pub proof fn lemma_port_reads(
    data: &[u8],
    rx: FtdiRx,
    size: usize,
    n: usize,
    now: Instant,
    deadline: Instant,
    step: ReadStep,
)
    ensures
        call_ensures(FtdiRx::new, (size,), rx) ==> rx@.len() == 0 && rx.packet() == size,
        forall|p: &mut FtdiRx| #[trigger]
            call_ensures(FtdiRx::absorb, (p, data), ()) ==> (*final(p))@ == (*p)@ + payload_of(
                data@,
                (*p).packet(),
            ) && (*final(p)).packet() == (*p).packet(),
        forall|p: &mut FtdiRx, buf: &mut [u8]| #[trigger]
            call_ensures(FtdiRx::take, (p, buf), n) ==> {
                &&& n <= (*p)@.len() && n <= (*buf)@.len()
                &&& n == (*p)@.len() || n == (*buf)@.len()
                &&& (*final(p))@ == (*p)@.skip(n as int)
                &&& (*final(buf))@.take(n as int) == (*p)@.take(n as int)
                &&& (*final(buf))@.skip(n as int) == (*buf)@.skip(n as int)
                &&& (*final(buf))@.len() == (*buf)@.len()
            },
        forall|p: &mut FtdiRx| #[trigger]
            call_ensures(FtdiRx::clear, (p,), ()) ==> (*final(p))@.len() == 0,
        call_ensures(FtdiRx::next_step, (&rx, now, deadline), step) ==> {
            &&& rx@.len() > 0 ==> step is Deliver
            &&& rx@.len() == 0 && now.nanos >= deadline.nanos ==> step is GiveUp
            &&& rx@.len() == 0 && now.nanos < deadline.nanos ==> {
                &&& step is Transfer
                &&& rx.packet() * 8 <= usize::MAX ==> step->want == rx.packet() * 8
                &&& deadline.nanos - now.nanos <= 200_000_000 ==> step->timeout.nanos
                    == deadline.nanos - now.nanos
                &&& deadline.nanos - now.nanos > 200_000_000 ==> step->timeout.nanos == 200_000_000
            }
        },
{
}

/// The latency timer is lowered to 2 ms unless it is that low; numbers that Java
/// gives and takes stay within what is there.
pub proof fn lemma_latency(
    current: Option<u8>,
    kept: Option<LatencyResult>,
    node: &str,
    error: Option<String>,
    done: LatencyResult,
    n: i32,
    d: Duration,
    took: i32,
    room: usize,
    count: usize,
)
    ensures
        call_ensures(latency_as_is, (current,), kept) ==> {
            &&& kept is Some <==> current is Some && current->0 <= 2
            &&& kept is Some ==> kept->0 == (LatencyResult::AlreadyLow { millis: current->0 })
        },
        call_ensures(latency_written, (node, error), done) ==> {
            &&& error is None ==> done == (LatencyResult::Lowered { millis: 2 })
            &&& error is Some ==> done is Failed
        },
        call_ensures(java_latency, (n,), done) ==> {
            &&& n >= 0 ==> done == (LatencyResult::Lowered { millis: 2 })
            &&& n < 0 ==> done is Failed
        },
        call_ensures(java_millis, (d,), took) ==> {
            &&& 0 <= took
            &&& took < i32::MAX ==> took * 1_000_000 <= d.nanos < (took + 1) * 1_000_000
            &&& took == i32::MAX ==> d.nanos >= took * 1_000_000
        },
        call_ensures(java_count, (n, room), count) ==> {
            &&& count <= room
            &&& n <= 0 ==> count == 0
            &&& 0 <= n <= room ==> count == n
            &&& n > room ==> count == room
        },
{
}

} // verus!
