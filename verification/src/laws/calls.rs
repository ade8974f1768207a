//! The smaller calls: answers of an ECU taken apart, an actor's requests, the
//! session's steps one by one, filters and names.

use vstd::prelude::*;

use super::endpoints::lemma_kline_service;
use super::wire::{high_first, lemma_byte_orders};
use crate::diag::common::{led_by, parse_positive, serve, strip_echo};
use crate::diag::error::{answered, DiagFault, Error as DiagError};
use crate::diag::kwp2000::two_bytes;
use crate::error::{codec, isotp, seen, transport, CodecError, Error, IsoTpError, TransportError};
use crate::isotp::pending::UdsTransport;
use crate::kline::{kline_timing, strip_header, KLineEcu};
use crate::session::actor::{open_link, opening, seen_msg, Actor, Request, Response};
use crate::session::device::{resolve_port, Device};
use crate::session::link::{handshake, KeyedLink};
use crate::session::protocol::{CanFilter, CanId, FlowControlFilter};
use crate::session::raw::RawChannel;
use crate::session::wire::{frame_read, read_frame};
use crate::time::{Duration, Instant};
use crate::transport::{Req, Transport};
use crate::types::{Cmd, ProtocolId};

verus! {

/// An answer of an ECU: positive if it opens with the service and 0x40, and then
/// what follows is its data; a refusal if it opens with 7F, with the service and
/// the code after it where they are there; anything else is unexpected.
pub proof fn lemma_answer_taken(sid: u8, resp: Vec<u8>, r: Result<Vec<u8>, DiagError>)
    ensures
        call_ensures(parse_positive, (sid, resp), r) ==> {
            let b = resp@;
            if b.len() == 0 {
                r is Err && r->Err_0 is Empty
            } else if b[0] == 0x7f {
                &&& r is Err && r->Err_0 is Negative
                &&& b.len() > 1 ==> r->Err_0->service == b[1]
                &&& b.len() == 1 ==> r->Err_0->service == sid
                &&& b.len() > 2 ==> r->Err_0->nrc == b[2]
                &&& b.len() <= 2 ==> r->Err_0->nrc == 0
            } else if b[0] == (sid | 0x40) {
                r is Ok && r->Ok_0@ == b.skip(1)
            } else {
                &&& r is Err && r->Err_0 is Unexpected
                &&& r->Err_0->expected == (sid | 0x40) && r->Err_0->got@ == b
            }
        },
{
}

/// An identifier that an answer repeats is taken off its front, if it is there.
pub proof fn lemma_echo_taken(resp: &[u8], echo: &[u8], r: Result<Vec<u8>, DiagError>)
    ensures
        call_ensures(strip_echo, (resp, echo), r) ==> {
            let n = echo@.len() as int;
            if resp@.len() >= n && resp@.take(n) == echo@ {
                r is Ok && r->Ok_0@ == resp@.skip(n)
            } else {
                r is Err && r->Err_0 is Unexpected && r->Err_0->got@ == resp@
            }
        },
{
}

/// A service is asked for by its id and its data, in one request with the time it
/// was given; what comes is taken as its answer.
pub proof fn lemma_service_asked<T: UdsTransport>(
    timeout: Duration,
    sid: u8,
    data: &[u8],
    r: Result<Vec<u8>, DiagError>,
)
    ensures
        forall|io: &mut T| #[trigger]
            call_ensures(serve::<T>, (io, timeout, sid, data), r) ==> {
                let (came, after) = T::exchange((*io).state(), seq![sid] + data@, timeout);
                &&& (*final(io)).state() == after
                &&& came matches Err(e) ==> answered(r) == Err::<Seq<u8>, DiagFault>(
                    DiagFault::Transport(e),
                )
                &&& came matches Ok(b) ==> {
                    let good = b.len() > 0 && b[0] == (sid | 0x40) && b[0] != 0x7f;
                    &&& good ==> answered(r) == Ok::<Seq<u8>, DiagFault>(b.skip(1))
                    &&& !good ==> r is Err
                }
            },
{
}

/// Bytes put together for a request.
pub proof fn lemma_request_bytes(first: u8, rest: &[u8], v: u16, out: Vec<u8>)
    ensures
        call_ensures(led_by, (first, rest), out) ==> out@ == seq![first] + rest@,
        call_ensures(two_bytes, (v,), out) ==> out@ == high_first(v as nat, 2),
{
    lemma_byte_orders(0, 0, v);
}

/// A K-line ECU's own calls: the timing values, the service bytes of a frame, the
/// tester's address.
pub proof fn lemma_kline_parts<T: Transport>(
    timing: [(u32, u32); 12],
    frame: &[u8],
    body: Result<&[u8], Error>,
    ecu: KLineEcu,
    other: KLineEcu,
    tester: u8,
    at: u8,
)
    ensures
        call_ensures(kline_timing, (), timing) ==> timing@ == seq![
            (0x01u32, 9600u32),
            (0x07, 40),
            (0x0a, 10),
            (0x0b, 10),
            (0x13, 300),
            (0x14, 35),
            (0x15, 50),
            (0x0e, 25),
            (0x0f, 20),
            (0x10, 20),
            (0x11, 25),
            (0x12, 10),
        ],
        call_ensures(strip_header, (frame,), body) ==> {
            let f = frame@;
            let n = (f[0] % 64) as int;
            &&& body is Ok <==> f.len() >= 4
            &&& body is Ok && n > 0 && 3 + n <= f.len() ==> body->Ok_0@ == f.subrange(3, 3 + n)
            &&& body is Ok && n > 0 && 3 + n > f.len() ==> body->Ok_0@ =~= f.skip(3)
            &&& body is Ok && n == 0 && 4 + f[3] <= f.len() ==> body->Ok_0@ == f.subrange(
                4,
                4 + f[3],
            )
            &&& body is Ok && n == 0 && 4 + f[3] > f.len() ==> body->Ok_0@ =~= f.skip(4)
        },
        call_ensures(KLineEcu::with_tester, (ecu, tester), other) ==> {
            &&& other@.tester == tester
            &&& other@.ecu == ecu@.ecu && other@.chan == ecu@.chan
        },
        call_ensures(KLineEcu::ecu, (&ecu,), at) ==> at == ecu@.ecu,
        forall|dev: &mut Device<T>| #[trigger]
            call_ensures(KLineEcu::release::<T>, (ecu, dev), ()) ==> (*final(dev))@
                == (*dev)@.on_disconnect(ecu@.chan.raw.proto).1,
{
    lemma_kline_service(frame@);
}

/// Each request that an actor is handed is carried out as what it is, and
/// answered in kind.
pub proof fn lemma_actor_handles<T: Transport>(
    inner: Vec<u8>,
    timeout: Duration,
    p: ProtocolId,
    flags: u32,
    baud: u32,
    r: Response,
)
    ensures
        forall|a: &mut Actor<T>| #[trigger]
            call_ensures(Actor::<T>::handle, (a, Request::Transact { inner, timeout }), r) ==> {
                &&& r is Bytes
                &&& (seen(r->Bytes_0), (*final(a))@) == (*a)@.on_transact(inner@, timeout)
            },
        forall|a: &mut Actor<T>| #[trigger]
            call_ensures(Actor::<T>::handle, (a, Request::Connect { proto: p, flags, baud }), r)
                ==> {
                &&& r is Done
                &&& (r->Done_0, (*final(a))@) == (*a)@.on_connect(p, flags, baud)
            },
        forall|a: &mut Actor<T>| #[trigger]
            call_ensures(Actor::<T>::handle, (a, Request::Disconnect { proto: p }), r) ==> {
                &&& r is Done
                &&& (r->Done_0, (*final(a))@) == (*a)@.on_disconnect(p)
            },
        forall|a: &mut Actor<T>| #[trigger]
            call_ensures(Actor::<T>::handle, (a, Request::Poll { proto: p, timeout }), r) ==> {
                &&& r is Msg
                &&& (seen_msg(r->Msg_0), (*final(a))@) == (*a)@.on_poll(p, timeout)
            },
{
}

/// The steps of a session, as its calls take them.
pub proof fn lemma_session_steps<T: Transport>(
    inner: &[u8],
    cmd: Cmd,
    timeout: Duration,
    reply: Result<Vec<u8>, Error>,
    done: Result<(), Error>,
    link: Result<KeyedLink, Error>,
    t: Instant,
)
    ensures
        forall|dev: &mut Device<T>| #[trigger]
            call_ensures(Device::<T>::transact, (dev, inner, timeout), reply) ==> (
                seen(reply),
                (*final(dev))@,
            ) == (*dev)@.on_transact(inner@, timeout),
        forall|dev: &mut Device<T>| #[trigger]
            call_ensures(Device::<T>::transact_status, (dev, inner, cmd, timeout), done) ==> (
                done,
                (*final(dev))@,
            ) == (*dev)@.on_status(inner@, cmd, timeout),
        forall|dev: &mut Device<T>| #[trigger]
            call_ensures(Device::<T>::now, (dev,), t) ==> t == (*dev)@.world.reply(Req::Now).at
                && (*final(dev))@ == (*dev)@.in_world((*dev)@.world.after(Req::Now)),
        forall|dev: &mut Device<T>| #[trigger]
            call_ensures(Device::<T>::sleep, (dev, timeout), ()) ==> (*final(dev))@
                == (*dev)@.in_world((*dev)@.world.after(Req::Sleep(timeout))),
        forall|io: &mut T| #[trigger]
            call_ensures(read_frame::<T>, (io, timeout), reply) ==> (
                seen(reply),
                (*final(io)).world(),
            ) == frame_read((*io).world(), timeout),
        forall|io: &mut T| #[trigger]
            call_ensures(KeyedLink::establish::<T>, (io,), link) ==> (
                seen(link),
                (*final(io)).world(),
            ) == handshake((*io).world()),
        forall|io: &mut T| #[trigger]
            call_ensures(open_link::<T>, (io,), link) ==> (seen(link), (*final(io)).world())
                == opening((*io).world()),
{
}

/// The port that is opened: the one that is named, or the one of the environment,
/// or the first USB one.
pub proof fn lemma_port(explicit: Option<&str>, env: Option<String>, port: String)
    ensures
        call_ensures(resolve_port, (explicit, env), port) ==> {
            &&& explicit is Some ==> port@ == explicit->0@
            &&& explicit is None && env is Some ==> port@ == env->0@
            &&& explicit is None && env is None ==> port@ == "/dev/ttyUSB0"@
        },
{
}

/// A filter for one identifier has a mask of all ones; its parts are changed one
/// by one.
pub proof fn lemma_filters_made(
    id: CanId,
    other: CanId,
    mask: u32,
    addr: u8,
    c: CanFilter,
    f: FlowControlFilter,
    g: FlowControlFilter,
    long: bool,
    raw: RawChannel,
    p: ProtocolId,
    n: usize,
)
    ensures
        call_ensures(CanFilter::exact, (id,), c) ==> c.mask == 0xffff_ffff && c.pattern == id,
        call_ensures(FlowControlFilter::exact, (id, other), f) ==> {
            &&& f.rx == id && f.tx == other && f.mask == 0xffff_ffff
            &&& f.ext_addr is None
        },
        call_ensures(FlowControlFilter::with_mask, (f, mask), g) ==> {
            &&& g.mask == mask
            &&& g.rx == f.rx && g.tx == f.tx && g.ext_addr == f.ext_addr
        },
        call_ensures(FlowControlFilter::with_ext_addr, (f, addr), g) ==> {
            &&& g.ext_addr == Some(addr)
            &&& g.rx == f.rx && g.tx == f.tx && g.mask == f.mask
        },
        call_ensures(FlowControlFilter::rx, (&f,), id) ==> id == f.rx,
        call_ensures(FlowControlFilter::tx, (&f,), id) ==> id == f.tx,
        call_ensures(CanId::is_ext, (id,), long) ==> long == (id is Ext),
        call_ensures(RawChannel::proto, (&raw,), p) ==> p == raw@.proto,
        call_ensures(RawChannel::filters_installed, (&raw,), n) ==> n == raw@.nfilters,
{
}

/// An error of a lower layer becomes the driver's error of that layer.
pub proof fn lemma_errors_lifted(
    t: Result<u8, TransportError>,
    c: Result<u8, CodecError>,
    i: Result<u8, IsoTpError>,
    r: Result<u8, Error>,
)
    ensures
        call_ensures(transport::<u8>, (t,), r) ==> {
            &&& t is Ok ==> r == Ok::<u8, Error>(t->Ok_0)
            &&& t is Err ==> r == Err::<u8, Error>(Error::Transport(t->Err_0))
        },
        call_ensures(codec::<u8>, (c,), r) ==> {
            &&& c is Ok ==> r == Ok::<u8, Error>(c->Ok_0)
            &&& c is Err ==> r == Err::<u8, Error>(Error::Codec(c->Err_0))
        },
        call_ensures(isotp::<u8>, (i,), r) ==> {
            &&& i is Ok ==> r == Ok::<u8, Error>(i->Ok_0)
            &&& i is Err ==> r == Err::<u8, Error>(Error::IsoTp(i->Err_0))
        },
{
}

} // verus!
