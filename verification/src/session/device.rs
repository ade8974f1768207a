//! `Device`: the handle a session is driven through.

use vstd::prelude::*;

use crate::codec::inner::{
    read_version, read_version_cmd, set_programming_voltage, set_programming_voltage_cmd,
};
use crate::error::{seen, CodecError, Error};
use crate::session::actor::{
    check_status, open_link, opening, seen_msg, verdict, Actor, Session,
};
use crate::time::{millis, Duration, Instant};
use crate::transport::{Req, Transport};
use crate::types::{Cmd, ProtocolId, RxMsg};

verus! {

pub struct DeviceConfig {
    /// Serial port path; `None` falls back to `$MVCI_PORT`, then
    /// `/dev/ttyUSB0`.
    pub port: Option<String>,
    /// How long the wire may sit idle before the adapter is polled. Every real
    /// transaction postpones it. Off by default: a session survives at least
    /// five minutes of silence, so the poll only serves liveness detection and
    /// background RX draining.
    pub keepalive: Option<Duration>,
}

impl Default for DeviceConfig {
    fn default() -> (r: DeviceConfig)
        ensures
            r.port is None,
            r.keepalive is None,
    {
        DeviceConfig { port: None, keepalive: None }
    }
}

/// The serial port to open: an explicit choice comes first, then what
/// `$MVCI_PORT` says, then `/dev/ttyUSB0`.
pub fn resolve_port(explicit: Option<&str>, env: Option<String>) -> (r: String)
    ensures
        r@ == match (explicit, env) {
            (Some(p), _) => p@,
            (None, Some(p)) => p@,
            (None, None) => "/dev/ttyUSB0"@,
        },
{
    match explicit {
        Some(p) => p.to_owned(),
        None => match env {
            Some(p) => p,
            None => "/dev/ttyUSB0".to_owned(),
        },
    }
}

/// The text that bytes spell, each malformed part replaced by U+FFFD.
pub uninterp spec fn utf8_lossy(bytes: Seq<u8>) -> Seq<char>;

/// `String::from_utf8_lossy`: the text of the bytes as UTF-8, malformed parts
/// replaced. Bytes that are all ASCII spell themselves.
#[verifier::external_body]
fn lossy_text(bytes: &[u8]) -> (s: String)
    ensures
        s@ == utf8_lossy(bytes@),
        (forall|i: int| 0 <= i < bytes@.len() ==> bytes@[i] < 128) ==> s@ == bytes@.map_values(
            |b: u8| b as char,
        ),
{
    String::from_utf8_lossy(bytes).into_owned()
}

/// The bytes before the first zero.
pub open spec fn until_zero(s: Seq<u8>) -> Seq<u8>
    decreases s.len(),
{
    if s.len() == 0 || s[0] == 0 {
        Seq::empty()
    } else {
        seq![s[0]] + until_zero(s.skip(1))
    }
}

/// The identity string of a version reply.
pub open spec fn version_in(resp: Seq<u8>) -> Result<Seq<char>, Error> {
    if resp.len() < 3 || resp[2] != Cmd::ReadVersion.op() {
        Err(Error::Codec(CodecError::MalformedReply("not a version reply")))
    } else {
        Ok(utf8_lossy(until_zero(resp.skip(3))))
    }
}

/// The identity string of a version reply.
pub fn parse_version(resp: &[u8]) -> (r: Result<String, Error>)
    ensures
        seen(r) == version_in(resp@),
        r is Ok && (forall|i: int| 0 <= i < resp@.len() ==> resp@[i] < 128) ==> r->Ok_0@
            == until_zero(resp@.skip(3)).map_values(|b: u8| b as char),
{
    if resp.len() < 3 || resp[2] != Cmd::ReadVersion.code() {
        return Err(Error::Codec(CodecError::MalformedReply("not a version reply")));
    }
    let mut end: usize = 3;
    assert(resp@.subrange(3, 3) + until_zero(resp@.skip(3)) =~= until_zero(resp@.skip(3)));
    while end < resp.len() && resp[end] != 0
        invariant
            3 <= end <= resp.len(),
            resp@.subrange(3, end as int) + until_zero(resp@.skip(end as int)) == until_zero(
                resp@.skip(3),
            ),
        decreases resp.len() - end,
    {
        assert(resp@.skip(end as int).skip(1) =~= resp@.skip(end + 1));
        assert(resp@.subrange(3, end + 1) + until_zero(resp@.skip(end + 1)) =~= resp@.subrange(
            3,
            end as int,
        ) + until_zero(resp@.skip(end as int)));
        end = end + 1;
    }
    assert(resp@.subrange(3, end as int) =~= until_zero(resp@.skip(3)));
    Ok(lossy_text(&resp[3..end]))
}

impl Session {
    /// The firmware's identity string.
    pub open spec fn firmware_version(self) -> (Result<Seq<char>, Error>, Session) {
        match self.on_transact(read_version_cmd(), millis(1000)) {
            (Err(e), s) => (Err(e), s),
            (Ok(resp), s) => (version_in(resp), s),
        }
    }

    /// A command whose reply is a status, unless the adapter is wedged.
    pub open spec fn on_status(self, inner: Seq<u8>, cmd: Cmd, timeout: Duration) -> (
        Result<(), Error>,
        Session,
    ) {
        match self.on_transact(inner, timeout) {
            (Err(e), s) => (Err(e), s),
            (Ok(resp), s) => (verdict(resp, cmd), s),
        }
    }
}

/// What a device is opened with and keeps throughout.
pub struct Setup {
    /// The key the opening handshake gave.
    pub key: Seq<u8>,
    /// The idle-poll interval.
    pub interval: Option<Duration>,
}

/// A session with the adapter.
pub struct Device<T: Transport> {
    actor: Actor<T>,
    key: [u8; 8],
    keepalive: Option<Duration>,
}

impl<T: Transport> View for Device<T> {
    type V = Session;

    closed spec fn view(&self) -> Session {
        self.actor@
    }
}

impl<T: Transport> Device<T> {
    /// The key the opening handshake gave.
    pub closed spec fn opening_key(&self) -> Seq<u8> {
        self.key@
    }

    /// The idle-poll interval.
    pub closed spec fn interval(&self) -> Option<Duration> {
        self.keepalive
    }

    /// Open over a transport: reset the adapter and handshake.
    pub fn open_transport(mut io: T, cfg: DeviceConfig) -> (r: Result<Device<T>, Error>)
        ensures
            match opening(io.world()) {
                (Ok(key), w) => {
                    &&& r matches Ok(dev)
                    &&& dev@ == Session::fresh(w.after(Req::Now), key, w.reply(Req::Now).at)
                    &&& dev@.valid()
                    &&& dev.opening_key() == key
                    &&& dev.interval() == cfg.keepalive
                },
                (Err(e), _) => r == Err::<Device<T>, Error>(e),
            },
    {
        let link = open_link(&mut io)?;
        let key: [u8; 8] = *link.key();
        Ok(Device { actor: Actor::new(io, link), key, keepalive: cfg.keepalive })
    }

    /// Close the session and give the port up: every channel is disconnected,
    /// then the encrypted session is closed.
    pub fn close(self) -> (io: T)
        ensures
            io.world() == self@.teardown().world,
    {
        let mut actor = self.actor;
        actor.teardown();
        actor.into_transport()
    }

    /// The transport underneath.
    pub fn transport(&self) -> (io: &T)
        ensures
            io.world() == self@.world,
    {
        self.actor.transport()
    }

    /// The DES session key from the opening handshake (diagnostics only; a
    /// connect-retry re-handshake may have replaced it since).
    pub fn des_key(&self) -> (r: [u8; 8])
        ensures
            r@ == self.opening_key(),
    {
        self.key
    }

    /// How long to wait for the next request before an idle poll is due;
    /// `None` where no idle poll is configured.
    pub fn idle_wait(&mut self) -> (r: Option<Duration>)
        ensures
            match old(self).interval() {
                None => r is None && *final(self) == *old(self),
                Some(interval) => {
                    let (now, w) = old(self)@.world.clock();
                    &&& final(self)@ == old(self)@.in_world(w)
                    &&& r == Some(now.spec_until(old(self)@.last_wire.spec_plus(interval)))
                    &&& final(self).interval() == old(self).interval()
                    &&& final(self).opening_key() == old(self).opening_key()
                },
            },
    {
        match self.keepalive {
            None => None,
            Some(interval) => Some(self.actor.idle_wait(interval)),
        }
    }

    /// Poll the idle adapter once.
    pub fn idle_poll(&mut self)
        requires
            old(self)@.valid(),
        ensures
            final(self)@ == old(self)@.idle_poll(),
            final(self)@.valid(),
            final(self).kept(old(self)),
    {
        self.actor.idle_poll()
    }

    /// Everything about the device that no request changes.
    pub open spec fn setup(&self) -> Setup {
        Setup { key: self.opening_key(), interval: self.interval() }
    }

    /// Whether that is what it was.
    pub open spec fn kept(&self, before: &Device<T>) -> bool {
        self.setup() == before.setup()
    }

    /// CMD 0x03: the firmware identity string, `"J2534 MINIV1.03"` on the
    /// stock cable.
    pub fn firmware_version(&mut self) -> (r: Result<String, Error>)
        requires
            old(self)@.valid(),
        ensures
            (seen(r), final(self)@) == old(self)@.firmware_version(),
            final(self)@.valid(),
            final(self).kept(old(self)),
    {
        let resp = self.transact(read_version().as_slice(), Duration::from_millis(1000))?;
        parse_version(resp.as_slice())
    }

    /// SET_PROGRAMMING_VOLTAGE: device-scoped, so no channel is needed.
    pub fn set_programming_voltage(&mut self, pin: u32, millivolts: u32) -> (r: Result<(), Error>)
        requires
            old(self)@.valid(),
        ensures
            (r, final(self)@) == old(self)@.on_status(
                set_programming_voltage_cmd(pin, millivolts),
                Cmd::SetProgrammingVoltage,
                millis(2000),
            ),
            final(self)@.valid(),
            final(self).kept(old(self)),
    {
        let cmd = set_programming_voltage(pin, millivolts);
        self.transact_status(
            cmd.as_slice(),
            Cmd::SetProgrammingVoltage,
            Duration::from_millis(2000),
        )
    }

    /// Send an inner command and return the decrypted reply inner.
    pub fn transact(&mut self, inner: &[u8], timeout: Duration) -> (r: Result<Vec<u8>, Error>)
        requires
            old(self)@.valid(),
        ensures
            (seen(r), final(self)@) == old(self)@.on_transact(inner@, timeout),
            final(self)@.valid(),
            final(self).kept(old(self)),
    {
        self.actor.on_transact(inner, timeout)
    }

    /// Send an inner command whose reply is a status.
    pub fn transact_status(&mut self, inner: &[u8], cmd: Cmd, timeout: Duration) -> (r: Result<
        (),
        Error,
    >)
        requires
            old(self)@.valid(),
        ensures
            (r, final(self)@) == old(self)@.on_status(inner@, cmd, timeout),
            final(self)@.valid(),
            final(self).kept(old(self)),
    {
        let resp = self.transact(inner, timeout)?;
        check_status(resp.as_slice(), cmd)
    }

    pub fn connect_proto(&mut self, proto: ProtocolId, flags: u32, baud: u32) -> (r: Result<
        (),
        Error,
    >)
        requires
            old(self)@.valid(),
        ensures
            (r, final(self)@) == old(self)@.on_connect(proto, flags, baud),
            final(self)@.valid(),
            final(self).kept(old(self)),
    {
        self.actor.on_connect(proto, flags, baud)
    }

    pub fn disconnect_proto(&mut self, proto: ProtocolId) -> (r: Result<(), Error>)
        requires
            old(self)@.valid(),
        ensures
            (r, final(self)@) == old(self)@.on_disconnect(proto),
            final(self)@.valid(),
            final(self).kept(old(self)),
    {
        self.actor.on_disconnect(proto)
    }

    pub fn poll_proto(&mut self, proto: ProtocolId, timeout: Duration) -> (r: Result<
        Option<RxMsg>,
        Error,
    >)
        requires
            old(self)@.valid(),
        ensures
            (seen_msg(r), final(self)@) == old(self)@.on_poll(proto, timeout),
            final(self)@.valid(),
            final(self).kept(old(self)),
    {
        self.actor.on_poll(proto, timeout)
    }

    /// Read the clock.
    pub fn now(&mut self) -> (t: Instant)
        ensures
            final(self)@ == old(self)@.in_world(old(self)@.world.clock().1),
            t == old(self)@.world.clock().0,
            final(self).kept(old(self)),
    {
        self.actor.now()
    }

    pub fn sleep(&mut self, d: Duration)
        ensures
            final(self)@ == old(self)@.in_world(old(self)@.world.slept(d)),
            final(self).kept(old(self)),
    {
        self.actor.sleep(d)
    }
}

} // verus!
