//! Byte transports. The trait carries only the primitives; the DTR/RTS reset
//! dance and all protocol timing live in the session layer, so a mock can
//! assert the exact sequence.

pub mod ftdi;
pub mod mock;

pub use mock::MockTransport;

use vstd::prelude::*;

use crate::error::{Error, TransportError};
use crate::time::{Duration, Instant};

verus! {

/// Outcome of the best-effort FTDI latency-timer fix. The FT232R holds
/// replies under 64 bytes for the full latency interval, and the kernel
/// default is 16 ms: on a strict request/response protocol that is a 16 ms
/// tax on every exchange.
#[derive(Debug, PartialEq, Eq)]
pub enum LatencyResult {
    /// Timer written successfully.
    Lowered { millis: u8 },
    /// Timer was already at or below the target.
    AlreadyLow { millis: u8 },
    /// Attempt failed (usually EACCES on the sysfs node; needs a udev rule).
    Failed { reason: String },
    /// This transport has no latency-timer concept.
    Unavailable,
}

/// One thing asked of the outside world.
pub enum Req {
    Write(Seq<u8>),
    /// Up to `max` bytes, waiting up to `timeout` for the first.
    Read { max: nat, timeout: Duration },
    Purge,
    Modem { dtr: bool, rts: bool },
    Latency,
    Sleep(Duration),
    Now,
}

/// What the outside world answers.
pub struct Reply {
    /// The error that a failing request ends in.
    pub fail: Option<TransportError>,
    /// What a read finds, of which it takes what it has room for.
    pub bytes: Seq<u8>,
    /// What a clock reading says.
    pub at: Instant,
    /// What became of the latency timer.
    pub latency: LatencyResult,
}

/// The outside world as a session sees it: what it was asked so far, and how
/// it answers whatever it is asked next.
pub struct World {
    pub hist: Seq<Req>,
    pub react: spec_fn(Seq<Req>) -> Reply,
}

impl World {
    /// The world once it has been asked `req`.
    pub open spec fn after(self, req: Req) -> World {
        World { hist: self.hist.push(req), ..self }
    }

    /// The world's answer to `req`.
    pub open spec fn reply(self, req: Req) -> Reply {
        (self.react)(self.hist.push(req))
    }

    /// How a request that yields nothing ends.
    pub open spec fn outcome(self, req: Req) -> Result<(), TransportError> {
        match self.reply(req).fail {
            Some(e) => Err(e),
            None => Ok(()),
        }
    }

    /// The bytes a read of up to `max` bytes yields.
    pub open spec fn received(self, max: nat, timeout: Duration) -> Result<Seq<u8>, TransportError> {
        let reply = self.reply(Req::Read { max, timeout });
        match reply.fail {
            Some(e) => Err(e),
            None => Ok(
                if reply.bytes.len() <= max {
                    reply.bytes
                } else {
                    reply.bytes.take(max as int)
                },
            ),
        }
    }

    /// A request that yields nothing, as a step of a session.
    pub open spec fn ask(self, req: Req) -> (Result<(), Error>, World) {
        let r = match self.outcome(req) {
            Ok(()) => Ok(()),
            Err(e) => Err(Error::Transport(e)),
        };
        (r, self.after(req))
    }

    /// A sleep, as a step of a session: it cannot fail.
    pub open spec fn slept(self, d: Duration) -> World {
        self.after(Req::Sleep(d))
    }

    /// A clock reading, as a step of a session.
    pub open spec fn clock(self) -> (Instant, World) {
        (self.reply(Req::Now).at, self.after(Req::Now))
    }
}

/// A series of requests, of which each is made only if all before it
/// succeeded.
pub struct Run {
    pub outcome: Result<(), Error>,
    pub world: World,
}

impl Run {
    pub open spec fn start(world: World) -> Run {
        Run { outcome: Ok(()), world }
    }

    /// The series with one more request.
    pub open spec fn ask(self, req: Req) -> Run {
        match self.outcome {
            Ok(()) => {
                let (outcome, world) = self.world.ask(req);
                Run { outcome, world }
            },
            Err(_) => self,
        }
    }

    /// The series with one more request, whose outcome does not matter.
    pub open spec fn attempt(self, req: Req) -> Run {
        match self.outcome {
            Ok(()) => Run { world: self.world.after(req), ..self },
            Err(_) => self,
        }
    }
}

/// Time, injectable so mock tests don't spend real time in the handshake's
/// 15 ms / 110 ms / 1000 ms delays.
pub trait Clock {
    /// The world as asked so far; an implementor that states nothing of itself
    /// leaves it open.
    open spec fn world(&self) -> World {
        arbitrary()
    }

    fn sleep(&mut self, d: Duration)
        ensures
            final(self).world() == old(self).world().after(Req::Sleep(d)),
    ;

    fn now(&mut self) -> (t: Instant)
        ensures
            final(self).world() == old(self).world().after(Req::Now),
            t == old(self).world().reply(Req::Now).at,
    ;
}

pub trait Transport: Clock {
    fn write_all(&mut self, buf: &[u8]) -> (r: Result<(), TransportError>)
        ensures
            final(self).world() == old(self).world().after(Req::Write(buf@)),
            r == old(self).world().outcome(Req::Write(buf@)),
    ;

    /// Read up to `buf.len()` bytes, blocking up to `timeout` for the first
    /// byte. `Ok(0)` means the timeout expired with nothing available; the
    /// caller treats that as the full wait having elapsed.
    fn read(&mut self, buf: &mut [u8], timeout: Duration) -> (r: Result<usize, TransportError>)
        ensures
            final(self).world() == old(self).world().after(
                Req::Read { max: old(buf)@.len(), timeout },
            ),
            final(buf)@.len() == old(buf)@.len(),
            match old(self).world().received(old(buf)@.len(), timeout) {
                Ok(bytes) => {
                    &&& r == Ok::<usize, TransportError>(bytes.len() as usize)
                    &&& final(buf)@.take(bytes.len() as int) == bytes
                },
                Err(e) => r == Err::<usize, TransportError>(e),
            },
    ;

    fn purge_rx(&mut self) -> (r: Result<(), TransportError>)
        ensures
            final(self).world() == old(self).world().after(Req::Purge),
            r == old(self).world().outcome(Req::Purge),
    ;

    /// Set both modem lines at once (used only by the open reset dance).
    fn set_modem(&mut self, dtr: bool, rts: bool) -> (r: Result<(), TransportError>)
        ensures
            final(self).world() == old(self).world().after(Req::Modem { dtr, rts }),
            r == old(self).world().outcome(Req::Modem { dtr, rts }),
    ;

    fn optimize_latency(&mut self) -> (r: LatencyResult)
        ensures
            final(self).world() == old(self).world().after(Req::Latency),
            r == old(self).world().reply(Req::Latency).latency,
    ;
}

} // verus!
