//! `Channel<P>`: the typed channel API. Each protocol exposes only the
//! filter shape and message form it actually supports; everything lowers to
//! the single `RawChannel` implementation.

use std::marker::PhantomData;

use vstd::prelude::*;

use crate::bytes::{copy_all, push_all};
use crate::codec::inner::{
    clear_periodic_cmd, fast_init_cmd, five_baud_init_cmd, set_config_cmd,
};
use crate::error::{seen, Error};
use crate::session::actor::{seen_msg, Session};
use crate::session::device::Device;
use crate::session::protocol::{
    CanFramed, CanId, ChannelConfig, FilterFields, FilterSpec, KLine, Protocol,
};
use crate::session::raw::{ChannelState, RawChannel};
use crate::time::{millis, Duration};
use crate::transport::Transport;
use crate::types::{Cmd, ProtocolId, RxMsg, TxFlags, TX_CAN_29BIT_ID};

verus! {

/// The first filter id a channel hands out.
pub const FIRST_FILTER_ID: u32 = 0x000e_7a00;

/// A typed channel as its owner keeps it.
pub struct TypedState {
    pub raw: ChannelState,
    /// Wire id of the currently-installed filter, if any.
    pub current: Option<u32>,
    /// The id the next filter will get.
    pub next_id: u32,
}

/// The filter id after `id`.
pub open spec fn following(id: u32) -> u32 {
    if id == u32::MAX {
        0
    } else {
        (id + 1) as u32
    }
}

impl TypedState {
    pub open spec fn fresh(proto: ProtocolId) -> TypedState {
        TypedState {
            raw: ChannelState { proto, nfilters: 0 },
            current: None,
            next_id: FIRST_FILTER_ID,
        }
    }

    /// The previous filter, if any, retired on the adapter: whether that
    /// worked does not matter, since the next filter overwrites it.
    pub open spec fn retire(self, s: Session) -> (TypedState, Session) {
        match self.current {
            None => (self, s),
            Some(old) => {
                let (r, s1) = s.stop_filter(self.raw.proto, old);
                let raw = if r is Ok {
                    self.raw.one_fewer()
                } else {
                    self.raw
                };
                (TypedState { raw, current: None, ..self }, s1)
            },
        }
    }

    /// A filter installed in place of the previous one.
    pub open spec fn set_filter(self, s: Session, f: FilterFields) -> (
        Result<(), Error>,
        TypedState,
        Session,
    ) {
        let (c1, s1) = self.retire(s);
        let id = c1.next_id;
        let c2 = TypedState { next_id: following(id), ..c1 };
        let (r, s2) = s1.start_filter(
            c2.raw.proto,
            id,
            f.ftype.id(),
            f.mask,
            f.pattern,
            f.flow,
            f.idlen,
        );
        match r {
            Ok(()) => (
                Ok(()),
                TypedState { raw: c2.raw.one_more(), current: Some(id), ..c2 },
                s2,
            ),
            Err(e) => (Err(e), c2, s2),
        }
    }

    /// The filter, if any, taken off.
    pub open spec fn clear_filter(self, s: Session) -> (Result<(), Error>, TypedState, Session) {
        match self.current {
            None => (Ok(()), self, s),
            Some(old) => {
                let (c1, s1) = self.retire(s);
                (s.stop_filter(self.raw.proto, old).0, c1, s1)
            },
        }
    }
}

/// The TxFlags for a message to `id`.
pub open spec fn flags_for(id: CanId, flags: TxFlags) -> u32 {
    if id is Ext {
        flags.word | TX_CAN_29BIT_ID
    } else {
        flags.word
    }
}

impl Session {
    /// A CAN-framed message: the identifier, then the payload.
    pub open spec fn send_flags(
        self,
        proto: ProtocolId,
        id: CanId,
        payload: Seq<u8>,
        flags: TxFlags,
    ) -> (Result<(), Error>, Session) {
        self.write(proto, flags_for(id, flags), id.bytes() + payload)
    }
}

pub struct Channel<P: Protocol> {
    raw: RawChannel,
    current_filter: Option<u32>,
    next_filter_id: u32,
    _p: PhantomData<P>,
}

impl<P: Protocol> View for Channel<P> {
    type V = TypedState;

    closed spec fn view(&self) -> TypedState {
        TypedState {
            raw: self.raw@,
            current: self.current_filter,
            next_id: self.next_filter_id,
        }
    }
}

impl<P: Protocol> Channel<P> {
    /// The typed view of a raw channel of the same protocol.
    pub fn new(raw: RawChannel) -> (c: Channel<P>)
        requires
            raw@.proto == P::spec_id(),
        ensures
            c@ == (TypedState { raw: raw@, current: None, next_id: FIRST_FILTER_ID }),
    {
        Channel { raw, current_filter: None, next_filter_id: FIRST_FILTER_ID, _p: PhantomData }
    }

    /// Install the channel's filter, replacing any previous one: *set*,
    /// singular, because that is what the hardware does. The firmware keeps
    /// one live acceptance-filter range per identifier width, and every
    /// StartMsgFilter rewrites it. An API that pretended to accumulate
    /// filters would lie about what is actually live.
    pub fn set_filter<T: Transport>(&mut self, dev: &mut Device<T>, filter: P::Filter) -> (r:
        Result<(), Error>)
        requires
            old(dev)@.valid(),
        ensures
            (r, final(self)@, final(dev)@) == old(self)@.set_filter(old(dev)@, filter.fields()),
            final(dev)@.valid(),
            final(dev).kept(old(dev)),
    {
        let enc = filter.encode();
        if let Some(old_id) = self.current_filter {
            self.current_filter = None;
            // Retiring the old descriptor is bookkeeping (the new filter
            // overwrites the hardware entry either way), so a failure here
            // must not stop the install.
            let _ = self.raw.stop_filter(dev, old_id);
        }
        let id: u32 = self.next_filter_id;
        self.next_filter_id = id.wrapping_add(1);
        let flow = match &enc.flow {
            Some(f) => Some(f.as_slice()),
            None => None,
        };
        self.raw.start_filter(
            dev,
            id,
            enc.ftype.wire(),
            enc.mask.as_slice(),
            enc.pattern.as_slice(),
            flow,
            enc.idlen,
        )?;
        self.current_filter = Some(id);
        Ok(())
    }

    pub fn clear_filter<T: Transport>(&mut self, dev: &mut Device<T>) -> (r: Result<(), Error>)
        requires
            old(dev)@.valid(),
        ensures
            (r, final(self)@, final(dev)@) == old(self)@.clear_filter(old(dev)@),
            final(dev)@.valid(),
            final(dev).kept(old(dev)),
    {
        if let Some(old_id) = self.current_filter {
            self.current_filter = None;
            self.raw.stop_filter(dev, old_id)?;
        }
        Ok(())
    }

    /// One READ_MSG poll; `Ok(None)` when nothing is queued.
    pub fn poll<T: Transport>(&mut self, dev: &mut Device<T>, timeout: Duration) -> (r: Result<
        Option<RxMsg>,
        Error,
    >)
        requires
            old(dev)@.valid(),
        ensures
            (seen_msg(r), final(dev)@) == old(dev)@.on_poll(old(self)@.raw.proto, timeout),
            final(dev)@.valid(),
            final(dev).kept(old(dev)),
            final(self)@ == old(self)@,
    {
        self.raw.poll(dev, timeout)
    }

    /// Wait for a data message (echoes/indications skipped).
    pub fn read<T: Transport>(&mut self, dev: &mut Device<T>, timeout: Duration) -> (r: Result<
        RxMsg,
        Error,
    >)
        requires
            old(dev)@.valid(),
        ensures
            (seen(r), final(dev)@) == old(dev)@.read(old(self)@.raw, timeout),
            final(dev)@.valid(),
            final(dev).kept(old(dev)),
            final(self)@ == old(self)@,
    {
        self.raw.read(dev, timeout)
    }

    pub fn set_config<T: Transport>(&mut self, dev: &mut Device<T>, param: u32, value: u32) -> (r:
        Result<(), Error>)
        requires
            old(dev)@.valid(),
        ensures
            (r, final(dev)@) == old(dev)@.on_status(
                set_config_cmd(old(self)@.raw.proto, param, value),
                Cmd::Ioctl,
                millis(2000),
            ),
            final(dev)@.valid(),
            final(dev).kept(old(dev)),
            final(self)@ == old(self)@,
    {
        self.raw.set_config(dev, param, value)
    }

    /// Escape hatch to the dynamically-typed layer.
    pub fn raw(&mut self) -> (r: &mut RawChannel)
        ensures
            r@ == old(self)@.raw,
            final(self)@ == (TypedState { raw: final(r)@, ..old(self)@ }),
    {
        &mut self.raw
    }

    /// Disconnect, best effort. The session itself stays up.
    pub fn disconnect<T: Transport>(self, dev: &mut Device<T>) -> (r: Result<(), Error>)
        requires
            old(dev)@.valid(),
        ensures
            r == Ok::<(), Error>(()),
            final(dev)@ == old(dev)@.on_disconnect(self@.raw.proto).1,
            final(dev)@.valid(),
            final(dev).kept(old(dev)),
    {
        self.raw.release(dev);
        Ok(())
    }
}

impl<P: KLine> Channel<P> {
    /// Send raw K-line message bytes (header + payload). Works for both
    /// ISO14230 and ISO9141: they share the firmware's K-line path.
    pub fn write<T: Transport>(&mut self, dev: &mut Device<T>, msg: &[u8]) -> (r: Result<
        (),
        Error,
    >)
        requires
            old(dev)@.valid(),
        ensures
            (r, final(dev)@) == old(dev)@.write(old(self)@.raw.proto, 0, msg@),
            final(dev)@.valid(),
            final(dev).kept(old(dev)),
            final(self)@ == old(self)@,
    {
        self.raw.write(dev, 0, msg)
    }

    /// FAST_INIT wake-up; returns the ECU key bytes.
    pub fn fast_init<T: Transport>(&mut self, dev: &mut Device<T>, init: &[u8]) -> (r: Result<
        Vec<u8>,
        Error,
    >)
        requires
            old(dev)@.valid(),
        ensures
            (seen(r), final(dev)@) == old(dev)@.kline_init(
                fast_init_cmd(old(self)@.raw.proto, init@),
            ),
            final(dev)@.valid(),
            final(dev).kept(old(dev)),
            final(self)@ == old(self)@,
    {
        self.raw.fast_init(dev, init)
    }

    /// FIVE_BAUD_INIT (slow init); returns the ECU key bytes. The usual init
    /// for ISO9141 and older KWP2000 sessions.
    pub fn five_baud_init<T: Transport>(&mut self, dev: &mut Device<T>, init: &[u8]) -> (r: Result<
        Vec<u8>,
        Error,
    >)
        requires
            old(dev)@.valid(),
        ensures
            (seen(r), final(dev)@) == old(dev)@.kline_init(
                five_baud_init_cmd(old(self)@.raw.proto, init@),
            ),
            final(dev)@.valid(),
            final(dev).kept(old(dev)),
            final(self)@ == old(self)@,
    {
        self.raw.five_baud_init(dev, init)
    }

    pub fn clear_periodic<T: Transport>(&mut self, dev: &mut Device<T>) -> (r: Result<(), Error>)
        requires
            old(dev)@.valid(),
        ensures
            (r, final(dev)@) == old(dev)@.on_status(
                clear_periodic_cmd(old(self)@.raw.proto),
                Cmd::Ioctl,
                millis(1000),
            ),
            final(dev)@.valid(),
            final(dev).kept(old(dev)),
            final(self)@ == old(self)@,
    {
        self.raw.clear_periodic(dev)
    }
}

impl<P: CanFramed> Channel<P> {
    /// Send one message to `id` (a raw CAN frame on protocol 5, a full
    /// ISO-TP payload on protocol 6). The 29-bit TxFlag is derived from the
    /// identifier.
    pub fn send<T: Transport>(&mut self, dev: &mut Device<T>, id: CanId, payload: &[u8]) -> (r:
        Result<(), Error>)
        requires
            old(dev)@.valid(),
        ensures
            (r, final(dev)@) == old(dev)@.send_flags(
                old(self)@.raw.proto,
                id,
                payload@,
                TxFlags { word: 0 },
            ),
            final(dev)@.valid(),
            final(dev).kept(old(dev)),
            final(self)@ == old(self)@,
    {
        self.send_flags(dev, id, payload, TxFlags::default())
    }

    pub fn send_flags<T: Transport>(
        &mut self,
        dev: &mut Device<T>,
        id: CanId,
        payload: &[u8],
        flags: TxFlags,
    ) -> (r: Result<(), Error>)
        requires
            old(dev)@.valid(),
        ensures
            (r, final(dev)@) == old(dev)@.send_flags(old(self)@.raw.proto, id, payload@, flags),
            final(dev)@.valid(),
            final(dev).kept(old(dev)),
            final(self)@ == old(self)@,
    {
        let mut all = flags;
        if id.is_ext() {
            all = all.with(TX_CAN_29BIT_ID);
        }
        let mut msg: Vec<u8> = copy_all(id.to_wire().as_slice());
        push_all(&mut msg, payload);
        self.raw.write(dev, all.bits(), msg.as_slice())
    }
}

impl<T: Transport> Device<T> {
    /// Open a typed channel. The firmware supports at most 3 concurrent
    /// channels; a fourth Connect is rejected by the adapter.
    pub fn connect<P: Protocol>(&mut self, cfg: P::Config) -> (r: Result<Channel<P>, Error>)
        requires
            old(self)@.valid(),
        ensures
            ({
                let (flags, baud) = cfg.spec_wire();
                let (owed, s) = old(self)@.on_connect(P::spec_id(), flags, baud);
                &&& final(self)@ == s
                &&& match owed {
                    Ok(()) => r matches Ok(c) && c@ == TypedState::fresh(P::spec_id()),
                    Err(e) => r == Err::<Channel<P>, Error>(e),
                }
            }),
            final(self)@.valid(),
            final(self).kept(old(self)),
    {
        let (flags, baud) = cfg.wire();
        let raw = RawChannel::connect(self, P::id(), flags, baud)?;
        Ok(Channel::new(raw))
    }

    /// Open a dynamically-typed channel (the J2534 shim's path).
    pub fn connect_raw(&mut self, proto: ProtocolId, flags: u32, baud: u32) -> (r: Result<
        RawChannel,
        Error,
    >)
        requires
            old(self)@.valid(),
        ensures
            final(self)@ == old(self)@.on_connect(proto, flags, baud).1,
            final(self)@.valid(),
            final(self).kept(old(self)),
            match old(self)@.on_connect(proto, flags, baud).0 {
                Ok(()) => r matches Ok(c) && c@ == (ChannelState { proto, nfilters: 0 }),
                Err(e) => r == Err::<RawChannel, Error>(e),
            },
    {
        RawChannel::connect(self, proto, flags, baud)
    }
}

} // verus!
