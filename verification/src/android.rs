//! The session an Android app holds a handle to.
//!
//! The app makes one ISO-TP request at a time, naming the ECU by its
//! identifiers; the channel is kept open for as long as the ECU stays the same.

use vstd::prelude::*;

use crate::error::Error;
use crate::isotp::client::{tp_request, FirmwareIsoTp, IsoTp, IsoTpConfig, IsoTpPath, TpState};
use crate::session::actor::Session;
use crate::session::device::{Device, Setup};
use crate::session::protocol::CanId;
use crate::text::push_text;
use crate::time::{millis, Duration};
use crate::transport::Transport;

verus! {

/// The channel that is open, and the identifiers it was opened for.
pub struct OpenChannel {
    pub tx: u16,
    pub rx: u16,
    pub ext_addr: i32,
    pub tp: TpState,
}

/// A session as the app's handle keeps it.
pub struct AppState {
    pub session: Session,
    /// What the device was opened with.
    pub setup: Setup,
    pub open: Option<OpenChannel>,
}

/// The low 16 bits of a Java `int`.
pub open spec fn low_half(v: i32) -> u16 {
    (v % 65536) as u16
}

fn low16(v: i32) -> (r: u16)
    ensures
        r == low_half(v),
{
    ((v as i64 + 0x1_0000_0000) % 65536) as u16
}

/// The configuration for a pair of identifiers. A negative address means normal
/// addressing; 0 to 255 selects extended/mixed.
pub open spec fn config_for(tx: u16, rx: u16, ext_addr: i32) -> IsoTpConfig {
    let plain = IsoTpConfig::plain(CanId::Std(tx), CanId::Std(rx));
    if 0 <= ext_addr <= 255 {
        IsoTpConfig { ext_addr: Some(ext_addr as u8), ..plain }
    } else {
        plain
    }
}

impl AppState {
    /// Whether the open channel is the one asked for.
    pub open spec fn serves(self, tx: u16, rx: u16, ext_addr: i32) -> bool {
        self.open matches Some(c) && c.tx == tx && c.rx == rx && c.ext_addr == ext_addr
    }

    /// The channel, if any, disconnected.
    pub open spec fn release(self) -> AppState {
        match self.open {
            Some(c) => AppState {
                session: self.session.on_disconnect(c.tp.chan.raw.proto).1,
                open: None,
                ..self
            },
            None => self,
        }
    }

    /// The channel asked for, open: the one that is, or a new one in its place.
    pub open spec fn tuned(self, tx: u16, rx: u16, ext_addr: i32) -> (Result<(), Error>, AppState) {
        if self.serves(tx, rx, ext_addr) {
            (Ok(()), self)
        } else {
            let clean = self.release();
            match IsoTp::opening(
                clean.session,
                config_for(tx, rx, ext_addr),
                IsoTpPath::Firmware,
            ) {
                (Err(e), s) => (Err(e), AppState { session: s, open: None, ..self }),
                (Ok(tp), s) => (
                    Ok(()),
                    AppState {
                        session: s,
                        open: Some(OpenChannel { tx, rx, ext_addr, tp }),
                        ..self
                    },
                ),
            }
        }
    }

    /// One request: the reply, or what the app is told went wrong.
    pub open spec fn request<T: Transport>(
        self,
        tx_id: i32,
        rx_id: i32,
        ext_addr: i32,
        req: Seq<u8>,
        timeout_ms: i32,
    ) -> (Result<Seq<u8>, Seq<char>>, AppState) {
        let ms = if timeout_ms < 1 {
            1
        } else {
            timeout_ms as int
        };
        match self.tuned(low_half(tx_id), low_half(rx_id), ext_addr) {
            (Err(e), after) => (Err("open ISO15765 channel: "@ + e.text()), after),
            (Ok(()), after) => {
                let (r, s) = tp_request::<T>(
                    after.session,
                    after.setup,
                    after.open->0.tp,
                    req,
                    millis(ms as nat),
                );
                (
                    match r {
                        Ok(reply) => Ok(reply),
                        Err(e) => Err("request: "@ + e.text()),
                    },
                    AppState { session: s, ..after },
                )
            },
        }
    }
}

/// An app that polls one ECU pays for the channel once: after a request that
/// opened it, the next to the same ECU finds it open and goes straight out.
pub proof fn lemma_channel_reused(a: AppState, tx: u16, rx: u16, ext_addr: i32)
    requires
        a.tuned(tx, rx, ext_addr).0 is Ok,
    ensures
        ({
            let after = a.tuned(tx, rx, ext_addr).1;
            after.tuned(tx, rx, ext_addr) == (Ok::<(), Error>(()), after)
        }),
{
}

/// A result with what the app is handed taken by its view.
pub open spec fn told<A: View>(r: Result<A, String>) -> Result<A::V, Seq<char>> {
    match r {
        Ok(v) => Ok(v@),
        Err(e) => Err(e@),
    }
}

fn complain(intro: &'static str, e: &Error) -> (s: String)
    ensures
        s@ == intro@ + e.text(),
{
    let mut s = intro.to_owned();
    push_text(&mut s, e.message().as_str());
    s
}

/// What a handle points at. The `Device` keeps the session alive; the channel
/// is opened on request so the app does not have to model the adapter's
/// single-filter-per-width rule.
pub struct AppSession<T: Transport> {
    device: Device<T>,
    /// Cached channel, keyed by the (tx, rx, ext_addr) it was opened for
    /// (ext_addr is -1 for normal addressing). Connecting and installing a
    /// filter costs two round trips, so an app polling one ECU should not pay
    /// them on every request.
    tp: Option<(u16, u16, i32, FirmwareIsoTp)>,
}

impl<T: Transport> View for AppSession<T> {
    type V = AppState;

    closed spec fn view(&self) -> AppState {
        AppState {
            session: self.device@,
            setup: self.device.setup(),
            open: match self.tp {
                Some(c) => Some(OpenChannel { tx: c.0, rx: c.1, ext_addr: c.2, tp: c.3@ }),
                None => None,
            },
        }
    }
}

impl<T: Transport> AppSession<T> {
    pub fn new(device: Device<T>) -> (r: AppSession<T>)
        ensures
            r@ == (AppState { session: device@, setup: device.setup(), open: None }),
    {
        AppSession { device, tp: None }
    }

    /// The firmware identity string.
    pub fn firmware_version(&mut self) -> (r: Result<String, String>)
        requires
            old(self)@.session.valid(),
        ensures
            ({
                let (owed, s) = old(self)@.session.firmware_version();
                &&& final(self)@ == (AppState { session: s, ..old(self)@ })
                &&& told(r) == match owed {
                    Ok(v) => Ok::<Seq<char>, Seq<char>>(v),
                    Err(e) => Err("firmware_version: "@ + e.text()),
                }
            }),
            final(self)@.session.valid(),
    {
        match self.device.firmware_version() {
            Ok(v) => Ok(v),
            Err(e) => Err(complain("firmware_version: ", &e)),
        }
    }

    fn release(&mut self)
        requires
            old(self)@.session.valid(),
        ensures
            final(self)@ == old(self)@.release(),
            final(self)@.session.valid(),
    {
        if let Some(c) = self.tp.take() {
            c.3.into_inner().release(&mut self.device);
        }
    }

    /// The channel asked for, taken out of the cache or newly opened.
    fn tune(&mut self, tx: u16, rx: u16, ext_addr: i32) -> (r: Result<FirmwareIsoTp, Error>)
        requires
            old(self)@.session.valid(),
        ensures
            ({
                let (owed, after) = old(self)@.tuned(tx, rx, ext_addr);
                match r {
                    Ok(tp) => {
                        &&& owed is Ok
                        &&& final(self)@ == (AppState { open: None, ..after })
                        &&& after.open == Some(OpenChannel { tx, rx, ext_addr, tp: tp@ })
                    },
                    Err(e) => owed == Err::<(), Error>(e) && final(self)@ == after,
                }
            }),
            final(self)@.session.valid(),
    {
        if let Some(c) = self.tp.take() {
            if c.0 == tx && c.1 == rx && c.2 == ext_addr {
                return Ok(c.3);
            }
            // Different ECU/addressing: drop the old channel before opening
            // the new one; the adapter keeps one filter per identifier width.
            c.3.into_inner().release(&mut self.device);
        }
        if 0 <= ext_addr && ext_addr <= 255 {
            FirmwareIsoTp::with_ext_addr(
                &mut self.device,
                CanId::Std(tx),
                CanId::Std(rx),
                ext_addr as u8,
            )
        } else {
            FirmwareIsoTp::new(&mut self.device, CanId::Std(tx), CanId::Std(rx))
        }
    }

    /// One ISO-TP request/response through the adapter's own ISO15765, which is
    /// the right choice for short diagnostic requests.
    pub fn request(
        &mut self,
        tx_id: i32,
        rx_id: i32,
        ext_addr: i32,
        req: &[u8],
        timeout_ms: i32,
    ) -> (r: Result<Vec<u8>, String>)
        requires
            old(self)@.session.valid(),
        ensures
            (told(r), final(self)@) == old(self)@.request::<T>(
                tx_id,
                rx_id,
                ext_addr,
                req@,
                timeout_ms,
            ),
            final(self)@.session.valid(),
    {
        let tx: u16 = low16(tx_id);
        let rx: u16 = low16(rx_id);
        let mut tp = match self.tune(tx, rx, ext_addr) {
            Ok(tp) => tp,
            Err(e) => {
                return Err(complain("open ISO15765 channel: ", &e));
            },
        };
        let ms: u64 = if timeout_ms < 1 {
            1
        } else {
            timeout_ms as u64
        };
        let r = tp.request(&mut self.device, req, Duration::from_millis(ms));
        self.tp = Some((tx, rx, ext_addr, tp));
        match r {
            Ok(reply) => Ok(reply),
            Err(e) => Err(complain("request: ", &e)),
        }
    }

    /// Close the session: the cached channel is disconnected first, while the
    /// session is still up.
    pub fn close(self) -> (io: T)
        requires
            self@.session.valid(),
        ensures
            io.world() == self@.release().session.teardown().world,
    {
        let mut s = self;
        s.release();
        s.device.close()
    }
}

} // verus!
