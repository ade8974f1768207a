//! Transport-agnostic **KWP2000 (ISO 14230-3)** and **UDS (ISO 14229-1)**
//! diagnostic clients with Toyota's extensions, built on the
//! [`crate::isotp::UdsTransport`] seam. The same clients drive:
//!
//! - **K-line / ISO 14230**, via [`crate::kline::KLineLink`] (the Gen-2 Toyota
//!   body/HVAC bus, e.g. the NHW20 Prius A/C amp at address `0x98`), and
//! - **ISO-TP over CAN**, via [`crate::isotp::IsoTpLink`] on either path
//!   (powertrain/HV, and newer CAN A/C amps).
//!
//! Pick the client by ECU generation:
//!
//! - [`Kwp2000`]: the KWP2000 service set (`21`/`30`/`3B`/`18`/`14`/`12` ...),
//!   used by the older Toyota P3/P4 ECUs (K-line and early CAN).
//! - [`Uds`]: the UDS service set (`22`/`2E`/`2F`/`31`/`19` ...), used by the
//!   newer P5 (UDS) ECUs.
//!
//! Standard service ids and negative response codes come from the
//! [`automotive_diag`] crate; these modules add request building, response
//! validation, and the Toyota services (`0xA5` customize write, the `0x30`
//! active test, `0x12` freeze-frame read).

pub mod common;
pub mod error;
pub mod kwp2000;
pub mod services;
pub mod toyota;
pub mod toyota_can;
pub mod uds;

pub use error::Error;
pub use kwp2000::Kwp2000;
pub use services::{KwpCommand, UdsCommand};
pub use toyota::SID_TOYOTA_WRITE;
pub use toyota_can::{EnumeratedPid, IsoTpChannel, ToyotaCanLive};
pub use uds::Uds;
