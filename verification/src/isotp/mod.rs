//! ISO 15765-2 transport: one [`IsoTp`] type, run on either [`IsoTpPath`].
//!
//! - [`IsoTpPath::Firmware`] (protocol 6): the cable's own ISO-TP, one
//!   exchange per request. Its transmit path ignores BS/STmin and breaks above
//!   255 bytes, so [`IsoTp::send`] refuses larger payloads with
//!   [`crate::error::IsoTpError::FirmwareFfDlLimit`] rather than emit a
//!   malformed frame.
//! - [`IsoTpPath::Host`] (protocol 5): the machines in [`machine`] over raw
//!   CAN: full 12-bit FF_DL, BS and STmin honoured, FS=WAIT/OVFLW handled.
//!   Correct but slow, one serial round trip per CAN frame.
//!
//! The cable has a single global receive owner, so a device runs one path at
//! a time.

pub mod client;
pub mod laws;
pub mod machine;
pub mod pending;

pub use client::{FirmwareIsoTp, IsoTp, IsoTpConfig, IsoTpLink, IsoTpPath};
pub use pending::UdsTransport;
