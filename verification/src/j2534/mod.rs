//! SAE J2534-1 PassThru API over a session, the 14 calls Techstream and other
//! J2534 tools make, on plain values.
//!
//! DeviceID = slot+1, ChannelID = slot+0x100, filter IDs are the wire ids
//! (0x000e7a00+n), so StopMsgFilter needs no bookkeeping. One channel per
//! device slot.

pub mod consts;
pub mod laws;
pub mod msg;
pub mod shim;
pub mod slot;
