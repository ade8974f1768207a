//! Driver for the Mini-VCI J2534 cable: an FT232R serial bridge in front of
//! an LPC2119 running the "J2534 MINI V1.03" firmware.
//!
//! Layers, bottom up: byte and time helpers, the wire codec, the transport
//! traits with a scripted mock, the session that owns the port, the ISO 15765-2
//! and K-line clients, the diagnostic clients, and the PassThru shim.

pub mod android;
pub mod bytes;
pub mod codec;
pub mod diag;
pub mod error;
pub mod hvac;
pub mod isotp;
pub mod j2534;
pub mod kline;
pub mod laws;
pub mod message;
pub mod session;
pub mod text;
pub mod time;
pub mod transport;
pub mod types;

pub use error::{CodecError, Error, InvalidProtocolId, IsoTpError, TransportError};
pub use isotp::{FirmwareIsoTp, IsoTp, IsoTpConfig, IsoTpLink, IsoTpPath, UdsTransport};
pub use kline::{kline_timing, KLineEcu, KLineLink};
pub use session::protocol::{
    Can, CanConfig, CanFilter, CanId, FlowControlFilter, Iso14230, Iso15765, Iso9141, KLine,
    KLineConfig, KLineFilter, Protocol,
};
pub use session::{resolve_port, Channel, Device, DeviceConfig, RawChannel};
pub use time::{Duration, Instant};
pub use types::{Cmd, DeviceStatus, FilterType, ProtocolId, RxMsg, RxStatus, TxFlags};
