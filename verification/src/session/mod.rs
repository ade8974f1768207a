//! Session layer: the port-owning actor, the encrypted-link handshake, and
//! the public `Device` handle.

pub mod actor;
pub mod channel;
pub mod device;
pub mod laws;
pub mod link;
pub mod protocol;
pub mod raw;
mod sealed;
pub mod wire;

pub use channel::Channel;
pub use device::{resolve_port, Device, DeviceConfig};
pub use raw::RawChannel;
