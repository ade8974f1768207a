//! Sans-IO wire codec: outer frames, DES-ECB, inner commands, deframing.

pub mod crypto;
pub mod deframe;
pub mod frame;
pub mod inner;

pub use deframe::Deframer;
