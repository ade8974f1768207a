//! What the library does, said in numbers and bytes: what each operation puts
//! on the wire, what it makes of what comes back, and how operations relate.

pub mod codec;
pub mod apps;
pub mod calls;
pub mod channels;
pub mod diag;
pub mod endpoints;
pub mod exchange;
pub mod links;
pub mod passthru;
pub mod services;
pub mod table;
pub mod transfer;
pub mod upkeep;
pub mod values;
pub mod wire;
