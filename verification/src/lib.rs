//! Wire formats of the SSH transport layer: the identification line, the
//! handshake messages and the binary packet that frames them.

pub mod utils;
pub mod identification;
pub mod wire;
pub mod message;
pub mod packet;
pub mod encryption;
pub mod mac;
