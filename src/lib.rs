//! Peer discovery and pin-authenticated session handshakes for a LAN
//! sound and file sharing tool: the binary message protocol and the
//! discovery and handshake decisions built on it.

mod errors;
pub mod codec;
pub mod net;
pub mod message;
pub mod node;

pub use errors::{Error, Result};
pub use codec::{decode_u16, Cursor, LenString};
pub use message::{Message, MessageContent};
pub use net::{Address, Identifier, Peer};
pub use node::{
    read_datagram, Handshake, HandshakePhase, Listener, MessageSender, Responder,
    ResponderPhase, State, Sweep, PORT, SWEEP_SIZE,
};

use vstd::prelude::*;

verus! {

/// Values that can be written to the wire.
pub trait ToBytes {
    /// Encodes `self` as bytes.
    fn to_bytes(&self) -> Result<Vec<u8>>;
}

/// Values that can be read back from the wire.
pub trait FromBytes: Sized {
    /// Decodes a value from the start of `bytes`; bytes after it are ignored.
    fn from_bytes(bytes: Vec<u8>) -> Result<Self>;
}

} // verus!
