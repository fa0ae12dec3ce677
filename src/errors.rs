//! Failure kinds shared by the codecs and by the node's protocol logic.

use vstd::prelude::*;

verus! {

/// Transport failures are carried through unchanged from the socket layer.
#[verifier::external_type_specification]
#[verifier::external_body]
pub struct ExIoError(std::io::Error);

/// Every way a codec or node operation can fail.
#[derive(Debug)]
pub enum Error {
    /// The socket layer failed to bind, send or receive.
    Io(std::io::Error),
    /// The bytes ran out before a field could be read in full.
    MessageEnded,
    /// A message designator byte named no known variant.
    UnknownMessage(u8),
    /// An address tag named neither IPv4 nor IPv6.
    UnknownAddressType(u8),
    /// A string's length exceeded its field limit: `(limit, length)`.
    StringLimit((u16, u16)),
    /// A string's bytes were not valid UTF-8.
    InvalidString,
    /// A string was too long for its 16-bit length prefix.
    StringTooLong,
    /// A listen was requested without a listening mode.
    NotListening,
}

pub type Result<T> = core::result::Result<T, Error>;

} // verus!
