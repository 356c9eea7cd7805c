//! The failures that the engine reports.

use vstd::prelude::*;

verus! {

/// Why an operation of the engine failed.
#[derive(Debug, Clone, Copy, PartialEq, Eq, Structural)]
pub enum NoiseError {
    /// The packet is shorter than the smallest frame.
    Runt,
    /// The packet addresses a session that is not registered, or is a data
    /// packet that belongs to no session.
    NoSession,
    /// The handshaker refused the packet.
    InvalidPacket,
    /// A handshake response or a cookie reply arrived for no known session.
    StrayKey,
    /// The handshake could not be opened, or the tunnel refused it.
    HandshakeDecryptFailed,
    /// The handshake names an authenticator that the table does not hold.
    UnrecognizedAuth,
    /// Authentication is required and the handshake carried none.
    AuthRequired,
    /// A resumed session belongs to another public key.
    WrongPermPubkey,
    /// The user may only connect from another address.
    IpRestricted,
    /// A frame whose type or length fits no kind of packet, or additional
    /// data that is no sequence of entries.
    Malformed,
    /// An empty plaintext.
    ZeroLength,
    /// A buffer whose length is no multiple of four.
    AlignmentFault,
    /// The message does not fit the scratch space of the cipher.
    TooLarge,
    /// The tunnel failed to encapsulate; the number is its error code.
    Encapsulate(u8),
    /// The tunnel answered with an outcome that this layer never expects.
    UnexpectedResult,
    /// The peer's public key is all zero.
    KeyUnknown,
    /// The address derived from the peer's public key is no mesh address.
    InvalidPublicKey,
    /// The tunnel could not be created for this pair of keys.
    TunnelCreate,
    /// Every session index is taken.
    RegistryFull,
    /// A packet for an existing session asked for a new one.
    UnexpectedSession,
}

} // verus!
