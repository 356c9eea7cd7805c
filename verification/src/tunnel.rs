//! The tunnel of the Noise library and the few calls that the engine makes
//! into it. Nothing here is proved: each function states what the library's
//! source shows of the call, and no more.

use vstd::prelude::*;
use std::str::FromStr;
use std::sync::Arc;
use boringtun::crypto::x25519::{X25519PublicKey, X25519SecretKey};
use boringtun::noise::handshake::parse_handshake_anon;
use boringtun::noise::rate_limiter::RateLimiter;
use boringtun::noise::{Packet, Tunn, TunnResult};
use crate::auth::psk_of;
use crate::bytes::from_le32;
use crate::codec::{
    COOKIE_SZ, DATA_MIN_SZ, INIT_SZ, MSG_COOKIE, MSG_DATA, MSG_INIT, MSG_RESPONSE, RESPONSE_SZ,
};

verus! {

/// The tunnel of one pair of peers.
#[verifier::external_type_specification]
#[verifier::external_body]
pub struct ExTunn(Tunn);

/// The object that checks handshakes and hands out cookies under load.
#[verifier::external_type_specification]
#[verifier::external_body]
pub struct ExRateLimiter(RateLimiter);

/// The size of the scratch space that every call into the tunnel works in.
pub const CRYPT_BUF_SZ: usize = 4096;

/// What the tunnel adds to a plaintext when it encapsulates it.
pub const DATA_OVERHEAD_SZ: usize = 32;

/// What the tunnel answers to a call.
#[derive(Debug, Clone, PartialEq, Eq)]
pub enum TunnOutcome {
    /// Nothing is to be sent.
    Done,
    /// The call failed; the number is the error's code.
    Failed(u8),
    /// A packet for the peer.
    WriteToNetwork(Vec<u8>),
    /// A payload that was decrypted and is no IP packet. The tunnel that this
    /// library is built on has no such answer: it hands out what it decrypts
    /// as an IP packet or refuses it, so no call into it gives this variant.
    CustomData(Vec<u8>),
    /// A decrypted IPv4 packet.
    WriteToTunnelV4(Vec<u8>),
    /// A decrypted IPv6 packet.
    WriteToTunnelV6(Vec<u8>),
}

/// What the handshaker says of a packet that belongs to no session.
#[derive(Debug, Clone, PartialEq, Eq)]
pub enum Verified {
    /// A handshake initiation that may be worked on.
    HandshakeInit,
    /// A handshake response.
    HandshakeResponse,
    /// A cookie reply.
    CookieReply,
    /// A data packet.
    PacketData,
    /// The node is under load: this cookie reply goes back to the sender.
    Cookie(Vec<u8>),
    /// The packet was refused; the number is the error's code.
    Rejected(u8),
    /// An answer that the handshaker is not known to give.
    Unexpected,
}

/// Whether a packet is one of a kind as the tunnel reads packets: its first
/// word, least significant byte first, names the kind, and its length is the
/// length of that kind.
pub open spec fn is_packet_of_kind(packet: Seq<u8>, kind: u8) -> bool {
    &&& packet.len() >= 4
    &&& from_le32(packet, 0) == kind
    &&& if kind == MSG_INIT {
        packet.len() == INIT_SZ
    } else if kind == MSG_RESPONSE {
        packet.len() == RESPONSE_SZ
    } else if kind == MSG_COOKIE {
        packet.len() == COOKIE_SZ
    } else {
        kind == MSG_DATA && packet.len() >= DATA_MIN_SZ
    }
}

/// Whether a packet is of one of the four kinds.
pub open spec fn is_packet(packet: Seq<u8>) -> bool {
    ||| is_packet_of_kind(packet, MSG_INIT)
    ||| is_packet_of_kind(packet, MSG_RESPONSE)
    ||| is_packet_of_kind(packet, MSG_COOKIE)
    ||| is_packet_of_kind(packet, MSG_DATA)
}

/// Whether a packet is one that the tunnel writes when it is asked to send:
/// a handshake initiation or a data packet.
pub open spec fn is_sent_packet(packet: Seq<u8>) -> bool {
    is_packet_of_kind(packet, MSG_INIT) || is_packet_of_kind(packet, MSG_DATA)
}

/// Whether an answer of the tunnel fits the plaintext that it was given to
/// encapsulate: the tunnel has nothing to send, or fails, or sends either a
/// handshake initiation or a data packet that is longer than the plaintext
/// by the overhead. It answers with nothing else.
pub open spec fn encapsulation_fits(outcome: TunnOutcome, src: Seq<u8>) -> bool {
    match outcome {
        TunnOutcome::Done => true,
        TunnOutcome::Failed(_) => true,
        TunnOutcome::WriteToNetwork(packet) => is_packet_of_kind(packet@, MSG_INIT) || (
        is_packet_of_kind(packet@, MSG_DATA) && packet@.len() == src.len() + DATA_OVERHEAD_SZ),
        _ => false,
    }
}

/// Whether an answer of the tunnel fits the packet of the peer that it was
/// given. What the tunnel sends is a packet of one of the four kinds; a
/// payload that is no IP packet is never handed out. Asked with an empty
/// packet for what it has kept, the tunnel has nothing to send or sends a
/// handshake initiation or a data packet, and answers with nothing else.
pub open spec fn decapsulation_fits(outcome: TunnOutcome, datagram: Seq<u8>) -> bool {
    if datagram.len() == 0 {
        match outcome {
            TunnOutcome::Done => true,
            TunnOutcome::WriteToNetwork(packet) => is_sent_packet(packet@),
            _ => false,
        }
    } else {
        match outcome {
            TunnOutcome::WriteToNetwork(packet) => is_packet(packet@),
            TunnOutcome::CustomData(_) => false,
            _ => true,
        }
    }
}

/// Whether an answer of the tunnel fits a look at the clock: the tunnel has
/// nothing to send, or fails, or sends a handshake initiation or a data
/// packet. It answers with nothing else.
pub open spec fn timers_fit(outcome: TunnOutcome) -> bool {
    match outcome {
        TunnOutcome::Done => true,
        TunnOutcome::Failed(_) => true,
        TunnOutcome::WriteToNetwork(packet) => is_sent_packet(packet@),
        _ => false,
    }
}

/// Whether a verdict of the handshaker fits the packet that it was given
/// for. A kind is only named of a packet of that kind, and always of a cookie
/// reply and of a data packet, which the handshaker does not look into. A
/// cookie is a cookie reply itself and is only asked for a handshake. What is
/// no packet is refused. There is no verdict that the handshaker is not
/// known to give.
pub open spec fn verdict_fits(verdict: Verified, packet: Seq<u8>) -> bool {
    &&& match verdict {
        Verified::HandshakeInit => is_packet_of_kind(packet, MSG_INIT),
        Verified::HandshakeResponse => is_packet_of_kind(packet, MSG_RESPONSE),
        Verified::CookieReply => is_packet_of_kind(packet, MSG_COOKIE),
        Verified::PacketData => is_packet_of_kind(packet, MSG_DATA),
        Verified::Cookie(cookie) => is_packet_of_kind(cookie@, MSG_COOKIE) && (is_packet_of_kind(
            packet,
            MSG_INIT,
        ) || is_packet_of_kind(packet, MSG_RESPONSE)),
        Verified::Rejected(_) => true,
        Verified::Unexpected => false,
    }
    &&& is_packet_of_kind(packet, MSG_COOKIE) ==> verdict is CookieReply
    &&& is_packet_of_kind(packet, MSG_DATA) ==> verdict is PacketData
    &&& !is_packet(packet) ==> verdict is Rejected
}

/// The public key that belongs to a private key.
pub uninterp spec fn public_key_of_private(private_key: Seq<u8>) -> Seq<u8>;

/// The long-term public key of the peer that sent a handshake initiation to
/// the node with these keys; `None` if the packet is no handshake initiation
/// or does not open with the keys.
pub uninterp spec fn handshake_sender(
    private_key: Seq<u8>,
    public_key: Seq<u8>,
    packet: Seq<u8>,
) -> Option<Seq<u8>>;

/// `X25519SecretKey::public_key`: the public key of a private key. The
/// private key is handed over as the library reads one, spelt in hexadecimal:
/// the 64 digits that `hex::encode` gives for 32 bytes are always read. The
/// public key depends on the private key alone, and so the contract gives it
/// its name.
#[verifier::external_body]
pub(crate) fn derive_public_key(private_key: &[u8; 32]) -> (public: Option<[u8; 32]>)
    ensures
        public is Some,
        public->0@ == public_key_of_private(private_key@),
{
    let secret = X25519SecretKey::from_str(&hex::encode(private_key)).ok()?;
    let mut raw = [0u8; 32];
    raw.copy_from_slice(secret.public_key().as_bytes());
    Some(raw)
}

/// `RateLimiter::new`: a handshaker for the node with this public key, which
/// asks for cookies once it has counted `limit` handshakes. It draws random
/// numbers and reads the clock.
#[verifier::external_body]
pub(crate) fn rate_limiter_new(public_key: &[u8; 32], limit: u64) -> (limiter: RateLimiter) {
    RateLimiter::new(&X25519PublicKey::from(&public_key[..]), limit)
}

/// `RateLimiter::reset_count`: starts the count of handshakes anew if a
/// second has gone by since it was last started. It reads the clock.
#[verifier::external_body]
pub(crate) fn handshaker_reset(handshaker: &RateLimiter) {
    handshaker.reset_count()
}

/// Whether a tunnel can be made between a private key and the public key of
/// a peer: whether the two have a shared secret that the tunnel accepts.
pub uninterp spec fn tunnel_can_be_made(private_key: Seq<u8>, her_public: Seq<u8>) -> bool;

/// `Tunn::new`: a tunnel between our private key and the peer's public key,
/// with an optional pre-shared key, no keepalive and a handshaker of its own.
/// The private key is handed over as the library reads one, spelt in
/// hexadecimal. Whether the tunnel is made depends on the two keys alone, by
/// `X25519SecretKey::shared_key`, and so the contract gives it its name.
#[verifier::external_body]
pub(crate) fn tunn_new(
    private_key: &[u8; 32],
    her_public: &[u8; 32],
    preshared_key: Option<[u8; 32]>,
    index: u32,
) -> (tunnel: Option<Box<Tunn>>)
    ensures
        tunnel is Some == tunnel_can_be_made(private_key@, her_public@),
{
    let secret = Arc::new(X25519SecretKey::from_str(&hex::encode(private_key)).ok()?);
    let her_key = Arc::new(X25519PublicKey::from(&her_public[..]));
    Tunn::new(secret, her_key, preshared_key, None, index, None).ok()
}

/// `Tunn::encapsulate`: encrypts a plaintext for the peer, or starts a
/// handshake and keeps the plaintext for later. It panics if the scratch
/// space is smaller than the plaintext and the overhead, or than a handshake:
/// hence the bounds. The scratch space keeps its length. With a session the
/// answer is the data packet that `format_packet_data` writes, 32 bytes
/// longer than the plaintext; without one it is what
/// `format_handshake_initiation` gives: nothing, an error, or an initiation
/// of 148 bytes.
#[verifier::external_body]
pub(crate) fn tunn_encapsulate(tunnel: &Tunn, src: &[u8], dst: &mut Vec<u8>) -> (outcome:
    TunnOutcome)
    requires
        old(dst)@.len() == CRYPT_BUF_SZ,
        src@.len() + DATA_OVERHEAD_SZ <= CRYPT_BUF_SZ,
    ensures
        final(dst)@.len() == old(dst)@.len(),
        encapsulation_fits(outcome, src@),
{
    match tunnel.encapsulate(src, &mut dst[..]) {
        TunnResult::Done => TunnOutcome::Done,
        TunnResult::Err(e) => TunnOutcome::Failed(e as u8),
        TunnResult::WriteToNetwork(p) => TunnOutcome::WriteToNetwork(p.to_vec()),
        TunnResult::WriteToTunnelV4(p, _) => TunnOutcome::WriteToTunnelV4(p.to_vec()),
        TunnResult::WriteToTunnelV6(p, _) => TunnOutcome::WriteToTunnelV6(p.to_vec()),
    }
}

/// `Tunn::decapsulate`: works on a packet from the peer; an empty packet asks
/// for what the tunnel has kept for later. It panics if the scratch space is
/// smaller than the packet or than a plaintext that was kept: every plaintext
/// came in through `tunn_encapsulate`, hence the bounds. The scratch space
/// keeps its length. What the tunnel decrypts comes out as an IP packet, or
/// as an error if it is none: a payload of another kind is never handed out.
/// What it sends is a cookie reply, a handshake response, a data packet or
/// a handshake initiation, each written with its kind and length; for an
/// empty packet it is what `Tunn::encapsulate` gives for a plaintext that was
/// kept, with its error taken as nothing to send.
#[verifier::external_body]
pub(crate) fn tunn_decapsulate(
    tunnel: &Tunn,
    peer: Option<[u8; 16]>,
    datagram: &[u8],
    dst: &mut Vec<u8>,
) -> (outcome: TunnOutcome)
    requires
        old(dst)@.len() == CRYPT_BUF_SZ,
        datagram@.len() <= CRYPT_BUF_SZ,
    ensures
        final(dst)@.len() == old(dst)@.len(),
        decapsulation_fits(outcome, datagram@),
{
    match tunnel.decapsulate(peer.map(Into::into), datagram, &mut dst[..]) {
        TunnResult::Done => TunnOutcome::Done,
        TunnResult::Err(e) => TunnOutcome::Failed(e as u8),
        TunnResult::WriteToNetwork(p) => TunnOutcome::WriteToNetwork(p.to_vec()),
        TunnResult::WriteToTunnelV4(p, _) => TunnOutcome::WriteToTunnelV4(p.to_vec()),
        TunnResult::WriteToTunnelV6(p, _) => TunnOutcome::WriteToTunnelV6(p.to_vec()),
    }
}

/// `Tunn::update_timers`: lets the tunnel look at the clock; it may ask for a
/// handshake or a keepalive to be sent, or report that the connection has
/// expired. The scratch space keeps its length. What it sends is a handshake
/// initiation or what `Tunn::encapsulate` gives for an empty plaintext.
#[verifier::external_body]
pub(crate) fn tunn_update_timers(tunnel: &Tunn, dst: &mut Vec<u8>) -> (outcome: TunnOutcome)
    requires
        old(dst)@.len() == CRYPT_BUF_SZ,
    ensures
        final(dst)@.len() == old(dst)@.len(),
        timers_fit(outcome),
{
    match tunnel.update_timers(&mut dst[..]) {
        TunnResult::Done => TunnOutcome::Done,
        TunnResult::Err(e) => TunnOutcome::Failed(e as u8),
        TunnResult::WriteToNetwork(p) => TunnOutcome::WriteToNetwork(p.to_vec()),
        TunnResult::WriteToTunnelV4(p, _) => TunnOutcome::WriteToTunnelV4(p.to_vec()),
        TunnResult::WriteToTunnelV6(p, _) => TunnOutcome::WriteToTunnelV6(p.to_vec()),
    }
}

/// `Tunn::time_since_last_handshake`: it answers with a time exactly when the
/// tunnel's current session is one that a handshake has set up. It reads the
/// clock for the time, which is not looked at here.
#[verifier::external_body]
pub(crate) fn tunn_is_established(tunnel: &Tunn) -> (established: bool) {
    tunnel.time_since_last_handshake().is_some()
}

/// `RateLimiter::verify_packet`: tells the kind of a packet, checks the first
/// authentication code of a handshake and, under load, asks the sender to
/// prove its address with a cookie. It counts the handshakes it sees and
/// reads the clock. The kind is read by `Tunn::parse_incoming_packet` from
/// the first word and the length of the packet, and what has no kind is an
/// error; only handshakes are checked and counted, so a cookie reply and a
/// data packet always keep their kind; the cookie that is asked for is made
/// by `format_cookie_reply`, a cookie reply of 64 bytes; every failure is an
/// error with a code.
#[verifier::external_body]
pub(crate) fn handshaker_verify(
    handshaker: &RateLimiter,
    peer: [u8; 16],
    src: &[u8],
    dst: &mut Vec<u8>,
) -> (verdict: Verified)
    ensures
        final(dst)@.len() == old(dst)@.len(),
        verdict_fits(verdict, src@),
{
    match handshaker.verify_packet(Some(peer.into()), src, &mut dst[..]) {
        Ok(Packet::HandshakeInit(_)) => Verified::HandshakeInit,
        Ok(Packet::HandshakeResponse(_)) => Verified::HandshakeResponse,
        Ok(Packet::PacketCookieReply(_)) => Verified::CookieReply,
        Ok(Packet::PacketData(_)) => Verified::PacketData,
        Err(TunnResult::WriteToNetwork(cookie)) => Verified::Cookie(cookie.to_vec()),
        Err(TunnResult::Err(e)) => Verified::Rejected(e as u8),
        Err(_) => Verified::Unexpected,
    }
}

/// `parse_handshake_anon`, on the packet that `Tunn::parse_incoming_packet`
/// reads from the bytes: the long-term public key of the peer that sent this
/// handshake initiation to us, if the bytes are one and it opens with our
/// keys. No key is read from bytes that are no handshake initiation. The
/// result depends on the two keys and the bytes alone, and so the contract
/// gives it its name.
#[verifier::external_body]
pub(crate) fn handshake_peer_key(private_key: &[u8; 32], public_key: &[u8; 32], src: &[u8]) -> (her_public:
    Option<[u8; 32]>)
    ensures
        psk_of(her_public) == handshake_sender(private_key@, public_key@, src@),
        her_public is Some ==> is_packet_of_kind(src@, MSG_INIT),
{
    let secret = X25519SecretKey::from_str(&hex::encode(private_key)).ok()?;
    let public = X25519PublicKey::from(&public_key[..]);
    match Tunn::parse_incoming_packet(src) {
        Ok(Packet::HandshakeInit(init)) => parse_handshake_anon(&secret, &public, &init).ok().map(
            |half| half.peer_static_public,
        ),
        _ => None,
    }
}

} // verus!
