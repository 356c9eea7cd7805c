//! The ingress dispatcher: what becomes of a packet that came from a peer.
//!
//! A packet that names one of our sessions goes to the tunnel of that
//! session. A handshake initiation names none: it is checked, its sender is
//! authenticated, an earlier session is resumed or a new one is made, and
//! the tunnel's answer goes back to the peer.

use vstd::prelude::*;
use crate::additional::{parse_additional_data, parse_spec, psk_view, AdditionalData};
use crate::auth::{chars_of, is_ascii_bytes, lossy_text, psk_of, text_of, User, UserView};
use crate::bytes::{be32, bytes_eq, copy_range, le32, push_be32, push_le32, push_range};
use crate::codec::{
    cjdns_from_wg, cjdns_of_wg, cjdns_well_formed, refusal, routing_of, wg_from_cjdns,
    wg_of_cjdns, wg_well_formed, INIT_SZ,
};
use crate::error::NoiseError;
use crate::keys::PublicKey;
use crate::registry::{CiphertextRecv, CryptoNoise, Session};
use crate::session::{
    crypto_frame, send_crypto, attach_additional, with_additional, NextForward, SessionInner,
    State, ThreadCtx, TryMsgReply,
};
use crate::codec::{MSG_COOKIE, MSG_DATA};
use crate::tunnel::{
    decapsulation_fits, handshake_sender, is_packet, is_packet_of_kind, verdict_fits,
    TunnOutcome, Verified, CRYPT_BUF_SZ,
};

verus! {

/// What is added to the code of a tunnel's error in the report of a packet
/// that could not be decapsulated.
pub const ERROR_CODE_BASE: u32 = 1024;

/// The length of the prefix of a packet that its error report quotes.
pub const QUOTED_SZ: usize = 16;

/// The length of the peer's address in front of a packet from the wire.
pub const ADDRESS_SZ: usize = 16;

/// The report of a packet that the tunnel could not decapsulate: the state
/// of the session and the error's code, both in network order, the first
/// sixteen bytes of the packet as it came from the wire, and the code once
/// more, least significant byte first.
pub open spec fn error_envelope(state: State, code: u8, wire: Seq<u8>) -> Seq<u8> {
    be32(state.number()) + be32((code as u32 + ERROR_CODE_BASE) as u32) + wire.subrange(
        0,
        QUOTED_SZ as int,
    ) + le32((code as u32 + ERROR_CODE_BASE) as u32)
}

/// A payload with the header that says it was decrypted: four zero bytes.
pub open spec fn ok_payload(payload: Seq<u8>) -> Seq<u8> {
    be32(0) + payload
}

/// Whether the tunnel's answer to a packet lets the session take note of the
/// peer's index.
pub open spec fn notes_peer_index(outcome: TunnOutcome) -> bool {
    outcome is Done || outcome is WriteToNetwork
}

/// Whether the tunnel's answer to a packet lets the session take note of the
/// peer's index.
pub fn outcome_notes_peer_index(outcome: &TunnOutcome) -> (notes: bool)
    ensures
        notes == notes_peer_index(*outcome),
{
    match outcome {
        TunnOutcome::Done => true,
        TunnOutcome::WriteToNetwork(_) => true,
        _ => false,
    }
}

/// What becomes of a packet of a session once the tunnel has answered: the
/// buffer that goes on and the endpoint it goes to. `wg` is the packet as
/// the tunnel read it.
pub open spec fn decapsulated_spec(
    outcome: TunnOutcome,
    state: State,
    additional: Seq<u8>,
    wg: Seq<u8>,
) -> Result<(Seq<u8>, NextForward), NoiseError> {
    match outcome {
        TunnOutcome::Failed(code) => if wg_well_formed(wg) {
            Ok((error_envelope(state, code, cjdns_of_wg(wg)), NextForward::Plain))
        } else {
            Err(refusal(wg.len()))
        },
        TunnOutcome::Done => Ok((Seq::empty(), NextForward::Done)),
        TunnOutcome::WriteToNetwork(packet) => match crypto_frame(
            with_additional(packet@, additional),
        ) {
            Ok(wire) => Ok((wire, NextForward::Cipher)),
            Err(e) => Err(e),
        },
        TunnOutcome::CustomData(payload) => Ok((ok_payload(payload@), NextForward::Plain)),
        TunnOutcome::WriteToTunnelV4(_) => Err(NoiseError::UnexpectedResult),
        TunnOutcome::WriteToTunnelV6(_) => Err(NoiseError::UnexpectedResult),
    }
}

/// Acts on the tunnel's answer to a packet of a session. `msg` holds the
/// packet as the tunnel read it, `state` is the state of the session and
/// `additional` its additional data, empty for a responder.
///
/// An error of the tunnel becomes a report for the plaintext endpoint; a
/// packet for the peer goes to the ciphertext endpoint; a decrypted payload
/// goes to the plaintext endpoint behind four zero bytes; an IP packet is
/// never expected.
pub fn decapsulated(outcome: TunnOutcome, state: State, additional: &[u8], msg: &mut Vec<u8>) -> (r:
    Result<NextForward, NoiseError>)
    ensures
        match decapsulated_spec(outcome, state, additional@, old(msg)@) {
            Ok((out, next)) => r == Ok::<NextForward, NoiseError>(next) && final(msg)@ == out,
            Err(e) => r == Err::<NextForward, NoiseError>(e),
        },
{
    match outcome {
        TunnOutcome::Failed(code) => {
            match cjdns_from_wg(msg) {
                Ok(()) => {},
                Err(e) => {
                    return Err(e);
                },
            }
            let ee: u32 = code as u32 + ERROR_CODE_BASE;
            let mut envelope: Vec<u8> = Vec::new();
            push_be32(&mut envelope, state.as_u32());
            push_be32(&mut envelope, ee);
            push_range(&mut envelope, msg.as_slice(), 0, QUOTED_SZ);
            push_le32(&mut envelope, ee);
            *msg = envelope;
            Ok(NextForward::Plain)
        },
        TunnOutcome::Done => {
            msg.clear();
            Ok(NextForward::Done)
        },
        TunnOutcome::WriteToNetwork(packet) => {
            *msg = attach_additional(packet, additional);
            match send_crypto(msg) {
                Ok(()) => Ok(NextForward::Cipher),
                Err(e) => Err(e),
            }
        },
        TunnOutcome::CustomData(payload) => {
            let mut framed: Vec<u8> = Vec::new();
            push_be32(&mut framed, 0);
            push_range(&mut framed, payload.as_slice(), 0, payload.len());
            assert(payload@.subrange(0, payload@.len() as int) =~= payload@);
            *msg = framed;
            Ok(NextForward::Plain)
        },
        TunnOutcome::WriteToTunnelV4(_) => Err(NoiseError::UnexpectedResult),
        TunnOutcome::WriteToTunnelV6(_) => Err(NoiseError::UnexpectedResult),
    }
}

/// What the handshaker's verdict on a packet without a session means: a
/// handshake initiation is worked on (`None`), a cookie goes back to the
/// peer, everything else is refused.
pub open spec fn verified_spec(verdict: Verified) -> Result<Option<Seq<u8>>, NoiseError> {
    match verdict {
        Verified::HandshakeInit => Ok(None),
        Verified::Cookie(cookie) => Ok(Some(cookie@)),
        Verified::HandshakeResponse => Err(NoiseError::StrayKey),
        Verified::CookieReply => Err(NoiseError::StrayKey),
        Verified::PacketData => Err(NoiseError::NoSession),
        Verified::Rejected(_) => Err(NoiseError::InvalidPacket),
        Verified::Unexpected => Err(NoiseError::InvalidPacket),
    }
}

/// Acts on the handshaker's verdict on a packet without a session: the
/// cookie that goes back to the peer, `None` for a handshake initiation that
/// is to be worked on, or the refusal.
pub fn verified(verdict: Verified) -> (r: Result<Option<Vec<u8>>, NoiseError>)
    ensures
        match verified_spec(verdict) {
            Ok(None) => r == Ok::<Option<Vec<u8>>, NoiseError>(None),
            Ok(Some(cookie)) => r is Ok && r->Ok_0 is Some && r->Ok_0->0@ == cookie,
            Err(e) => r == Err::<Option<Vec<u8>>, NoiseError>(e),
        },
{
    match verdict {
        Verified::HandshakeInit => Ok(None),
        Verified::Cookie(cookie) => Ok(Some(cookie)),
        Verified::HandshakeResponse => Err(NoiseError::StrayKey),
        Verified::CookieReply => Err(NoiseError::StrayKey),
        Verified::PacketData => Err(NoiseError::NoSession),
        Verified::Rejected(_) => Err(NoiseError::InvalidPacket),
        Verified::Unexpected => Err(NoiseError::InvalidPacket),
    }
}

/// Who sent a handshake, by the credentials that its additional data names.
/// Credentials that the table does not hold are refused; so is a handshake
/// without credentials where they are required.
pub open spec fn authenticated_spec(
    users: Map<Seq<u8>, UserView>,
    psk: Option<Seq<u8>>,
    require_auth: bool,
) -> Result<Option<UserView>, NoiseError> {
    match psk {
        Some(key) => if users.contains_key(key) {
            Ok(Some(users[key]))
        } else {
            Err(NoiseError::UnrecognizedAuth)
        },
        None => if require_auth {
            Err(NoiseError::AuthRequired)
        } else {
            Ok(None)
        },
    }
}

/// Finds the user that sent a handshake.
pub fn authenticate(ca: &CryptoNoise, add: &AdditionalData, require_auth: bool) -> (r: Result<
    Option<User>,
    NoiseError,
>)
    requires
        ca.wf(),
    ensures
        match authenticated_spec(ca.users_spec(), psk_view(add.cjdns_psk), require_auth) {
            Ok(None) => r == Ok::<Option<User>, NoiseError>(None),
            Ok(Some(user)) => r is Ok && r->Ok_0 is Some && r->Ok_0->0@ == user,
            Err(e) => r == Err::<Option<User>, NoiseError>(e),
        },
{
    let user_opt = match &add.cjdns_psk {
        Some(psk) => match ca.get_auth(psk) {
            Some(user) => Some(user),
            None => {
                return Err(NoiseError::UnrecognizedAuth);
            },
        },
        None => None,
    };
    if user_opt.is_none() && require_auth {
        return Err(NoiseError::AuthRequired);
    }
    Ok(user_opt)
}

/// The session that a handshake resumes: the one that its additional data
/// names, if that is registered. It has to belong to the key of the sender.
pub open spec fn resumed_spec(
    sessions: Map<u32, SessionInner>,
    prev_sess_id: Option<u32>,
    her_key: Seq<u8>,
) -> Result<Option<u32>, NoiseError> {
    match prev_sess_id {
        Some(psi) => if sessions.contains_key(psi) {
            if sessions[psi].her_pubkey_spec() == her_key {
                Ok(Some(psi))
            } else {
                Err(NoiseError::WrongPermPubkey)
            }
        } else {
            Ok(None)
        },
        None => Ok(None),
    }
}

/// Finds the session that a handshake resumes, if any.
pub fn resume(ca: &CryptoNoise, prev_sess_id: Option<u32>, her_key: &[u8; 32]) -> (r: Result<
    Option<u32>,
    NoiseError,
>)
    ensures
        r == resumed_spec(ca.sessions_spec(), prev_sess_id, her_key@),
{
    match prev_sess_id {
        Some(psi) => match ca.session(psi) {
            Some(sess) => {
                if !bytes_eq(sess.her_pubkey().as_slice(), her_key.as_slice()) {
                    return Err(NoiseError::WrongPermPubkey);
                }
                Ok(Some(psi))
            },
            None => Ok(None),
        },
        None => Ok(None),
    }
}

/// Whether a user may connect from an address: always, unless the user is
/// restricted to another one.
pub open spec fn may_connect_from(user: Option<UserView>, her_ip6: Seq<u8>) -> bool {
    match user {
        Some(u) => match u.restricted_to_ip6 {
            Some(ip6) => ip6 == her_ip6,
            None => true,
        },
        None => true,
    }
}

/// An optional user as plain values.
pub open spec fn user_view(user: Option<User>) -> Option<UserView> {
    match user {
        Some(u) => Some(u@),
        None => None,
    }
}

/// Refuses a user that is restricted to another address, with
/// `IpRestricted`.
pub fn check_restriction(user: &Option<User>, her_ip6: &[u8; 16]) -> (r: Result<(), NoiseError>)
    ensures
        r == if may_connect_from(user_view(*user), her_ip6@) {
            Ok::<(), NoiseError>(())
        } else {
            Err::<(), NoiseError>(NoiseError::IpRestricted)
        },
{
    match user {
        Some(u) => match u.restricted_to_ip6() {
            Some(ip6) => {
                if !bytes_eq(ip6.as_slice(), her_ip6.as_slice()) {
                    return Err(NoiseError::IpRestricted);
                }
                Ok(())
            },
            None => Ok(()),
        },
        None => Ok(()),
    }
}

/// The pre-shared key of the session of a user: the user's secret; none
/// without a user.
pub fn preshared_key_of(user: &Option<User>) -> (psk: Option<[u8; 32]>)
    ensures
        psk_of(psk) == match user_view(*user) {
            Some(u) => Some(u.secret),
            None => None,
        },
{
    match user {
        Some(u) => Some(u.secret()),
        None => None,
    }
}

/// The name of the session of a user: the user's login; `<anon>` without a
/// user.
pub fn display_name_of(user: &Option<User>) -> (name: String)
    ensures
        named_after(name@, user_view(*user)),
{
    match user {
        Some(u) => text_of(u.login().as_slice()),
        None => "<anon>".to_owned(),
    }
}

/// Acts on the tunnel's answer to a handshake initiation: the response goes
/// into the buffer; any other answer means that the handshake failed.
pub fn handshake_answered(outcome: TunnOutcome, msg: &mut Vec<u8>) -> (r: Result<(), NoiseError>)
    ensures
        match outcome {
            TunnOutcome::WriteToNetwork(packet) => r is Ok && final(msg)@ == packet@,
            _ => r == Err::<(), NoiseError>(NoiseError::HandshakeDecryptFailed) && final(msg)@
                == old(msg)@,
        },
{
    match outcome {
        TunnOutcome::WriteToNetwork(packet) => {
            *msg = packet;
            Ok(())
        },
        _ => Err(NoiseError::HandshakeDecryptFailed),
    }
}

/// The user that sent a handshake and the session that the handshake
/// resumes, by the additional data of the handshake and the key of its
/// sender. Additional data that is no sequence of entries is refused with
/// `Malformed`; then the credentials are looked at, then the session.
pub open spec fn admitted_spec(
    users: Map<Seq<u8>, UserView>,
    sessions: Map<u32, SessionInner>,
    extra: Seq<u8>,
    her_key: Seq<u8>,
    require_auth: bool,
) -> Result<(Option<UserView>, Option<u32>), NoiseError> {
    match parse_spec(extra) {
        None => Err(NoiseError::Malformed),
        Some(add) => match authenticated_spec(users, add.cjdns_psk, require_auth) {
            Err(e) => Err(e),
            Ok(user) => match resumed_spec(sessions, add.prev_sess_id, her_key) {
                Err(e) => Err(e),
                Ok(resumed) => Ok((user, resumed)),
            },
        },
    }
}

/// Decides on a handshake whose sender is known: who the sender is, and
/// which session the handshake resumes, if any.
pub fn admission(ca: &CryptoNoise, extra: &[u8], her_key: &[u8; 32], require_auth: bool) -> (r: Result<
    (Option<User>, Option<u32>),
    NoiseError,
>)
    requires
        ca.wf(),
    ensures
        match admitted_spec(ca.users_spec(), ca.sessions_spec(), extra@, her_key@, require_auth) {
            Ok((user, resumed)) => r is Ok && user_view(r->Ok_0.0) == user && r->Ok_0.1
                == resumed,
            Err(e) => r == Err::<(Option<User>, Option<u32>), NoiseError>(e),
        },
{
    let add = match parse_additional_data(extra) {
        Ok(add) => add,
        Err(e) => {
            return Err(e);
        },
    };
    let user_opt = match authenticate(ca, &add, require_auth) {
        Ok(user_opt) => user_opt,
        Err(e) => {
            return Err(e);
        },
    };
    match resume(ca, add.prev_sess_id, her_key) {
        Ok(resumed) => Ok((user_opt, resumed)),
        Err(e) => Err(e),
    }
}

/// The part of a packet without a session that the handshaker and the tunnel
/// read: what stands before the additional data.
pub open spec fn init_packet(wg: Seq<u8>) -> Seq<u8> {
    if wg.len() >= INIT_SZ {
        wg.subrange(0, INIT_SZ as int)
    } else {
        wg
    }
}

/// The additional data behind a handshake initiation.
pub open spec fn init_extra(wg: Seq<u8>) -> Seq<u8> {
    if wg.len() >= INIT_SZ {
        wg.subrange(INIT_SZ as int, wg.len() as int)
    } else {
        Seq::empty()
    }
}

/// The secret of an optional user.
pub open spec fn secret_of_user(user: Option<UserView>) -> Option<Seq<u8>> {
    match user {
        Some(u) => Some(u.secret),
        None => None,
    }
}

/// Whether a session is named after an optional user: by the text of the
/// login, which for an ASCII login is the login itself, and `<anon>` without
/// a user.
pub open spec fn named_after(name: Seq<char>, user: Option<UserView>) -> bool {
    match user {
        Some(u) => name == lossy_text(u.login) && (is_ascii_bytes(u.login) ==> name == chars_of(
            u.login,
        )),
        None => name == "<anon>"@,
    }
}

/// Whether `sess` is the handle of a responder session that was made for
/// the peer with the key `her_key` and registered: the sessions are the
/// earlier ones and this one, under an index that was free.
pub open spec fn session_made(
    before: Map<u32, SessionInner>,
    after: Map<u32, SessionInner>,
    sess: Session,
    her_key: Seq<u8>,
    user: Option<UserView>,
    require_auth: bool,
) -> bool {
    let id = sess.id_spec();
    let inner = after[id];
    &&& sess.wf()
    &&& sess.has_ifaces()
    &&& sess.her_pubkey_spec() == her_key
    &&& named_after(sess.name_spec(), user)
    &&& !crate::registry::index_taken(before, id)
    &&& after == before.insert(id, inner)
    &&& inner.her_pubkey_spec() == her_key
    &&& inner.her_ip6_spec() == sess.her_ip6_spec()
    &&& !inner.is_initiator()
    &&& inner.require_auth_spec() == require_auth
    &&& inner.psk_spec() == secret_of_user(user)
}

/// What becomes of a handshake that resumes the session under `psi`: the
/// tunnel of that session gets the user's secret as its pre-shared key, and
/// what the tunnel answers decides.
pub open spec fn resumed_handled(
    before: Map<u32, SessionInner>,
    after: Map<u32, SessionInner>,
    psi: u32,
    user: Option<UserView>,
    answer: TunnOutcome,
    wg: Seq<u8>,
    r: Result<Option<Session>, NoiseError>,
    out: Seq<u8>,
) -> bool {
    if !may_connect_from(user, before[psi].her_ip6_spec()) {
        &&& r == Err::<Option<Session>, NoiseError>(NoiseError::IpRestricted)
        &&& after == before
        &&& out == wg
    } else {
        &&& after.dom() == before.dom()
        &&& forall|other: u32|
            other != psi && before.contains_key(other) ==> (#[trigger] after[other])
                == before[other]
        &&& after[psi].her_pubkey_spec() == before[psi].her_pubkey_spec()
        &&& after[psi].her_ip6_spec() == before[psi].her_ip6_spec()
        &&& after[psi].is_initiator() == before[psi].is_initiator()
        &&& after[psi].require_auth_spec() == before[psi].require_auth_spec()
        &&& after[psi].additional_spec() == before[psi].additional_spec()
        &&& after[psi].psk_spec() == secret_of_user(user)
        &&& match answer {
            TunnOutcome::WriteToNetwork(packet) => r == Ok::<Option<Session>, NoiseError>(None)
                && out == packet@,
            _ => r == Err::<Option<Session>, NoiseError>(NoiseError::HandshakeDecryptFailed)
                && out == wg,
        }
    }
}

/// What becomes of a handshake that resumes no session: a session is made
/// for the sender, unless the registry is full, the key is refused or no
/// tunnel can be made for it; the user may have to connect from elsewhere;
/// and what the tunnel answers decides. Unless the tunnel answers with its
/// response, no session is kept.
pub open spec fn created_handled(
    before: Map<u32, SessionInner>,
    after: Map<u32, SessionInner>,
    private_key: Seq<u8>,
    her_key: Seq<u8>,
    user: Option<UserView>,
    require_auth: bool,
    answer: TunnOutcome,
    wg: Seq<u8>,
    r: Result<Option<Session>, NoiseError>,
    out: Seq<u8>,
) -> bool {
    let refused: Option<NoiseError> = if crate::registry::registration_refusal(
        before,
        private_key,
        her_key,
    ) is Some {
        crate::registry::registration_refusal(before, private_key, her_key)
    } else if !may_connect_from(user, crate::keys::ip6_of_key(her_key)) {
        Some(NoiseError::IpRestricted)
    } else if !(answer is WriteToNetwork) {
        Some(NoiseError::HandshakeDecryptFailed)
    } else {
        None
    };
    match refused {
        Some(e) => {
            &&& r == Err::<Option<Session>, NoiseError>(e)
            &&& after == before
            &&& out == wg
        },
        None => {
            &&& r is Ok
            &&& r->Ok_0 is Some
            &&& session_made(before, after, r->Ok_0->0, her_key, user, require_auth)
            &&& out == answer->WriteToNetwork_0@
        },
    }
}

/// What becomes of a packet that names no session of ours, by what the
/// handshaker said of it (`verdict`, which fits the packet) and what the
/// tunnel answered to the handshake (`answer`). The sender is the one whose
/// key the handshake gives when it is opened with the keys of this node.
/// `wg` is the packet, `out` what is left in the buffer.
pub open spec fn init_handled(
    users: Map<Seq<u8>, UserView>,
    before: Map<u32, SessionInner>,
    after: Map<u32, SessionInner>,
    private_key: Seq<u8>,
    public_key: Seq<u8>,
    wg: Seq<u8>,
    require_auth: bool,
    verdict: Verified,
    answer: TunnOutcome,
    r: Result<Option<Session>, NoiseError>,
    out: Seq<u8>,
) -> bool {
    match verified_spec(verdict) {
        Err(e) => r == Err::<Option<Session>, NoiseError>(e) && after == before && out == wg,
        Ok(Some(cookie)) => r == Ok::<Option<Session>, NoiseError>(None) && after == before
            && out == cookie,
        Ok(None) => match handshake_sender(private_key, public_key, init_packet(wg)) {
            None => r == Err::<Option<Session>, NoiseError>(NoiseError::HandshakeDecryptFailed)
                && after == before && out == wg,
            Some(key) => match admitted_spec(users, before, init_extra(wg), key, require_auth) {
                Err(e) => r == Err::<Option<Session>, NoiseError>(e) && after == before && out
                    == wg,
                Ok((user, Some(psi))) => resumed_handled(
                    before,
                    after,
                    psi,
                    user,
                    answer,
                    wg,
                    r,
                    out,
                ),
                Ok((user, None)) => created_handled(
                    before,
                    after,
                    private_key,
                    key,
                    user,
                    require_auth,
                    answer,
                    wg,
                    r,
                    out,
                ),
            },
        },
    }
}

/// Why a packet that names no session of ours is refused for its kind alone,
/// if it is: what is no packet is invalid, a cookie reply is a stray key, and
/// a data packet has no session. Of a handshake the handshaker decides.
pub open spec fn kind_refusal(packet: Seq<u8>) -> Option<NoiseError> {
    if !is_packet(packet) {
        Some(NoiseError::InvalidPacket)
    } else if is_packet_of_kind(packet, MSG_COOKIE) {
        Some(NoiseError::StrayKey)
    } else if is_packet_of_kind(packet, MSG_DATA) {
        Some(NoiseError::NoSession)
    } else {
        None
    }
}

/// Works on a packet that names no session of ours. `msg` holds the packet
/// as the tunnel reads it, with the additional data behind it.
///
/// The handshaker checks the packet first; under load it answers with a
/// cookie, which goes into the buffer, and no session is touched. The key of
/// the sender is then read from the handshake, and `admission` decides who
/// the sender is and whether a session is resumed. Otherwise a responder
/// session is made for the sender, named after the user, or `<anon>`. A user
/// that is restricted to another address is refused. The secret of the user
/// is the pre-shared key of the tunnel, and the tunnel answers the
/// handshake: its response goes into the buffer.
///
/// The handle of a session that was made is handed back. Whenever the packet
/// is refused, the buffer is left as it was and no session that was made for
/// the packet is kept. What is no handshake is refused for its kind alone.
pub fn handle_init_msg(
    ca: &mut CryptoNoise,
    tc: &mut ThreadCtx,
    msg: &mut Vec<u8>,
    peer_id: [u8; 16],
    require_auth: bool,
) -> (r: Result<Option<Session>, NoiseError>)
    requires
        old(ca).wf(),
        old(tc).wf(),
    ensures
        final(ca).wf(),
        final(tc).wf(),
        final(ca).users_spec() == old(ca).users_spec(),
        final(ca).user_count() == old(ca).user_count(),
        final(ca).public_key_spec() == old(ca).public_key_spec(),
        final(ca).private_key_spec() == old(ca).private_key_spec(),
        match kind_refusal(init_packet(old(msg)@)) {
            Some(e) => {
                &&& r == Err::<Option<Session>, NoiseError>(e)
                &&& final(ca).sessions_spec() == old(ca).sessions_spec()
                &&& final(msg)@ == old(msg)@
            },
            None => true,
        },
        exists|verdict: Verified, answer: TunnOutcome|
            {
                &&& verdict_fits(verdict, init_packet(old(msg)@))
                &&& decapsulation_fits(answer, init_packet(old(msg)@))
                &&& #[trigger] init_handled(
                    old(ca).users_spec(),
                    old(ca).sessions_spec(),
                    final(ca).sessions_spec(),
                    old(ca).private_key_spec(),
                    old(ca).public_key_spec(),
                    old(msg)@,
                    require_auth,
                    verdict,
                    answer,
                    r,
                    final(msg)@,
                )
            },
{
    let ghost users = ca.users_spec();
    let ghost before = ca.sessions_spec();
    let ghost private = ca.private_key_spec();
    let ghost public = ca.public_key_spec();
    let ghost wg = msg@;
    let len: usize = msg.len();
    let cut: usize = if len >= INIT_SZ {
        INIT_SZ
    } else {
        len
    };
    let packet: Vec<u8> = copy_range(msg.as_slice(), 0, cut);
    let extra: Vec<u8> = copy_range(msg.as_slice(), cut, len);
    assert(extra@ =~= init_extra(wg));
    assert(packet@ =~= init_packet(wg));
    let verdict = ca.verify_packet(tc, peer_id, packet.as_slice());
    let ghost v = verdict;
    match verified(verdict) {
        Ok(None) => {},
        Ok(Some(cookie)) => {
            *msg = cookie;
            let r: Result<Option<Session>, NoiseError> = Ok(None);
            assert(init_handled(
                users, before, ca.sessions_spec(), private, public, wg, require_auth, v,
                TunnOutcome::Done, r, msg@,
            ));
            return r;
        },
        Err(e) => {
            let r: Result<Option<Session>, NoiseError> = Err(e);
            assert(init_handled(
                users, before, ca.sessions_spec(), private, public, wg, require_auth, v,
                TunnOutcome::Done, r, msg@,
            ));
            return r;
        },
    }
    let her_key: [u8; 32] = match ca.peer_key_of(packet.as_slice()) {
        Some(key) => key,
        None => {
            let r: Result<Option<Session>, NoiseError> = Err(NoiseError::HandshakeDecryptFailed);
            assert(init_handled(
                users, before, ca.sessions_spec(), private, public, wg, require_auth, v,
                TunnOutcome::Done, r, msg@,
            ));
            return r;
        },
    };
    let (user_opt, resumed) = match admission(ca, extra.as_slice(), &her_key, require_auth) {
        Ok(pair) => pair,
        Err(e) => {
            let r: Result<Option<Session>, NoiseError> = Err(e);
            assert(init_handled(
                users, before, ca.sessions_spec(), private, public, wg, require_auth, v,
                TunnOutcome::Done, r, msg@,
            ));
            return r;
        },
    };
    let ghost user = user_view(user_opt);
    let psk: Option<[u8; 32]> = preshared_key_of(&user_opt);
    match resumed {
        Some(psi) => {
            let her_ip6: [u8; 16] = match ca.session(psi) {
                Some(inner) => *inner.her_ip6(),
                None => {
                    return Err(NoiseError::NoSession);
                },
            };
            match check_restriction(&user_opt, &her_ip6) {
                Ok(()) => {},
                Err(e) => {
                    let r: Result<Option<Session>, NoiseError> = Err(e);
                    assert(init_handled(
                        users, before, ca.sessions_spec(), private, public, wg, require_auth, v,
                        TunnOutcome::Done, r, msg@,
                    ));
                    return r;
                },
            }
            match ca.set_preshared_key(psi, psk) {
                Ok(()) => {},
                Err(e) => {
                    let r: Result<Option<Session>, NoiseError> = Err(e);
                    assert(init_handled(
                        users, before, ca.sessions_spec(), private, public, wg, require_auth, v,
                        TunnOutcome::Done, r, msg@,
                    ));
                    return r;
                },
            }
            let outcome = match ca.session(psi) {
                Some(inner) => inner.decapsulate(tc, Some(peer_id), packet.as_slice()),
                None => {
                    return Err(NoiseError::NoSession);
                },
            };
            let ghost answer = outcome;
            let r: Result<Option<Session>, NoiseError> = match handshake_answered(outcome, msg) {
                Ok(()) => Ok(None),
                Err(e) => Err(e),
            };
            assert(init_handled(
                users, before, ca.sessions_spec(), private, public, wg, require_auth, v, answer, r,
                msg@,
            ));
            r
        },
        None => {
            let name: String = display_name_of(&user_opt);
            let sess = match Session::new0(
                ca,
                PublicKey::new(her_key),
                name,
                false,
                require_auth,
                psk,
            ) {
                Ok(sess) => sess,
                Err(e) => {
                    let r: Result<Option<Session>, NoiseError> = Err(e);
                    assert(init_handled(
                        users, before, ca.sessions_spec(), private, public, wg, require_auth, v,
                        TunnOutcome::Done, r, msg@,
                    ));
                    return r;
                },
            };
            let her_ip6: [u8; 16] = sess.get_her_ip6();
            match check_restriction(&user_opt, &her_ip6) {
                Ok(()) => {},
                Err(e) => {
                    sess.release(ca);
                    assert(ca.sessions_spec() =~= before);
                    let r: Result<Option<Session>, NoiseError> = Err(e);
                    assert(init_handled(
                        users, before, ca.sessions_spec(), private, public, wg, require_auth, v,
                        TunnOutcome::Done, r, msg@,
                    ));
                    return r;
                },
            }
            let outcome = match ca.session(sess.get_id()) {
                Some(inner) => inner.decapsulate(tc, Some(peer_id), packet.as_slice()),
                None => {
                    return Err(NoiseError::NoSession);
                },
            };
            let ghost answer = outcome;
            match handshake_answered(outcome, msg) {
                Ok(()) => {
                    let r: Result<Option<Session>, NoiseError> = Ok(Some(sess));
                    assert(init_handled(
                        users, before, ca.sessions_spec(), private, public, wg, require_auth, v,
                        answer, r, msg@,
                    ));
                    r
                },
                Err(e) => {
                    sess.release(ca);
                    assert(ca.sessions_spec() =~= before);
                    let r: Result<Option<Session>, NoiseError> = Err(e);
                    assert(init_handled(
                        users, before, ca.sessions_spec(), private, public, wg, require_auth, v,
                        answer, r, msg@,
                    ));
                    r
                },
            }
        },
    }
}

/// What the dispatcher hands back: what the caller is told, the handle of a
/// session that was made, and the endpoint that the buffer goes to.
pub type Handled = (TryMsgReply, Option<Session>, NextForward);

/// Whether the dispatcher's result for a packet of a session is what
/// `decapsulated` makes of the tunnel's answer.
pub open spec fn handled_as(
    expected: Result<(Seq<u8>, NextForward), NoiseError>,
    r: Result<Handled, NoiseError>,
    out: Seq<u8>,
) -> bool {
    match expected {
        Ok((bytes, next)) => r == Ok::<Handled, NoiseError>((TryMsgReply::Done, None, next))
            && out == bytes,
        Err(e) => r == Err::<Handled, NoiseError>(e),
    }
}

/// How the sessions differ after a packet of the session under `index` for
/// which the tunnel gave `outcome`: the session takes note of the peer's
/// index if the packet carries one and the tunnel took the packet; nothing
/// else changes.
pub open spec fn sessions_after(
    before: Map<u32, SessionInner>,
    after: Map<u32, SessionInner>,
    index: u32,
    peer_index: Option<u32>,
    outcome: TunnOutcome,
) -> bool {
    if notes_peer_index(outcome) && peer_index is Some {
        &&& after.dom() == before.dom()
        &&& forall|other: u32|
            other != index && before.contains_key(other) ==> (#[trigger] after[other])
                == before[other]
        &&& crate::registry::session_noted(before[index], after[index], peer_index->0)
    } else {
        after == before
    }
}

/// How the dispatcher goes on after `handle_init_msg`, which handed back
/// `made` and left `left` in the buffer, with the sessions `mid`: what is
/// left is framed for the wire and goes back to the peer. If it cannot be
/// framed, a session that was made is given up again.
pub open spec fn reply_framed(
    made: Result<Option<Session>, NoiseError>,
    left: Seq<u8>,
    mid: Map<u32, SessionInner>,
    before: Map<u32, SessionInner>,
    r: Result<Handled, NoiseError>,
    after: Map<u32, SessionInner>,
    out: Seq<u8>,
) -> bool {
    match made {
        Err(e) => r == Err::<Handled, NoiseError>(e) && after == mid && out == left,
        Ok(sess) => match crate::session::tick_frame(left) {
            Ok(wire) => {
                &&& r == Ok::<Handled, NoiseError>(
                    (TryMsgReply::ReplyToPeer, sess, NextForward::Cipher),
                )
                &&& after == mid
                &&& out == wire
            },
            Err(e) => {
                &&& r == Err::<Handled, NoiseError>(e)
                &&& after == if sess is Some {
                    before
                } else {
                    mid
                }
                &&& out == if wg_well_formed(left) {
                    cjdns_of_wg(left)
                } else {
                    left
                }
            },
        },
    }
}

/// Works on a packet from the wire, without the address of the peer in front
/// of it. The buffer is turned into the tunnel's framing first; what is no
/// frame is refused and left as it was.
///
/// A packet that names a session of ours goes to the tunnel of that session;
/// `decapsulated` says what becomes of the tunnel's answer, and the caller
/// is told `Done`. A session that is not registered is refused with
/// `NoSession`, a packet that does not fit the scratch space with
/// `TooLarge`.
///
/// A packet that names none is a handshake initiation and goes to
/// `handle_init_msg`. What that leaves in the buffer, the tunnel's response
/// or a cookie, is framed for the wire and goes back to the peer: the caller
/// is told `ReplyToPeer`, and gets the handle of the session if one was
/// made.
pub fn handle_incoming(
    ca: &mut CryptoNoise,
    tc: &mut ThreadCtx,
    msg: &mut Vec<u8>,
    peer_id: [u8; 16],
    require_auth: bool,
) -> (r: Result<Handled, NoiseError>)
    requires
        old(ca).wf(),
        old(tc).wf(),
    ensures
        final(ca).wf(),
        final(tc).wf(),
        final(ca).users_spec() == old(ca).users_spec(),
        final(ca).user_count() == old(ca).user_count(),
        final(ca).public_key_spec() == old(ca).public_key_spec(),
        final(ca).private_key_spec() == old(ca).private_key_spec(),
        !cjdns_well_formed(old(msg)@) ==> {
            &&& r == Err::<Handled, NoiseError>(refusal(old(msg)@.len()))
            &&& final(msg)@ == old(msg)@
            &&& final(ca).sessions_spec() == old(ca).sessions_spec()
        },
        cjdns_well_formed(old(msg)@) && routing_of(wg_of_cjdns(old(msg)@)).our_index is None
            ==> exists|
            verdict: Verified,
            answer: TunnOutcome,
            made: Result<Option<Session>, NoiseError>,
            mid: Map<u32, SessionInner>,
            left: Seq<u8>,
        |
            {
                &&& verdict_fits(verdict, init_packet(wg_of_cjdns(old(msg)@)))
                &&& decapsulation_fits(answer, init_packet(wg_of_cjdns(old(msg)@)))
                &&& #[trigger] init_handled(
                    old(ca).users_spec(),
                    old(ca).sessions_spec(),
                    mid,
                    old(ca).private_key_spec(),
                    old(ca).public_key_spec(),
                    wg_of_cjdns(old(msg)@),
                    require_auth,
                    verdict,
                    answer,
                    made,
                    left,
                )
                &&& reply_framed(
                    made,
                    left,
                    mid,
                    old(ca).sessions_spec(),
                    r,
                    final(ca).sessions_spec(),
                    final(msg)@,
                )
                &&& verdict is Cookie ==> {
                    &&& r == Ok::<Handled, NoiseError>(
                        (TryMsgReply::ReplyToPeer, None, NextForward::Cipher),
                    )
                    &&& final(msg)@ == cjdns_of_wg(verdict->Cookie_0@)
                    &&& final(ca).sessions_spec() == old(ca).sessions_spec()
                }
            },
        cjdns_well_formed(old(msg)@) ==> {
            let wg = wg_of_cjdns(old(msg)@);
            let route = routing_of(wg);
            match route.our_index {
                Some(index) => {
                    if !old(ca).sessions_spec().contains_key(index) {
                        &&& r == Err::<Handled, NoiseError>(NoiseError::NoSession)
                        &&& final(msg)@ == wg
                        &&& final(ca).sessions_spec() == old(ca).sessions_spec()
                    } else if wg.len() > CRYPT_BUF_SZ {
                        &&& r == Err::<Handled, NoiseError>(NoiseError::TooLarge)
                        &&& final(msg)@ == wg
                        &&& final(ca).sessions_spec() == old(ca).sessions_spec()
                    } else {
                        exists|outcome: TunnOutcome, state: State|
                            {
                                &&& (state == State::Init || state == State::Established)
                                &&& decapsulation_fits(outcome, wg)
                                &&& sessions_after(
                                    old(ca).sessions_spec(),
                                    final(ca).sessions_spec(),
                                    index,
                                    route.peer_index,
                                    outcome,
                                )
                                &&& #[trigger] handled_as(
                                    decapsulated_spec(
                                        outcome,
                                        state,
                                        final(ca).sessions_spec()[index].additional_spec(),
                                        wg,
                                    ),
                                    r,
                                    final(msg)@,
                                )
                            }
                    }
                },
                None => match r {
                    Ok((reply, made, next)) => {
                        &&& reply == TryMsgReply::ReplyToPeer
                        &&& next == NextForward::Cipher
                        &&& cjdns_well_formed(final(msg)@)
                        &&& final(msg)@.len() % 4 == 0
                        &&& match made {
                            Some(sess) => {
                                let id = sess.id_spec();
                                let inner = final(ca).sessions_spec()[id];
                                &&& sess.wf()
                                &&& sess.has_ifaces()
                                &&& !crate::registry::index_taken(old(ca).sessions_spec(), id)
                                &&& final(ca).sessions_spec() == old(ca).sessions_spec().insert(
                                    id,
                                    inner,
                                )
                                &&& inner.her_pubkey_spec() == sess.her_pubkey_spec()
                                &&& inner.her_ip6_spec() == sess.her_ip6_spec()
                                &&& !inner.is_initiator()
                                &&& inner.require_auth_spec() == require_auth
                                &&& admitted_spec(
                                    old(ca).users_spec(),
                                    old(ca).sessions_spec(),
                                    init_extra(wg),
                                    sess.her_pubkey_spec(),
                                    require_auth,
                                ) is Ok
                            },
                            None => final(ca).sessions_spec().dom() == old(
                                ca,
                            ).sessions_spec().dom(),
                        }
                    },
                    Err(_) => final(ca).sessions_spec().dom() == old(ca).sessions_spec().dom(),
                },
            }
        },
{
    let route = match wg_from_cjdns(msg) {
        Ok(route) => route,
        Err(e) => {
            return Err(e);
        },
    };
    let ghost wg = msg@;
    match route.our_index {
        Some(index) => {
            if !ca.has_session(index) {
                return Err(NoiseError::NoSession);
            }
            if msg.len() > CRYPT_BUF_SZ {
                return Err(NoiseError::TooLarge);
            }
            let (outcome, state) = match ca.session(index) {
                Some(inner) => (
                    inner.decapsulate(tc, Some(peer_id), msg.as_slice()),
                    inner.get_state(),
                ),
                None => {
                    return Err(NoiseError::NoSession);
                },
            };
            if outcome_notes_peer_index(&outcome) {
                match route.peer_index {
                    Some(peer_index) => {
                        ca.note_peer_index(index, peer_index);
                    },
                    None => {},
                }
            }
            let additional: Vec<u8> = match ca.session(index) {
                Some(inner) => inner.additional_data(),
                None => {
                    return Err(NoiseError::NoSession);
                },
            };
            let ghost chosen = outcome;
            let next = decapsulated(outcome, state, additional.as_slice(), msg);
            let r: Result<Handled, NoiseError> = match next {
                Ok(next) => Ok((TryMsgReply::Done, None, next)),
                Err(e) => Err(e),
            };
            proof {
                assert(sessions_after(
                    old(ca).sessions_spec(),
                    ca.sessions_spec(),
                    index,
                    route.peer_index,
                    chosen,
                ));
                assert(handled_as(
                    decapsulated_spec(
                        chosen,
                        state,
                        ca.sessions_spec()[index].additional_spec(),
                        wg,
                    ),
                    r,
                    msg@,
                ));
            }
            r
        },
        None => {
            let first = handle_init_msg(ca, tc, msg, peer_id, require_auth);
            let ghost seen = first;
            let ghost mid = ca.sessions_spec();
            let ghost left = msg@;
            let made = match first {
                Ok(made) => made,
                Err(e) => {
                    let r: Result<Handled, NoiseError> = Err(e);
                    assert(reply_framed(seen, left, mid, old(ca).sessions_spec(), r, mid, left));
                    return r;
                },
            };
            let framed: Result<(), NoiseError> = match cjdns_from_wg(msg) {
                Ok(()) => if msg.len() % 4 != 0 {
                    Err(NoiseError::AlignmentFault)
                } else {
                    Ok(())
                },
                Err(e) => Err(e),
            };
            match framed {
                Ok(()) => {
                    let r: Result<Handled, NoiseError> = Ok(
                        (TryMsgReply::ReplyToPeer, made, NextForward::Cipher),
                    );
                    assert(reply_framed(seen, left, mid, old(ca).sessions_spec(), r, mid, msg@));
                    r
                },
                Err(e) => {
                    let ghost was_made = made is Some;
                    match made {
                        Some(sess) => {
                            sess.release(ca);
                            assert(ca.sessions_spec() =~= old(ca).sessions_spec());
                        },
                        None => {},
                    }
                    let r: Result<Handled, NoiseError> = Err(e);
                    assert(reply_framed(
                        seen,
                        left,
                        mid,
                        old(ca).sessions_spec(),
                        r,
                        ca.sessions_spec(),
                        msg@,
                    ));
                    r
                },
            }
        },
    }
}

/// Why a packet from the wire is not handed to the dispatcher, if it is not:
/// it is too short to hold the address of the peer, or the session of the
/// endpoint is not registered.
pub open spec fn ciphertext_refusal(len: nat, registered: bool) -> Option<NoiseError> {
    if len < ADDRESS_SZ {
        Some(NoiseError::Runt)
    } else if !registered {
        Some(NoiseError::NoSession)
    } else {
        None
    }
}

/// What the ciphertext endpoint of a session makes of a handshake
/// initiation, for which `handle_init_msg` handed back `made` and left
/// `left` in the buffer, with the sessions `mid`. An endpoint of a session
/// makes no session: if one was made, it is given up and the packet is
/// refused with `UnexpectedSession`, unless framing the reply failed before.
/// Otherwise the reply, framed for the wire, goes back to the peer.
pub open spec fn endpoint_replied(
    made: Result<Option<Session>, NoiseError>,
    left: Seq<u8>,
    mid: Map<u32, SessionInner>,
    before: Map<u32, SessionInner>,
    r: Result<NextForward, NoiseError>,
    after: Map<u32, SessionInner>,
    out: Seq<u8>,
) -> bool {
    match made {
        Err(e) => r == Err::<NextForward, NoiseError>(e) && after == mid && out == left,
        Ok(Some(_)) => {
            &&& after == before
            &&& match crate::session::tick_frame(left) {
                Ok(wire) => r == Err::<NextForward, NoiseError>(NoiseError::UnexpectedSession)
                    && out == wire,
                Err(e) => r == Err::<NextForward, NoiseError>(e),
            }
        },
        Ok(None) => {
            &&& after == mid
            &&& match crate::session::tick_frame(left) {
                Ok(wire) => r == Ok::<NextForward, NoiseError>(NextForward::Cipher) && out
                    == wire,
                Err(e) => r == Err::<NextForward, NoiseError>(e),
            }
        },
    }
}

/// Whether the result of the ciphertext endpoint for a packet of a session
/// is what `decapsulated` makes of the tunnel's answer.
pub open spec fn received_as(
    expected: Result<(Seq<u8>, NextForward), NoiseError>,
    r: Result<NextForward, NoiseError>,
    out: Seq<u8>,
) -> bool {
    match expected {
        Ok((bytes, next)) => r == Ok::<NextForward, NoiseError>(next) && out == bytes,
        Err(e) => r == Err::<NextForward, NoiseError>(e),
    }
}

impl CiphertextRecv {
    /// Takes a packet that the router got from a peer: sixteen bytes of the
    /// peer's address, then the frame. The address is taken off and the frame
    /// goes to the dispatcher, with the policy of the session of this
    /// endpoint; the result names the endpoint that the buffer is to be sent
    /// on.
    ///
    /// A packet shorter than the address is refused with `Runt`, an endpoint
    /// whose session is not registered with `NoSession`; the buffer is then
    /// left as it was. A packet that made the dispatcher set up a new session
    /// is refused with `UnexpectedSession`, and that session is given up: the
    /// sessions are those from before the call.
    pub fn recv(&self, ca: &mut CryptoNoise, tc: &mut ThreadCtx, m: &mut Vec<u8>) -> (r: Result<
        NextForward,
        NoiseError,
    >)
        requires
            old(ca).wf(),
            old(tc).wf(),
        ensures
            final(ca).wf(),
            final(tc).wf(),
            final(ca).users_spec() == old(ca).users_spec(),
            final(ca).user_count() == old(ca).user_count(),
            final(ca).public_key_spec() == old(ca).public_key_spec(),
            final(ca).private_key_spec() == old(ca).private_key_spec(),
            final(ca).sessions_spec().dom() == old(ca).sessions_spec().dom(),
            match ciphertext_refusal(old(m)@.len(), old(ca).sessions_spec().contains_key(self.0)) {
                Some(e) => {
                    &&& r == Err::<NextForward, NoiseError>(e)
                    &&& final(m)@ == old(m)@
                    &&& final(ca).sessions_spec() == old(ca).sessions_spec()
                },
                None => {
                    let frame = old(m)@.subrange(ADDRESS_SZ as int, old(m)@.len() as int);
                    &&& !cjdns_well_formed(frame) ==> r == Err::<NextForward, NoiseError>(
                        refusal(frame.len()),
                    ) && final(m)@ == frame
                    &&& cjdns_well_formed(frame) && routing_of(wg_of_cjdns(frame)).our_index
                        is None && r is Ok ==> r == Ok::<NextForward, NoiseError>(
                        NextForward::Cipher,
                    ) && cjdns_well_formed(final(m)@)
                    &&& cjdns_well_formed(frame) && routing_of(wg_of_cjdns(frame)).our_index
                        is None ==> exists|
                        verdict: Verified,
                        answer: TunnOutcome,
                        made: Result<Option<Session>, NoiseError>,
                        mid: Map<u32, SessionInner>,
                        left: Seq<u8>,
                    |
                        {
                            &&& verdict_fits(verdict, init_packet(wg_of_cjdns(frame)))
                            &&& decapsulation_fits(answer, init_packet(wg_of_cjdns(frame)))
                            &&& #[trigger] init_handled(
                                old(ca).users_spec(),
                                old(ca).sessions_spec(),
                                mid,
                                old(ca).private_key_spec(),
                                old(ca).public_key_spec(),
                                wg_of_cjdns(frame),
                                old(ca).sessions_spec()[self.0].require_auth_spec(),
                                verdict,
                                answer,
                                made,
                                left,
                            )
                            &&& endpoint_replied(
                                made,
                                left,
                                mid,
                                old(ca).sessions_spec(),
                                r,
                                final(ca).sessions_spec(),
                                final(m)@,
                            )
                            &&& verdict is Cookie ==> {
                                &&& r == Ok::<NextForward, NoiseError>(NextForward::Cipher)
                                &&& final(m)@ == cjdns_of_wg(verdict->Cookie_0@)
                                &&& final(ca).sessions_spec() == old(ca).sessions_spec()
                            }
                        }
                    &&& cjdns_well_formed(frame) && routing_of(wg_of_cjdns(frame)).our_index
                        is Some ==> {
                        let wg = wg_of_cjdns(frame);
                        let route = routing_of(wg);
                        let index = route.our_index->0;
                        if !old(ca).sessions_spec().contains_key(index) {
                            r == Err::<NextForward, NoiseError>(NoiseError::NoSession)
                        } else if wg.len() > CRYPT_BUF_SZ {
                            r == Err::<NextForward, NoiseError>(NoiseError::TooLarge)
                        } else {
                            exists|outcome: TunnOutcome, state: State|
                                {
                                    &&& (state == State::Init || state == State::Established)
                                    &&& decapsulation_fits(outcome, wg)
                                    &&& sessions_after(
                                        old(ca).sessions_spec(),
                                        final(ca).sessions_spec(),
                                        index,
                                        route.peer_index,
                                        outcome,
                                    )
                                    &&& #[trigger] received_as(
                                        decapsulated_spec(
                                            outcome,
                                            state,
                                            final(ca).sessions_spec()[index].additional_spec(),
                                            wg,
                                        ),
                                        r,
                                        final(m)@,
                                    )
                                }
                        }
                    }
                },
            },
    {
        if m.len() < ADDRESS_SZ {
            return Err(NoiseError::Runt);
        }
        let require_auth: bool = match ca.session(self.0) {
            Some(inner) => inner.require_auth(),
            None => {
                return Err(NoiseError::NoSession);
            },
        };
        let mut peer_id: [u8; 16] = [0u8; 16];
        let mut i: usize = 0;
        while i < 16
            invariant
                i <= 16,
                m@.len() >= 16,
            decreases 16 - i,
        {
            peer_id[i] = m[i];
            i = i + 1;
        }
        let frame: Vec<u8> = copy_range(m.as_slice(), ADDRESS_SZ, m.len());
        let ghost wire = frame@;
        *m = frame;
        let handled = handle_incoming(ca, tc, m, peer_id, require_auth);
        let ghost seen = handled;
        let ghost after = ca.sessions_spec();
        let ghost out = m@;
        let r: Result<NextForward, NoiseError> = match handled {
            Err(e) => Err(e),
            Ok((reply, made, next)) => {
                match made {
                    Some(sess) => {
                        sess.release(ca);
                        assert(ca.sessions_spec() =~= old(ca).sessions_spec());
                        Err(NoiseError::UnexpectedSession)
                    },
                    None => match reply {
                        TryMsgReply::ReplyToPeer => Ok(NextForward::Cipher),
                        TryMsgReply::Done => Ok(next),
                        TryMsgReply::Error => Err(NoiseError::UnexpectedResult),
                        TryMsgReply::RecvPlaintext => Err(NoiseError::UnexpectedResult),
                    },
                }
            },
        };
        proof {
            if cjdns_well_formed(wire) && routing_of(wg_of_cjdns(wire)).our_index is Some {
                let wg = wg_of_cjdns(wire);
                let route = routing_of(wg);
                let index = route.our_index->0;
                if old(ca).sessions_spec().contains_key(index) && wg.len() <= CRYPT_BUF_SZ {
                    let (outcome, state) = choose|outcome: TunnOutcome, state: State|
                        {
                            &&& (state == State::Init || state == State::Established)
                            &&& decapsulation_fits(outcome, wg)
                            &&& sessions_after(
                                old(ca).sessions_spec(),
                                after,
                                index,
                                route.peer_index,
                                outcome,
                            )
                            &&& #[trigger] handled_as(
                                decapsulated_spec(
                                    outcome,
                                    state,
                                    after[index].additional_spec(),
                                    wg,
                                ),
                                seen,
                                out,
                            )
                        };
                    assert(received_as(
                        decapsulated_spec(outcome, state, after[index].additional_spec(), wg),
                        r,
                        m@,
                    ));
                }
            }
        }
        r
    }
}

} // verus!
