//! The registry of a node: its long-term keys, the users that may connect,
//! the handshaker, and the sessions by index.

use vstd::prelude::*;
use std::collections::HashMap;
use boringtun::noise::rate_limiter::RateLimiter;
use crate::auth::{
    anon_login, auth_inputs, challenge_of, compute_auth, ip6_view, push_anon_login,
    inserted, secret_of, AuthTable, AuthType, Challenge2, User, UserView,
};
use crate::bytes::push_range;
use crate::error::NoiseError;
use crate::keys::{ip6_from_key, ip6_of_key, key_has_mesh_address, PrivateKey, PublicKey, ADDRESS_PREFIX};
use crate::session::{
    no_peer_index, sent_as, stats_of, tick_spec, ticked_as, CryptoStats, NextForward,
    SessionCounters, SessionInner, State, ThreadCtx,
};
use crate::tunnel::{
    decapsulation_fits, derive_public_key, encapsulation_fits, handshake_peer_key,
    handshake_sender, handshaker_reset, handshaker_verify, is_packet_of_kind,
    public_key_of_private, rate_limiter_new, timers_fit, tunnel_can_be_made, verdict_fits,
    TunnOutcome, Verified,
};
use crate::codec::MSG_INIT;

verus! {

/// The number of handshakes in a second beyond which cookies are asked for.
pub const HANDSHAKE_RATE_LIMIT: u64 = 100;

/// The index that no session ever has.
pub const UNASSIGNED: u32 = 0xffff_ffff;

/// The receiver of the plaintext endpoint of the session with this index.
#[derive(Debug, Clone, Copy, PartialEq, Eq)]
pub struct PlaintextRecv(pub u32);

/// The receiver of the ciphertext endpoint of the session with this index.
#[derive(Debug, Clone, Copy, PartialEq, Eq)]
pub struct CiphertextRecv(pub u32);

/// One of the two endpoints of a session.
#[derive(Debug, Clone, Copy, PartialEq, Eq)]
pub enum Iface {
    /// Where the router hands in plaintext.
    Plaintext(PlaintextRecv),
    /// Where the router hands in what came from the peer.
    Ciphertext(CiphertextRecv),
}

/// The registry of a node.
pub struct CryptoNoise {
    private_key_raw: [u8; 32],
    public_key_raw: [u8; 32],
    users: AuthTable,
    noise_handshaker: RateLimiter,
    sessions: HashMap<u32, SessionInner>,
    next_sess_index: u32,
}

/// The handle of a session. The registry keeps the session until the handle
/// is released. The handle is plain data: the contracts speak of its fields
/// as they are when a function is called.
pub struct Session {
    pub display_name: String,
    pub her_ip6: [u8; 16],
    pub her_pubkey: [u8; 32],
    pub id: u32,
    /// The two endpoints, until they are handed out.
    pub ifaces: Option<(Iface, Iface)>,
}

/// The index that is tried `j` steps after `start`, counting round.
pub open spec fn candidate(start: u32, j: int) -> u32 {
    ((start as int + j) % 0x1_0000_0000) as u32
}

/// Fewer than 2^32 steps apart, two candidates differ.
proof fn lemma_candidates_differ(start: u32, i: int, j: int)
    requires
        0 <= i < j < 0x1_0000_0000,
    ensures
        candidate(start, i) != candidate(start, j),
{
    let a = start as int + i;
    let b = start as int + j;
    if a % 0x1_0000_0000 == b % 0x1_0000_0000 {
        assert(a == 0x1_0000_0000 * (a / 0x1_0000_0000) + a % 0x1_0000_0000);
        assert(b == 0x1_0000_0000 * (b / 0x1_0000_0000) + b % 0x1_0000_0000);
        assert(b - a == 0x1_0000_0000 * (b / 0x1_0000_0000 - a / 0x1_0000_0000));
        assert(false);
    }
}

/// A set that holds the first `k` candidates has at least `k` members.
proof fn lemma_pigeonhole(taken: Set<u32>, start: u32, k: int)
    requires
        taken.finite(),
        0 <= k <= 0x1_0000_0000,
        forall|j: int| 0 <= j < k ==> taken.contains(#[trigger] candidate(start, j)),
    ensures
        taken.len() >= k,
    decreases k,
{
    if k > 0 {
        let c = candidate(start, k - 1);
        let rest = taken.remove(c);
        assert forall|j: int| 0 <= j < k - 1 implies rest.contains(
            #[trigger] candidate(start, j),
        ) by {
            lemma_candidates_differ(start, j, k - 1);
        }
        lemma_pigeonhole(rest, start, k - 1);
    }
}

/// Why no session is made for a public key, if none is: the key is all zero,
/// or its address is no address of the mesh.
pub open spec fn key_refusal(key: Seq<u8>) -> Option<NoiseError> {
    if forall|i: int| 0 <= i < 32 ==> key[i] == 0 {
        Some(NoiseError::KeyUnknown)
    } else if !key_has_mesh_address(key) {
        Some(NoiseError::InvalidPublicKey)
    } else {
        None
    }
}

/// Why no session is made for a public key by the node with a private key,
/// if none is: the key is refused, or no tunnel can be made between the two.
pub open spec fn session_refusal(private_key: Seq<u8>, her_key: Seq<u8>) -> Option<NoiseError> {
    if key_refusal(her_key) is Some {
        key_refusal(her_key)
    } else if !tunnel_can_be_made(private_key, her_key) {
        Some(NoiseError::TunnelCreate)
    } else {
        None
    }
}

/// Why no session is registered for a public key, if none is: every index
/// is taken, or no session is made for the key.
pub open spec fn registration_refusal(
    sessions: Map<u32, SessionInner>,
    private_key: Seq<u8>,
    her_key: Seq<u8>,
) -> Option<NoiseError> {
    if sessions.len() >= UNASSIGNED {
        Some(NoiseError::RegistryFull)
    } else {
        session_refusal(private_key, her_key)
    }
}

impl Session {
    /// Whether the two endpoints are still to be handed out.
    pub open spec fn has_ifaces(&self) -> bool {
        self.ifaces is Some
    }

    /// The two endpoints, if they are still to be handed out.
    pub open spec fn ifaces_spec(&self) -> Option<(Iface, Iface)> {
        self.ifaces
    }

    /// The handle once its endpoints have been handed out.
    pub open spec fn without_ifaces(self) -> Session {
        Session { ifaces: None, ..self }
    }

    /// The endpoints are handed out once: what is left of a handle after
    /// they were asked for holds none, so a second call gets nothing; a
    /// first call gets them exactly if the handle still has them.
    pub proof fn lemma_ifaces_handed_out_once(self)
        ensures
            self.ifaces_spec() is Some <==> self.has_ifaces(),
            self.without_ifaces().ifaces_spec() is None,
            !self.without_ifaces().has_ifaces(),
            self.without_ifaces().without_ifaces() == self.without_ifaces(),
    {
    }

    /// The index of the session.
    pub open spec fn id_spec(&self) -> u32 {
        self.id
    }

    /// The public key of the peer.
    pub open spec fn her_pubkey_spec(&self) -> Seq<u8> {
        self.her_pubkey@
    }

    /// The address of the peer.
    pub open spec fn her_ip6_spec(&self) -> Seq<u8> {
        self.her_ip6@
    }

    /// The name of the session.
    pub open spec fn name_spec(&self) -> Seq<char> {
        self.display_name@
    }

    /// Whether the handle is in order: its address is the one derived from
    /// its key, and is an address of the mesh.
    pub open spec fn wf(&self) -> bool {
        &&& self.her_ip6_spec() == ip6_of_key(self.her_pubkey_spec())
        &&& self.her_ip6_spec()[0] == ADDRESS_PREFIX
    }

    /// Makes a session for a peer, not yet registered: the handle, with the
    /// index still unassigned, and what the registry will keep.
    ///
    /// A key that is all zero is refused with `KeyUnknown`, one whose address
    /// is no address of the mesh with `InvalidPublicKey`, and one for which no
    /// tunnel can be made with the private key of this node with
    /// `TunnelCreate`. For every other key the session is made.
    pub fn new1(
        ca: &CryptoNoise,
        her_pub_key: &PublicKey,
        display_name: String,
        is_initiator: bool,
        require_auth: bool,
        index: u32,
        preshared_key: Option<[u8; 32]>,
    ) -> (r: Result<(Session, SessionInner), NoiseError>)
        ensures
            match session_refusal(ca.private_key_spec(), her_pub_key@) {
                Some(e) => r == Err::<(Session, SessionInner), NoiseError>(e),
                None => match r {
                    Ok((sess, inner)) => {
                        &&& sess.wf()
                        &&& sess.has_ifaces()
                        &&& sess.id_spec() == UNASSIGNED
                        &&& sess.name_spec() == display_name@
                        &&& sess.her_pubkey_spec() == her_pub_key@
                        &&& inner.wf()
                        &&& inner.her_pubkey_spec() == her_pub_key@
                        &&& inner.her_ip6_spec() == sess.her_ip6_spec()
                        &&& inner.is_initiator() == is_initiator
                        &&& inner.require_auth_spec() == require_auth
                        &&& inner.index_spec() == index
                        &&& inner.psk_spec() == crate::auth::psk_of(preshared_key)
                        &&& inner.additional_spec().len() == 0
                        &&& inner.auth_spec() is None
                        &&& inner.peer_recv_index_spec() is None
                        &&& inner.peer_cache_spec() == no_peer_index()
                    },
                    Err(_) => false,
                },
            },
    {
        if her_pub_key.is_zero() {
            return Err(NoiseError::KeyUnknown);
        }
        let her_pubkey: [u8; 32] = *her_pub_key.raw();
        let her_ip6: [u8; 16] = ip6_from_key(&her_pubkey);
        if her_ip6[0] != ADDRESS_PREFIX {
            return Err(NoiseError::InvalidPublicKey);
        }
        let inner = match SessionInner::create(
            &ca.private_key_raw,
            her_pubkey,
            her_ip6,
            is_initiator,
            require_auth,
            index,
            preshared_key,
        ) {
            Some(inner) => inner,
            None => {
                return Err(NoiseError::TunnelCreate);
            },
        };
        let sess = Session {
            display_name,
            her_ip6,
            her_pubkey,
            id: UNASSIGNED,
            ifaces: Some(
                (
                    Iface::Plaintext(PlaintextRecv(UNASSIGNED)),
                    Iface::Ciphertext(CiphertextRecv(UNASSIGNED)),
                ),
            ),
        };
        Ok((sess, inner))
    }

    /// The index of the session.
    pub fn get_id(&self) -> (id: u32)
        ensures
            id == self.id_spec(),
    {
        self.id
    }

    /// The public key of the peer.
    pub fn get_her_pubkey(&self) -> (key: [u8; 32])
        ensures
            key@ == self.her_pubkey_spec(),
    {
        self.her_pubkey
    }

    /// The address of the peer.
    pub fn get_her_ip6(&self) -> (ip6: [u8; 16])
        ensures
            ip6@ == self.her_ip6_spec(),
    {
        self.her_ip6
    }

    /// The name of the session.
    pub fn get_name(&self) -> (name: Option<String>)
        ensures
            name is Some,
            name->0@ == self.name_spec(),
    {
        Some(self.display_name.clone())
    }

    /// Whether the peer's key is known: always, since no session is made
    /// without it.
    pub fn her_key_known(&self) -> (known: bool)
        ensures
            known,
    {
        true
    }

    /// Does nothing.
    pub fn reset_if_timeout(&self) {
    }

    /// Does nothing.
    pub fn reset(&self) {
    }

    /// The report of the session's traffic, from the counters of its tunnel.
    pub fn stats(&self, counters: &SessionCounters) -> (stats: CryptoStats)
        requires
            counters.received_cnt <= counters.expected_cnt,
        ensures
            stats == (CryptoStats {
                lost_packets: (counters.expected_cnt - counters.received_cnt) as u64,
                received_unexpected: counters.too_old_cnt,
                received_packets: counters.received_cnt,
                duplicate_packets: counters.duplicate_cnt,
                noise_proto: true,
            }),
    {
        stats_of(counters)
    }

    /// The two endpoints of the session, the plaintext one first: handed out
    /// at the first call, and never again.
    pub fn ifaces(&mut self) -> (pair: Option<(Iface, Iface)>)
        ensures
            pair == old(self).ifaces_spec(),
            *final(self) == old(self).without_ifaces(),
            !final(self).has_ifaces(),
            pair is Some <==> old(self).has_ifaces(),
            final(self).id_spec() == old(self).id_spec(),
            final(self).her_pubkey_spec() == old(self).her_pubkey_spec(),
            final(self).her_ip6_spec() == old(self).her_ip6_spec(),
            final(self).name_spec() == old(self).name_spec(),
    {
        self.ifaces.take()
    }
}

impl CryptoNoise {
    /// The sessions of the registry, by index.
    pub closed spec fn sessions_spec(&self) -> Map<u32, SessionInner> {
        self.sessions@
    }

    /// The users that may connect, by challenge key.
    pub closed spec fn users_spec(&self) -> Map<Seq<u8>, UserView> {
        self.users@
    }

    /// The number of entries of the table of users.
    pub closed spec fn user_count(&self) -> nat {
        self.users.size()
    }

    /// The index that is tried first for the next session.
    pub closed spec fn next_index_spec(&self) -> u32 {
        self.next_sess_index
    }

    /// The public key of this node.
    pub closed spec fn public_key_spec(&self) -> Seq<u8> {
        self.public_key_raw@
    }

    /// The private key of this node.
    pub closed spec fn private_key_spec(&self) -> Seq<u8> {
        self.private_key_raw@
    }

    /// Whether the registry is in order: every session is, and is kept under
    /// the index that its tunnel was made with; no session has the index
    /// that stands for "unassigned".
    pub closed spec fn wf(&self) -> bool {
        &&& self.users.wf()
        &&& self.sessions@.dom().finite()
        &&& !self.sessions@.contains_key(UNASSIGNED)
        &&& forall|id: u32| #[trigger]
            self.sessions@.contains_key(id) ==> self.sessions@[id].wf() && self.sessions@[id].index_spec()
                == id
    }

    /// Every session of a registry that is in order is in order: its address
    /// is the one derived from the peer's key and is an address of the mesh,
    /// its additional data has a length that is a multiple of four, and its
    /// index is not the one that stands for "unassigned".
    pub proof fn lemma_sessions_in_order(&self, id: u32)
        requires
            self.wf(),
            self.sessions_spec().contains_key(id),
        ensures
            id != UNASSIGNED,
            self.sessions_spec()[id].wf(),
            self.sessions_spec()[id].index_spec() == id,
            self.sessions_spec()[id].her_ip6_spec() == ip6_of_key(
                self.sessions_spec()[id].her_pubkey_spec(),
            ),
            self.sessions_spec()[id].her_ip6_spec()[0] == ADDRESS_PREFIX,
            self.sessions_spec()[id].additional_spec().len() % 4 == 0,
    {
        self.sessions@[id].lemma_wf();
    }

    /// The registry of the node with this private key: no users, no
    /// sessions, and 1 as the first index to hand out. Its public key is the
    /// one that belongs to the private key.
    pub fn new(private_key: &PrivateKey) -> (ca: CryptoNoise)
        ensures
            ca.wf(),
            ca.sessions_spec() == Map::<u32, SessionInner>::empty(),
            ca.users_spec() == Map::<Seq<u8>, UserView>::empty(),
            ca.user_count() == 0,
            ca.next_index_spec() == 1,
            ca.private_key_spec() == private_key@,
            ca.public_key_spec() == public_key_of_private(private_key@),
    {
        broadcast use vstd::std_specs::hash::group_hash_axioms;

        let private_key_raw: [u8; 32] = *private_key.raw();
        let public_key_raw: [u8; 32] = derive_public_key(&private_key_raw).unwrap();
        let noise_handshaker = rate_limiter_new(&public_key_raw, HANDSHAKE_RATE_LIMIT);
        let ca = CryptoNoise {
            private_key_raw,
            public_key_raw,
            users: AuthTable::new(),
            noise_handshaker,
            sessions: HashMap::new(),
            next_sess_index: 1,
        };
        assert(ca.sessions@ =~= Map::<u32, SessionInner>::empty());
        ca
    }

    /// The public key of this node: the one that the registry has kept
    /// since it was made.
    pub fn public_key(&self) -> (key: PublicKey)
        ensures
            key@ == self.public_key_spec(),
    {
        PublicKey::new(self.public_key_raw)
    }

    /// The number of entries of the table of users.
    pub fn user_total(&self) -> (n: usize)
        ensures
            n == self.user_count(),
    {
        self.users.len()
    }

    /// The number of sessions.
    pub fn session_count(&self) -> (n: usize)
        ensures
            n == self.sessions_spec().len(),
    {
        broadcast use vstd::std_specs::hash::group_hash_axioms;

        self.sessions.len()
    }

    /// Whether a session is registered under an index.
    pub fn has_session(&self, id: u32) -> (found: bool)
        ensures
            found == self.sessions_spec().contains_key(id),
    {
        broadcast use vstd::std_specs::hash::group_hash_axioms;

        self.sessions.contains_key(&id)
    }

    /// The session registered under an index.
    pub fn session(&self, id: u32) -> (sess: Option<&SessionInner>)
        ensures
            sess is Some <==> self.sessions_spec().contains_key(id),
            sess is Some ==> *sess->0 == self.sessions_spec()[id],
    {
        broadcast use vstd::std_specs::hash::group_hash_axioms;

        self.sessions.get(&id)
    }

    /// Asks the handshaker about a packet that belongs to no session. The
    /// handshaker counts the handshakes of one second: its count is started
    /// anew first, if that second has gone by. Whatever the handshaker says,
    /// the verdict fits the packet: it names the kind that the packet's first
    /// word and length make it, and a cookie is only asked for a handshake.
    pub(crate) fn verify_packet(&self, tc: &mut ThreadCtx, peer: [u8; 16], packet: &[u8]) -> (verdict:
        Verified)
        requires
            old(tc).wf(),
        ensures
            final(tc).wf(),
            verdict_fits(verdict, packet@),
    {
        handshaker_reset(&self.noise_handshaker);
        handshaker_verify(&self.noise_handshaker, peer, packet, tc.scratch())
    }

    /// The public key of the peer that sent a handshake initiation to this
    /// node, if the packet is one and opens with the keys of this node.
    pub(crate) fn peer_key_of(&self, packet: &[u8]) -> (her_public: Option<[u8; 32]>)
        ensures
            crate::auth::psk_of(her_public) == handshake_sender(
                self.private_key_spec(),
                self.public_key_spec(),
                packet@,
            ),
            her_public is Some ==> is_packet_of_kind(packet@, MSG_INIT),
    {
        handshake_peer_key(&self.private_key_raw, &self.public_key_raw, packet)
    }

    /// Takes note, in the session under `id`, of the index under which the
    /// peer knows that session.
    pub(crate) fn note_peer_index(&mut self, id: u32, peer_index: u32)
        requires
            old(self).wf(),
        ensures
            final(self).wf(),
            final(self).users_spec() == old(self).users_spec(),
            final(self).user_count() == old(self).user_count(),
            final(self).public_key_spec() == old(self).public_key_spec(),
            final(self).private_key_spec() == old(self).private_key_spec(),
            final(self).next_index_spec() == old(self).next_index_spec(),
            final(self).sessions_spec().dom() == old(self).sessions_spec().dom(),
            forall|other: u32|
                other != id && old(self).sessions_spec().contains_key(other) ==> (
                #[trigger] final(self).sessions_spec()[other]) == old(self).sessions_spec()[other],
            old(self).sessions_spec().contains_key(id) ==> session_noted(
                old(self).sessions_spec()[id],
                final(self).sessions_spec()[id],
                peer_index,
            ),
    {
        broadcast use vstd::std_specs::hash::group_hash_axioms;

        match self.sessions.remove(&id) {
            None => {
                assert(self.sessions@ =~= old(self).sessions_spec());
            },
            Some(inner) => {
                let mut inner = inner;
                inner.update_peer_index(peer_index);
                proof {
                    inner.lemma_wf();
                }
                self.sessions.insert(id, inner);
                assert(self.sessions@.dom() =~= old(self).sessions_spec().dom());
            },
        }
    }

    /// Gives the tunnel of the session under `id` another pre-shared key. A
    /// session that is not registered is refused with `NoSession`; for one
    /// that is, the key is set.
    pub(crate) fn set_preshared_key(&mut self, id: u32, preshared_key: Option<[u8; 32]>) -> (r:
        Result<(), NoiseError>)
        requires
            old(self).wf(),
        ensures
            final(self).wf(),
            final(self).users_spec() == old(self).users_spec(),
            final(self).user_count() == old(self).user_count(),
            final(self).public_key_spec() == old(self).public_key_spec(),
            final(self).private_key_spec() == old(self).private_key_spec(),
            final(self).next_index_spec() == old(self).next_index_spec(),
            final(self).sessions_spec().dom() == old(self).sessions_spec().dom(),
            forall|other: u32|
                other != id && old(self).sessions_spec().contains_key(other) ==> (
                #[trigger] final(self).sessions_spec()[other]) == old(self).sessions_spec()[other],
            r == if old(self).sessions_spec().contains_key(id) {
                Ok::<(), NoiseError>(())
            } else {
                Err::<(), NoiseError>(NoiseError::NoSession)
            },
            old(self).sessions_spec().contains_key(id) ==> {
                let before = old(self).sessions_spec()[id];
                let after = final(self).sessions_spec()[id];
                &&& after.her_pubkey_spec() == before.her_pubkey_spec()
                &&& after.her_ip6_spec() == before.her_ip6_spec()
                &&& after.is_initiator() == before.is_initiator()
                &&& after.require_auth_spec() == before.require_auth_spec()
                &&& after.auth_spec() == before.auth_spec()
                &&& after.peer_recv_index_spec() == before.peer_recv_index_spec()
                &&& after.peer_cache_spec() == before.peer_cache_spec()
                &&& after.additional_spec() == before.additional_spec()
                &&& after.psk_spec() == crate::auth::psk_of(preshared_key)
            },
    {
        broadcast use vstd::std_specs::hash::group_hash_axioms;

        match self.sessions.remove(&id) {
            None => {
                assert(self.sessions@ =~= old(self).sessions_spec());
                Err(NoiseError::NoSession)
            },
            Some(inner) => {
                let mut inner = inner;
                inner.set_preshared_key(preshared_key);
                self.sessions.insert(id, inner);
                assert(self.sessions@.dom() =~= old(self).sessions_spec().dom());
                Ok(())
            },
        }
    }

    /// The user registered under a challenge key.
    pub fn get_auth(&self, ch: &Challenge2) -> (user: Option<User>)
        requires
            self.wf(),
        ensures
            user is Some <==> self.users_spec().contains_key(ch@),
            user is Some ==> user->0@ == self.users_spec()[ch@],
    {
        self.users.get(ch)
    }

    /// Registers a user with a password.
    ///
    /// With a login the user is entered twice: under the challenge key of
    /// type one, for the empty login, and under the one of type two, for the
    /// login. Without a login the user is entered once, under the key of type
    /// one, and is named `Anon #` and the number of entries that the table
    /// had. Each entry holds the secret of the password and the restriction.
    /// What the table holds is never changed: a key that is taken keeps its
    /// record, and the user is not entered under it.
    pub fn add_user_ipv6(
        &mut self,
        password: Vec<u8>,
        login: Option<Vec<u8>>,
        ipv6: Option<[u8; 16]>,
    )
        requires
            old(self).wf(),
        ensures
            final(self).wf(),
            final(self).sessions_spec() == old(self).sessions_spec(),
            final(self).next_index_spec() == old(self).next_index_spec(),
            final(self).public_key_spec() == old(self).public_key_spec(),
            final(self).private_key_spec() == old(self).private_key_spec(),
            final(self).users_spec() == added_users(
                old(self).users_spec(),
                old(self).user_count(),
                password@,
                crate::auth::bytes_view(login),
                ip6_view(ipv6),
            ),
            final(self).user_count() == added_count(
                old(self).users_spec(),
                old(self).user_count(),
                password@,
                crate::auth::bytes_view(login),
            ),
            ({
                let inputs = auth_inputs(crate::auth::bytes_view(login));
                let key = challenge_of(inputs.0, password@, inputs.1);
                &&& final(self).users_spec().contains_key(key)
                &&& !old(self).users_spec().contains_key(key) ==> final(self).users_spec()[key].secret
                    == secret_of(password@)
                &&& old(self).users_spec().contains_key(key) ==> final(self).users_spec()[key]
                    == old(self).users_spec()[key]
            }),
    {
        let mut name: Vec<u8> = Vec::new();
        match &login {
            Some(l) => {
                push_range(&mut name, l.as_slice(), 0, l.len());
                assert(name@ =~= l@);
            },
            None => {
                push_anon_login(&mut name, self.users.len());
                assert(name@ =~= anon_login(old(self).user_count()));
            },
        }
        let mut name2: Vec<u8> = Vec::new();
        push_range(&mut name2, name.as_slice(), 0, name.len());
        assert(name2@ =~= name@);
        let mut password2: Vec<u8> = Vec::new();
        push_range(&mut password2, password.as_slice(), 0, password.len());
        assert(password2@ =~= password@);
        proof {
            let by_password = challenge_of(Seq::empty(), password@, AuthType::One);
            assert(by_password[0] == 1u8);
            if login is Some {
                assert(challenge_of(login->0@, password@, AuthType::Two)[0] == 2u8);
            }
        }
        if login.is_some() {
            let (secret, challenge) = compute_auth(Some(password2), None);
            match (secret, challenge) {
                (Some(secret), Some(challenge)) => {
                    self.users.insert(challenge, User::new(secret, name2, ipv6));
                },
                _ => {},
            }
        }
        let (secret, challenge) = compute_auth(Some(password), login);
        match (secret, challenge) {
            (Some(secret), Some(challenge)) => {
                self.users.insert(challenge, User::new(secret, name, ipv6));
            },
            _ => {},
        }
    }
}

/// In the table that a user was registered in, the challenge key that goes
/// with the user's password and login is a key, and so, with a login, is the
/// key that goes with the password alone. A key that was free before finds
/// the secret that goes with the password; a key that was taken finds what
/// it found before. No other key is touched.
pub proof fn lemma_added_user_found(
    users: Map<Seq<u8>, UserView>,
    count: nat,
    password: Seq<u8>,
    login: Option<Seq<u8>>,
    ipv6: Option<Seq<u8>>,
)
    ensures
        ({
            let table = added_users(users, count, password, login, ipv6);
            let key = challenge_of(auth_inputs(login).0, password, auth_inputs(login).1);
            let by_password = challenge_of(Seq::empty(), password, AuthType::One);
            &&& table.contains_key(key)
            &&& table.contains_key(by_password)
            &&& !users.contains_key(key) ==> table[key].secret == secret_of(password)
            &&& !users.contains_key(by_password) ==> table[by_password].secret == secret_of(
                password,
            )
            &&& forall|k: Seq<u8>| users.contains_key(k) ==> table.contains_key(k) && table[k]
                == users[k]
            &&& forall|k: Seq<u8>| #[trigger]
                table.contains_key(k) ==> users.contains_key(k) || k == key || k == by_password
        }),
{
}

/// How a session differs once it has taken note of the index under which
/// the peer knows it: a responder not at all; an initiator remembers the
/// index and, if it is not the one seen last, names it in its additional
/// data. Either way the additional data of an initiator then names the
/// index, unless the index is the one that stands for "none seen".
pub open spec fn session_noted(before: SessionInner, after: SessionInner, peer_index: u32) -> bool {
    &&& after.her_pubkey_spec() == before.her_pubkey_spec()
    &&& after.her_ip6_spec() == before.her_ip6_spec()
    &&& after.is_initiator() == before.is_initiator()
    &&& after.require_auth_spec() == before.require_auth_spec()
    &&& after.psk_spec() == before.psk_spec()
    &&& after.auth_spec() == before.auth_spec()
    &&& after.peer_cache_spec() == if before.is_initiator() {
        peer_index as usize
    } else {
        no_peer_index()
    }
    &&& after.peer_recv_index_spec() == if before.is_initiator() && before.peer_cache_spec()
        != peer_index as usize {
        Some(peer_index)
    } else {
        before.peer_recv_index_spec()
    }
    &&& before.is_initiator() && peer_index as usize != no_peer_index()
        ==> after.peer_recv_index_spec() == Some(peer_index)
    &&& after.additional_spec() == if before.is_initiator() {
        crate::additional::additional_bytes(after.peer_recv_index_spec(), after.auth_spec())
    } else {
        Seq::<u8>::empty()
    }
}

/// The table of users after a user with a password was registered in a table
/// of `count` entries: each challenge key of the user that was free holds the
/// user; a key that was taken keeps its record.
pub open spec fn added_users(
    users: Map<Seq<u8>, UserView>,
    count: nat,
    password: Seq<u8>,
    login: Option<Seq<u8>>,
    ipv6: Option<Seq<u8>>,
) -> Map<Seq<u8>, UserView> {
    match login {
        Some(l) => {
            let user = UserView { secret: secret_of(password), login: l, restricted_to_ip6: ipv6 };
            inserted(
                inserted(users, challenge_of(Seq::empty(), password, AuthType::One), user),
                challenge_of(l, password, AuthType::Two),
                user,
            )
        },
        None => {
            let user = UserView {
                secret: secret_of(password),
                login: anon_login(count),
                restricted_to_ip6: ipv6,
            };
            inserted(users, challenge_of(Seq::empty(), password, AuthType::One), user)
        },
    }
}

/// The number of entries after a user with a password was registered in a
/// table of `count` entries: one more for each challenge key of the user that
/// was free.
pub open spec fn added_count(
    users: Map<Seq<u8>, UserView>,
    count: nat,
    password: Seq<u8>,
    login: Option<Seq<u8>>,
) -> nat {
    let by_password: nat = if users.contains_key(
        challenge_of(Seq::empty(), password, AuthType::One),
    ) {
        0
    } else {
        1
    };
    let by_login: nat = match login {
        Some(l) => if users.contains_key(challenge_of(l, password, AuthType::Two)) {
            0
        } else {
            1
        },
        None => 0,
    };
    count + by_password + by_login
}

/// Whether an index cannot be handed out in a registry with these sessions.
pub open spec fn index_taken(sessions: Map<u32, SessionInner>, index: u32) -> bool {
    index == UNASSIGNED || sessions.contains_key(index)
}

/// Whether `id` is the index that a registry with these sessions hands out
/// when `next` is the first to try, and `after` the first to try next time:
/// `id` is the first candidate from `next` on, counting round, that is not
/// taken, and `after` is the candidate that follows it.
pub open spec fn allocated(sessions: Map<u32, SessionInner>, next: u32, id: u32, after: u32) -> bool {
    exists|k: int|
        {
            &&& 0 <= k
            &&& id == #[trigger] candidate(next, k)
            &&& after == candidate(next, k + 1)
            &&& forall|j: int| 0 <= j < k ==> index_taken(sessions, #[trigger] candidate(next, j))
        }
}

/// The candidate after a candidate is the next number, counting round.
proof fn lemma_candidate_step(start: u32, j: int)
    requires
        0 <= j,
    ensures
        candidate(start, j + 1) == if candidate(start, j) == 0xffff_ffff {
            0u32
        } else {
            (candidate(start, j) + 1) as u32
        },
{
    let a = start as int + j;
    assert(a == 0x1_0000_0000 * (a / 0x1_0000_0000) + a % 0x1_0000_0000);
    assert(a + 1 == 0x1_0000_0000 * ((a + 1) / 0x1_0000_0000) + (a + 1) % 0x1_0000_0000);
    if a % 0x1_0000_0000 == 0xffff_ffff {
        assert((a + 1) % 0x1_0000_0000 == 0) by {
            assert(a + 1 == 0x1_0000_0000 * (a / 0x1_0000_0000 + 1));
        }
    } else {
        assert((a + 1) / 0x1_0000_0000 == a / 0x1_0000_0000);
    }
}

impl Session {
    /// Makes a session for a peer and registers it under the first index
    /// that is free, counting round from the registry's next index; the
    /// index that stands for "unassigned" is never handed out.
    ///
    /// A registry in which every index is taken refuses with `RegistryFull`.
    /// Otherwise the key is looked at as in `new1`. On any failure the
    /// sessions stay as they were; where nothing is refused, the session is
    /// made and registered.
    pub fn new0(
        ca: &mut CryptoNoise,
        her_pub_key: PublicKey,
        display_name: String,
        is_initiator: bool,
        require_auth: bool,
        preshared_key: Option<[u8; 32]>,
    ) -> (r: Result<Session, NoiseError>)
        requires
            old(ca).wf(),
        ensures
            final(ca).wf(),
            final(ca).users_spec() == old(ca).users_spec(),
            final(ca).user_count() == old(ca).user_count(),
            final(ca).public_key_spec() == old(ca).public_key_spec(),
            final(ca).private_key_spec() == old(ca).private_key_spec(),
            r is Ok <==> registration_refusal(
                old(ca).sessions_spec(),
                old(ca).private_key_spec(),
                her_pub_key@,
            ) is None,
            match r {
                Ok(sess) => {
                    let id = sess.id_spec();
                    let inner = final(ca).sessions_spec()[id];
                    &&& sess.wf()
                    &&& sess.has_ifaces()
                    &&& sess.name_spec() == display_name@
                    &&& sess.her_pubkey_spec() == her_pub_key@
                    &&& !index_taken(old(ca).sessions_spec(), id)
                    &&& final(ca).sessions_spec() == old(ca).sessions_spec().insert(id, inner)
                    &&& inner.her_pubkey_spec() == her_pub_key@
                    &&& inner.her_ip6_spec() == sess.her_ip6_spec()
                    &&& inner.is_initiator() == is_initiator
                    &&& inner.require_auth_spec() == require_auth
                    &&& inner.psk_spec() == crate::auth::psk_of(preshared_key)
                    &&& inner.additional_spec().len() == 0
                    &&& inner.auth_spec() is None
                    &&& inner.peer_recv_index_spec() is None
                    &&& inner.peer_cache_spec() == no_peer_index()
                    &&& allocated(
                        old(ca).sessions_spec(),
                        old(ca).next_index_spec(),
                        id,
                        final(ca).next_index_spec(),
                    )
                },
                Err(e) => {
                    &&& final(ca).sessions_spec() == old(ca).sessions_spec()
                    &&& registration_refusal(
                        old(ca).sessions_spec(),
                        old(ca).private_key_spec(),
                        her_pub_key@,
                    ) == Some(e)
                },
            },
    {
        broadcast use vstd::std_specs::hash::group_hash_axioms;

        let count: usize = ca.sessions.len();
        if count >= UNASSIGNED as usize {
            return Err(NoiseError::RegistryFull);
        }
        let bound: u64 = count as u64 + 2;
        let ghost start = ca.next_sess_index;
        let ghost before = ca.sessions@;
        let ghost wanted = display_name@;
        let mut name = display_name;
        let mut tried: u64 = 0;
        proof {
            assert(candidate(start, 0) == start);
        }
        while tried < bound
            invariant
                ca.wf(),
                ca.sessions@ == before,
                before == old(ca).sessions_spec(),
                start == old(ca).next_index_spec(),
                ca.users_spec() == old(ca).users_spec(),
                ca.user_count() == old(ca).user_count(),
                ca.public_key_spec() == old(ca).public_key_spec(),
                ca.private_key_spec() == old(ca).private_key_spec(),
                name@ == wanted,
                wanted == display_name@,
                count == before.len(),
                bound == count + 2,
                count < UNASSIGNED,
                tried <= bound,
                ca.next_sess_index == candidate(start, tried as int),
                forall|j: int| 0 <= j < tried ==> index_taken(before, #[trigger] candidate(start, j)),
            decreases bound - tried,
        {
            let index: u32 = ca.next_sess_index;
            proof {
                lemma_candidate_step(start, tried as int);
            }
            ca.next_sess_index = if index == u32::MAX {
                0
            } else {
                index + 1
            };
            if index != UNASSIGNED {
                let (sess, inner) = match Session::new1(
                    ca,
                    &her_pub_key,
                    name,
                    is_initiator,
                    require_auth,
                    index,
                    preshared_key,
                ) {
                    Ok(pair) => pair,
                    Err(e) => {
                        return Err(e);
                    },
                };
                if !ca.sessions.contains_key(&index) {
                    let mut sess = sess;
                    sess.id = index;
                    sess.ifaces = Some(
                        (Iface::Plaintext(PlaintextRecv(index)), Iface::Ciphertext(CiphertextRecv(index))),
                    );
                    ca.sessions.insert(index, inner);
                    proof {
                        assert(ca.sessions@ =~= before.insert(index, inner));
                        assert(index == candidate(start, tried as int));
                    }
                    return Ok(sess);
                }
                let Session { display_name: kept, .. } = sess;
                name = kept;
            }
            tried = tried + 1;
        }
        proof {
            let taken = before.dom().insert(UNASSIGNED);
            assert forall|j: int| 0 <= j < bound implies taken.contains(
                #[trigger] candidate(start, j),
            ) by {
                assert(index_taken(before, candidate(start, j)));
            }
            lemma_pigeonhole(taken, start, bound as int);
            assert(false);
        }
        Err(NoiseError::RegistryFull)
    }

    /// Makes an initiating session to the peer with this public key, under a
    /// name, and registers it. The session asks for no credentials and has
    /// no pre-shared key.
    pub fn new(ca: &mut CryptoNoise, her_pub_key: PublicKey, display_name: String) -> (r: Result<
        Session,
        NoiseError,
    >)
        requires
            old(ca).wf(),
        ensures
            final(ca).wf(),
            final(ca).users_spec() == old(ca).users_spec(),
            final(ca).user_count() == old(ca).user_count(),
            final(ca).public_key_spec() == old(ca).public_key_spec(),
            final(ca).private_key_spec() == old(ca).private_key_spec(),
            r is Ok <==> registration_refusal(
                old(ca).sessions_spec(),
                old(ca).private_key_spec(),
                her_pub_key@,
            ) is None,
            match r {
                Ok(sess) => {
                    let id = sess.id_spec();
                    let inner = final(ca).sessions_spec()[id];
                    &&& sess.wf()
                    &&& sess.has_ifaces()
                    &&& sess.name_spec() == display_name@
                    &&& sess.her_pubkey_spec() == her_pub_key@
                    &&& !index_taken(old(ca).sessions_spec(), id)
                    &&& final(ca).sessions_spec() == old(ca).sessions_spec().insert(id, inner)
                    &&& inner.her_pubkey_spec() == her_pub_key@
                    &&& inner.her_ip6_spec() == sess.her_ip6_spec()
                    &&& inner.is_initiator()
                    &&& !inner.require_auth_spec()
                    &&& inner.psk_spec() is None
                    &&& inner.additional_spec().len() == 0
                    &&& allocated(
                        old(ca).sessions_spec(),
                        old(ca).next_index_spec(),
                        id,
                        final(ca).next_index_spec(),
                    )
                },
                Err(e) => {
                    &&& final(ca).sessions_spec() == old(ca).sessions_spec()
                    &&& registration_refusal(
                        old(ca).sessions_spec(),
                        old(ca).private_key_spec(),
                        her_pub_key@,
                    ) == Some(e)
                },
            },
    {
        Session::new0(ca, her_pub_key, display_name, true, false, None)
    }

    /// Gives the handle back: the registry forgets the session under the
    /// handle's index, and nothing else.
    pub fn release(self, ca: &mut CryptoNoise)
        requires
            old(ca).wf(),
        ensures
            final(ca).wf(),
            final(ca).sessions_spec() == old(ca).sessions_spec().remove(self.id_spec()),
            !final(ca).sessions_spec().contains_key(self.id_spec()),
            final(ca).users_spec() == old(ca).users_spec(),
            final(ca).user_count() == old(ca).user_count(),
            final(ca).public_key_spec() == old(ca).public_key_spec(),
            final(ca).private_key_spec() == old(ca).private_key_spec(),
            final(ca).next_index_spec() == old(ca).next_index_spec(),
    {
        broadcast use vstd::std_specs::hash::group_hash_axioms;

        ca.sessions.remove(&self.id);
        assert(ca.sessions@ =~= old(ca).sessions_spec().remove(self.id));
    }

    /// Sets the credentials that the session offers to the peer. Only an
    /// initiating session has any: its additional data then names the
    /// challenge key, and the secret is the pre-shared key of its tunnel. On
    /// a responder nothing changes. A handle whose session is not registered
    /// is refused with `NoSession`; nothing else fails.
    pub fn set_auth(
        &self,
        ca: &mut CryptoNoise,
        password: Option<Vec<u8>>,
        login: Option<Vec<u8>>,
    ) -> (r: Result<(), NoiseError>)
        requires
            old(ca).wf(),
        ensures
            final(ca).wf(),
            final(ca).users_spec() == old(ca).users_spec(),
            final(ca).user_count() == old(ca).user_count(),
            final(ca).public_key_spec() == old(ca).public_key_spec(),
            final(ca).private_key_spec() == old(ca).private_key_spec(),
            final(ca).next_index_spec() == old(ca).next_index_spec(),
            final(ca).sessions_spec().dom() == old(ca).sessions_spec().dom(),
            forall|id: u32|
                id != self.id_spec() && old(ca).sessions_spec().contains_key(id) ==> (
                #[trigger] final(ca).sessions_spec()[id]) == old(ca).sessions_spec()[id],
            r == if old(ca).sessions_spec().contains_key(self.id_spec()) {
                Ok::<(), NoiseError>(())
            } else {
                Err::<(), NoiseError>(NoiseError::NoSession)
            },
            old(ca).sessions_spec().contains_key(self.id_spec()) ==> {
                let before = old(ca).sessions_spec()[self.id_spec()];
                let after = final(ca).sessions_spec()[self.id_spec()];
                &&& after.her_pubkey_spec() == before.her_pubkey_spec()
                &&& after.her_ip6_spec() == before.her_ip6_spec()
                &&& after.is_initiator() == before.is_initiator()
                &&& after.require_auth_spec() == before.require_auth_spec()
                &&& after.peer_recv_index_spec() == before.peer_recv_index_spec()
                &&& after.peer_cache_spec() == before.peer_cache_spec()
                &&& !before.is_initiator() ==> after.psk_spec() == before.psk_spec()
                    && after.additional_spec() == before.additional_spec()
                &&& before.is_initiator() ==> {
                    &&& after.auth_spec() == crate::auth::auth_challenge(
                        crate::auth::bytes_view(password),
                        crate::auth::bytes_view(login),
                    )
                    &&& after.additional_spec() == crate::additional::additional_bytes(
                        after.peer_recv_index_spec(),
                        after.auth_spec(),
                    )
                    &&& after.additional_spec().len() % 4 == 0
                    &&& after.psk_spec() == crate::auth::auth_secret(
                        crate::auth::bytes_view(password),
                    )
                }
            },
    {
        broadcast use vstd::std_specs::hash::group_hash_axioms;

        match ca.sessions.remove(&self.id) {
            None => {
                assert(ca.sessions@ =~= old(ca).sessions_spec());
                Err(NoiseError::NoSession)
            },
            Some(inner) => {
                let mut inner = inner;
                proof {
                    inner.lemma_wf();
                }
                inner.set_auth(password, login);
                proof {
                    inner.lemma_wf();
                }
                ca.sessions.insert(self.id, inner);
                assert(ca.sessions@.dom() =~= old(ca).sessions_spec().dom());
                Ok(())
            },
        }
    }

    /// The state of the session: `Established` once a handshake has set the
    /// tunnel up, `Init` before, and for a handle whose session is not
    /// registered.
    pub fn get_state(&self, ca: &CryptoNoise) -> (state: State)
        ensures
            state == State::Established || state == State::Init,
            !ca.sessions_spec().contains_key(self.id_spec()) ==> state == State::Init,
    {
        match ca.session(self.id) {
            Some(inner) => inner.get_state(),
            None => State::Init,
        }
    }

    /// Lets the session look at the clock; hands back the packet that is to
    /// be sent to the peer, if any, in the framing of the wire. A handle
    /// whose session is not registered is refused with `NoSession`. For one
    /// that is, the tunnel decides, and `tick_spec` says what becomes of its
    /// answers; the only failure then is a packet whose length is no multiple
    /// of four.
    pub fn tick(&self, ca: &CryptoNoise, tc: &mut ThreadCtx) -> (r: Result<
        Option<Vec<u8>>,
        NoiseError,
    >)
        requires
            ca.wf(),
            old(tc).wf(),
        ensures
            final(tc).wf(),
            !ca.sessions_spec().contains_key(self.id_spec()) ==> r == Err::<
                Option<Vec<u8>>,
                NoiseError,
            >(NoiseError::NoSession),
            ca.sessions_spec().contains_key(self.id_spec()) ==> {
                &&& r is Err ==> r == Err::<Option<Vec<u8>>, NoiseError>(
                    NoiseError::AlignmentFault,
                )
                &&& exists|first: TunnOutcome, second: TunnOutcome|
                    {
                        &&& timers_fit(first)
                        &&& decapsulation_fits(second, Seq::<u8>::empty())
                        &&& #[trigger] ticked_as(
                            tick_spec(
                                first,
                                second,
                                ca.sessions_spec()[self.id_spec()].additional_spec(),
                            ),
                            r,
                        )
                    }
            },
            r is Ok && r->Ok_0 is Some ==> r->Ok_0->0@.len() % 4 == 0
                && crate::codec::cjdns_well_formed(r->Ok_0->0@),
    {
        match ca.session(self.id) {
            Some(inner) => inner.tick(tc),
            None => Err(NoiseError::NoSession),
        }
    }
}

impl PlaintextRecv {
    /// Takes a plaintext from the router and hands it to the tunnel of the
    /// session; what comes back goes to the ciphertext endpoint.
    ///
    /// An empty plaintext, one whose length is no multiple of four and one
    /// that does not fit the scratch space are refused, in this order; then a
    /// session that is not registered, with `NoSession`. In each of these
    /// cases the buffer is left as it was. Otherwise the tunnel decides, and
    /// `encapsulated` says what becomes of its answer: there is nothing to
    /// send, or a frame goes to the ciphertext endpoint, or the tunnel has
    /// failed.
    pub fn recv(&self, ca: &CryptoNoise, tc: &mut ThreadCtx, msg: &mut Vec<u8>) -> (r: Result<
        NextForward,
        NoiseError,
    >)
        requires
            ca.wf(),
            old(tc).wf(),
        ensures
            final(tc).wf(),
            match plaintext_refusal(old(msg)@.len(), ca.sessions_spec().contains_key(self.0)) {
                Some(e) => r == Err::<NextForward, NoiseError>(e) && final(msg)@ == old(msg)@,
                None => {
                    &&& exists|outcome: TunnOutcome|
                        {
                            &&& encapsulation_fits(outcome, old(msg)@)
                            &&& #[trigger] sent_as(
                                crate::session::encapsulated_spec(
                                    outcome,
                                    ca.sessions_spec()[self.0].additional_spec(),
                                ),
                                r,
                                final(msg)@,
                            )
                        }
                    &&& r == Ok::<NextForward, NoiseError>(NextForward::Done) || r == Ok::<
                        NextForward,
                        NoiseError,
                    >(NextForward::Cipher) || (r is Err && r->Err_0 is Encapsulate)
                    &&& r == Ok::<NextForward, NoiseError>(NextForward::Cipher)
                        ==> crate::codec::cjdns_well_formed(final(msg)@) && final(msg)@.len() % 4
                        == 0
                },
            },
    {
        if msg.len() == 0 {
            return Err(NoiseError::ZeroLength);
        }
        if msg.len() % 4 != 0 {
            return Err(NoiseError::AlignmentFault);
        }
        if msg.len() > crate::tunnel::CRYPT_BUF_SZ - crate::tunnel::DATA_OVERHEAD_SZ {
            return Err(NoiseError::TooLarge);
        }
        match ca.session(self.0) {
            Some(inner) => inner.encapsulate_plaintext(tc, msg),
            None => Err(NoiseError::NoSession),
        }
    }
}

/// Why a plaintext of `len` bytes is not handed to the tunnel, if it is not.
pub open spec fn plaintext_refusal(len: nat, registered: bool) -> Option<NoiseError> {
    if len == 0 {
        Some(NoiseError::ZeroLength)
    } else if len % 4 != 0 {
        Some(NoiseError::AlignmentFault)
    } else if len + crate::tunnel::DATA_OVERHEAD_SZ > crate::tunnel::CRYPT_BUF_SZ {
        Some(NoiseError::TooLarge)
    } else if !registered {
        Some(NoiseError::NoSession)
    } else {
        None
    }
}

} // verus!
