//! One tunnel between this node and a peer: what the registry keeps of it,
//! and what becomes of the tunnel's answers.

use vstd::prelude::*;
use boringtun::noise::Tunn;
use crate::additional::InitiatorSessionMut;
use crate::auth::{compute_auth, psk_of};
use crate::bytes::{bytes_eq, from_le32, push_range, read_le32};
use crate::codec::{cjdns_from_wg, cjdns_of_wg, refusal, wg_well_formed, INIT_SZ, MSG_INIT};
use crate::tunnel::{
    decapsulation_fits, encapsulation_fits, is_packet_of_kind, is_sent_packet, timers_fit,
};
use crate::error::NoiseError;
use crate::keys::{ip6_of_key, ADDRESS_PREFIX};
use crate::tunnel::{
    tunn_decapsulate, tunn_encapsulate, tunn_is_established, tunn_new, tunn_update_timers,
    tunnel_can_be_made, TunnOutcome, CRYPT_BUF_SZ, DATA_OVERHEAD_SZ,
};

verus! {

/// How far the handshake of a session has come.
#[derive(Debug, Clone, Copy, PartialEq, Eq, Structural)]
pub enum State {
    Init,
    SentHello,
    ReceivedHello,
    SentKey,
    ReceivedKey,
    Established,
}

impl State {
    /// The number that stands for the state on the wire.
    pub open spec fn number(self) -> u32 {
        match self {
            State::Init => 0,
            State::SentHello => 1,
            State::ReceivedHello => 2,
            State::SentKey => 3,
            State::ReceivedKey => 4,
            State::Established => 100,
        }
    }

    /// The number that stands for the state on the wire.
    pub fn as_u32(self) -> (n: u32)
        ensures
            n == self.number(),
    {
        match self {
            State::Init => 0,
            State::SentHello => 1,
            State::ReceivedHello => 2,
            State::SentKey => 3,
            State::ReceivedKey => 4,
            State::Established => 100,
        }
    }
}

/// What the caller of the dispatcher is told about a packet.
#[derive(Debug, Clone, Copy, PartialEq, Eq, Structural)]
pub enum TryMsgReply {
    ReplyToPeer,
    RecvPlaintext,
    Error,
    Done,
}

/// The endpoint that a buffer is to be sent on.
#[derive(Debug, Clone, Copy, PartialEq, Eq, Structural)]
pub enum NextForward {
    /// The plaintext endpoint, towards the router.
    Plain,
    /// The ciphertext endpoint, towards the peer.
    Cipher,
    /// Neither: there is nothing to send.
    Done,
}

/// The packet counters of a tunnel.
#[derive(Debug, Clone, Copy, PartialEq, Eq)]
pub struct SessionCounters {
    pub expected_cnt: u64,
    pub received_cnt: u64,
    pub too_old_cnt: u64,
    pub duplicate_cnt: u64,
}

/// What a session reports of its traffic.
#[derive(Debug, Clone, Copy, PartialEq, Eq)]
pub struct CryptoStats {
    pub lost_packets: u64,
    pub received_unexpected: u64,
    pub received_packets: u64,
    pub duplicate_packets: u64,
    pub noise_proto: bool,
}

/// The scratch space of one thread, in which the tunnel works.
pub struct ThreadCtx {
    crypt_buf: Vec<u8>,
}

impl ThreadCtx {
    /// Whether the scratch space has its full size.
    pub closed spec fn wf(&self) -> bool {
        self.crypt_buf@.len() == CRYPT_BUF_SZ
    }

    /// The scratch space itself.
    pub(crate) fn scratch(&mut self) -> (buf: &mut Vec<u8>)
        requires
            old(self).wf(),
        ensures
            buf@.len() == CRYPT_BUF_SZ,
            final(buf)@.len() == CRYPT_BUF_SZ ==> final(self).wf(),
    {
        &mut self.crypt_buf
    }

    /// A scratch space of 4096 zero bytes.
    pub fn new() -> (tc: ThreadCtx)
        ensures
            tc.wf(),
    {
        ThreadCtx { crypt_buf: vec![0u8; CRYPT_BUF_SZ] }
    }
}

impl Default for ThreadCtx {
    fn default() -> (tc: ThreadCtx)
        ensures
            tc.wf(),
    {
        ThreadCtx::new()
    }
}

/// The sentinel of the cache of the peer's index: nothing seen yet.
pub open spec fn no_peer_index() -> usize {
    usize::MAX
}

/// What only the initiator of a session keeps.
pub struct InitiatorSession {
    m: InitiatorSessionMut,
    peer_recv_index: usize,
}

/// A session as the registry keeps it.
pub struct SessionInner {
    tunnel: Box<Tunn>,
    initiator: Option<InitiatorSession>,
    her_pubkey: [u8; 32],
    her_ip6: [u8; 16],
    require_auth: bool,
    index: u32,
    preshared_key: Option<[u8; 32]>,
    own_private: [u8; 32],
}

/// Whether a packet of the tunnel is a handshake initiation.
pub open spec fn is_init_packet(packet: Seq<u8>) -> bool {
    packet.len() == INIT_SZ && from_le32(packet, 0) == MSG_INIT
}

/// A packet of the tunnel with the additional data of the session behind
/// it, if the packet is a handshake initiation.
pub open spec fn with_additional(packet: Seq<u8>, additional: Seq<u8>) -> Seq<u8> {
    if is_init_packet(packet) {
        packet + additional
    } else {
        packet
    }
}

/// Puts the additional data of the session behind a packet of the tunnel, if
/// the packet is a handshake initiation.
pub fn attach_additional(packet: Vec<u8>, additional: &[u8]) -> (framed: Vec<u8>)
    ensures
        framed@ == with_additional(packet@, additional@),
{
    let mut framed = packet;
    if framed.len() == INIT_SZ && read_le32(framed.as_slice(), 0) == MSG_INIT as u32 {
        push_range(&mut framed, additional, 0, additional.len());
        assert(additional@.subrange(0, additional@.len() as int) =~= additional@);
    }
    framed
}

/// What goes to the ciphertext endpoint for a packet of the tunnel: the
/// packet in the framing of the wire. A packet whose length is no multiple
/// of four is refused before it is framed.
pub open spec fn crypto_frame(wg: Seq<u8>) -> Result<Seq<u8>, NoiseError> {
    if wg.len() % 4 != 0 {
        Err(NoiseError::AlignmentFault)
    } else if !wg_well_formed(wg) {
        Err(refusal(wg.len()))
    } else {
        Ok(cjdns_of_wg(wg))
    }
}

/// Frames a packet of the tunnel for the ciphertext endpoint. On failure the
/// buffer is left as it was.
pub fn send_crypto(msg: &mut Vec<u8>) -> (r: Result<(), NoiseError>)
    ensures
        match crypto_frame(old(msg)@) {
            Ok(framed) => r is Ok && final(msg)@ == framed,
            Err(e) => r == Err::<(), NoiseError>(e) && final(msg)@ == old(msg)@,
        },
{
    if msg.len() % 4 != 0 {
        return Err(NoiseError::AlignmentFault);
    }
    cjdns_from_wg(msg)
}

/// What becomes of a plaintext once the tunnel has answered: the buffer that
/// goes out and the endpoint it goes to.
pub open spec fn encapsulated_spec(outcome: TunnOutcome, additional: Seq<u8>) -> Result<
    (Seq<u8>, NextForward),
    NoiseError,
> {
    match outcome {
        TunnOutcome::Done => Ok((Seq::empty(), NextForward::Done)),
        TunnOutcome::Failed(code) => Err(NoiseError::Encapsulate(code)),
        TunnOutcome::WriteToNetwork(packet) => {
            let framed = with_additional(packet@, additional);
            if framed.len() == 0 {
                Ok((Seq::empty(), NextForward::Done))
            } else {
                match crypto_frame(framed) {
                    Ok(wire) => Ok((wire, NextForward::Cipher)),
                    Err(e) => Err(e),
                }
            }
        },
        _ => Err(NoiseError::UnexpectedResult),
    }
}

/// Whether the result for a plaintext is what `encapsulated` makes of the
/// tunnel's answer.
pub open spec fn sent_as(
    expected: Result<(Seq<u8>, NextForward), NoiseError>,
    r: Result<NextForward, NoiseError>,
    out: Seq<u8>,
) -> bool {
    match expected {
        Ok((bytes, next)) => r == Ok::<NextForward, NoiseError>(next) && out == bytes,
        Err(e) => r == Err::<NextForward, NoiseError>(e),
    }
}

/// What the tunnel sends of its own accord can be framed for the wire, with
/// the additional data of a session behind it if it is a handshake
/// initiation; the frame of an initiation has a length that is a multiple of
/// four, that of a data packet has one if the packet has.
pub proof fn lemma_sent_packet_frames(packet: Seq<u8>, additional: Seq<u8>)
    requires
        is_sent_packet(packet),
        additional.len() % 4 == 0,
    ensures
        wg_well_formed(with_additional(packet, additional)),
        is_packet_of_kind(packet, MSG_INIT) || packet.len() % 4 == 0 ==> with_additional(
            packet,
            additional,
        ).len() % 4 == 0,
{
    let framed = with_additional(packet, additional);
    if is_packet_of_kind(packet, MSG_INIT) {
        assert(is_init_packet(packet));
        assert(framed =~= packet + additional);
        assert(framed[0] == packet[0] && framed[1] == packet[1] && framed[2] == packet[2]
            && framed[3] == packet[3]);
    } else {
        assert(!is_init_packet(packet));
    }
}

/// Acts on the tunnel's answer to a plaintext: nothing to send, a packet for
/// the ciphertext endpoint, or a failure. `additional` is the additional data
/// of the session, empty for a responder.
pub fn encapsulated(outcome: TunnOutcome, additional: &[u8], msg: &mut Vec<u8>) -> (r: Result<
    NextForward,
    NoiseError,
>)
    ensures
        match encapsulated_spec(outcome, additional@) {
            Ok((out, next)) => r == Ok::<NextForward, NoiseError>(next) && final(msg)@ == out,
            Err(e) => r == Err::<NextForward, NoiseError>(e),
        },
{
    match outcome {
        TunnOutcome::Done => {
            msg.clear();
            Ok(NextForward::Done)
        },
        TunnOutcome::Failed(code) => Err(NoiseError::Encapsulate(code)),
        TunnOutcome::WriteToNetwork(packet) => {
            *msg = attach_additional(packet, additional);
            if msg.len() > 0 {
                match send_crypto(msg) {
                    Ok(()) => Ok(NextForward::Cipher),
                    Err(e) => Err(e),
                }
            } else {
                assert(msg@ =~= Seq::<u8>::empty());
                Ok(NextForward::Done)
            }
        },
        _ => Err(NoiseError::UnexpectedResult),
    }
}

/// What the tick of a session does after the tunnel has looked at the clock.
#[derive(Debug, Clone, PartialEq, Eq)]
pub enum TickStep {
    /// Ask the tunnel for what it has kept for later.
    Flush,
    /// Send this packet.
    Send(Vec<u8>),
    /// Nothing to send: the connection has expired, or the tunnel failed.
    Nothing,
    /// The tunnel answered with an outcome that a tick never expects.
    Unexpected,
}

/// Chooses the next step of a tick from the tunnel's answer to the clock.
pub fn timers_updated(outcome: TunnOutcome) -> (step: TickStep)
    ensures
        step == match outcome {
            TunnOutcome::Done => TickStep::Flush,
            TunnOutcome::Failed(_) => TickStep::Nothing,
            TunnOutcome::WriteToNetwork(packet) => TickStep::Send(packet),
            _ => TickStep::Unexpected,
        },
{
    match outcome {
        TunnOutcome::Done => TickStep::Flush,
        TunnOutcome::Failed(_) => TickStep::Nothing,
        TunnOutcome::WriteToNetwork(packet) => TickStep::Send(packet),
        _ => TickStep::Unexpected,
    }
}

/// The packet to send after the tunnel was asked for what it has kept.
pub fn flushed(outcome: TunnOutcome) -> (packet: Option<Vec<u8>>)
    ensures
        packet == match outcome {
            TunnOutcome::WriteToNetwork(p) => Some(p),
            _ => None::<Vec<u8>>,
        },
{
    match outcome {
        TunnOutcome::WriteToNetwork(p) => Some(p),
        _ => None,
    }
}

/// What a tick hands back for a packet of the tunnel: the packet in the
/// framing of the wire. A packet that is no frame is refused; one whose
/// length is no multiple of four is refused after that.
pub open spec fn tick_frame(wg: Seq<u8>) -> Result<Seq<u8>, NoiseError> {
    if !wg_well_formed(wg) {
        Err(refusal(wg.len()))
    } else if wg.len() % 4 != 0 {
        Err(NoiseError::AlignmentFault)
    } else {
        Ok(cjdns_of_wg(wg))
    }
}

/// The packet of the tunnel that a tick sends, by the tunnel's answer to the
/// clock and, where that was `Done`, its answer when asked for what it has
/// kept.
pub open spec fn tick_packet_spec(first: TunnOutcome, second: TunnOutcome) -> Result<
    Option<Seq<u8>>,
    NoiseError,
> {
    match first {
        TunnOutcome::Done => match second {
            TunnOutcome::WriteToNetwork(packet) => Ok(Some(packet@)),
            _ => Ok(None),
        },
        TunnOutcome::Failed(_) => Ok(None),
        TunnOutcome::WriteToNetwork(packet) => Ok(Some(packet@)),
        _ => Err(NoiseError::UnexpectedResult),
    }
}

/// What a tick hands back, by the two answers of the tunnel and the
/// additional data of the session.
pub open spec fn tick_spec(first: TunnOutcome, second: TunnOutcome, additional: Seq<u8>) -> Result<
    Option<Seq<u8>>,
    NoiseError,
> {
    match tick_packet_spec(first, second) {
        Err(e) => Err(e),
        Ok(None) => Ok(None),
        Ok(Some(packet)) => match tick_frame(with_additional(packet, additional)) {
            Ok(wire) => Ok(Some(wire)),
            Err(e) => Err(e),
        },
    }
}

/// Whether the result of a tick is the expected one.
pub open spec fn ticked_as(
    expected: Result<Option<Seq<u8>>, NoiseError>,
    r: Result<Option<Vec<u8>>, NoiseError>,
) -> bool {
    match expected {
        Ok(None) => r == Ok::<Option<Vec<u8>>, NoiseError>(None),
        Ok(Some(wire)) => r is Ok && r->Ok_0 is Some && r->Ok_0->0@ == wire,
        Err(e) => r == Err::<Option<Vec<u8>>, NoiseError>(e),
    }
}

/// Frames the packet that a tick sends, with the additional data of the
/// session behind a handshake initiation.
pub fn frame_tick_packet(packet: Option<Vec<u8>>, additional: &[u8]) -> (r: Result<
    Option<Vec<u8>>,
    NoiseError,
>)
    ensures
        match packet {
            None => r == Ok::<Option<Vec<u8>>, NoiseError>(None),
            Some(p) => match tick_frame(with_additional(p@, additional@)) {
                Ok(wire) => r is Ok && r->Ok_0 is Some && r->Ok_0->0@ == wire,
                Err(e) => r == Err::<Option<Vec<u8>>, NoiseError>(e),
            },
        },
{
    match packet {
        None => Ok(None),
        Some(p) => {
            let mut msg = attach_additional(p, additional);
            match cjdns_from_wg(&mut msg) {
                Ok(()) => {},
                Err(e) => {
                    return Err(e);
                },
            }
            if msg.len() % 4 != 0 {
                return Err(NoiseError::AlignmentFault);
            }
            Ok(Some(msg))
        },
    }
}

/// The report of a session's traffic: what was expected and did not come
/// counts as lost, what came too late as unexpected.
pub fn stats_of(counters: &SessionCounters) -> (stats: CryptoStats)
    requires
        counters.received_cnt <= counters.expected_cnt,
    ensures
        stats == (CryptoStats {
            lost_packets: (counters.expected_cnt - counters.received_cnt) as u64,
            received_unexpected: counters.too_old_cnt,
            received_packets: counters.received_cnt,
            duplicate_packets: counters.duplicate_cnt,
            noise_proto: true,
        }),
{
    CryptoStats {
        lost_packets: counters.expected_cnt - counters.received_cnt,
        received_unexpected: counters.too_old_cnt,
        received_packets: counters.received_cnt,
        duplicate_packets: counters.duplicate_cnt,
        noise_proto: true,
    }
}

/// The state that a tunnel is in.
pub fn state_of(established: bool) -> (state: State)
    ensures
        state == if established {
            State::Established
        } else {
            State::Init
        },
{
    if established {
        State::Established
    } else {
        State::Init
    }
}

impl SessionInner {
    /// The public key of the peer.
    pub closed spec fn her_pubkey_spec(&self) -> Seq<u8> {
        self.her_pubkey@
    }

    /// The address of the peer.
    pub closed spec fn her_ip6_spec(&self) -> Seq<u8> {
        self.her_ip6@
    }

    /// Whether this node started the session.
    pub closed spec fn is_initiator(&self) -> bool {
        self.initiator is Some
    }

    /// Whether the session asks the peer for credentials.
    pub closed spec fn require_auth_spec(&self) -> bool {
        self.require_auth
    }

    /// The index that the tunnel was made with.
    pub closed spec fn index_spec(&self) -> u32 {
        self.index
    }

    /// The pre-shared key of the tunnel.
    pub closed spec fn psk_spec(&self) -> Option<Seq<u8>> {
        psk_of(self.preshared_key)
    }

    /// The private key of this node, which the tunnel was made with.
    pub closed spec fn private_key_spec(&self) -> Seq<u8> {
        self.own_private@
    }

    /// The additional data that goes with every handshake of the session;
    /// empty for a responder.
    pub closed spec fn additional_spec(&self) -> Seq<u8> {
        match self.initiator {
            Some(init) => init.m.additional_spec(),
            None => Seq::empty(),
        }
    }

    /// The challenge key of the credentials that were set, if any.
    pub closed spec fn auth_spec(&self) -> Option<Seq<u8>> {
        match self.initiator {
            Some(init) => init.m.auth_spec(),
            None => None,
        }
    }

    /// The index of the peer that the additional data names, if any.
    pub closed spec fn peer_recv_index_spec(&self) -> Option<u32> {
        match self.initiator {
            Some(init) => init.m.peer_recv_index_spec(),
            None => None,
        }
    }

    /// The index of the peer that was seen last; `usize::MAX` before any.
    pub closed spec fn peer_cache_spec(&self) -> usize {
        match self.initiator {
            Some(init) => init.peer_recv_index,
            None => no_peer_index(),
        }
    }

    /// Whether the session is in order: the address is the one derived from
    /// the key and is an address of the mesh; a tunnel can be made between
    /// the private key of this node and the key of the peer; the additional
    /// data stands for the credentials and the index of the peer, with a
    /// length that is a multiple of four; and the index of the peer that was
    /// seen last, if one was seen, is the one that the additional data names.
    pub closed spec fn wf(&self) -> bool {
        &&& self.her_ip6@ == ip6_of_key(self.her_pubkey@)
        &&& self.her_ip6@[0] == ADDRESS_PREFIX
        &&& tunnel_can_be_made(self.own_private@, self.her_pubkey@)
        &&& match self.initiator {
            Some(init) => {
                &&& init.m.wf()
                &&& init.m.additional_spec().len() % 4 == 0
                &&& init.peer_recv_index != no_peer_index() ==> init.m.peer_recv_index_spec()
                    == Some(init.peer_recv_index as u32)
            },
            None => true,
        }
    }

    /// What holds of every session that is in order.
    pub proof fn lemma_wf(&self)
        requires
            self.wf(),
        ensures
            self.her_ip6_spec() == ip6_of_key(self.her_pubkey_spec()),
            self.her_ip6_spec()[0] == ADDRESS_PREFIX,
            tunnel_can_be_made(self.private_key_spec(), self.her_pubkey_spec()),
            self.peer_cache_spec() != no_peer_index() ==> self.peer_recv_index_spec() == Some(
                self.peer_cache_spec() as u32,
            ),
            self.additional_spec().len() % 4 == 0,
            self.additional_spec() == if self.is_initiator() {
                crate::additional::additional_bytes(self.peer_recv_index_spec(), self.auth_spec())
            } else {
                Seq::<u8>::empty()
            },
    {
    }

    /// Makes the session of a peer whose address is known to be in order:
    /// it is made exactly if a tunnel can be made between the two keys.
    pub(crate) fn create(
        private_key: &[u8; 32],
        her_pubkey: [u8; 32],
        her_ip6: [u8; 16],
        is_initiator: bool,
        require_auth: bool,
        index: u32,
        preshared_key: Option<[u8; 32]>,
    ) -> (r: Option<SessionInner>)
        requires
            her_ip6@ == ip6_of_key(her_pubkey@),
            her_ip6@[0] == ADDRESS_PREFIX,
        ensures
            r is Some <==> tunnel_can_be_made(private_key@, her_pubkey@),
            r is Some ==> {
                let s = r->0;
                &&& s.wf()
                &&& s.private_key_spec() == private_key@
                &&& s.her_pubkey_spec() == her_pubkey@
                &&& s.her_ip6_spec() == her_ip6@
                &&& s.is_initiator() == is_initiator
                &&& s.require_auth_spec() == require_auth
                &&& s.index_spec() == index
                &&& s.psk_spec() == psk_of(preshared_key)
                &&& s.additional_spec().len() == 0
                &&& s.auth_spec() is None
                &&& s.peer_recv_index_spec() is None
                &&& s.peer_cache_spec() == no_peer_index()
            },
    {
        let tunnel = match tunn_new(private_key, &her_pubkey, preshared_key, index) {
            Some(t) => t,
            None => {
                return None;
            },
        };
        let initiator = if is_initiator {
            Some(InitiatorSession { m: InitiatorSessionMut::new(), peer_recv_index: usize::MAX })
        } else {
            None
        };
        Some(
            SessionInner {
                tunnel,
                initiator,
                her_pubkey,
                her_ip6,
                require_auth,
                index,
                preshared_key,
                own_private: *private_key,
            },
        )
    }

    /// The public key of the peer.
    pub fn her_pubkey(&self) -> (key: &[u8; 32])
        ensures
            key@ == self.her_pubkey_spec(),
    {
        &self.her_pubkey
    }

    /// The address of the peer.
    pub fn her_ip6(&self) -> (ip6: &[u8; 16])
        ensures
            ip6@ == self.her_ip6_spec(),
    {
        &self.her_ip6
    }

    /// Whether the session asks the peer for credentials.
    pub fn require_auth(&self) -> (required: bool)
        ensures
            required == self.require_auth_spec(),
    {
        self.require_auth
    }

    /// A copy of the additional data of the session; empty for a responder.
    pub fn additional_data(&self) -> (data: Vec<u8>)
        ensures
            data@ == self.additional_spec(),
    {
        let mut data: Vec<u8> = Vec::new();
        match &self.initiator {
            Some(init) => {
                let add = init.m.additional_data();
                push_range(&mut data, add.as_slice(), 0, add.len());
                assert(data@ =~= self.additional_spec());
            },
            None => {
                assert(data@ =~= Seq::<u8>::empty());
            },
        }
        data
    }

    /// Takes note of the index under which the peer knows this session. A
    /// responder keeps no such note. An initiator remembers the index; if it
    /// differs from the one seen last, the additional data is written anew
    /// to name it.
    pub fn update_peer_index(&mut self, peer_index: u32)
        requires
            old(self).wf(),
        ensures
            final(self).wf(),
            final(self).private_key_spec() == old(self).private_key_spec(),
            final(self).her_pubkey_spec() == old(self).her_pubkey_spec(),
            final(self).her_ip6_spec() == old(self).her_ip6_spec(),
            final(self).is_initiator() == old(self).is_initiator(),
            final(self).require_auth_spec() == old(self).require_auth_spec(),
            final(self).index_spec() == old(self).index_spec(),
            final(self).psk_spec() == old(self).psk_spec(),
            final(self).auth_spec() == old(self).auth_spec(),
            !old(self).is_initiator() ==> final(self).peer_cache_spec() == no_peer_index(),
            old(self).is_initiator() ==> final(self).peer_cache_spec() == peer_index as usize,
            final(self).peer_recv_index_spec() == if old(self).is_initiator() && old(
                self,
            ).peer_cache_spec() != peer_index as usize {
                Some(peer_index)
            } else {
                old(self).peer_recv_index_spec()
            },
            old(self).is_initiator() && peer_index as usize != no_peer_index()
                ==> final(self).peer_recv_index_spec() == Some(peer_index),
    {
        match self.initiator.take() {
            None => {},
            Some(init) => {
                let mut init = init;
                let peer_index_us: usize = peer_index as usize;
                let old_idx: usize = init.peer_recv_index;
                init.peer_recv_index = peer_index_us;
                if old_idx != peer_index_us {
                    init.m.set_peer_recv_index(Some(peer_index));
                    init.m.update_additional();
                }
                self.initiator = Some(init);
            },
        }
    }

    /// `Established` once the tunnel holds a session that a handshake has set
    /// up, `Init` before.
    pub fn get_state(&self) -> (state: State)
        ensures
            state == State::Established || state == State::Init,
    {
        state_of(tunn_is_established(&self.tunnel))
    }

    /// Hands a plaintext to the tunnel and frames the answer for the
    /// ciphertext endpoint.
    ///
    /// An empty plaintext, one whose length is no multiple of four and one
    /// that does not fit the scratch space are refused, in this order, and the
    /// buffer is left as it was. Otherwise the tunnel decides, and
    /// `encapsulated` says what becomes of its answer: there is nothing to
    /// send, or a frame goes to the ciphertext endpoint, or the tunnel has
    /// failed. Nothing else comes of a plaintext that is not refused.
    pub fn encapsulate_plaintext(&self, tc: &mut ThreadCtx, msg: &mut Vec<u8>) -> (r: Result<
        NextForward,
        NoiseError,
    >)
        requires
            self.wf(),
            old(tc).wf(),
        ensures
            final(tc).wf(),
            old(msg)@.len() == 0 ==> r == Err::<NextForward, NoiseError>(NoiseError::ZeroLength)
                && final(msg)@ == old(msg)@,
            old(msg)@.len() > 0 && old(msg)@.len() % 4 != 0 ==> r == Err::<
                NextForward,
                NoiseError,
            >(NoiseError::AlignmentFault) && final(msg)@ == old(msg)@,
            old(msg)@.len() % 4 == 0 && old(msg)@.len() + DATA_OVERHEAD_SZ > CRYPT_BUF_SZ ==> r
                == Err::<NextForward, NoiseError>(NoiseError::TooLarge) && final(msg)@ == old(
                msg,
            )@,
            old(msg)@.len() > 0 && old(msg)@.len() % 4 == 0 && old(msg)@.len() + DATA_OVERHEAD_SZ
                <= CRYPT_BUF_SZ ==> {
                &&& exists|outcome: TunnOutcome|
                    {
                        &&& encapsulation_fits(outcome, old(msg)@)
                        &&& #[trigger] sent_as(
                            encapsulated_spec(outcome, self.additional_spec()),
                            r,
                            final(msg)@,
                        )
                    }
                &&& r == Ok::<NextForward, NoiseError>(NextForward::Done) || r == Ok::<
                    NextForward,
                    NoiseError,
                >(NextForward::Cipher) || (r is Err && r->Err_0 is Encapsulate)
                &&& r == Ok::<NextForward, NoiseError>(NextForward::Cipher)
                    ==> crate::codec::cjdns_well_formed(final(msg)@) && final(msg)@.len() % 4 == 0
            },
    {
        if msg.len() == 0 {
            return Err(NoiseError::ZeroLength);
        }
        if msg.len() % 4 != 0 {
            return Err(NoiseError::AlignmentFault);
        }
        if msg.len() > CRYPT_BUF_SZ - DATA_OVERHEAD_SZ {
            return Err(NoiseError::TooLarge);
        }
        let outcome = tunn_encapsulate(&self.tunnel, msg.as_slice(), &mut tc.crypt_buf);
        let additional = self.additional_data();
        let ghost chosen = outcome;
        proof {
            self.lemma_wf();
            match chosen {
                TunnOutcome::WriteToNetwork(packet) => {
                    lemma_sent_packet_frames(packet@, self.additional_spec());
                    crate::codec::lemma_wg_round_trip(
                        with_additional(packet@, self.additional_spec()),
                    );
                },
                _ => {},
            }
        }
        let r = encapsulated(outcome, additional.as_slice(), msg);
        proof {
            assert(sent_as(encapsulated_spec(chosen, self.additional_spec()), r, msg@));
        }
        r
    }

    /// Lets the tunnel look at the clock and hands back the packet that is
    /// to be sent, if any, in the framing of the wire.
    ///
    /// The tunnel decides; `timers_updated`, `flushed` and
    /// `frame_tick_packet` say what becomes of its answers. The only failure
    /// is a packet whose length is no multiple of four.
    pub fn tick(&self, tc: &mut ThreadCtx) -> (r: Result<Option<Vec<u8>>, NoiseError>)
        requires
            self.wf(),
            old(tc).wf(),
        ensures
            final(tc).wf(),
            r is Ok && r->Ok_0 is Some ==> r->Ok_0->0@.len() % 4 == 0
                && crate::codec::cjdns_well_formed(r->Ok_0->0@),
            r is Err ==> r == Err::<Option<Vec<u8>>, NoiseError>(NoiseError::AlignmentFault),
            exists|first: TunnOutcome, second: TunnOutcome|
                {
                    &&& timers_fit(first)
                    &&& decapsulation_fits(second, Seq::<u8>::empty())
                    &&& #[trigger] ticked_as(tick_spec(first, second, self.additional_spec()), r)
                },
    {
        let additional = self.additional_data();
        let first = tunn_update_timers(&self.tunnel, &mut tc.crypt_buf);
        let ghost first_seen = first;
        let ghost mut second_seen = TunnOutcome::Done;
        let packet = match timers_updated(first) {
            TickStep::Flush => {
                let empty: Vec<u8> = Vec::new();
                let second = tunn_decapsulate(
                    &self.tunnel,
                    None,
                    empty.as_slice(),
                    &mut tc.crypt_buf,
                );
                proof {
                    second_seen = second;
                }
                flushed(second)
            },
            TickStep::Send(packet) => Some(packet),
            TickStep::Nothing => None,
            TickStep::Unexpected => {
                return Err(NoiseError::UnexpectedResult);
            },
        };
        proof {
            self.lemma_wf();
            if packet is Some {
                lemma_sent_packet_frames(packet->0@, self.additional_spec());
                crate::codec::lemma_wg_round_trip(
                    with_additional(packet->0@, self.additional_spec()),
                );
            }
        }
        let r = frame_tick_packet(packet, additional.as_slice());
        assert(ticked_as(tick_spec(first_seen, second_seen, self.additional_spec()), r));
        r
    }

    /// Hands a packet of the peer to the tunnel. `peer` is the address that
    /// the packet came from; an empty packet asks for what the tunnel has
    /// kept for later.
    pub(crate) fn decapsulate(
        &self,
        tc: &mut ThreadCtx,
        peer: Option<[u8; 16]>,
        datagram: &[u8],
    ) -> (outcome: TunnOutcome)
        requires
            old(tc).wf(),
            datagram@.len() <= CRYPT_BUF_SZ,
        ensures
            final(tc).wf(),
            decapsulation_fits(outcome, datagram@),
    {
        tunn_decapsulate(&self.tunnel, peer, datagram, &mut tc.crypt_buf)
    }

    /// Gives the tunnel another pre-shared key. The tunnel takes a key only
    /// when it is made, so a key that differs from the present one has the
    /// tunnel made anew, for the same keys and index; that a tunnel can be
    /// made for them is known since the session was made.
    pub(crate) fn set_preshared_key(&mut self, preshared_key: Option<[u8; 32]>)
        requires
            old(self).wf(),
        ensures
            final(self).wf(),
            final(self).private_key_spec() == old(self).private_key_spec(),
            final(self).her_pubkey_spec() == old(self).her_pubkey_spec(),
            final(self).her_ip6_spec() == old(self).her_ip6_spec(),
            final(self).is_initiator() == old(self).is_initiator(),
            final(self).require_auth_spec() == old(self).require_auth_spec(),
            final(self).index_spec() == old(self).index_spec(),
            final(self).auth_spec() == old(self).auth_spec(),
            final(self).peer_recv_index_spec() == old(self).peer_recv_index_spec(),
            final(self).peer_cache_spec() == old(self).peer_cache_spec(),
            final(self).additional_spec() == old(self).additional_spec(),
            final(self).psk_spec() == psk_of(preshared_key),
    {
        if same_key(&self.preshared_key, &preshared_key) {
            return ;
        }
        match tunn_new(&self.own_private, &self.her_pubkey, preshared_key, self.index) {
            Some(tunnel) => {
                self.tunnel = tunnel;
                self.preshared_key = preshared_key;
            },
            None => {},
        }
    }

    /// Sets the credentials of an initiating session: the challenge key goes
    /// into the additional data, the secret becomes the pre-shared key of the
    /// tunnel. Without a password both are taken away. On a responder nothing
    /// changes.
    pub(crate) fn set_auth(&mut self, password: Option<Vec<u8>>, login: Option<Vec<u8>>)
        requires
            old(self).wf(),
        ensures
            final(self).wf(),
            final(self).private_key_spec() == old(self).private_key_spec(),
            final(self).her_pubkey_spec() == old(self).her_pubkey_spec(),
            final(self).her_ip6_spec() == old(self).her_ip6_spec(),
            final(self).is_initiator() == old(self).is_initiator(),
            final(self).require_auth_spec() == old(self).require_auth_spec(),
            final(self).index_spec() == old(self).index_spec(),
            final(self).peer_recv_index_spec() == old(self).peer_recv_index_spec(),
            final(self).peer_cache_spec() == old(self).peer_cache_spec(),
            !old(self).is_initiator() ==> final(self).psk_spec() == old(self).psk_spec(),
            old(self).is_initiator() ==> final(self).auth_spec() == crate::auth::auth_challenge(
                crate::auth::bytes_view(password),
                crate::auth::bytes_view(login),
            ),
            old(self).is_initiator() ==> final(self).psk_spec() == crate::auth::auth_secret(
                crate::auth::bytes_view(password),
            ),
    {
        match self.initiator.take() {
            None => {},
            Some(init) => {
                let mut init = init;
                let (psk, auth) = compute_auth(password, login);
                init.m.set_auth(auth);
                init.m.update_additional();
                self.initiator = Some(init);
                self.set_preshared_key(psk);
            },
        }
    }
}

/// Whether two optional keys are the same.
fn same_key(a: &Option<[u8; 32]>, b: &Option<[u8; 32]>) -> (same: bool)
    ensures
        same == (psk_of(*a) == psk_of(*b)),
{
    match (a, b) {
        (None, None) => true,
        (Some(x), Some(y)) => bytes_eq(x.as_slice(), y.as_slice()),
        _ => false,
    }
}

} // verus!
