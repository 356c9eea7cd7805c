//! The additional data of a handshake: a short list of entries, each a kind,
//! a length and a value, filled up with zero bytes to a multiple of four.
//!
//! The data travels behind the handshake initiation and is read before the
//! handshake is answered. It is not part of what the tunnel authenticates:
//! what it asks for is checked against the registry.

use vstd::prelude::*;
use crate::auth::Challenge2;
use crate::bytes::{be32, from_be32, push_be32, push_range, read_be32};
use crate::error::NoiseError;

verus! {

/// The kind byte of a filler byte, which has neither length nor value.
pub const ENT_PAD: u8 = 0;

/// The kind byte of the entry that names an earlier session.
pub const ENT_PREV_SESS_INDEX: u8 = 1;

/// The kind byte of the entry that names the credentials.
pub const ENT_CJDNS_PSK: u8 = 2;

/// One entry of the additional data.
#[derive(Debug, Clone, Copy, PartialEq, Eq)]
pub enum CNoiseEntity {
    /// The index under which the peer last knew this session.
    PrevSessIndex(u32),
    /// The challenge key of the credentials that the sender holds.
    CjdnsPsk(Challenge2),
}

/// What the additional data of a handshake says.
#[derive(Debug, Clone, Copy, PartialEq, Eq)]
pub struct AdditionalData {
    pub prev_sess_id: Option<u32>,
    pub cjdns_psk: Option<Challenge2>,
}

/// The contents of additional data as plain values.
pub struct Fields {
    pub prev_sess_id: Option<u32>,
    pub cjdns_psk: Option<Seq<u8>>,
}

impl View for AdditionalData {
    type V = Fields;

    open spec fn view(&self) -> Fields {
        Fields { prev_sess_id: self.prev_sess_id, cjdns_psk: psk_view(self.cjdns_psk) }
    }
}

/// An optional challenge key as plain values.
pub open spec fn psk_view(psk: Option<Challenge2>) -> Option<Seq<u8>> {
    match psk {
        Some(c) => Some(c@),
        None => None,
    }
}

/// The bytes of one entry.
pub open spec fn ent_bytes(e: CNoiseEntity) -> Seq<u8> {
    match e {
        CNoiseEntity::PrevSessIndex(index) => seq![ENT_PREV_SESS_INDEX, 4u8] + be32(index),
        CNoiseEntity::CjdnsPsk(challenge) => seq![ENT_CJDNS_PSK, 32u8] + challenge@,
    }
}

/// The number of filler bytes that bring `len` to a multiple of `align`.
pub open spec fn pad_len(len: int, align: int) -> int {
    (align - len % align) % align
}

/// `n` zero bytes.
pub open spec fn zeros(n: int) -> Seq<u8> {
    Seq::new(n as nat, |i: int| 0u8)
}

/// The entries that stand for the two optional fields, without filler.
pub open spec fn entries_bytes(prev_sess_id: Option<u32>, cjdns_psk: Option<Seq<u8>>) -> Seq<u8> {
    (match prev_sess_id {
        Some(index) => seq![ENT_PREV_SESS_INDEX, 4u8] + be32(index),
        None => Seq::empty(),
    }) + (match cjdns_psk {
        Some(challenge) => seq![ENT_CJDNS_PSK, 32u8] + challenge,
        None => Seq::empty(),
    })
}

/// The additional data that stands for the two optional fields.
pub open spec fn additional_bytes(prev_sess_id: Option<u32>, cjdns_psk: Option<Seq<u8>>) -> Seq<
    u8,
> {
    let body = entries_bytes(prev_sess_id, cjdns_psk);
    body + zeros(pad_len(body.len() as int, 4))
}

/// What a sequence of entries says, read after what `acc` already holds: a
/// later entry of a kind replaces an earlier one. `None` if the bytes are no
/// sequence of entries.
pub open spec fn parse_entries(s: Seq<u8>, acc: Fields) -> Option<Fields>
    decreases s.len(),
{
    if s.len() == 0 {
        Some(acc)
    } else if s[0] == ENT_PAD {
        parse_entries(s.skip(1), acc)
    } else if s.len() >= 6 && s[0] == ENT_PREV_SESS_INDEX && s[1] == 4 {
        parse_entries(
            s.skip(6),
            Fields { prev_sess_id: Some(from_be32(s, 2)), cjdns_psk: acc.cjdns_psk },
        )
    } else if s.len() >= 34 && s[0] == ENT_CJDNS_PSK && s[1] == 32 {
        parse_entries(
            s.skip(34),
            Fields { prev_sess_id: acc.prev_sess_id, cjdns_psk: Some(s.subrange(2, 34)) },
        )
    } else {
        None
    }
}

/// What additional data says. `None` if the bytes are no sequence of entries.
pub open spec fn parse_spec(s: Seq<u8>) -> Option<Fields> {
    parse_entries(s, Fields { prev_sess_id: None, cjdns_psk: None })
}

/// Filler bytes say nothing.
pub proof fn lemma_parse_zeros(n: int, acc: Fields)
    requires
        0 <= n,
    ensures
        parse_entries(zeros(n), acc) == Some(acc),
    decreases n,
{
    if n > 0 {
        assert(zeros(n).skip(1) =~= zeros(n - 1));
        lemma_parse_zeros(n - 1, acc);
    }
}

/// Additional data that was written for two optional fields reads as those
/// fields.
pub proof fn lemma_additional_round_trip(prev_sess_id: Option<u32>, cjdns_psk: Option<Seq<u8>>)
    requires
        cjdns_psk is Some ==> cjdns_psk->0.len() == 32,
    ensures
        parse_spec(additional_bytes(prev_sess_id, cjdns_psk)) == Some(
            Fields { prev_sess_id, cjdns_psk },
        ),
        additional_bytes(prev_sess_id, cjdns_psk).len() % 4 == 0,
{
    let empty = Fields { prev_sess_id: None, cjdns_psk: None };
    let body = entries_bytes(prev_sess_id, cjdns_psk);
    let fill = zeros(pad_len(body.len() as int, 4));
    let all = body + fill;
    let mid = Fields { prev_sess_id, cjdns_psk: None };
    let done = Fields { prev_sess_id, cjdns_psk };
    lemma_parse_zeros(pad_len(body.len() as int, 4), done);
    let psk_part: Seq<u8> = match cjdns_psk {
        Some(challenge) => seq![ENT_CJDNS_PSK, 32u8] + challenge,
        None => Seq::empty(),
    };
    let rest = psk_part + fill;
    // The part after the first entry.
    assert(parse_entries(rest, mid) == Some(done)) by {
        match cjdns_psk {
            Some(challenge) => {
                assert(rest.len() >= 34 && rest[0] == ENT_CJDNS_PSK && rest[1] == 32);
                assert(rest.skip(34) =~= fill);
                assert(rest.subrange(2, 34) =~= challenge);
            },
            None => {
                assert(rest =~= fill);
            },
        }
    }
    match prev_sess_id {
        Some(index) => {
            assert(all =~= seq![ENT_PREV_SESS_INDEX, 4u8] + be32(index) + rest);
            assert(all.len() >= 6 && all[0] == ENT_PREV_SESS_INDEX && all[1] == 4);
            assert(all.skip(6) =~= rest);
            crate::bytes::lemma_be32_round_trip(index);
            assert(all.subrange(2, 6) =~= be32(index));
            assert(from_be32(all, 2) == from_be32(be32(index), 0));
        },
        None => {
            assert(all =~= rest);
        },
    }
}

/// Appends one entry.
pub fn push_ent(msg: &mut Vec<u8>, e: CNoiseEntity)
    ensures
        final(msg)@ == old(msg)@ + ent_bytes(e),
{
    match e {
        CNoiseEntity::PrevSessIndex(index) => {
            msg.push(ENT_PREV_SESS_INDEX);
            msg.push(4u8);
            push_be32(msg, index);
            assert(msg@ =~= old(msg)@ + ent_bytes(e));
        },
        CNoiseEntity::CjdnsPsk(challenge) => {
            msg.push(ENT_CJDNS_PSK);
            msg.push(32u8);
            push_range(msg, challenge.raw.as_slice(), 0, 32);
            assert(challenge.raw@.subrange(0, 32) =~= challenge@);
            assert(msg@ =~= old(msg)@ + ent_bytes(e));
        },
    }
}

/// Appends zero bytes until the length is a multiple of `align`.
pub fn pad(msg: &mut Vec<u8>, align: usize)
    requires
        align > 0,
    ensures
        final(msg)@ == old(msg)@ + zeros(pad_len(old(msg)@.len() as int, align as int)),
        (final(msg)@.len() as int) % (align as int) == 0,
{
    let start: usize = msg.len();
    let fill: usize = (align - start % align) % align;
    assert((start + fill) % (align as int) == 0) by (nonlinear_arith)
        requires
            align > 0,
            fill == (align - start % align) % (align as int),
    ;
    let mut i: usize = 0;
    while i < fill
        invariant
            i <= fill,
            fill < align,
            msg@.len() == start + i,
            msg@ == old(msg)@ + zeros(i as int),
        decreases fill - i,
    {
        msg.push(0u8);
        i = i + 1;
        assert(msg@ =~= old(msg)@ + zeros(i as int));
    }
}

/// Reads additional data. Bytes that are no sequence of entries are refused
/// with `Malformed`.
pub fn parse_additional_data(data: &[u8]) -> (r: Result<AdditionalData, NoiseError>)
    ensures
        match r {
            Ok(add) => parse_spec(data@) == Some(add@),
            Err(e) => parse_spec(data@) is None && e == NoiseError::Malformed,
        },
{
    let mut add = AdditionalData { prev_sess_id: None, cjdns_psk: None };
    let len: usize = data.len();
    let mut pos: usize = 0;
    assert(data@.skip(0) =~= data@);
    while pos < len
        invariant
            pos <= len,
            len == data@.len(),
            parse_spec(data@) == parse_entries(data@.skip(pos as int), add@),
        decreases len - pos,
    {
        let ghost rest = data@.skip(pos as int);
        let kind: u8 = data[pos];
        assert(rest[0] == kind);
        if kind == ENT_PAD {
            assert(rest.skip(1) =~= data@.skip(pos + 1));
            pos = pos + 1;
        } else if len - pos >= 6 && kind == ENT_PREV_SESS_INDEX && data[pos + 1] == 4 {
            assert(rest[1] == data@[pos + 1]);
            assert(rest.skip(6) =~= data@.skip(pos + 6));
            assert(from_be32(rest, 2) == from_be32(data@, pos + 2));
            add.prev_sess_id = Some(read_be32(data, pos + 2));
            pos = pos + 6;
        } else if len - pos >= 34 && kind == ENT_CJDNS_PSK && data[pos + 1] == 32 {
            assert(rest[1] == data@[pos + 1]);
            assert(rest.skip(34) =~= data@.skip(pos + 34));
            let mut raw: [u8; 32] = [0u8; 32];
            let mut i: usize = 0;
            while i < 32
                invariant
                    i <= 32,
                    pos + 34 <= len,
                    len == data@.len(),
                    forall|j: int| 0 <= j < i ==> raw@[j] == data@[pos + 2 + j],
                decreases 32 - i,
            {
                raw[i] = data[pos + 2 + i];
                i = i + 1;
            }
            assert(raw@ =~= rest.subrange(2, 34));
            add.cjdns_psk = Some(Challenge2 { raw });
            pos = pos + 34;
        } else {
            proof {
                assert(rest.len() == len - pos);
                if rest.len() >= 2 {
                    assert(rest[1] == data@[pos + 1]);
                }
            }
            return Err(NoiseError::Malformed);
        }
    }
    assert(data@.skip(pos as int).len() == 0);
    Ok(add)
}

/// What changes in an initiating session as the handshakes go by.
pub struct InitiatorSessionMut {
    auth: Option<Challenge2>,
    peer_recv_index: Option<u32>,
    additional_data: Vec<u8>,
}

impl InitiatorSessionMut {
    /// The challenge key of the credentials that were set, if any.
    pub closed spec fn auth_spec(&self) -> Option<Seq<u8>> {
        psk_view(self.auth)
    }

    /// The index under which the peer last knew this session, if any.
    pub closed spec fn peer_recv_index_spec(&self) -> Option<u32> {
        self.peer_recv_index
    }

    /// The additional data that goes with every handshake.
    pub closed spec fn additional_spec(&self) -> Seq<u8> {
        self.additional_data@
    }

    /// Whether the additional data stands for the two fields.
    pub open spec fn wf(&self) -> bool {
        self.additional_spec() == additional_bytes(self.peer_recv_index_spec(), self.auth_spec())
    }

    /// The state of a session that has seen nothing yet: no credentials, no
    /// index of the peer, empty additional data.
    pub fn new() -> (m: InitiatorSessionMut)
        ensures
            m.wf(),
            m.auth_spec() is None,
            m.peer_recv_index_spec() is None,
            m.additional_spec().len() == 0,
    {
        let m = InitiatorSessionMut { auth: None, peer_recv_index: None, additional_data: Vec::new() };
        assert(m.additional_data@ =~= additional_bytes(None, None));
        m
    }

    /// Sets the credentials; the additional data is stale until it is
    /// written anew.
    pub fn set_auth(&mut self, auth: Option<Challenge2>)
        ensures
            final(self).auth_spec() == psk_view(auth),
            final(self).peer_recv_index_spec() == old(self).peer_recv_index_spec(),
            final(self).additional_spec() == old(self).additional_spec(),
    {
        self.auth = auth;
    }

    /// Sets the index of the peer; the additional data is stale until it is
    /// written anew.
    pub fn set_peer_recv_index(&mut self, index: Option<u32>)
        ensures
            final(self).peer_recv_index_spec() == index,
            final(self).auth_spec() == old(self).auth_spec(),
            final(self).additional_spec() == old(self).additional_spec(),
    {
        self.peer_recv_index = index;
    }

    /// The additional data that goes with every handshake.
    pub fn additional_data(&self) -> (data: &Vec<u8>)
        ensures
            data@ == self.additional_spec(),
    {
        &self.additional_data
    }

    /// Writes the additional data anew from the two fields: first the index
    /// of the peer, then the credentials, then the filler. Its length is a
    /// multiple of four.
    pub fn update_additional(&mut self)
        ensures
            final(self).wf(),
            final(self).auth_spec() == old(self).auth_spec(),
            final(self).peer_recv_index_spec() == old(self).peer_recv_index_spec(),
            final(self).additional_spec().len() % 4 == 0,
    {
        let mut msg: Vec<u8> = Vec::new();
        if let Some(peer_index) = self.peer_recv_index {
            push_ent(&mut msg, CNoiseEntity::PrevSessIndex(peer_index));
        }
        if let Some(ch) = self.auth {
            push_ent(&mut msg, CNoiseEntity::CjdnsPsk(ch));
        }
        assert(msg@ =~= entries_bytes(self.peer_recv_index, psk_view(self.auth)));
        if msg.len() > 0 {
            pad(&mut msg, 4);
        }
        assert(msg@ =~= additional_bytes(self.peer_recv_index, psk_view(self.auth)));
        self.additional_data = msg;
    }
}

} // verus!
