//! The framing on the wire and the framing that the tunnel reads.
//!
//! Both framings lay a packet out alike: a word that tells the kind of packet,
//! one or two words of session indices, then the body. The tunnel reads the
//! header words least significant byte first; on the wire they travel in
//! network order. A handshake initiation is followed on both sides by the
//! additional data of the initiator.

use vstd::prelude::*;
use crate::error::NoiseError;
use crate::bytes::{from_be32, from_le32, read_be32, read_le32};

verus! {

/// The kind word of a handshake initiation.
pub const MSG_INIT: u8 = 1;

/// The kind word of a handshake response.
pub const MSG_RESPONSE: u8 = 2;

/// The kind word of a cookie reply.
pub const MSG_COOKIE: u8 = 3;

/// The kind word of a data packet.
pub const MSG_DATA: u8 = 4;

/// The length of a handshake initiation without its additional data.
pub const INIT_SZ: usize = 148;

/// The length of a handshake response.
pub const RESPONSE_SZ: usize = 92;

/// The length of a cookie reply.
pub const COOKIE_SZ: usize = 64;

/// The length of a data packet that carries nothing.
pub const DATA_MIN_SZ: usize = 32;

/// The tunnel numbers its sessions from the index it was made with, times
/// this.
pub const INDEX_STRIDE: u32 = 256;

/// What a frame says about the sessions it belongs to.
#[derive(Debug, Clone, Copy, PartialEq, Eq)]
pub struct WgFromCjdnsRes {
    /// The receiver's session index; `None` in a handshake initiation.
    pub our_index: Option<u32>,
    /// The sender's session index, where the frame carries it.
    pub peer_index: Option<u32>,
    /// The kind of packet.
    pub msg_type: u8,
}

/// Whether a frame of kind `kind` may be `len` bytes long.
pub open spec fn length_fits(kind: u32, len: int) -> bool {
    if kind == MSG_INIT {
        len >= INIT_SZ && (len - INIT_SZ) % 4 == 0
    } else if kind == MSG_RESPONSE {
        len == RESPONSE_SZ
    } else if kind == MSG_COOKIE {
        len == COOKIE_SZ
    } else if kind == MSG_DATA {
        len >= DATA_MIN_SZ
    } else {
        false
    }
}

/// The number of header bytes that differ between the two framings.
pub open spec fn header_len(kind: u32) -> int {
    if kind == MSG_RESPONSE {
        12
    } else {
        8
    }
}

/// A frame as it travels on the wire.
pub open spec fn cjdns_well_formed(b: Seq<u8>) -> bool {
    b.len() >= 8 && length_fits(from_be32(b, 0), b.len() as int)
}

/// A frame as the tunnel reads and writes it.
pub open spec fn wg_well_formed(b: Seq<u8>) -> bool {
    b.len() >= 8 && length_fits(from_le32(b, 0), b.len() as int)
}

/// `b` with the bytes of each word of its first `hlen` bytes in reverse
/// order.
pub open spec fn swap_header(b: Seq<u8>, hlen: int) -> Seq<u8> {
    Seq::new(
        b.len(),
        |i: int|
            if i < hlen {
                b[(i / 4) * 4 + 3 - i % 4]
            } else {
                b[i]
            },
    )
}

/// The tunnel's framing of a frame from the wire.
pub open spec fn wg_of_cjdns(b: Seq<u8>) -> Seq<u8> {
    swap_header(b, header_len(from_be32(b, 0)))
}

/// The wire's framing of a frame of the tunnel.
pub open spec fn cjdns_of_wg(b: Seq<u8>) -> Seq<u8> {
    swap_header(b, header_len(from_le32(b, 0)))
}

/// The session indices that a frame of the tunnel carries.
pub open spec fn routing_of(wg: Seq<u8>) -> WgFromCjdnsRes {
    let kind = from_le32(wg, 0);
    if kind == MSG_INIT {
        WgFromCjdnsRes {
            our_index: None,
            peer_index: Some(from_le32(wg, 4) / INDEX_STRIDE),
            msg_type: MSG_INIT,
        }
    } else if kind == MSG_RESPONSE {
        WgFromCjdnsRes {
            our_index: Some(from_le32(wg, 8) / INDEX_STRIDE),
            peer_index: Some(from_le32(wg, 4) / INDEX_STRIDE),
            msg_type: MSG_RESPONSE,
        }
    } else {
        WgFromCjdnsRes {
            our_index: Some(from_le32(wg, 4) / INDEX_STRIDE),
            peer_index: None,
            msg_type: kind as u8,
        }
    }
}

/// The error that a frame which is not well formed is refused with.
pub open spec fn refusal(len: nat) -> NoiseError {
    if len < 8 {
        NoiseError::Runt
    } else {
        NoiseError::Malformed
    }
}

/// Swapping the header words twice changes nothing.
pub proof fn lemma_swap_header_involution(b: Seq<u8>, hlen: int)
    requires
        hlen % 4 == 0,
        0 <= hlen <= b.len(),
    ensures
        swap_header(swap_header(b, hlen), hlen) == b,
{
    let s = swap_header(b, hlen);
    assert forall|i: int| 0 <= i < b.len() implies swap_header(s, hlen)[i] == b[i] by {
        if i < hlen {
            let j = (i / 4) * 4 + 3 - i % 4;
            assert(0 <= j < hlen);
            assert(j / 4 == i / 4);
            assert(j % 4 == 3 - i % 4);
        }
    }
    assert(swap_header(s, hlen) =~= b);
}

/// A word read in one byte order from a frame is the word read in the other
/// order from the frame with its header swapped.
pub proof fn lemma_swap_header_word(b: Seq<u8>, hlen: int, off: int)
    requires
        hlen % 4 == 0,
        off % 4 == 0,
        0 <= off,
        off + 4 <= hlen <= b.len(),
    ensures
        from_le32(swap_header(b, hlen), off) == from_be32(b, off),
        from_be32(swap_header(b, hlen), off) == from_le32(b, off),
{
    let s = swap_header(b, hlen);
    assert(s[off] == b[off + 3]);
    assert(s[off + 1] == b[off + 2]);
    assert(s[off + 2] == b[off + 1]);
    assert(s[off + 3] == b[off]);
}

/// A frame from the wire that is accepted comes out of the two transforms
/// unchanged, and in between it is a frame of the tunnel.
pub proof fn lemma_cjdns_round_trip(b: Seq<u8>)
    requires
        cjdns_well_formed(b),
    ensures
        wg_well_formed(wg_of_cjdns(b)),
        cjdns_of_wg(wg_of_cjdns(b)) == b,
{
    let hlen = header_len(from_be32(b, 0));
    lemma_swap_header_word(b, hlen, 0);
    lemma_swap_header_involution(b, hlen);
}

/// A frame of the tunnel that is accepted comes out of the two transforms
/// unchanged, and in between it is a frame of the wire.
pub proof fn lemma_wg_round_trip(b: Seq<u8>)
    requires
        wg_well_formed(b),
    ensures
        cjdns_well_formed(cjdns_of_wg(b)),
        wg_of_cjdns(cjdns_of_wg(b)) == b,
{
    let hlen = header_len(from_le32(b, 0));
    lemma_swap_header_word(b, hlen, 0);
    lemma_swap_header_involution(b, hlen);
}

/// Whether a frame of kind `kind` may be `len` bytes long.
fn check_length(kind: u32, len: usize) -> (ok: bool)
    ensures
        ok == length_fits(kind, len as int),
{
    if kind == MSG_INIT as u32 {
        len >= INIT_SZ && (len - INIT_SZ) % 4 == 0
    } else if kind == MSG_RESPONSE as u32 {
        len == RESPONSE_SZ
    } else if kind == MSG_COOKIE as u32 {
        len == COOKIE_SZ
    } else if kind == MSG_DATA as u32 {
        len >= DATA_MIN_SZ
    } else {
        false
    }
}

/// Reverses the bytes of each word of the first `hlen` bytes of `buf`.
fn swap_words(buf: &mut Vec<u8>, hlen: usize)
    requires
        hlen % 4 == 0,
        hlen <= old(buf)@.len(),
    ensures
        final(buf)@ == swap_header(old(buf)@, hlen as int),
{
    let mut w: usize = 0;
    while w < hlen
        invariant
            w % 4 == 0,
            hlen % 4 == 0,
            w <= hlen <= buf@.len(),
            buf@.len() == old(buf)@.len(),
            forall|i: int| 0 <= i < w ==> buf@[i] == old(buf)@[(i / 4) * 4 + 3 - i % 4],
            forall|i: int| w <= i < buf@.len() ==> buf@[i] == old(buf)@[i],
        decreases hlen - w,
    {
        let b0: u8 = buf[w];
        let b1: u8 = buf[w + 1];
        let b2: u8 = buf[w + 2];
        let b3: u8 = buf[w + 3];
        buf.set(w, b3);
        buf.set(w + 1, b2);
        buf.set(w + 2, b1);
        buf.set(w + 3, b0);
        w = w + 4;
    }
    assert(buf@ =~= swap_header(old(buf)@, hlen as int));
}

/// Turns a frame from the wire, in place, into the frame that the tunnel
/// reads, and returns the session indices that it carries.
///
/// A buffer that is no frame is left as it was and refused: with `Runt` if it
/// is shorter than eight bytes, with `Malformed` otherwise.
pub fn wg_from_cjdns(buf: &mut Vec<u8>) -> (r: Result<WgFromCjdnsRes, NoiseError>)
    ensures
        match r {
            Ok(res) => {
                &&& cjdns_well_formed(old(buf)@)
                &&& final(buf)@ == wg_of_cjdns(old(buf)@)
                &&& wg_well_formed(final(buf)@)
                &&& res == routing_of(final(buf)@)
            },
            Err(e) => {
                &&& !cjdns_well_formed(old(buf)@)
                &&& final(buf)@ == old(buf)@
                &&& e == refusal(old(buf)@.len())
            },
        },
{
    let len: usize = buf.len();
    if len < 8 {
        return Err(NoiseError::Runt);
    }
    let kind: u32 = read_be32(buf.as_slice(), 0);
    if !check_length(kind, len) {
        return Err(NoiseError::Malformed);
    }
    let hlen: usize = if kind == MSG_RESPONSE as u32 {
        12
    } else {
        8
    };
    proof {
        lemma_cjdns_round_trip(buf@);
        lemma_swap_header_word(buf@, hlen as int, 0);
        lemma_swap_header_word(buf@, hlen as int, 4);
        if hlen == 12 {
            lemma_swap_header_word(buf@, hlen as int, 8);
        }
    }
    swap_words(buf, hlen);
    let sender_or_receiver: u32 = read_le32(buf.as_slice(), 4);
    let res = if kind == MSG_INIT as u32 {
        WgFromCjdnsRes {
            our_index: None,
            peer_index: Some(sender_or_receiver / INDEX_STRIDE),
            msg_type: MSG_INIT,
        }
    } else if kind == MSG_RESPONSE as u32 {
        let receiver: u32 = read_le32(buf.as_slice(), 8);
        WgFromCjdnsRes {
            our_index: Some(receiver / INDEX_STRIDE),
            peer_index: Some(sender_or_receiver / INDEX_STRIDE),
            msg_type: MSG_RESPONSE,
        }
    } else {
        WgFromCjdnsRes {
            our_index: Some(sender_or_receiver / INDEX_STRIDE),
            peer_index: None,
            msg_type: kind as u8,
        }
    };
    Ok(res)
}

/// Turns a frame of the tunnel, in place, into the frame that travels on the
/// wire.
///
/// A buffer that is no frame is left as it was and refused: with `Runt` if it
/// is shorter than eight bytes, with `Malformed` otherwise.
pub fn cjdns_from_wg(buf: &mut Vec<u8>) -> (r: Result<(), NoiseError>)
    ensures
        match r {
            Ok(_) => {
                &&& wg_well_formed(old(buf)@)
                &&& final(buf)@ == cjdns_of_wg(old(buf)@)
                &&& cjdns_well_formed(final(buf)@)
            },
            Err(e) => {
                &&& !wg_well_formed(old(buf)@)
                &&& final(buf)@ == old(buf)@
                &&& e == refusal(old(buf)@.len())
            },
        },
{
    let len: usize = buf.len();
    if len < 8 {
        return Err(NoiseError::Runt);
    }
    let kind: u32 = read_le32(buf.as_slice(), 0);
    if !check_length(kind, len) {
        return Err(NoiseError::Malformed);
    }
    let hlen: usize = if kind == MSG_RESPONSE as u32 {
        12
    } else {
        8
    };
    proof {
        lemma_wg_round_trip(buf@);
    }
    swap_words(buf, hlen);
    Ok(())
}

} // verus!
