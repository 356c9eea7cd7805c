//! Long-term keys, the digests that the engine derives from them, and the
//! mesh address of a public key.

use vstd::prelude::*;
use sha2::{Digest, Sha256, Sha512};

verus! {

/// The SHA-256 digest of a byte string, 32 bytes.
pub uninterp spec fn sha256_digest(data: Seq<u8>) -> Seq<u8>;

/// The SHA-512 digest of a byte string, 64 bytes.
pub uninterp spec fn sha512_digest(data: Seq<u8>) -> Seq<u8>;

/// `sha2::Sha256::digest`: the hash depends on the bytes alone, and so the
/// contract only gives it its name.
#[verifier::external_body]
pub(crate) fn sha256(data: &[u8]) -> (r: [u8; 32])
    ensures
        r@ == sha256_digest(data@),
{
    Sha256::digest(data).into()
}

/// `sha2::Sha512::digest`: the hash depends on the bytes alone, and so the
/// contract only gives it its name.
#[verifier::external_body]
pub(crate) fn sha512(data: &[u8]) -> (r: [u8; 64])
    ensures
        r@ == sha512_digest(data@),
{
    Sha512::digest(data).into()
}

/// The first byte of every address of the mesh.
pub const ADDRESS_PREFIX: u8 = 0xfc;

/// The address that belongs to a public key: the first sixteen bytes of the
/// digest of the digest of the key.
pub open spec fn ip6_of_key(key: Seq<u8>) -> Seq<u8> {
    sha512_digest(sha512_digest(key)).subrange(0, 16)
}

/// Whether the address of `key` is an address of the mesh.
pub open spec fn key_has_mesh_address(key: Seq<u8>) -> bool {
    ip6_of_key(key)[0] == ADDRESS_PREFIX
}

/// Derives the address of a public key.
pub fn ip6_from_key(key: &[u8; 32]) -> (ip6: [u8; 16])
    ensures
        ip6@ == ip6_of_key(key@),
{
    let first: [u8; 64] = sha512(key.as_slice());
    let second: [u8; 64] = sha512(first.as_slice());
    let mut ip6: [u8; 16] = [0u8; 16];
    let mut i: usize = 0;
    while i < 16
        invariant
            i <= 16,
            forall|j: int| 0 <= j < i ==> ip6@[j] == second@[j],
        decreases 16 - i,
    {
        ip6[i] = second[i];
        i = i + 1;
    }
    assert(ip6@ =~= second@.subrange(0, 16));
    ip6
}

/// A long-term public key of a peer.
#[derive(Debug, Clone, Copy)]
pub struct PublicKey {
    raw: [u8; 32],
}

impl View for PublicKey {
    type V = Seq<u8>;

    closed spec fn view(&self) -> Seq<u8> {
        self.raw@
    }
}

impl PublicKey {
    /// The key that holds `raw`.
    pub fn new(raw: [u8; 32]) -> (key: PublicKey)
        ensures
            key@ == raw@,
    {
        PublicKey { raw }
    }

    /// The bytes of the key.
    pub fn raw(&self) -> (raw: &[u8; 32])
        ensures
            raw@ == self@,
    {
        &self.raw
    }

    /// Whether every byte of the key is zero, which stands for "unknown".
    pub fn is_zero(&self) -> (zero: bool)
        ensures
            zero == (forall|i: int| 0 <= i < 32 ==> self@[i] == 0),
    {
        let mut i: usize = 0;
        while i < 32
            invariant
                i <= 32,
                forall|j: int| 0 <= j < i ==> self.raw@[j] == 0,
            decreases 32 - i,
        {
            if self.raw[i] != 0 {
                assert(self@[i as int] != 0);
                return false;
            }
            i = i + 1;
        }
        true
    }
}

/// The long-term private key of this node.
#[derive(Debug, Clone, Copy)]
pub struct PrivateKey {
    raw: [u8; 32],
}

impl View for PrivateKey {
    type V = Seq<u8>;

    closed spec fn view(&self) -> Seq<u8> {
        self.raw@
    }
}

impl PrivateKey {
    /// The key that holds `raw`.
    pub fn new(raw: [u8; 32]) -> (key: PrivateKey)
        ensures
            key@ == raw@,
    {
        PrivateKey { raw }
    }

    /// The bytes of the key.
    pub fn raw(&self) -> (raw: &[u8; 32])
        ensures
            raw@ == self@,
    {
        &self.raw
    }
}

} // verus!
