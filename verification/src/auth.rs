//! Credentials: how a login and a password become a secret and a challenge
//! key, and the table that finds a user by the challenge key.

use vstd::prelude::*;
use crate::bytes::{bytes_eq, push_range};
use crate::keys::{sha256, sha256_digest};

verus! {

/// The two ways to derive a challenge key.
#[derive(Debug, Clone, Copy, PartialEq, Eq, Structural)]
pub enum AuthType {
    /// From the password alone; the login is empty.
    One,
    /// From the login and the password.
    Two,
}

impl AuthType {
    /// The byte that marks a challenge key of this type.
    pub open spec fn code(self) -> u8 {
        match self {
            AuthType::One => 1,
            AuthType::Two => 2,
        }
    }
}

/// The 32 bytes by which a peer names the credentials it holds.
#[derive(Debug, Clone, Copy, PartialEq, Eq)]
pub struct Challenge2 {
    pub raw: [u8; 32],
}

impl View for Challenge2 {
    type V = Seq<u8>;

    open spec fn view(&self) -> Seq<u8> {
        self.raw@
    }
}

/// The secret of a password: its digest.
pub open spec fn secret_of(password: Seq<u8>) -> Seq<u8> {
    sha256_digest(password)
}

/// The challenge key of a login and a password: the digest of the login
/// followed by the secret, with the type's mark in place of its first byte.
pub open spec fn challenge_of(login: Seq<u8>, password: Seq<u8>, auth_type: AuthType) -> Seq<u8> {
    Seq::new(
        32,
        |i: int|
            if i == 0 {
                auth_type.code()
            } else {
                sha256_digest(login + secret_of(password))[i]
            },
    )
}

/// Derives the secret and the challenge key of a login and a password.
pub fn hash_password(login: &[u8], password: &[u8], auth_type: AuthType) -> (r: (
    [u8; 32],
    Challenge2,
))
    ensures
        r.0@ == secret_of(password@),
        r.1@ == challenge_of(login@, password@, auth_type),
{
    let secret: [u8; 32] = sha256(password);
    let mut material: Vec<u8> = Vec::new();
    push_range(&mut material, login, 0, login.len());
    push_range(&mut material, secret.as_slice(), 0, 32);
    assert(material@ =~= login@ + secret@);
    let mut raw: [u8; 32] = sha256(material.as_slice());
    raw[0] = match auth_type {
        AuthType::One => 1,
        AuthType::Two => 2,
    };
    assert(raw@ =~= challenge_of(login@, password@, auth_type));
    (secret, Challenge2 { raw })
}

/// An optional key as plain values.
pub open spec fn psk_of(key: Option<[u8; 32]>) -> Option<Seq<u8>> {
    match key {
        Some(k) => Some(k@),
        None => None,
    }
}

/// An optional byte string as plain values.
pub open spec fn bytes_view(bytes: Option<Vec<u8>>) -> Option<Seq<u8>> {
    match bytes {
        Some(b) => Some(b@),
        None => None,
    }
}

/// The secret that goes with an optional password.
pub open spec fn auth_secret(password: Option<Seq<u8>>) -> Option<Seq<u8>> {
    match password {
        Some(p) => Some(secret_of(p)),
        None => None,
    }
}

/// The challenge key that goes with an optional password and an optional
/// login: of type two with a login, of type one, for the empty login,
/// without.
pub open spec fn auth_challenge(password: Option<Seq<u8>>, login: Option<Seq<u8>>) -> Option<
    Seq<u8>,
> {
    match password {
        Some(p) => Some(challenge_of(auth_inputs(login).0, p, auth_inputs(login).1)),
        None => None,
    }
}

/// The login and the type that a challenge key is derived under.
pub open spec fn auth_inputs(login: Option<Seq<u8>>) -> (Seq<u8>, AuthType) {
    match login {
        Some(l) => (l, AuthType::Two),
        None => (Seq::empty(), AuthType::One),
    }
}

/// The secret and the challenge key of a password and an optional login.
/// Without a password there is neither. With a login the key is of type two,
/// without one it is of type one, for the empty login.
pub fn compute_auth(password: Option<Vec<u8>>, login: Option<Vec<u8>>) -> (r: (
    Option<[u8; 32]>,
    Option<Challenge2>,
))
    ensures
        psk_of(r.0) == auth_secret(bytes_view(password)),
        crate::additional::psk_view(r.1) == auth_challenge(bytes_view(password), bytes_view(login)),
{
    match password {
        Some(password) => {
            let (secret, challenge) = match &login {
                Some(l) => hash_password(l.as_slice(), password.as_slice(), AuthType::Two),
                None => {
                    let empty: Vec<u8> = Vec::new();
                    assert(empty@ =~= Seq::<u8>::empty());
                    hash_password(empty.as_slice(), password.as_slice(), AuthType::One)
                },
            };
            (Some(secret), Some(challenge))
        },
        None => (None, None),
    }
}

/// One who may connect: the secret that goes with the credentials, a name,
/// and the only address to connect from, if there is one.
#[derive(Debug, Clone, PartialEq, Eq)]
pub struct User {
    secret: [u8; 32],
    login: Vec<u8>,
    restricted_to_ip6: Option<[u8; 16]>,
}

/// A user as plain values.
pub struct UserView {
    pub secret: Seq<u8>,
    pub login: Seq<u8>,
    pub restricted_to_ip6: Option<Seq<u8>>,
}

impl View for User {
    type V = UserView;

    closed spec fn view(&self) -> UserView {
        UserView {
            secret: self.secret@,
            login: self.login@,
            restricted_to_ip6: match self.restricted_to_ip6 {
                Some(ip6) => Some(ip6@),
                None => None,
            },
        }
    }
}

/// An optional address as plain values.
pub open spec fn ip6_view(ip6: Option<[u8; 16]>) -> Option<Seq<u8>> {
    match ip6 {
        Some(a) => Some(a@),
        None => None,
    }
}

impl User {
    /// A user with this secret, name and restriction.
    pub fn new(secret: [u8; 32], login: Vec<u8>, restricted_to_ip6: Option<[u8; 16]>) -> (user:
        User)
        ensures
            user@ == (UserView {
                secret: secret@,
                login: login@,
                restricted_to_ip6: ip6_view(restricted_to_ip6),
            }),
    {
        User { secret, login, restricted_to_ip6 }
    }

    /// The secret that serves as the pre-shared key of the user's tunnels.
    pub fn secret(&self) -> (secret: [u8; 32])
        ensures
            secret@ == self@.secret,
    {
        self.secret
    }

    /// The name of the user.
    pub fn login(&self) -> (login: &Vec<u8>)
        ensures
            login@ == self@.login,
    {
        &self.login
    }

    /// The only address that the user may connect from, if there is one.
    pub fn restricted_to_ip6(&self) -> (ip6: Option<[u8; 16]>)
        ensures
            ip6_view(ip6) == self@.restricted_to_ip6,
    {
        self.restricted_to_ip6
    }

    /// A copy of the user.
    pub fn duplicate(&self) -> (user: User)
        ensures
            user@ == self@,
    {
        let mut login: Vec<u8> = Vec::new();
        push_range(&mut login, self.login.as_slice(), 0, self.login.len());
        assert(login@ =~= self.login@);
        User { secret: self.secret, login, restricted_to_ip6: self.restricted_to_ip6 }
    }
}

/// Whether every byte is an ASCII character.
pub open spec fn is_ascii_bytes(bytes: Seq<u8>) -> bool {
    forall|i: int| 0 <= i < bytes.len() ==> bytes[i] < 128
}

/// The characters that ASCII bytes stand for.
pub open spec fn chars_of(bytes: Seq<u8>) -> Seq<char> {
    Seq::new(bytes.len(), |i: int| bytes[i] as char)
}

/// The text that bytes spell when they are read as UTF-8, with the
/// replacement character in place of what is no UTF-8.
pub uninterp spec fn lossy_text(bytes: Seq<u8>) -> Seq<char>;

/// `String::from_utf8_lossy`: the text depends on the bytes alone, and so the
/// contract gives it its name; bytes that are ASCII come out as the same
/// characters.
#[verifier::external_body]
pub(crate) fn text_of(bytes: &[u8]) -> (text: String)
    ensures
        text@ == lossy_text(bytes@),
        is_ascii_bytes(bytes@) ==> text@ == chars_of(bytes@),
{
    String::from_utf8_lossy(bytes).into_owned()
}

/// The decimal digits of a number, as ASCII.
pub open spec fn decimal(n: nat) -> Seq<u8>
    decreases n,
{
    if n < 10 {
        seq![(48 + n) as u8]
    } else {
        decimal(n / 10) + seq![(48 + n % 10) as u8]
    }
}

/// The bytes of the text `Anon #`.
pub open spec fn anon_prefix() -> Seq<u8> {
    seq![65u8, 110u8, 111u8, 110u8, 32u8, 35u8]
}

/// The name of the user without a login that joins a table of `n` entries.
pub open spec fn anon_login(n: nat) -> Seq<u8> {
    anon_prefix() + decimal(n)
}

/// Appends the decimal digits of `n`.
fn push_decimal(out: &mut Vec<u8>, n: usize)
    ensures
        final(out)@ == old(out)@ + decimal(n as nat),
    decreases n,
{
    if n >= 10 {
        push_decimal(out, n / 10);
    }
    out.push(48u8 + (n % 10) as u8);
    assert(out@ =~= old(out)@ + decimal(n as nat));
}

/// Appends the name of the user without a login that joins a table of `n`
/// entries.
pub fn push_anon_login(out: &mut Vec<u8>, n: usize)
    ensures
        final(out)@ == old(out)@ + anon_login(n as nat),
{
    out.push(65u8);
    out.push(110u8);
    out.push(111u8);
    out.push(110u8);
    out.push(32u8);
    out.push(35u8);
    assert(out@ =~= old(out)@ + anon_prefix());
    push_decimal(out, n);
    assert(out@ =~= old(out)@ + anon_login(n as nat));
}

/// One entry of the table.
struct Entry {
    challenge: Challenge2,
    user: User,
}

/// The user that the last entry under `key` holds, if there is one.
spec fn lookup(entries: Seq<Entry>, key: Seq<u8>) -> Option<UserView>
    decreases entries.len(),
{
    if entries.len() == 0 {
        None
    } else if entries.last().challenge@ == key {
        Some(entries.last().user@)
    } else {
        lookup(entries.drop_last(), key)
    }
}

/// A table with one more record, under a key that was free; the table as it
/// was, if the key was taken.
pub open spec fn inserted(
    table: Map<Seq<u8>, UserView>,
    key: Seq<u8>,
    user: UserView,
) -> Map<Seq<u8>, UserView> {
    if table.contains_key(key) {
        table
    } else {
        table.insert(key, user)
    }
}

/// The users that may connect, by challenge key.
pub struct AuthTable {
    entries: Vec<Entry>,
}

impl View for AuthTable {
    type V = Map<Seq<u8>, UserView>;

    closed spec fn view(&self) -> Map<Seq<u8>, UserView> {
        Map::new(
            |key: Seq<u8>| lookup(self.entries@, key) is Some,
            |key: Seq<u8>| lookup(self.entries@, key)->0,
        )
    }
}

/// A key that no entry holds is not found.
proof fn lemma_lookup_absent(entries: Seq<Entry>, key: Seq<u8>)
    requires
        forall|i: int| 0 <= i < entries.len() ==> entries[i].challenge@ != key,
    ensures
        lookup(entries, key) is None,
    decreases entries.len(),
{
    if entries.len() > 0 {
        lemma_lookup_absent(entries.drop_last(), key);
    }
}

/// Where the keys differ from one another, the entry at `i` is the one found
/// under its key.
proof fn lemma_lookup_at(entries: Seq<Entry>, i: int)
    requires
        0 <= i < entries.len(),
        forall|a: int, b: int|
            0 <= a < b < entries.len() ==> entries[a].challenge@ != entries[b].challenge@,
    ensures
        lookup(entries, entries[i].challenge@) == Some(entries[i].user@),
    decreases entries.len(),
{
    if i < entries.len() - 1 {
        lemma_lookup_at(entries.drop_last(), i);
    }
}

impl AuthTable {
    /// Whether the table is in order: no two entries share a key.
    pub closed spec fn wf(&self) -> bool {
        forall|a: int, b: int|
            0 <= a < b < self.entries@.len() ==> self.entries@[a].challenge@
                != self.entries@[b].challenge@
    }

    /// The number of entries.
    pub closed spec fn size(&self) -> nat {
        self.entries@.len()
    }

    /// A table without entries.
    pub fn new() -> (table: AuthTable)
        ensures
            table.wf(),
            table@ == Map::<Seq<u8>, UserView>::empty(),
            table.size() == 0,
    {
        let table = AuthTable { entries: Vec::new() };
        assert(table@ =~= Map::<Seq<u8>, UserView>::empty());
        table
    }

    /// The number of entries.
    pub fn len(&self) -> (n: usize)
        ensures
            n == self.size(),
    {
        self.entries.len()
    }

    /// The index of the entry under `key`, if there is one.
    fn position(&self, key: &Challenge2) -> (r: Option<usize>)
        ensures
            match r {
                Some(i) => i < self.entries@.len() && self.entries@[i as int].challenge@ == key@,
                None => forall|i: int|
                    0 <= i < self.entries@.len() ==> self.entries@[i].challenge@ != key@,
            },
    {
        let mut i: usize = 0;
        while i < self.entries.len()
            invariant
                i <= self.entries@.len(),
                forall|j: int| 0 <= j < i ==> self.entries@[j].challenge@ != key@,
            decreases self.entries@.len() - i,
        {
            if bytes_eq(self.entries[i].challenge.raw.as_slice(), key.raw.as_slice()) {
                return Some(i);
            }
            i = i + 1;
        }
        None
    }

    /// The user registered under a challenge key.
    pub fn get(&self, key: &Challenge2) -> (user: Option<User>)
        requires
            self.wf(),
        ensures
            user is Some <==> self@.contains_key(key@),
            user is Some ==> user->0@ == self@[key@],
    {
        match self.position(key) {
            Some(i) => {
                proof {
                    lemma_lookup_at(self.entries@, i as int);
                }
                Some(self.entries[i].user.duplicate())
            },
            None => {
                proof {
                    lemma_lookup_absent(self.entries@, key@);
                }
                None
            },
        }
    }

    /// Registers a user under a challenge key that is still free. A key that
    /// is taken keeps its record: what the table holds is never changed.
    pub fn insert(&mut self, key: Challenge2, user: User)
        requires
            old(self).wf(),
        ensures
            final(self).wf(),
            final(self)@ == inserted(old(self)@, key@, user@),
            final(self).size() == if old(self)@.contains_key(key@) {
                old(self).size()
            } else {
                old(self).size() + 1
            },
    {
        let ghost before = self.entries@;
        let ghost uv = user@;
        let entry = Entry { challenge: key, user };
        match self.position(&key) {
            Some(i) => {
                proof {
                    lemma_lookup_at(before, i as int);
                }
            },
            None => {
                proof {
                    lemma_lookup_absent(before, key@);
                    assert(before.push(entry).drop_last() =~= before);
                }
                self.entries.push(entry);
                assert(self@ =~= old(self)@.insert(key@, uv));
            },
        }
    }
}

} // verus!
