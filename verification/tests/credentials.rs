use cjdns_noise::auth::{compute_auth, hash_password, AuthTable, AuthType, Challenge2, User};
use cjdns_noise::keys::{ip6_from_key, PrivateKey, PublicKey};
use cjdns_noise::registry::CryptoNoise;

const SECRET_PW: [u8; 32] = [
    48, 201, 82, 250, 177, 34, 195, 249, 117, 159, 2, 166, 217, 92, 55, 88, 178, 70, 180, 254,
    226, 57, 149, 123, 45, 79, 238, 70, 226, 97, 112, 196,
];

const CHALLENGE_ONE_PW: [u8; 32] = [
    1, 122, 116, 186, 167, 115, 204, 94, 153, 164, 57, 172, 251, 4, 90, 217, 57, 103, 145, 192,
    164, 126, 203, 34, 110, 228, 227, 174, 74, 73, 191, 191,
];

const CHALLENGE_TWO_ALICE_PW: [u8; 32] = [
    2, 113, 253, 57, 190, 54, 151, 222, 180, 241, 113, 216, 127, 25, 174, 253, 73, 53, 187, 93,
    49, 180, 154, 56, 176, 79, 14, 140, 147, 67, 63, 97,
];

const A_PUBLIC: [u8; 32] = [
    154, 127, 120, 134, 3, 191, 135, 48, 193, 204, 92, 248, 1, 60, 199, 75, 103, 117, 201, 98,
    153, 14, 74, 43, 50, 106, 228, 145, 27, 40, 50, 16,
];

const A_IP6: [u8; 16] = [252, 79, 130, 67, 252, 25, 189, 106, 90, 5, 102, 110, 197, 73, 113, 119];

fn a_private() -> PrivateKey {
    let mut raw = [0xa1u8; 32];
    raw[0..4].copy_from_slice(&1640u32.to_le_bytes());
    PrivateKey::new(raw)
}

#[test]
fn password_hash_of_type_one() {
    let (secret, challenge) = hash_password(b"", b"pw", AuthType::One);
    assert_eq!(secret, SECRET_PW);
    assert_eq!(challenge.raw, CHALLENGE_ONE_PW);
}

#[test]
fn password_hash_of_type_two() {
    let (secret, challenge) = hash_password(b"alice", b"pw", AuthType::Two);
    assert_eq!(secret, SECRET_PW);
    assert_eq!(challenge.raw, CHALLENGE_TWO_ALICE_PW);
}

#[test]
fn challenge_depends_on_login_password_and_type() {
    let (_, base) = hash_password(b"alice", b"pw", AuthType::Two);
    let (_, other_login) = hash_password(b"bob", b"pw", AuthType::Two);
    let (_, other_password) = hash_password(b"alice", b"pw2", AuthType::Two);
    let (_, other_type) = hash_password(b"alice", b"pw", AuthType::One);
    assert_ne!(base, other_login);
    assert_ne!(base, other_password);
    assert_ne!(base, other_type);
    assert_eq!(&base.raw[1..], &other_type.raw[1..]);
}

#[test]
fn auth_without_password_is_nothing() {
    assert_eq!(compute_auth(None, None), (None, None));
    assert_eq!(compute_auth(None, Some(b"alice".to_vec())), (None, None));
}

#[test]
fn auth_with_login_is_of_type_two() {
    let (secret, challenge) = compute_auth(Some(b"pw".to_vec()), Some(b"alice".to_vec()));
    assert_eq!(secret, Some(SECRET_PW));
    assert_eq!(challenge, Some(Challenge2 { raw: CHALLENGE_TWO_ALICE_PW }));
}

#[test]
fn auth_without_login_is_of_type_one() {
    let (secret, challenge) = compute_auth(Some(b"pw".to_vec()), None);
    assert_eq!(secret, Some(SECRET_PW));
    assert_eq!(challenge, Some(Challenge2 { raw: CHALLENGE_ONE_PW }));
}

#[test]
fn table_finds_what_was_inserted() {
    let mut table = AuthTable::new();
    assert_eq!(table.len(), 0);
    let key = Challenge2 { raw: [7; 32] };
    assert_eq!(table.get(&key), None);
    table.insert(key, User::new([1; 32], b"one".to_vec(), None));
    assert_eq!(table.len(), 1);
    assert_eq!(table.get(&key), Some(User::new([1; 32], b"one".to_vec(), None)));
    assert_eq!(table.get(&Challenge2 { raw: [8; 32] }), None);
}

#[test]
fn table_keeps_the_entry_under_a_key_that_is_taken() {
    let mut table = AuthTable::new();
    let first = Challenge2 { raw: [7; 32] };
    let second = Challenge2 { raw: [9; 32] };
    table.insert(first, User::new([1; 32], b"one".to_vec(), None));
    table.insert(second, User::new([2; 32], b"two".to_vec(), Some([0xfc; 16])));
    table.insert(first, User::new([3; 32], b"three".to_vec(), None));
    assert_eq!(table.len(), 2);
    assert_eq!(table.get(&first), Some(User::new([1; 32], b"one".to_vec(), None)));
    assert_eq!(table.get(&second), Some(User::new([2; 32], b"two".to_vec(), Some([0xfc; 16]))));
}

#[test]
fn user_hands_out_its_fields() {
    let user = User::new([4; 32], b"carol".to_vec(), Some([5; 16]));
    assert_eq!(user.secret(), [4; 32]);
    assert_eq!(user.login(), &b"carol".to_vec());
    assert_eq!(user.restricted_to_ip6(), Some([5; 16]));
    assert_eq!(user.duplicate(), user);
}

#[test]
fn user_with_login_is_entered_under_both_types() {
    let mut ca = CryptoNoise::new(&a_private());
    ca.add_user_ipv6(b"pw".to_vec(), Some(b"alice".to_vec()), Some([0x11; 16]));
    let expected = User::new(SECRET_PW, b"alice".to_vec(), Some([0x11; 16]));
    assert_eq!(ca.get_auth(&Challenge2 { raw: CHALLENGE_TWO_ALICE_PW }), Some(expected.duplicate()));
    assert_eq!(ca.get_auth(&Challenge2 { raw: CHALLENGE_ONE_PW }), Some(expected));
    assert_eq!(ca.user_total(), 2);
}

#[test]
fn user_without_login_is_anonymous() {
    let mut ca = CryptoNoise::new(&a_private());
    ca.add_user_ipv6(b"pw".to_vec(), None, None);
    assert_eq!(
        ca.get_auth(&Challenge2 { raw: CHALLENGE_ONE_PW }),
        Some(User::new(SECRET_PW, b"Anon #0".to_vec(), None))
    );
    assert_eq!(ca.get_auth(&Challenge2 { raw: CHALLENGE_TWO_ALICE_PW }), None);
    assert_eq!(ca.user_total(), 1);
}

#[test]
fn anonymous_users_are_numbered_by_table_size() {
    let mut ca = CryptoNoise::new(&a_private());
    for i in 0..5u8 {
        ca.add_user_ipv6(vec![b'p', i], Some(vec![b'u', i]), None);
    }
    assert_eq!(ca.user_total(), 10);
    ca.add_user_ipv6(b"last".to_vec(), None, None);
    let (secret, challenge) = compute_auth(Some(b"last".to_vec()), None);
    let user = ca.get_auth(&challenge.unwrap()).unwrap();
    assert_eq!(user.login(), &b"Anon #10".to_vec());
    assert_eq!(Some(user.secret()), secret);
}

#[test]
fn secret_in_table_is_the_one_computed_with_the_challenge() {
    let mut ca = CryptoNoise::new(&a_private());
    ca.add_user_ipv6(b"hunter2".to_vec(), Some(b"dave".to_vec()), None);
    ca.add_user_ipv6(b"swordfish".to_vec(), None, None);
    for (password, login) in [
        (b"hunter2".to_vec(), Some(b"dave".to_vec())),
        (b"hunter2".to_vec(), None),
        (b"swordfish".to_vec(), None),
    ] {
        let (secret, challenge) = compute_auth(Some(password), login);
        let user = ca.get_auth(&challenge.unwrap()).unwrap();
        assert_eq!(Some(user.secret()), secret);
    }
}

#[test]
fn adding_the_same_user_twice_changes_nothing() {
    let mut ca = CryptoNoise::new(&a_private());
    ca.add_user_ipv6(b"pw".to_vec(), Some(b"alice".to_vec()), None);
    ca.add_user_ipv6(b"pw".to_vec(), Some(b"alice".to_vec()), Some([1; 16]));
    assert_eq!(ca.user_total(), 2);
    let user = ca.get_auth(&Challenge2 { raw: CHALLENGE_TWO_ALICE_PW }).unwrap();
    assert_eq!(user.restricted_to_ip6(), None);
    let by_password = ca.get_auth(&Challenge2 { raw: CHALLENGE_ONE_PW }).unwrap();
    assert_eq!(by_password.restricted_to_ip6(), None);
}

#[test]
fn password_that_is_taken_is_entered_for_the_login_only() {
    let mut ca = CryptoNoise::new(&a_private());
    ca.add_user_ipv6(b"pw".to_vec(), None, None);
    assert_eq!(ca.user_total(), 1);
    ca.add_user_ipv6(b"pw".to_vec(), Some(b"alice".to_vec()), Some([1; 16]));
    assert_eq!(ca.user_total(), 2);
    let by_password = ca.get_auth(&Challenge2 { raw: CHALLENGE_ONE_PW }).unwrap();
    assert_eq!(by_password.login(), &b"Anon #0".to_vec());
    assert_eq!(by_password.restricted_to_ip6(), None);
    let by_login = ca.get_auth(&Challenge2 { raw: CHALLENGE_TWO_ALICE_PW }).unwrap();
    assert_eq!(by_login.login(), &b"alice".to_vec());
    assert_eq!(by_login.restricted_to_ip6(), Some([1; 16]));
}

#[test]
fn address_is_derived_from_the_public_key() {
    assert_eq!(ip6_from_key(&A_PUBLIC), A_IP6);
    assert_ne!(ip6_from_key(&[0u8; 32])[..], [0u8; 16][..]);
}

#[test]
fn public_key_is_derived_from_the_private_key() {
    let ca = CryptoNoise::new(&a_private());
    assert_eq!(ca.public_key().raw(), &A_PUBLIC);
    assert_eq!(ca.session_count(), 0);
    assert_eq!(ca.user_total(), 0);
}

#[test]
fn zero_key_is_recognised() {
    assert!(PublicKey::new([0; 32]).is_zero());
    let mut raw = [0u8; 32];
    raw[31] = 1;
    assert!(!PublicKey::new(raw).is_zero());
    assert_eq!(a_private().raw()[4], 0xa1);
}
