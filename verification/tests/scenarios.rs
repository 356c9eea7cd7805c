use cjdns_noise::additional::{parse_additional_data, AdditionalData};
use cjdns_noise::auth::compute_auth;
use cjdns_noise::dispatch::{handle_incoming, handle_init_msg};
use cjdns_noise::error::NoiseError;
use cjdns_noise::keys::{ip6_from_key, PrivateKey, PublicKey};
use cjdns_noise::registry::{CiphertextRecv, CryptoNoise, Iface, PlaintextRecv, Session};
use cjdns_noise::session::{NextForward, SessionCounters, State, ThreadCtx, TryMsgReply};

const KEY_WITH_MESH_ADDRESS: u32 = 348;

const A_IP6: [u8; 16] = [252, 79, 130, 67, 252, 25, 189, 106, 90, 5, 102, 110, 197, 73, 113, 119];

fn private(seed: u8, n: u32) -> PrivateKey {
    let mut raw = [seed; 32];
    raw[0..4].copy_from_slice(&n.to_le_bytes());
    PrivateKey::new(raw)
}

fn node_a() -> CryptoNoise {
    CryptoNoise::new(&private(0xa1, 1640))
}

fn node_b() -> CryptoNoise {
    CryptoNoise::new(&private(0xb2, 320))
}

fn node_c() -> CryptoNoise {
    CryptoNoise::new(&private(0xc3, 192))
}

fn node_without_mesh_address() -> CryptoNoise {
    CryptoNoise::new(&private(0xa1, 0))
}

fn first_frame(a: &CryptoNoise, tc: &mut ThreadCtx, sess: &Session, plaintext: &[u8]) -> Vec<u8> {
    let mut msg = plaintext.to_vec();
    assert_eq!(PlaintextRecv(sess.id).recv(a, tc, &mut msg), Ok(NextForward::Cipher));
    msg
}

struct Pair {
    a: CryptoNoise,
    b: CryptoNoise,
    tc: ThreadCtx,
    sess_a: Session,
    sess_b: Session,
}

fn established_pair() -> Pair {
    let mut a = node_a();
    let mut b = node_b();
    let mut tc = ThreadCtx::new();
    let sess_a = Session::new(&mut a, b.public_key(), "to b".to_owned()).unwrap();
    let mut frame = first_frame(&a, &mut tc, &sess_a, b"hello!!!");
    let (reply, made, next) = handle_incoming(&mut b, &mut tc, &mut frame, A_IP6, false).unwrap();
    assert_eq!(reply, TryMsgReply::ReplyToPeer);
    assert_eq!(next, NextForward::Cipher);
    let sess_b = made.unwrap();
    let b_ip6 = ip6_from_key(b.public_key().raw());
    let (reply, made, next) = handle_incoming(&mut a, &mut tc, &mut frame, b_ip6, false).unwrap();
    assert_eq!(reply, TryMsgReply::Done);
    assert!(made.is_none());
    assert_eq!(next, NextForward::Cipher);
    let (reply, made, next) = handle_incoming(&mut b, &mut tc, &mut frame, A_IP6, false).unwrap();
    assert_eq!(reply, TryMsgReply::Done);
    assert!(made.is_none());
    assert_eq!(next, NextForward::Done);
    assert!(frame.is_empty());
    Pair { a, b, tc, sess_a, sess_b }
}

#[test]
fn first_plaintext_starts_a_handshake() {
    let mut a = node_a();
    let b = node_b();
    let mut tc = ThreadCtx::new();
    let sess = Session::new(&mut a, b.public_key(), "to b".to_owned()).unwrap();
    let frame = first_frame(&a, &mut tc, &sess, b"hello!!!");
    assert_eq!(frame.len(), 148);
    assert_eq!(&frame[0..4], &[0, 0, 0, 1]);
    assert_eq!(&frame[4..8], &[0, 0, 1, 0]);
    assert_eq!(sess.get_state(&a), State::Init);
}

#[test]
fn happy_path_handshake() {
    let mut a = node_a();
    let mut b = node_b();
    let mut tc = ThreadCtx::new();
    let sess_a = Session::new(&mut a, b.public_key(), "to b".to_owned()).unwrap();
    let mut frame = first_frame(&a, &mut tc, &sess_a, b"hello!!!");

    let (reply, made, next) = handle_incoming(&mut b, &mut tc, &mut frame, A_IP6, false).unwrap();
    assert_eq!((reply, next), (TryMsgReply::ReplyToPeer, NextForward::Cipher));
    let sess_b = made.unwrap();
    assert_eq!(sess_b.display_name, "<anon>");
    assert_eq!(sess_b.her_pubkey, *a.public_key().raw());
    assert_eq!(sess_b.her_ip6, A_IP6);
    assert_eq!(sess_b.id, 1);
    assert!(b.has_session(1));
    assert_eq!(b.session_count(), 1);
    assert_eq!(frame.len(), 92);
    assert_eq!(&frame[0..4], &[0, 0, 0, 2]);
    assert_eq!(&frame[4..8], &[0, 0, 1, 0]);
    assert_eq!(&frame[8..12], &[0, 0, 1, 0]);

    let b_ip6 = ip6_from_key(b.public_key().raw());
    let (reply, made, next) = handle_incoming(&mut a, &mut tc, &mut frame, b_ip6, false).unwrap();
    assert_eq!((reply, next), (TryMsgReply::Done, NextForward::Cipher));
    assert!(made.is_none());
    assert_eq!(sess_a.get_state(&a), State::Established);
    assert_eq!(frame.len(), 32);
    assert_eq!(&frame[0..4], &[0, 0, 0, 4]);
    assert_eq!(&frame[4..8], &[0, 0, 1, 0]);

    let (reply, made, next) = handle_incoming(&mut b, &mut tc, &mut frame, A_IP6, false).unwrap();
    assert_eq!((reply, next), (TryMsgReply::Done, NextForward::Done));
    assert!(made.is_none());
    assert!(frame.is_empty());
    assert_eq!(sess_b.get_state(&b), State::Established);
}

#[test]
fn kept_plaintext_follows_the_handshake() {
    let mut pair = established_pair();
    let packet = pair.sess_a.tick(&pair.a, &mut pair.tc).unwrap().unwrap();
    assert_eq!(packet.len(), 32 + 8);
    assert_eq!(&packet[0..4], &[0, 0, 0, 4]);
    assert_eq!(packet.len() % 4, 0);
    assert_eq!(pair.sess_a.tick(&pair.a, &mut pair.tc), Ok(None));
    assert_eq!(pair.sess_b.tick(&pair.b, &mut pair.tc), Ok(None));
}

#[test]
fn payload_that_is_no_ip_packet_is_reported() {
    let mut pair = established_pair();
    let mut msg = b"ping".to_vec();
    assert_eq!(
        PlaintextRecv(pair.sess_a.id).recv(&pair.a, &mut pair.tc, &mut msg),
        Ok(NextForward::Cipher)
    );
    assert_eq!(msg.len(), 32 + 4);
    let quoted = msg[0..16].to_vec();
    let (reply, made, next) =
        handle_incoming(&mut pair.b, &mut pair.tc, &mut msg, A_IP6, false).unwrap();
    assert_eq!((reply, next), (TryMsgReply::Done, NextForward::Plain));
    assert!(made.is_none());
    let mut expected = vec![0u8, 0, 0, 100, 0, 0, 4, 11];
    expected.extend_from_slice(&quoted);
    expected.extend_from_slice(&[11, 4, 0, 0]);
    assert_eq!(msg, expected);
    assert!(pair.b.has_session(pair.sess_b.id));
}

#[test]
fn ip_packet_from_the_tunnel_is_refused() {
    let mut pair = established_pair();
    let mut msg = vec![0u8; 20];
    msg[0] = 0x45;
    msg[3] = 20;
    assert_eq!(
        PlaintextRecv(pair.sess_a.id).recv(&pair.a, &mut pair.tc, &mut msg),
        Ok(NextForward::Cipher)
    );
    assert_eq!(
        handle_incoming(&mut pair.b, &mut pair.tc, &mut msg, A_IP6, false).map(|r| r.2),
        Err(NoiseError::UnexpectedResult)
    );
}

#[test]
fn forged_data_packet_is_reported() {
    let mut pair = established_pair();
    let mut msg = vec![0u8, 0, 0, 4, 0, 0, 1, 0];
    msg.extend_from_slice(&[0x5a; 40]);
    let quoted = msg[0..16].to_vec();
    let (reply, made, next) =
        handle_incoming(&mut pair.b, &mut pair.tc, &mut msg, A_IP6, false).unwrap();
    assert_eq!((reply, next), (TryMsgReply::Done, NextForward::Plain));
    assert!(made.is_none());
    assert_eq!(msg.len(), 28);
    assert_eq!(&msg[0..4], &[0, 0, 0, 100]);
    assert_eq!(&msg[8..24], &quoted[..]);
    assert_eq!(msg[4..8], [0, 0, 4, msg[24]]);
    assert_eq!(&msg[25..28], &[4, 0, 0]);
}

#[test]
fn packet_for_an_unknown_session_is_refused() {
    let mut b = node_b();
    let mut tc = ThreadCtx::new();
    let mut msg = vec![0u8, 0, 0, 4, 0, 0, 9, 0];
    msg.extend_from_slice(&[0x5a; 24]);
    let r = handle_incoming(&mut b, &mut tc, &mut msg, A_IP6, false);
    assert_eq!(r.map(|h| h.2), Err(NoiseError::NoSession));
    assert_eq!(&msg[0..8], &[4, 0, 0, 0, 0, 9, 0, 0]);
}

#[test]
fn incoming_packet_that_is_no_frame_is_refused() {
    let mut b = node_b();
    let mut tc = ThreadCtx::new();
    let mut runt = vec![0u8, 0, 0, 4, 0];
    assert_eq!(handle_incoming(&mut b, &mut tc, &mut runt, A_IP6, false).map(|h| h.2), Err(NoiseError::Runt));
    let mut odd = vec![0u8, 0, 0, 9, 0, 0, 0, 1, 2, 3, 4, 5];
    assert_eq!(
        handle_incoming(&mut b, &mut tc, &mut odd, A_IP6, false).map(|h| h.2),
        Err(NoiseError::Malformed)
    );
    assert_eq!(odd, vec![0u8, 0, 0, 9, 0, 0, 0, 1, 2, 3, 4, 5]);
}

#[test]
fn oversized_packet_is_refused() {
    let mut pair = established_pair();
    let mut msg = vec![0u8, 0, 0, 4, 0, 0, 1, 0];
    msg.extend_from_slice(&[0x5a; 4092]);
    assert_eq!(
        handle_incoming(&mut pair.b, &mut pair.tc, &mut msg, A_IP6, false).map(|h| h.2),
        Err(NoiseError::TooLarge)
    );
}

#[test]
fn garbled_handshake_is_refused() {
    let mut a = node_a();
    let mut b = node_b();
    let mut tc = ThreadCtx::new();
    let sess = Session::new(&mut a, b.public_key(), "to b".to_owned()).unwrap();
    let frame = first_frame(&a, &mut tc, &sess, b"hello!!!");
    let mut bad_mac = frame.clone();
    bad_mac[120] ^= 1;
    assert_eq!(
        handle_incoming(&mut b, &mut tc, &mut bad_mac, A_IP6, false).map(|h| h.2),
        Err(NoiseError::InvalidPacket)
    );
    assert_eq!(b.session_count(), 0);
}

#[test]
fn handshake_for_another_node_is_refused() {
    let mut a = node_a();
    let b = node_b();
    let mut c = node_c();
    let mut tc = ThreadCtx::new();
    let sess = Session::new(&mut a, b.public_key(), "to b".to_owned()).unwrap();
    let mut frame = first_frame(&a, &mut tc, &sess, b"hello!!!");
    assert_eq!(
        handle_incoming(&mut c, &mut tc, &mut frame, A_IP6, false).map(|h| h.2),
        Err(NoiseError::InvalidPacket)
    );
    assert_eq!(c.session_count(), 0);
}

#[test]
fn auth_success() {
    let mut a = node_a();
    let mut b = node_b();
    let mut tc = ThreadCtx::new();
    b.add_user_ipv6(b"pw".to_vec(), Some(b"alice".to_vec()), None);
    let sess_a = Session::new(&mut a, b.public_key(), "to b".to_owned()).unwrap();
    assert_eq!(sess_a.set_auth(&mut a, Some(b"pw".to_vec()), Some(b"alice".to_vec())), Ok(()));
    let mut frame = first_frame(&a, &mut tc, &sess_a, b"hello!!!");
    assert_eq!(frame.len(), 148 + 36);
    let challenge = compute_auth(Some(b"pw".to_vec()), Some(b"alice".to_vec())).1;
    assert_eq!(challenge.unwrap().raw[0], 2);
    assert_eq!(
        parse_additional_data(&frame[148..]),
        Ok(AdditionalData { prev_sess_id: None, cjdns_psk: challenge })
    );

    let (reply, made, _) = handle_incoming(&mut b, &mut tc, &mut frame, A_IP6, true).unwrap();
    assert_eq!(reply, TryMsgReply::ReplyToPeer);
    let sess_b = made.unwrap();
    assert_eq!(sess_b.display_name, "alice");
    assert_eq!(sess_b.get_name(), Some("alice".to_owned()));
    assert_eq!(b.session_count(), 1);

    let b_ip6 = ip6_from_key(b.public_key().raw());
    let (reply, _, next) = handle_incoming(&mut a, &mut tc, &mut frame, b_ip6, false).unwrap();
    assert_eq!((reply, next), (TryMsgReply::Done, NextForward::Cipher));
    assert_eq!(sess_a.get_state(&a), State::Established);
    let (_, _, next) = handle_incoming(&mut b, &mut tc, &mut frame, A_IP6, true).unwrap();
    assert_eq!(next, NextForward::Done);
}

#[test]
fn auth_by_password_alone() {
    let mut a = node_a();
    let mut b = node_b();
    let mut tc = ThreadCtx::new();
    b.add_user_ipv6(b"pw".to_vec(), Some(b"alice".to_vec()), None);
    let sess_a = Session::new(&mut a, b.public_key(), "to b".to_owned()).unwrap();
    assert_eq!(sess_a.set_auth(&mut a, Some(b"pw".to_vec()), None), Ok(()));
    let mut frame = first_frame(&a, &mut tc, &sess_a, b"hello!!!");
    let (_, made, _) = handle_incoming(&mut b, &mut tc, &mut frame, A_IP6, true).unwrap();
    assert_eq!(made.unwrap().display_name, "alice");
    let b_ip6 = ip6_from_key(b.public_key().raw());
    handle_incoming(&mut a, &mut tc, &mut frame, b_ip6, false).unwrap();
    assert_eq!(sess_a.get_state(&a), State::Established);
}

#[test]
fn secret_of_the_user_is_the_key_of_the_tunnel() {
    let mut a = node_a();
    let mut b = node_b();
    let mut tc = ThreadCtx::new();
    b.add_user_ipv6(b"pw".to_vec(), Some(b"alice".to_vec()), None);
    let sess_a = Session::new(&mut a, b.public_key(), "to b".to_owned()).unwrap();
    sess_a.set_auth(&mut a, Some(b"pw".to_vec()), Some(b"alice".to_vec())).unwrap();
    let mut frame = first_frame(&a, &mut tc, &sess_a, b"hello!!!");
    // The same handshake without the credentials finds a tunnel of B that
    // has no pre-shared key: A cannot read the response.
    frame.truncate(148);
    let (_, made, _) = handle_incoming(&mut b, &mut tc, &mut frame, A_IP6, false).unwrap();
    assert_eq!(made.unwrap().display_name, "<anon>");
    let b_ip6 = ip6_from_key(b.public_key().raw());
    let (_, _, next) = handle_incoming(&mut a, &mut tc, &mut frame, b_ip6, false).unwrap();
    assert_eq!(next, NextForward::Plain);
    assert_eq!(frame.len(), 28);
    assert_eq!(sess_a.get_state(&a), State::Init);
}

#[test]
fn auth_failure() {
    let mut a = node_a();
    let mut b = node_b();
    let mut tc = ThreadCtx::new();
    b.add_user_ipv6(b"pw".to_vec(), Some(b"alice".to_vec()), None);
    let sess_a = Session::new(&mut a, b.public_key(), "to b".to_owned()).unwrap();
    sess_a.set_auth(&mut a, Some(b"wrong".to_vec()), Some(b"alice".to_vec())).unwrap();
    let mut frame = first_frame(&a, &mut tc, &sess_a, b"hello!!!");
    assert_eq!(
        handle_incoming(&mut b, &mut tc, &mut frame, A_IP6, true).map(|h| h.2),
        Err(NoiseError::UnrecognizedAuth)
    );
    assert_eq!(b.session_count(), 0);
}

#[test]
fn auth_required() {
    let mut a = node_a();
    let mut b = node_b();
    let mut tc = ThreadCtx::new();
    b.add_user_ipv6(b"pw".to_vec(), Some(b"alice".to_vec()), None);
    let sess_a = Session::new(&mut a, b.public_key(), "to b".to_owned()).unwrap();
    let mut frame = first_frame(&a, &mut tc, &sess_a, b"hello!!!");
    assert_eq!(
        handle_incoming(&mut b, &mut tc, &mut frame, A_IP6, true).map(|h| h.2),
        Err(NoiseError::AuthRequired)
    );
    assert_eq!(b.session_count(), 0);
}

#[test]
fn broken_additional_data_is_refused() {
    let mut a = node_a();
    let mut b = node_b();
    let mut tc = ThreadCtx::new();
    let sess_a = Session::new(&mut a, b.public_key(), "to b".to_owned()).unwrap();
    let mut frame = first_frame(&a, &mut tc, &sess_a, b"hello!!!");
    frame.extend_from_slice(&[9, 9, 9, 9]);
    assert_eq!(
        handle_incoming(&mut b, &mut tc, &mut frame, A_IP6, false).map(|h| h.2),
        Err(NoiseError::Malformed)
    );
    assert_eq!(b.session_count(), 0);
}

#[test]
fn ip_restriction() {
    let mut a = node_a();
    let mut b = node_b();
    let mut tc = ThreadCtx::new();
    b.add_user_ipv6(b"pw".to_vec(), Some(b"alice".to_vec()), Some([0xfc, 0x11, 0x11, 0x11, 0x11, 0x11, 0x11, 0x11, 0x11, 0x11, 0x11, 0x11, 0x11, 0x11, 0x11, 0x11]));
    let sess_a = Session::new(&mut a, b.public_key(), "to b".to_owned()).unwrap();
    sess_a.set_auth(&mut a, Some(b"pw".to_vec()), Some(b"alice".to_vec())).unwrap();
    let mut frame = first_frame(&a, &mut tc, &sess_a, b"hello!!!");
    assert_eq!(
        handle_incoming(&mut b, &mut tc, &mut frame, A_IP6, false).map(|h| h.2),
        Err(NoiseError::IpRestricted)
    );
    assert_eq!(b.session_count(), 0);
    assert!(!b.has_session(1));
}

#[test]
fn ip_restriction_that_is_met() {
    let mut a = node_a();
    let mut b = node_b();
    let mut tc = ThreadCtx::new();
    b.add_user_ipv6(b"pw".to_vec(), Some(b"alice".to_vec()), Some(A_IP6));
    let sess_a = Session::new(&mut a, b.public_key(), "to b".to_owned()).unwrap();
    sess_a.set_auth(&mut a, Some(b"pw".to_vec()), Some(b"alice".to_vec())).unwrap();
    let mut frame = first_frame(&a, &mut tc, &sess_a, b"hello!!!");
    let (_, made, _) = handle_incoming(&mut b, &mut tc, &mut frame, A_IP6, true).unwrap();
    assert_eq!(made.unwrap().display_name, "alice");
}

#[test]
fn resumption() {
    let mut pair = established_pair();
    pair.b.add_user_ipv6(b"pw".to_vec(), Some(b"alice".to_vec()), None);
    assert_eq!(pair.sess_b.id, 1);
    // A has seen B's index in the response; a new handshake names it.
    pair.sess_a.set_auth(&mut pair.a, Some(b"pw".to_vec()), Some(b"alice".to_vec())).unwrap();
    let mut frame = first_frame(&pair.a, &mut pair.tc, &pair.sess_a, b"again!!!");
    assert_eq!(frame.len(), 148 + 40);
    let add = parse_additional_data(&frame[148..]).unwrap();
    assert_eq!(add.prev_sess_id, Some(1));
    assert!(add.cjdns_psk.is_some());

    let (reply, made, next) =
        handle_incoming(&mut pair.b, &mut pair.tc, &mut frame, A_IP6, true).unwrap();
    assert_eq!((reply, next), (TryMsgReply::ReplyToPeer, NextForward::Cipher));
    assert!(made.is_none());
    assert_eq!(pair.b.session_count(), 1);
    assert!(pair.b.has_session(1));
    assert_eq!(frame.len(), 92);

    let b_ip6 = ip6_from_key(pair.b.public_key().raw());
    let (_, _, next) = handle_incoming(&mut pair.a, &mut pair.tc, &mut frame, b_ip6, false).unwrap();
    assert_eq!(next, NextForward::Cipher);
    assert_eq!(pair.sess_a.get_state(&pair.a), State::Established);
}

#[test]
fn resumption_with_another_key_is_refused() {
    let mut pair = established_pair();
    let mut c = node_c();
    let sess_c = Session::new(&mut c, pair.b.public_key(), "to b".to_owned()).unwrap();
    let mut frame = first_frame(&c, &mut pair.tc, &sess_c, b"hello!!!");
    frame.extend_from_slice(&[1, 4, 0, 0, 0, 1, 0, 0]);
    let c_ip6 = ip6_from_key(c.public_key().raw());
    assert_eq!(
        handle_incoming(&mut pair.b, &mut pair.tc, &mut frame, c_ip6, false).map(|h| h.2),
        Err(NoiseError::WrongPermPubkey)
    );
    assert_eq!(pair.b.session_count(), 1);
}

#[test]
fn resumption_of_a_session_that_is_gone_makes_a_new_one() {
    let mut a = node_a();
    let mut b = node_b();
    let mut tc = ThreadCtx::new();
    let sess_a = Session::new(&mut a, b.public_key(), "to b".to_owned()).unwrap();
    let mut frame = first_frame(&a, &mut tc, &sess_a, b"hello!!!");
    frame.extend_from_slice(&[1, 4, 0, 0, 0, 7, 0, 0]);
    let (_, made, _) = handle_incoming(&mut b, &mut tc, &mut frame, A_IP6, false).unwrap();
    assert_eq!(made.unwrap().id, 1);
    assert_eq!(b.session_count(), 1);
}

fn saturate(b: &mut CryptoNoise, tc: &mut ThreadCtx) {
    // Handshakes that are counted and then refused for their sender's
    // address: a hundred of them within a second use up the tolerance.
    let mut other = node_without_mesh_address();
    let sess = Session::new(&mut other, b.public_key(), "to b".to_owned()).unwrap();
    let frame = first_frame(&other, tc, &sess, b"hello!!!");
    for _ in 0..100 {
        let mut again = frame.clone();
        let r = handle_incoming(b, tc, &mut again, [0x26; 16], false);
        assert_eq!(r.map(|h| h.2), Err(NoiseError::InvalidPublicKey));
    }
}

#[test]
fn cookie_under_load() {
    let mut a = node_a();
    let mut b = node_b();
    let mut tc = ThreadCtx::new();
    let sess_a = Session::new(&mut a, b.public_key(), "to b".to_owned()).unwrap();
    let frame = first_frame(&a, &mut tc, &sess_a, b"hello!!!");
    let mut cookie = None;
    for _ in 0..5 {
        saturate(&mut b, &mut tc);
        let mut last = frame.clone();
        let (reply, sess, next) = handle_incoming(&mut b, &mut tc, &mut last, A_IP6, false).unwrap();
        assert_eq!((reply, next), (TryMsgReply::ReplyToPeer, NextForward::Cipher));
        match sess {
            None => {
                cookie = Some(last);
                break;
            }
            // The second ran out during the burst: the tolerance is new.
            Some(made) => made.release(&mut b),
        }
    }
    let cookie = cookie.unwrap();
    assert_eq!(b.session_count(), 0);
    assert_eq!(cookie.len(), 64);
    assert_eq!(&cookie[0..4], &[0, 0, 0, 3]);
    assert_eq!(&cookie[4..8], &frame[4..8]);
}

#[test]
fn tolerance_is_granted_anew_each_second() {
    let mut a = node_a();
    let mut b = node_b();
    let mut tc = ThreadCtx::new();
    let sess_a = Session::new(&mut a, b.public_key(), "to b".to_owned()).unwrap();
    let frame = first_frame(&a, &mut tc, &sess_a, b"hello!!!");
    saturate(&mut b, &mut tc);
    let start = std::time::Instant::now();
    while start.elapsed() < std::time::Duration::from_millis(2100) {}
    let mut fresh = frame.clone();
    let (reply, sess, _) = handle_incoming(&mut b, &mut tc, &mut fresh, A_IP6, false).unwrap();
    assert_eq!(reply, TryMsgReply::ReplyToPeer);
    assert!(sess.is_some());
    assert_eq!(fresh.len(), 92);
}

#[test]
fn packet_without_session_is_refused_for_its_kind() {
    let mut b = node_b();
    let mut tc = ThreadCtx::new();
    let mut data = vec![4u8, 0, 0, 0];
    data.extend_from_slice(&[0x5a; 28]);
    let before = data.clone();
    assert_eq!(
        handle_init_msg(&mut b, &mut tc, &mut data, A_IP6, false).err(),
        Some(NoiseError::NoSession)
    );
    assert_eq!(data, before);
    let mut cookie = vec![3u8, 0, 0, 0];
    cookie.extend_from_slice(&[0x5a; 60]);
    assert_eq!(
        handle_init_msg(&mut b, &mut tc, &mut cookie, A_IP6, false).err(),
        Some(NoiseError::StrayKey)
    );
    let mut junk = vec![9u8, 0, 0, 0, 1, 2, 3, 4];
    assert_eq!(
        handle_init_msg(&mut b, &mut tc, &mut junk, A_IP6, false).err(),
        Some(NoiseError::InvalidPacket)
    );
    let mut short_init = vec![1u8, 0, 0, 0];
    short_init.extend_from_slice(&[0x5a; 100]);
    assert_eq!(
        handle_init_msg(&mut b, &mut tc, &mut short_init, A_IP6, false).err(),
        Some(NoiseError::InvalidPacket)
    );
    assert_eq!(b.session_count(), 0);
}

#[test]
fn credentials_are_always_taken() {
    let mut pair = established_pair();
    for _ in 0..3 {
        assert_eq!(
            pair.sess_a.set_auth(&mut pair.a, Some(b"pw".to_vec()), Some(b"alice".to_vec())),
            Ok(())
        );
        assert_eq!(pair.sess_a.set_auth(&mut pair.a, Some(b"other".to_vec()), None), Ok(()));
        assert_eq!(pair.sess_a.set_auth(&mut pair.a, None, None), Ok(()));
    }
    let inner = pair.a.session(pair.sess_a.id).unwrap();
    assert_eq!(inner.additional_data(), vec![1, 4, 0, 0, 0, 1, 0, 0]);
}

#[test]
fn public_key_stays_as_the_registry_changes() {
    let mut a = node_a();
    let b = node_b();
    let key = *a.public_key().raw();
    a.add_user_ipv6(b"pw".to_vec(), None, None);
    let sess = Session::new(&mut a, b.public_key(), "to b".to_owned()).unwrap();
    assert_eq!(a.public_key().raw(), &key);
    sess.release(&mut a);
    assert_eq!(a.public_key().raw(), &key);
    assert_ne!(b.public_key().raw(), &key);
}

#[test]
fn creation_with_key_without_mesh_address_is_rejected() {
    let mut a = node_a();
    let other = node_without_mesh_address();
    assert_ne!(ip6_from_key(other.public_key().raw())[0], 0xfc);
    let r = Session::new(&mut a, other.public_key(), "nowhere".to_owned());
    assert_eq!(r.err(), Some(NoiseError::InvalidPublicKey));
    assert_eq!(a.session_count(), 0);
}

#[test]
fn creation_with_unknown_key_is_rejected() {
    let mut a = node_a();
    let r = Session::new(&mut a, PublicKey::new([0; 32]), "nobody".to_owned());
    assert_eq!(r.err(), Some(NoiseError::KeyUnknown));
    assert_eq!(a.session_count(), 0);
}

#[test]
fn creation_with_key_that_fits_no_tunnel_is_rejected() {
    // A peer whose public key is our private key: the two have no shared
    // secret that the tunnel accepts.
    let own = private(0xd4, KEY_WITH_MESH_ADDRESS);
    let mut node = CryptoNoise::new(&own);
    let peer = PublicKey::new(*own.raw());
    assert_eq!(ip6_from_key(peer.raw())[0], 0xfc);
    let r = Session::new(&mut node, peer, "mirror".to_owned());
    assert_eq!(r.err(), Some(NoiseError::TunnelCreate));
    assert_eq!(node.session_count(), 0);
    let b = node_b();
    let next = Session::new(&mut node, b.public_key(), "to b".to_owned()).unwrap();
    assert_eq!(next.id, 2);
}

#[test]
fn handshake_from_key_without_mesh_address_is_rejected() {
    let mut other = node_without_mesh_address();
    let mut b = node_b();
    let mut tc = ThreadCtx::new();
    let sess = Session::new(&mut other, b.public_key(), "to b".to_owned()).unwrap();
    let mut frame = first_frame(&other, &mut tc, &sess, b"hello!!!");
    assert_eq!(
        handle_incoming(&mut b, &mut tc, &mut frame, [0x26; 16], false).map(|h| h.2),
        Err(NoiseError::InvalidPublicKey)
    );
    assert_eq!(b.session_count(), 0);
}

#[test]
fn new_session_is_registered_under_its_index() {
    let mut a = node_a();
    let b = node_b();
    let c = node_c();
    let first = Session::new(&mut a, b.public_key(), "to b".to_owned()).unwrap();
    let second = Session::new(&mut a, c.public_key(), "to c".to_owned()).unwrap();
    assert_eq!(first.id, 1);
    assert_eq!(second.id, 2);
    assert_eq!(first.display_name, "to b");
    assert_eq!(first.her_pubkey, *b.public_key().raw());
    assert_eq!(first.her_ip6, ip6_from_key(b.public_key().raw()));
    assert_eq!(first.her_ip6[0], 0xfc);
    assert_eq!(first.get_her_pubkey(), first.her_pubkey);
    assert_eq!(first.get_her_ip6(), first.her_ip6);
    assert_eq!(first.get_id(), 1);
    assert!(first.her_key_known());
    assert_eq!(a.session_count(), 2);
    let inner = a.session(2).unwrap();
    assert_eq!(inner.her_pubkey(), c.public_key().raw());
    assert_eq!(inner.her_ip6(), &second.her_ip6);
    assert!(!inner.require_auth());
    assert!(inner.additional_data().is_empty());
    assert!(a.session(3).is_none());
}

#[test]
fn released_session_is_forgotten() {
    let mut a = node_a();
    let b = node_b();
    let c = node_c();
    let first = Session::new(&mut a, b.public_key(), "to b".to_owned()).unwrap();
    let second = Session::new(&mut a, c.public_key(), "to c".to_owned()).unwrap();
    first.release(&mut a);
    assert!(!a.has_session(1));
    assert!(a.has_session(2));
    assert_eq!(a.session_count(), 1);
    let third = Session::new(&mut a, b.public_key(), "to b".to_owned()).unwrap();
    assert_eq!(third.id, 3);
    second.release(&mut a);
    third.release(&mut a);
    assert_eq!(a.session_count(), 0);
}

#[test]
fn released_session_no_longer_works() {
    let mut a = node_a();
    let b = node_b();
    let mut tc = ThreadCtx::new();
    let sess = Session::new(&mut a, b.public_key(), "to b".to_owned()).unwrap();
    let gone = Session::new(&mut a, b.public_key(), "gone".to_owned()).unwrap();
    let id = gone.id;
    gone.release(&mut a);
    let mut msg = b"ping".to_vec();
    assert_eq!(PlaintextRecv(id).recv(&a, &mut tc, &mut msg), Err(NoiseError::NoSession));
    assert_eq!(msg, b"ping".to_vec());
    let mut wire = vec![0u8; 48];
    assert_eq!(CiphertextRecv(id).recv(&mut a, &mut tc, &mut wire), Err(NoiseError::NoSession));
    assert!(a.has_session(sess.id));
}

#[test]
fn endpoints_are_handed_out_once() {
    let mut a = node_a();
    let b = node_b();
    let mut sess = Session::new(&mut a, b.public_key(), "to b".to_owned()).unwrap();
    let id = sess.id;
    assert_eq!(
        sess.ifaces(),
        Some((Iface::Plaintext(PlaintextRecv(id)), Iface::Ciphertext(CiphertextRecv(id))))
    );
    assert_eq!(sess.ifaces(), None);
    assert_eq!(sess.ifaces(), None);
}

#[test]
fn empty_plaintext_is_rejected() {
    let mut a = node_a();
    let b = node_b();
    let mut tc = ThreadCtx::new();
    let sess = Session::new(&mut a, b.public_key(), "to b".to_owned()).unwrap();
    let mut msg: Vec<u8> = Vec::new();
    assert_eq!(PlaintextRecv(sess.id).recv(&a, &mut tc, &mut msg), Err(NoiseError::ZeroLength));
    assert_eq!(
        a.session(sess.id).unwrap().encapsulate_plaintext(&mut tc, &mut msg),
        Err(NoiseError::ZeroLength)
    );
}

#[test]
fn misaligned_plaintext_is_rejected() {
    let mut a = node_a();
    let b = node_b();
    let mut tc = ThreadCtx::new();
    let sess = Session::new(&mut a, b.public_key(), "to b".to_owned()).unwrap();
    for len in [1usize, 2, 3, 5, 7, 4095] {
        let mut msg = vec![7u8; len];
        assert_eq!(
            PlaintextRecv(sess.id).recv(&a, &mut tc, &mut msg),
            Err(NoiseError::AlignmentFault)
        );
        assert_eq!(msg, vec![7u8; len]);
    }
}

#[test]
fn plaintext_beyond_the_scratch_space_is_rejected() {
    let mut a = node_a();
    let b = node_b();
    let mut tc = ThreadCtx::new();
    let sess = Session::new(&mut a, b.public_key(), "to b".to_owned()).unwrap();
    let mut msg = vec![7u8; 4068];
    assert_eq!(PlaintextRecv(sess.id).recv(&a, &mut tc, &mut msg), Err(NoiseError::TooLarge));
    let mut fits = vec![7u8; 4064];
    assert_eq!(PlaintextRecv(sess.id).recv(&a, &mut tc, &mut fits), Ok(NextForward::Cipher));
    assert_eq!(fits.len(), 148);
}

#[test]
fn largest_plaintext_is_encapsulated() {
    let mut pair = established_pair();
    let mut msg = vec![7u8; 4064];
    assert_eq!(
        PlaintextRecv(pair.sess_a.id).recv(&pair.a, &mut pair.tc, &mut msg),
        Ok(NextForward::Cipher)
    );
    assert_eq!(msg.len(), 4096);
}

#[test]
fn second_plaintext_waits_for_the_handshake() {
    let mut a = node_a();
    let b = node_b();
    let mut tc = ThreadCtx::new();
    let sess = Session::new(&mut a, b.public_key(), "to b".to_owned()).unwrap();
    first_frame(&a, &mut tc, &sess, b"hello!!!");
    let mut msg = b"more".to_vec();
    assert_eq!(PlaintextRecv(sess.id).recv(&a, &mut tc, &mut msg), Ok(NextForward::Done));
    assert!(msg.is_empty());
}

#[test]
fn ciphertext_endpoint_strips_the_address() {
    let mut pair = established_pair();
    let mut msg = b"ping".to_vec();
    PlaintextRecv(pair.sess_a.id).recv(&pair.a, &mut pair.tc, &mut msg).unwrap();
    let quoted = msg[0..16].to_vec();
    let mut wire = A_IP6.to_vec();
    wire.extend_from_slice(&msg);
    assert_eq!(
        CiphertextRecv(pair.sess_b.id).recv(&mut pair.b, &mut pair.tc, &mut wire),
        Ok(NextForward::Plain)
    );
    assert_eq!(wire.len(), 28);
    assert_eq!(&wire[8..24], &quoted[..]);
}

#[test]
fn ciphertext_endpoint_refuses_runts() {
    let mut pair = established_pair();
    let mut wire = vec![0xfcu8; 15];
    assert_eq!(
        CiphertextRecv(pair.sess_b.id).recv(&mut pair.b, &mut pair.tc, &mut wire),
        Err(NoiseError::Runt)
    );
    assert_eq!(wire, vec![0xfcu8; 15]);
    let mut bare = vec![0xfcu8; 16];
    assert_eq!(
        CiphertextRecv(pair.sess_b.id).recv(&mut pair.b, &mut pair.tc, &mut bare),
        Err(NoiseError::Runt)
    );
    assert!(bare.is_empty());
}

#[test]
fn ciphertext_endpoint_makes_no_sessions() {
    let mut pair = established_pair();
    let mut c = node_c();
    let sess_c = Session::new(&mut c, pair.b.public_key(), "to b".to_owned()).unwrap();
    let frame = first_frame(&c, &mut pair.tc, &sess_c, b"hello!!!");
    let mut wire = ip6_from_key(c.public_key().raw()).to_vec();
    wire.extend_from_slice(&frame);
    assert_eq!(
        CiphertextRecv(pair.sess_b.id).recv(&mut pair.b, &mut pair.tc, &mut wire),
        Err(NoiseError::UnexpectedSession)
    );
    assert_eq!(pair.b.session_count(), 1);
}

#[test]
fn credentials_are_for_initiators_only() {
    let mut pair = established_pair();
    assert_eq!(pair.sess_b.set_auth(&mut pair.b, Some(b"pw".to_vec()), None), Ok(()));
    assert!(pair.b.session(pair.sess_b.id).unwrap().additional_data().is_empty());
    assert_eq!(pair.sess_b.get_state(&pair.b), State::Established);
}

#[test]
fn credentials_can_be_taken_away() {
    let mut a = node_a();
    let b = node_b();
    let sess = Session::new(&mut a, b.public_key(), "to b".to_owned()).unwrap();
    sess.set_auth(&mut a, Some(b"pw".to_vec()), Some(b"alice".to_vec())).unwrap();
    assert_eq!(a.session(sess.id).unwrap().additional_data().len(), 36);
    sess.set_auth(&mut a, None, Some(b"alice".to_vec())).unwrap();
    assert!(a.session(sess.id).unwrap().additional_data().is_empty());
}

#[test]
fn peer_index_is_noted_after_the_response() {
    let pair = established_pair();
    let inner = pair.a.session(pair.sess_a.id).unwrap();
    assert_eq!(inner.additional_data(), vec![1, 4, 0, 0, 0, 1, 0, 0]);
    assert!(pair.b.session(pair.sess_b.id).unwrap().additional_data().is_empty());
}

#[test]
fn fresh_session_has_nothing_to_send() {
    let mut a = node_a();
    let b = node_b();
    let mut tc = ThreadCtx::new();
    let sess = Session::new(&mut a, b.public_key(), "to b".to_owned()).unwrap();
    assert_eq!(sess.tick(&a, &mut tc), Ok(None));
    assert_eq!(sess.get_state(&a), State::Init);
    sess.reset();
    sess.reset_if_timeout();
    let id = sess.id;
    let handle_only = Session::new(&mut a, b.public_key(), "other".to_owned()).unwrap();
    sess.release(&mut a);
    assert_eq!(handle_only.tick(&a, &mut tc), Ok(None));
    assert!(!a.has_session(id));
}

#[test]
fn handle_of_a_forgotten_session_is_refused() {
    let mut a = node_a();
    let b = node_b();
    let mut tc = ThreadCtx::new();
    let sess = Session::new(&mut a, b.public_key(), "to b".to_owned()).unwrap();
    let mut other = node_c();
    assert_eq!(sess.tick(&other, &mut tc), Err(NoiseError::NoSession));
    assert_eq!(sess.get_state(&other), State::Init);
    assert_eq!(sess.set_auth(&mut other, None, None), Err(NoiseError::NoSession));
}

#[test]
fn session_reports_its_traffic() {
    let mut a = node_a();
    let b = node_b();
    let sess = Session::new(&mut a, b.public_key(), "to b".to_owned()).unwrap();
    let counters =
        SessionCounters { expected_cnt: 10, received_cnt: 8, too_old_cnt: 1, duplicate_cnt: 3 };
    let stats = sess.stats(&counters);
    assert_eq!(stats.lost_packets, 2);
    assert_eq!(stats.received_unexpected, 1);
    assert_eq!(stats.received_packets, 8);
    assert_eq!(stats.duplicate_packets, 3);
    assert!(stats.noise_proto);
}
