use cjdns_noise::additional::{
    pad, parse_additional_data, push_ent, AdditionalData, CNoiseEntity, InitiatorSessionMut,
};
use cjdns_noise::auth::Challenge2;
use cjdns_noise::error::NoiseError;

fn challenge(first: u8) -> Challenge2 {
    let mut raw = [0u8; 32];
    for (i, b) in raw.iter_mut().enumerate() {
        *b = first.wrapping_add(i as u8);
    }
    Challenge2 { raw }
}

#[test]
fn fresh_state_has_no_additional_data() {
    let mut m = InitiatorSessionMut::new();
    assert!(m.additional_data().is_empty());
    m.update_additional();
    assert!(m.additional_data().is_empty());
}

#[test]
fn peer_index_is_written_with_filler() {
    let mut m = InitiatorSessionMut::new();
    m.set_peer_recv_index(Some(0x0102_0307));
    m.update_additional();
    assert_eq!(m.additional_data(), &vec![1, 4, 1, 2, 3, 7, 0, 0]);
}

#[test]
fn credentials_are_written_with_filler() {
    let mut m = InitiatorSessionMut::new();
    m.set_auth(Some(challenge(10)));
    m.update_additional();
    let mut expected = vec![2u8, 32];
    expected.extend_from_slice(&challenge(10).raw);
    expected.extend_from_slice(&[0, 0]);
    assert_eq!(m.additional_data(), &expected);
    assert_eq!(m.additional_data().len(), 36);
}

#[test]
fn both_entries_need_no_filler() {
    let mut m = InitiatorSessionMut::new();
    m.set_auth(Some(challenge(200)));
    m.set_peer_recv_index(Some(7));
    m.update_additional();
    let mut expected = vec![1u8, 4, 0, 0, 0, 7, 2, 32];
    expected.extend_from_slice(&challenge(200).raw);
    assert_eq!(m.additional_data(), &expected);
    assert_eq!(m.additional_data().len() % 4, 0);
}

#[test]
fn additional_data_is_stale_until_written() {
    let mut m = InitiatorSessionMut::new();
    m.set_peer_recv_index(Some(1));
    assert!(m.additional_data().is_empty());
    m.update_additional();
    assert_eq!(m.additional_data().len(), 8);
    m.set_peer_recv_index(None);
    m.update_additional();
    assert!(m.additional_data().is_empty());
}

#[test]
fn written_data_reads_back() {
    for (peer, auth) in [
        (None, None),
        (Some(5u32), None),
        (None, Some(challenge(1))),
        (Some(0xffff_ffff), Some(challenge(99))),
    ] {
        let mut m = InitiatorSessionMut::new();
        m.set_peer_recv_index(peer);
        m.set_auth(auth);
        m.update_additional();
        assert_eq!(m.additional_data().len() % 4, 0);
        assert_eq!(
            parse_additional_data(m.additional_data()),
            Ok(AdditionalData { prev_sess_id: peer, cjdns_psk: auth })
        );
    }
}

#[test]
fn empty_data_says_nothing() {
    assert_eq!(
        parse_additional_data(&[]),
        Ok(AdditionalData { prev_sess_id: None, cjdns_psk: None })
    );
    assert_eq!(
        parse_additional_data(&[0, 0, 0, 0]),
        Ok(AdditionalData { prev_sess_id: None, cjdns_psk: None })
    );
}

#[test]
fn later_entry_replaces_earlier() {
    let data = [1u8, 4, 0, 0, 0, 1, 0, 1, 4, 0, 0, 1, 0];
    assert_eq!(
        parse_additional_data(&data),
        Ok(AdditionalData { prev_sess_id: Some(256), cjdns_psk: None })
    );
}

#[test]
fn broken_entries_are_malformed() {
    assert_eq!(parse_additional_data(&[1]), Err(NoiseError::Malformed));
    assert_eq!(parse_additional_data(&[1, 4, 0, 0, 0]), Err(NoiseError::Malformed));
    assert_eq!(parse_additional_data(&[1, 5, 0, 0, 0, 0, 0]), Err(NoiseError::Malformed));
    assert_eq!(parse_additional_data(&[3, 4, 0, 0, 0, 0]), Err(NoiseError::Malformed));
    let mut short_psk = vec![2u8, 32];
    short_psk.extend_from_slice(&[7u8; 31]);
    assert_eq!(parse_additional_data(&short_psk), Err(NoiseError::Malformed));
    let mut wrong_len = vec![2u8, 31];
    wrong_len.extend_from_slice(&[7u8; 32]);
    assert_eq!(parse_additional_data(&wrong_len), Err(NoiseError::Malformed));
}

#[test]
fn entries_are_appended() {
    let mut msg = vec![0xeeu8];
    push_ent(&mut msg, CNoiseEntity::PrevSessIndex(0x0a0b_0c0d));
    assert_eq!(msg, vec![0xee, 1, 4, 0x0a, 0x0b, 0x0c, 0x0d]);
    push_ent(&mut msg, CNoiseEntity::CjdnsPsk(challenge(3)));
    assert_eq!(msg.len(), 7 + 34);
    assert_eq!(&msg[7..9], &[2, 32]);
    assert_eq!(&msg[9..], &challenge(3).raw[..]);
}

#[test]
fn filler_brings_the_length_to_a_multiple() {
    let mut msg = vec![1u8, 2, 3, 4, 5];
    pad(&mut msg, 4);
    assert_eq!(msg, vec![1, 2, 3, 4, 5, 0, 0, 0]);
    pad(&mut msg, 4);
    assert_eq!(msg.len(), 8);
    pad(&mut msg, 16);
    assert_eq!(msg.len(), 16);
    pad(&mut msg, 1);
    assert_eq!(msg.len(), 16);
    let mut empty: Vec<u8> = Vec::new();
    pad(&mut empty, 4);
    assert!(empty.is_empty());
}
