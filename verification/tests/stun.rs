//! Hostile STUN answers: the parser must survive any garbage, never loop,
//! and never report a garbage address as ours.

use bemyvpn::addr::{Endpoint, Ip};
use bemyvpn::stun::{
    answer_from, binding_request, build_request, mapping_verdict, parse_response, record_mapping_answer, stun_servers, keepalive_servers,
    ATTR_MAPPED_ADDRESS, ATTR_XOR_MAPPED_ADDRESS, BINDING_SUCCESS, MAGIC_COOKIE,
};

fn resp(txid: &[u8; 12], body: &[u8]) -> Vec<u8> {
    let mut v = Vec::new();
    v.extend_from_slice(&BINDING_SUCCESS.to_be_bytes());
    v.extend_from_slice(&(body.len() as u16).to_be_bytes());
    v.extend_from_slice(&MAGIC_COOKIE.to_be_bytes());
    v.extend_from_slice(txid);
    v.extend_from_slice(body);
    v
}

fn xor_body(ip: [u8; 4], port: u16) -> Vec<u8> {
    let magic = MAGIC_COOKIE.to_be_bytes();
    let mut body = Vec::new();
    body.extend_from_slice(&ATTR_XOR_MAPPED_ADDRESS.to_be_bytes());
    body.extend_from_slice(&8u16.to_be_bytes());
    body.push(0);
    body.push(0x01);
    body.extend_from_slice(&(port ^ ((MAGIC_COOKIE >> 16) as u16)).to_be_bytes());
    for i in 0..4 {
        body.push(ip[i] ^ magic[i]);
    }
    body
}

fn v4(ip: [u8; 4], port: u16) -> Endpoint {
    Endpoint { ip: Ip::V4(u32::from_be_bytes(ip)), port }
}

#[test]
fn oversized_attribute_length_does_not_panic() {
    let txid = [7u8; 12];
    for claimed in [0xFFFFu16, 0x8000, 64, 21] {
        let mut body = Vec::new();
        body.extend_from_slice(&ATTR_XOR_MAPPED_ADDRESS.to_be_bytes());
        body.extend_from_slice(&claimed.to_be_bytes());
        body.extend_from_slice(&[0u8; 4]);
        assert_eq!(parse_response(&resp(&txid, &body), &txid), None, "claimed length {claimed} was believed");
    }
}

#[test]
fn zero_length_attributes_terminate() {
    let txid = [9u8; 12];
    let mut body = Vec::new();
    for _ in 0..500 {
        body.extend_from_slice(&0xDEADu16.to_be_bytes());
        body.extend_from_slice(&0u16.to_be_bytes());
    }
    assert_eq!(parse_response(&resp(&txid, &body), &txid), None);
}

#[test]
fn foreign_transaction_id_is_rejected() {
    let mine = [1u8; 12];
    let theirs = [2u8; 12];
    let mut body = Vec::new();
    body.extend_from_slice(&ATTR_XOR_MAPPED_ADDRESS.to_be_bytes());
    body.extend_from_slice(&8u16.to_be_bytes());
    body.push(0);
    body.push(0x01);
    body.extend_from_slice(&[0x11, 0x22]);
    body.extend_from_slice(&[0x33, 0x44, 0x55, 0x66]);
    assert!(parse_response(&resp(&mine, &body), &mine).is_some(), "our own answer must parse");
    assert_eq!(parse_response(&resp(&theirs, &body), &mine), None, "a foreign answer was taken for ours");
}

#[test]
fn truncated_and_bogus_responses_are_rejected() {
    let txid = [3u8; 12];
    assert_eq!(parse_response(&[], &txid), None);
    for n in 1..20 {
        assert_eq!(parse_response(&vec![0u8; n], &txid), None, "truncated to {n} bytes");
    }
    let mut wrong = resp(&txid, &[]);
    wrong[0..2].copy_from_slice(&0x0111u16.to_be_bytes());
    assert_eq!(parse_response(&wrong, &txid), None);
    let mut bad_cookie = resp(&txid, &[]);
    bad_cookie[4..8].copy_from_slice(&0xDEADBEEFu32.to_be_bytes());
    assert_eq!(parse_response(&bad_cookie, &txid), None);
}

#[test]
fn implausible_external_address_is_rejected() {
    let txid = [4u8; 12];
    for ip in [
        [127, 0, 0, 1],
        [10, 0, 0, 5],
        [192, 168, 1, 1],
        [172, 16, 0, 1],
        [169, 254, 169, 254],
        [224, 0, 0, 1],
        [255, 255, 255, 255],
        [0, 0, 0, 0],
        [0, 1, 2, 3],
    ] {
        assert_eq!(
            parse_response(&resp(&txid, &xor_body(ip, 40000)), &txid),
            None,
            "impossible external address {ip:?} accepted"
        );
    }
    assert_eq!(parse_response(&resp(&txid, &xor_body([8, 8, 8, 8], 0)), &txid), None);
    assert!(parse_response(&resp(&txid, &xor_body([45, 11, 22, 33], 40000)), &txid).is_some());
}

#[test]
fn an_ipv6_stun_answer_is_never_parsed() {
    let txid = [8u8; 12];
    for attr in [ATTR_XOR_MAPPED_ADDRESS, ATTR_MAPPED_ADDRESS] {
        let mut body = Vec::new();
        body.extend_from_slice(&attr.to_be_bytes());
        body.extend_from_slice(&20u16.to_be_bytes());
        body.push(0);
        body.push(0x02);
        body.extend_from_slice(&[0x9c, 0x40]);
        body.extend_from_slice(&[0x20, 0x01, 0x0d, 0xb8]);
        body.extend_from_slice(&[0u8; 11]);
        body.push(1);
        assert_eq!(parse_response(&resp(&txid, &body), &txid), None, "an IPv6 address came out of STUN");
    }
}

#[test]
fn attribute_past_declared_body_is_ignored() {
    let txid = [6u8; 12];
    let body = xor_body([45, 11, 22, 33], 40000);
    let mut v = resp(&txid, &body);
    v[2..4].copy_from_slice(&4u16.to_be_bytes());
    assert_eq!(parse_response(&v, &txid), None, "an attribute past the body was accepted");
}

#[test]
fn body_length_larger_than_packet_is_clamped() {
    let txid = [5u8; 12];
    let mut v = resp(&txid, &[0u8; 4]);
    v[2..4].copy_from_slice(&4096u16.to_be_bytes());
    assert_eq!(parse_response(&v, &txid), None);
}

#[test]
fn xor_mapped_address_reads_back_exactly() {
    let txid = [0x5au8; 12];
    let got = parse_response(&resp(&txid, &xor_body([45, 11, 22, 33], 40000)), &txid);
    assert_eq!(got, Some(v4([45, 11, 22, 33], 40000)));
}

#[test]
fn xor_beats_plain_mapped_and_plain_is_the_fallback() {
    let txid = [0x11u8; 12];
    let mut mapped = Vec::new();
    mapped.extend_from_slice(&ATTR_MAPPED_ADDRESS.to_be_bytes());
    mapped.extend_from_slice(&8u16.to_be_bytes());
    mapped.extend_from_slice(&[0, 0x01]);
    mapped.extend_from_slice(&5000u16.to_be_bytes());
    mapped.extend_from_slice(&[93, 184, 216, 34]);
    // Plain mapped alone is taken.
    assert_eq!(parse_response(&resp(&txid, &mapped), &txid), Some(v4([93, 184, 216, 34], 5000)));
    // With an XOR attribute after it, the XOR one wins.
    let mut both = mapped.clone();
    both.extend_from_slice(&xor_body([45, 11, 22, 33], 40000));
    assert_eq!(parse_response(&resp(&txid, &both), &txid), Some(v4([45, 11, 22, 33], 40000)));
}

#[test]
fn a_binding_request_is_twenty_bytes_with_the_cookie() {
    let (req, txid) = build_request();
    assert_eq!(req.len(), 20);
    assert_eq!(&req[0..2], &[0x00, 0x01]);
    assert_eq!(&req[2..4], &[0x00, 0x00]);
    assert_eq!(&req[4..8], &MAGIC_COOKIE.to_be_bytes());
    assert_eq!(&req[8..20], &txid);
    let bare = binding_request();
    assert_eq!(bare.len(), 20);
    assert_eq!(&bare[0..8], &req[0..8]);
}

#[test]
fn only_the_asked_server_answers_count() {
    let server = v4([74, 125, 250, 129], 19302);
    let stranger = v4([203, 0, 113, 9], 19302);
    let txid = [0x42u8; 12];
    let pending = vec![(server, txid)];
    let datagram = resp(&txid, &xor_body([45, 11, 22, 33], 40000));
    assert_eq!(answer_from(&pending, server, &datagram), Some(v4([45, 11, 22, 33], 40000)));
    assert_eq!(answer_from(&pending, stranger, &datagram), None);
}

#[test]
fn an_empty_server_list_means_the_built_in_pool() {
    let pool = stun_servers(&[]);
    assert_eq!(pool, vec![
        "stun.l.google.com:19302".to_string(),
        "stun1.l.google.com:19302".to_string(),
        "stun.cloudflare.com:3478".to_string(),
        "stun.nextcloud.com:443".to_string(),
    ]);
    let mine = vec!["stun.example.org:3478".to_string()];
    assert_eq!(stun_servers(&mine), mine);
    assert_eq!(keepalive_servers(&[]).len(), 2);
    assert_eq!(keepalive_servers(&mine), mine);
}

#[test]
fn the_nat_kind_comes_from_two_ports() {
    let a = v4([198, 51, 100, 1], 3478);
    let b = v4([203, 0, 113, 9], 19302);
    assert_eq!(mapping_verdict(&[]), "");
    assert_eq!(mapping_verdict(&[(a, 4000)]), "");
    assert_eq!(mapping_verdict(&[(a, 4000), (b, 4000)]), "cone");
    assert_eq!(mapping_verdict(&[(a, 4000), (b, 4001)]), "symmetric");
}

#[test]
fn each_server_counts_once_in_the_nat_check() {
    let a = v4([198, 51, 100, 1], 3478);
    let b = v4([203, 0, 113, 9], 19302);
    let ta = [1u8; 12];
    let tb = [2u8; 12];
    let pending = vec![(a, ta), (b, tb)];
    let answer = |txid: &[u8; 12], port: u16| {
        let mut body = Vec::new();
        body.extend_from_slice(&ATTR_MAPPED_ADDRESS.to_be_bytes());
        body.extend_from_slice(&8u16.to_be_bytes());
        body.extend_from_slice(&[0, 1]);
        body.extend_from_slice(&port.to_be_bytes());
        body.extend_from_slice(&[93, 184, 216, 34]);
        resp(txid, &body)
    };
    let mut answers = Vec::new();
    assert!(record_mapping_answer(&mut answers, &pending, a, &answer(&ta, 4000)));
    // The same server answering again is not a second opinion.
    assert!(!record_mapping_answer(&mut answers, &pending, a, &answer(&ta, 4000)));
    assert_eq!(answers.len(), 1);
    assert_eq!(mapping_verdict(&answers), "");
    // A datagram with the other server's transaction id is not counted.
    assert!(!record_mapping_answer(&mut answers, &pending, b, &answer(&ta, 4000)));
    assert!(record_mapping_answer(&mut answers, &pending, b, &answer(&tb, 5000)));
    assert_eq!(answers, vec![(a, 4000), (b, 5000)]);
    assert_eq!(mapping_verdict(&answers), "symmetric");
}
