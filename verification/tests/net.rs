//! Punching, the host's hub, link liveness, address ranges and host ids.

use bemyvpn::addr::{plausible_external, punch_target_allowed, reach, Endpoint, Ip, Reach};
use bemyvpn::hub::{after_handoff, inbound, AfterHandoff, BufPool, Handoff, HubState, Inbound, MAX_UNVOUCHED_PEERS};
use bemyvpn::ids::{new_host_id, ID_ALPHABET};
use bemyvpn::keepalive::{
    classify_frame, farewell_next, pinger_continues, ping_delay_ms, take_farewell, Frame, Signal, Watch, WatchAction,
    WatchEvent, BYE_GAP_MS, BYE_REPEATS, DEAD_AFTER_MS, PEER_CHECK_GRACE_MS, PING_MAX_MS, PING_MIN_MS,
};
use bemyvpn::punch::{fnv1a, link_accepts, probe_answer_accepted, PunchReply, PunchState, PunchTokens, MAX_LEARNED};

fn v4(a: u8, b: u8, c: u8, d: u8, port: u16) -> Endpoint {
    Endpoint { ip: Ip::V4(u32::from_be_bytes([a, b, c, d])), port }
}

#[test]
fn punch_tokens_are_per_host_and_stable() {
    let t1 = PunchTokens::for_host("net-ABC");
    let t2 = PunchTokens::for_host("net-ABC");
    assert_eq!(t1, t2, "one host id, the same tokens");
    let t3 = PunchTokens::for_host("net-XYZ");
    assert_ne!(t1.punch, t3.punch, "different host ids, different tokens");
    let all = [t1.punch, t1.pack, t1.ping, t1.pong];
    for i in 0..all.len() {
        for j in i + 1..all.len() {
            assert_ne!(all[i], all[j], "tokens {i} and {j} coincide");
        }
    }
    assert_ne!(&t1.punch[..], b"BMV-PUNCH", "no open ASCII marker");
}

#[test]
fn fnv1a_matches_the_published_values() {
    assert_eq!(fnv1a(b""), 0xcbf2_9ce4_8422_2325);
    assert_eq!(fnv1a(b"a"), 0xaf63_dc4c_8601_ec8c);
    assert_eq!(fnv1a(b"foobar"), 0x8594_4171_f739_67e8);
    let t = PunchTokens::for_host("x");
    let mut input = b"bmv-punch:".to_vec();
    input.extend_from_slice(b"x");
    assert_eq!(t.punch, fnv1a(&input).to_le_bytes());
}

#[test]
fn hole_punch_ignores_stranger_packets() {
    let tokens = PunchTokens::for_host("loopback-host");
    let peer = v4(198, 51, 100, 7, 40000);
    let peers = [peer];
    let mut st = PunchState::new();
    let stranger = v4(203, 0, 113, 9, 3478);
    assert_eq!(st.on_datagram(&peers, &tokens, b"stale-stun-binding-response", stranger), PunchReply::Ignore);
    assert_eq!(st.on_datagram(&peers, &tokens, &tokens.punch, stranger), PunchReply::Ignore);
    assert!(st.learned.is_empty());
    assert_eq!(st.round_over(), None);

    assert_eq!(st.on_datagram(&peers, &tokens, &tokens.punch, peer), PunchReply::AnswerPack(peer));
    assert_eq!(st.round_over(), Some(peer));
    assert_eq!(
        st.on_datagram(&peers, &tokens, &tokens.pack, peer),
        PunchReply::Connected { peer, first: None }
    );
    assert_eq!(
        st.on_datagram(&peers, &tokens, b"data", peer),
        PunchReply::Connected { peer, first: Some(b"data".to_vec()) }
    );
}

#[test]
fn a_strict_host_is_learned_from_its_counter_punch() {
    let tokens = PunchTokens::for_host("strict");
    let named = v4(198, 51, 100, 7, 40000);
    let peers = [named];
    let mut st = PunchState::new();
    let real = v4(198, 51, 100, 7, 51234);
    assert_eq!(st.on_datagram(&peers, &tokens, &tokens.punch, real), PunchReply::AnswerPack(real));
    assert_eq!(st.learned, vec![real]);
    assert_eq!(st.targets(&peers), vec![named, real]);
    // Not a punch from an unknown port: ignored, nothing learned.
    let other = v4(198, 51, 100, 7, 60000);
    assert_eq!(st.on_datagram(&peers, &tokens, &tokens.pack, other), PunchReply::Ignore);
    for p in 1..10u16 {
        let _ = st.on_datagram(&peers, &tokens, &tokens.punch, v4(198, 51, 100, 7, 1000 + p));
    }
    assert_eq!(st.learned.len(), MAX_LEARNED);
}

#[test]
fn probe_answers_count_only_from_the_probed() {
    let tokens = PunchTokens::for_host("probe-test");
    let host = v4(198, 51, 100, 7, 40000);
    assert!(probe_answer_accepted(&tokens, &[host], &tokens.pong, &host));
    assert!(!probe_answer_accepted(&tokens, &[host], &tokens.pong, &v4(198, 51, 100, 8, 40000)));
    assert!(!probe_answer_accepted(&tokens, &[host], &tokens.ping, &host));
    assert!(link_accepts(&tokens, &host, &host, b"payload"));
    assert!(!link_accepts(&tokens, &host, &host, &tokens.punch));
    assert!(!link_accepts(&tokens, &host, &host, &tokens.pack));
    assert!(!link_accepts(&tokens, &host, &v4(1, 1, 1, 1, 1), b"payload"));
}

#[test]
fn probe_with_wrong_host_id_gets_no_answer() {
    let real = PunchTokens::for_host("real-host");
    let wrong = PunchTokens::for_host("НЕ-тот-хост");
    assert_eq!(inbound(false, &real, &wrong.ping), Inbound::Ignore);
    assert_eq!(inbound(false, &real, &real.ping), Inbound::AnswerProbe);
    assert_eq!(inbound(false, &real, &real.punch), Inbound::NewGuest);
    assert_eq!(inbound(true, &real, &real.ping), Inbound::ToPeer);
}

#[test]
fn unvouched_punch_flood_cannot_lock_out_a_real_guest() {
    let mut hub = HubState::new();
    let now = 1_000_000u64;
    let guest = v4(198, 51, 100, 20, 41000);
    // The coordinator names the guest's address; it arrives from another port.
    hub.vouch(&[v4(198, 51, 100, 20, 40000)], now);
    let mut admitted = 0;
    for i in 0..24u16 {
        let spoof = v4(203, 0, 113, (i % 200) as u8, 10000 + i);
        if !hub.knows(&spoof) && hub.let_in(spoof, now).is_some() {
            admitted += 1;
        }
    }
    assert_eq!(admitted, MAX_UNVOUCHED_PEERS, "the flood got more seats than the quota");
    assert_eq!(hub.unvouched(), MAX_UNVOUCHED_PEERS);
    assert_eq!(hub.let_in(guest, now + 1000), Some(true), "the real guest was locked out by the flood");
    assert_eq!(hub.peer_count(), MAX_UNVOUCHED_PEERS + 1);
    // The coordinator's word expires.
    let late = v4(198, 51, 100, 21, 40000);
    hub.vouch(&[late], now);
    assert_eq!(hub.let_in(late, now + 200_000), None);
    // A released seat is free again.
    let first = v4(203, 0, 113, 0, 10000);
    hub.release(&first);
    assert_eq!(hub.unvouched(), MAX_UNVOUCHED_PEERS - 1);
    assert!(!hub.knows(&first));
}

#[test]
fn accept_backlog_does_not_stall_existing_guest() {
    assert_eq!(after_handoff(Handoff::Queued), AfterHandoff::SendPack);
    assert_eq!(after_handoff(Handoff::Full), AfterHandoff::DropGuest);
    assert_eq!(after_handoff(Handoff::Closed), AfterHandoff::Shutdown);
}

#[test]
fn hub_accepts_guest_and_delivers_via_pool() {
    let mut pool = BufPool::new();
    let b = pool.pooled_copy(b"hello-world");
    assert_eq!(b, b"hello-world".to_vec());
    pool.pool_return(b);
    let c = pool.pooled_copy(b"x");
    assert_eq!(c, b"x".to_vec());
}

#[test]
fn markers_are_single_bytes() {
    assert_eq!(classify_frame(&[0]), Frame::Keepalive);
    assert_eq!(classify_frame(&[1]), Frame::Bye);
    assert_eq!(classify_frame(&[2]), Frame::Probe);
    assert_eq!(classify_frame(&[3]), Frame::Data);
    assert_eq!(classify_frame(&[0, 0]), Frame::Data);
    assert_eq!(classify_frame(&[]), Frame::Data);
}

#[test]
fn a_hint_shortens_the_silence_deadline() {
    let w = Watch::new();
    assert_eq!(w.wait_ms, DEAD_AFTER_MS);
    let (w, a) = w.step(WatchEvent::Hint);
    assert_eq!(a, WatchAction::Listen { send: Some(Signal::Probe), wait_ms: PEER_CHECK_GRACE_MS });
    assert!(PEER_CHECK_GRACE_MS < DEAD_AFTER_MS);
    let (_, a) = w.step(WatchEvent::Silence);
    assert_eq!(a, WatchAction::End { peer_said_bye: false });
}

#[test]
fn a_hint_never_kills_a_live_peer() {
    let (w, _) = Watch::new().step(WatchEvent::Hint);
    let (w, a) = w.step(WatchEvent::Received(Frame::Keepalive));
    assert_eq!(a, WatchAction::Listen { send: None, wait_ms: DEAD_AFTER_MS });
    assert_eq!(w.wait_ms, DEAD_AFTER_MS);
    let (_, a) = w.step(WatchEvent::Received(Frame::Probe));
    assert_eq!(a, WatchAction::Listen { send: Some(Signal::Keepalive), wait_ms: DEAD_AFTER_MS });
    let (_, a) = w.step(WatchEvent::Received(Frame::Data));
    assert_eq!(a, WatchAction::Deliver);
}

#[test]
fn bye_signals_eof_immediately_not_after_timeout() {
    let (_, a) = Watch::new().step(WatchEvent::Received(Frame::Bye));
    assert_eq!(a, WatchAction::End { peer_said_bye: true });
    let (_, a) = Watch::new().step(WatchEvent::Closed);
    assert_eq!(a, WatchAction::End { peer_said_bye: false });
    let (_, a) = Watch::new().step(WatchEvent::Failed);
    assert_eq!(a, WatchAction::Error);
}

#[test]
fn farewell_is_repeated_and_spread_over_time() {
    let mut sent = 1;
    while let Some(gap) = farewell_next(sent, true) {
        assert_eq!(gap, BYE_GAP_MS);
        sent += 1;
    }
    assert!(sent >= BYE_REPEATS, "{sent} goodbyes, at least {BYE_REPEATS} needed");
    assert_eq!(farewell_next(1, false), None);
    assert_eq!(take_farewell(false), (true, true));
    assert_eq!(take_farewell(true), (true, false));
    assert!(pinger_continues(false, true));
    assert!(!pinger_continues(true, true));
    assert!(!pinger_continues(false, false));
    for _ in 0..50 {
        let d = ping_delay_ms();
        assert!((PING_MIN_MS..=PING_MAX_MS).contains(&d));
    }
}

#[test]
fn address_ranges_come_from_one_table() {
    assert_eq!(reach(Ip::V4(u32::from_be_bytes([127, 0, 0, 1]))), Reach::Loopback);
    assert_eq!(reach(Ip::V4(u32::from_be_bytes([10, 1, 2, 3]))), Reach::Private);
    assert_eq!(reach(Ip::V4(u32::from_be_bytes([100, 64, 0, 1]))), Reach::SharedCgnat);
    assert_eq!(reach(Ip::V4(u32::from_be_bytes([169, 254, 169, 254]))), Reach::LinkLocal);
    assert_eq!(reach(Ip::V4(u32::from_be_bytes([203, 0, 113, 7]))), Reach::Documentation);
    assert_eq!(reach(Ip::V4(u32::from_be_bytes([224, 0, 0, 1]))), Reach::Multicast);
    assert_eq!(reach(Ip::V4(u32::from_be_bytes([255, 255, 255, 255]))), Reach::Reserved);
    assert_eq!(reach(Ip::V4(u32::from_be_bytes([8, 8, 8, 8]))), Reach::Public);
    assert_eq!(reach(Ip::V6(1)), Reach::Loopback);
    assert_eq!(reach(Ip::V6(0xfe80u128 << 112)), Reach::LinkLocal);
    assert!(!punch_target_allowed(&v4(127, 0, 0, 1, 5000)));
    assert!(punch_target_allowed(&v4(192, 168, 1, 5, 5000)));
    assert!(!plausible_external(&v4(192, 168, 1, 5, 5000)));
    assert!(plausible_external(&v4(45, 11, 22, 33, 40000)));
    assert!(!plausible_external(&v4(45, 11, 22, 33, 0)));
}

#[test]
fn host_ids_are_read_aloud_safely() {
    for len in [0usize, 4, 6, 12] {
        let id = new_host_id(len);
        assert_eq!(id.chars().count(), len.max(4));
        assert!(id.bytes().all(|b| ID_ALPHABET.contains(&b)), "{id}");
    }
}
