//! Session decisions of the platform shell: refusals, the reconnecting pump,
//! and the small conversions of the values it reads.

use bemyvpn::config::{Config, DEFAULT_PROTOCOL};
use bemyvpn::error::Error;
use bemyvpn::session::{
    card_ip, endpoint_list, join_endpoints, new_code_reply, rtt_reply, backoff_ms, connect_next, connect_result, heal_with_fresh_code, host_max_guests, host_start_config,
    host_start_reply, host_start_sentinel, ping_ms, pump_outcome, reuse_engine, stale_code_signature,
    start_tunnel_status, strip_nul, tri, host_start_next, ConnectNext, HostStartStep, Pump, PumpAction, PumpEnd, PumpEvent, MAX_FAILS,
    MIN_GOOD_SESSION_MS, REASON_HOST_LEFT, REASON_LINK_LOST, STATUS_CONNECTED, STATUS_CONNECTING, STATUS_FAILED,
    STATUS_OFF,
};

fn refused(code: u16, reason: &str) -> Error {
    Error::Refused { code, reason: reason.to_string() }
}

#[test]
fn stale_signature_heals_itself_and_maps_to_sentinels() {
    let sig = refused(403, "Код сети не подтверждён этим сервером.");
    assert!(!sig.message().contains("403"), "the refusal text holds digits");
    assert!(stale_code_signature(&sig), "403 not recognised: the stale signature no longer heals");
    assert_eq!(host_start_sentinel(&sig), "!SIG");

    let nat = refused(422, "Не удалось определить ваш адрес в интернете.");
    assert!(!nat.message().contains("422"), "the refusal text holds digits");
    assert!(!stale_code_signature(&nat), "422 is no stale signature");
    assert_eq!(host_start_sentinel(&nat), "!NAT");

    let net = Error::Net("Сервер недоступен.".into());
    assert!(!stale_code_signature(&net));
    assert_eq!(host_start_sentinel(&net), "");
}

#[test]
fn error_messages_carry_their_kind() {
    assert_eq!(Error::Net("x".into()).message(), "сеть/NAT: x");
    assert_eq!(Error::Config("y".into()).message(), "конфиг: y");
    assert_eq!(refused(403, "причина").message(), "причина");
    assert_eq!(Error::other("z".to_string()).message(), "z");
    assert_eq!(refused(422, "r").refusal_code(), Some(422));
    assert_eq!(Error::Tunnel("t".into()).refusal_code(), None);
}

/// Runs the pump over links that all die at once, as a host that refused the
/// guest does; counts the reconnects asked for.
fn run_dead_links(can_reconnect: bool, bye: bool) -> (PumpEnd, u32) {
    let mut p = Pump::new(can_reconnect);
    let mut tries = 0u32;
    let mut ev = PumpEvent::SessionEnded { peer_said_bye: bye, lived_ms: 0 };
    loop {
        let (next, action) = p.step(ev);
        p = next;
        match action {
            PumpAction::Finish(end) => return (end, tries),
            PumpAction::Pause { delay_ms } => {
                assert!((500..=8000).contains(&delay_ms));
                let (after, a) = p.step(PumpEvent::PauseOver);
                assert_eq!(a, PumpAction::Reestablish);
                assert_eq!(after, p);
                tries += 1;
                let (after, a) = after.step(PumpEvent::Reconnected);
                assert_eq!(a, PumpAction::Pump);
                p = after;
                ev = PumpEvent::SessionEnded { peer_said_bye: bye, lived_ms: 0 };
            }
            PumpAction::Pump | PumpAction::Reestablish => unreachable!(),
        }
        assert!(tries <= MAX_FAILS + 2, "the reconnect loop never gives up");
    }
}

#[test]
fn guest_gives_up_when_every_session_dies_instantly() {
    let (end, tries) = run_dead_links(true, false);
    assert_eq!(end, PumpEnd::LinkLost);
    assert!(tries < MAX_FAILS + 2, "{tries} attempts, limit {MAX_FAILS}");
    let (status, reason) = pump_outcome(end, STATUS_CONNECTED, 0);
    assert_eq!(status, STATUS_FAILED, "a pump that gave up leaves the failed status");
    assert_eq!(reason, REASON_LINK_LOST, "running out of reconnects is a lost link, not a goodbye");
}

#[test]
fn a_host_goodbye_ends_the_session_without_reconnect_attempts() {
    let (end, tries) = run_dead_links(true, true);
    assert_eq!(end, PumpEnd::HostLeft);
    assert_eq!(tries, 0, "after the host's goodbye the pump went reconnecting");
    let (status, reason) = pump_outcome(end, STATUS_CONNECTED, 0);
    assert_eq!(status, STATUS_FAILED);
    assert_eq!(reason, REASON_HOST_LEFT);
}

#[test]
fn without_a_way_back_the_session_just_closes() {
    let (end, tries) = run_dead_links(false, false);
    assert_eq!(end, PumpEnd::Closed);
    assert_eq!(tries, 0);
    assert_eq!(pump_outcome(PumpEnd::Closed, STATUS_CONNECTED, 0), (STATUS_OFF, 0));
    assert_eq!(pump_outcome(PumpEnd::Stopped, STATUS_FAILED, 2), (STATUS_FAILED, 2));
}

#[test]
fn a_long_session_forgives_earlier_failures() {
    let mut p = Pump::new(true);
    for _ in 0..5 {
        let (n, a) = p.step(PumpEvent::ReconnectFailed);
        assert!(matches!(a, PumpAction::Pause { .. }));
        p = n;
    }
    assert_eq!(p.fails, 5);
    let (n, a) = p.step(PumpEvent::SessionEnded { peer_said_bye: false, lived_ms: MIN_GOOD_SESSION_MS });
    assert_eq!(n.fails, 0);
    assert_eq!(a, PumpAction::Pause { delay_ms: 500 });
    let (_, a) = p.step(PumpEvent::Stopped);
    assert_eq!(a, PumpAction::Finish(PumpEnd::Stopped));
    let (_, a) = p.step(PumpEvent::DeviceUnavailable);
    assert_eq!(a, PumpAction::Finish(PumpEnd::LinkLost));
}

#[test]
fn a_network_change_reconnects_without_counting_a_failure() {
    let mut p = Pump::new(true);
    for _ in 0..3 {
        p = p.step(PumpEvent::ReconnectFailed).0;
    }
    assert_eq!(p.fails, 3);
    // During a session: leave the link, the failures stay as they were.
    let (n, a) = p.step(PumpEvent::NetworkChanged);
    assert_eq!(n.fails, 3);
    assert_eq!(a, PumpAction::Pause { delay_ms: 4000 });
    // During the pause: it is cut short and the link is re-established now.
    let (n, a) = n.step(PumpEvent::PauseOver);
    assert_eq!(n.fails, 3);
    assert_eq!(a, PumpAction::Reestablish);
    let (n, a) = n.step(PumpEvent::Reconnected);
    assert_eq!((n.fails, a), (3, PumpAction::Pump));
}

#[test]
fn the_backoff_doubles_up_to_eight_seconds() {
    assert_eq!(backoff_ms(0), 500);
    assert_eq!(backoff_ms(1), 1000);
    assert_eq!(backoff_ms(2), 2000);
    assert_eq!(backoff_ms(3), 4000);
    assert_eq!(backoff_ms(4), 8000);
    assert_eq!(backoff_ms(19), 8000);
}

#[test]
fn phase_one_tries_twice_and_respects_a_stop() {
    assert_eq!(connect_next(1, false), ConnectNext::Retry(2));
    assert_eq!(connect_next(2, false), ConnectNext::Failed);
    assert_eq!(connect_next(1, true), ConnectNext::Established);
    assert_eq!(connect_result(true, false), (true, STATUS_CONNECTING));
    assert_eq!(connect_result(true, true), (false, STATUS_OFF));
    assert_eq!(connect_result(false, false), (false, STATUS_OFF));
    assert_eq!(start_tunnel_status(true), (true, STATUS_CONNECTED));
    assert_eq!(start_tunnel_status(false), (false, STATUS_FAILED));
}

#[test]
fn values_for_the_shell_keep_their_meaning() {
    assert_eq!(tri(1), Some(true));
    assert_eq!(tri(0), Some(false));
    assert_eq!(tri(-1), None);
    assert_eq!(tri(7), None);
    assert_eq!(ping_ms(24), Some(24));
    assert_eq!(ping_ms(-1), None);
    assert_eq!(strip_nul("им\0я"), "имя");
    assert_eq!(host_max_guests(0), 8);
    assert_eq!(host_max_guests(-3), 8);
    assert_eq!(host_max_guests(42), 42);
    assert_eq!(host_start_reply("123456", "abc"), "123456|abc");
    assert!(reuse_engine(Some("https://a"), "https://a"));
    assert!(!reuse_engine(Some("https://a"), "https://b"));
    assert!(!reuse_engine(None, "https://a"));
}

#[test]
fn a_host_started_from_the_shell_keeps_what_it_was_given() {
    let c = host_start_config("https://c", "", "tok", "sig", "name", 0, "pw", "", true);
    assert_eq!(c.coordinators, vec!["https://c".to_string()]);
    assert_eq!(c.host.token, "tok");
    assert_eq!(c.host.code_sig, "sig");
    assert_eq!(c.host.max_guests, 8);
    assert_eq!(c.default_protocol, DEFAULT_PROTOCOL);
    assert!(c.host.public);
    let c = host_start_config("https://c", "777", "tok", "sig", "name", 3, "", "plain", false);
    assert_eq!(c.host.id, "777");
    assert_eq!(c.host.max_guests, 3);
    assert_eq!(c.default_protocol, "plain");
    assert!(c.source.is_none());
    // What the shell does not hand over stays at the defaults.
    assert_eq!(c.host.country_hint, "auto");
    assert_eq!(c.guest.ipv6, "block");
    assert_eq!(c.stun.file, "stun_servers.txt");
    assert!(c.stun.servers.is_empty());
    assert_eq!(c.server.bind, "0.0.0.0:3330");
    assert_eq!(c.server.acme_cache, "acme-cache");
}

#[test]
fn only_a_stale_signature_with_a_fresh_code_heals() {
    let cfg: Config = host_start_config("https://c", "111", "tok", "old", "n", 4, "pw", "", true);
    let fresh = Some(("222".to_string(), "new".to_string()));
    let healed = heal_with_fresh_code(&cfg, &refused(403, "x"), fresh.clone()).expect("a 403 heals");
    assert_eq!(healed.host.id, "222");
    assert_eq!(healed.host.code_sig, "new");
    assert_eq!(healed.host.token, "tok");
    let mut custom = cfg.duplicate();
    custom.host.country_hint = "DE".to_string();
    custom.guest.ipv6 = "allow".to_string();
    custom.stun.servers = vec!["stun.example.org:3478".to_string()];
    custom.server.domain = "vpn.example.org".to_string();
    custom.source = Some("/srv/bemyvpn.toml".to_string());
    let healed = heal_with_fresh_code(&custom, &refused(403, "x"), fresh.clone()).expect("a 403 heals");
    assert_eq!(healed.host.id, "222");
    assert_eq!(healed.host.country_hint, "DE");
    assert_eq!(healed.guest.ipv6, "allow");
    assert_eq!(healed.stun.servers, vec!["stun.example.org:3478".to_string()]);
    assert_eq!(healed.server.domain, "vpn.example.org");
    assert_eq!(healed.source.as_deref(), Some("/srv/bemyvpn.toml"));
    assert!(heal_with_fresh_code(&cfg, &refused(422, "x"), fresh.clone()).is_none());
    assert!(heal_with_fresh_code(&cfg, &refused(403, "x"), None).is_none());
    assert!(heal_with_fresh_code(&cfg, &refused(403, "x"), Some((String::new(), "s".into()))).is_none());
}

#[test]
fn catalog_cards_and_probe_answers_for_the_shell() {
    assert_eq!(endpoint_list(" 45.11.22.33:40000 , ,192.168.1.5:40000,"), vec!["45.11.22.33:40000", "192.168.1.5:40000"]);
    assert!(endpoint_list("").is_empty());
    assert!(endpoint_list(" , ").is_empty());
    assert_eq!(rtt_reply(Some(24)), 24);
    assert_eq!(rtt_reply(Some(u32::MAX)), i32::MAX);
    assert_eq!(rtt_reply(None), -1);
    assert_eq!(new_code_reply("ABCD", "sig"), "ABCD|sig");
    assert_eq!(new_code_reply("", "sig"), "");
    let eps = vec!["1.2.3.4:5".to_string(), "6.7.8.9:10".to_string()];
    assert_eq!(card_ip("9.9.9.9", &eps), "9.9.9.9");
    assert_eq!(card_ip("", &eps), "1.2.3.4:5");
    assert_eq!(card_ip("", &[]), "");
    assert_eq!(join_endpoints(&eps), "1.2.3.4:5,6.7.8.9:10");
    assert_eq!(join_endpoints(&[]), "");
    assert_eq!(join_endpoints(&eps[..1]), "1.2.3.4:5");
}

#[test]
fn an_io_error_names_its_kind() {
    let e = Error::Io(std::io::Error::new(std::io::ErrorKind::Other, "disk on fire"));
    let m = e.message();
    assert!(m.starts_with("ввод-вывод: "), "{m}");
    assert!(m.contains("disk on fire"), "{m}");
}

#[test]
fn a_stale_signature_is_healed_once_then_reported() {
    assert_eq!(host_start_next(false, None), HostStartStep::Serve);
    assert_eq!(host_start_next(true, None), HostStartStep::Serve);
    let stale = refused(403, "bad signature");
    assert_eq!(host_start_next(false, Some(&stale)), HostStartStep::Heal);
    // The retry was refused again: no second fresh code, the shell gets "!SIG".
    assert_eq!(host_start_next(true, Some(&stale)), HostStartStep::Fail("!SIG"));
    assert_eq!(host_start_next(false, Some(&refused(422, "nat"))), HostStartStep::Fail("!NAT"));
    assert_eq!(host_start_next(true, Some(&refused(422, "nat"))), HostStartStep::Fail("!NAT"));
    assert_eq!(host_start_next(false, Some(&Error::Tunnel("down".into()))), HostStartStep::Fail(""));
}
