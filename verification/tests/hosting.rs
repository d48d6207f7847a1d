//! The host's side: punch targets, the announcement, the password frame,
//! guest slots and the protocol name.

use bemyvpn::addr::{Endpoint, Ip};
use bemyvpn::config::{Config, DEFAULT_PROTOCOL};
use bemyvpn::error::Error;
use bemyvpn::hosting::{
    announce_goes_out, auth_frame, build_announce, check_password, choose_host_id, choose_host_token, ct_eq,
    my_endpoints, no_free_place, no_host_address, or_default, parse_addrs, resolve_protocol, verify_auth, GuestTable,
    HostSettings, AUTH_MARKER, MAX_PUNCH_TARGETS,
};

/// "a.b.c.d:port" or "[::1]:port" into an endpoint; anything else is none.
fn parse(s: &str) -> Option<Endpoint> {
    let (host, port) = s.rsplit_once(':')?;
    let port: u16 = port.parse().ok()?;
    if host == "[::1]" {
        return Some(Endpoint { ip: Ip::V6(1), port });
    }
    let parts: Vec<u8> = host.split('.').map(|p| p.parse::<u8>()).collect::<Result<_, _>>().ok()?;
    if parts.len() != 4 {
        return None;
    }
    Some(Endpoint { ip: Ip::V4(u32::from_be_bytes([parts[0], parts[1], parts[2], parts[3]])), port })
}

fn text(e: &Endpoint) -> String {
    match e.ip {
        Ip::V4(a) => {
            let b = a.to_be_bytes();
            format!("{}.{}.{}.{}:{}", b[0], b[1], b[2], b[3], e.port)
        }
        Ip::V6(1) => format!("[::1]:{}", e.port),
        Ip::V6(a) => format!("[{a:x}]:{}", e.port),
    }
}

#[test]
fn parse_addrs_drops_internal_targets_and_duplicates() {
    let list: Vec<Option<Endpoint>> = [
        "127.0.0.1:41000",
        "169.254.169.254:80",
        "[::1]:41000",
        "224.0.0.1:41000",
        "45.11.22.33:40000",
        "45.11.22.33:40000",
        "192.168.1.5:40000",
        "не адрес",
    ]
    .iter()
    .map(|s| parse(s))
    .collect();
    let got = parse_addrs(&list);
    let s: Vec<String> = got.iter().map(text).collect();
    assert!(!s.iter().any(|a| a.starts_with("127.") || a.starts_with("[::1]")), "loopback among targets: {s:?}");
    assert!(!s.iter().any(|a| a.starts_with("169.254.")), "link-local among targets: {s:?}");
    assert!(!s.iter().any(|a| a.starts_with("224.")), "multicast among targets: {s:?}");
    assert_eq!(s.iter().filter(|a| a.starts_with("45.11.22.33")).count(), 1, "duplicates kept: {s:?}");
    assert!(s.iter().any(|a| a.starts_with("192.168.1.5")), "a guest of the same LAN was cut off: {s:?}");
    assert_eq!(s, ["45.11.22.33:40000", "192.168.1.5:40000"]);

    let many: Vec<Option<Endpoint>> = (1..100).map(|i| parse(&format!("45.11.22.{i}:40000"))).collect();
    assert!(parse_addrs(&many).len() <= MAX_PUNCH_TARGETS, "the number of targets is unbounded");
    assert_eq!(parse_addrs(&many).len(), MAX_PUNCH_TARGETS);
}

#[test]
fn default_protocol_is_one_for_everyone() {
    assert_eq!(DEFAULT_PROTOCOL, Config::default(None).default_protocol);
    let registered = vec!["noise-obfs".to_string(), "noise".to_string(), "plain".to_string()];
    assert_eq!(resolve_protocol("", &registered), DEFAULT_PROTOCOL, "an empty name takes the common default");
    assert_eq!(resolve_protocol("выдуманный", &registered), DEFAULT_PROTOCOL);
    assert_eq!(resolve_protocol("plain", &registered), "plain", "a known name must work");
    assert_eq!(or_default("", DEFAULT_PROTOCOL), DEFAULT_PROTOCOL);
    assert_eq!(or_default("plain", DEFAULT_PROTOCOL), "plain");
}

#[test]
fn the_screen_names_the_protocol_the_session_uses() {
    let registered = vec!["noise-obfs".to_string(), "noise".to_string(), "plain".to_string()];
    for setting in ["", "выдуманный", "plain", DEFAULT_PROTOCOL] {
        let host_protocol = or_default(setting, DEFAULT_PROTOCOL);
        let session = resolve_protocol(&host_protocol, &registered);
        let shown = resolve_protocol(&host_protocol, &registered);
        assert_eq!(shown, session, "setting {setting:?}");
        assert!(registered.contains(&session));
    }
}

fn settings(public: bool, password: &str) -> HostSettings {
    HostSettings {
        id: "ABCD".to_string(),
        token: "T".to_string(),
        code_sig: "S".to_string(),
        name: "home".to_string(),
        endpoints: vec!["45.11.22.33:40000".to_string()],
        country: "NL".to_string(),
        public,
        max_guests: 8,
        password: password.to_string(),
        protocol: DEFAULT_PROTOCOL.to_string(),
    }
}

#[test]
fn password_forces_hidden_network() {
    let ann = build_announce(&settings(true, "секрет"), 0);
    assert!(ann.has_password, "the password shows as a flag");
    assert!(!ann.public, "with a password the network is hidden");
    let ann = build_announce(&settings(true, ""), 3);
    assert!(ann.public, "without a password a public host stays public");
    assert_eq!(ann.guests, 3);
    assert_eq!(ann.endpoints, vec!["45.11.22.33:40000".to_string()]);
    assert!(!build_announce(&settings(false, ""), 0).public);
    assert!(announce_goes_out(true, true));
    assert!(!announce_goes_out(true, false));
}

#[test]
fn the_password_frame_round_trips() {
    let f = auth_frame("секрет");
    assert_eq!(f[0], AUTH_MARKER);
    assert_eq!(&f[1..], "секрет".as_bytes());
    assert!(verify_auth(&f, "секрет"));
    assert!(!verify_auth(&f, "секре"));
    assert!(!verify_auth(&auth_frame("другой"), "секрет"));
    assert!(!verify_auth(&[], "x"));
    assert!(verify_auth(&[AUTH_MARKER], ""));
    assert!(ct_eq(b"abc", b"abc"));
    assert!(!ct_eq(b"abc", b"abd"));
    assert!(!ct_eq(b"abc", b"ab"));
}

#[test]
fn a_guest_without_the_password_is_refused() {
    assert!(check_password("", None).is_ok());
    assert!(check_password("pw", Some(&auth_frame("pw"))).is_ok());
    match check_password("pw", Some(&auth_frame("nope"))) {
        Err(Error::Protocol(m)) => assert_eq!(m, "Неверный пароль."),
        other => panic!("{other:?}"),
    }
    assert!(matches!(check_password("pw", None), Err(Error::Protocol(_))));
    assert!(matches!(no_free_place(), Error::Net(m) if m.contains("нет свободных мест")));
    assert!(matches!(no_host_address(), Error::Net(m) if m.contains("нет рабочего адреса")));
}

#[test]
fn cancelled_session_frees_the_guest_slot() {
    let mut t = GuestTable::new();
    let a = parse("203.0.113.7:41000").unwrap();
    let b = parse("203.0.113.8:41000").unwrap();
    let ga = t.take(a, 2).expect("a free place");
    assert_eq!(t.count(), 1);
    let gb = t.take(b, 2).expect("a free place");
    assert_eq!(t.count(), 2);
    assert_eq!(t.take(parse("203.0.113.9:1").unwrap(), 2), None, "over the limit");
    // A reconnect from the same address replaces its slot.
    let ga2 = t.take(a, 2).expect("the same address gets its place back");
    assert_ne!(ga, ga2);
    assert_eq!(t.count(), 2);
    // The stale session does not free the newer one's slot.
    t.release(&a, ga);
    assert_eq!(t.count(), 2);
    t.release(&a, ga2);
    t.release(&b, gb);
    assert_eq!(t.count(), 0);
    assert!(t.take(a, 0).is_some(), "no limit");
}

#[test]
fn a_node_names_its_addresses_once_and_in_order() {
    let home = u32::from_be_bytes([192, 168, 1, 5]);
    let ext = u32::from_be_bytes([45, 11, 22, 33]);
    assert_eq!(my_endpoints(40000, Some(home), Some((ext, 41000))), ["192.168.1.5:40000", "45.11.22.33:41000"]);
    assert_eq!(my_endpoints(40000, Some(ext), Some((ext, 40000))), ["45.11.22.33:40000"]);
    assert_eq!(my_endpoints(40000, Some(home), None), ["192.168.1.5:40000"]);
    assert_eq!(my_endpoints(40000, None, Some((ext, 1))), ["45.11.22.33:1"]);
    assert!(my_endpoints(40000, None, None).is_empty());
}

#[test]
fn ids_are_kept_when_configured_and_made_when_not() {
    assert_eq!(choose_host_id("MYID"), "MYID");
    assert_eq!(choose_host_id("").chars().count(), 16);
    assert_eq!(choose_host_token("tok"), "tok");
    assert_eq!(choose_host_token("").chars().count(), 32);
}

#[test]
fn a_live_update_keeps_what_it_was_not_given() {
    let mut s = settings(true, "");
    s.apply_update("", 0, "pw", "", false);
    assert_eq!(s.name, "home");
    assert_eq!(s.max_guests, 8);
    assert_eq!(s.protocol, DEFAULT_PROTOCOL);
    assert_eq!(s.password, "pw");
    assert!(!s.public);
    s.apply_update("office", 3, "", "plain", true);
    assert_eq!(s.name, "office");
    assert_eq!(s.max_guests, 3);
    assert_eq!(s.protocol, "plain");
    assert_eq!(s.password, "");
    assert!(s.public);
    assert_eq!(s.id, "ABCD");
}
