//! Configuration defaults, the IPv6 knob, the search for the file and the
//! STUN server list.

use bemyvpn::config::{
    meminfo_total_mb, parse_stun_file, resolve_path, restore_owner_after_sudo, suggested_max_guests,
    user_path_components, Config, GuestConfig, Ipv6Mode, StunConfig, DEFAULT_PROTOCOL,
};
use bemyvpn::error::Error;

#[test]
fn defaults_are_sane() {
    let c = Config::default(Some(512));
    assert_eq!(c.default_protocol, DEFAULT_PROTOCOL);
    assert!((4..=128).contains(&c.host.max_guests), "limit out of bounds: {}", c.host.max_guests);
    assert_eq!(c.host.max_guests, suggested_max_guests(Some(512)));
}

#[test]
fn the_default_guest_limit_follows_the_memory() {
    assert_eq!(Config::default(Some(512)).host.max_guests, 32);
    assert_eq!(Config::default(Some(2048)).host.max_guests, 128);
    assert_eq!(Config::default(Some(300)).host.max_guests, 4);
    assert_eq!(Config::default(None).host.max_guests, 64);
    for mb in [0u64, 256, 700, 1024, 1300, 100_000] {
        assert_eq!(Config::default(Some(mb)).host.max_guests, suggested_max_guests(Some(mb)));
    }
}

#[test]
fn anything_but_an_explicit_allow_means_block() {
    assert_eq!(Ipv6Mode::parse("allow"), Ipv6Mode::Allow, "an explicit opt-out must work");
    assert_eq!(Ipv6Mode::parse("  ALLOW  "), Ipv6Mode::Allow, "case and spaces must not matter");

    assert_eq!(Ipv6Mode::parse("block"), Ipv6Mode::Block);
    assert_eq!(Ipv6Mode::parse("route"), Ipv6Mode::Block, "an unkept promise must not lift protection");
    assert_eq!(Ipv6Mode::parse(""), Ipv6Mode::Block, "empty value");
    assert_eq!(Ipv6Mode::parse("allowed"), Ipv6Mode::Block, "a similar but different word");
    assert_eq!(Ipv6Mode::parse("all"), Ipv6Mode::Block, "a prefix of allow");
    assert_eq!(Ipv6Mode::parse("да"), Ipv6Mode::Block, "garbage");

    assert_eq!(GuestConfig::default().ipv6_mode(), Ipv6Mode::Block);
    assert_eq!(Config::default(None).guest.ipv6_mode(), Ipv6Mode::Block);
}

#[test]
fn without_source_saves_to_user_path() {
    let c = Config::default(None);
    assert!(c.source.is_none());
}

#[test]
fn saving_goes_back_to_the_file_it_came_from() {
    let mut c = Config::default(None);
    assert_eq!(c.save_path("/home/me/.config/bemyvpn/config.toml".to_string()), "/home/me/.config/bemyvpn/config.toml");
    c.source = Some("/srv/bemyvpn.toml".to_string());
    assert_eq!(c.save_path("/home/me/.config/bemyvpn/config.toml".to_string()), "/srv/bemyvpn.toml");
}

#[test]
fn loading_remembers_the_file() {
    let mut parsed = Config::default(None);
    parsed.default_protocol = "plain".to_string();
    let c = Config::load(Some(("/srv/bemyvpn.toml".to_string(), Ok(parsed))), None).unwrap();
    assert_eq!(c.source.as_deref(), Some("/srv/bemyvpn.toml"));
    assert_eq!(c.default_protocol, "plain");
    let none = Config::load(None, Some(4096)).unwrap();
    assert!(none.source.is_none());
    assert_eq!(none.host.max_guests, 128);
    assert_eq!(none.default_protocol, DEFAULT_PROTOCOL);
    let bad = Config::load(Some(("x".to_string(), Err(Error::Config("broken".to_string())))), None);
    assert!(matches!(bad, Err(Error::Config(_))));
}

#[test]
fn the_search_order_is_explicit_env_local_user() {
    let user = "/u/config.toml".to_string();
    assert_eq!(resolve_path(Some("/a.toml".into()), Some("/env.toml".into()), true, user.clone(), true).as_deref(), Some("/a.toml"));
    assert_eq!(resolve_path(None, Some("/env.toml".into()), true, user.clone(), true).as_deref(), Some("/env.toml"));
    assert_eq!(resolve_path(None, Some(String::new()), true, user.clone(), true).as_deref(), Some("bemyvpn.toml"));
    assert_eq!(resolve_path(None, None, false, user.clone(), true).as_deref(), Some("/u/config.toml"));
    assert_eq!(resolve_path(None, None, false, user.clone(), false), None);
    assert_eq!(Config::path(None, false, user, false), None);
}

#[test]
fn user_path_points_into_bemyvpn_dir() {
    assert_eq!(user_path_components(Some("/x".into()), Some("/a".into()), Some("/h".into())), vec!["/x", "bemyvpn", "config.toml"]);
    assert_eq!(user_path_components(None, Some("/a".into()), Some("/h".into())), vec!["/a", "bemyvpn", "config.toml"]);
    assert_eq!(user_path_components(None, None, Some("/h".into())), vec!["/h", ".config", "bemyvpn", "config.toml"]);
    assert_eq!(user_path_components(None, None, None), vec![".", "bemyvpn", "config.toml"]);
}

#[test]
fn guest_limits_follow_memory_and_round_down_to_presets() {
    assert_eq!(suggested_max_guests(None), 64);
    assert_eq!(suggested_max_guests(Some(0)), 4);
    assert_eq!(suggested_max_guests(Some(512)), 32);
    assert_eq!(suggested_max_guests(Some(1024)), 64);
    assert_eq!(suggested_max_guests(Some(1279)), 64);
    assert_eq!(suggested_max_guests(Some(1280)), 128);
    assert_eq!(suggested_max_guests(Some(u64::MAX)), 128);
    assert_eq!(suggested_max_guests(Some(400)), 16);
    assert_eq!(suggested_max_guests(Some(350)), 8);
}

#[test]
fn memory_is_read_from_meminfo() {
    let text = "MemFree:  100 kB\nMemTotal:       16318428 kB\nMemTotal: 1 kB\n";
    assert_eq!(meminfo_total_mb(text), Some(15935));
    assert_eq!(meminfo_total_mb("MemTotal:\n"), None);
    assert_eq!(meminfo_total_mb("nothing here"), None);
    assert_eq!(meminfo_total_mb("MemTotal: lots kB"), None);
}

#[test]
fn stun_files_skip_comments_and_blanks() {
    let got = parse_stun_file("stun.a:3478 # first\n\n  # only comment\n  stun.b:19302  \r\nstun.c:1");
    assert_eq!(got, vec!["stun.a:3478", "stun.b:19302", "stun.c:1"]);
    assert!(parse_stun_file("").is_empty());
}

#[test]
fn explicit_servers_beat_the_file() {
    let mut s = StunConfig::default();
    assert_eq!(s.file, "stun_servers.txt");
    assert_eq!(s.file_to_read().as_deref(), Some("stun_servers.txt"));
    assert_eq!(s.resolve(Some("x:1\n")), vec!["x:1"]);
    assert!(s.resolve(None).is_empty());
    s.servers = vec!["y:2".to_string()];
    assert_eq!(s.file_to_read(), None);
    assert_eq!(s.resolve(Some("x:1\n")), vec!["y:2"]);
}

#[test]
fn sudo_owner_needs_two_numbers() {
    assert_eq!(restore_owner_after_sudo(Some("1000"), Some("1000")), Some((1000, 1000)));
    assert_eq!(restore_owner_after_sudo(Some("1000"), None), None);
    assert_eq!(restore_owner_after_sudo(Some("x"), Some("1")), None);
    assert_eq!(restore_owner_after_sudo(Some("4294967296"), Some("1")), None);
}

#[test]
fn only_block_needs_blocking() {
    assert!(Ipv6Mode::Block.needs_block());
    assert!(!Ipv6Mode::Allow.needs_block());
}

#[test]
fn the_first_coordinator_is_the_one_asked() {
    let mut c = Config::default(None);
    assert_eq!(c.first_coordinator().ok().as_deref(), Some("https://bemyvpn.net"));
    c.coordinators = vec!["https://a".to_string(), "https://b".to_string()];
    assert_eq!(c.first_coordinator().ok().as_deref(), Some("https://a"));
    c.coordinators.clear();
    match c.first_coordinator() {
        Err(bemyvpn::error::Error::Config(m)) => assert!(m.contains("Не задан адрес сервера")),
        other => panic!("{other:?}"),
    }
}
