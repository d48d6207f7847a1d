//! The desktop guest: failure texts, candidate budgets, the quick-start
//! order, utun framing, routing plans and the parsers of system output.

use bemyvpn::config::Ipv6Mode;
use bemyvpn::desktop::{
    after_attempt, budget, classify, first_candidate, nobody_reached, route_failed_state, tun_failed_state,
    tunnel_end_state, utun_af_header, utun_frame, utun_read_result, utun_unframe, utun_write_plan, utun_write_result, Attempt, UtunWrite,
    CandidateStep, FdRead, FdWrite, IoKind, State, TunError, TunFail, UtunRead, LAST_CHANCE_MS, QUICK_MAX,
    TRY_NEXT_AFTER_MS,
};
use bemyvpn::rank::{rank_candidates, HostCard};
use bemyvpn::routes::{
    command_outcome, ipv6_policy_outcome, linux_host_pin, linux_recovery, linux_split, macos_dns_crumb, macos_set_dns,
    v6_global_source, windows_split, Command, GuardPlatform, RouteGuard, IPV4_HALVES, IPV4_HALVES_WIN, IPV6_HALVES, IPV6_NOT_CLOSED,
    NO_GATEWAY, ROUTES_FAILED,
};
use bemyvpn::sysout::{
    adapter_index_windows, current_dns, default_gateway_windows, default_route_linux, default_route_macos,
    dns_service_for_dev,
};

use bemyvpn::routes::macos_recovery;

const BLAMES_RIGHTS: [&str; 4] = ["админ", "пароль", "sudo", "root"];

fn words(c: &Command) -> Vec<String> {
    let mut v = vec![c.program.clone()];
    v.extend(c.args.iter().cloned());
    v
}

#[test]
fn the_password_advice_belongs_only_to_a_rights_failure() {
    for f in TunFail::ALL {
        let text = f.human();
        assert!(!text.is_empty(), "{f:?} has no words for a person");
        let blames = BLAMES_RIGHTS.iter().find(|w| text.contains(**w));
        assert_eq!(blames.is_some(), f == TunFail::NoRights, "{f:?} is explained by rights: {text}");
    }
    let rights = TunFail::NoRights.human();
    assert!(rights.contains("админ") && rights.contains("пароль"), "«{rights}»");
    for (i, a) in TunFail::ALL.iter().enumerate() {
        for b in &TunFail::ALL[i + 1..] {
            assert_ne!(a.human(), b.human(), "{a:?} and {b:?} are explained alike");
        }
    }
}

#[test]
fn a_failed_route_command_does_not_blame_rights_we_already_have() {
    let text = ROUTES_FAILED;
    for w in BLAMES_RIGHTS {
        assert!(!text.contains(w), "routing is explained by the word «{w}»: «{text}»");
    }
}

#[test]
fn only_a_permission_error_is_called_a_permission_error() {
    assert_eq!(classify(TunError::Io(IoKind::PermissionDenied)), TunFail::NoRights);
    assert_eq!(classify(TunError::Io(IoKind::NotFound)), TunFail::NoDevice);
    assert_eq!(classify(TunError::Io(IoKind::Other)), TunFail::Unknown);
    assert_eq!(classify(TunError::Other), TunFail::Unknown);
    assert_eq!(classify(TunError::LibLoading), TunFail::DriverLoad);
}

#[test]
fn lib_utun_framing_roundtrip() {
    let ip4 = [0x45u8, 0x00, 0x00, 0x28, 0xDE, 0xAD];
    assert_eq!(utun_af_header(&ip4), [0, 0, 0, 2]);
    let ip6 = [0x60u8, 0x00, 0x00, 0x00];
    assert_eq!(utun_af_header(&ip6), [0, 0, 0, 30]);
    let mut framed = utun_af_header(&ip4).to_vec();
    framed.extend_from_slice(&ip4);
    assert_eq!(&framed[4..], &ip4, "taking off the four-byte header gives the packet back");
    assert_eq!(utun_af_header(&[]), [0, 0, 0, 2]);
}

#[test]
fn utun_frame_and_unframe_round_trip() {
    let ip6 = [0x60u8, 1, 2, 3, 4, 5];
    let f = utun_frame(&ip6);
    assert_eq!(f, vec![0, 0, 0, 30, 0x60, 1, 2, 3, 4, 5]);
    assert_eq!(utun_unframe(&f), UtunRead::Packet(ip6.to_vec()));
    assert_eq!(utun_unframe(&[]), UtunRead::Eof);
    assert_eq!(utun_unframe(&[0, 0, 0, 2]), UtunRead::Skip);
    assert_eq!(utun_unframe(&[0, 0]), UtunRead::Skip);
}

#[test]
fn a_frame_shorter_than_its_header_is_no_end_of_stream() {
    assert_eq!(utun_read_result(-1), FdRead::OsError);
    assert_eq!(utun_read_result(0), FdRead::Eof);
    assert_eq!(utun_read_result(3), FdRead::Truncated);
    assert_eq!(utun_read_result(4), FdRead::Bytes(0));
    assert_eq!(utun_read_result(64), FdRead::Bytes(60));
    assert_eq!(utun_write_result(-1), FdWrite::OsError);
    assert_eq!(utun_write_result(0), FdWrite::WriteZero);
    assert_eq!(utun_write_result(44), FdWrite::Bytes(40));
}

#[test]
fn last_candidate_gets_the_full_budget_and_the_others_a_short_leash() {
    assert_eq!(budget(0, 1), LAST_CHANCE_MS);
    for i in 0..4 {
        assert_eq!(budget(i, 5), TRY_NEXT_AFTER_MS, "candidate {i} of 5");
    }
    assert_eq!(budget(4, 5), LAST_CHANCE_MS);
    assert!(LAST_CHANCE_MS >= 12_000);
    assert!(TRY_NEXT_AFTER_MS < LAST_CHANCE_MS);
}

#[test]
fn the_candidate_loop_moves_on_until_the_last() {
    assert_eq!(first_candidate(0), CandidateStep::GiveUp);
    assert_eq!(first_candidate(1), CandidateStep::Try { i: 0, budget_ms: LAST_CHANCE_MS });
    assert_eq!(first_candidate(3), CandidateStep::Try { i: 0, budget_ms: TRY_NEXT_AFTER_MS });
    assert_eq!(after_attempt(0, 3, Attempt::Failed), CandidateStep::Try { i: 1, budget_ms: TRY_NEXT_AFTER_MS });
    assert_eq!(after_attempt(1, 3, Attempt::Failed), CandidateStep::Try { i: 2, budget_ms: LAST_CHANCE_MS });
    assert_eq!(after_attempt(2, 3, Attempt::Failed), CandidateStep::GiveUp);
    assert_eq!(after_attempt(0, 3, Attempt::Established), CandidateStep::RunTunnel);
    assert_eq!(after_attempt(1, 3, Attempt::Stopped), CandidateStep::Off);
}

#[test]
fn session_states_say_what_happened() {
    assert_eq!(nobody_reached(), State::Failed("не удалось подключиться".to_string()));
    assert_eq!(tunnel_end_state(true), State::HostLeft);
    assert_eq!(tunnel_end_state(false), State::Off);
    assert_eq!(tun_failed_state(TunFail::NoDevice), State::Failed(format!("TUN: {}", TunFail::NoDevice.human())));
    assert_eq!(route_failed_state(ROUTES_FAILED), State::Failed(format!("маршрут: {ROUTES_FAILED}")));
}

fn host(id: &str, cc: &str, guests: u32, max: u32) -> HostCard {
    HostCard {
        id: id.to_string(),
        country: if cc.is_empty() { None } else { Some(cc.to_string()) },
        online: true,
        has_password: false,
        guests,
        max_guests: max,
    }
}

fn ids(v: &[HostCard]) -> Vec<String> {
    v.iter().map(|h| h.id.clone()).collect()
}

#[test]
fn quick_start_prefers_a_foreign_country_and_then_free_room() {
    let hosts = vec![host("SVOY", "RU", 0, 100), host("TESNO", "NL", 7, 8), host("PROSTOR", "DE", 1, 50)];
    let order = ids(&rank_candidates(&hosts, Some("RU"), ""));
    assert_eq!(order, ["PROSTOR", "TESNO", "SVOY"], "one's own country comes last");
    let order = ids(&rank_candidates(&hosts, None, ""));
    assert_eq!(order, ["SVOY", "PROSTOR", "TESNO"]);
}

#[test]
fn quick_start_skips_the_useless_and_ones_own_host() {
    let mut offline = host("OFF", "NL", 0, 8);
    offline.online = false;
    let mut locked = host("LOCK", "NL", 0, 8);
    locked.has_password = true;
    let hosts = vec![offline, locked, host("FULL", "NL", 8, 8), host("MOY", "NL", 0, 8), host("OK", "NL", 0, 8)];
    assert_eq!(ids(&rank_candidates(&hosts, Some("RU"), "MOY")), ["OK"]);
}

#[test]
fn the_queue_never_grows_past_a_handful() {
    let hosts: Vec<HostCard> = (0..100).map(|i| host(&format!("H{i}"), "NL", 0, 8)).collect();
    assert_eq!(rank_candidates(&hosts, Some("RU"), "").len(), QUICK_MAX);
    assert_eq!(budget(QUICK_MAX - 1, QUICK_MAX), LAST_CHANCE_MS);
}

#[test]
fn equal_hosts_keep_their_catalog_order() {
    let hosts = vec![host("A", "NL", 1, 8), host("B", "DE", 1, 8), host("C", "", 0, 0)];
    assert_eq!(ids(&rank_candidates(&hosts, Some("RU"), "")), ["A", "B"]);
}

#[test]
fn the_hosts_left_out_rank_no_higher_than_the_last_taken() {
    let hosts: Vec<HostCard> = (0..8u32)
        .map(|i| host(&format!("H{i}"), if i % 2 == 0 { "RU" } else { "DE" }, 0, 10 + i))
        .collect();
    let order = ids(&rank_candidates(&hosts, Some("RU"), ""));
    assert_eq!(order.len(), QUICK_MAX);
    // Abroad first (the odd ones, most room first), then at home.
    assert_eq!(&order[..4], ["H7", "H5", "H3", "H1"]);
    let mut seen = order.clone();
    seen.sort();
    seen.dedup();
    assert_eq!(seen.len(), order.len(), "a host was offered twice");
    // The ones left out are the home hosts with the least room.
    for left in ["H0", "H2", "H4", "H6"].iter().filter(|h| !order.contains(&h.to_string())) {
        let room = left[1..].parse::<u32>().unwrap() + 10;
        assert!(room <= 16, "{left} with {room} places was left out before a host with fewer");
    }
}

#[test]
fn the_halves_are_written_once() {
    assert_eq!(IPV4_HALVES, ["0.0.0.0/1", "128.0.0.0/1"]);
    assert_eq!(IPV6_HALVES, ["::/1", "8000::/1"]);
    assert!(NO_GATEWAY.contains("Не видно выхода в интернет"));
}

#[test]
fn routing_commands_are_spelled_out() {
    assert_eq!(
        words(&linux_host_pin("203.0.113.5", "192.168.1.1", "wlan0")),
        ["ip", "route", "add", "203.0.113.5/32", "via", "192.168.1.1", "dev", "wlan0"]
    );
    let s = linux_split("bmv0");
    assert_eq!(words(&s[0]), ["ip", "route", "add", "0.0.0.0/1", "dev", "bmv0"]);
    assert_eq!(words(&s[1]), ["ip", "route", "add", "128.0.0.0/1", "dev", "bmv0"]);
    let w = windows_split("10.8.0.2", "17");
    assert_eq!(words(&w[0]), ["route", "add", "0.0.0.0", "mask", "128.0.0.0", "10.8.0.2", "metric", "1", "if", "17"]);
    assert_eq!(
        words(&macos_set_dns("Wi-Fi", &[])),
        ["networksetup", "-setdnsservers", "Wi-Fi", "empty"]
    );
    assert_eq!(
        words(&macos_set_dns("Wi-Fi", &["1.1.1.1".to_string(), "8.8.8.8".to_string()])),
        ["networksetup", "-setdnsservers", "Wi-Fi", "1.1.1.1", "8.8.8.8"]
    );
    assert_eq!(macos_dns_crumb("Wi-Fi", &["1.1.1.1".to_string()]), "Wi-Fi\n1.1.1.1");
}

#[test]
fn teardown_lifts_the_ipv6_block_only_where_setup_put_it() {
    let g = RouteGuard {
        host_ip: "203.0.113.5".to_string(),
        ipv6: Ipv6Mode::Block,
        platform: GuardPlatform::Linux { resolv: Some(b"nameserver 1.1.1.1\n".to_vec()) },
    };
    let t: Vec<Vec<String>> = g.teardown().iter().map(words).collect();
    assert_eq!(t.len(), 5);
    assert_eq!(t[0], ["ip", "-6", "route", "del", "::/1"]);
    assert_eq!(t[1], ["ip", "-6", "route", "del", "8000::/1"]);
    assert_eq!(t[2], ["ip", "route", "del", "0.0.0.0/1"]);
    assert_eq!(t[3], ["ip", "route", "del", "128.0.0.0/1"]);
    assert_eq!(t[4], ["ip", "route", "del", "203.0.113.5/32"]);
    assert_eq!(g.resolv_to_restore(), Some(b"nameserver 1.1.1.1\n".to_vec()));

    let g = RouteGuard {
        host_ip: "203.0.113.5".to_string(),
        ipv6: Ipv6Mode::Allow,
        platform: GuardPlatform::MacOs { dns_service: Some("Wi-Fi".to_string()), dns_old: vec![] },
    };
    let t: Vec<Vec<String>> = g.teardown().iter().map(words).collect();
    assert_eq!(t.len(), 4);
    assert_eq!(t[2], ["route", "-n", "delete", "-host", "203.0.113.5"]);
    assert_eq!(t[3], ["networksetup", "-setdnsservers", "Wi-Fi", "empty"]);
    assert_eq!(g.resolv_to_restore(), None);

    let g = RouteGuard {
        host_ip: "203.0.113.5".to_string(),
        ipv6: Ipv6Mode::Block,
        platform: GuardPlatform::Windows { tun_name: "bmv0".to_string(), tun_idx: "17".to_string() },
    };
    let t: Vec<Vec<String>> = g.teardown().iter().map(words).collect();
    assert_eq!(t.len(), 6);
    assert_eq!(t[0], ["netsh", "interface", "ipv6", "delete", "route", "::/1", "interface=17"]);
    assert_eq!(t[5], ["netsh", "interface", "ipv4", "set", "dnsservers", "name=bmv0", "dhcp"]);
}

#[test]
fn a_crash_crumb_is_repaired_without_erasing_the_resolver() {
    let r = linux_recovery(None);
    assert!(r.restore_resolv.is_none() && !r.unblock_ipv6 && !r.remove_crumb);
    let r = linux_recovery(Some(Vec::new()));
    assert!(r.restore_resolv.is_none() && r.unblock_ipv6 && r.remove_crumb);
    let r = linux_recovery(Some(b"nameserver 9.9.9.9\n".to_vec()));
    assert_eq!(r.restore_resolv, Some(b"nameserver 9.9.9.9\n".to_vec()));
}

#[test]
fn command_failures_name_no_rights_and_ipv6_only_matters_when_live() {
    assert_eq!(command_outcome(true, true), Ok(()));
    assert_eq!(command_outcome(false, false), Err(ROUTES_FAILED.to_string()));
    assert_eq!(command_outcome(true, false), Err(ROUTES_FAILED.to_string()));
    assert_eq!(ipv6_policy_outcome(true, true), Ok(()));
    assert_eq!(ipv6_policy_outcome(false, false), Ok(()));
    assert_eq!(ipv6_policy_outcome(false, true), Err(IPV6_NOT_CLOSED.to_string()));
}

#[test]
fn only_a_global_ipv6_source_counts() {
    assert!(!v6_global_source(0));
    assert!(!v6_global_source(1));
    assert!(!v6_global_source(0xfe80u128 << 112 | 1));
    assert!(v6_global_source(0x2001_4860_4860u128 << 80 | 0x8888));
}

#[test]
fn system_output_is_read_as_the_tools_print_it() {
    assert_eq!(
        default_route_linux("default via 192.168.1.1 dev wlan0 proto dhcp metric 600\n"),
        Some(("192.168.1.1".to_string(), "wlan0".to_string()))
    );
    assert_eq!(default_route_linux(""), None);
    assert_eq!(default_route_linux("default dev tun0 scope link"), None);

    let mac = "   route to: default\ndestination: default\n    gateway: 192.168.0.1\n  interface: en0\n      flags: <UP,GATEWAY,DONE>\n";
    assert_eq!(default_route_macos(mac), Some(("192.168.0.1".to_string(), "en0".to_string())));
    assert_eq!(default_route_macos("interface: en0\n"), None);

    let order = "An asterisk (*) denotes that a network service is disabled.\n(1) Wi-Fi\n(Hardware Port: Wi-Fi, Device: en0)\n\n(2) Thunderbolt Bridge\n(Hardware Port: Thunderbolt Bridge, Device: bridge0)\n";
    assert_eq!(dns_service_for_dev(order, "en0"), Some("Wi-Fi".to_string()));
    assert_eq!(dns_service_for_dev(order, "bridge0"), Some("Thunderbolt Bridge".to_string()));
    assert_eq!(dns_service_for_dev(order, "en7"), None);

    assert_eq!(current_dns("1.1.1.1\n8.8.8.8\n"), vec!["1.1.1.1".to_string(), "8.8.8.8".to_string()]);
    assert_eq!(current_dns("There aren't any DNS Servers set on Wi-Fi.\n"), Vec::<String>::new());
    assert_eq!(current_dns("2606:4700::1111\nnot an address\n"), vec!["2606:4700::1111".to_string()]);

    let route_print = "IPv4 Route Table\n===\nActive Routes:\nNetwork Destination        Netmask          Gateway       Interface  Metric\n          0.0.0.0          0.0.0.0      192.168.1.1    192.168.1.10     25\n";
    assert_eq!(default_gateway_windows(route_print), Some("192.168.1.1".to_string()));
    assert_eq!(default_gateway_windows("0.0.0.0 0.0.0.0 0.0.0.0 1.2.3.4 1\n"), None);

    let netsh = "\nIdx     Met         MTU          State                Name\n---  ----------  ----------  ------------  ---------------------------\n  1          75  4294967295  connected     Loopback Pseudo-Interface 1\n 17           5        1420  connected     bmv0\n";
    assert_eq!(adapter_index_windows(netsh, "bmv0"), Some("17".to_string()));
    assert_eq!(adapter_index_windows(netsh, "Loopback Pseudo-Interface 1"), Some("1".to_string()));
    assert_eq!(adapter_index_windows(netsh, "eth0"), None);
}

#[test]
fn a_macos_crumb_puts_the_dns_back_and_lifts_the_block() {
    let t: Vec<Vec<String>> = macos_recovery("Wi-Fi\n1.1.1.1\n\n8.8.8.8\n").iter().map(words).collect();
    assert_eq!(t.len(), 3);
    assert_eq!(t[0], ["networksetup", "-setdnsservers", "Wi-Fi", "1.1.1.1", "8.8.8.8"]);
    assert_eq!(t[1], ["route", "-n", "delete", "-inet6", "-net", "::/1"]);
    let t: Vec<Vec<String>> = macos_recovery("Wi-Fi\n").iter().map(words).collect();
    assert_eq!(t[0], ["networksetup", "-setdnsservers", "Wi-Fi", "empty"]);
    let t: Vec<Vec<String>> = macos_recovery("").iter().map(words).collect();
    assert_eq!(t.len(), 2, "no service named: only the IPv6 block is lifted");
}

/// An IPv6 address in its text form ("2001:db8::1", "::") as a number.
fn v6_value(a: &str) -> u128 {
    let (head, tail) = match a.split_once("::") {
        Some((h, t)) => (h, Some(t)),
        None => (a, None),
    };
    let groups = |s: &str| -> Vec<u16> {
        if s.is_empty() {
            Vec::new()
        } else {
            s.split(':').map(|g| u16::from_str_radix(g, 16).expect("a hex group")).collect()
        }
    };
    let h = groups(head);
    let t = tail.map(groups).unwrap_or_default();
    assert!(h.len() + t.len() <= 8, "{a}: too many groups");
    let mut all = h.clone();
    if tail.is_some() {
        all.extend(std::iter::repeat(0).take(8 - h.len() - t.len()));
    }
    all.extend(t);
    assert_eq!(all.len(), 8, "{a}: not eight groups");
    all.iter().fold(0u128, |acc, g| (acc << 16) | u128::from(*g))
}

fn v4_value(a: &str) -> u128 {
    let b: Vec<u8> = a.split('.').map(|p| p.parse().expect("an octet")).collect();
    assert_eq!(b.len(), 4, "{a}: not four octets");
    u128::from(u32::from_be_bytes([b[0], b[1], b[2], b[3]]))
}

/// A prefix as the span [first, last] of the addresses it covers.
fn span(p: &str, first: u128, len: u32, bits: u32) -> (u128, u128) {
    assert!((1..=bits).contains(&len), "{p}: the prefix length must be 1..={bits}");
    let size = 1u128 << (bits - len);
    assert_eq!(first % size, 0, "{p}: the address is not aligned to its prefix");
    (first, first + (size - 1))
}

fn tiles_everything(mut spans: Vec<(u128, u128)>, bits: u32) -> Vec<(u128, u128)> {
    spans.sort_unstable();
    assert_eq!(spans.first().expect("no halves").0, 0, "the start of the space is open");
    for w in spans.windows(2) {
        assert_eq!(w[1].0, w[0].1 + 1, "a gap or an overlap between {:?} and {:?}", w[0], w[1]);
    }
    assert_eq!(spans.last().expect("no halves").1, u128::MAX >> (128 - bits), "the end of the space is open");
    spans
}

#[test]
fn the_two_halves_tile_the_entire_ipv6_space() {
    let spans = tiles_everything(
        IPV6_HALVES
            .iter()
            .map(|p| {
                let (a, l) = p.split_once('/').expect("a prefix length");
                span(p, v6_value(a), l.parse().expect("a number"), 128)
            })
            .collect(),
        128,
    );
    for a in ["2001:4860:4860::8888", "2606:4700::1111", "::1", "fe80::1", "fc00::1", "ff02::1"] {
        let addr = v6_value(a);
        let hits = spans.iter().filter(|(lo, hi)| (*lo..=*hi).contains(&addr)).count();
        assert_eq!(hits, 1, "{a} is not closed by exactly one half");
    }
}

#[test]
fn both_spellings_of_the_ipv4_halves_agree() {
    let prefixes = tiles_everything(
        IPV4_HALVES
            .iter()
            .map(|p| {
                let (a, l) = p.split_once('/').expect("a prefix length");
                span(p, v4_value(a), l.parse().expect("a number"), 32)
            })
            .collect(),
        32,
    );
    let windows = tiles_everything(
        IPV4_HALVES_WIN
            .iter()
            .map(|(net, mask)| {
                let m = v4_value(mask) as u32;
                assert_eq!(m.leading_ones() + m.trailing_zeros(), 32, "{mask}: the mask has holes");
                span(net, v4_value(net), m.leading_ones(), 32)
            })
            .collect(),
        32,
    );
    assert_eq!(prefixes, windows, "the two spellings of the halves differ");
}

#[test]
fn an_empty_packet_is_not_written_to_utun() {
    assert_eq!(utun_write_plan(&[]), UtunWrite::Nothing);
    assert_eq!(utun_write_plan(&[0x45, 0, 0, 20]), UtunWrite::Framed([0, 0, 0, 2]));
    assert_eq!(utun_write_plan(&[0x60, 0, 0, 0]), UtunWrite::Framed([0, 0, 0, 30]));
}
