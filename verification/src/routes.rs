//! Routing all of a desktop guest's traffic into the tunnel, and rolling it
//! back. The tunnel overrides the default route with two halves of the
//! address space (each longer than the provider's `/0`, so it wins without
//! being deleted), pins the host's own address to the real gateway (or the
//! encrypted packets would loop), points DNS into the tunnel, and blocks IPv6
//! (which the tunnel does not carry) unless told otherwise.
//!
//! The system commands are planned here, per platform; the shell runs them.
//! Teardown undoes exactly what setup did.

use vstd::prelude::*;
use vstd::string::*;
use crate::config::Ipv6Mode;
use crate::stun::string_views;
use crate::text::lines_of;

verus! {

/// A system command: the program and its arguments.
#[derive(Debug)]
pub struct Command {
    pub program: String,
    pub args: Vec<String>,
}

/// The words of a command: program, then arguments.
pub open spec fn cmd_view(c: Command) -> Seq<Seq<char>> {
    seq![c.program@] + string_views(c.args@)
}

/// The words of a list of commands.
pub open spec fn cmds_view(v: Seq<Command>) -> Seq<Seq<Seq<char>>> {
    v.map_values(|c: Command| cmd_view(c))
}

impl Command {
    /// A command without arguments yet.
    pub fn new(program: &str) -> (c: Command)
        ensures
            cmd_view(c) == seq![program@],
    {
        let c = Command { program: String::from_str(program), args: Vec::new() };
        assert(cmd_view(c) =~= seq![program@]);
        c
    }

    /// The command with one more argument.
    pub fn arg(self, a: &str) -> (c: Command)
        ensures
            cmd_view(c) == cmd_view(self).push(a@),
    {
        self.arg_string(String::from_str(a))
    }

    /// The command with one more argument.
    pub fn arg_string(self, a: String) -> (c: Command)
        ensures
            cmd_view(c) == cmd_view(self).push(a@),
    {
        let mut c = self;
        let ghost before = c.args@;
        c.args.push(a);
        assert(string_views(c.args@) =~= string_views(before).push(a@));
        assert(cmd_view(c) =~= cmd_view(self).push(a@));
        c
    }
}

/// `a` followed by `b`, as one string.
pub fn concat(a: &str, b: &str) -> (s: String)
    ensures
        s@ == a@ + b@,
{
    let mut s = String::from_str(a);
    s.append(b);
    s
}

/// The lower and upper half of the IPv4 space; together they cover it all.
pub const V4_HALF_LOW: &'static str = "0.0.0.0/1";
pub const V4_HALF_HIGH: &'static str = "128.0.0.0/1";
/// The same halves as network and mask, as Windows' `route` writes them.
pub const WIN_V4_LOW_NET: &'static str = "0.0.0.0";
pub const WIN_V4_HIGH_NET: &'static str = "128.0.0.0";
pub const WIN_V4_HALF_MASK: &'static str = "128.0.0.0";
/// The two halves of the IPv6 space: `::/1` holds all global addresses,
/// `8000::/1` link-local, unique-local and multicast.
pub const V6_HALF_LOW: &'static str = "::/1";
pub const V6_HALF_HIGH: &'static str = "8000::/1";

/// The IPv4 halves, in prefix notation.
pub const IPV4_HALVES: [&'static str; 2] = [V4_HALF_LOW, V4_HALF_HIGH];
/// The IPv4 halves as (network, mask).
pub const IPV4_HALVES_WIN: [(&'static str, &'static str); 2] = [
    (WIN_V4_LOW_NET, WIN_V4_HALF_MASK),
    (WIN_V4_HIGH_NET, WIN_V4_HALF_MASK),
];
/// The IPv6 halves.
pub const IPV6_HALVES: [&'static str; 2] = [V6_HALF_LOW, V6_HALF_HIGH];

/// What the person reads when no default gateway is visible.
pub const NO_GATEWAY: &'static str = "Не видно выхода в интернет — проверьте подключение к сети.";

/// What the person reads when a routing command failed. Rights are not
/// blamed: the adapter exists, so they were there.
pub const ROUTES_FAILED: &'static str = "Не удалось направить трафик в туннель: система отклонила настройку маршрутов и причину не назвала. Попробуйте ещё раз.";

/// What the person reads when live IPv6 could not be blocked.
pub const IPV6_NOT_CLOSED: &'static str = "Не удалось закрыть IPv6 — через него ваш настоящий адрес утёк бы мимо туннеля. Попробуйте ещё раз; если IPv6 у вас единственный выход в сеть, разрешите его в bemyvpn.toml: [guest] ipv6 = \"allow\".";

/// The outcome of running one routing command: it must have run and
/// succeeded. The system's own complaint is not kept: its arguments name the
/// person's network.
pub fn command_outcome(ran: bool, succeeded: bool) -> (r: Result<(), String>)
    ensures
        r is Ok <==> (ran && succeeded),
        r matches Err(m) ==> m@ == ROUTES_FAILED@,
{
    if ran && succeeded {
        Ok(())
    } else {
        Err(String::from_str(ROUTES_FAILED))
    }
}

/// Whether blocking IPv6 failing must stop the connection: only when the
/// machine really has IPv6 (asked before blocking); without it nothing can
/// leak.
pub fn ipv6_policy_outcome(blocked: bool, live_ipv6: bool) -> (r: Result<(), String>)
    ensures
        r is Ok <==> (blocked || !live_ipv6),
        r matches Err(m) ==> m@ == IPV6_NOT_CLOSED@,
{
    if blocked || !live_ipv6 {
        Ok(())
    } else {
        Err(String::from_str(IPV6_NOT_CLOSED))
    }
}

/// Whether an IPv6 source address reaches the outside: not loopback, not
/// unspecified, not link-local (`fe80::/10`).
pub open spec fn spec_v6_global_source(a: u128) -> bool {
    !(a == 1 || a == 0 || (a >> 118u128) == 0x3fa)
}

/// Whether the machine's chosen IPv6 source address reaches the outside.
pub fn v6_global_source(a: u128) -> (b: bool)
    ensures
        b == spec_v6_global_source(a),
{
    !(a == 1 || a == 0 || (a >> 118u128) == 0x3fa)
}

// ── Linux ──

/// Linux: the host pinned to the real gateway.
pub open spec fn spec_linux_host_pin(host_ip: Seq<char>, gw: Seq<char>, dev: Seq<char>) -> Seq<Seq<char>> {
    seq!["ip"@, "route"@, "add"@, host_ip + "/32"@, "via"@, gw, "dev"@, dev]
}

/// The command of [`spec_linux_host_pin`].
pub fn linux_host_pin(host_ip: &str, gw: &str, dev: &str) -> (c: Command)
    ensures
        cmd_view(c) == spec_linux_host_pin(host_ip@, gw@, dev@),
{
    let c = Command::new("ip").arg("route").arg("add").arg_string(concat(host_ip, "/32")).arg("via").arg(gw).arg(
        "dev",
    ).arg(dev);
    assert(cmd_view(c) =~= seq!["ip"@, "route"@, "add"@, host_ip@ + "/32"@, "via"@, gw@, "dev"@, dev@]);
    c
}

/// Linux: both IPv4 halves into the tunnel.
pub open spec fn spec_linux_split(tun: Seq<char>) -> Seq<Seq<Seq<char>>> {
    seq![
        seq!["ip"@, "route"@, "add"@, V4_HALF_LOW@, "dev"@, tun],
        seq!["ip"@, "route"@, "add"@, V4_HALF_HIGH@, "dev"@, tun],
    ]
}

/// The commands of [`spec_linux_split`].
pub fn linux_split(tun: &str) -> (v: Vec<Command>)
    ensures
        cmds_view(v@) == spec_linux_split(tun@),
{
    let mut v: Vec<Command> = Vec::new();
    let a = Command::new("ip").arg("route").arg("add").arg(V4_HALF_LOW).arg("dev").arg(tun);
    let b = Command::new("ip").arg("route").arg("add").arg(V4_HALF_HIGH).arg("dev").arg(tun);
    v.push(a);
    v.push(b);
    assert(cmds_view(v@) =~= seq![cmd_view(a), cmd_view(b)]);
    assert(cmds_view(v@) =~~= seq![
        seq!["ip"@, "route"@, "add"@, V4_HALF_LOW@, "dev"@, tun@],
        seq!["ip"@, "route"@, "add"@, V4_HALF_HIGH@, "dev"@, tun@],
    ]);
    v
}

/// Linux: refuse IPv6 on both halves (`unreachable`: applications fall back
/// to IPv4 at once instead of timing out).
pub open spec fn spec_linux_ipv6_block() -> Seq<Seq<Seq<char>>> {
    seq![
        seq!["ip"@, "-6"@, "route"@, "add"@, "unreachable"@, V6_HALF_LOW@],
        seq!["ip"@, "-6"@, "route"@, "add"@, "unreachable"@, V6_HALF_HIGH@],
    ]
}

/// The commands of [`spec_linux_ipv6_block`].
pub fn linux_ipv6_block() -> (v: Vec<Command>)
    ensures
        cmds_view(v@) == spec_linux_ipv6_block(),
{
    let mut v: Vec<Command> = Vec::new();
    let a = Command::new("ip").arg("-6").arg("route").arg("add").arg("unreachable").arg(V6_HALF_LOW);
    let b = Command::new("ip").arg("-6").arg("route").arg("add").arg("unreachable").arg(V6_HALF_HIGH);
    v.push(a);
    v.push(b);
    assert(cmds_view(v@) =~= seq![cmd_view(a), cmd_view(b)]);
    assert(cmds_view(v@) =~~= seq![
        seq!["ip"@, "-6"@, "route"@, "add"@, "unreachable"@, V6_HALF_LOW@],
        seq!["ip"@, "-6"@, "route"@, "add"@, "unreachable"@, V6_HALF_HIGH@],
    ]);
    v
}

/// Linux: lift the IPv6 block (without `unreachable`, so that it goes for
/// sure).
pub open spec fn spec_linux_ipv6_unblock() -> Seq<Seq<Seq<char>>> {
    seq![
        seq!["ip"@, "-6"@, "route"@, "del"@, V6_HALF_LOW@],
        seq!["ip"@, "-6"@, "route"@, "del"@, V6_HALF_HIGH@],
    ]
}

/// The commands of [`spec_linux_ipv6_unblock`].
pub fn linux_ipv6_unblock() -> (v: Vec<Command>)
    ensures
        cmds_view(v@) == spec_linux_ipv6_unblock(),
{
    let mut v: Vec<Command> = Vec::new();
    let a = Command::new("ip").arg("-6").arg("route").arg("del").arg(V6_HALF_LOW);
    let b = Command::new("ip").arg("-6").arg("route").arg("del").arg(V6_HALF_HIGH);
    v.push(a);
    v.push(b);
    assert(cmds_view(v@) =~= seq![cmd_view(a), cmd_view(b)]);
    assert(cmds_view(v@) =~~= seq![
        seq!["ip"@, "-6"@, "route"@, "del"@, V6_HALF_LOW@],
        seq!["ip"@, "-6"@, "route"@, "del"@, V6_HALF_HIGH@],
    ]);
    v
}

/// The resolver configuration written while the tunnel is up.
pub const LINUX_TUNNEL_RESOLV: &'static str = "nameserver 8.8.8.8\n";

/// What to repair after a run that died without rolling back (the crumb it
/// left, if any): the resolver configuration (unless the crumb is empty: it
/// was unreadable then, and writing nothing would erase the real resolver),
/// and the IPv6 block, whose routes outlive the process.
#[derive(Debug)]
pub struct Recovery {
    pub restore_resolv: Option<Vec<u8>>,
    pub unblock_ipv6: bool,
    pub remove_crumb: bool,
}

/// Linux: the repair after a crash (see [`Recovery`]).
pub fn linux_recovery(crumb: Option<Vec<u8>>) -> (r: Recovery)
    ensures
        crumb is None ==> r.restore_resolv is None && !r.unblock_ipv6 && !r.remove_crumb,
        crumb matches Some(c) ==> r.unblock_ipv6 && r.remove_crumb && (if c@.len() > 0 {
            r.restore_resolv == Some(c)
        } else {
            r.restore_resolv is None
        }),
{
    match crumb {
        None => Recovery { restore_resolv: None, unblock_ipv6: false, remove_crumb: false },
        Some(c) => {
            let restore = if c.len() > 0 {
                Some(c)
            } else {
                None
            };
            Recovery { restore_resolv: restore, unblock_ipv6: true, remove_crumb: true }
        },
    }
}

// ── macOS ──

/// macOS: the host pinned to the real gateway.
pub open spec fn spec_macos_host_pin(host_ip: Seq<char>, gw: Seq<char>) -> Seq<Seq<char>> {
    seq!["route"@, "-n"@, "add"@, "-host"@, host_ip, gw]
}

/// The command of [`spec_macos_host_pin`].
pub fn macos_host_pin(host_ip: &str, gw: &str) -> (c: Command)
    ensures
        cmd_view(c) == spec_macos_host_pin(host_ip@, gw@),
{
    let c = Command::new("route").arg("-n").arg("add").arg("-host").arg(host_ip).arg(gw);
    assert(cmd_view(c) =~= seq!["route"@, "-n"@, "add"@, "-host"@, host_ip@, gw@]);
    c
}

/// macOS: both IPv4 halves into the `utun` interface.
pub open spec fn spec_macos_split(tun: Seq<char>) -> Seq<Seq<Seq<char>>> {
    seq![
        seq!["route"@, "-n"@, "add"@, "-net"@, V4_HALF_LOW@, "-interface"@, tun],
        seq!["route"@, "-n"@, "add"@, "-net"@, V4_HALF_HIGH@, "-interface"@, tun],
    ]
}

/// The commands of [`spec_macos_split`].
pub fn macos_split(tun: &str) -> (v: Vec<Command>)
    ensures
        cmds_view(v@) == spec_macos_split(tun@),
{
    let mut v: Vec<Command> = Vec::new();
    let a = Command::new("route").arg("-n").arg("add").arg("-net").arg(V4_HALF_LOW).arg("-interface").arg(tun);
    let b = Command::new("route").arg("-n").arg("add").arg("-net").arg(V4_HALF_HIGH).arg("-interface").arg(tun);
    v.push(a);
    v.push(b);
    assert(cmds_view(v@) =~= seq![cmd_view(a), cmd_view(b)]);
    assert(cmds_view(v@) =~~= seq![
        seq!["route"@, "-n"@, "add"@, "-net"@, V4_HALF_LOW@, "-interface"@, tun@],
        seq!["route"@, "-n"@, "add"@, "-net"@, V4_HALF_HIGH@, "-interface"@, tun@],
    ]);
    v
}

/// macOS: refuse IPv6 on both halves (`-reject`, via `::1`).
pub open spec fn spec_macos_ipv6_block() -> Seq<Seq<Seq<char>>> {
    seq![
        seq!["route"@, "-n"@, "add"@, "-inet6"@, "-net"@, V6_HALF_LOW@, "::1"@, "-reject"@],
        seq!["route"@, "-n"@, "add"@, "-inet6"@, "-net"@, V6_HALF_HIGH@, "::1"@, "-reject"@],
    ]
}

/// The commands of [`spec_macos_ipv6_block`].
pub fn macos_ipv6_block() -> (v: Vec<Command>)
    ensures
        cmds_view(v@) == spec_macos_ipv6_block(),
{
    let mut v: Vec<Command> = Vec::new();
    let a = Command::new("route").arg("-n").arg("add").arg("-inet6").arg("-net").arg(V6_HALF_LOW).arg("::1").arg("-reject");
    let b = Command::new("route").arg("-n").arg("add").arg("-inet6").arg("-net").arg(V6_HALF_HIGH).arg("::1").arg("-reject");
    v.push(a);
    v.push(b);
    assert(cmds_view(v@) =~= seq![cmd_view(a), cmd_view(b)]);
    assert(cmds_view(v@) =~~= seq![
        seq!["route"@, "-n"@, "add"@, "-inet6"@, "-net"@, V6_HALF_LOW@, "::1"@, "-reject"@],
        seq!["route"@, "-n"@, "add"@, "-inet6"@, "-net"@, V6_HALF_HIGH@, "::1"@, "-reject"@],
    ]);
    v
}

/// macOS: lift the IPv6 block.
pub open spec fn spec_macos_ipv6_unblock() -> Seq<Seq<Seq<char>>> {
    seq![
        seq!["route"@, "-n"@, "delete"@, "-inet6"@, "-net"@, V6_HALF_LOW@],
        seq!["route"@, "-n"@, "delete"@, "-inet6"@, "-net"@, V6_HALF_HIGH@],
    ]
}

/// The commands of [`spec_macos_ipv6_unblock`].
pub fn macos_ipv6_unblock() -> (v: Vec<Command>)
    ensures
        cmds_view(v@) == spec_macos_ipv6_unblock(),
{
    let mut v: Vec<Command> = Vec::new();
    let a = Command::new("route").arg("-n").arg("delete").arg("-inet6").arg("-net").arg(V6_HALF_LOW);
    let b = Command::new("route").arg("-n").arg("delete").arg("-inet6").arg("-net").arg(V6_HALF_HIGH);
    v.push(a);
    v.push(b);
    assert(cmds_view(v@) =~= seq![cmd_view(a), cmd_view(b)]);
    assert(cmds_view(v@) =~~= seq![
        seq!["route"@, "-n"@, "delete"@, "-inet6"@, "-net"@, V6_HALF_LOW@],
        seq!["route"@, "-n"@, "delete"@, "-inet6"@, "-net"@, V6_HALF_HIGH@],
    ]);
    v
}

/// macOS: set the DNS servers of a network service (`empty` for automatic).
pub fn macos_set_dns(service: &str, servers: &[String]) -> (c: Command)
    ensures
        cmd_view(c) == seq!["networksetup"@, "-setdnsservers"@, service@] + if servers@.len() == 0 {
            seq!["empty"@]
        } else {
            string_views(servers@)
        },
{
    let mut c = Command::new("networksetup").arg("-setdnsservers").arg(service);
    if servers.len() == 0 {
        c = c.arg("empty");
        assert(cmd_view(c) =~= seq!["networksetup"@, "-setdnsservers"@, service@] + seq!["empty"@]);
        return c;
    }
    let ghost head = cmd_view(c);
    let mut i: usize = 0;
    while i < servers.len()
        invariant
            i <= servers@.len(),
            cmd_view(c) == head + string_views(servers@).take(i as int),
        decreases servers@.len() - i,
    {
        c = c.arg_string(servers[i].clone());
        i = i + 1;
        assert(cmd_view(c) =~= head + string_views(servers@).take(i as int));
    }
    assert(string_views(servers@).take(servers@.len() as int) =~= string_views(servers@));
    c
}

/// macOS: the crumb saved before DNS is changed: the service, then the old
/// servers, one per line.
pub fn macos_dns_crumb(service: &str, old: &[String]) -> (s: String)
    ensures
        s@ == service@ + joined_lines(string_views(old@)),
{
    let mut s = String::from_str(service);
    let mut i: usize = 0;
    while i < old.len()
        invariant
            i <= old@.len(),
            s@ == service@ + joined_lines(string_views(old@).take(i as int)),
        decreases old@.len() - i,
    {
        s.append("\n");
        s.append(old[i].as_str());
        i = i + 1;
        assert(string_views(old@).take(i as int).drop_last() =~= string_views(old@).take(i - 1));
    }
    assert(string_views(old@).take(old@.len() as int) =~= string_views(old@));
    s
}

/// Each line preceded by a line break.
pub open spec fn joined_lines(ls: Seq<Seq<char>>) -> Seq<char>
    decreases ls.len(),
{
    if ls.len() == 0 {
        Seq::empty()
    } else {
        joined_lines(ls.drop_last()) + "\n"@ + ls.last()
    }
}

/// The non-empty lines among `ls`.
pub open spec fn non_empty_lines(ls: Seq<Seq<char>>) -> Seq<Seq<char>> {
    ls.filter(|l: Seq<char>| l.len() > 0)
}

/// macOS: the repair after a run that died without rolling back, from the
/// crumb it left (the service on the first line, then its old servers): the
/// service's DNS servers put back (automatic if it had none) when a service
/// is named, then the IPv6 block lifted (its routes outlive the process).
pub open spec fn spec_macos_recovery(crumb: Seq<char>) -> Seq<Seq<Seq<char>>> {
    let ls = lines_of(crumb);
    (if ls.len() > 0 && ls[0].len() > 0 {
        let old = non_empty_lines(ls.skip(1));
        seq![
            seq!["networksetup"@, "-setdnsservers"@, ls[0]] + if old.len() == 0 {
                seq!["empty"@]
            } else {
                old
            },
        ]
    } else {
        seq![]
    }) + seq![
        seq!["route"@, "-n"@, "delete"@, "-inet6"@, "-net"@, V6_HALF_LOW@],
        seq!["route"@, "-n"@, "delete"@, "-inet6"@, "-net"@, V6_HALF_HIGH@],
    ]
}

/// macOS: the commands of the repair after a crash (see
/// [`spec_macos_recovery`]); the crumb is removed afterwards.
pub fn macos_recovery(crumb: &str) -> (v: Vec<Command>)
    ensures
        cmds_view(v@) == spec_macos_recovery(crumb@),
{
    let cs = crate::text::chars_of(crumb);
    let ls = crate::text::lines(cs.as_slice());
    let ghost lv = crate::text::views(ls@);
    let mut v: Vec<Command> = Vec::new();
    if ls.len() > 0 && ls[0].len() > 0 {
        let mut old: Vec<String> = Vec::new();
        let mut i: usize = 1;
        assert(lv.skip(1).take(0) =~= Seq::<Seq<char>>::empty());
        while i < ls.len()
            invariant
                1 <= i <= ls@.len(),
                lv == crate::text::views(ls@),
                string_views(old@) == non_empty_lines(lv.skip(1).take(i - 1)),
            decreases ls@.len() - i,
        {
            proof {
                assert(lv.skip(1).take(i as int).drop_last() =~= lv.skip(1).take(i - 1));
                assert(lv.skip(1).take(i as int).last() == ls@[i as int]@);
                reveal(Seq::filter);
            }
            if ls[i].len() > 0 {
                let ghost before = string_views(old@);
                old.push(crate::text::string_of(ls[i].as_slice()));
                assert(string_views(old@) =~= before.push(ls@[i as int]@));
            }
            i = i + 1;
        }
        assert(lv.skip(1).take(i - 1) =~= lv.skip(1));
        let svc = crate::text::string_of(ls[0].as_slice());
        let c = macos_set_dns(svc.as_str(), old.as_slice());
        v.push(c);
        assert(cmds_view(v@) =~= seq![cmd_view(c)]);
    }
    append_cmds(&mut v, macos_ipv6_unblock());
    assert(cmds_view(v@) =~~= spec_macos_recovery(crumb@));
    v
}

// ── Windows ──

/// Windows: the host pinned to the real gateway.
pub open spec fn spec_windows_host_pin(host_ip: Seq<char>, gw: Seq<char>) -> Seq<Seq<char>> {
    seq!["route"@, "add"@, host_ip, "mask"@, "255.255.255.255"@, gw, "metric"@, "1"@]
}

/// The command of [`spec_windows_host_pin`].
pub fn windows_host_pin(host_ip: &str, gw: &str) -> (c: Command)
    ensures
        cmd_view(c) == spec_windows_host_pin(host_ip@, gw@),
{
    let c = Command::new("route").arg("add").arg(host_ip).arg("mask").arg("255.255.255.255").arg(gw).arg("metric").arg("1");
    assert(cmd_view(c) =~= seq!["route"@, "add"@, host_ip@, "mask"@, "255.255.255.255"@, gw@, "metric"@, "1"@]);
    c
}

/// Windows: the tunnel interface first in line (metric 1), or the physical
/// adapter's routes would win.
pub fn windows_tun_metric(tun_idx: &str) -> (c: Command)
    ensures
        cmd_view(c) == seq!["netsh"@, "interface"@, "ipv4"@, "set"@, "interface"@, tun_idx@, "metric=1"@],
{
    let c = Command::new("netsh").arg("interface").arg("ipv4").arg("set").arg("interface").arg(tun_idx).arg("metric=1");
    assert(cmd_view(c) =~= seq!["netsh"@, "interface"@, "ipv4"@, "set"@, "interface"@, tun_idx@, "metric=1"@]);
    c
}

/// Windows: both IPv4 halves through the tunnel adapter.
pub open spec fn spec_windows_split(tun_ip: Seq<char>, tun_idx: Seq<char>) -> Seq<Seq<Seq<char>>> {
    seq![
        seq!["route"@, "add"@, WIN_V4_LOW_NET@, "mask"@, WIN_V4_HALF_MASK@, tun_ip, "metric"@, "1"@, "if"@, tun_idx],
        seq!["route"@, "add"@, WIN_V4_HIGH_NET@, "mask"@, WIN_V4_HALF_MASK@, tun_ip, "metric"@, "1"@, "if"@, tun_idx],
    ]
}

/// The commands of [`spec_windows_split`].
pub fn windows_split(tun_ip: &str, tun_idx: &str) -> (v: Vec<Command>)
    ensures
        cmds_view(v@) == spec_windows_split(tun_ip@, tun_idx@),
{
    let mut v: Vec<Command> = Vec::new();
    let a = Command::new("route").arg("add").arg(WIN_V4_LOW_NET).arg("mask").arg(WIN_V4_HALF_MASK).arg(tun_ip).arg("metric").arg("1").arg("if").arg(tun_idx);
    let b = Command::new("route").arg("add").arg(WIN_V4_HIGH_NET).arg("mask").arg(WIN_V4_HALF_MASK).arg(tun_ip).arg("metric").arg("1").arg("if").arg(tun_idx);
    v.push(a);
    v.push(b);
    assert(cmds_view(v@) =~= seq![cmd_view(a), cmd_view(b)]);
    assert(cmds_view(v@) =~~= seq![
        seq!["route"@, "add"@, WIN_V4_LOW_NET@, "mask"@, WIN_V4_HALF_MASK@, tun_ip@, "metric"@, "1"@, "if"@, tun_idx@],
        seq!["route"@, "add"@, WIN_V4_HIGH_NET@, "mask"@, WIN_V4_HALF_MASK@, tun_ip@, "metric"@, "1"@, "if"@, tun_idx@],
    ]);
    v
}

/// Windows: DNS of the tunnel adapter to 8.8.8.8.
pub fn windows_set_dns(tun: &str) -> (c: Command)
    ensures
        cmd_view(c) == seq!["netsh"@, "interface"@, "ipv4"@, "set"@, "dnsservers"@, "name="@ + tun@, "static"@, "8.8.8.8"@, "primary"@],
{
    let c = Command::new("netsh").arg("interface").arg("ipv4").arg("set").arg("dnsservers").arg_string(concat("name=", tun)).arg("static").arg("8.8.8.8").arg("primary");
    assert(cmd_view(c) =~= seq!["netsh"@, "interface"@, "ipv4"@, "set"@, "dnsservers"@, "name="@ + tun@, "static"@, "8.8.8.8"@, "primary"@]);
    c
}

/// Windows: IPv6 turned into the tunnel (netsh has no refusing routes; the
/// tunnel drops it). `store=active`, or the route would survive a reboot.
pub open spec fn spec_windows_ipv6_block(tun_idx: Seq<char>) -> Seq<Seq<Seq<char>>> {
    seq![
        seq!["netsh"@, "interface"@, "ipv6"@, "add"@, "route"@, V6_HALF_LOW@, "interface="@ + tun_idx, "store=active"@],
        seq!["netsh"@, "interface"@, "ipv6"@, "add"@, "route"@, V6_HALF_HIGH@, "interface="@ + tun_idx, "store=active"@],
    ]
}

/// The commands of [`spec_windows_ipv6_block`].
pub fn windows_ipv6_block(tun_idx: &str) -> (v: Vec<Command>)
    ensures
        cmds_view(v@) == spec_windows_ipv6_block(tun_idx@),
{
    let mut v: Vec<Command> = Vec::new();
    let a = Command::new("netsh").arg("interface").arg("ipv6").arg("add").arg("route").arg(V6_HALF_LOW).arg_string(concat("interface=", tun_idx)).arg("store=active");
    let b = Command::new("netsh").arg("interface").arg("ipv6").arg("add").arg("route").arg(V6_HALF_HIGH).arg_string(concat("interface=", tun_idx)).arg("store=active");
    v.push(a);
    v.push(b);
    assert(cmds_view(v@) =~= seq![cmd_view(a), cmd_view(b)]);
    assert(cmds_view(v@) =~~= seq![
        seq!["netsh"@, "interface"@, "ipv6"@, "add"@, "route"@, V6_HALF_LOW@, "interface="@ + tun_idx@, "store=active"@],
        seq!["netsh"@, "interface"@, "ipv6"@, "add"@, "route"@, V6_HALF_HIGH@, "interface="@ + tun_idx@, "store=active"@],
    ]);
    v
}

/// Windows: lift the IPv6 redirection.
pub open spec fn spec_windows_ipv6_unblock(tun_idx: Seq<char>) -> Seq<Seq<Seq<char>>> {
    seq![
        seq!["netsh"@, "interface"@, "ipv6"@, "delete"@, "route"@, V6_HALF_LOW@, "interface="@ + tun_idx],
        seq!["netsh"@, "interface"@, "ipv6"@, "delete"@, "route"@, V6_HALF_HIGH@, "interface="@ + tun_idx],
    ]
}

/// The commands of [`spec_windows_ipv6_unblock`].
pub fn windows_ipv6_unblock(tun_idx: &str) -> (v: Vec<Command>)
    ensures
        cmds_view(v@) == spec_windows_ipv6_unblock(tun_idx@),
{
    let mut v: Vec<Command> = Vec::new();
    let a = Command::new("netsh").arg("interface").arg("ipv6").arg("delete").arg("route").arg(V6_HALF_LOW).arg_string(concat("interface=", tun_idx));
    let b = Command::new("netsh").arg("interface").arg("ipv6").arg("delete").arg("route").arg(V6_HALF_HIGH).arg_string(concat("interface=", tun_idx));
    v.push(a);
    v.push(b);
    assert(cmds_view(v@) =~= seq![cmd_view(a), cmd_view(b)]);
    assert(cmds_view(v@) =~~= seq![
        seq!["netsh"@, "interface"@, "ipv6"@, "delete"@, "route"@, V6_HALF_LOW@, "interface="@ + tun_idx@],
        seq!["netsh"@, "interface"@, "ipv6"@, "delete"@, "route"@, V6_HALF_HIGH@, "interface="@ + tun_idx@],
    ]);
    v
}

/// Windows: let the program's incoming UDP through the firewall (punch
/// packets come from an address not yet written to). The rule is recreated,
/// not duplicated.
pub fn windows_firewall_allow(exe: &str) -> (v: Vec<Command>)
    ensures
        cmds_view(v@) == seq![
            seq!["netsh"@, "advfirewall"@, "firewall"@, "delete"@, "rule"@, "name=BeMyVPN"@],
            seq!["netsh"@, "advfirewall"@, "firewall"@, "add"@, "rule"@, "name=BeMyVPN"@, "dir=in"@, "action=allow"@, "program="@ + exe@, "protocol=udp"@, "enable=yes"@],
        ],
{
    let mut v: Vec<Command> = Vec::new();
    let a = Command::new("netsh").arg("advfirewall").arg("firewall").arg("delete").arg("rule").arg("name=BeMyVPN");
    let b = Command::new("netsh").arg("advfirewall").arg("firewall").arg("add").arg("rule").arg("name=BeMyVPN").arg("dir=in").arg("action=allow").arg_string(concat("program=", exe)).arg("protocol=udp").arg("enable=yes");
    v.push(a);
    v.push(b);
    assert(cmds_view(v@) =~= seq![cmd_view(a), cmd_view(b)]);
    assert(cmds_view(v@) =~~= seq![
        seq!["netsh"@, "advfirewall"@, "firewall"@, "delete"@, "rule"@, "name=BeMyVPN"@],
        seq!["netsh"@, "advfirewall"@, "firewall"@, "add"@, "rule"@, "name=BeMyVPN"@, "dir=in"@, "action=allow"@, "program="@ + exe@, "protocol=udp"@, "enable=yes"@],
    ]);
    v
}

// ── the guard ──

/// What a platform's setup left behind that teardown must put back.
#[derive(Debug)]
pub enum GuardPlatform {
    /// The resolver configuration as it was before (if it could be read).
    Linux { resolv: Option<Vec<u8>> },
    /// The network service whose DNS was changed, and its old servers.
    MacOs { dns_service: Option<String>, dns_old: Vec<String> },
    /// The tunnel adapter's name and index.
    Windows { tun_name: String, tun_idx: String },
}

/// Routes all traffic into the tunnel while it lives; teardown rolls back.
#[derive(Debug)]
pub struct RouteGuard {
    /// The host's address, pinned to the real gateway.
    pub host_ip: String,
    /// The IPv6 mode the guard was set up with; teardown asks it the same
    /// question setup did.
    pub ipv6: Ipv6Mode,
    pub platform: GuardPlatform,
}

fn append_cmds(v: &mut Vec<Command>, w: Vec<Command>)
    ensures
        cmds_view(final(v)@) == cmds_view(old(v)@) + cmds_view(w@),
{
    let ghost total = cmds_view(old(v)@) + cmds_view(w@);
    let mut w = w;
    while w.len() > 0
        invariant
            cmds_view(v@) + cmds_view(w@) == total,
        decreases w@.len(),
    {
        let ghost bv = v@;
        let ghost bw = w@;
        let c = w.remove(0);
        v.push(c);
        assert(cmds_view(v@) =~= cmds_view(bv).push(cmd_view(c)));
        assert(cmds_view(bw) =~= seq![cmd_view(c)] + cmds_view(w@));
        assert(cmds_view(v@) + cmds_view(w@) =~= cmds_view(bv) + cmds_view(bw));
    }
    assert(cmds_view(w@) =~= Seq::<Seq<Seq<char>>>::empty());
    assert(cmds_view(v@) + cmds_view(w@) =~= cmds_view(v@));
}

/// Linux teardown: the IPv6 block lifted if the mode had it, both halves and
/// the host pin deleted.
pub open spec fn spec_linux_teardown(host: Seq<char>, mode: Ipv6Mode) -> Seq<Seq<Seq<char>>> {
    (if mode == Ipv6Mode::Block {
        seq![
            seq!["ip"@, "-6"@, "route"@, "del"@, V6_HALF_LOW@],
            seq!["ip"@, "-6"@, "route"@, "del"@, V6_HALF_HIGH@],
        ]
    } else {
        seq![]
    }) + seq![
        seq!["ip"@, "route"@, "del"@, V4_HALF_LOW@],
        seq!["ip"@, "route"@, "del"@, V4_HALF_HIGH@],
        seq!["ip"@, "route"@, "del"@, host + "/32"@],
    ]
}

/// macOS teardown: the IPv6 block lifted if the mode had it, both halves and
/// the host pin deleted, the service's DNS servers put back (automatic if it
/// had none).
pub open spec fn spec_macos_teardown(
    host: Seq<char>,
    mode: Ipv6Mode,
    service: Option<Seq<char>>,
    old: Seq<Seq<char>>,
) -> Seq<Seq<Seq<char>>> {
    (if mode == Ipv6Mode::Block {
        seq![
            seq!["route"@, "-n"@, "delete"@, "-inet6"@, "-net"@, V6_HALF_LOW@],
            seq!["route"@, "-n"@, "delete"@, "-inet6"@, "-net"@, V6_HALF_HIGH@],
        ]
    } else {
        seq![]
    }) + seq![
        seq!["route"@, "-n"@, "delete"@, "-net"@, V4_HALF_LOW@],
        seq!["route"@, "-n"@, "delete"@, "-net"@, V4_HALF_HIGH@],
        seq!["route"@, "-n"@, "delete"@, "-host"@, host],
    ] + match service {
        Some(svc) => seq![
            seq!["networksetup"@, "-setdnsservers"@, svc] + if old.len() == 0 {
                seq!["empty"@]
            } else {
                old
            },
        ],
        None => seq![],
    }
}

/// Windows teardown: the IPv6 redirection lifted if the mode had it, both
/// halves and the host pin deleted, the adapter's DNS back to automatic.
pub open spec fn spec_windows_teardown(host: Seq<char>, mode: Ipv6Mode, tun_name: Seq<char>, tun_idx: Seq<char>) -> Seq<Seq<Seq<char>>> {
    (if mode == Ipv6Mode::Block {
        seq![
            seq!["netsh"@, "interface"@, "ipv6"@, "delete"@, "route"@, V6_HALF_LOW@, "interface="@ + tun_idx],
            seq!["netsh"@, "interface"@, "ipv6"@, "delete"@, "route"@, V6_HALF_HIGH@, "interface="@ + tun_idx],
        ]
    } else {
        seq![]
    }) + seq![
        seq!["route"@, "delete"@, WIN_V4_LOW_NET@, "mask"@, WIN_V4_HALF_MASK@],
        seq!["route"@, "delete"@, WIN_V4_HIGH_NET@, "mask"@, WIN_V4_HALF_MASK@],
        seq!["route"@, "delete"@, host],
        seq!["netsh"@, "interface"@, "ipv4"@, "set"@, "dnsservers"@, "name="@ + tun_name, "dhcp"@],
    ]
}

/// The commands of a guard's teardown.
pub open spec fn spec_teardown(g: RouteGuard) -> Seq<Seq<Seq<char>>> {
    match g.platform {
        GuardPlatform::Linux { .. } => spec_linux_teardown(g.host_ip@, g.ipv6),
        GuardPlatform::MacOs { dns_service, dns_old } => spec_macos_teardown(
            g.host_ip@,
            g.ipv6,
            crate::config::opt_view(dns_service),
            string_views(dns_old@),
        ),
        GuardPlatform::Windows { tun_name, tun_idx } => spec_windows_teardown(g.host_ip@, g.ipv6, tun_name@, tun_idx@),
    }
}

impl RouteGuard {
    /// The commands that roll the routing back (see [`spec_teardown`]). On
    /// Linux the old resolver configuration is written back as well (see
    /// [`RouteGuard::resolv_to_restore`]) and the crash crumb removed.
    #[verifier::spinoff_prover]
    #[verifier::rlimit(40)]
    pub fn teardown(&self) -> (v: Vec<Command>)
        ensures
            cmds_view(v@) == spec_teardown(*self),
    {
        let mut v: Vec<Command> = Vec::new();
        let block = self.ipv6.needs_block();
        match &self.platform {
            GuardPlatform::Linux { .. } => {
                if block {
                    append_cmds(&mut v, linux_ipv6_unblock());
                }
                let a = Command::new("ip").arg("route").arg("del").arg(V4_HALF_LOW);
                let b = Command::new("ip").arg("route").arg("del").arg(V4_HALF_HIGH);
                let c = Command::new("ip").arg("route").arg("del").arg_string(concat(self.host_ip.as_str(), "/32"));
                let ghost head = cmds_view(v@);
                v.push(a);
                v.push(b);
                v.push(c);
                assert(cmds_view(v@) =~= head + seq![cmd_view(a), cmd_view(b), cmd_view(c)]);
                assert(cmds_view(v@) =~~= spec_teardown(*self));
            },
            GuardPlatform::MacOs { dns_service, dns_old } => {
                if block {
                    append_cmds(&mut v, macos_ipv6_unblock());
                }
                let a = Command::new("route").arg("-n").arg("delete").arg("-net").arg(V4_HALF_LOW);
                let b = Command::new("route").arg("-n").arg("delete").arg("-net").arg(V4_HALF_HIGH);
                let c = Command::new("route").arg("-n").arg("delete").arg("-host").arg(self.host_ip.as_str());
                let ghost head = cmds_view(v@);
                v.push(a);
                v.push(b);
                v.push(c);
                assert(cmds_view(v@) =~= head + seq![cmd_view(a), cmd_view(b), cmd_view(c)]);
                if let Some(svc) = dns_service {
                    let d = macos_set_dns(svc.as_str(), dns_old.as_slice());
                    let ghost mid = cmds_view(v@);
                    v.push(d);
                    assert(cmds_view(v@) =~= mid + seq![cmd_view(d)]);
                }
                assert(cmds_view(v@) =~~= spec_teardown(*self));
            },
            GuardPlatform::Windows { tun_name, tun_idx } => {
                if block {
                    append_cmds(&mut v, windows_ipv6_unblock(tun_idx.as_str()));
                }
                let a = Command::new("route").arg("delete").arg(WIN_V4_LOW_NET).arg("mask").arg(WIN_V4_HALF_MASK);
                let b = Command::new("route").arg("delete").arg(WIN_V4_HIGH_NET).arg("mask").arg(WIN_V4_HALF_MASK);
                let c = Command::new("route").arg("delete").arg(self.host_ip.as_str());
                let d = Command::new("netsh").arg("interface").arg("ipv4").arg("set").arg("dnsservers").arg_string(concat("name=", tun_name.as_str())).arg("dhcp");
                let ghost head = cmds_view(v@);
                v.push(a);
                v.push(b);
                v.push(c);
                v.push(d);
                assert(cmds_view(v@) =~= head + seq![cmd_view(a), cmd_view(b), cmd_view(c), cmd_view(d)]);
                assert(cmds_view(v@) =~~= spec_teardown(*self));
            },
        }
        v
    }

    /// Linux: the resolver configuration to write back, if it was read at
    /// setup.
    pub fn resolv_to_restore(&self) -> (r: Option<Vec<u8>>)
        ensures
            match self.platform {
                GuardPlatform::Linux { resolv } => match resolv {
                    Some(b) => r matches Some(x) && x@ == b@,
                    None => r is None,
                },
                _ => r is None,
            },
    {
        match &self.platform {
            GuardPlatform::Linux { resolv: Some(b) } => Some(crate::punch::copy_bytes(b.as_slice())),
            _ => None,
        }
    }
}

/// Teardown asks the IPv6 question exactly as setup does: it lifts the block
/// if and only if the mode blocks, so a mode can never get a block without
/// its removal, or lose someone's own routes it never set.
pub proof fn law_ipv6_polarity(host: Seq<char>, mode: Ipv6Mode, tun_name: Seq<char>, tun_idx: Seq<char>, old: Seq<Seq<char>>, service: Option<Seq<char>>)
    ensures
        spec_linux_teardown(host, mode).len() == if mode == Ipv6Mode::Block { 5nat } else { 3nat },
        spec_windows_teardown(host, mode, tun_name, tun_idx).len() == if mode == Ipv6Mode::Block { 6nat } else { 4nat },
        spec_macos_teardown(host, mode, service, old).len() == (if mode == Ipv6Mode::Block { 5nat } else { 3nat }) + if service is Some { 1nat } else { 0nat },
{
}

/// Teardown deletes exactly what setup added, on every platform: the two
/// IPv4 halves that went into the tunnel, the host's pinned address, and,
/// when the mode blocks IPv6, both IPv6 halves (on the same interface).
pub proof fn law_teardown_mirrors_setup(
    host: Seq<char>,
    mode: Ipv6Mode,
    tun: Seq<char>,
    gw: Seq<char>,
    dev: Seq<char>,
    tun_ip: Seq<char>,
    tun_idx: Seq<char>,
    tun_name: Seq<char>,
    service: Option<Seq<char>>,
    old: Seq<Seq<char>>,
)
    ensures
        ({
            let t = spec_linux_teardown(host, mode);
            let o: int = if mode == Ipv6Mode::Block { 2 } else { 0 };
            &&& t[o][3] == spec_linux_split(tun)[0][3]
            &&& t[o + 1][3] == spec_linux_split(tun)[1][3]
            &&& t[o + 2][3] == spec_linux_host_pin(host, gw, dev)[3]
            &&& mode == Ipv6Mode::Block ==> t[0][4] == spec_linux_ipv6_block()[0][5] && t[1][4]
                == spec_linux_ipv6_block()[1][5]
        }),
        ({
            let t = spec_macos_teardown(host, mode, service, old);
            let o: int = if mode == Ipv6Mode::Block { 2 } else { 0 };
            &&& t[o][4] == spec_macos_split(tun)[0][4]
            &&& t[o + 1][4] == spec_macos_split(tun)[1][4]
            &&& t[o + 2][4] == spec_macos_host_pin(host, gw)[4]
            &&& mode == Ipv6Mode::Block ==> t[0][5] == spec_macos_ipv6_block()[0][5] && t[1][5]
                == spec_macos_ipv6_block()[1][5]
        }),
        ({
            let t = spec_windows_teardown(host, mode, tun_name, tun_idx);
            let a = spec_windows_split(tun_ip, tun_idx);
            let b = spec_windows_ipv6_block(tun_idx);
            let o: int = if mode == Ipv6Mode::Block { 2 } else { 0 };
            &&& t[o][2] == a[0][2] && t[o][4] == a[0][4]
            &&& t[o + 1][2] == a[1][2] && t[o + 1][4] == a[1][4]
            &&& t[o + 2][2] == spec_windows_host_pin(host, gw)[2]
            &&& mode == Ipv6Mode::Block ==> t[0][5] == b[0][5] && t[0][6] == b[0][6] && t[1][5] == b[1][5]
                && t[1][6] == b[1][6]
        }),
{
}

} // verus!
