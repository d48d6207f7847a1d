//! Reading what the system's network tools print: the default route, the
//! network service of a device and its DNS servers, the default gateway and
//! an adapter's index. Only the numbers, addresses and names these outputs
//! hold are read; localised headers are never relied upon.

use vstd::prelude::*;
use crate::text::{chars_of, lines, lines_of, trim_chars, trimmed, views, words, words_of, chars_eq, slice_chars, string_of, parse_u64, spec_parse_u64};
use crate::config::starts_with;
use crate::stun::string_views;

verus! {

/// Whether `n` occurs in `h`.
pub open spec fn has_sub(h: Seq<char>, n: Seq<char>) -> bool {
    exists|i: int| 0 <= i && i + n.len() <= h.len() && #[trigger] h.subrange(i, i + n.len()) == n
}

/// Whether `n` occurs in `h` (see [`has_sub`]).
pub fn contains_chars(h: &[char], n: &[char]) -> (b: bool)
    ensures
        b == has_sub(h@, n@),
{
    if n.len() > h.len() {
        return false;
    }
    if n.len() == 0 {
        assert(h@.subrange(0, 0int + n@.len()) =~= n@);
        return true;
    }
    let last = h.len() - n.len();
    let mut i: usize = 0;
    while i <= last
        invariant
            1 <= n@.len() <= h@.len() <= usize::MAX,
            last == h@.len() - n@.len(),
            i <= last + 1,
            forall|k: int| 0 <= k < i ==> #[trigger] h@.subrange(k, k + n@.len()) != n@,
        decreases last + 1 - i,
    {
        let nl = n.len();
        assert(i + nl <= h@.len());
        let part = slice_chars(h, i, i + nl);
        if chars_eq(part.as_slice(), n) {
            return true;
        }
        i = i + 1;
    }
    assert forall|k: int| 0 <= k && k + n@.len() <= h@.len() implies #[trigger] h@.subrange(k, k + n@.len()) != n@ by {
        assert(k < i);
    }
    false
}

/// Whether `s` begins with `p`.
pub open spec fn begins(s: Seq<char>, p: Seq<char>) -> bool {
    s.len() >= p.len() && s.take(p.len() as int) == p
}

/// The word after the last occurrence of `key` (among all but the last
/// word), as a scan over consecutive pairs keeps it.
pub open spec fn word_after_last(w: Seq<Seq<char>>, key: Seq<char>) -> Option<Seq<char>>
    decreases w.len(),
{
    if w.len() < 2 {
        None
    } else if w[w.len() - 2] == key {
        Some(w.last())
    } else {
        word_after_last(w.drop_last(), key)
    }
}

pub open spec fn via_word() -> Seq<char> {
    seq!['v', 'i', 'a']
}

pub open spec fn dev_word() -> Seq<char> {
    seq!['d', 'e', 'v']
}

/// Gateway and device of the default route from `ip route show default`.
pub open spec fn spec_default_route_linux(out: Seq<char>) -> Option<(Seq<char>, Seq<char>)> {
    let w = words_of(out);
    match (word_after_last(w, via_word()), word_after_last(w, dev_word())) {
        (Some(g), Some(d)) => Some((g, d)),
        _ => None,
    }
}

/// The view of an optional pair of strings.
pub open spec fn pair_view(p: Option<(String, String)>) -> Option<(Seq<char>, Seq<char>)> {
    match p {
        Some((a, b)) => Some((a@, b@)),
        None => None,
    }
}

/// Gateway and device of the default route (see [`spec_default_route_linux`]).
pub fn default_route_linux(out: &str) -> (r: Option<(String, String)>)
    ensures
        pair_view(r) == spec_default_route_linux(out@),
{
    let cs = chars_of(out);
    let w = words(cs.as_slice());
    let ghost ws = views(w@);
    let via_k: [char; 3] = ['v', 'i', 'a'];
    let dev_k: [char; 3] = ['d', 'e', 'v'];
    assert(via_k@ =~= via_word());
    assert(dev_k@ =~= dev_word());
    let mut gw: Option<usize> = None;
    let mut dv: Option<usize> = None;
    let mut i: usize = 0;
    if w.len() >= 2 {
        assert(ws.take(1).len() < 2);
        while i + 1 < w.len()
            invariant
                w@.len() >= 2,
                i + 1 <= w@.len(),
                ws == views(w@),
                via_k@ == via_word(),
                dev_k@ == dev_word(),
                match gw {
                    Some(k) => k + 1 < w@.len() && word_after_last(ws.take(i + 1), via_word()) == Some(ws[k + 1]),
                    None => word_after_last(ws.take(i + 1), via_word()) is None,
                },
                match dv {
                    Some(k) => k + 1 < w@.len() && word_after_last(ws.take(i + 1), dev_word()) == Some(ws[k + 1]),
                    None => word_after_last(ws.take(i + 1), dev_word()) is None,
                },
            decreases w@.len() - i,
        {
            proof {
                let t = ws.take(i + 2);
                assert(t.drop_last() =~= ws.take(i + 1));
                assert(t[t.len() - 2] == ws[i as int]);
                assert(t.last() == ws[i + 1]);
                assert(ws[i as int] == w@[i as int]@);
            }
            if chars_eq(w[i].as_slice(), &via_k) {
                gw = Some(i);
            }
            if chars_eq(w[i].as_slice(), &dev_k) {
                dv = Some(i);
            }
            i = i + 1;
        }
        assert(ws.take(w@.len() as int) =~= ws);
    } else {
        assert(ws.len() < 2);
    }
    match (gw, dv) {
        (Some(g), Some(d)) => {
            assert(ws[g + 1] == w@[g + 1]@);
            assert(ws[d + 1] == w@[d + 1]@);
            Some((string_of(w[g + 1].as_slice()), string_of(w[d + 1].as_slice())))
        },
        _ => None,
    }
}

/// The value after `prefix` on the last line that (trimmed) starts with it,
/// trimmed.
pub open spec fn last_prefixed(ls: Seq<Seq<char>>, prefix: Seq<char>) -> Option<Seq<char>>
    decreases ls.len(),
{
    if ls.len() == 0 {
        None
    } else if begins(trimmed(ls.last()), prefix) {
        Some(trimmed(trimmed(ls.last()).skip(prefix.len() as int)))
    } else {
        last_prefixed(ls.drop_last(), prefix)
    }
}

pub open spec fn gateway_prefix() -> Seq<char> {
    seq!['g', 'a', 't', 'e', 'w', 'a', 'y', ':']
}

pub open spec fn interface_prefix() -> Seq<char> {
    seq!['i', 'n', 't', 'e', 'r', 'f', 'a', 'c', 'e', ':']
}

/// Gateway and interface of the default route from `route -n get default`.
pub open spec fn spec_default_route_macos(out: Seq<char>) -> Option<(Seq<char>, Seq<char>)> {
    let ls = lines_of(out);
    match (last_prefixed(ls, gateway_prefix()), last_prefixed(ls, interface_prefix())) {
        (Some(g), Some(d)) => Some((g, d)),
        _ => None,
    }
}

fn last_prefixed_exec(ls: &Vec<Vec<char>>, prefix: &[char]) -> (r: Option<Vec<char>>)
    ensures
        match r {
            Some(v) => last_prefixed(views(ls@), prefix@) == Some(v@),
            None => last_prefixed(views(ls@), prefix@) is None,
        },
{
    let mut i: usize = ls.len();
    assert(views(ls@).take(i as int) =~= views(ls@));
    while i > 0
        invariant
            i <= ls@.len(),
            last_prefixed(views(ls@), prefix@) == last_prefixed(views(ls@).take(i as int), prefix@),
        decreases i,
    {
        let t = trim_chars(ls[i - 1].as_slice());
        proof {
            let s = views(ls@).take(i as int);
            assert(s.drop_last() =~= views(ls@).take(i - 1));
            assert(s.last() == ls@[i - 1]@);
        }
        if starts_with(t.as_slice(), prefix) {
            let rest = slice_chars(t.as_slice(), prefix.len(), t.len());
            assert(rest@ =~= t@.skip(prefix@.len() as int));
            return Some(trim_chars(rest.as_slice()));
        }
        i = i - 1;
    }
    None
}

/// Gateway and interface of the default route (see
/// [`spec_default_route_macos`]).
pub fn default_route_macos(out: &str) -> (r: Option<(String, String)>)
    ensures
        pair_view(r) == spec_default_route_macos(out@),
{
    let cs = chars_of(out);
    let ls = lines(cs.as_slice());
    let g: [char; 8] = ['g', 'a', 't', 'e', 'w', 'a', 'y', ':'];
    let d: [char; 10] = ['i', 'n', 't', 'e', 'r', 'f', 'a', 'c', 'e', ':'];
    assert(g@ =~= gateway_prefix());
    assert(d@ =~= interface_prefix());
    match (last_prefixed_exec(&ls, &g), last_prefixed_exec(&ls, &d)) {
        (Some(a), Some(b)) => Some((string_of(a.as_slice()), string_of(b.as_slice()))),
        _ => None,
    }
}

/// Index of the first `") "` in `t` from `i` on, or -1.
pub open spec fn pair_from(t: Seq<char>, i: int) -> int
    decreases t.len() - i,
{
    if i < 0 || i + 1 >= t.len() {
        -1
    } else if t[i] == ')' && t[i + 1] == ' ' {
        i
    } else {
        pair_from(t, i + 1)
    }
}

pub open spec fn hardware_port_prefix() -> Seq<char> {
    "(Hardware Port:"@
}

pub open spec fn device_marker(dev: Seq<char>) -> Seq<char> {
    "Device: "@ + dev + ")"@
}

/// The network service of device `dev` in `networksetup
/// -listnetworkserviceorder`: blocks of `(1) Wi-Fi` followed by
/// `(Hardware Port: Wi-Fi, Device: en0)`; the name before the matching
/// hardware line.
pub open spec fn service_scan(ls: Seq<Seq<char>>, last: Option<Seq<char>>, dev: Seq<char>) -> Option<Seq<char>>
    decreases ls.len(),
{
    if ls.len() == 0 {
        None
    } else {
        let t = trimmed(ls[0]);
        if begins(t, hardware_port_prefix()) {
            if has_sub(t, device_marker(dev)) {
                last
            } else {
                service_scan(ls.drop_first(), last, dev)
            }
        } else if t.len() > 0 && t[0] == '(' {
            let p = pair_from(t, 0);
            if p >= 0 {
                service_scan(ls.drop_first(), Some(trimmed(t.skip(p + 2))), dev)
            } else {
                service_scan(ls.drop_first(), last, dev)
            }
        } else {
            service_scan(ls.drop_first(), last, dev)
        }
    }
}

fn pair_index(t: &[char]) -> (r: Option<usize>)
    ensures
        match r {
            Some(p) => pair_from(t@, 0) == p as int && p + 1 < t@.len(),
            None => pair_from(t@, 0) == -1,
        },
{
    let mut i: usize = 0;
    while t.len() > 1 && i < t.len() - 1
        invariant
            i <= t@.len(),
            pair_from(t@, 0) == pair_from(t@, i as int),
        decreases t@.len() - i,
    {
        if t[i] == ')' && t[i + 1] == ' ' {
            return Some(i);
        }
        i = i + 1;
    }
    None
}

/// The network service of a device (see [`service_scan`]).
pub fn dns_service_for_dev(out: &str, dev: &str) -> (r: Option<String>)
    ensures
        crate::config::opt_view(r) == service_scan(lines_of(out@), None, dev@),
{
    let cs = chars_of(out);
    let ls = lines(cs.as_slice());
    let hw = chars_of("(Hardware Port:");
    let mut marker = chars_of("Device: ");
    let dv = chars_of(dev);
    let mut k: usize = 0;
    while k < dv.len()
        invariant
            k <= dv@.len(),
            marker@ == "Device: "@ + dv@.take(k as int),
        decreases dv@.len() - k,
    {
        marker.push(dv[k]);
        k = k + 1;
        assert(marker@ =~= "Device: "@ + dv@.take(k as int));
    }
    marker.push(')');
    proof {
        assert(dv@.take(dv@.len() as int) =~= dev@);
        assert(")"@ =~= seq![')']) by {
            reveal_strlit(")");
        }
        assert(marker@ =~= device_marker(dev@));
    }
    let mut last: Option<Vec<char>> = None;
    let mut i: usize = 0;
    assert(views(ls@).skip(0) =~= views(ls@));
    while i < ls.len()
        invariant
            i <= ls@.len(),
            views(ls@) == lines_of(out@),
            hw@ == hardware_port_prefix(),
            marker@ == device_marker(dev@),
            service_scan(lines_of(out@), None, dev@) == service_scan(
                views(ls@).skip(i as int),
                match last {
                    Some(v) => Some(v@),
                    None => None,
                },
                dev@,
            ),
        decreases ls@.len() - i,
    {
        let t = trim_chars(ls[i].as_slice());
        proof {
            assert(views(ls@).skip(i as int)[0] == ls@[i as int]@);
            assert(views(ls@).skip(i as int).drop_first() =~= views(ls@).skip(i + 1));
        }
        if starts_with(t.as_slice(), hw.as_slice()) {
            if contains_chars(t.as_slice(), marker.as_slice()) {
                return match last {
                    Some(v) => Some(string_of(v.as_slice())),
                    None => None,
                };
            }
        } else if t.len() > 0 && t[0] == '(' {
            if let Some(p) = pair_index(t.as_slice()) {
                let rest = slice_chars(t.as_slice(), p + 2, t.len());
                assert(rest@ =~= t@.skip(p + 2));
                last = Some(trim_chars(rest.as_slice()));
            }
        }
        i = i + 1;
    }
    None
}

/// Whether a line can be a DNS server: only hex digits, dots and colons.
pub open spec fn dns_char(c: char) -> bool {
    ('0' <= c <= '9') || ('a' <= c <= 'f') || ('A' <= c <= 'F') || c == '.' || c == ':'
}

pub open spec fn dns_line(t: Seq<char>) -> bool {
    t.len() > 0 && forall|i: int| 0 <= i < t.len() ==> dns_char(#[trigger] t[i])
}

/// The DNS servers among trimmed lines.
pub open spec fn dns_entries(ls: Seq<Seq<char>>) -> Seq<Seq<char>>
    decreases ls.len(),
{
    if ls.len() == 0 {
        Seq::empty()
    } else if dns_line(trimmed(ls.last())) {
        dns_entries(ls.drop_last()).push(trimmed(ls.last()))
    } else {
        dns_entries(ls.drop_last())
    }
}

/// The DNS servers of a service from `networksetup -getdnsservers`: none if
/// it says there aren't any, else the lines that are addresses.
pub open spec fn spec_current_dns(out: Seq<char>) -> Seq<Seq<char>> {
    if has_sub(out, "aren't any"@) {
        Seq::empty()
    } else {
        dns_entries(lines_of(out))
    }
}

fn is_dns_line(t: &[char]) -> (b: bool)
    ensures
        b == dns_line(t@),
{
    if t.len() == 0 {
        return false;
    }
    let mut i: usize = 0;
    while i < t.len()
        invariant
            i <= t@.len(),
            forall|k: int| 0 <= k < i ==> dns_char(#[trigger] t@[k]),
        decreases t@.len() - i,
    {
        let c = t[i];
        if !(('0' <= c && c <= '9') || ('a' <= c && c <= 'f') || ('A' <= c && c <= 'F') || c == '.' || c == ':') {
            return false;
        }
        i = i + 1;
    }
    true
}

/// The DNS servers of a service (see [`spec_current_dns`]).
pub fn current_dns(out: &str) -> (r: Vec<String>)
    ensures
        string_views(r@) == spec_current_dns(out@),
{
    let cs = chars_of(out);
    let marker = chars_of("aren't any");
    let mut r: Vec<String> = Vec::new();
    if contains_chars(cs.as_slice(), marker.as_slice()) {
        assert(string_views(r@) =~= Seq::<Seq<char>>::empty());
        return r;
    }
    let ls = lines(cs.as_slice());
    let mut i: usize = 0;
    while i < ls.len()
        invariant
            i <= ls@.len(),
            views(ls@) == lines_of(out@),
            string_views(r@) == dns_entries(views(ls@).take(i as int)),
        decreases ls@.len() - i,
    {
        let t = trim_chars(ls[i].as_slice());
        proof {
            assert(views(ls@).take(i + 1).drop_last() =~= views(ls@).take(i as int));
            assert(views(ls@).take(i + 1).last() == ls@[i as int]@);
        }
        if is_dns_line(t.as_slice()) {
            let ghost before = r@;
            r.push(string_of(t.as_slice()));
            assert(string_views(r@) =~= string_views(before).push(t@));
        }
        i = i + 1;
    }
    assert(views(ls@).take(ls@.len() as int) =~= views(ls@));
    r
}

pub open spec fn any_address() -> Seq<char> {
    seq!['0', '.', '0', '.', '0', '.', '0']
}

/// Whether the words of a line of `route print -4` are the default route's:
/// destination and mask all zeros, a real gateway with a dot.
pub open spec fn gateway_line(t: Seq<Seq<char>>) -> bool {
    t.len() >= 3 && t[0] == any_address() && t[1] == any_address() && t[2] != any_address() && t[2].contains('.')
}

/// The default gateway from `route print -4`: the third word of the first
/// default-route line.
pub open spec fn first_gateway(ls: Seq<Seq<char>>) -> Option<Seq<char>>
    decreases ls.len(),
{
    if ls.len() == 0 {
        None
    } else if gateway_line(words_of(ls[0])) {
        Some(words_of(ls[0])[2])
    } else {
        first_gateway(ls.drop_first())
    }
}

fn has_char(s: &[char], c: char) -> (b: bool)
    ensures
        b == s@.contains(c),
{
    let mut i: usize = 0;
    while i < s.len()
        invariant
            i <= s@.len(),
            forall|k: int| 0 <= k < i ==> s@[k] != c,
        decreases s@.len() - i,
    {
        if s[i] == c {
            assert(s@[i as int] == c);
            return true;
        }
        i = i + 1;
    }
    false
}

/// The default gateway (see [`first_gateway`]).
pub fn default_gateway_windows(out: &str) -> (r: Option<String>)
    ensures
        crate::config::opt_view(r) == first_gateway(lines_of(out@)),
{
    let cs = chars_of(out);
    let ls = lines(cs.as_slice());
    let zero: [char; 7] = ['0', '.', '0', '.', '0', '.', '0'];
    assert(zero@ =~= any_address());
    let mut i: usize = 0;
    assert(views(ls@).skip(0) =~= views(ls@));
    while i < ls.len()
        invariant
            i <= ls@.len(),
            views(ls@) == lines_of(out@),
            zero@ == any_address(),
            first_gateway(lines_of(out@)) == first_gateway(views(ls@).skip(i as int)),
        decreases ls@.len() - i,
    {
        let t = words(ls[i].as_slice());
        proof {
            assert(views(ls@).skip(i as int)[0] == ls@[i as int]@);
            assert(views(ls@).skip(i as int).drop_first() =~= views(ls@).skip(i + 1));
            assert(views(t@).len() == t@.len());
        }
        if t.len() >= 3 {
            assert(views(t@)[0] == t@[0]@ && views(t@)[1] == t@[1]@ && views(t@)[2] == t@[2]@);
            if chars_eq(t[0].as_slice(), &zero) && chars_eq(t[1].as_slice(), &zero) && !chars_eq(
                t[2].as_slice(),
                &zero,
            ) && has_char(t[2].as_slice(), '.') {
                return Some(string_of(t[2].as_slice()));
            }
        }
        i = i + 1;
    }
    None
}

/// Words joined by single spaces.
pub open spec fn join_space(ws: Seq<Seq<char>>) -> Seq<char>
    decreases ws.len(),
{
    if ws.len() == 0 {
        Seq::empty()
    } else if ws.len() == 1 {
        ws[0]
    } else {
        join_space(ws.drop_last()) + seq![' '] + ws.last()
    }
}

/// Whether the words of a line of `netsh interface ipv4 show interfaces`
/// describe the adapter `name`: an index that is a number, and the name from
/// the fifth word on.
pub open spec fn adapter_line(t: Seq<Seq<char>>, name: Seq<char>) -> bool {
    t.len() >= 5 && (spec_parse_u64(t[0]) matches Some(n) && n <= u32::MAX) && join_space(t.skip(4)) == name
}

/// The adapter's index: the first word of the first line describing it.
pub open spec fn first_adapter(ls: Seq<Seq<char>>, name: Seq<char>) -> Option<Seq<char>>
    decreases ls.len(),
{
    if ls.len() == 0 {
        None
    } else if adapter_line(words_of(ls[0]), name) {
        Some(words_of(ls[0])[0])
    } else {
        first_adapter(ls.drop_first(), name)
    }
}

fn join_from(t: &Vec<Vec<char>>, from: usize) -> (j: Vec<char>)
    requires
        from <= t@.len(),
    ensures
        j@ == join_space(views(t@).skip(from as int)),
{
    let mut j: Vec<char> = Vec::new();
    let mut i: usize = from;
    assert(views(t@).skip(from as int).take(0) =~= Seq::<Seq<char>>::empty());
    while i < t.len()
        invariant
            from <= i <= t@.len(),
            j@ == join_space(views(t@).skip(from as int).take(i - from)),
        decreases t@.len() - i,
    {
        let ghost part = views(t@).skip(from as int).take(i + 1 - from);
        proof {
            assert(part.drop_last() =~= views(t@).skip(from as int).take(i - from));
            assert(part.last() == t@[i as int]@);
        }
        if i > from {
            j.push(' ');
        }
        let w = &t[i];
        let mut k: usize = 0;
        let ghost base = j@;
        while k < w.len()
            invariant
                k <= w@.len(),
                j@ == base + w@.take(k as int),
            decreases w@.len() - k,
        {
            j.push(w[k]);
            k = k + 1;
            assert(j@ =~= base + w@.take(k as int));
        }
        assert(w@.take(w@.len() as int) =~= w@);
        proof {
            if i > from {
                assert(j@ =~= join_space(part.drop_last()) + seq![' '] + part.last());
            } else {
                assert(part.len() == 1);
            }
        }
        i = i + 1;
    }
    assert(views(t@).skip(from as int).take(t@.len() - from) =~= views(t@).skip(from as int));
    j
}

/// The adapter's index (see [`first_adapter`]).
pub fn adapter_index_windows(out: &str, name: &str) -> (r: Option<String>)
    ensures
        crate::config::opt_view(r) == first_adapter(lines_of(out@), name@),
{
    let cs = chars_of(out);
    let nm = chars_of(name);
    let ls = lines(cs.as_slice());
    let mut i: usize = 0;
    assert(views(ls@).skip(0) =~= views(ls@));
    while i < ls.len()
        invariant
            i <= ls@.len(),
            views(ls@) == lines_of(out@),
            nm@ == name@,
            first_adapter(lines_of(out@), name@) == first_adapter(views(ls@).skip(i as int), name@),
        decreases ls@.len() - i,
    {
        let t = words(ls[i].as_slice());
        proof {
            assert(views(ls@).skip(i as int)[0] == ls@[i as int]@);
            assert(views(ls@).skip(i as int).drop_first() =~= views(ls@).skip(i + 1));
            assert(views(t@).len() == t@.len());
        }
        if t.len() >= 5 {
            assert(views(t@)[0] == t@[0]@);
            let num = match parse_u64(t[0].as_slice()) {
                Some(n) => n <= 0xffff_ffff,
                None => false,
            };
            if num {
                let j = join_from(&t, 4);
                if chars_eq(j.as_slice(), nm.as_slice()) {
                    return Some(string_of(t[0].as_slice()));
                }
            }
        }
        i = i + 1;
    }
    None
}

} // verus!
