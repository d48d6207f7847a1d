//! STUN (RFC 5389) Binding messages: building a request and reading the
//! address that a response reports. The response comes over UDP from a
//! foreign machine, so every byte of it is treated as hostile.

use vstd::prelude::*;
use crate::addr::{Endpoint, Ip, spec_plausible_external, plausible_external};
use crate::error::Error;
use vstd::string::*;
use rand::RngCore;

verus! {

pub const MAGIC_COOKIE: u32 = 0x2112_A442;
pub const BINDING_REQUEST: u16 = 0x0001;
pub const BINDING_SUCCESS: u16 = 0x0101;
pub const ATTR_MAPPED_ADDRESS: u16 = 0x0001;
pub const ATTR_XOR_MAPPED_ADDRESS: u16 = 0x0020;

/// Big-endian 16-bit value at `i`.
pub open spec fn be16(b: Seq<u8>, i: int) -> int {
    b[i] as int * 256 + b[i + 1] as int
}

/// Big-endian 32-bit value at `i`.
pub open spec fn be32(b: Seq<u8>, i: int) -> int {
    b[i] as int * 0x100_0000 + b[i + 1] as int * 0x1_0000 + b[i + 2] as int * 0x100 + b[i + 3] as int
}

/// The 20-byte Binding Request carrying transaction id `txid`.
pub open spec fn request_bytes(txid: Seq<u8>) -> Seq<u8> {
    seq![0x00u8, 0x01, 0x00, 0x00, 0x21, 0x12, 0xA4, 0x42] + txid
}

/// Twelve random bytes for a transaction id (`rand::thread_rng().fill_bytes`).
/// Nothing is promised of their value.
#[verifier::external_body]
fn random_txid() -> [u8; 12] {
    let mut txid = [0u8; 12];
    rand::thread_rng().fill_bytes(&mut txid);
    txid
}

/// A Binding Request with a fresh random transaction id; the id is returned
/// too, to match the answer against it.
pub fn build_request() -> (r: (Vec<u8>, [u8; 12]))
    ensures
        r.0@ == request_bytes(r.1@),
        r.1@.len() == 12,
{
    let txid = random_txid();
    let mut msg: Vec<u8> = Vec::new();
    msg.push(0x00);
    msg.push(0x01);
    msg.push(0x00);
    msg.push(0x00);
    msg.push(0x21);
    msg.push(0x12);
    msg.push(0xA4);
    msg.push(0x42);
    let mut i: usize = 0;
    while i < 12
        invariant
            i <= 12,
            msg@ == seq![0x00u8, 0x01, 0x00, 0x00, 0x21, 0x12, 0xA4, 0x42] + txid@.take(i as int),
        decreases 12 - i,
    {
        msg.push(txid[i]);
        i = i + 1;
        assert(msg@ =~= seq![0x00u8, 0x01, 0x00, 0x00, 0x21, 0x12, 0xA4, 0x42] + txid@.take(i as int));
    }
    assert(txid@.take(12) =~= txid@);
    (msg, txid)
}

/// A bare Binding Request, sent only to keep a NAT mapping open.
pub fn binding_request() -> (r: Vec<u8>)
    ensures
        exists|t: Seq<u8>| t.len() == 12 && r@ == request_bytes(t),
{
    let (msg, txid) = build_request();
    proof {
        let t = txid@;
        assert(t.len() == 12 && msg@ == request_bytes(t));
    }
    msg
}

/// The value of a MAPPED-ADDRESS attribute: family IPv4, port, address.
pub open spec fn spec_parse_mapped(val: Seq<u8>) -> Option<Endpoint> {
    if val.len() < 8 || val[1] != 0x01 {
        None
    } else {
        Some(Endpoint { ip: Ip::V4(be32(val, 4) as u32), port: be16(val, 2) as u16 })
    }
}

/// The value of an XOR-MAPPED-ADDRESS attribute: port and address masked with
/// the magic cookie.
pub open spec fn spec_parse_xor_mapped(val: Seq<u8>) -> Option<Endpoint> {
    if val.len() < 8 || val[1] != 0x01 {
        None
    } else {
        Some(
            Endpoint {
                ip: Ip::V4((be32(val, 4) as u32) ^ MAGIC_COOKIE),
                port: (be16(val, 2) as u16) ^ 0x2112u16,
            },
        )
    }
}

/// A parsed address, kept only if it can be our external address.
pub open spec fn plausible_or_none(a: Option<Endpoint>) -> Option<Endpoint> {
    match a {
        Some(e) => if spec_plausible_external(e) {
            Some(e)
        } else {
            None
        },
        None => None,
    }
}

/// What one attribute at `pos` leaves as the fallback answer.
pub open spec fn next_fallback(t: int, val: Seq<u8>, fallback: Option<Endpoint>) -> Option<Endpoint> {
    if t == ATTR_MAPPED_ADDRESS && fallback is None {
        plausible_or_none(spec_parse_mapped(val))
    } else {
        fallback
    }
}

/// Walk the attributes in `buf[pos..end)`. The first plausible
/// XOR-MAPPED-ADDRESS wins; otherwise the first MAPPED-ADDRESS seen (if it was
/// plausible) is the answer. An attribute whose value runs past `end` stops
/// the walk.
#[verifier::opaque]
pub open spec fn scan_attrs(buf: Seq<u8>, pos: int, end: int, fallback: Option<Endpoint>) -> Option<Endpoint>
    decreases end - pos,
{
    if pos + 4 > end || pos < 0 {
        fallback
    } else {
        let t = be16(buf, pos);
        let len = be16(buf, pos + 2);
        let vs = pos + 4;
        let ve = vs + len;
        if ve > end {
            fallback
        } else {
            let val = buf.subrange(vs, ve);
            let next = ve + (4 - len % 4) % 4;
            if t == ATTR_XOR_MAPPED_ADDRESS && plausible_or_none(spec_parse_xor_mapped(val)) is Some {
                plausible_or_none(spec_parse_xor_mapped(val))
            } else {
                let fb = next_fallback(t, val, fallback);
                if next > end {
                    fb
                } else {
                    scan_attrs(buf, next, end, fb)
                }
            }
        }
    }
}

/// One step of [`scan_attrs`] at an attribute whose header fits.
pub proof fn lemma_scan_step(buf: Seq<u8>, pos: int, end: int, fallback: Option<Endpoint>)
    requires
        0 <= pos,
        pos + 4 <= end,
    ensures
        ({
            let t = be16(buf, pos);
            let len = be16(buf, pos + 2);
            let ve = pos + 4 + len;
            let val = buf.subrange(pos + 4, ve);
            let next = ve + (4 - len % 4) % 4;
            scan_attrs(buf, pos, end, fallback) == if ve > end {
                fallback
            } else if t == ATTR_XOR_MAPPED_ADDRESS && plausible_or_none(spec_parse_xor_mapped(val)) is Some {
                plausible_or_none(spec_parse_xor_mapped(val))
            } else if next > end {
                next_fallback(t, val, fallback)
            } else {
                scan_attrs(buf, next, end, next_fallback(t, val, fallback))
            }
        }),
{
    reveal(scan_attrs);
}

/// A walk that starts with no room for an attribute header gives the fallback.
pub proof fn lemma_scan_done(buf: Seq<u8>, pos: int, end: int, fallback: Option<Endpoint>)
    requires
        pos + 4 > end,
    ensures
        scan_attrs(buf, pos, end, fallback) == fallback,
{
    reveal(scan_attrs);
}

/// The declared end of the message body, never past the received bytes.
pub open spec fn body_end(buf: Seq<u8>) -> int {
    if 20 + be16(buf, 2) < buf.len() {
        20 + be16(buf, 2)
    } else {
        buf.len() as int
    }
}

/// The address a Binding success response reports, if the response is ours
/// (type, magic cookie and transaction id match) and the address is plausible.
pub open spec fn spec_parse_response(buf: Seq<u8>, txid: Seq<u8>) -> Option<Endpoint> {
    if buf.len() < 20 {
        None
    } else if be16(buf, 0) != BINDING_SUCCESS {
        None
    } else if be32(buf, 4) != MAGIC_COOKIE {
        None
    } else if buf.subrange(8, 20) != txid {
        None
    } else {
        scan_attrs(buf, 20, body_end(buf), None)
    }
}

fn read_be16(b: &[u8], i: usize) -> (v: u16)
    requires
        i + 1 < b@.len(),
    ensures
        v as int == be16(b@, i as int),
{
    (b[i] as u16) * 256 + (b[i + 1] as u16)
}

fn read_be32(b: &[u8], i: usize) -> (v: u32)
    requires
        i + 3 < b@.len(),
    ensures
        v as int == be32(b@, i as int),
{
    (b[i] as u32) * 0x100_0000 + (b[i + 1] as u32) * 0x1_0000 + (b[i + 2] as u32) * 0x100 + (b[i
        + 3] as u32)
}

/// The address in a MAPPED-ADDRESS value.
pub fn parse_mapped(val: &[u8]) -> (r: Option<Endpoint>)
    ensures
        r == spec_parse_mapped(val@),
{
    if val.len() < 8 || val[1] != 0x01 {
        return None;
    }
    Some(Endpoint { ip: Ip::V4(read_be32(val, 4)), port: read_be16(val, 2) })
}

/// The address in an XOR-MAPPED-ADDRESS value.
pub fn parse_xor_mapped(val: &[u8]) -> (r: Option<Endpoint>)
    ensures
        r == spec_parse_xor_mapped(val@),
{
    if val.len() < 8 || val[1] != 0x01 {
        return None;
    }
    Some(Endpoint { ip: Ip::V4(read_be32(val, 4) ^ MAGIC_COOKIE), port: read_be16(val, 2) ^ 0x2112u16 })
}

fn keep_plausible(a: Option<Endpoint>) -> (r: Option<Endpoint>)
    ensures
        r == plausible_or_none(a),
{
    match a {
        Some(e) => if plausible_external(&e) {
            Some(e)
        } else {
            None
        },
        None => None,
    }
}

fn sub_slice(b: &[u8], a: usize, e: usize) -> (v: Vec<u8>)
    requires
        a <= e <= b@.len(),
    ensures
        v@ == b@.subrange(a as int, e as int),
{
    let mut v: Vec<u8> = Vec::new();
    let mut i = a;
    while i < e
        invariant
            a <= i <= e <= b@.len(),
            v@ == b@.subrange(a as int, i as int),
        decreases e - i,
    {
        v.push(b[i]);
        i = i + 1;
    }
    v
}

/// The external address that a Binding response reports (see
/// [`spec_parse_response`]). Any byte sequence is accepted without panicking
/// and without reading past the end.
pub fn parse_response(buf: &[u8], txid: &[u8; 12]) -> (r: Option<Endpoint>)
    ensures
        r == spec_parse_response(buf@, txid@),
{
    if buf.len() < 20 {
        return None;
    }
    if read_be16(buf, 0) != BINDING_SUCCESS {
        return None;
    }
    if read_be32(buf, 4) != MAGIC_COOKIE {
        return None;
    }
    let mut k: usize = 0;
    while k < 12
        invariant
            k <= 12,
            buf@.len() >= 20,
            forall|j: int| 0 <= j < k ==> buf@[8 + j] == txid@[j],
        decreases 12 - k,
    {
        if buf[8 + k] != txid[k] {
            assert(buf@.subrange(8, 20)[k as int] != txid@[k as int]);
            return None;
        }
        k = k + 1;
    }
    assert(buf@.subrange(8, 20) =~= txid@);
    let body_len = read_be16(buf, 2) as usize;
    let end: usize = if body_len < buf.len() - 20 {
        20 + body_len
    } else {
        buf.len()
    };
    assert(end as int == body_end(buf@));
    assert(spec_parse_response(buf@, txid@) == scan_attrs(buf@, 20, end as int, None));
    let mut pos: usize = 20;
    let mut fallback: Option<Endpoint> = None;
    while pos <= end && end - pos >= 4
        invariant
            end <= buf@.len(),
            20 <= pos,
            spec_parse_response(buf@, txid@) == scan_attrs(buf@, 20, end as int, None),
            scan_attrs(buf@, pos as int, end as int, fallback) == scan_attrs(buf@, 20, end as int, None),
        decreases end - pos,
    {
        proof {
            lemma_scan_step(buf@, pos as int, end as int, fallback);
        }
        let attr_type = read_be16(buf, pos);
        let attr_len = read_be16(buf, pos + 2) as usize;
        let vs = pos + 4;
        if end - vs < attr_len {
            return fallback;
        }
        let ve = vs + attr_len;
        let val = sub_slice(buf, vs, ve);
        let pad = (4 - attr_len % 4) % 4;
        let ghost old_fallback = fallback;
        if attr_type == ATTR_XOR_MAPPED_ADDRESS {
            let x = keep_plausible(parse_xor_mapped(val.as_slice()));
            if x.is_some() {
                return x;
            }
        } else if attr_type == ATTR_MAPPED_ADDRESS && fallback.is_none() {
            fallback = keep_plausible(parse_mapped(val.as_slice()));
        }
        assert(fallback == next_fallback(attr_type as int, val@, old_fallback));
        if end - ve < pad {
            return fallback;
        }
        pos = ve + pad;
    }
    proof {
        lemma_scan_done(buf@, pos as int, end as int, fallback);
    }
    fallback
}

/// Among the servers asked (address and transaction id each), the answer that
/// a datagram from `from` carries: the first server with that address decides
/// which transaction id the datagram must carry.
pub open spec fn spec_answer_from(pending: Seq<(Endpoint, Seq<u8>)>, from: Endpoint, datagram: Seq<u8>) -> Option<Endpoint>
    decreases pending.len(),
{
    if pending.len() == 0 {
        None
    } else if pending[0].0 == from {
        spec_parse_response(datagram, pending[0].1)
    } else {
        spec_answer_from(pending.drop_first(), from, datagram)
    }
}

pub open spec fn pending_view(p: Seq<(Endpoint, [u8; 12])>) -> Seq<(Endpoint, Seq<u8>)> {
    p.map_values(|x: (Endpoint, [u8; 12])| (x.0, x.1@))
}

/// The external address that a datagram from `from` reports, given the
/// servers that were asked (see [`spec_answer_from`]). Datagrams from anyone
/// else are foreign and give `None`.
pub fn answer_from(pending: &[(Endpoint, [u8; 12])], from: Endpoint, datagram: &[u8]) -> (r: Option<Endpoint>)
    ensures
        r == spec_answer_from(pending_view(pending@), from, datagram@),
{
    let mut i: usize = 0;
    assert(pending_view(pending@).skip(0) =~= pending_view(pending@));
    while i < pending.len()
        invariant
            i <= pending@.len(),
            spec_answer_from(pending_view(pending@), from, datagram@) == spec_answer_from(
                pending_view(pending@).skip(i as int),
                from,
                datagram@,
            ),
        decreases pending@.len() - i,
    {
        proof {
            assert(pending_view(pending@).skip(i as int).drop_first() =~= pending_view(pending@).skip(i + 1));
            assert(pending_view(pending@).skip(i as int)[0] == (pending@[i as int].0, pending@[i as int].1@));
        }
        if pending[i].0 == from {
            return parse_response(datagram, &pending[i].1);
        }
        i = i + 1;
    }
    None
}

/// The built-in pool of STUN servers, used when the configuration names none.
pub open spec fn default_stun() -> Seq<Seq<char>> {
    seq![
        "stun.l.google.com:19302"@,
        "stun1.l.google.com:19302"@,
        "stun.cloudflare.com:3478"@,
        "stun.nextcloud.com:443"@,
    ]
}

pub open spec fn string_views(v: Seq<String>) -> Seq<Seq<char>> {
    v.map_values(|s: String| s@)
}

/// The servers to ask: the configured ones, or the built-in pool when none
/// are configured.
pub fn stun_servers(configured: &[String]) -> (r: Vec<String>)
    ensures
        string_views(r@) == if configured@.len() == 0 {
            default_stun()
        } else {
            string_views(configured@)
        },
{
    let mut r: Vec<String> = Vec::new();
    if configured.len() == 0 {
        r.push(String::from_str("stun.l.google.com:19302"));
        r.push(String::from_str("stun1.l.google.com:19302"));
        r.push(String::from_str("stun.cloudflare.com:3478"));
        r.push(String::from_str("stun.nextcloud.com:443"));
        assert(string_views(r@) =~= default_stun());
        return r;
    }
    let mut i: usize = 0;
    while i < configured.len()
        invariant
            i <= configured@.len(),
            r@.len() == i,
            string_views(r@) == string_views(configured@.take(i as int)),
        decreases configured@.len() - i,
    {
        let ghost before = r@;
        r.push(configured[i].clone());
        proof {
            assert forall|k: int| 0 <= k <= i implies #[trigger] string_views(r@)[k] == string_views(
                configured@.take(i + 1),
            )[k] by {
                if k < i {
                    assert(r@[k] == before[k]);
                    assert(string_views(before)[k] == string_views(configured@.take(i as int))[k]);
                }
            }
        }
        i = i + 1;
        assert(string_views(r@) =~= string_views(configured@.take(i as int)));
    }
    assert(configured@.take(configured@.len() as int) =~= configured@);
    r
}

/// At most the first two elements of `s`.
pub open spec fn first_two<T>(s: Seq<T>) -> Seq<T> {
    if s.len() < 2 {
        s
    } else {
        s.take(2)
    }
}

/// The servers a NAT keepalive pokes: the first two of [`stun_servers`].
pub fn keepalive_servers(configured: &[String]) -> (r: Vec<String>)
    ensures
        string_views(r@) == first_two(
            if configured@.len() == 0 {
                default_stun()
            } else {
                string_views(configured@)
            },
        ),
{
    let all = stun_servers(configured);
    let mut r: Vec<String> = Vec::new();
    let mut i: usize = 0;
    while i < all.len() && i < 2
        invariant
            i <= 2,
            i <= all@.len(),
            r@.len() == i,
            string_views(r@) == string_views(all@).take(i as int),
        decreases 2 - i,
    {
        let ghost before = r@;
        r.push(all[i].clone());
        proof {
            assert forall|k: int| 0 <= k <= i implies #[trigger] string_views(r@)[k] == string_views(all@).take(
                i + 1,
            )[k] by {
                if k < i {
                    assert(r@[k] == before[k]);
                    assert(string_views(before)[k] == string_views(all@).take(i as int)[k]);
                }
            }
        }
        i = i + 1;
        assert(string_views(r@) =~= string_views(all@).take(i as int));
    }
    assert(string_views(all@).len() == all@.len());
    assert(first_two(string_views(all@)) =~= string_views(all@).take(i as int));
    r
}

/// The error when no external address could be learnt: either no server
/// could even be asked, or none answered in time.
pub fn no_reflexive_address(asked_any: bool) -> (e: Error)
    ensures
        e matches Error::Net(m) && m@ == if asked_any {
            "Сеть не отвечает — не удаётся узнать свой адрес в интернете. Проверьте подключение."@
        } else {
            "Не удаётся узнать свой адрес в интернете. Проверьте подключение."@
        },
{
    if asked_any {
        Error::Net(String::from_str("Сеть не отвечает — не удаётся узнать свой адрес в интернете. Проверьте подключение."))
    } else {
        Error::Net(String::from_str("Не удаётся узнать свой адрес в интернете. Проверьте подключение."))
    }
}

/// Telling the kind of NAT apart needs two servers with different IPs: a
/// server is asked only if its IP is new, and it is remembered either way.
pub fn first_time_ip(seen: &mut Vec<Ip>, ip: Ip) -> (fresh: bool)
    ensures
        fresh == !old(seen)@.contains(ip),
        final(seen)@ == if fresh {
            old(seen)@.push(ip)
        } else {
            old(seen)@
        },
{
    let mut i: usize = 0;
    while i < seen.len()
        invariant
            i <= seen@.len(),
            seen@ == old(seen)@,
            forall|k: int| 0 <= k < i ==> seen@[k] != ip,
        decreases seen@.len() - i,
    {
        if seen[i] == ip {
            assert(seen@[i as int] == ip);
            return false;
        }
        i = i + 1;
    }
    seen.push(ip);
    true
}

/// Whether one of the counted answers came from `server`.
pub open spec fn answered_by(answers: Seq<(Endpoint, u16)>, server: Endpoint) -> bool {
    exists|k: int| 0 <= k < answers.len() && #[trigger] answers[k].0 == server
}

/// No two counted answers came from the same server.
pub open spec fn one_per_server(answers: Seq<(Endpoint, u16)>) -> bool {
    forall|i: int, j: int| 0 <= i < j < answers.len() ==> #[trigger] answers[i].0 != #[trigger] answers[j].0
}

/// The counted answers after a datagram from `from`: a valid answer of an
/// asked server that has not been counted yet adds that server and the
/// external port it reports; anything else (a foreign or malformed datagram,
/// a second answer of the same server) leaves them as they were.
pub open spec fn spec_record_answer(
    answers: Seq<(Endpoint, u16)>,
    pending: Seq<(Endpoint, Seq<u8>)>,
    from: Endpoint,
    datagram: Seq<u8>,
) -> Seq<(Endpoint, u16)> {
    match spec_answer_from(pending, from, datagram) {
        Some(a) => if answered_by(answers, from) {
            answers
        } else {
            answers.push((from, a.port))
        },
        None => answers,
    }
}

/// Count a datagram towards the mapping check (see [`spec_record_answer`]);
/// whether it was counted is returned.
pub fn record_mapping_answer(
    answers: &mut Vec<(Endpoint, u16)>,
    pending: &[(Endpoint, [u8; 12])],
    from: Endpoint,
    datagram: &[u8],
) -> (counted: bool)
    ensures
        final(answers)@ == spec_record_answer(old(answers)@, pending_view(pending@), from, datagram@),
        counted == (final(answers)@.len() == old(answers)@.len() + 1),
        one_per_server(old(answers)@) ==> one_per_server(final(answers)@),
{
    let reported = answer_from(pending, from, datagram);
    match reported {
        Some(a) => {
            let mut i: usize = 0;
            while i < answers.len()
                invariant
                    i <= answers@.len(),
                    answers@ == old(answers)@,
                    forall|k: int| 0 <= k < i ==> answers@[k].0 != from,
                decreases answers@.len() - i,
            {
                if answers[i].0 == from {
                    assert(answers@[i as int].0 == from);
                    return false;
                }
                i = i + 1;
            }
            answers.push((from, a.port));
            true
        },
        None => false,
    }
}

/// The NAT's mapping behaviour from the answers of two different servers:
/// the same external port means endpoint-independent mapping ("cone"),
/// different ports a strict NAT ("symmetric"); with fewer than two answers
/// nothing can be said ("").
pub fn mapping_verdict(answers: &[(Endpoint, u16)]) -> (r: &'static str)
    ensures
        r@ == if answers@.len() < 2 {
            ""@
        } else if answers@[0].1 == answers@[1].1 {
            "cone"@
        } else {
            "symmetric"@
        },
{
    if answers.len() < 2 {
        ""
    } else if answers[0].1 == answers[1].1 {
        "cone"
    } else {
        "symmetric"
    }
}

/// A server is counted once: a datagram from a server whose answer is
/// already counted changes nothing, and answers that came from different
/// servers stay from different servers.
pub proof fn law_one_answer_per_server(
    answers: Seq<(Endpoint, u16)>,
    pending: Seq<(Endpoint, Seq<u8>)>,
    from: Endpoint,
    datagram: Seq<u8>,
)
    requires
        one_per_server(answers),
    ensures
        one_per_server(spec_record_answer(answers, pending, from, datagram)),
        answered_by(answers, from) ==> spec_record_answer(answers, pending, from, datagram) == answers,
{
}

/// A verdict is only given on the answers of two different servers: when
/// every counted answer comes from its own server, "cone" or "symmetric"
/// compares the ports that two different servers reported.
pub proof fn law_verdict_compares_two_servers(answers: Seq<(Endpoint, u16)>)
    requires
        one_per_server(answers),
        answers.len() >= 2,
    ensures
        answers[0].0 != answers[1].0,
{
}

/// Whether an optional address is either nothing or a plausible external one.
pub open spec fn nothing_or_plausible(a: Option<Endpoint>) -> bool {
    a matches Some(e) ==> spec_plausible_external(e)
}

proof fn lemma_scan_plausible(buf: Seq<u8>, pos: int, end: int, fallback: Option<Endpoint>)
    requires
        nothing_or_plausible(fallback),
    ensures
        nothing_or_plausible(scan_attrs(buf, pos, end, fallback)),
    decreases end - pos,
{
    reveal(scan_attrs);
    if pos + 4 > end || pos < 0 {
    } else {
        let t = be16(buf, pos);
        let len = be16(buf, pos + 2);
        let vs = pos + 4;
        let ve = vs + len;
        if ve <= end {
            let val = buf.subrange(vs, ve);
            let next = ve + (4 - len % 4) % 4;
            let fb = next_fallback(t, val, fallback);
            if next <= end {
                lemma_scan_plausible(buf, next, end, fb);
            }
        }
    }
}

/// Whatever address a response yields can be our external address: an
/// IPv4 public address with a port. Loopback, private, link-local,
/// multicast, broadcast and IPv6 answers never come out.
pub proof fn law_response_address_is_plausible(buf: Seq<u8>, txid: Seq<u8>)
    ensures
        nothing_or_plausible(spec_parse_response(buf, txid)),
{
    if buf.len() >= 20 && be16(buf, 0) == BINDING_SUCCESS && be32(buf, 4) == MAGIC_COOKIE && buf.subrange(8, 20)
        == txid {
        lemma_scan_plausible(buf, 20, body_end(buf), None);
    }
}

/// An answer carrying another transaction id is never taken for ours.
pub proof fn law_foreign_transaction_is_rejected(buf: Seq<u8>, txid: Seq<u8>)
    requires
        buf.len() >= 20,
        buf.subrange(8, 20) != txid,
    ensures
        spec_parse_response(buf, txid) is None,
{
}

/// The bytes of a success response with transaction id `txid` and one
/// XOR-MAPPED-ADDRESS attribute reporting `ip`:`port`, as a STUN server
/// writes it.
pub open spec fn xor_response(txid: Seq<u8>, ip: u32, port: u16) -> Seq<u8> {
    let xp = port ^ 0x2112u16;
    let xi = ip ^ MAGIC_COOKIE;
    seq![0x01u8, 0x01, 0x00, 0x0C, 0x21, 0x12, 0xA4, 0x42] + txid + seq![
        0x00u8,
        0x20,
        0x00,
        0x08,
        0x00,
        0x01,
        (xp / 256) as u8,
        (xp % 256) as u8,
        (xi / 0x100_0000) as u8,
        ((xi / 0x1_0000) % 256) as u8,
        ((xi / 0x100) % 256) as u8,
        (xi % 256) as u8,
    ]
}

/// The response parser reads back exactly the address a server reports in
/// XOR-MAPPED-ADDRESS, when that address is plausible.
pub proof fn law_xor_mapped_round_trip(txid: Seq<u8>, ip: u32, port: u16)
    requires
        txid.len() == 12,
        spec_plausible_external(Endpoint { ip: Ip::V4(ip), port }),
    ensures
        spec_parse_response(xor_response(txid, ip, port), txid) == Some(Endpoint { ip: Ip::V4(ip), port }),
{
    let b = xor_response(txid, ip, port);
    let xp = port ^ 0x2112u16;
    let xi = ip ^ MAGIC_COOKIE;
    assert(b.len() == 32);
    assert(b.subrange(8, 20) =~= txid);
    assert(be16(b, 0) == BINDING_SUCCESS);
    assert(be32(b, 4) == MAGIC_COOKIE);
    assert(be16(b, 2) == 12);
    assert(body_end(b) == 32);
    assert(be16(b, 20) == ATTR_XOR_MAPPED_ADDRESS);
    assert(be16(b, 22) == 8);
    let val = b.subrange(24, 32);
    assert(val[1] == 0x01);
    assert(be16(val, 2) == xp as int);
    assert(be32(val, 4) == xi as int);
    assert((xp ^ 0x2112u16) == port) by (bit_vector)
        requires
            xp == port ^ 0x2112u16,
    ;
    assert((xi ^ MAGIC_COOKIE) == ip) by (bit_vector)
        requires
            xi == ip ^ MAGIC_COOKIE,
    ;
    assert(spec_parse_xor_mapped(val) == Some(Endpoint { ip: Ip::V4(ip), port }));
    lemma_scan_step(b, 20, 32, None);
}

} // verus!
