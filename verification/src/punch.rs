//! NAT hole punching: the per-host punch tokens, and what each side does with
//! every datagram that arrives while the path is being opened.
//!
//! The tokens are derived from the host id. Both sides know it, an observer
//! does not (it travels to the coordinator over TLS), so to an onlooker the
//! tokens are unpredictable bytes that differ between networks.

use vstd::prelude::*;
use crate::addr::{Endpoint, Ip};

verus! {

pub const FNV_OFFSET: u64 = 0xcbf29ce484222325;
pub const FNV_PRIME: u64 = 0x00000100000001b3;

/// 64-bit FNV-1a of `data`: stable across versions and platforms, so a guest
/// and a host built apart derive the same tokens.
pub open spec fn spec_fnv1a(data: Seq<u8>) -> u64
    decreases data.len(),
{
    if data.len() == 0 {
        FNV_OFFSET
    } else {
        (spec_fnv1a(data.drop_last()) ^ (data.last() as u64)).wrapping_mul(FNV_PRIME)
    }
}

/// 64-bit FNV-1a (see [`spec_fnv1a`]).
pub fn fnv1a(data: &[u8]) -> (h: u64)
    ensures
        h == spec_fnv1a(data@),
{
    let mut h: u64 = FNV_OFFSET;
    let mut i: usize = 0;
    while i < data.len()
        invariant
            i <= data@.len(),
            h == spec_fnv1a(data@.take(i as int)),
        decreases data@.len() - i,
    {
        assert(data@.take(i + 1).drop_last() =~= data@.take(i as int));
        h = (h ^ (data[i] as u64)).wrapping_mul(FNV_PRIME);
        i = i + 1;
    }
    assert(data@.take(data@.len() as int) =~= data@);
    h
}

/// The eight little-endian bytes of `x`.
pub open spec fn le_bytes(x: u64) -> Seq<u8> {
    seq![
        x as u8,
        (x >> 8u64) as u8,
        (x >> 16u64) as u8,
        (x >> 24u64) as u8,
        (x >> 32u64) as u8,
        (x >> 40u64) as u8,
        (x >> 48u64) as u8,
        (x >> 56u64) as u8,
    ]
}

fn to_le_bytes(x: u64) -> (b: [u8; 8])
    ensures
        b@ == le_bytes(x),
{
    let b = [
        x as u8,
        (x >> 8u64) as u8,
        (x >> 16u64) as u8,
        (x >> 24u64) as u8,
        (x >> 32u64) as u8,
        (x >> 40u64) as u8,
        (x >> 48u64) as u8,
        (x >> 56u64) as u8,
    ];
    assert(b@ =~= le_bytes(x));
    b
}

/// The ASCII bytes of the four token kinds, each followed by a colon:
/// `bmv-punch:`, `bmv-pack:`, `bmv-ping:`, `bmv-pong:`.
pub open spec fn kind_punch() -> Seq<u8> {
    seq![98u8, 109, 118, 45, 112, 117, 110, 99, 104, 58]
}

pub open spec fn kind_pack() -> Seq<u8> {
    seq![98u8, 109, 118, 45, 112, 97, 99, 107, 58]
}

pub open spec fn kind_ping() -> Seq<u8> {
    seq![98u8, 109, 118, 45, 112, 105, 110, 103, 58]
}

pub open spec fn kind_pong() -> Seq<u8> {
    seq![98u8, 109, 118, 45, 112, 111, 110, 103, 58]
}

/// The token of one kind for a host: FNV-1a of `kind:host_id` (the id in
/// UTF-8), as eight little-endian bytes.
pub open spec fn token(kind: Seq<u8>, host_id: Seq<char>) -> Seq<u8> {
    le_bytes(spec_fnv1a(kind + vstd::utf8::encode_utf8(host_id)))
}

/// The four tokens of one punching session, derived from the host id.
#[derive(Clone, Copy, PartialEq, Eq, Debug)]
pub struct PunchTokens {
    /// "I am punching through to you."
    pub punch: [u8; 8],
    /// "I hear you": the way back is confirmed.
    pub pack: [u8; 8],
    /// "How far are you?": a latency probe that creates no state.
    pub ping: [u8; 8],
    /// The answer to a probe.
    pub pong: [u8; 8],
}

fn kind_token(kind: &[u8], host: &[u8]) -> (t: [u8; 8])
    ensures
        t@ == le_bytes(spec_fnv1a(kind@ + host@)),
{
    let mut v: Vec<u8> = Vec::new();
    let mut i: usize = 0;
    while i < kind.len()
        invariant
            i <= kind@.len(),
            v@ == kind@.take(i as int),
        decreases kind@.len() - i,
    {
        v.push(kind[i]);
        i = i + 1;
        assert(v@ =~= kind@.take(i as int));
    }
    let mut j: usize = 0;
    while j < host.len()
        invariant
            i == kind@.len(),
            j <= host@.len(),
            v@ == kind@ + host@.take(j as int),
        decreases host@.len() - j,
    {
        v.push(host[j]);
        j = j + 1;
        assert(v@ =~= kind@ + host@.take(j as int));
    }
    assert(kind@.take(kind@.len() as int) =~= kind@);
    assert(host@.take(host@.len() as int) =~= host@);
    to_le_bytes(fnv1a(v.as_slice()))
}

impl PunchTokens {
    /// Derive all four tokens from the host id.
    pub fn for_host(host_id: &str) -> (t: PunchTokens)
        ensures
            t.punch@ == token(kind_punch(), host_id@),
            t.pack@ == token(kind_pack(), host_id@),
            t.ping@ == token(kind_ping(), host_id@),
            t.pong@ == token(kind_pong(), host_id@),
    {
        let host = host_id.as_bytes();
        let punch: [u8; 10] = [98, 109, 118, 45, 112, 117, 110, 99, 104, 58];
        let pack: [u8; 9] = [98, 109, 118, 45, 112, 97, 99, 107, 58];
        let ping: [u8; 9] = [98, 109, 118, 45, 112, 105, 110, 103, 58];
        let pong: [u8; 9] = [98, 109, 118, 45, 112, 111, 110, 103, 58];
        assert(punch@ =~= kind_punch());
        assert(pack@ =~= kind_pack());
        assert(ping@ =~= kind_ping());
        assert(pong@ =~= kind_pong());
        PunchTokens {
            punch: kind_token(&punch, host),
            pack: kind_token(&pack, host),
            ping: kind_token(&ping, host),
            pong: kind_token(&pong, host),
        }
    }

    /// Whether `data` is the tail of the punching phase (a punch or its
    /// answer) rather than data.
    pub open spec fn spec_is_punch_noise(self, data: Seq<u8>) -> bool {
        data == self.punch@ || data == self.pack@
    }

    /// Whether `data` is punching noise (see [`PunchTokens::spec_is_punch_noise`]).
    pub fn is_punch_noise(&self, data: &[u8]) -> (b: bool)
        ensures
            b == self.spec_is_punch_noise(data@),
    {
        bytes_eq(data, &self.punch) || bytes_eq(data, &self.pack)
    }
}

/// Byte-wise equality of two slices.
pub fn bytes_eq(a: &[u8], b: &[u8]) -> (r: bool)
    ensures
        r == (a@ == b@),
{
    if a.len() != b.len() {
        return false;
    }
    let mut i: usize = 0;
    while i < a.len()
        invariant
            i <= a@.len() == b@.len(),
            forall|k: int| 0 <= k < i ==> a@[k] == b@[k],
        decreases a@.len() - i,
    {
        if a[i] != b[i] {
            return false;
        }
        i = i + 1;
    }
    assert(a@ =~= b@);
    true
}

/// Whether `e` is in `list`.
pub fn contains_endpoint(list: &[Endpoint], e: &Endpoint) -> (r: bool)
    ensures
        r == list@.contains(*e),
{
    let mut i: usize = 0;
    while i < list.len()
        invariant
            i <= list@.len(),
            forall|k: int| 0 <= k < i ==> list@[k] != *e,
        decreases list@.len() - i,
    {
        if list[i] == *e {
            assert(list@[i as int] == *e);
            return true;
        }
        i = i + 1;
    }
    false
}

/// Whether some endpoint of `list` has the address `ip`.
pub open spec fn has_ip(list: Seq<Endpoint>, ip: Ip) -> bool {
    exists|k: int| 0 <= k < list.len() && (#[trigger] list[k]).ip == ip
}

fn contains_ip(list: &[Endpoint], ip: &Ip) -> (r: bool)
    ensures
        r == has_ip(list@, *ip),
{
    let mut i: usize = 0;
    while i < list.len()
        invariant
            i <= list@.len(),
            forall|k: int| 0 <= k < i ==> (#[trigger] list@[k]).ip != *ip,
        decreases list@.len() - i,
    {
        if list[i].ip == *ip {
            assert(list@[i as int].ip == *ip);
            return true;
        }
        i = i + 1;
    }
    false
}

/// How many real ports of a strict host are learned from its counter-punches.
pub const MAX_LEARNED: usize = 4;

/// The punching side's memory between datagrams.
pub struct PunchState {
    /// Real ports of a host behind a strict (symmetric) NAT, learned from its
    /// counter-punch: the address a STUN server named to it was a different one.
    pub learned: Vec<Endpoint>,
    /// A peer whose punch arrived (its confirmation has not yet).
    pub punched_peer: Option<Endpoint>,
}

/// What to do with one datagram.
#[derive(PartialEq, Eq, Debug)]
pub enum PunchReply {
    /// Drop it: a stranger (a late STUN answer, a scanner).
    Ignore,
    /// The peer is punching to us: answer with the confirmation to `to` and go
    /// on punching.
    AnswerPack(Endpoint),
    /// The path is open: `peer`, and the first data packet if the peer has
    /// already moved on to the protocol.
    Connected { peer: Endpoint, first: Option<Vec<u8>> },
}

/// A datagram's sender is known: a candidate, or a port learned before.
pub open spec fn known_sender(learned: Seq<Endpoint>, peers: Seq<Endpoint>, from: Endpoint) -> bool {
    peers.contains(from) || learned.contains(from)
}

/// A punch from an unknown port of a candidate's IP teaches that port (a
/// strict host counter-punching from its real port), while there is room.
pub open spec fn learns_port(
    learned: Seq<Endpoint>,
    peers: Seq<Endpoint>,
    punch: Seq<u8>,
    data: Seq<u8>,
    from: Endpoint,
) -> bool {
    !known_sender(learned, peers, from) && data == punch && learned.len() < MAX_LEARNED && has_ip(peers, from.ip)
}

/// Whether the punching side takes a datagram into account at all.
pub open spec fn accepts(learned: Seq<Endpoint>, peers: Seq<Endpoint>, punch: Seq<u8>, data: Seq<u8>, from: Endpoint) -> bool {
    known_sender(learned, peers, from) || learns_port(learned, peers, punch, data, from)
}

impl PunchState {
    pub open spec fn wf(&self, peers: Seq<Endpoint>) -> bool {
        &&& self.learned@.len() <= MAX_LEARNED
        &&& forall|k: int| 0 <= k < self.learned@.len() ==> has_ip(peers, #[trigger] self.learned@[k].ip)
    }

    /// A fresh punching session.
    pub fn new() -> (s: PunchState)
        ensures
            s.learned@.len() == 0,
            s.punched_peer is None,
    {
        PunchState { learned: Vec::new(), punched_peer: None }
    }

    /// Where to send punches this round: the candidates, then the learned ports.
    pub fn targets(&self, peers: &[Endpoint]) -> (t: Vec<Endpoint>)
        ensures
            t@ == peers@ + self.learned@,
    {
        let mut t: Vec<Endpoint> = Vec::new();
        let mut i: usize = 0;
        while i < peers.len()
            invariant
                i <= peers@.len(),
                t@ == peers@.take(i as int),
            decreases peers@.len() - i,
        {
            t.push(peers[i]);
            i = i + 1;
            assert(t@ =~= peers@.take(i as int));
        }
        let mut j: usize = 0;
        while j < self.learned.len()
            invariant
                j <= self.learned@.len(),
                t@ == peers@ + self.learned@.take(j as int),
            decreases self.learned@.len() - j,
        {
            t.push(self.learned[j]);
            j = j + 1;
            assert(t@ =~= peers@ + self.learned@.take(j as int));
        }
        assert(peers@.take(peers@.len() as int) =~= peers@);
        assert(self.learned@.take(self.learned@.len() as int) =~= self.learned@);
        t
    }

    /// Handle one datagram `data` from `from` while punching towards `peers`.
    ///
    /// Only candidates and learned ports count. A punch from a candidate's IP
    /// but another port is a strict host counter-punching from its real port:
    /// it is learned (at most [`MAX_LEARNED`]). Then a punch is answered, a
    /// confirmation opens the path, and any other packet opens it too and is
    /// kept as the first data packet.
    pub fn on_datagram(&mut self, peers: &[Endpoint], tokens: &PunchTokens, data: &[u8], from: Endpoint) -> (r: PunchReply)
        requires
            old(self).wf(peers@),
        ensures
            final(self).wf(peers@),
            ({
                let learns = learns_port(old(self).learned@, peers@, tokens.punch@, data@, from);
                &&& final(self).learned@ == if learns {
                    old(self).learned@.push(from)
                } else {
                    old(self).learned@
                }
                &&& if !accepts(old(self).learned@, peers@, tokens.punch@, data@, from) {
                    r == PunchReply::Ignore && final(self).punched_peer == old(self).punched_peer
                } else if data@ == tokens.punch@ {
                    r == PunchReply::AnswerPack(from) && final(self).punched_peer == Some(from)
                } else if data@ == tokens.pack@ {
                    r == (PunchReply::Connected { peer: from, first: None })
                        && final(self).punched_peer == old(self).punched_peer
                } else {
                    (r matches PunchReply::Connected { peer, first: Some(d) } && peer == from && d@ == data@)
                        && final(self).punched_peer == old(self).punched_peer
                }
            }),
    {
        let is_punch = bytes_eq(data, &tokens.punch);
        if !contains_endpoint(peers, &from) && !contains_endpoint(self.learned.as_slice(), &from) {
            if is_punch && self.learned.len() < MAX_LEARNED && contains_ip(peers, &from.ip) {
                self.learned.push(from);
                proof {
                    assert forall|k: int| 0 <= k < self.learned@.len() implies has_ip(
                        peers@,
                        #[trigger] self.learned@[k].ip,
                    ) by {
                        if k < old(self).learned@.len() {
                            assert(self.learned@[k] == old(self).learned@[k]);
                        }
                    }
                }
            } else {
                return PunchReply::Ignore;
            }
        }
        if is_punch {
            self.punched_peer = Some(from);
            PunchReply::AnswerPack(from)
        } else if bytes_eq(data, &tokens.pack) {
            PunchReply::Connected { peer: from, first: None }
        } else {
            PunchReply::Connected { peer: from, first: Some(copy_bytes(data)) }
        }
    }

    /// At the end of a round: a peer whose punch arrived and who had one more
    /// round to receive ours counts as connected.
    pub fn round_over(&self) -> (r: Option<Endpoint>)
        ensures
            r == self.punched_peer,
    {
        self.punched_peer
    }
}

/// Whatever the punching side accepts comes from a candidate's IP: late
/// answers of STUN servers and strangers never open the path, and every port
/// it learns keeps that property.
pub proof fn law_punch_accepts_only_candidates(
    learned: Seq<Endpoint>,
    peers: Seq<Endpoint>,
    punch: Seq<u8>,
    data: Seq<u8>,
    from: Endpoint,
)
    requires
        forall|k: int| 0 <= k < learned.len() ==> has_ip(peers, #[trigger] learned[k].ip),
    ensures
        accepts(learned, peers, punch, data, from) ==> has_ip(peers, from.ip),
{
    if peers.contains(from) {
        let k = choose|k: int| 0 <= k < peers.len() && peers[k] == from;
        assert(peers[k].ip == from.ip);
    } else if learned.contains(from) {
        let k = choose|k: int| 0 <= k < learned.len() && learned[k] == from;
        assert(has_ip(peers, learned[k].ip));
    }
}

/// A copy of a byte slice.
pub fn copy_bytes(b: &[u8]) -> (v: Vec<u8>)
    ensures
        v@ == b@,
{
    let mut v: Vec<u8> = Vec::new();
    let mut i: usize = 0;
    while i < b.len()
        invariant
            i <= b@.len(),
            v@ == b@.take(i as int),
        decreases b@.len() - i,
    {
        v.push(b[i]);
        i = i + 1;
        assert(v@ =~= b@.take(i as int));
    }
    assert(b@.take(b@.len() as int) =~= b@);
    v
}

/// A latency probe's answer counts only if it is the host's answer token and
/// comes from one of the addresses probed.
pub fn probe_answer_accepted(tokens: &PunchTokens, probed: &[Endpoint], data: &[u8], from: &Endpoint) -> (b: bool)
    ensures
        b == (data@ == tokens.pong@ && probed@.contains(*from)),
{
    bytes_eq(data, &tokens.pong) && contains_endpoint(probed, from)
}

/// A link to one peer keeps a datagram only if it comes from that peer and is
/// not punching noise.
pub fn link_accepts(tokens: &PunchTokens, peer: &Endpoint, from: &Endpoint, data: &[u8]) -> (b: bool)
    ensures
        b == (*from == *peer && !tokens.spec_is_punch_noise(data@)),
{
    *from == *peer && !tokens.is_punch_noise(data)
}

} // verus!
