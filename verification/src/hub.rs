//! The host's hub: one UDP socket serving many guests. What a datagram from an
//! unknown address may create, who the coordinator vouched for, and the flood
//! quota for everybody else.
//!
//! The punch token derives from the host id, which a public host shows in the
//! open directory, and UDP source addresses can be forged. So a punch from an
//! address nobody vouched for may take one of only a few places; a guest the
//! coordinator announced gets in over the quota.

use vstd::prelude::*;
use crate::addr::{Endpoint, Ip};
use crate::punch::{PunchTokens, bytes_eq};

verus! {

/// Ceiling on peers of one hub: a memory guard against spoofed punches.
pub const MAX_HUB_PEERS: usize = 4096;
/// How long the coordinator's word for a guest's address holds.
pub const VOUCH_TTL_MS: u64 = 120_000;
/// Ceiling on the table of vouched addresses.
pub const MAX_VOUCHED: usize = 1024;
/// How many peers nobody vouched for may be let in at the same time.
pub const MAX_UNVOUCHED_PEERS: usize = 8;

/// Whether a vouch made at `t` still holds at `now` (a clock that went
/// backwards counts as no time passed).
pub open spec fn fresh(t: u64, now: u64) -> bool {
    (if now >= t {
        now - t
    } else {
        0
    }) < VOUCH_TTL_MS
}

/// Index of the entry for `ip` (the last one), or -1.
pub open spec fn find_ip(s: Seq<(Ip, u64)>, ip: Ip) -> int
    decreases s.len(),
{
    if s.len() == 0 {
        -1
    } else if s.last().0 == ip {
        s.len() - 1
    } else {
        find_ip(s.drop_last(), ip)
    }
}

proof fn lemma_find_ip_range(s: Seq<(Ip, u64)>, ip: Ip)
    ensures
        -1 <= find_ip(s, ip) < s.len(),
        find_ip(s, ip) >= 0 ==> s[find_ip(s, ip)].0 == ip,
        find_ip(s, ip) == -1 ==> forall|k: int| 0 <= k < s.len() ==> (#[trigger] s[k]).0 != ip,
    decreases s.len(),
{
    if s.len() > 0 {
        lemma_find_ip_range(s.drop_last(), ip);
        if s.last().0 != ip {
            assert forall|k: int| 0 <= k < s.len() && find_ip(s, ip) == -1 implies (#[trigger] s[k]).0 != ip by {
                if k < s.len() - 1 {
                    assert(s[k] == s.drop_last()[k]);
                }
            }
        }
    }
}

/// Whether the coordinator's word for `ip` holds at `now`.
pub open spec fn is_vouched(s: Seq<(Ip, u64)>, ip: Ip, now: u64) -> bool {
    find_ip(s, ip) >= 0 && fresh(s[find_ip(s, ip)].1, now)
}

/// The vouch table after the coordinator named `addrs` at `now`: each
/// address's IP is (re)stamped with `now`; once the table is full of live
/// entries no new IP is taken.
pub open spec fn vouch_seq(s: Seq<(Ip, u64)>, addrs: Seq<Endpoint>, now: u64) -> Seq<(Ip, u64)>
    decreases addrs.len(),
{
    if addrs.len() == 0 {
        s
    } else {
        let ip = addrs[0].ip;
        let i = find_ip(s, ip);
        if i >= 0 {
            vouch_seq(s.update(i, (ip, now)), addrs.drop_first(), now)
        } else if s.len() >= MAX_VOUCHED {
            s
        } else {
            vouch_seq(s.push((ip, now)), addrs.drop_first(), now)
        }
    }
}

/// The live entries of a vouch table at `now`.
pub open spec fn pruned(s: Seq<(Ip, u64)>, now: u64) -> Seq<(Ip, u64)> {
    s.filter(|e: (Ip, u64)| fresh(e.1, now))
}

/// How many of the peers were let in without anyone vouching for them.
pub open spec fn count_unvouched(s: Seq<(Endpoint, bool)>) -> nat
    decreases s.len(),
{
    if s.len() == 0 {
        0
    } else {
        count_unvouched(s.drop_last()) + if s.last().1 {
            0nat
        } else {
            1nat
        }
    }
}

proof fn lemma_count_remove(s: Seq<(Endpoint, bool)>, i: int)
    requires
        0 <= i < s.len(),
    ensures
        count_unvouched(s.remove(i)) + (if s[i].1 {
            0nat
        } else {
            1nat
        }) == count_unvouched(s),
    decreases s.len(),
{
    if i == s.len() - 1 {
        assert(s.remove(i) =~= s.drop_last());
    } else {
        lemma_count_remove(s.drop_last(), i);
        assert(s.remove(i).drop_last() =~= s.drop_last().remove(i));
        assert(s.remove(i).last() == s.last());
    }
}

proof fn lemma_count_push(s: Seq<(Endpoint, bool)>, x: (Endpoint, bool))
    ensures
        count_unvouched(s.push(x)) == count_unvouched(s) + if x.1 {
            0nat
        } else {
            1nat
        },
{
    assert(s.push(x).drop_last() =~= s);
}

/// No IP has two entries.
pub open spec fn distinct_ips(s: Seq<(Ip, u64)>) -> bool {
    forall|i: int, j: int| 0 <= i < j < s.len() ==> (#[trigger] s[i]).0 != (#[trigger] s[j]).0
}

/// No endpoint has two links.
pub open spec fn distinct_peers(s: Seq<(Endpoint, bool)>) -> bool {
    forall|i: int, j: int| 0 <= i < j < s.len() ==> (#[trigger] s[i]).0 != (#[trigger] s[j]).0
}

/// Whether `e` has a link in the hub.
pub open spec fn has_peer(s: Seq<(Endpoint, bool)>, e: Endpoint) -> bool {
    exists|k: int| 0 <= k < s.len() && (#[trigger] s[k]).0 == e
}

/// The hub's shared bookkeeping: who has a link, who the coordinator vouched
/// for, and how many peers sit on the unvouched quota.
pub struct HubState {
    /// Peers with a link, and whether each one was vouched for on admission.
    peers: Vec<(Endpoint, bool)>,
    /// IPs the coordinator named, with the time (ms) it named them. Keyed by
    /// IP, not IP and port: behind a strict NAT the guest arrives from another
    /// port than the one it named.
    vouched: Vec<(Ip, u64)>,
    /// Peers currently let in without a vouch.
    unvouched: usize,
}

impl HubState {
    pub closed spec fn peers_view(&self) -> Seq<(Endpoint, bool)> {
        self.peers@
    }

    pub closed spec fn vouched_view(&self) -> Seq<(Ip, u64)> {
        self.vouched@
    }

    pub closed spec fn unvouched_count(&self) -> nat {
        self.unvouched as nat
    }

    /// The bookkeeping agrees with itself and stays within its ceilings, no
    /// endpoint has two links and no IP two vouches.
    pub closed spec fn wf(&self) -> bool {
        &&& self.unvouched as nat == count_unvouched(self.peers@)
        &&& distinct_peers(self.peers@)
        &&& distinct_ips(self.vouched@)
        &&& self.unvouched <= MAX_UNVOUCHED_PEERS
        &&& self.peers@.len() <= MAX_HUB_PEERS
        &&& self.vouched@.len() <= MAX_VOUCHED
    }

    /// The unvouched quota and the peer ceiling always hold.
    pub proof fn lemma_bounds(&self)
        requires
            self.wf(),
        ensures
            self.unvouched_count() == count_unvouched(self.peers_view()),
            self.unvouched_count() <= MAX_UNVOUCHED_PEERS,
            self.peers_view().len() <= MAX_HUB_PEERS,
            self.vouched_view().len() <= MAX_VOUCHED,
            distinct_peers(self.peers_view()),
            distinct_ips(self.vouched_view()),
    {
    }

    /// An empty hub.
    pub fn new() -> (h: HubState)
        ensures
            h.wf(),
            h.peers_view().len() == 0,
            h.vouched_view().len() == 0,
            h.unvouched_count() == 0,
    {
        HubState { peers: Vec::new(), vouched: Vec::new(), unvouched: 0 }
    }

    /// Number of peers with a link.
    pub fn peer_count(&self) -> (n: usize)
        ensures
            n == self.peers_view().len(),
    {
        self.peers.len()
    }

    /// Number of peers on the unvouched quota.
    pub fn unvouched(&self) -> (n: usize)
        ensures
            n == self.unvouched_count(),
    {
        self.unvouched
    }

    /// Whether `from` has a link.
    pub fn knows(&self, from: &Endpoint) -> (b: bool)
        ensures
            b == has_peer(self.peers_view(), *from),
    {
        let mut i: usize = 0;
        while i < self.peers.len()
            invariant
                i <= self.peers@.len(),
                forall|k: int| 0 <= k < i ==> (#[trigger] self.peers@[k]).0 != *from,
            decreases self.peers@.len() - i,
        {
            if self.peers[i].0 == *from {
                assert(self.peers@[i as int].0 == *from);
                return true;
            }
            i = i + 1;
        }
        false
    }

    fn find_vouch(&self, ip: &Ip) -> (r: Option<usize>)
        ensures
            r matches Some(i) ==> i as int == find_ip(self.vouched@, *ip),
            r is None ==> find_ip(self.vouched@, *ip) == -1,
    {
        let mut i: usize = self.vouched.len();
        assert(self.vouched@.take(i as int) =~= self.vouched@);
        while i > 0
            invariant
                i <= self.vouched@.len(),
                find_ip(self.vouched@, *ip) == find_ip(self.vouched@.take(i as int), *ip),
            decreases i,
        {
            let ghost t = self.vouched@.take(i as int);
            assert(t.drop_last() =~= self.vouched@.take(i - 1));
            if self.vouched[i - 1].0 == *ip {
                return Some(i - 1);
            }
            i = i - 1;
        }
        None
    }

    /// Whether the coordinator's word for `ip` holds at `now`.
    pub fn vouched_for(&self, ip: &Ip, now: u64) -> (b: bool)
        ensures
            b == is_vouched(self.vouched_view(), *ip, now),
    {
        proof {
            lemma_find_ip_range(self.vouched@, *ip);
        }
        match self.find_vouch(ip) {
            Some(i) => {
                let t = self.vouched[i].1;
                (if now >= t {
                    now - t
                } else {
                    0
                }) < VOUCH_TTL_MS
            },
            None => false,
        }
    }

    /// The coordinator named the addresses of a waiting guest at `now`: from
    /// now on their punches pass over the quota. Stale entries are dropped
    /// first.
    pub fn vouch(&mut self, addrs: &[Endpoint], now: u64)
        requires
            old(self).wf(),
        ensures
            final(self).wf(),
            final(self).vouched_view() == vouch_seq(pruned(old(self).vouched_view(), now), addrs@, now),
            final(self).peers_view() == old(self).peers_view(),
            final(self).unvouched_count() == old(self).unvouched_count(),
    {
        let mut kept: Vec<(Ip, u64)> = Vec::new();
        let mut i: usize = 0;
        while i < self.vouched.len()
            invariant
                i <= self.vouched@.len() <= MAX_VOUCHED,
                kept@ == pruned(self.vouched@.take(i as int), now),
                kept@.len() <= i,
                distinct_ips(self.vouched@),
                distinct_ips(kept@),
                forall|a: int| 0 <= a < kept@.len() ==> exists|m: int| 0 <= m < i && (#[trigger] kept@[a]).0 == self.vouched@[m].0,
            decreases self.vouched@.len() - i,
        {
            proof {
                assert(self.vouched@.take(i + 1).drop_last() =~= self.vouched@.take(i as int));
                reveal(Seq::filter);
            }
            let e = self.vouched[i];
            if (if now >= e.1 {
                now - e.1
            } else {
                0
            }) < VOUCH_TTL_MS {
                proof {
                    assert forall|a: int| 0 <= a < kept@.len() implies (#[trigger] kept@[a]).0 != e.0 by {
                        let m = choose|m: int| 0 <= m < i && kept@[a].0 == self.vouched@[m].0;
                        assert(self.vouched@[m].0 != self.vouched@[i as int].0);
                    }
                }
                let ghost before = kept@;
                kept.push(e);
                proof {
                    assert forall|a: int| 0 <= a < kept@.len() implies exists|m: int| 0 <= m < i + 1 && (#[trigger] kept@[a]).0
                        == self.vouched@[m].0 by {
                        if a < before.len() {
                            assert(kept@[a] == before[a]);
                            let m = choose|m: int| 0 <= m < i && before[a].0 == self.vouched@[m].0;
                        } else {
                            assert(kept@[a] == self.vouched@[i as int]);
                        }
                    }
                }
            }
            i = i + 1;
        }
        assert(self.vouched@.take(self.vouched@.len() as int) =~= self.vouched@);
        self.vouched = kept;
        let ghost start = self.vouched@;
        let mut j: usize = 0;
        let mut full = false;
        assert(addrs@.skip(0) =~= addrs@);
        while j < addrs.len() && !full
            invariant
                j <= addrs@.len(),
                self.vouched@.len() <= MAX_VOUCHED,
                distinct_ips(self.vouched@),
                vouch_seq(start, addrs@, now) == if full {
                    self.vouched@
                } else {
                    vouch_seq(self.vouched@, addrs@.skip(j as int), now)
                },
                self.peers@ == old(self).peers@,
                self.unvouched == old(self).unvouched,
            decreases addrs@.len() - j,
        {
            let ip = addrs[j].ip;
            proof {
                assert(addrs@.skip(j as int)[0] == addrs@[j as int]);
                assert(addrs@.skip(j as int).drop_first() =~= addrs@.skip(j + 1));
                lemma_find_ip_range(self.vouched@, ip);
            }
            match self.find_vouch(&ip) {
                Some(k) => {
                    let ghost before = self.vouched@;
                    self.vouched.set(k, (ip, now));
                    proof {
                        assert forall|a: int, b: int| 0 <= a < b < self.vouched@.len() implies (#[trigger] self.vouched@[a]).0
                            != (#[trigger] self.vouched@[b]).0 by {
                            assert(before[a].0 != before[b].0);
                        }
                    }
                },
                None => {
                    if self.vouched.len() >= MAX_VOUCHED {
                        full = true;
                    } else {
                        self.vouched.push((ip, now));
                    }
                },
            }
            j = j + 1;
        }
        if !full {
            assert(addrs@.skip(j as int) =~= Seq::<Endpoint>::empty());
        }
    }

    /// Whether a new peer at `from` is refused at `now`: the hub is full, or
    /// nobody vouched for it and the unvouched quota is used up.
    pub open spec fn refuses(&self, from: Endpoint, now: u64) -> bool {
        self.peers_view().len() >= MAX_HUB_PEERS || (!is_vouched(self.vouched_view(), from.ip, now)
            && self.unvouched_count() >= MAX_UNVOUCHED_PEERS)
    }

    /// Let in a peer at `from` (which has no link yet) at `now`. `None` is a
    /// refusal: the hub is full, or nobody vouched for `from` and the
    /// unvouched quota is used up. `Some(v)` tells whether it was vouched for.
    pub fn let_in(&mut self, from: Endpoint, now: u64) -> (r: Option<bool>)
        requires
            old(self).wf(),
            !has_peer(old(self).peers_view(), from),
        ensures
            final(self).wf(),
            final(self).vouched_view() == old(self).vouched_view(),
            ({
                let v = is_vouched(old(self).vouched_view(), from.ip, now);
                if old(self).refuses(from, now) {
                    r is None && final(self).peers_view() == old(self).peers_view()
                        && final(self).unvouched_count() == old(self).unvouched_count()
                } else {
                    r == Some(v) && final(self).peers_view() == old(self).peers_view().push((from, v))
                        && final(self).unvouched_count() == old(self).unvouched_count() + if v {
                        0nat
                    } else {
                        1nat
                    }
                }
            }),
    {
        let v = self.vouched_for(&from.ip, now);
        if self.peers.len() >= MAX_HUB_PEERS {
            return None;
        }
        if !v && self.unvouched >= MAX_UNVOUCHED_PEERS {
            return None;
        }
        proof {
            lemma_count_push(self.peers@, (from, v));
            assert forall|k: int| 0 <= k < self.peers@.len() implies (#[trigger] self.peers@[k]).0 != from by {
                if self.peers@[k].0 == from {
                    assert(has_peer(self.peers@, from));
                }
            }
        }
        self.peers.push((from, v));
        if !v {
            self.unvouched = self.unvouched + 1;
        }
        Some(v)
    }

    /// A peer's link is gone: its place (and its quota seat, if it held one)
    /// is free again.
    pub fn release(&mut self, peer: &Endpoint)
        requires
            old(self).wf(),
        ensures
            final(self).wf(),
            final(self).vouched_view() == old(self).vouched_view(),
            !has_peer(old(self).peers_view(), *peer) ==> final(self).peers_view() == old(self).peers_view()
                && final(self).unvouched_count() == old(self).unvouched_count(),
            !has_peer(final(self).peers_view(), *peer),
            has_peer(old(self).peers_view(), *peer) ==> exists|k: int|
                0 <= k < old(self).peers_view().len() && (#[trigger] old(self).peers_view()[k]).0 == *peer
                    && final(self).peers_view() == old(self).peers_view().remove(k)
                    && final(self).unvouched_count() + (if old(self).peers_view()[k].1 {
                    0nat
                } else {
                    1nat
                }) == old(self).unvouched_count(),
    {
        let mut i: usize = 0;
        while i < self.peers.len()
            invariant
                i <= self.peers@.len(),
                self.wf(),
                self.peers@ == old(self).peers@,
                self.unvouched == old(self).unvouched,
                self.vouched@ == old(self).vouched@,
                forall|k: int| 0 <= k < i ==> (#[trigger] self.peers@[k]).0 != *peer,
            decreases self.peers@.len() - i,
        {
            if self.peers[i].0 == *peer {
                proof {
                    lemma_count_remove(self.peers@, i as int);
                }
                let (_, was_vouched) = self.peers.remove(i);
                if !was_vouched {
                    self.unvouched = self.unvouched - 1;
                }
                assert(old(self).peers_view()[i as int].0 == *peer);
                proof {
                    let o = old(self).peers@;
                    assert(self.peers@ == o.remove(i as int));
                    assert forall|a: int, b: int| 0 <= a < b < self.peers@.len() implies (#[trigger] self.peers@[a]).0
                        != (#[trigger] self.peers@[b]).0 by {
                        let oa = if a < i { a } else { a + 1 };
                        let ob = if b < i { b } else { b + 1 };
                        assert(self.peers@[a] == o[oa]);
                        assert(self.peers@[b] == o[ob]);
                        assert(o[oa].0 != o[ob].0);
                    }
                    assert forall|k: int| 0 <= k < self.peers@.len() implies (#[trigger] self.peers@[k]).0 != *peer by {
                        let ok = if k < i { k } else { k + 1 };
                        assert(self.peers@[k] == o[ok]);
                        assert(ok != i);
                        if ok < i {
                            assert(o[ok].0 != o[i as int].0);
                        } else {
                            assert(o[i as int].0 != o[ok].0);
                        }
                    }
                }
                return;
            }
            i = i + 1;
        }
    }
}

/// Law of the flood guard: once spoofed punches have used up the whole
/// unvouched quota (and the hub is below its peer ceiling), exactly the
/// addresses the coordinator vouched for still get in.
pub proof fn law_vouched_guest_passes_a_flood(h: HubState, from: Endpoint, now: u64)
    requires
        h.wf(),
        h.unvouched_count() == MAX_UNVOUCHED_PEERS,
        h.peers_view().len() < MAX_HUB_PEERS,
    ensures
        !h.refuses(from, now) <==> is_vouched(h.vouched_view(), from.ip, now),
{
}

/// Law of the vouch table: when the coordinator names an address, its IP is
/// vouched for at that moment, provided the table has room for every address
/// named (counting only entries still alive).
pub proof fn law_named_addresses_are_vouched(s: Seq<(Ip, u64)>, addrs: Seq<Endpoint>, now: u64, k: int)
    requires
        s.len() + addrs.len() <= MAX_VOUCHED,
        0 <= k < addrs.len(),
    ensures
        is_vouched(vouch_seq(s, addrs, now), addrs[k].ip, now),
    decreases addrs.len(),
{
    let ip = addrs[0].ip;
    lemma_find_ip_range(s, ip);
    let i = find_ip(s, ip);
    let next = if i >= 0 {
        s.update(i, (ip, now))
    } else {
        s.push((ip, now))
    };
    if i >= 0 {
        lemma_find_ip_update(s, i, (ip, now), ip);
    } else {
        assert(next.drop_last() =~= s);
        assert(find_ip(next, ip) == s.len());
    }
    if k == 0 {
        lemma_vouch_keeps(next, addrs.drop_first(), now, ip);
    } else {
        assert(addrs.drop_first()[k - 1] == addrs[k]);
        law_named_addresses_are_vouched(next, addrs.drop_first(), now, k - 1);
    }
}

/// Re-stamping only ever refreshes: an IP vouched at `now` stays vouched at
/// `now` through further vouches at `now`.
proof fn lemma_vouch_keeps(s: Seq<(Ip, u64)>, addrs: Seq<Endpoint>, now: u64, ip: Ip)
    requires
        find_ip(s, ip) >= 0,
        s[find_ip(s, ip)] == (ip, now),
    ensures
        is_vouched(vouch_seq(s, addrs, now), ip, now),
    decreases addrs.len(),
{
    lemma_find_ip_range(s, ip);
    if addrs.len() > 0 {
        let a = addrs[0].ip;
        lemma_find_ip_range(s, a);
        let i = find_ip(s, a);
        if i >= 0 {
            let t = s.update(i, (a, now));
            lemma_find_ip_update(s, i, (a, now), ip);
            lemma_vouch_keeps(t, addrs.drop_first(), now, ip);
        } else if s.len() < MAX_VOUCHED {
            let t = s.push((a, now));
            assert(t.drop_last() =~= s);
            if a == ip {
                assert(find_ip(t, ip) == s.len());
            } else {
                assert(find_ip(t, ip) == find_ip(s, ip));
            }
            lemma_vouch_keeps(t, addrs.drop_first(), now, ip);
        }
    }
}

proof fn lemma_find_ip_update(s: Seq<(Ip, u64)>, i: int, x: (Ip, u64), ip: Ip)
    requires
        0 <= i < s.len(),
        x.0 == s[i].0,
    ensures
        find_ip(s.update(i, x), ip) == find_ip(s, ip),
    decreases s.len(),
{
    let t = s.update(i, x);
    if i == s.len() - 1 {
        assert(t.drop_last() =~= s.drop_last());
    } else {
        assert(t.drop_last() =~= s.drop_last().update(i, x));
        lemma_find_ip_update(s.drop_last(), i, x, ip);
    }
}

/// What the hub does with a datagram.
#[derive(Clone, Copy, PartialEq, Eq, Debug)]
pub enum Inbound {
    /// From a peer with a link: into its queue.
    ToPeer,
    /// A latency probe: answer it, create nothing.
    AnswerProbe,
    /// A punch from a new address: a guest asks to come in.
    NewGuest,
    /// Anything else from a stranger: ignore it.
    Ignore,
}

/// Sort an incoming datagram (see [`Inbound`]).
pub fn inbound(known: bool, tokens: &PunchTokens, data: &[u8]) -> (r: Inbound)
    ensures
        r == if known {
            Inbound::ToPeer
        } else if data@ == tokens.ping@ {
            Inbound::AnswerProbe
        } else if data@ == tokens.punch@ {
            Inbound::NewGuest
        } else {
            Inbound::Ignore
        },
{
    if known {
        Inbound::ToPeer
    } else if bytes_eq(data, &tokens.ping) {
        Inbound::AnswerProbe
    } else if bytes_eq(data, &tokens.punch) {
        Inbound::NewGuest
    } else {
        Inbound::Ignore
    }
}

/// A probe never creates anything on the host: only a punch from a new
/// address can lead to a new guest.
pub proof fn law_probe_creates_nothing(known: bool, tokens: PunchTokens, data: Seq<u8>)
    requires
        data == tokens.ping@,
        tokens.ping@ != tokens.punch@,
    ensures
        !known ==> (if data == tokens.ping@ {
            Inbound::AnswerProbe
        } else if data == tokens.punch@ {
            Inbound::NewGuest
        } else {
            Inbound::Ignore
        }) == Inbound::AnswerProbe,
{
}

/// How handing a new guest to the accept queue went.
#[derive(Clone, Copy, PartialEq, Eq, Debug)]
pub enum Handoff {
    Queued,
    Full,
    Closed,
}

/// What the hub does after handing a new guest over.
#[derive(Clone, Copy, PartialEq, Eq, Debug)]
pub enum AfterHandoff {
    /// Confirm the path to the guest: it really is let in.
    SendPack,
    /// Drop the guest without a confirmation; it keeps punching and comes in
    /// on a later try. Receiving goes on for everybody else.
    DropGuest,
    /// The hub was dropped: stop receiving.
    Shutdown,
}

/// The confirmation goes out only to a guest that was really queued.
pub fn after_handoff(h: Handoff) -> (r: AfterHandoff)
    ensures
        r == match h {
            Handoff::Queued => AfterHandoff::SendPack,
            Handoff::Full => AfterHandoff::DropGuest,
            Handoff::Closed => AfterHandoff::Shutdown,
        },
{
    match h {
        Handoff::Queued => AfterHandoff::SendPack,
        Handoff::Full => AfterHandoff::DropGuest,
        Handoff::Closed => AfterHandoff::Shutdown,
    }
}

/// Ceiling on the demultiplexer's pool of reusable buffers.
pub const DEMUX_POOL_CAP: usize = 4096;

/// Reusable receive buffers, so that steady traffic allocates nothing.
pub struct BufPool {
    bufs: Vec<Vec<u8>>,
}

impl BufPool {
    pub closed spec fn size(&self) -> nat {
        self.bufs@.len()
    }

    pub closed spec fn wf(&self) -> bool {
        self.bufs@.len() <= DEMUX_POOL_CAP
    }

    pub fn new() -> (p: BufPool)
        ensures
            p.wf(),
            p.size() == 0,
    {
        BufPool { bufs: Vec::new() }
    }

    /// A buffer holding a copy of `data`: a pooled one if there is any.
    pub fn pooled_copy(&mut self, data: &[u8]) -> (b: Vec<u8>)
        requires
            old(self).wf(),
        ensures
            final(self).wf(),
            b@ == data@,
            final(self).size() == if old(self).size() > 0 {
                (old(self).size() - 1) as nat
            } else {
                0
            },
    {
        let mut b = match self.bufs.pop() {
            Some(b) => b,
            None => Vec::new(),
        };
        b.clear();
        let mut i: usize = 0;
        while i < data.len()
            invariant
                i <= data@.len(),
                b@ == data@.take(i as int),
            decreases data@.len() - i,
        {
            b.push(data[i]);
            i = i + 1;
            assert(b@ =~= data@.take(i as int));
        }
        assert(data@.take(data@.len() as int) =~= data@);
        b
    }

    /// Give a buffer back (emptied), unless the pool is already at its ceiling.
    pub fn pool_return(&mut self, b: Vec<u8>)
        requires
            old(self).wf(),
        ensures
            final(self).wf(),
            final(self).size() == if old(self).size() < DEMUX_POOL_CAP {
                old(self).size() + 1
            } else {
                old(self).size()
            },
    {
        if self.bufs.len() < DEMUX_POOL_CAP {
            let mut b = b;
            b.clear();
            self.bufs.push(b);
        }
    }
}

} // verus!
