//! The order of hosts for the one-button quick start: a foreign country
//! first (that is what a VPN is switched on for), then the most free room.

use vstd::prelude::*;

verus! {

/// A directory card as the quick start reads it. `country` is the host's
/// country as the shell determines it (from its own address database, or
/// from the card).
#[derive(Debug)]
pub struct HostCard {
    pub id: String,
    pub country: Option<String>,
    pub online: bool,
    pub has_password: bool,
    pub guests: u32,
    pub max_guests: u32,
}

impl HostCard {
    /// An exact copy.
    pub fn duplicate(&self) -> (c: HostCard)
        ensures
            c == *self,
    {
        HostCard {
            id: self.id.clone(),
            country: match &self.country {
                Some(c) => Some(c.clone()),
                None => None,
            },
            online: self.online,
            has_password: self.has_password,
            guests: self.guests,
            max_guests: self.max_guests,
        }
    }
}

/// A host the quick start may offer: online, without a password (the button
/// has none to give), with a free place, and not one's own share.
pub open spec fn eligible(h: HostCard, own_id: Seq<char>) -> bool {
    h.online && !h.has_password && h.guests < h.max_guests && h.id@ != own_id
}

/// Free places (never negative).
pub open spec fn free_room(h: HostCard) -> int {
    if h.max_guests >= h.guests {
        h.max_guests - h.guests
    } else {
        0
    }
}

/// Whether the host is abroad: only when one's own country is known, and a
/// host of unknown country counts as abroad.
pub open spec fn is_foreign(h: HostCard, my_cc: Option<Seq<char>>) -> bool {
    match my_cc {
        Some(m) => !(h.country matches Some(c) && c@ == m),
        None => false,
    }
}

/// The sort key: abroad before at home, then more free room first.
pub open spec fn rank_key(h: HostCard, my_cc: Option<Seq<char>>) -> u64 {
    ((if is_foreign(h, my_cc) {
        0x1_0000_0000int
    } else {
        0int
    }) + free_room(h)) as u64
}

/// Length of the leading run of `s` with keys at least `k`.
pub open spec fn prefix_ge(s: Seq<(u64, usize)>, k: u64) -> nat
    decreases s.len(),
{
    if s.len() == 0 || s[0].0 < k {
        0
    } else {
        1 + prefix_ge(s.drop_first(), k)
    }
}

/// A stable sort by key, largest first: each element goes after every
/// earlier one whose key is at least its own.
pub open spec fn sort_desc(s: Seq<(u64, usize)>) -> Seq<(u64, usize)>
    decreases s.len(),
{
    if s.len() == 0 {
        s
    } else {
        let t = sort_desc(s.drop_last());
        t.insert(prefix_ge(t, s.last().0) as int, s.last())
    }
}

/// Keys never increase along `s`.
pub open spec fn non_increasing(s: Seq<(u64, usize)>) -> bool {
    forall|i: int, j: int| 0 <= i < j < s.len() ==> (#[trigger] s[i]).0 >= (#[trigger] s[j]).0
}

proof fn lemma_prefix_ge(s: Seq<(u64, usize)>, k: u64)
    ensures
        prefix_ge(s, k) <= s.len(),
        forall|j: int| 0 <= j < prefix_ge(s, k) ==> (#[trigger] s[j]).0 >= k,
        prefix_ge(s, k) < s.len() ==> s[prefix_ge(s, k) as int].0 < k,
    decreases s.len(),
{
    if s.len() > 0 && s[0].0 >= k {
        lemma_prefix_ge(s.drop_first(), k);
        assert forall|j: int| 0 <= j < prefix_ge(s, k) implies (#[trigger] s[j]).0 >= k by {
            if j > 0 {
                assert(s[j] == s.drop_first()[j - 1]);
            }
        }
    }
}

/// The sort keeps every element and orders the keys, largest first.
pub proof fn law_sort_desc(s: Seq<(u64, usize)>)
    ensures
        sort_desc(s).len() == s.len(),
        non_increasing(sort_desc(s)),
    decreases s.len(),
{
    if s.len() > 0 {
        let t = sort_desc(s.drop_last());
        law_sort_desc(s.drop_last());
        let x = s.last();
        lemma_prefix_ge(t, x.0);
        let p = prefix_ge(t, x.0) as int;
        let u = t.insert(p, x);
        assert forall|i: int, j: int| 0 <= i < j < u.len() implies (#[trigger] u[i]).0 >= (#[trigger] u[j]).0 by {
            if j < p {
            } else if j == p {
                assert(u[i] == t[i]);
            } else if i < p {
                assert(u[i] == t[i]);
                assert(u[j] == t[j - 1]);
                assert(t[i].0 >= t[j - 1].0);
            } else if i == p {
                assert(u[j] == t[j - 1]);
                assert(t[p].0 < x.0);
                if j - 1 > p {
                    assert(t[p].0 >= t[j - 1].0);
                }
            } else {
                assert(u[i] == t[i - 1]);
                assert(u[j] == t[j - 1]);
            }
        }
    }
}

/// A stable sort by key, largest first (see [`sort_desc`]).
pub fn stable_sort_desc(s: &[(u64, usize)]) -> (r: Vec<(u64, usize)>)
    ensures
        r@ == sort_desc(s@),
        forall|j: int| 0 <= j < r@.len() ==> exists|m: int| 0 <= m < s@.len() && (#[trigger] r@[j]) == s@[m],
{
    let mut v: Vec<(u64, usize)> = Vec::new();
    let mut i: usize = 0;
    while i < s.len()
        invariant
            i <= s@.len(),
            v@ == sort_desc(s@.take(i as int)),
            v@.len() == i,
            forall|j: int| 0 <= j < v@.len() ==> exists|m: int| 0 <= m < i && (#[trigger] v@[j]) == s@[m],
        decreases s@.len() - i,
    {
        let x = s[i];
        let mut p: usize = 0;
        assert(v@.skip(0) =~= v@);
        while p < v.len() && v[p].0 >= x.0
            invariant
                p <= v@.len(),
                prefix_ge(v@, x.0) == p + prefix_ge(v@.skip(p as int), x.0),
            decreases v@.len() - p,
        {
            assert(v@.skip(p as int)[0] == v@[p as int]);
            assert(v@.skip(p as int).drop_first() =~= v@.skip(p + 1));
            p = p + 1;
        }
        proof {
            if p < v@.len() {
                assert(v@.skip(p as int)[0] == v@[p as int]);
            }
            assert(s@.take(i + 1).drop_last() =~= s@.take(i as int));
            assert(s@.take(i + 1).last() == x);
            lemma_sort_len(s@.take(i as int));
        }
        let ghost before = v@;
        v.insert(p, x);
        proof {
            assert forall|j: int| 0 <= j < v@.len() implies exists|m: int| 0 <= m < i + 1 && (#[trigger] v@[j]) == s@[m] by {
                if j < p {
                    assert(v@[j] == before[j]);
                    let m = choose|m: int| 0 <= m < i && before[j] == s@[m];
                } else if j == p {
                    assert(v@[j] == s@[i as int]);
                } else {
                    assert(v@[j] == before[j - 1]);
                    let m = choose|m: int| 0 <= m < i && before[j - 1] == s@[m];
                }
            }
        }
        i = i + 1;
    }
    assert(s@.take(s@.len() as int) =~= s@);
    v
}

proof fn lemma_sort_len(s: Seq<(u64, usize)>)
    ensures
        sort_desc(s).len() == s.len(),
{
    law_sort_desc(s);
}

/// The eligible hosts, in directory order.
pub open spec fn eligible_hosts(hosts: Seq<HostCard>, own_id: Seq<char>) -> Seq<HostCard> {
    hosts.filter(|h: HostCard| eligible(h, own_id))
}

/// The keyed positions of the eligible hosts.
pub open spec fn keyed(f: Seq<HostCard>, my_cc: Option<Seq<char>>) -> Seq<(u64, usize)> {
    Seq::new(f.len(), |i: int| (rank_key(f[i], my_cc), i as usize))
}

/// The quick start's queue: the eligible hosts sorted by [`rank_key`],
/// largest first and stable, at most [`crate::desktop::QUICK_MAX`] of them.
pub open spec fn spec_rank(hosts: Seq<HostCard>, my_cc: Option<Seq<char>>, own_id: Seq<char>) -> Seq<HostCard> {
    let f = eligible_hosts(hosts, own_id);
    let sorted = sort_desc(keyed(f, my_cc));
    let top = if sorted.len() > crate::desktop::QUICK_MAX {
        sorted.take(crate::desktop::QUICK_MAX as int)
    } else {
        sorted
    };
    top.map_values(|p: (u64, usize)| f[p.1 as int])
}

/// Where each host of the queue stands among the eligible hosts (in
/// directory order).
pub open spec fn spec_rank_positions(hosts: Seq<HostCard>, my_cc: Option<Seq<char>>, own_id: Seq<char>) -> Seq<int> {
    let f = eligible_hosts(hosts, own_id);
    let sorted = sort_desc(keyed(f, my_cc));
    let top = if sorted.len() > crate::desktop::QUICK_MAX {
        sorted.take(crate::desktop::QUICK_MAX as int)
    } else {
        sorted
    };
    top.map_values(|p: (u64, usize)| p.1 as int)
}

fn eligible_exec(h: &HostCard, own_id: &str) -> (b: bool)
    ensures
        b == eligible(*h, own_id@),
{
    h.online && !h.has_password && h.guests < h.max_guests && !crate::text::str_eq(h.id.as_str(), own_id)
}

fn rank_key_exec(h: &HostCard, my_cc: Option<&str>) -> (k: u64)
    ensures
        k == rank_key(*h, match my_cc {
            Some(m) => Some(m@),
            None => None,
        }),
{
    let foreign = match my_cc {
        Some(m) => match &h.country {
            Some(c) => !crate::text::str_eq(c.as_str(), m),
            None => true,
        },
        None => false,
    };
    let free: u64 = h.max_guests.saturating_sub(h.guests) as u64;
    if foreign {
        0x1_0000_0000u64 + free
    } else {
        free
    }
}

/// The order in which the quick start tries hosts (see [`spec_rank`]).
pub fn rank_candidates(hosts: &[HostCard], my_cc: Option<&str>, own_id: &str) -> (r: Vec<HostCard>)
    ensures
        r@ == spec_rank(
            hosts@,
            match my_cc {
                Some(m) => Some(m@),
                None => None,
            },
            own_id@,
        ),
{
    let ghost cc = match my_cc {
        Some(m) => Some(m@),
        None => None,
    };
    let mut f: Vec<HostCard> = Vec::new();
    let mut i: usize = 0;
    while i < hosts.len()
        invariant
            i <= hosts@.len(),
            f@ == eligible_hosts(hosts@.take(i as int), own_id@),
        decreases hosts@.len() - i,
    {
        proof {
            assert(hosts@.take(i + 1).drop_last() =~= hosts@.take(i as int));
            reveal(Seq::filter);
        }
        if eligible_exec(&hosts[i], own_id) {
            f.push(hosts[i].duplicate());
        }
        i = i + 1;
    }
    assert(hosts@.take(hosts@.len() as int) =~= hosts@);
    let mut keys: Vec<(u64, usize)> = Vec::new();
    let mut j: usize = 0;
    while j < f.len()
        invariant
            j <= f@.len(),
            cc == match my_cc {
                Some(m) => Some(m@),
                None => None,
            },
            keys@ == keyed(f@, cc).take(j as int),
        decreases f@.len() - j,
    {
        let kk = rank_key_exec(&f[j], my_cc);
        assert(keyed(f@, cc)[j as int] == (rank_key(f@[j as int], cc), j));
        keys.push((kk, j));
        j = j + 1;
        assert(keys@ =~= keyed(f@, cc).take(j as int));
    }
    assert(keys@ =~= keyed(f@, cc));
    let mut sorted = stable_sort_desc(keys.as_slice());
    proof {
        assert forall|m: int| 0 <= m < sorted@.len() implies (#[trigger] sorted@[m]).1 < f@.len() by {
            let w = choose|w: int| 0 <= w < keys@.len() && sorted@[m] == keys@[w];
            assert(keys@[w] == keyed(f@, cc)[w]);
        }
    }
    sorted.truncate(crate::desktop::QUICK_MAX);
    let ghost full = sort_desc(keyed(f@, cc));
    let ghost top = if full.len() > crate::desktop::QUICK_MAX {
        full.take(crate::desktop::QUICK_MAX as int)
    } else {
        full
    };
    assert(sorted@ =~= top);
    let mut r: Vec<HostCard> = Vec::new();
    let mut k: usize = 0;
    while k < sorted.len()
        invariant
            k <= sorted@.len(),
            sorted@ == top,
            forall|m: int| 0 <= m < sorted@.len() ==> (#[trigger] sorted@[m]).1 < f@.len(),
            r@ == top.take(k as int).map_values(|p: (u64, usize)| f@[p.1 as int]),
        decreases sorted@.len() - k,
    {
        let idx = sorted[k].1;
        r.push(f[idx].duplicate());
        k = k + 1;
        assert(r@ =~= top.take(k as int).map_values(|p: (u64, usize)| f@[p.1 as int]));
    }
    assert(top.take(top.len() as int) =~= top);
    r
}

proof fn lemma_sort_members(s: Seq<(u64, usize)>)
    ensures
        forall|j: int| 0 <= j < sort_desc(s).len() ==> s.contains(#[trigger] sort_desc(s)[j]),
    decreases s.len(),
{
    law_sort_desc(s);
    if s.len() > 0 {
        let d = s.drop_last();
        let t = sort_desc(d);
        lemma_sort_members(d);
        law_sort_desc(d);
        lemma_prefix_ge(t, s.last().0);
        let p = prefix_ge(t, s.last().0) as int;
        let u = t.insert(p, s.last());
        assert(sort_desc(s) == u);
        assert forall|j: int| 0 <= j < u.len() implies s.contains(#[trigger] u[j]) by {
            if j < p {
                assert(u[j] == t[j]);
                assert(d.contains(t[j]));
                let m = choose|m: int| 0 <= m < d.len() && d[m] == t[j];
                assert(s[m] == d[m]);
            } else if j == p {
                assert(u[j] == s[s.len() - 1]);
            } else {
                assert(u[j] == t[j - 1]);
                assert(d.contains(t[j - 1]));
                let m = choose|m: int| 0 <= m < d.len() && d[m] == t[j - 1];
                assert(s[m] == d[m]);
            }
        }
    }
}

/// The sort loses no element.
proof fn lemma_sort_keeps(s: Seq<(u64, usize)>)
    ensures
        forall|m: int| 0 <= m < s.len() ==> sort_desc(s).contains(#[trigger] s[m]),
    decreases s.len(),
{
    if s.len() > 0 {
        let d = s.drop_last();
        let t = sort_desc(d);
        lemma_sort_keeps(d);
        law_sort_desc(d);
        lemma_prefix_ge(t, s.last().0);
        let p = prefix_ge(t, s.last().0) as int;
        let u = t.insert(p, s.last());
        assert(sort_desc(s) == u);
        assert forall|m: int| 0 <= m < s.len() implies u.contains(#[trigger] s[m]) by {
            if m == s.len() - 1 {
                assert(u[p] == s[m]);
            } else {
                assert(s[m] == d[m]);
                assert(t.contains(d[m]));
                let q = choose|q: int| 0 <= q < t.len() && t[q] == d[m];
                if q < p {
                    assert(u[q] == t[q]);
                } else {
                    assert(u[q + 1] == t[q]);
                }
            }
        }
    }
}

/// No two elements carry the same tag.
pub open spec fn distinct_tags(s: Seq<(u64, usize)>) -> bool {
    forall|i: int, j: int| 0 <= i < j < s.len() ==> (#[trigger] s[i]).1 != (#[trigger] s[j]).1
}

/// Positions as keys' tags: element `m` carries position `m`.
pub open spec fn tagged_by_position(s: Seq<(u64, usize)>) -> bool {
    forall|m: int| 0 <= m < s.len() ==> (#[trigger] s[m]).1 as int == m
}

proof fn lemma_sort_stable(s: Seq<(u64, usize)>)
    requires
        tagged_by_position(s),
    ensures
        forall|i: int, j: int|
            0 <= i < j < sort_desc(s).len() && (#[trigger] sort_desc(s)[i]).0 == (#[trigger] sort_desc(s)[j]).0
                ==> sort_desc(s)[i].1 < sort_desc(s)[j].1,
        distinct_tags(sort_desc(s)),
    decreases s.len(),
{
    law_sort_desc(s);
    if s.len() > 0 {
        let d = s.drop_last();
        let x = s.last();
        let t = sort_desc(d);
        assert(tagged_by_position(d)) by {
            assert forall|m: int| 0 <= m < d.len() implies (#[trigger] d[m]).1 as int == m by {
                assert(d[m] == s[m]);
            }
        }
        lemma_sort_stable(d);
        lemma_sort_members(d);
        law_sort_desc(d);
        lemma_prefix_ge(t, x.0);
        assert(x == s[s.len() - 1]);
        assert(x.1 as int == s.len() - 1);
        assert forall|k: int| 0 <= k < t.len() implies (#[trigger] t[k]).1 < x.1 by {
            assert(d.contains(t[k]));
            let m = choose|m: int| 0 <= m < d.len() && d[m] == t[k];
            assert(d[m] == s[m]);
        }
        let p = prefix_ge(t, x.0) as int;
        let u = t.insert(p, x);
        assert(sort_desc(s) == u);
        assert forall|i: int, j: int| 0 <= i < j < u.len() && (#[trigger] u[i]).0 == (#[trigger] u[j]).0 implies u[i].1
            < u[j].1 by {
            if j < p {
                assert(u[i] == t[i] && u[j] == t[j]);
            } else if j == p {
                assert(u[i] == t[i]);
            } else if i < p {
                assert(u[i] == t[i] && u[j] == t[j - 1]);
            } else if i == p {
                assert(u[j] == t[j - 1]);
                assert(t[p].0 < x.0);
                if j - 1 > p {
                    assert(t[p].0 >= t[j - 1].0);
                }
            } else {
                assert(u[i] == t[i - 1] && u[j] == t[j - 1]);
            }
        }
        assert forall|i: int, j: int| 0 <= i < j < u.len() implies (#[trigger] u[i]).1 != (#[trigger] u[j]).1 by {
            if j < p {
                assert(u[i] == t[i] && u[j] == t[j]);
            } else if j == p {
                assert(u[i] == t[i]);
            } else if i < p {
                assert(u[i] == t[i] && u[j] == t[j - 1]);
            } else if i == p {
                assert(u[j] == t[j - 1]);
            } else {
                assert(u[i] == t[i - 1] && u[j] == t[j - 1]);
            }
        }
    }
}

/// The quick start's queue takes distinct eligible hosts (online, open, with
/// a free place, not one's own), as many as there are but never more than
/// [`crate::desktop::QUICK_MAX`], in order of [`rank_key`]: abroad before at
/// home, then the most free room; hosts that rank alike keep their directory
/// order, and no eligible host left out ranks above the last one taken.
pub proof fn law_rank_order(hosts: Seq<HostCard>, my_cc: Option<Seq<char>>, own_id: Seq<char>)
    requires
        hosts.len() <= usize::MAX,
    ensures
        ({
            let r = spec_rank(hosts, my_cc, own_id);
            let pos = spec_rank_positions(hosts, my_cc, own_id);
            let f = eligible_hosts(hosts, own_id);
            &&& r.len() == if f.len() > crate::desktop::QUICK_MAX {
                crate::desktop::QUICK_MAX as nat
            } else {
                f.len()
            }
            &&& pos.len() == r.len()
            &&& forall|k: int| 0 <= k < r.len() ==> 0 <= #[trigger] pos[k] < f.len() && r[k] == f[pos[k]]
            &&& forall|k: int| 0 <= k < r.len() ==> eligible(#[trigger] r[k], own_id)
            &&& forall|i: int, j: int| 0 <= i < j < r.len() ==> #[trigger] pos[i] != #[trigger] pos[j]
            &&& forall|i: int, j: int| 0 <= i < j < r.len() ==> rank_key(#[trigger] r[i], my_cc) >= rank_key(
                #[trigger] r[j],
                my_cc,
            )
            &&& forall|i: int, j: int|
                0 <= i < j < r.len() && rank_key(#[trigger] r[i], my_cc) == rank_key(#[trigger] r[j], my_cc) ==> pos[i]
                    < pos[j]
            &&& r.len() > 0 ==> forall|m: int|
                0 <= m < f.len() && !pos.contains(m) ==> rank_key(#[trigger] f[m], my_cc) <= rank_key(
                    r[r.len() - 1],
                    my_cc,
                )
        }),
{
    let f = eligible_hosts(hosts, own_id);
    hosts.lemma_filter_len(|h: HostCard| eligible(h, own_id));
    let ks = keyed(f, my_cc);
    let sorted = sort_desc(ks);
    law_sort_desc(ks);
    lemma_sort_members(ks);
    lemma_sort_keeps(ks);
    let top = if sorted.len() > crate::desktop::QUICK_MAX {
        sorted.take(crate::desktop::QUICK_MAX as int)
    } else {
        sorted
    };
    let r = spec_rank(hosts, my_cc, own_id);
    let pos = spec_rank_positions(hosts, my_cc, own_id);
    assert(r == top.map_values(|p: (u64, usize)| f[p.1 as int]));
    assert(pos == top.map_values(|p: (u64, usize)| p.1 as int));
    assert forall|k: int| 0 <= k < top.len() implies (#[trigger] top[k]).1 < f.len() && top[k].0 == rank_key(
        f[top[k].1 as int],
        my_cc,
    ) by {
        assert(top[k] == sorted[k]);
        assert(ks.contains(sorted[k]));
        let m = choose|m: int| 0 <= m < ks.len() && ks[m] == sorted[k];
        assert(ks[m] == (rank_key(f[m], my_cc), m as usize));
    }
    assert forall|k: int| 0 <= k < r.len() implies 0 <= #[trigger] pos[k] < f.len() && r[k] == f[pos[k]] by {
        assert(r[k] == f[top[k].1 as int]);
        assert(pos[k] == top[k].1 as int);
        assert(top[k].1 < f.len());
    }
    assert forall|k: int| 0 <= k < r.len() implies eligible(#[trigger] r[k], own_id) by {
        assert(r[k] == f[top[k].1 as int]);
        assert(top[k].1 < f.len());
        hosts.lemma_filter_pred(|h: HostCard| eligible(h, own_id), top[k].1 as int);
    }
    assert forall|i: int, j: int| 0 <= i < j < r.len() implies rank_key(#[trigger] r[i], my_cc) >= rank_key(
        #[trigger] r[j],
        my_cc,
    ) by {
        assert(r[i] == f[top[i].1 as int]);
        assert(r[j] == f[top[j].1 as int]);
        assert(top[i] == sorted[i]);
        assert(top[j] == sorted[j]);
        assert(sorted[i].0 >= sorted[j].0);
    }
    assert(tagged_by_position(ks));
    lemma_sort_stable(ks);
    assert forall|i: int, j: int| 0 <= i < j < r.len() implies #[trigger] pos[i] != #[trigger] pos[j] by {
        assert(pos[i] == top[i].1 as int && pos[j] == top[j].1 as int);
        assert(top[i] == sorted[i] && top[j] == sorted[j]);
    }
    assert forall|i: int, j: int|
        0 <= i < j < r.len() && rank_key(#[trigger] r[i], my_cc) == rank_key(#[trigger] r[j], my_cc) implies pos[i]
        < pos[j] by {
        assert(r[i] == f[top[i].1 as int]);
        assert(r[j] == f[top[j].1 as int]);
        assert(pos[i] == top[i].1 as int && pos[j] == top[j].1 as int);
        assert(top[i] == sorted[i]);
        assert(top[j] == sorted[j]);
        assert(sorted[i].1 < sorted[j].1);
    }
    if r.len() > 0 {
        let last = r.len() - 1;
        assert forall|m: int| 0 <= m < f.len() && !pos.contains(m) implies rank_key(#[trigger] f[m], my_cc)
            <= rank_key(r[r.len() - 1], my_cc) by {
            assert(ks[m] == (rank_key(f[m], my_cc), m as usize));
            assert(sorted.contains(ks[m]));
            let q = choose|q: int| 0 <= q < sorted.len() && sorted[q] == ks[m];
            if q < top.len() {
                assert(top[q] == sorted[q]);
                assert(pos[q] == m);
                assert(pos.contains(m));
            }
            assert(q >= top.len());
            assert(top[last] == sorted[last]);
            assert(sorted[last].0 >= sorted[q].0);
            assert(r[last] == f[top[last].1 as int]);
        }
    }
}

/// Whether `h` is abroad, read straight from the card: one's own country is
/// known and the host's is another one, or unknown.
pub open spec fn abroad(h: HostCard, my_cc: Option<Seq<char>>) -> bool {
    my_cc is Some && !(h.country matches Some(c) && c@ == my_cc->0)
}

/// The queue's order told in free places: hosts abroad come before hosts at
/// home, and among hosts on the same side, one with more free places
/// (`max_guests - guests`) comes before one with fewer.
pub proof fn law_rank_by_free_places(hosts: Seq<HostCard>, my_cc: Option<Seq<char>>, own_id: Seq<char>)
    requires
        hosts.len() <= usize::MAX,
    ensures
        ({
            let r = spec_rank(hosts, my_cc, own_id);
            &&& forall|i: int, j: int| 0 <= i < j < r.len() && abroad(#[trigger] r[j], my_cc) ==> abroad(#[trigger] r[i], my_cc)
            &&& forall|i: int, j: int|
                0 <= i < j < r.len() && abroad(#[trigger] r[i], my_cc) == abroad(#[trigger] r[j], my_cc) ==> r[i].max_guests
                    - r[i].guests >= r[j].max_guests - r[j].guests
        }),
{
    law_rank_order(hosts, my_cc, own_id);
    let r = spec_rank(hosts, my_cc, own_id);
    assert forall|k: int| 0 <= k < r.len() implies rank_key(#[trigger] r[k], my_cc) == (if abroad(r[k], my_cc) {
        0x1_0000_0000int
    } else {
        0int
    }) + (r[k].max_guests - r[k].guests) by {
        assert(eligible(r[k], own_id));
    }
    assert forall|i: int, j: int| 0 <= i < j < r.len() && abroad(#[trigger] r[j], my_cc) implies abroad(
        #[trigger] r[i],
        my_cc,
    ) by {
        assert(rank_key(r[i], my_cc) >= rank_key(r[j], my_cc));
    }
    assert forall|i: int, j: int|
        0 <= i < j < r.len() && abroad(#[trigger] r[i], my_cc) == abroad(#[trigger] r[j], my_cc) implies r[i].max_guests
        - r[i].guests >= r[j].max_guests - r[j].guests by {
        assert(rank_key(r[i], my_cc) >= rank_key(r[j], my_cc));
    }
}

} // verus!
