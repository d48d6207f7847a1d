//! The engine's rules for a host and its guests: the guest slots and their
//! honest count, what the directory announcement says, the password frame,
//! which addresses may be punched, how a node names itself, and which
//! protocol a name stands for.

use vstd::prelude::*;
use crate::addr::{Endpoint, spec_punch_target_allowed, punch_target_allowed};
use crate::config::DEFAULT_PROTOCOL;
use crate::punch::contains_endpoint;
use vstd::string::*;

verus! {

/// Whether the keys of `s` are pairwise distinct.
pub open spec fn distinct_keys(s: Seq<(Endpoint, u64)>) -> bool {
    forall|i: int, j: int| 0 <= i < j < s.len() ==> (#[trigger] s[i]).0 != (#[trigger] s[j]).0
}

/// Index of `e`'s slot, or -1.
pub open spec fn slot_of(s: Seq<(Endpoint, u64)>, e: Endpoint) -> int
    decreases s.len(),
{
    if s.len() == 0 {
        -1
    } else if s.last().0 == e {
        s.len() - 1
    } else {
        slot_of(s.drop_last(), e)
    }
}

proof fn lemma_slot_of(s: Seq<(Endpoint, u64)>, e: Endpoint)
    ensures
        -1 <= slot_of(s, e) < s.len(),
        slot_of(s, e) >= 0 ==> s[slot_of(s, e)].0 == e,
        slot_of(s, e) == -1 <==> forall|k: int| 0 <= k < s.len() ==> (#[trigger] s[k]).0 != e,
    decreases s.len(),
{
    if s.len() > 0 {
        lemma_slot_of(s.drop_last(), e);
        assert forall|k: int| 0 <= k < s.len() - 1 implies (#[trigger] s[k]) == s.drop_last()[k] by {}
    }
}

/// Taking a slot for `peer` under `max` (0: no limit) as session `gen`: the
/// answer (`None`: full) and the slots after. An address that holds a slot
/// gets it back under the new generation; a new one is added at the end.
pub open spec fn spec_take(s: Seq<(Endpoint, u64)>, peer: Endpoint, max: u32, gen: u64) -> (Option<u64>, Seq<(Endpoint, u64)>) {
    let i = slot_of(s, peer);
    if max > 0 && i == -1 && (s.len() as u32) >= max {
        (None, s)
    } else if i >= 0 {
        (Some(gen), s.update(i, (peer, gen)))
    } else {
        (Some(gen), s.push((peer, gen)))
    }
}

/// The slots after session `gen` of `peer` ended: its slot goes, but only if
/// that session still holds it.
pub open spec fn spec_release(s: Seq<(Endpoint, u64)>, peer: Endpoint, gen: u64) -> Seq<(Endpoint, u64)> {
    let i = slot_of(s, peer);
    if i >= 0 && s[i].1 == gen {
        s.remove(i)
    } else {
        s
    }
}

/// The slots of the guests of one host: peer address and session generation.
/// One address holds one slot; a reconnect from the same address replaces it.
/// The generation keeps a stale session from freeing a slot that a newer
/// session from the same address has taken.
pub struct GuestTable {
    slots: Vec<(Endpoint, u64)>,
    next_gen: u64,
}

impl View for GuestTable {
    type V = Seq<(Endpoint, u64)>;

    /// The guests' slots: each guest's address with the generation of its
    /// session.
    closed spec fn view(&self) -> Seq<(Endpoint, u64)> {
        self.slots@
    }
}

impl GuestTable {
    pub closed spec fn next_generation(&self) -> u64 {
        self.next_gen
    }

    pub closed spec fn wf(&self) -> bool {
        distinct_keys(self.slots@)
    }

    /// No guests yet.
    pub fn new() -> (t: GuestTable)
        ensures
            t.wf(),
            t.view().len() == 0,
            t.next_generation() == 0,
    {
        GuestTable { slots: Vec::new(), next_gen: 0 }
    }

    /// The live guest count: the number of slots.
    pub fn count(&self) -> (n: usize)
        ensures
            n == self.view().len(),
    {
        self.slots.len()
    }

    fn find(&self, peer: &Endpoint) -> (r: Option<usize>)
        ensures
            r matches Some(i) ==> i as int == slot_of(self.slots@, *peer),
            r is None ==> slot_of(self.slots@, *peer) == -1,
    {
        let mut i: usize = self.slots.len();
        assert(self.slots@.take(i as int) =~= self.slots@);
        while i > 0
            invariant
                i <= self.slots@.len(),
                slot_of(self.slots@, *peer) == slot_of(self.slots@.take(i as int), *peer),
            decreases i,
        {
            assert(self.slots@.take(i as int).drop_last() =~= self.slots@.take(i - 1));
            if self.slots[i - 1].0 == *peer {
                return Some(i - 1);
            }
            i = i - 1;
        }
        None
    }

    /// Take a slot for `peer` under the limit `max` (0: no limit). `None`: the
    /// host is full. A peer that already holds a slot always gets it back,
    /// under a new generation.
    pub fn take(&mut self, peer: Endpoint, max: u32) -> (r: Option<u64>)
        requires
            old(self).wf(),
        ensures
            final(self).wf(),
            final(self).next_generation() == old(self).next_generation().wrapping_add(1),
            r == spec_take(old(self).view(), peer, max, old(self).next_generation()).0,
            final(self).view() == spec_take(old(self).view(), peer, max, old(self).next_generation()).1,
    {
        let gen = self.next_gen;
        self.next_gen = self.next_gen.wrapping_add(1);
        proof {
            lemma_slot_of(self.slots@, peer);
        }
        match self.find(&peer) {
            Some(i) => {
                self.slots.set(i, (peer, gen));
                Some(gen)
            },
            None => {
                if max > 0 && (self.slots.len() as u32) >= max {
                    return None;
                }
                self.slots.push((peer, gen));
                Some(gen)
            },
        }
    }

    /// A session ended: free `peer`'s slot, but only if it still belongs to
    /// that session's generation.
    pub fn release(&mut self, peer: &Endpoint, gen: u64)
        requires
            old(self).wf(),
        ensures
            final(self).wf(),
            final(self).next_generation() == old(self).next_generation(),
            final(self).view() == spec_release(old(self).view(), *peer, gen),
    {
        proof {
            lemma_slot_of(self.slots@, *peer);
        }
        if let Some(i) = self.find(peer) {
            if self.slots[i].1 == gen {
                self.slots.remove(i);
                assert forall|a: int, b: int| 0 <= a < b < self.slots@.len() implies (
                #[trigger] self.slots@[a]).0 != (#[trigger] self.slots@[b]).0 by {
                    let oa = if a < i { a } else { a + 1 };
                    let ob = if b < i { b } else { b + 1 };
                    assert(self.slots@[a] == old(self).slots@[oa]);
                    assert(self.slots@[b] == old(self).slots@[ob]);
                }
            }
        }
    }
}

/// The honest count: a table within its limit stays within it, whoever asks
/// for a slot.
pub proof fn law_new_guest_within_limit(s: Seq<(Endpoint, u64)>, peer: Endpoint, max: u32, gen: u64)
    requires
        max > 0,
        s.len() <= max,
    ensures
        spec_take(s, peer, max, gen).1.len() <= max,
{
    lemma_slot_of(s, peer);
}

/// A stale session cannot free the slot of a newer session from the same
/// address: once the newer one took the slot, a release with the old
/// generation leaves the table as it is.
pub proof fn law_stale_release_keeps_newer_slot(
    s: Seq<(Endpoint, u64)>,
    peer: Endpoint,
    max: u32,
    old_gen: u64,
    new_gen: u64,
)
    requires
        old_gen != new_gen,
        spec_take(s, peer, max, new_gen).0 is Some,
    ensures
        spec_release(spec_take(s, peer, max, new_gen).1, peer, old_gen) == spec_take(s, peer, max, new_gen).1,
{
    lemma_slot_of(s, peer);
    let i = slot_of(s, peer);
    let t = spec_take(s, peer, max, new_gen).1;
    if i >= 0 {
        lemma_slot_update(s, i, (peer, new_gen), peer);
        assert(t[slot_of(t, peer)] == (peer, new_gen));
    } else {
        assert(t.drop_last() =~= s);
        assert(slot_of(t, peer) == s.len());
    }
}

proof fn lemma_slot_update(s: Seq<(Endpoint, u64)>, i: int, x: (Endpoint, u64), e: Endpoint)
    requires
        0 <= i < s.len(),
        x.0 == s[i].0,
    ensures
        slot_of(s.update(i, x), e) == slot_of(s, e),
    decreases s.len(),
{
    let t = s.update(i, x);
    if i == s.len() - 1 {
        assert(t.drop_last() =~= s.drop_last());
    } else {
        assert(t.drop_last() =~= s.drop_last().update(i, x));
        lemma_slot_update(s.drop_last(), i, x, e);
    }
}

/// A session that takes a slot and releases it leaves the table as it found
/// it, when its address held no slot before.
pub proof fn law_take_then_release(s: Seq<(Endpoint, u64)>, peer: Endpoint, max: u32, gen: u64)
    requires
        slot_of(s, peer) == -1,
        spec_take(s, peer, max, gen).0 is Some,
    ensures
        spec_release(spec_take(s, peer, max, gen).1, peer, gen) == s,
{
    let t = s.push((peer, gen));
    assert(t.drop_last() =~= s);
    assert(slot_of(t, peer) == s.len());
    assert(t.remove(s.len() as int) =~= s);
}

/// What a host tells the directory about itself.
#[derive(Clone, Debug)]
pub struct HostAnnounce {
    pub id: String,
    pub token: String,
    pub name: String,
    pub endpoints: Vec<String>,
    pub country: String,
    pub public: bool,
    pub max_guests: u32,
    pub guests: u32,
    pub has_password: bool,
    pub protocol: String,
    pub code_sig: String,
}

/// The host's settings, changeable while it runs.
#[derive(Clone, Debug)]
pub struct HostSettings {
    pub id: String,
    pub token: String,
    pub code_sig: String,
    pub name: String,
    pub endpoints: Vec<String>,
    pub country: String,
    pub public: bool,
    pub max_guests: u32,
    pub password: String,
    pub protocol: String,
}

impl HostSettings {
    /// A change of the running host's settings from the platform shell: an empty name
    /// or protocol and a limit that is not positive leave theirs as they
    /// were; the password and the visibility are always taken.
    pub fn apply_update(&mut self, name: &str, max_guests: i32, password: &str, protocol: &str, public: bool)
        ensures
            final(self).name@ == if name@.len() > 0 {
                name@
            } else {
                old(self).name@
            },
            final(self).max_guests == if max_guests > 0 {
                max_guests as u32
            } else {
                old(self).max_guests
            },
            final(self).protocol@ == if protocol@.len() > 0 {
                protocol@
            } else {
                old(self).protocol@
            },
            final(self).password@ == password@,
            final(self).public == public,
            final(self).id == old(self).id,
            final(self).token == old(self).token,
            final(self).code_sig == old(self).code_sig,
            final(self).endpoints == old(self).endpoints,
            final(self).country == old(self).country,
    {
        if !name.is_empty() {
            self.name = String::from_str(name);
        }
        if max_guests > 0 {
            self.max_guests = max_guests as u32;
        }
        if !protocol.is_empty() {
            self.protocol = String::from_str(protocol);
        }
        self.password = String::from_str(password);
        self.public = public;
    }
}

/// Build the announcement from the settings and the live guest count. A
/// password always makes the network hidden: a public card would show the
/// network, its country and address to exactly those it is closed to.
pub fn build_announce(s: &HostSettings, guests: usize) -> (a: HostAnnounce)
    ensures
        a.id == s.id,
        a.token == s.token,
        a.name == s.name,
        a.endpoints@ == s.endpoints@,
        a.country == s.country,
        a.has_password == (s.password@.len() > 0),
        a.public == spec_listed(s.public, s.password@),
        a.max_guests == s.max_guests,
        a.guests == guests as u32,
        a.protocol == s.protocol,
        a.code_sig == s.code_sig,
{
    let has_password = !s.password.as_str().is_empty();
    let mut endpoints: Vec<String> = Vec::new();
    let mut i: usize = 0;
    while i < s.endpoints.len()
        invariant
            i <= s.endpoints@.len(),
            endpoints@ == s.endpoints@.take(i as int),
        decreases s.endpoints@.len() - i,
    {
        endpoints.push(s.endpoints[i].clone());
        i = i + 1;
        assert(endpoints@ =~= s.endpoints@.take(i as int));
    }
    assert(s.endpoints@.take(s.endpoints@.len() as int) =~= s.endpoints@);
    HostAnnounce {
        id: s.id.clone(),
        token: s.token.clone(),
        name: s.name.clone(),
        endpoints,
        country: s.country.clone(),
        public: s.public && !has_password,
        max_guests: s.max_guests,
        guests: guests as u32,
        has_password,
        protocol: s.protocol.clone(),
        code_sig: s.code_sig.clone(),
    }
}

/// Whether the announcement shows the network in the public catalog: only
/// when the host asks for it and has no password.
pub open spec fn spec_listed(public: bool, password: Seq<char>) -> bool {
    public && password.len() == 0
}

/// A password always hides the network, whatever the visibility setting;
/// without one the setting stands.
pub proof fn law_password_hides(public: bool, password: Seq<char>)
    ensures
        password.len() > 0 ==> !spec_listed(public, password),
        password.len() == 0 ==> spec_listed(public, password) == public,
{
}

/// Whether an announcement goes out: a stopped host stays stopped, so it is
/// checked when the announcement is built and again right before it is sent.
pub fn announce_goes_out(active_when_built: bool, active_when_sent: bool) -> (b: bool)
    ensures
        b == (active_when_built && active_when_sent),
{
    active_when_built && active_when_sent
}

/// The first byte of a guest's password frame. No IP packet starts like this
/// (version 4 or 6 in the high nibble), and the liveness markers are 0..2.
pub const AUTH_MARKER: u8 = 0xF0;

/// The guest's password frame: the marker, then the password in UTF-8.
pub open spec fn spec_auth_frame(password: Seq<char>) -> Seq<u8> {
    seq![AUTH_MARKER] + vstd::utf8::encode_utf8(password)
}

/// Build the password frame (see [`spec_auth_frame`]).
pub fn auth_frame(password: &str) -> (v: Vec<u8>)
    ensures
        v@ == spec_auth_frame(password@),
{
    let bytes = password.as_bytes();
    let mut v: Vec<u8> = Vec::new();
    v.push(AUTH_MARKER);
    let mut i: usize = 0;
    while i < bytes.len()
        invariant
            i <= bytes@.len(),
            bytes@ == vstd::utf8::encode_utf8(password@),
            v@ == seq![AUTH_MARKER] + bytes@.take(i as int),
        decreases bytes@.len() - i,
    {
        v.push(bytes[i]);
        i = i + 1;
        assert(v@ =~= seq![AUTH_MARKER] + bytes@.take(i as int));
    }
    assert(bytes@.take(bytes@.len() as int) =~= bytes@);
    v
}

/// Whether a frame from a guest carries the host's password.
pub open spec fn spec_verify_auth(frame: Seq<u8>, password: Seq<char>) -> bool {
    frame.len() > 0 && frame[0] == AUTH_MARKER && frame.drop_first() == vstd::utf8::encode_utf8(password)
}

/// Check a guest's password frame (see [`spec_verify_auth`]); the password is
/// compared in constant time.
pub fn verify_auth(frame: &[u8], password: &str) -> (b: bool)
    ensures
        b == spec_verify_auth(frame@, password@),
{
    if frame.len() == 0 || frame[0] != AUTH_MARKER {
        return false;
    }
    let rest = crate::punch::copy_bytes(frame);
    let mut tail: Vec<u8> = Vec::new();
    let mut i: usize = 1;
    while i < rest.len()
        invariant
            1 <= i <= rest@.len(),
            rest@ == frame@,
            tail@ == frame@.subrange(1, i as int),
        decreases rest@.len() - i,
    {
        tail.push(rest[i]);
        i = i + 1;
        assert(tail@ =~= frame@.subrange(1, i as int));
    }
    assert(frame@.subrange(1, frame@.len() as int) =~= frame@.drop_first());
    ct_eq(tail.as_slice(), password.as_bytes())
}

/// Byte comparison in constant time: different lengths differ at once (the
/// length is no secret); equal lengths are compared without an early exit.
pub fn ct_eq(a: &[u8], b: &[u8]) -> (r: bool)
    ensures
        r == (a@ == b@),
{
    if a.len() != b.len() {
        return false;
    }
    let mut diff: u8 = 0;
    let mut i: usize = 0;
    while i < a.len()
        invariant
            i <= a@.len() == b@.len(),
            (diff == 0) <==> (forall|k: int| 0 <= k < i ==> a@[k] == b@[k]),
        decreases a@.len() - i,
    {
        let x = a[i];
        let y = b[i];
        let d = diff;
        assert((d | (x ^ y)) == 0 <==> (d == 0 && x == y)) by (bit_vector);
        diff = diff | (x ^ y);
        proof {
            if diff == 0 {
                assert forall|k: int| 0 <= k < i + 1 implies a@[k] == b@[k] by {}
            }
        }
        i = i + 1;
    }
    if diff == 0 {
        assert(a@ =~= b@);
    }
    diff == 0
}

/// The password frame a guest builds is the one the host accepts, for every
/// password; and a frame passes only with the very bytes of the password.
pub proof fn law_password_frame_round_trip(password: Seq<char>, other: Seq<char>)
    ensures
        spec_verify_auth(spec_auth_frame(password), password),
        spec_verify_auth(spec_auth_frame(other), password) ==> vstd::utf8::encode_utf8(other)
            == vstd::utf8::encode_utf8(password),
{
    assert(spec_auth_frame(password).drop_first() =~= vstd::utf8::encode_utf8(password));
    assert(spec_auth_frame(other).drop_first() =~= vstd::utf8::encode_utf8(other));
}

/// How many addresses of one peer are worth punching at all.
pub const MAX_PUNCH_TARGETS: usize = 8;

/// The punch targets among parsed addresses (`None`: not an address): the
/// allowed ones, each once, in order, at most [`MAX_PUNCH_TARGETS`].
pub open spec fn spec_punch_targets(list: Seq<Option<Endpoint>>, acc: Seq<Endpoint>) -> Seq<Endpoint>
    decreases list.len(),
{
    if list.len() == 0 || acc.len() >= MAX_PUNCH_TARGETS {
        acc
    } else {
        let next = match list[0] {
            Some(a) => if spec_punch_target_allowed(a) && !acc.contains(a) {
                acc.push(a)
            } else {
                acc
            },
            None => acc,
        };
        spec_punch_targets(list.drop_first(), next)
    }
}

/// Addresses for punching from the words of another party (a coordinator, a
/// directory card): drop what is not an address or is internal (loopback,
/// link-local, multicast...), drop repeats, keep at most eight.
pub fn parse_addrs(list: &[Option<Endpoint>]) -> (out: Vec<Endpoint>)
    ensures
        out@ == spec_punch_targets(list@, Seq::empty()),
        out@.len() <= MAX_PUNCH_TARGETS,
        forall|k: int| 0 <= k < out@.len() ==> spec_punch_target_allowed(#[trigger] out@[k]),
        forall|a: int, b: int| 0 <= a < b < out@.len() ==> (#[trigger] out@[a]) != (#[trigger] out@[b]),
{
    let mut out: Vec<Endpoint> = Vec::new();
    let mut i: usize = 0;
    assert(list@.skip(0) =~= list@);
    while i < list.len() && out.len() < MAX_PUNCH_TARGETS
        invariant
            i <= list@.len(),
            out@.len() <= MAX_PUNCH_TARGETS,
            spec_punch_targets(list@, Seq::empty()) == spec_punch_targets(list@.skip(i as int), out@),
            forall|k: int| 0 <= k < out@.len() ==> spec_punch_target_allowed(#[trigger] out@[k]),
            forall|a: int, b: int| 0 <= a < b < out@.len() ==> (#[trigger] out@[a]) != (#[trigger] out@[b]),
        decreases list@.len() - i,
    {
        proof {
            assert(list@.skip(i as int)[0] == list@[i as int]);
            assert(list@.skip(i as int).drop_first() =~= list@.skip(i + 1));
        }
        match list[i] {
            Some(a) => {
                if punch_target_allowed(&a) && !contains_endpoint(out.as_slice(), &a) {
                    out.push(a);
                }
            },
            None => {},
        }
        i = i + 1;
    }
    if i == list.len() {
        assert(list@.skip(i as int) =~= Seq::<Option<Endpoint>>::empty());
    }
    assert(spec_punch_targets(list@.skip(i as int), out@) == out@);
    out
}

/// The decimal digits of `n`.
pub open spec fn decimal(n: nat) -> Seq<char>
    decreases n,
{
    if n < 10 {
        seq![(n + 48) as char]
    } else {
        decimal(n / 10).push(((n % 10) + 48) as char)
    }
}

/// The decimal text of `n`.
pub fn decimal_text(n: u64) -> (v: Vec<char>)
    ensures
        v@ == decimal(n as nat),
    decreases n,
{
    if n < 10 {
        let mut v: Vec<char> = Vec::new();
        v.push(((n as u32) + 48) as u8 as char);
        assert(v@ =~= decimal(n as nat));
        v
    } else {
        let mut v = decimal_text(n / 10);
        v.push((((n % 10) as u32) + 48) as u8 as char);
        assert(v@ =~= decimal(n as nat));
        v
    }
}

/// `decimal(n)` is the standard numeral of `n`: at least one digit, the
/// digits read back as `n`, and no leading zero unless the number is zero
/// itself (then the numeral is the single `0`).
pub proof fn law_decimal_is_the_numeral(n: nat)
    ensures
        decimal(n).len() > 0,
        crate::text::all_digits(decimal(n)),
        crate::text::decimal_value(decimal(n)) == n,
        decimal(n)[0] == '0' ==> n == 0 && decimal(n).len() == 1,
    decreases n,
{
    let d = decimal(n);
    if n < 10 {
        let c = (n + 48) as char;
        assert(d == seq![c]);
        assert(c as u32 == n + 48);
        assert(d.drop_last() =~= Seq::<char>::empty());
        assert(crate::text::decimal_value(d) == crate::text::decimal_value(d.drop_last()) * 10
            + crate::text::digit_value(d.last()));
        if c == '0' {
            assert(n == 0);
        }
    } else {
        law_decimal_is_the_numeral(n / 10);
        let t = decimal(n / 10);
        let c = ((n % 10) + 48) as char;
        assert(c as u32 == (n % 10) + 48);
        assert(d == t.push(c));
        assert(d.drop_last() =~= t);
        assert(crate::text::decimal_value(d) == crate::text::decimal_value(t) * 10 + crate::text::digit_value(c));
        assert(n == (n / 10) * 10 + n % 10);
        assert(d[0] == t[0]);
        assert forall|i: int| 0 <= i < d.len() implies crate::text::is_digit(#[trigger] d[i]) by {
            if i < t.len() {
                assert(d[i] == t[i]);
            }
        }
    }
}

/// `a.b.c.d:port`, as an IPv4 socket address is written.
pub open spec fn v4_text(ip: u32, port: u16) -> Seq<char> {
    decimal((ip / 0x100_0000) as nat) + seq!['.'] + decimal(((ip / 0x1_0000) % 256) as nat) + seq!['.']
        + decimal(((ip / 0x100) % 256) as nat) + seq!['.'] + decimal((ip % 256) as nat) + seq![':']
        + decimal(port as nat)
}

fn append_chars(v: &mut Vec<char>, w: &[char])
    ensures
        final(v)@ == old(v)@ + w@,
{
    let mut i: usize = 0;
    while i < w.len()
        invariant
            i <= w@.len(),
            v@ == old(v)@ + w@.take(i as int),
        decreases w@.len() - i,
    {
        v.push(w[i]);
        i = i + 1;
        assert(v@ =~= old(v)@ + w@.take(i as int));
    }
    assert(w@.take(w@.len() as int) =~= w@);
}

/// Write an IPv4 socket address (see [`v4_text`]).
pub fn v4_socket_text(ip: u32, port: u16) -> (v: Vec<char>)
    ensures
        v@ == v4_text(ip, port),
{
    let mut v = decimal_text((ip / 0x100_0000) as u64);
    v.push('.');
    append_chars(&mut v, decimal_text(((ip / 0x1_0000) % 256) as u64).as_slice());
    v.push('.');
    append_chars(&mut v, decimal_text(((ip / 0x100) % 256) as u64).as_slice());
    v.push('.');
    append_chars(&mut v, decimal_text((ip % 256) as u64).as_slice());
    v.push(':');
    append_chars(&mut v, decimal_text(port as u64).as_slice());
    assert(v@ =~= v4_text(ip, port));
    v
}

/// Lexicographic order of character sequences (by code), as strings sort.
pub open spec fn lex_lt(a: Seq<char>, b: Seq<char>) -> bool
    decreases a.len(),
{
    if a.len() == 0 {
        b.len() > 0
    } else if b.len() == 0 {
        false
    } else if a[0] != b[0] {
        (a[0] as u32) < (b[0] as u32)
    } else {
        lex_lt(a.drop_first(), b.drop_first())
    }
}

fn lex_less(a: &[char], b: &[char]) -> (r: bool)
    ensures
        r == lex_lt(a@, b@),
{
    let mut i: usize = 0;
    assert(a@.skip(0) =~= a@);
    assert(b@.skip(0) =~= b@);
    while i < a.len() && i < b.len() && a[i] == b[i]
        invariant
            i <= a@.len(),
            i <= b@.len(),
            lex_lt(a@, b@) == lex_lt(a@.skip(i as int), b@.skip(i as int)),
        decreases a@.len() - i,
    {
        proof {
            assert(a@.skip(i as int).drop_first() =~= a@.skip(i + 1));
            assert(b@.skip(i as int).drop_first() =~= b@.skip(i + 1));
        }
        i = i + 1;
    }
    proof {
        if i < a.len() && i < b.len() {
            assert(a@.skip(i as int)[0] == a@[i as int]);
            assert(b@.skip(i as int)[0] == b@[i as int]);
        }
    }
    if i == a.len() {
        i < b.len()
    } else if i == b.len() {
        false
    } else {
        (a[i] as u32) < (b[i] as u32)
    }
}

/// How a node names itself to the other side: its home address, plus the
/// external one when STUN found it, sorted, without repeats.
pub open spec fn spec_my_endpoints(port: u16, local_ip: Option<u32>, reflexive: Option<(u32, u16)>) -> Seq<Seq<char>> {
    match (local_ip, reflexive) {
        (Some(l), Some((e, p))) => {
            let a = v4_text(l, port);
            let b = v4_text(e, p);
            if a == b {
                seq![a]
            } else if lex_lt(a, b) {
                seq![a, b]
            } else {
                seq![b, a]
            }
        },
        (Some(l), None) => seq![v4_text(l, port)],
        (None, Some((e, p))) => seq![v4_text(e, p)],
        (None, None) => seq![],
    }
}

/// The node's own addresses (see [`spec_my_endpoints`]). The home address
/// stays even when STUN did not answer: a peer in the same network still
/// gets through.
pub fn my_endpoints(port: u16, local_ip: Option<u32>, reflexive: Option<(u32, u16)>) -> (r: Vec<String>)
    ensures
        crate::stun::string_views(r@) == spec_my_endpoints(port, local_ip, reflexive),
{
    let mut r: Vec<String> = Vec::new();
    match (local_ip, reflexive) {
        (Some(l), Some((e, p))) => {
            let a = v4_socket_text(l, port);
            let b = v4_socket_text(e, p);
            let same = crate::text::chars_eq(a.as_slice(), b.as_slice());
            if same {
                r.push(crate::text::string_of(a.as_slice()));
            } else if lex_less(a.as_slice(), b.as_slice()) {
                r.push(crate::text::string_of(a.as_slice()));
                r.push(crate::text::string_of(b.as_slice()));
            } else {
                r.push(crate::text::string_of(b.as_slice()));
                r.push(crate::text::string_of(a.as_slice()));
            }
        },
        (Some(l), None) => {
            r.push(crate::text::string_of(v4_socket_text(l, port).as_slice()));
        },
        (None, Some((e, p))) => {
            r.push(crate::text::string_of(v4_socket_text(e, p).as_slice()));
        },
        (None, None) => {},
    }
    assert(crate::stun::string_views(r@) =~= spec_my_endpoints(port, local_ip, reflexive));
    r
}

/// A protocol's card for the screen and the catalog.
#[derive(Clone, Copy, Debug, PartialEq, Eq)]
pub struct ProtocolInfo {
    pub name: &'static str,
    pub encrypts: bool,
    pub available: bool,
}

/// The protocol a name stands for, among the registered ones: the name itself
/// when registered; an empty or unknown name falls back to the project's one
/// default (which the other side takes too, so the two can still agree).
pub fn resolve_protocol(name: &str, registered: &[String]) -> (r: String)
    ensures
        r@ == if exists|k: int| 0 <= k < registered@.len() && (#[trigger] registered@[k])@ == name@ {
            name@
        } else {
            DEFAULT_PROTOCOL@
        },
{
    let mut i: usize = 0;
    while i < registered.len()
        invariant
            i <= registered@.len(),
            forall|k: int| 0 <= k < i ==> (#[trigger] registered@[k])@ != name@,
        decreases registered@.len() - i,
    {
        if crate::text::str_eq(registered[i].as_str(), name) {
            assert(registered@[i as int]@ == name@);
            return String::from_str(name);
        }
        i = i + 1;
    }
    String::from_str(DEFAULT_PROTOCOL)
}

/// The configured value, or the fallback when nothing is configured.
pub fn or_default(configured: &str, fallback: &str) -> (r: String)
    ensures
        r@ == if configured@.len() == 0 {
            fallback@
        } else {
            configured@
        },
{
    if configured.is_empty() {
        String::from_str(fallback)
    } else {
        String::from_str(configured)
    }
}

/// The host id: the configured one, or a fresh random one of sixteen
/// characters for this session.
pub fn choose_host_id(configured: &str) -> (r: String)
    ensures
        configured@.len() > 0 ==> r@ == configured@,
        configured@.len() == 0 ==> r@.len() == 16 && forall|i: int| 0 <= i < 16 ==> crate::ids::is_id_char(
            #[trigger] r@[i],
        ),
{
    if configured.is_empty() {
        crate::ids::new_host_id(16)
    } else {
        String::from_str(configured)
    }
}

/// The owner token: the configured one, or a fresh random one of 32
/// characters for this session.
pub fn choose_host_token(configured: &str) -> (r: String)
    ensures
        configured@.len() > 0 ==> r@ == configured@,
        configured@.len() == 0 ==> r@.len() == 32 && forall|i: int| 0 <= i < 32 ==> crate::ids::is_id_char(
            #[trigger] r@[i],
        ),
{
    if configured.is_empty() {
        crate::ids::new_host_id(32)
    } else {
        String::from_str(configured)
    }
}

/// The host's check of a new guest's first frame: with a password set, the
/// frame must carry it (`None`: nothing arrived in time); without one,
/// everybody passes.
pub fn check_password(password: &str, first_frame: Option<&[u8]>) -> (r: Result<(), crate::error::Error>)
    ensures
        r is Ok <==> (password@.len() == 0 || (first_frame matches Some(f) && spec_verify_auth(f@, password@))),
        r matches Err(e) ==> (e matches crate::error::Error::Protocol(m) && m@ == "Неверный пароль."@),
{
    if password.is_empty() {
        return Ok(());
    }
    match first_frame {
        Some(f) => if verify_auth(f, password) {
            Ok(())
        } else {
            Err(crate::error::Error::Protocol(String::from_str("Неверный пароль.")))
        },
        None => Err(crate::error::Error::Protocol(String::from_str("Неверный пароль."))),
    }
}

/// The refusal a guest gets when the host has no free place.
pub fn no_free_place() -> (e: crate::error::Error)
    ensures
        e matches crate::error::Error::Net(m) && m@ == "На этом хосте нет свободных мест — выберите другой."@,
{
    crate::error::Error::Net(String::from_str("На этом хосте нет свободных мест — выберите другой."))
}

/// The refusal when the host offers no usable address.
pub fn no_host_address() -> (e: crate::error::Error)
    ensures
        e matches crate::error::Error::Net(m) && m@ == "У этого хоста нет рабочего адреса — выберите другой."@,
{
    crate::error::Error::Net(String::from_str("У этого хоста нет рабочего адреса — выберите другой."))
}

} // verus!
