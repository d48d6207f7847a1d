//! The guest session as the mobile platform shell runs it: the two-phase connect, the
//! tunnel pump with automatic reconnect, and the numbers that the platform
//! shell reads (status, stop reason, tri-state flags).
//!
//! The loops themselves live in the platform shell (they await sockets and
//! timers); every decision they take is made here.

use vstd::prelude::*;
use crate::error::Error;
use crate::config::Config;
use vstd::string::*;

verus! {

/// So many failed sessions in a row and the host counts as unreachable.
pub const MAX_FAILS: u32 = 20;

/// A session shorter than this is a failure, not a success: a wrong password or
/// a full host let the handshake pass and then close the link at once.
pub const MIN_GOOD_SESSION_MS: u64 = 10_000;

/// Status numbers read by the platform shell.
pub const STATUS_OFF: i32 = 0;
pub const STATUS_CONNECTING: i32 = 1;
pub const STATUS_CONNECTED: i32 = 2;
pub const STATUS_FAILED: i32 = 3;

/// Stop reasons read by the platform shell.
pub const REASON_NONE: i32 = 0;
pub const REASON_HOST_LEFT: i32 = 1;
pub const REASON_LINK_LOST: i32 = 2;

/// Pause before reconnect attempt after `fails` failures in a row:
/// 0.5 s doubling up to 8 s.
pub open spec fn spec_backoff_ms(fails: u32) -> u64 {
    if fails == 0 {
        500
    } else if fails == 1 {
        1000
    } else if fails == 2 {
        2000
    } else if fails == 3 {
        4000
    } else {
        8000
    }
}

/// The reconnect pause (see [`spec_backoff_ms`]).
pub fn backoff_ms(fails: u32) -> (ms: u64)
    ensures
        ms == spec_backoff_ms(fails),
        500 <= ms <= 8000,
{
    let m: u32 = if fails < 4 {
        fails
    } else {
        4
    };
    match m {
        0 => 500,
        1 => 1000,
        2 => 2000,
        3 => 4000,
        _ => 8000,
    }
}

/// How a pumping session ended, or what else happened to the pump.
#[derive(Clone, Copy, PartialEq, Eq, Debug)]
pub enum PumpEvent {
    /// The user stopped the session, or a newer connect superseded it.
    Stopped,
    /// The tunnel device could not be opened on the descriptor.
    DeviceUnavailable,
    /// The link died; `peer_said_bye` tells a goodbye from a lost path.
    SessionEnded { peer_said_bye: bool, lived_ms: u64 },
    /// The platform reported a network change during the session: the old
    /// NAT mapping is dead, so the pump leaves the link itself.
    NetworkChanged,
    /// The pause before re-establishing is over: its time ran out, or the
    /// platform reported a network change, which cuts it short.
    PauseOver,
    /// Re-establishing the link gave nothing (or timed out).
    ReconnectFailed,
    /// A fresh link is up.
    Reconnected,
}

/// How the whole pump ended.
#[derive(Clone, Copy, PartialEq, Eq, Debug)]
pub enum PumpEnd {
    /// Stopped by the user (or superseded): no error to show.
    Stopped,
    /// The link ended and there is no way to re-establish it.
    Closed,
    /// The host said goodbye: the share is over.
    HostLeft,
    /// The host stopped answering (or the device failed): give up.
    LinkLost,
}

/// What the pump does next.
#[derive(Clone, Copy, PartialEq, Eq, Debug)]
pub enum PumpAction {
    /// Pump packets over the current link.
    Pump,
    /// Pause `delay_ms` before re-establishing the link; a network change
    /// cuts the pause short.
    Pause { delay_ms: u64 },
    /// Re-establish the link now.
    Reestablish,
    /// Stop pumping.
    Finish(PumpEnd),
}

/// The pump's memory between events.
#[derive(Clone, Copy, PartialEq, Eq, Debug)]
pub struct Pump {
    /// Failed sessions or reconnects in a row.
    pub fails: u32,
    /// Whether the link can be re-established at all.
    pub can_reconnect: bool,
}

impl Pump {
    /// Every live pump has failed fewer than `MAX_FAILS` times in a row.
    pub open spec fn wf(self) -> bool {
        self.fails < MAX_FAILS
    }

    /// Once the link is gone, with `fails` failures in a row: pause before
    /// retrying, or give up at the `MAX_FAILS`-th failure in a row.
    pub open spec fn after_failure(self, fails: u32) -> (Pump, PumpAction) {
        if fails >= MAX_FAILS {
            (Pump { fails, ..self }, PumpAction::Finish(PumpEnd::LinkLost))
        } else if !self.can_reconnect {
            (Pump { fails, ..self }, PumpAction::Finish(PumpEnd::Closed))
        } else {
            (Pump { fails, ..self }, PumpAction::Pause { delay_ms: spec_backoff_ms(fails) })
        }
    }

    /// The pump's answer to one event.
    pub open spec fn spec_step(self, ev: PumpEvent) -> (Pump, PumpAction) {
        match ev {
            PumpEvent::Stopped => (self, PumpAction::Finish(PumpEnd::Stopped)),
            PumpEvent::DeviceUnavailable => (self, PumpAction::Finish(PumpEnd::LinkLost)),
            PumpEvent::SessionEnded { peer_said_bye, lived_ms } => {
                if peer_said_bye {
                    (self, PumpAction::Finish(PumpEnd::HostLeft))
                } else if lived_ms >= MIN_GOOD_SESSION_MS {
                    self.after_failure(0)
                } else {
                    self.after_failure((self.fails + 1) as u32)
                }
            },
            PumpEvent::NetworkChanged => self.after_failure(self.fails),
            PumpEvent::PauseOver => (self, PumpAction::Reestablish),
            PumpEvent::ReconnectFailed => self.after_failure((self.fails + 1) as u32),
            PumpEvent::Reconnected => (self, PumpAction::Pump),
        }
    }

    /// A fresh pump over a link that was just established.
    pub fn new(can_reconnect: bool) -> (p: Pump)
        ensures
            p.wf(),
            p.fails == 0,
            p.can_reconnect == can_reconnect,
    {
        Pump { fails: 0, can_reconnect }
    }

    /// The pump's answer to one event (see [`Pump::spec_step`]).
    pub fn step(self, ev: PumpEvent) -> (r: (Pump, PumpAction))
        requires
            self.wf(),
        ensures
            r == self.spec_step(ev),
            r.1 !is Finish ==> r.0.wf(),
    {
        match ev {
            PumpEvent::Stopped => (self, PumpAction::Finish(PumpEnd::Stopped)),
            PumpEvent::DeviceUnavailable => (self, PumpAction::Finish(PumpEnd::LinkLost)),
            PumpEvent::SessionEnded { peer_said_bye, lived_ms } => {
                if peer_said_bye {
                    (self, PumpAction::Finish(PumpEnd::HostLeft))
                } else if lived_ms >= MIN_GOOD_SESSION_MS {
                    self.leave(0)
                } else {
                    self.leave(self.fails + 1)
                }
            },
            PumpEvent::NetworkChanged => self.leave(self.fails),
            PumpEvent::PauseOver => (self, PumpAction::Reestablish),
            PumpEvent::ReconnectFailed => self.leave(self.fails + 1),
            PumpEvent::Reconnected => (self, PumpAction::Pump),
        }
    }

    fn leave(self, fails: u32) -> (r: (Pump, PumpAction))
        ensures
            r == self.after_failure(fails),
    {
        if fails >= MAX_FAILS {
            (Pump { fails, ..self }, PumpAction::Finish(PumpEnd::LinkLost))
        } else if !self.can_reconnect {
            (Pump { fails, ..self }, PumpAction::Finish(PumpEnd::Closed))
        } else {
            (Pump { fails, ..self }, PumpAction::Pause { delay_ms: backoff_ms(fails) })
        }
    }
}

/// The pump after `n` failed reconnects in a row.
pub open spec fn failed_reconnects(p: Pump, n: nat) -> (Pump, PumpAction)
    decreases n,
{
    if n == 0 {
        (p, PumpAction::Pump)
    } else {
        let prev = failed_reconnects(p, (n - 1) as nat);
        if prev.1 is Finish {
            prev
        } else {
            prev.0.spec_step(PumpEvent::ReconnectFailed)
        }
    }
}

/// The pump never retries forever: starting from no failures, a run of failed
/// reconnects keeps retrying (with a pause of at most 8 s) until the
/// `MAX_FAILS`-th failure, which ends the session as a lost link.
pub proof fn law_reconnect_gives_up(p: Pump, n: nat)
    requires
        p.fails == 0,
        p.can_reconnect,
        1 <= n <= MAX_FAILS,
    ensures
        failed_reconnects(p, n).0.fails == n,
        n < MAX_FAILS ==> (failed_reconnects(p, n).1 matches PumpAction::Pause { delay_ms } && delay_ms <= 8000),
        n == MAX_FAILS ==> failed_reconnects(p, n).1 == PumpAction::Finish(PumpEnd::LinkLost),
    decreases n,
{
    if n > 1 {
        law_reconnect_gives_up(p, (n - 1) as nat);
    }
    let prev = failed_reconnects(p, (n - 1) as nat);
    assert(prev.0.can_reconnect == p.can_reconnect) by {
        lemma_failed_reconnects_keeps_mode(p, (n - 1) as nat);
    }
}

proof fn lemma_failed_reconnects_keeps_mode(p: Pump, n: nat)
    ensures
        failed_reconnects(p, n).0.can_reconnect == p.can_reconnect,
    decreases n,
{
    if n > 0 {
        lemma_failed_reconnects_keeps_mode(p, (n - 1) as nat);
    }
}

/// A host's goodbye ends the session at once, whatever came before: there is
/// nothing to reconnect to.
pub proof fn law_goodbye_is_final(p: Pump, lived_ms: u64)
    ensures
        p.spec_step(PumpEvent::SessionEnded { peer_said_bye: true, lived_ms }).1 == PumpAction::Finish(
            PumpEnd::HostLeft,
        ),
{
}

/// A session that lived long enough wipes out earlier failures.
pub proof fn law_long_session_forgives(p: Pump, lived_ms: u64)
    requires
        p.can_reconnect,
        lived_ms >= MIN_GOOD_SESSION_MS,
    ensures
        p.spec_step(PumpEvent::SessionEnded { peer_said_bye: false, lived_ms }) == (
            Pump { fails: 0, ..p },
            PumpAction::Pause { delay_ms: 500 },
        ),
{
}

/// A network change is no failure. During a session it makes the pump leave
/// the link, with the failures counted so far unchanged; during the pause
/// before re-establishing it ends the pause, and the link is re-established
/// at once.
pub proof fn law_network_change_is_no_failure(p: Pump)
    requires
        p.wf(),
        p.can_reconnect,
    ensures
        p.spec_step(PumpEvent::NetworkChanged) == (p, PumpAction::Pause { delay_ms: spec_backoff_ms(p.fails) }),
        p.spec_step(PumpEvent::PauseOver) == (p, PumpAction::Reestablish),
{
}

/// The status the platform shell shows once the pump is over, given the status before.
pub open spec fn spec_final_status(end: PumpEnd, status: i32) -> i32 {
    match end {
        PumpEnd::HostLeft | PumpEnd::LinkLost => STATUS_FAILED,
        _ => if status == STATUS_CONNECTED || status == STATUS_CONNECTING {
            STATUS_OFF
        } else {
            status
        },
    }
}

/// The stop reason the platform shell shows once the pump is over, given the one before.
pub open spec fn spec_final_reason(end: PumpEnd, reason: i32) -> i32 {
    match end {
        PumpEnd::HostLeft => REASON_HOST_LEFT,
        PumpEnd::LinkLost => REASON_LINK_LOST,
        _ => reason,
    }
}

/// Status and stop reason after the pump: a session that ended on its own is
/// reported as such (status failed, with the reason), one the user stopped
/// leaves no error behind.
pub fn pump_outcome(end: PumpEnd, status: i32, reason: i32) -> (r: (i32, i32))
    ensures
        r.0 == spec_final_status(end, status),
        r.1 == spec_final_reason(end, reason),
{
    match end {
        PumpEnd::HostLeft => (STATUS_FAILED, REASON_HOST_LEFT),
        PumpEnd::LinkLost => (STATUS_FAILED, REASON_LINK_LOST),
        _ => {
            let s = if status == STATUS_CONNECTED || status == STATUS_CONNECTING {
                STATUS_OFF
            } else {
                status
            };
            (s, reason)
        },
    }
}

/// How many times phase one tries to establish the link.
pub const CONNECT_ATTEMPTS: u32 = 2;

/// What phase one does after attempt number `attempt` (from 1).
#[derive(Clone, Copy, PartialEq, Eq, Debug)]
pub enum ConnectNext {
    /// Try once more; the field is the next attempt's number.
    Retry(u32),
    /// The link is up.
    Established,
    /// Every attempt failed.
    Failed,
}

/// Phase one's decision after an attempt.
pub fn connect_next(attempt: u32, succeeded: bool) -> (r: ConnectNext)
    requires
        1 <= attempt <= CONNECT_ATTEMPTS,
    ensures
        succeeded ==> r == ConnectNext::Established,
        !succeeded && attempt < CONNECT_ATTEMPTS ==> r == ConnectNext::Retry((attempt + 1) as u32),
        !succeeded && attempt == CONNECT_ATTEMPTS ==> r == ConnectNext::Failed,
{
    if succeeded {
        ConnectNext::Established
    } else if attempt < CONNECT_ATTEMPTS {
        ConnectNext::Retry(attempt + 1)
    } else {
        ConnectNext::Failed
    }
}

/// Phase one's answer and the status it leaves: a link kept only when it came
/// up and no stop arrived meanwhile (then the status stays "connecting" until
/// phase two); otherwise "off".
pub fn connect_result(established: bool, cancelled: bool) -> (r: (bool, i32))
    ensures
        r.0 == (established && !cancelled),
        r.1 == if established && !cancelled {
            STATUS_CONNECTING
        } else {
            STATUS_OFF
        },
{
    if established && !cancelled {
        (true, STATUS_CONNECTING)
    } else {
        (false, STATUS_OFF)
    }
}

/// Phase two: with a pending link the pump starts and the status becomes
/// "connected"; without one phase two fails with status "failed".
pub fn start_tunnel_status(has_pending_link: bool) -> (r: (bool, i32))
    ensures
        r == if has_pending_link {
            (true, STATUS_CONNECTED)
        } else {
            (false, STATUS_FAILED)
        },
{
    if has_pending_link {
        (true, STATUS_CONNECTED)
    } else {
        (false, STATUS_FAILED)
    }
}

/// A tri-state flag from the platform shell: 1 yes, 0 no, anything else unknown.
pub fn tri(v: i32) -> (r: Option<bool>)
    ensures
        r == if v == 1 {
            Some(true)
        } else if v == 0 {
            Some(false)
        } else {
            None::<bool>
        },
{
    match v {
        1 => Some(true),
        0 => Some(false),
        _ => None,
    }
}

/// A ping from the platform shell: negative means no answer.
pub fn ping_ms(ms: i32) -> (r: Option<u32>)
    ensures
        r == if ms >= 0 {
            Some(ms as u32)
        } else {
            None::<u32>
        },
{
    if ms >= 0 {
        Some(ms as u32)
    } else {
        None
    }
}

/// The characters of `s` without NUL characters.
pub open spec fn without_nul(s: Seq<char>) -> Seq<char> {
    s.filter(|c: char| c != '\0')
}

/// A string made safe for a C string: interior NULs are cut out rather than
/// turning the whole answer into nothing.
pub fn strip_nul(s: &str) -> (r: String)
    ensures
        r@ == without_nul(s@),
{
    let cs = crate::text::chars_of(s);
    let mut out: Vec<char> = Vec::new();
    let mut i: usize = 0;
    while i < cs.len()
        invariant
            i <= cs@.len(),
            cs@ == s@,
            out@ == without_nul(cs@.take(i as int)),
        decreases cs@.len() - i,
    {
        proof {
            assert(cs@.take(i + 1).drop_last() =~= cs@.take(i as int));
            reveal(Seq::filter);
        }
        if cs[i] != '\0' {
            out.push(cs[i]);
        }
        i = i + 1;
    }
    assert(cs@.take(cs@.len() as int) =~= cs@);
    crate::text::string_of(out.as_slice())
}

/// The coordinator refused the code's signature (403): the one refusal that
/// heals itself by taking a fresh code.
pub fn stale_code_signature(e: &Error) -> (b: bool)
    ensures
        b == (e matches Error::Refused { code, .. } && code == 403),
{
    match e.refusal_code() {
        Some(c) => c == 403,
        None => false,
    }
}

/// The marker the shell gets when hosting could not start, by refusal code:
/// "!NAT" (422, the host cannot be reached from outside), "!SIG" (403, the
/// code is not ours and no fresh one could be had), empty otherwise.
pub fn host_start_sentinel(e: &Error) -> (s: &'static str)
    ensures
        s@ == spec_sentinel(*e),
{
    match e.refusal_code() {
        Some(422) => "!NAT",
        Some(403) => "!SIG",
        _ => "",
    }
}

/// The marker for a host start that failed with `e` (see
/// [`host_start_sentinel`]).
pub open spec fn spec_sentinel(e: Error) -> Seq<char> {
    if e matches Error::Refused { code, .. } && code == 422 {
        "!NAT"@
    } else if e matches Error::Refused { code, .. } && code == 403 {
        "!SIG"@
    } else {
        ""@
    }
}

/// What a host start does after an announcement.
#[derive(Clone, Copy, PartialEq, Eq, Debug)]
pub enum HostStartStep {
    /// The announcement went through: serve guests.
    Serve,
    /// The signature was stale: take a fresh code and announce once more.
    Heal,
    /// Give up; the shell gets this marker.
    Fail(&'static str),
}

/// Whether a host start takes a fresh code now: its first announcement
/// (not `healed` yet) was refused for a stale signature.
pub open spec fn heals_now(healed: bool, refused: Option<Error>) -> bool {
    !healed && (refused matches Some(e) && (e matches Error::Refused { code, .. } && code == 403))
}

/// The next step of a host start after an announcement that failed with
/// `refused` (`None`: it went through). A stale signature is healed once:
/// after the retry (`healed`), a refusal is final.
pub fn host_start_next(healed: bool, refused: Option<&Error>) -> (s: HostStartStep)
    ensures
        refused is None ==> s == HostStartStep::Serve,
        (s == HostStartStep::Heal) == heals_now(healed, opt_error(refused)),
        refused matches Some(e) ==> (!heals_now(healed, opt_error(refused)) ==> (s matches HostStartStep::Fail(m)
            && m@ == spec_sentinel(*e))),
{
    match refused {
        None => HostStartStep::Serve,
        Some(e) => {
            if !healed && stale_code_signature(e) {
                HostStartStep::Heal
            } else {
                HostStartStep::Fail(host_start_sentinel(e))
            }
        },
    }
}

/// The refusal behind an optional reference.
pub open spec fn opt_error(r: Option<&Error>) -> Option<Error> {
    match r {
        Some(e) => Some(*e),
        None => None,
    }
}

/// A host start heals a stale signature at most once: the first refusal for
/// a stale signature takes a fresh code, and after that retry a stale
/// signature ends the start with "!SIG" like any other refusal ends it with
/// its marker.
pub proof fn law_heal_at_most_once(refused: Option<Error>)
    ensures
        !heals_now(true, refused),
        (refused matches Some(e) && (e matches Error::Refused { code, .. } && code == 403)) ==> heals_now(
            false,
            refused,
        ) && spec_sentinel(refused->0) == "!SIG"@,
{
}

/// The guest limit the platform shell hands over: a positive number as it is,
/// anything else the default of eight.
pub fn host_max_guests(max_guests: i32) -> (n: u32)
    ensures
        n == if max_guests > 0 {
            max_guests as u32
        } else {
            8
        },
{
    if max_guests > 0 {
        max_guests as u32
    } else {
        8
    }
}

/// The configuration of a host started from the platform shell: the coordinator, a
/// stable id if given, the owner token, the code's signature, name,
/// password, visibility and guest limit, and the protocol if given.
pub fn host_start_config(
    coordinator: &str,
    host_id: &str,
    token: &str,
    code_sig: &str,
    name: &str,
    max_guests: i32,
    password: &str,
    protocol: &str,
    public: bool,
) -> (c: Config)
    ensures
        crate::stun::string_views(c.coordinators@) == seq![coordinator@],
        c.host.id@ == host_id@,
        c.host.token@ == token@,
        c.host.code_sig@ == code_sig@,
        c.host.name@ == name@,
        c.host.password@ == password@,
        c.host.public == public,
        c.host.max_guests == if max_guests > 0 {
            max_guests as u32
        } else {
            8
        },
        c.default_protocol@ == if protocol@.len() > 0 {
            protocol@
        } else {
            crate::config::DEFAULT_PROTOCOL@
        },
        c.source is None,
        c.guest.is_default(),
        c.stun.is_default(),
        c.server.is_default(),
        c.host.country_hint@ == "auto"@,
{
    let mut c = Config::default(None);
    let mut coordinators: Vec<String> = Vec::new();
    coordinators.push(String::from_str(coordinator));
    assert(crate::stun::string_views(coordinators@) =~= seq![coordinator@]);
    c.coordinators = coordinators;
    if !host_id.is_empty() {
        c.host.id = String::from_str(host_id);
    }
    c.host.token = String::from_str(token);
    c.host.code_sig = String::from_str(code_sig);
    c.host.name = String::from_str(name);
    c.host.password = String::from_str(password);
    c.host.public = public;
    c.host.max_guests = host_max_guests(max_guests);
    if !protocol.is_empty() {
        c.default_protocol = String::from_str(protocol);
    }
    c
}

/// Whether a refusal heals: a stale signature, and a fresh code with its
/// signature at hand.
pub open spec fn heals(refused: Error, fresh: Option<(String, String)>) -> bool {
    &&& (refused matches Error::Refused { code, .. } && code == 403)
    &&& (fresh matches Some((c, s)) && c@.len() > 0 && s@.len() > 0)
}

/// After a refused announcement: a stale signature (403) heals itself with a
/// fresh code from the server, when both the code and its signature came.
/// Returns the configuration to announce with, or `None` to keep the error.
pub fn heal_with_fresh_code(cfg: &Config, refused: &Error, fresh: Option<(String, String)>) -> (r: Option<Config>)
    ensures
        r is Some <==> heals(*refused, fresh),
        r matches Some(c) ==> (fresh matches Some((code, sig)) && c.host.id@ == code@ && c.host.code_sig@ == sig@
            && c.coordinators@ == cfg.coordinators@ && c.host.token == cfg.host.token && c.host.password
            == cfg.host.password && c.host.max_guests == cfg.host.max_guests && c.host.name == cfg.host.name
            && c.host.public == cfg.host.public && c.default_protocol == cfg.default_protocol
            && c.host.country_hint == cfg.host.country_hint && c.guest.ipv6 == cfg.guest.ipv6 && c.stun.file
            == cfg.stun.file && c.stun.servers@ == cfg.stun.servers@ && c.server.bind == cfg.server.bind
            && c.server.domain == cfg.server.domain && c.server.acme_email == cfg.server.acme_email
            && c.server.acme_cache == cfg.server.acme_cache && c.server.tls_cert == cfg.server.tls_cert
            && c.server.tls_key == cfg.server.tls_key && c.source == cfg.source),
{
    if !stale_code_signature(refused) {
        return None;
    }
    match fresh {
        Some((code, sig)) => {
            if code.as_str().is_empty() || sig.as_str().is_empty() {
                return None;
            }
            let mut c = cfg.duplicate();
            c.host.id = code;
            c.host.code_sig = sig;
            Some(c)
        },
        None => None,
    }
}

/// What the platform shell answers a successful host start: the code and its
/// signature, separated by a bar (the failure markers have none).
pub fn host_start_reply(host_id: &str, sig: &str) -> (s: String)
    ensures
        s@ == host_id@ + "|"@ + sig@,
{
    let mut s = String::from_str(host_id);
    s.append("|");
    s.append(sig);
    s
}

/// Whether the cached signalling engine can serve `coordinator`: only the
/// one made for that very address.
pub fn reuse_engine(cached_for: Option<&str>, coordinator: &str) -> (b: bool)
    ensures
        b == (cached_for matches Some(u) && u@ == coordinator@),
{
    match cached_for {
        Some(u) => crate::text::str_eq(u, coordinator),
        None => false,
    }
}

/// The trimmed pieces that are not empty.
pub open spec fn trimmed_non_empty(ps: Seq<Seq<char>>) -> Seq<Seq<char>> {
    ps.map_values(|p: Seq<char>| crate::text::trimmed(p)).filter(|p: Seq<char>| p.len() > 0)
}

/// A host's addresses as a shell hands them over: comma separated, each
/// trimmed, empty ones dropped.
pub open spec fn spec_endpoint_list(s: Seq<char>) -> Seq<Seq<char>> {
    trimmed_non_empty(crate::text::split_char(s, ','))
}

/// Read a comma-separated list of addresses (see [`spec_endpoint_list`]).
pub fn endpoint_list(s: &str) -> (r: Vec<String>)
    ensures
        crate::stun::string_views(r@) == spec_endpoint_list(s@),
{
    let cs = crate::text::chars_of(s);
    let ps = crate::text::split_on(cs.as_slice(), ',');
    let ghost pv = crate::text::views(ps@);
    let mut r: Vec<String> = Vec::new();
    let mut i: usize = 0;
    while i < ps.len()
        invariant
            i <= ps@.len(),
            pv == crate::text::views(ps@),
            crate::stun::string_views(r@) == trimmed_non_empty(pv.take(i as int)),
        decreases ps@.len() - i,
    {
        let t = crate::text::trim_chars(ps[i].as_slice());
        proof {
            assert(pv[i as int] == ps@[i as int]@);
            let m0 = pv.take(i as int).map_values(|p: Seq<char>| crate::text::trimmed(p));
            let m1 = pv.take(i + 1).map_values(|p: Seq<char>| crate::text::trimmed(p));
            assert(m1 =~= m0.push(t@));
            assert(m1.drop_last() =~= m0);
            reveal(Seq::filter);
            assert(trimmed_non_empty(pv.take(i + 1)) == m1.filter(|p: Seq<char>| p.len() > 0));
            assert(m1.filter(|p: Seq<char>| p.len() > 0) == if t@.len() > 0 {
                m0.filter(|p: Seq<char>| p.len() > 0).push(t@)
            } else {
                m0.filter(|p: Seq<char>| p.len() > 0)
            });
        }
        if t.len() > 0 {
            let ghost before = crate::stun::string_views(r@);
            r.push(crate::text::string_of(t.as_slice()));
            assert(crate::stun::string_views(r@) =~= before.push(t@));
        }
        i = i + 1;
    }
    assert(pv.take(ps@.len() as int) =~= pv);
    r
}

/// A latency for the platform shell: milliseconds (at most `i32::MAX`), or -1 for
/// no answer.
pub fn rtt_reply(r: Option<u32>) -> (ms: i32)
    ensures
        ms == match r {
            Some(v) => if v <= i32::MAX {
                v as i32
            } else {
                i32::MAX
            },
            None => -1i32,
        },
{
    match r {
        Some(v) => if v <= 0x7fff_ffff {
            v as i32
        } else {
            0x7fff_ffff
        },
        None => -1,
    }
}

/// A fresh host code for the platform shell: the code and its signature separated
/// by a bar, or nothing when no code came.
pub fn new_code_reply(code: &str, sig: &str) -> (s: String)
    ensures
        s@ == if code@.len() == 0 {
            Seq::<char>::empty()
        } else {
            code@ + "|"@ + sig@
        },
{
    if code.is_empty() {
        String::new()
    } else {
        host_start_reply(code, sig)
    }
}

/// The address a catalog card shows: the host's own IP if it has one, else
/// its first address, else nothing.
pub fn card_ip(ip: &str, endpoints: &[String]) -> (s: String)
    ensures
        s@ == if ip@.len() > 0 {
            ip@
        } else if endpoints@.len() > 0 {
            endpoints@[0]@
        } else {
            Seq::<char>::empty()
        },
{
    if !ip.is_empty() {
        String::from_str(ip)
    } else if endpoints.len() > 0 {
        endpoints[0].clone()
    } else {
        String::new()
    }
}

/// Texts joined by commas.
pub open spec fn comma_joined(v: Seq<Seq<char>>) -> Seq<char>
    decreases v.len(),
{
    if v.len() == 0 {
        Seq::empty()
    } else if v.len() == 1 {
        v[0]
    } else {
        comma_joined(v.drop_last()) + ","@ + v.last()
    }
}

/// A card's addresses in one line, comma separated (see [`comma_joined`]).
pub fn join_endpoints(endpoints: &[String]) -> (s: String)
    ensures
        s@ == comma_joined(crate::stun::string_views(endpoints@)),
{
    let ghost ev = crate::stun::string_views(endpoints@);
    let mut s = String::new();
    let mut i: usize = 0;
    while i < endpoints.len()
        invariant
            i <= endpoints@.len(),
            ev == crate::stun::string_views(endpoints@),
            s@ == comma_joined(ev.take(i as int)),
        decreases endpoints@.len() - i,
    {
        proof {
            assert(ev.take(i + 1).drop_last() =~= ev.take(i as int));
            assert(ev.take(i + 1).last() == endpoints@[i as int]@);
        }
        if i > 0 {
            s.append(",");
        } else {
            assert(ev.take(1) =~= seq![endpoints@[0]@]);
        }
        s.append(endpoints[i].as_str());
        i = i + 1;
    }
    assert(ev.take(endpoints@.len() as int) =~= ev);
    s
}

} // verus!
