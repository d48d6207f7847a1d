//! Liveness of a link between two peers: keepalive and goodbye markers, the
//! silence deadline, the coordinator's "check your peer" hint, and the
//! persistent farewell.
//!
//! UDP does not signal a broken path, so each side pings the other at random
//! intervals and treats a long silence as the end. The receive loop itself
//! runs in the shell (it awaits the link and a timer); what it does with each
//! event is decided here.

use vstd::prelude::*;

verus! {

/// The keepalive marker: one zero byte. No IP packet looks like it (at least
/// 20 bytes, version 4 or 6 in the high nibble).
pub const KEEPALIVE: u8 = 0;
/// The goodbye marker: the peer closes the link on purpose.
pub const BYE: u8 = 1;
/// "Are you still there?": the receiver answers with a keepalive at once.
pub const PROBE: u8 = 2;

/// Bounds of the random keepalive interval.
pub const PING_MIN_MS: u64 = 1500;
pub const PING_MAX_MS: u64 = 3500;
/// Silence after which the peer counts as dead.
pub const DEAD_AFTER_MS: u64 = 8000;
/// Silence allowed after the coordinator hinted that the peer may be gone.
pub const PEER_CHECK_GRACE_MS: u64 = 4000;
/// How often the goodbye is sent, and the pause between two sends.
pub const BYE_REPEATS: usize = 3;
pub const BYE_GAP_MS: u64 = 150;

/// What a received packet is.
#[derive(Clone, Copy, PartialEq, Eq, Debug)]
pub enum Frame {
    Keepalive,
    Bye,
    Probe,
    Data,
}

/// The kind of a packet: the three one-byte markers, or data.
pub open spec fn spec_frame(p: Seq<u8>) -> Frame {
    if p.len() == 1 && p[0] == KEEPALIVE {
        Frame::Keepalive
    } else if p.len() == 1 && p[0] == BYE {
        Frame::Bye
    } else if p.len() == 1 && p[0] == PROBE {
        Frame::Probe
    } else {
        Frame::Data
    }
}

/// The kind of a received packet (see [`spec_frame`]).
pub fn classify_frame(p: &[u8]) -> (f: Frame)
    ensures
        f == spec_frame(p@),
{
    if p.len() == 1 && p[0] == KEEPALIVE {
        Frame::Keepalive
    } else if p.len() == 1 && p[0] == BYE {
        Frame::Bye
    } else if p.len() == 1 && p[0] == PROBE {
        Frame::Probe
    } else {
        Frame::Data
    }
}

/// What happened while waiting for the next packet.
#[derive(Clone, Copy, PartialEq, Eq, Debug)]
pub enum WatchEvent {
    /// The coordinator hinted that the peer may be gone.
    Hint,
    /// A packet arrived.
    Received(Frame),
    /// The underlying link reported its end.
    Closed,
    /// The underlying link failed.
    Failed,
    /// Nothing arrived within the current deadline.
    Silence,
}

/// A marker the receive loop sends back.
#[derive(Clone, Copy, PartialEq, Eq, Debug)]
pub enum Signal {
    Keepalive,
    Probe,
}

/// What the receive loop does next.
#[derive(Clone, Copy, PartialEq, Eq, Debug)]
pub enum WatchAction {
    /// Send `send` first (if any), then wait up to `wait_ms` for the next packet.
    Listen { send: Option<Signal>, wait_ms: u64 },
    /// Hand the packet to the caller.
    Deliver,
    /// The link is over; `peer_said_bye` when the peer said goodbye.
    End { peer_said_bye: bool },
    /// Pass the link's error on.
    Error,
}

/// The receive loop's memory: the current silence deadline.
#[derive(Clone, Copy, PartialEq, Eq, Debug)]
pub struct Watch {
    pub wait_ms: u64,
}

impl Watch {
    /// The deadline is always one of the two: normal or shortened by a hint.
    pub open spec fn wf(self) -> bool {
        self.wait_ms == DEAD_AFTER_MS || self.wait_ms == PEER_CHECK_GRACE_MS
    }

    /// The receive loop's answer to one event.
    pub open spec fn spec_step(self, ev: WatchEvent) -> (Watch, WatchAction) {
        match ev {
            WatchEvent::Hint => (
                Watch { wait_ms: PEER_CHECK_GRACE_MS },
                WatchAction::Listen { send: Some(Signal::Probe), wait_ms: PEER_CHECK_GRACE_MS },
            ),
            WatchEvent::Received(Frame::Keepalive) => (
                Watch { wait_ms: DEAD_AFTER_MS },
                WatchAction::Listen { send: None, wait_ms: DEAD_AFTER_MS },
            ),
            WatchEvent::Received(Frame::Probe) => (
                Watch { wait_ms: DEAD_AFTER_MS },
                WatchAction::Listen { send: Some(Signal::Keepalive), wait_ms: DEAD_AFTER_MS },
            ),
            WatchEvent::Received(Frame::Bye) => (self, WatchAction::End { peer_said_bye: true }),
            WatchEvent::Received(Frame::Data) => (self, WatchAction::Deliver),
            WatchEvent::Closed => (self, WatchAction::End { peer_said_bye: false }),
            WatchEvent::Silence => (self, WatchAction::End { peer_said_bye: false }),
            WatchEvent::Failed => (self, WatchAction::Error),
        }
    }

    /// A receive call starts with the normal deadline.
    pub fn new() -> (w: Watch)
        ensures
            w.wf(),
            w.wait_ms == DEAD_AFTER_MS,
    {
        Watch { wait_ms: DEAD_AFTER_MS }
    }

    /// The receive loop's answer to one event (see [`Watch::spec_step`]).
    pub fn step(self, ev: WatchEvent) -> (r: (Watch, WatchAction))
        requires
            self.wf(),
        ensures
            r == self.spec_step(ev),
            r.0.wf(),
    {
        match ev {
            WatchEvent::Hint => (
                Watch { wait_ms: PEER_CHECK_GRACE_MS },
                WatchAction::Listen { send: Some(Signal::Probe), wait_ms: PEER_CHECK_GRACE_MS },
            ),
            WatchEvent::Received(Frame::Keepalive) => (
                Watch { wait_ms: DEAD_AFTER_MS },
                WatchAction::Listen { send: None, wait_ms: DEAD_AFTER_MS },
            ),
            WatchEvent::Received(Frame::Probe) => (
                Watch { wait_ms: DEAD_AFTER_MS },
                WatchAction::Listen { send: Some(Signal::Keepalive), wait_ms: DEAD_AFTER_MS },
            ),
            WatchEvent::Received(Frame::Bye) => (self, WatchAction::End { peer_said_bye: true }),
            WatchEvent::Received(Frame::Data) => (self, WatchAction::Deliver),
            WatchEvent::Closed => (self, WatchAction::End { peer_said_bye: false }),
            WatchEvent::Silence => (self, WatchAction::End { peer_said_bye: false }),
            WatchEvent::Failed => (self, WatchAction::Error),
        }
    }
}

/// A hint is no order to cut the link: by itself it never ends the session,
/// it only shortens the silence deadline and asks the peer; and the shortened
/// deadline still leaves a live peer time to prove itself, since it outlasts
/// the longest keepalive interval. Any sign of life restores the normal one.
pub proof fn law_hint_never_kills_a_live_peer(w: Watch, f: Frame)
    requires
        w.wf(),
        f == Frame::Keepalive || f == Frame::Probe,
    ensures
        w.spec_step(WatchEvent::Hint).1 == (WatchAction::Listen {
            send: Some(Signal::Probe),
            wait_ms: PEER_CHECK_GRACE_MS,
        }),
        PING_MAX_MS < PEER_CHECK_GRACE_MS < DEAD_AFTER_MS,
        w.spec_step(WatchEvent::Received(f)).0.wait_ms == DEAD_AFTER_MS,
        w.spec_step(WatchEvent::Received(f)).1 is Listen,
{
}

/// A silent peer is a dead peer: once nothing arrived within the deadline,
/// whichever one is running (normal, or shortened by a hint), the link ends
/// as lost, not as a goodbye; and no deadline the loop waits on is longer
/// than the normal one, so a dead peer is found out within it.
pub proof fn law_silence_means_dead(w: Watch, ev: WatchEvent)
    requires
        w.wf(),
    ensures
        w.spec_step(WatchEvent::Silence).1 == (WatchAction::End { peer_said_bye: false }),
        w.spec_step(ev).0.wf(),
        w.spec_step(ev).1 matches WatchAction::Listen { wait_ms, .. } ==> wait_ms <= DEAD_AFTER_MS,
{
}

/// One lost keepalive never looks like a broken link: the normal deadline
/// outlasts two of the longest keepalive intervals.
pub proof fn law_one_lost_keepalive_is_tolerated()
    ensures
        2 * PING_MAX_MS < DEAD_AFTER_MS,
{
}

/// Markers never reach the caller as data, and only a goodbye is reported as
/// one.
pub proof fn law_markers_stay_inside(w: Watch, ev: WatchEvent)
    requires
        w.wf(),
    ensures
        w.spec_step(ev).1 == WatchAction::Deliver <==> ev == WatchEvent::Received(Frame::Data),
        w.spec_step(ev).1 == (WatchAction::End { peer_said_bye: true }) <==> ev == WatchEvent::Received(
            Frame::Bye,
        ),
{
}

/// The pause before the next keepalive: random within the bounds, so that the
/// link has no period for traffic analysis to lock onto.
pub fn ping_delay_ms() -> (ms: u64)
    ensures
        PING_MIN_MS <= ms <= PING_MAX_MS,
{
    crate::ids::random_in_range(PING_MIN_MS, PING_MAX_MS)
}

/// Whether the pinger goes on after a round: not once the link is stopped,
/// and not once sending failed.
pub fn pinger_continues(stopped: bool, send_ok: bool) -> (b: bool)
    ensures
        b == (!stopped && send_ok),
{
    !stopped && send_ok
}

/// Taking the farewell: whoever takes it first says goodbye, every later
/// taker does not. Returns the new "stopped" flag and whether to say goodbye.
pub fn take_farewell(stopped: bool) -> (r: (bool, bool))
    ensures
        r == (true, !stopped),
{
    (true, !stopped)
}

/// Goodbye is said once: of two takers (`close` and drop, in either order)
/// at most one sends it, and on a link not yet stopped one of them does.
pub proof fn law_goodbye_once(stopped: bool)
    ensures
        ({
            let (s1, say1) = (true, !stopped);
            let (s2, say2) = (true, !s1);
            &&& !(say1 && say2)
            &&& !stopped ==> say1 || say2
        }),
{
}

/// After `sent` goodbyes (the last one going out with `send_ok`), the pause
/// before the next one, or `None` when the farewell is over: three sends
/// spread out in time, stopping early once the path is dead.
pub fn farewell_next(sent: usize, send_ok: bool) -> (r: Option<u64>)
    ensures
        r == if send_ok && sent < BYE_REPEATS {
            Some(BYE_GAP_MS)
        } else {
            None::<u64>
        },
{
    if send_ok && sent < BYE_REPEATS {
        Some(BYE_GAP_MS)
    } else {
        None
    }
}

} // verus!
